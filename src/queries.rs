use vstd::prelude::*;
use vstd::string::*;
use crate::screen::{lower_of, lowercase, occurs_in, text_contains};
use crate::store::TrackStore;
use crate::edits::{contains_id, contains_text};
use crate::track::{Track, TrackModel, RecordModel, TrackVisibility};
use crate::types::{Activity, Comment, Payment};

verus! {

/// Per-track figures computed on demand.
#[derive(Clone, Copy, Debug, PartialEq, Eq, Structural)]
pub struct TrackAnalytics {
    pub play_count: u64,
    pub revenue: u64,
    pub comments_count: u64,
    pub ratings_count: u64,
    pub avg_rating: u8,
}

/// The largest track file accepted, in bytes.
pub const MAX_FILE_SIZE: usize = 10 * 1024 * 1024;

/// Why a track file upload is refused.
#[derive(Clone, Copy, Debug, PartialEq, Eq, Structural)]
pub enum UploadError {
    TooLarge,
    TrackNotFound,
    NotAuthorized,
}

impl UploadError {
    /// A human-readable description.
    pub fn message(&self) -> (r: String)
        ensures
            r@ == upload_error_text(*self),
    {
        match self {
            UploadError::TooLarge => String::from_str("File too large (max 10MB)"),
            UploadError::TrackNotFound => String::from_str("Track not found"),
            UploadError::NotAuthorized => String::from_str("Not authorized to upload file for this track"),
        }
    }
}

pub open spec fn upload_error_text(e: UploadError) -> Seq<char> {
    match e {
        UploadError::TooLarge => "File too large (max 10MB)"@,
        UploadError::TrackNotFound => "Track not found"@,
        UploadError::NotAuthorized => "Not authorized to upload file for this track"@,
    }
}

/// The sum of the ratings' values.
pub open spec fn rating_sum(s: Seq<(u64, u8)>) -> int
    decreases s.len(),
{
    if s.len() == 0 {
        0
    } else {
        rating_sum(s.drop_last()) + s.last().1
    }
}

/// The sum of the payments' amounts.
pub open spec fn payment_sum(s: Seq<Payment>) -> int
    decreases s.len(),
{
    if s.len() == 0 {
        0
    } else {
        payment_sum(s.drop_last()) + s.last().amount
    }
}

/// The mean rating rounded down, 0 without ratings.
pub open spec fn mean_rating(s: Seq<(u64, u8)>) -> int {
    if s.len() == 0 {
        0
    } else {
        rating_sum(s) / (s.len() as int)
    }
}

/// `n`, or `cap` when `n` is larger.
pub open spec fn capped(n: int, cap: int) -> int {
    if n <= cap {
        n
    } else {
        cap
    }
}

proof fn lemma_rating_sum_bound(s: Seq<(u64, u8)>)
    ensures
        0 <= rating_sum(s) <= 255 * s.len(),
    decreases s.len(),
{
    if s.len() > 0 {
        lemma_rating_sum_bound(s.drop_last());
    }
}

proof fn lemma_payment_sum_bound(s: Seq<Payment>)
    ensures
        0 <= payment_sum(s) <= u64::MAX * s.len(),
    decreases s.len(),
{
    if s.len() > 0 {
        lemma_payment_sum_bound(s.drop_last());
    }
}

pub(crate) fn sum_ratings(v: &Vec<(u64, u8)>) -> (r: u128)
    ensures
        r == rating_sum(v@),
{
    let mut sum: u128 = 0;
    let mut i: usize = 0;
    while i < v.len()
        invariant
            i <= v@.len(),
            sum == rating_sum(v@.subrange(0, i as int)),
        decreases v@.len() - i,
    {
        proof {
            lemma_rating_sum_bound(v@.subrange(0, i as int));
            assert(v@.subrange(0, i as int + 1).drop_last() =~= v@.subrange(0, i as int));
        }
        sum = sum + v[i].1 as u128;
        i = i + 1;
    }
    assert(v@.subrange(0, v@.len() as int) =~= v@);
    sum
}

pub(crate) fn sum_payments(v: &Vec<Payment>) -> (r: u128)
    ensures
        r == payment_sum(v@),
{
    let mut sum: u128 = 0;
    let mut i: usize = 0;
    while i < v.len()
        invariant
            i <= v@.len(),
            sum == payment_sum(v@.subrange(0, i as int)),
        decreases v@.len() - i,
    {
        proof {
            lemma_payment_sum_bound(v@.subrange(0, i as int));
            assert(v@.subrange(0, i as int + 1).drop_last() =~= v@.subrange(0, i as int));
            assert(u64::MAX * i <= u64::MAX * usize::MAX) by (nonlinear_arith)
                requires
                    i <= usize::MAX,
            ;
        }
        sum = sum + v[i].amount as u128;
        i = i + 1;
    }
    assert(v@.subrange(0, v@.len() as int) =~= v@);
    sum
}

fn mean_of(v: &Vec<(u64, u8)>) -> (r: u8)
    ensures
        r == mean_rating(v@),
{
    if v.len() == 0 {
        return 0;
    }
    let sum = sum_ratings(v);
    proof {
        lemma_rating_sum_bound(v@);
        assert(rating_sum(v@) / (v@.len() as int) <= 255) by (nonlinear_arith)
            requires
                0 <= rating_sum(v@) <= 255 * v@.len(),
                v@.len() > 0,
        ;
    }
    (sum / (v.len() as u128)) as u8
}

/// The tracks of `s` that satisfy `p`, in store order.
pub open spec fn tracks_where(s: TrackStore, p: spec_fn(TrackModel) -> bool) -> Seq<TrackModel> {
    s@.map_values(|r: crate::track::RecordModel| r.track).filter(p)
}

impl TrackStore {
    /// The number of ratings of a track (capped at `u32::MAX`) and their
    /// mean rounded down; `(0, 0)` for an unknown or unrated track.
    pub fn get_track_rating(&self, track_id: u64) -> (r: (u32, u8))
        requires
            self.wf(),
        ensures
            !self.has(track_id) ==> r == (0u32, 0u8),
            self.has(track_id) ==> r.0 == capped(self.track(track_id).ratings.len() as int, u32::MAX as int)
                && r.1 == mean_rating(self.track(track_id).ratings),
    {
        match self.find(track_id) {
            Some(i) => {
                let ratings = &self.records[i].track.ratings;
                let n = if ratings.len() as u128 <= u32::MAX as u128 {
                    ratings.len() as u32
                } else {
                    u32::MAX
                };
                (n, mean_of(ratings))
            },
            None => (0, 0),
        }
    }

    /// Play count, revenue (the payments' sum, capped at `u64::MAX`),
    /// comment and rating counts and mean rating of a track.
    pub fn get_track_analytics(&self, track_id: u64) -> (r: Option<TrackAnalytics>)
        requires
            self.wf(),
        ensures
            r is Some <==> self.has(track_id),
            (r matches Some(a) ==> {
                let t = self.track(track_id);
                &&& a.play_count == t.play_count
                &&& a.revenue == capped(payment_sum(t.payments), u64::MAX as int)
                &&& a.comments_count == t.comments.len()
                &&& a.ratings_count == t.ratings.len()
                &&& a.avg_rating == mean_rating(t.ratings)
            }),
    {
        match self.find(track_id) {
            Some(i) => {
                let t = &self.records[i].track;
                let total = sum_payments(&t.payments);
                let revenue = if total <= u64::MAX as u128 {
                    total as u64
                } else {
                    u64::MAX
                };
                Some(
                    TrackAnalytics {
                        play_count: t.play_count,
                        revenue,
                        comments_count: t.comments.len() as u64,
                        ratings_count: t.ratings.len() as u64,
                        avg_rating: mean_of(&t.ratings),
                    },
                )
            },
            None => None,
        }
    }

    /// A track's comments, empty for an unknown track.
    pub fn list_comments(&self, track_id: u64) -> (r: Vec<Comment>)
        requires
            self.wf(),
        ensures
            self.has(track_id) ==> r@ == self.track(track_id).comments,
            !self.has(track_id) ==> r@.len() == 0,
    {
        match self.find(track_id) {
            Some(i) => {
                let c = self.records[i].track.comments.clone();
                assert(c@ =~= self.records[i as int].track.comments@);
                c
            },
            None => Vec::new(),
        }
    }

    /// A track's payments, oldest first; empty for an unknown track.
    pub fn get_payment_history(&self, track_id: u64) -> (r: Vec<Payment>)
        requires
            self.wf(),
        ensures
            self.has(track_id) ==> r@ == self.track(track_id).payments,
            !self.has(track_id) ==> r@.len() == 0,
    {
        match self.find(track_id) {
            Some(i) => {
                let c = self.records[i].track.payments.clone();
                assert(c@ =~= self.records[i as int].track.payments@);
                c
            },
            None => Vec::new(),
        }
    }

    /// A track's visibility, if the track exists.
    pub fn get_track_visibility(&self, track_id: u64) -> (r: Option<TrackVisibility>)
        requires
            self.wf(),
        ensures
            r == (if self.has(track_id) {
                Some(self.track(track_id).visibility)
            } else {
                None
            }),
    {
        match self.find(track_id) {
            Some(i) => Some(self.records[i].track.visibility),
            None => None,
        }
    }

    /// A track's genre, if the track exists and has one.
    pub fn get_genre(&self, track_id: u64) -> (r: Option<String>)
        requires
            self.wf(),
        ensures
            crate::types::text_view(r) == (if self.has(track_id) {
                self.track(track_id).genre
            } else {
                None
            }),
    {
        match self.find(track_id) {
            Some(i) => crate::types::copy_text(&self.records[i].track.genre),
            None => None,
        }
    }

    /// Whether a track exists and may be downloaded.
    pub fn can_download_track(&self, track_id: u64) -> (r: bool)
        requires
            self.wf(),
        ensures
            r == (self.has(track_id) && self.track(track_id).downloadable),
    {
        match self.find(track_id) {
            Some(i) => self.records[i].track.downloadable,
            None => false,
        }
    }

    /// Copies of all tracks, in id order.
    pub fn list_tracks(&self) -> (r: Vec<Track>)
        requires
            self.wf(),
        ensures
            r@.map_values(|t: Track| t@) == self@.map_values(|x: crate::track::RecordModel| x.track),
    {
        let mut out: Vec<Track> = Vec::new();
        let mut i: usize = 0;
        while i < self.records.len()
            invariant
                i <= self@.len(),
                out@.len() == i,
                forall|k: int| 0 <= k < i ==> (#[trigger] out@[k])@ == self@[k].track,
            decreases self@.len() - i,
        {
            out.push(self.records[i].track.clone());
            i = i + 1;
        }
        assert(out@.map_values(|t: Track| t@) =~= self@.map_values(
            |x: crate::track::RecordModel| x.track,
        ));
        out
    }

    /// Copies of the tracks that satisfy `p`, given the verdict of `p` on
    /// each stored track.
    fn collect_where(&self, keep: &Vec<bool>, p: Ghost<spec_fn(TrackModel) -> bool>) -> (r: Vec<Track>)
        requires
            keep@.len() == self@.len(),
            forall|k: int| 0 <= k < keep@.len() ==> keep@[k] == (p@)(#[trigger] self@[k].track),
        ensures
            r@.map_values(|t: Track| t@) == tracks_where(*self, p@),
    {
        let ghost all = self@.map_values(|x: RecordModel| x.track);
        let mut out: Vec<Track> = Vec::new();
        let mut i: usize = 0;
        while i < self.records.len()
            invariant
                all == self@.map_values(|x: RecordModel| x.track),
                keep@.len() == self@.len(),
                forall|k: int| 0 <= k < keep@.len() ==> keep@[k] == (p@)(#[trigger] self@[k].track),
                i <= self@.len(),
                out@.map_values(|t: Track| t@) == all.subrange(0, i as int).filter(p@),
            decreases self@.len() - i,
        {
            let ghost prev = out@.map_values(|t: Track| t@);
            let ghost sub = all.subrange(0, i as int + 1);
            assert(sub.drop_last() =~= all.subrange(0, i as int));
            assert(sub.last() == self@[i as int].track);
            reveal(Seq::filter);
            if keep[i] {
                out.push(self.records[i].track.clone());
                assert(out@.map_values(|t: Track| t@) =~= prev.push(self@[i as int].track));
            }
            i = i + 1;
        }
        assert(all.subrange(0, all.len() as int) =~= all);
        out
    }

    /// The tracks that list `artist_id` among their contributors.
    pub fn search_tracks_by_contributor(&self, artist_id: u64) -> (r: Vec<Track>)
        requires
            self.wf(),
        ensures
            r@.map_values(|t: Track| t@) == tracks_where(
                *self,
                |t: TrackModel| t.contributors.contains(artist_id),
            ),
    {
        let ghost p = |t: TrackModel| t.contributors.contains(artist_id);
        let mut keep: Vec<bool> = Vec::new();
        let mut i: usize = 0;
        while i < self.records.len()
            invariant
                p == (|t: TrackModel| t.contributors.contains(artist_id)),
                i <= self@.len(),
                keep@.len() == i,
                forall|k: int| 0 <= k < i ==> keep@[k] == p(#[trigger] self@[k].track),
            decreases self@.len() - i,
        {
            keep.push(contains_id(&self.records[i].track.contributors, artist_id));
            i = i + 1;
        }
        self.collect_where(&keep, Ghost(p))
    }

    /// The tracks that carry `tag`.
    pub fn search_tracks_by_tag(&self, tag: &String) -> (r: Vec<Track>)
        requires
            self.wf(),
        ensures
            r@.map_values(|t: Track| t@) == tracks_where(*self, |t: TrackModel| t.tags.contains(tag@)),
    {
        let ghost p = |t: TrackModel| t.tags.contains(tag@);
        let mut keep: Vec<bool> = Vec::new();
        let mut i: usize = 0;
        while i < self.records.len()
            invariant
                p == (|t: TrackModel| t.tags.contains(tag@)),
                i <= self@.len(),
                keep@.len() == i,
                forall|k: int| 0 <= k < i ==> keep@[k] == p(#[trigger] self@[k].track),
            decreases self@.len() - i,
        {
            keep.push(contains_text(&self.records[i].track.tags, tag));
            i = i + 1;
        }
        self.collect_where(&keep, Ghost(p))
    }

    /// The tracks whose genre is `genre`.
    pub fn search_tracks_by_genre(&self, genre: &String) -> (r: Vec<Track>)
        requires
            self.wf(),
        ensures
            r@.map_values(|t: Track| t@) == tracks_where(*self, |t: TrackModel| t.genre == Some(genre@)),
    {
        let ghost p = |t: TrackModel| t.genre == Some(genre@);
        let mut keep: Vec<bool> = Vec::new();
        let mut i: usize = 0;
        while i < self.records.len()
            invariant
                p == (|t: TrackModel| t.genre == Some(genre@)),
                i <= self@.len(),
                keep@.len() == i,
                forall|k: int| 0 <= k < i ==> keep@[k] == p(#[trigger] self@[k].track),
            decreases self@.len() - i,
        {
            let hit = match &self.records[i].track.genre {
                Some(g) => *g == *genre,
                None => false,
            };
            keep.push(hit);
            i = i + 1;
        }
        self.collect_where(&keep, Ghost(p))
    }

    /// The tracks whose lowercased title contains the lowercased query.
    pub fn search_tracks_by_title(&self, query: &str) -> (r: Vec<Track>)
        requires
            self.wf(),
        ensures
            r@.map_values(|t: Track| t@) == tracks_where(
                *self,
                |t: TrackModel| occurs_in(lower_of(query@), lower_of(t.title)),
            ),
    {
        let q = lowercase(query);
        let ghost p = |t: TrackModel| occurs_in(lower_of(query@), lower_of(t.title));
        let mut keep: Vec<bool> = Vec::new();
        let mut i: usize = 0;
        while i < self.records.len()
            invariant
                q@ == lower_of(query@),
                p == (|t: TrackModel| occurs_in(lower_of(query@), lower_of(t.title))),
                i <= self@.len(),
                keep@.len() == i,
                forall|k: int| 0 <= k < i ==> keep@[k] == p(#[trigger] self@[k].track),
            decreases self@.len() - i,
        {
            let title = lowercase(self.records[i].track.title.as_str());
            keep.push(text_contains(title.as_str(), q.as_str()));
            i = i + 1;
        }
        self.collect_where(&keep, Ghost(p))
    }

    /// Decides whether `user_id` may store a file of `data_len` bytes for
    /// a track: the file must fit the size cap, the track must exist, and
    /// the user must be one of its contributors.
    pub fn check_track_upload(&self, track_id: u64, data_len: usize, user_id: u64) -> (r: Result<
        (),
        UploadError,
    >)
        requires
            self.wf(),
        ensures
            r == (if data_len > MAX_FILE_SIZE {
                Err(UploadError::TooLarge)
            } else if !self.has(track_id) {
                Err(UploadError::TrackNotFound)
            } else if !self.track(track_id).contributors.contains(user_id) {
                Err(UploadError::NotAuthorized)
            } else {
                Ok(())
            }),
    {
        if data_len > MAX_FILE_SIZE {
            return Err(UploadError::TooLarge);
        }
        match self.find(track_id) {
            Some(i) => {
                if contains_id(&self.records[i].track.contributors, user_id) {
                    Ok(())
                } else {
                    Err(UploadError::NotAuthorized)
                }
            },
            None => Err(UploadError::TrackNotFound),
        }
    }

    /// The last `count` entries of the activity log, oldest first; all of
    /// them when there are fewer.
    pub fn get_recent_activity(&self, count: u32) -> (r: Vec<Activity>)
        ensures
            r@ == self.activity@.subrange(
                if self.activity@.len() > count { self.activity@.len() - count } else { 0 },
                self.activity@.len() as int,
            ),
    {
        let len = self.activity.len();
        let start: usize = if len > count as usize {
            len - count as usize
        } else {
            0
        };
        let mut out: Vec<Activity> = Vec::new();
        let mut i: usize = start;
        while i < len
            invariant
                len == self.activity@.len(),
                start <= i <= len,
                out@ == self.activity@.subrange(start as int, i as int),
            decreases len - i,
        {
            out.push(self.activity[i].clone());
            assert(out@ =~= self.activity@.subrange(start as int, i as int + 1));
            i = i + 1;
        }
        out
    }

    /// The entries of the activity log for `user_id`, oldest first.
    pub fn get_user_activity(&self, user_id: u64) -> (r: Vec<Activity>)
        ensures
            r@ == self.activity@.filter(|a: Activity| a.user_id == user_id),
    {
        let ghost pred = |a: Activity| a.user_id == user_id;
        let mut out: Vec<Activity> = Vec::new();
        let mut i: usize = 0;
        while i < self.activity.len()
            invariant
                pred == (|a: Activity| a.user_id == user_id),
                i <= self.activity@.len(),
                out@ == self.activity@.subrange(0, i as int).filter(pred),
            decreases self.activity@.len() - i,
        {
            let ghost sub = self.activity@.subrange(0, i as int + 1);
            assert(sub.drop_last() =~= self.activity@.subrange(0, i as int));
            reveal(Seq::filter);
            if self.activity[i].user_id == user_id {
                out.push(self.activity[i].clone());
            }
            i = i + 1;
        }
        assert(self.activity@.subrange(0, self.activity@.len() as int) =~= self.activity@);
        out
    }
}

} // verus!

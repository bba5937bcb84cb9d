use vstd::prelude::*;
use candid::Principal;
use crate::types::{Comment, Payment, Split, copy_text, text_view};

verus! {

/// Who may see a track.
#[derive(Clone, Copy, Debug, PartialEq, Eq, Structural)]
pub enum TrackVisibility {
    Public,
    Private,
    InviteOnly,
}

/// A user's role on one track.
#[derive(Clone, Copy, Debug, PartialEq, Eq, Structural)]
pub enum TrackRole {
    Owner,
    Collaborator,
    Viewer,
}

/// The live state of a track.
#[derive(Debug)]
pub struct Track {
    pub id: u64,
    pub title: String,
    pub description: String,
    /// Artist ids.
    pub contributors: Vec<u64>,
    pub version: u32,
    pub splits: Option<Vec<Split>>,
    pub comments: Vec<Comment>,
    pub payments: Vec<Payment>,
    pub visibility: TrackVisibility,
    /// User ids invited to collaborate.
    pub invited: Vec<u64>,
    pub roles: Vec<(u64, TrackRole)>,
    /// `(user id, rating)`, one entry per user.
    pub ratings: Vec<(u64, u8)>,
    pub tags: Vec<String>,
    pub genre: Option<String>,
    pub play_count: u64,
    pub downloadable: bool,
}

/// A track as plain mathematical values.
pub struct TrackModel {
    pub id: u64,
    pub title: Seq<char>,
    pub description: Seq<char>,
    pub contributors: Seq<u64>,
    pub version: u32,
    pub splits: Option<Seq<Split>>,
    pub comments: Seq<Comment>,
    pub payments: Seq<Payment>,
    pub visibility: TrackVisibility,
    pub invited: Seq<u64>,
    pub roles: Seq<(u64, TrackRole)>,
    pub ratings: Seq<(u64, u8)>,
    pub tags: Seq<Seq<char>>,
    pub genre: Option<Seq<char>>,
    pub play_count: u64,
    pub downloadable: bool,
}

pub open spec fn splits_view(o: Option<Vec<Split>>) -> Option<Seq<Split>> {
    match o {
        Some(v) => Some(v@),
        None => None,
    }
}

impl View for Track {
    type V = TrackModel;

    open spec fn view(&self) -> TrackModel {
        TrackModel {
            id: self.id,
            title: self.title@,
            description: self.description@,
            contributors: self.contributors@,
            version: self.version,
            splits: splits_view(self.splits),
            comments: self.comments@,
            payments: self.payments@,
            visibility: self.visibility,
            invited: self.invited@,
            roles: self.roles@,
            ratings: self.ratings@,
            tags: self.tags@.map_values(|t: String| t@),
            genre: text_view(self.genre),
            play_count: self.play_count,
            downloadable: self.downloadable,
        }
    }
}

fn copy_ids(v: &Vec<u64>) -> (r: Vec<u64>)
    ensures
        r@ == v@,
{
    let mut out: Vec<u64> = Vec::new();
    let mut i: usize = 0;
    while i < v.len()
        invariant
            i <= v@.len(),
            out@ == v@.subrange(0, i as int),
        decreases v@.len() - i,
    {
        out.push(v[i]);
        assert(out@ =~= v@.subrange(0, i as int + 1));
        i = i + 1;
    }
    assert(out@ =~= v@);
    out
}

fn copy_pairs<T: Copy>(v: &Vec<(u64, T)>) -> (r: Vec<(u64, T)>)
    ensures
        r@ == v@,
{
    let mut out: Vec<(u64, T)> = Vec::new();
    let mut i: usize = 0;
    while i < v.len()
        invariant
            i <= v@.len(),
            out@ == v@.subrange(0, i as int),
        decreases v@.len() - i,
    {
        let (a, b) = v[i];
        out.push((a, b));
        assert(out@ =~= v@.subrange(0, i as int + 1));
        i = i + 1;
    }
    assert(out@ =~= v@);
    out
}

fn copy_splits(o: &Option<Vec<Split>>) -> (r: Option<Vec<Split>>)
    ensures
        splits_view(r) == splits_view(*o),
{
    match o {
        Some(v) => {
            let c = v.clone();
            assert(c@ =~= v@);
            Some(c)
        },
        None => None,
    }
}

impl Clone for Track {
    fn clone(&self) -> (r: Self)
        ensures
            r@ == self@,
    {
        let comments = self.comments.clone();
        assert(comments@ =~= self.comments@);
        let payments = self.payments.clone();
        assert(payments@ =~= self.payments@);
        let tags = self.tags.clone();
        assert(tags@ =~= self.tags@);
        Track {
            id: self.id,
            title: self.title.clone(),
            description: self.description.clone(),
            contributors: copy_ids(&self.contributors),
            version: self.version,
            splits: copy_splits(&self.splits),
            comments,
            payments,
            visibility: self.visibility,
            invited: copy_ids(&self.invited),
            roles: copy_pairs(&self.roles),
            ratings: copy_pairs(&self.ratings),
            tags,
            genre: copy_text(&self.genre),
            play_count: self.play_count,
            downloadable: self.downloadable,
        }
    }
}

/// An immutable snapshot in a track's history.
#[derive(Debug)]
pub struct TrackVersion {
    pub version: u32,
    pub title: String,
    pub description: String,
    pub contributors: Vec<u64>,
    pub changed_by: Principal,
    pub changed_at: u64,
    pub change_description: Option<String>,
}

/// A snapshot as plain mathematical values.
pub struct VersionModel {
    pub version: u32,
    pub title: Seq<char>,
    pub description: Seq<char>,
    pub contributors: Seq<u64>,
    pub changed_by: Principal,
    pub changed_at: u64,
    pub change_description: Option<Seq<char>>,
}

impl View for TrackVersion {
    type V = VersionModel;

    open spec fn view(&self) -> VersionModel {
        VersionModel {
            version: self.version,
            title: self.title@,
            description: self.description@,
            contributors: self.contributors@,
            changed_by: self.changed_by,
            changed_at: self.changed_at,
            change_description: text_view(self.change_description),
        }
    }
}

impl Clone for TrackVersion {
    fn clone(&self) -> (r: Self)
        ensures
            r@ == self@,
    {
        TrackVersion {
            version: self.version,
            title: self.title.clone(),
            description: self.description.clone(),
            contributors: copy_ids(&self.contributors),
            changed_by: self.changed_by,
            changed_at: self.changed_at,
            change_description: copy_text(&self.change_description),
        }
    }
}

/// No two entries of `s` share a key: `s` is a mapping from keys.
pub open spec fn keys_distinct<T>(s: Seq<(u64, T)>) -> bool {
    forall|i: int, j: int| 0 <= i < j < s.len() ==> (#[trigger] s[i]).0 != (#[trigger] s[j]).0
}

/// Ratings and roles hold at most one entry per user.
pub open spec fn track_ok(t: TrackModel) -> bool {
    keys_distinct(t.ratings) && keys_distinct(t.roles)
}

/// Version numbers run 1, 2, ... without gap or repeat, and one more still
/// fits in a `u32`.
pub open spec fn chain_ok(vs: Seq<VersionModel>) -> bool {
    &&& vs.len() < u32::MAX
    &&& forall|j: int| 0 <= j < vs.len() ==> (#[trigger] vs[j]).version == j + 1
}

/// A track together with its version history.
#[derive(Debug)]
pub struct TrackRecord {
    pub track: Track,
    pub versions: Vec<TrackVersion>,
}

pub struct RecordModel {
    pub track: TrackModel,
    pub versions: Seq<VersionModel>,
}

impl View for TrackRecord {
    type V = RecordModel;

    open spec fn view(&self) -> RecordModel {
        RecordModel { track: self.track@, versions: self.versions@.map_values(|v: TrackVersion| v@) }
    }
}

pub fn copy_versions(v: &Vec<TrackVersion>) -> (r: Vec<TrackVersion>)
    ensures
        r@.map_values(|x: TrackVersion| x@) == v@.map_values(|x: TrackVersion| x@),
{
    let mut out: Vec<TrackVersion> = Vec::new();
    let mut i: usize = 0;
    while i < v.len()
        invariant
            i <= v@.len(),
            out@.len() == i,
            forall|k: int| 0 <= k < i ==> (#[trigger] out@[k])@ == v@[k]@,
        decreases v@.len() - i,
    {
        out.push(v[i].clone());
        i = i + 1;
    }
    assert(out@.map_values(|x: TrackVersion| x@) =~= v@.map_values(|x: TrackVersion| x@));
    out
}

impl Clone for TrackRecord {
    fn clone(&self) -> (r: Self)
        ensures
            r@ == self@,
    {
        TrackRecord { track: self.track.clone(), versions: copy_versions(&self.versions) }
    }
}

} // verus!

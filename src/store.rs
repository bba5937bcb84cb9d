use vstd::prelude::*;
use vstd::string::*;
use candid::Principal;
use crate::ledger::ArtistLedger;
use crate::moderation::{ModerationQueue, ModerationTargetType, is_new_item, auto_flag_note};
use crate::screen::{ContentScreen, screen_verdict};
use crate::text::{blank, is_blank, decimal, to_decimal};
use crate::track::{
    Track, TrackModel, TrackRecord, RecordModel, TrackRole, TrackVersion, TrackVisibility,
    VersionModel, chain_ok, keys_distinct, track_ok,
};
use crate::ops::{lemma_upsert_keeps_distinct, upsert, upserted};
use crate::types::{Activity, is_activity, log_activity};

verus! {

/// The roles a new track starts with: every contributor is an owner, with
/// one entry per contributor in order of first appearance.
pub open spec fn owner_roles(contributors: Seq<u64>) -> Seq<(u64, TrackRole)>
    decreases contributors.len(),
{
    if contributors.len() == 0 {
        Seq::empty()
    } else {
        upserted(owner_roles(contributors.drop_last()), contributors.last(), TrackRole::Owner)
    }
}

proof fn lemma_owner_roles_distinct(contributors: Seq<u64>)
    ensures
        keys_distinct(owner_roles(contributors)),
    decreases contributors.len(),
{
    if contributors.len() > 0 {
        lemma_owner_roles_distinct(contributors.drop_last());
        lemma_upsert_keeps_distinct(
            owner_roles(contributors.drop_last()),
            contributors.last(),
            TrackRole::Owner,
        );
    }
}

/// The live state of a track just created.
pub open spec fn new_track_model(
    id: u64,
    title: Seq<char>,
    description: Seq<char>,
    contributors: Seq<u64>,
) -> TrackModel {
    TrackModel {
        id: id,
        title: title,
        description: description,
        contributors: contributors,
        version: 1,
        splits: None,
        comments: Seq::empty(),
        payments: Seq::empty(),
        visibility: TrackVisibility::Public,
        invited: Seq::empty(),
        roles: owner_roles(contributors),
        ratings: Seq::empty(),
        tags: Seq::empty(),
        genre: None,
        play_count: 0,
        downloadable: true,
    }
}

/// The first entry of a new track's history.
pub open spec fn initial_version(
    title: Seq<char>,
    description: Seq<char>,
    contributors: Seq<u64>,
    creator: Principal,
    now: u64,
) -> VersionModel {
    VersionModel {
        version: 1,
        title: title,
        description: description,
        contributors: contributors,
        changed_by: creator,
        changed_at: now,
        change_description: Some("Initial version"@),
    }
}

/// The text screened when a track is created: title, a space, description.
pub open spec fn track_text(title: Seq<char>, description: Seq<char>) -> Seq<char> {
    title + " "@ + description
}

/// The activity details logged for each contributor of a new track.
pub open spec fn created_details(id: u64) -> Seq<char> {
    "Track "@ + decimal(id as nat) + " created"@
}

/// All tracks, with their histories, the royalty ledger, the moderation
/// queue, the content screen and the activity log. Track ids are handed out
/// from 1 upwards and kept in increasing order.
pub struct TrackStore {
    pub records: Vec<TrackRecord>,
    pub next_track_id: u64,
    pub ledger: ArtistLedger,
    pub moderation: ModerationQueue,
    pub screen: ContentScreen,
    pub activity: Vec<Activity>,
}

impl TrackStore {
    pub open spec fn view(&self) -> Seq<RecordModel> {
        self.records@.map_values(|r: TrackRecord| r@)
    }

    pub open spec fn wf(&self) -> bool {
        &&& self.ledger.wf()
        &&& self.moderation.wf()
        &&& self.screen.wf()
        &&& self.next_track_id >= 1
        &&& forall|i: int|
            0 <= i < self@.len() ==> 1 <= (#[trigger] self@[i]).track.id < self.next_track_id
        &&& forall|i: int, j: int|
            0 <= i < j < self@.len() ==> (#[trigger] self@[i]).track.id < (#[trigger] self@[j]).track.id
        &&& forall|i: int| 0 <= i < self@.len() ==> chain_ok((#[trigger] self@[i]).versions)
        &&& forall|i: int| 0 <= i < self@.len() ==> track_ok((#[trigger] self@[i]).track)
    }

    /// A track with id `id` is stored.
    pub open spec fn has(&self, id: u64) -> bool {
        exists|i: int| 0 <= i < self@.len() && (#[trigger] self@[i]).track.id == id
    }

    /// The position of track `id`.
    pub open spec fn slot(&self, id: u64) -> int {
        choose|i: int| 0 <= i < self@.len() && (#[trigger] self@[i]).track.id == id
    }

    /// The live state of track `id`.
    pub open spec fn track(&self, id: u64) -> TrackModel {
        self@[self.slot(id)].track
    }

    /// The version history of track `id`.
    pub open spec fn history(&self, id: u64) -> Seq<VersionModel> {
        self@[self.slot(id)].versions
    }

    /// Everything but the tracks themselves is as in `other`.
    pub open spec fn same_services(&self, other: &TrackStore) -> bool {
        &&& self.next_track_id == other.next_track_id
        &&& self.ledger == other.ledger
        &&& self.moderation == other.moderation
        &&& self.screen == other.screen
        &&& self.activity == other.activity
    }

    /// `self` is `old` with record `slot` replaced by `rec`.
    pub open spec fn replaced(&self, old: &TrackStore, slot: int, rec: RecordModel) -> bool {
        &&& self@ == old@.update(slot, rec)
        &&& self.same_services(old)
    }

    /// An empty store with the default keyword list.
    pub fn new() -> (r: TrackStore)
        ensures
            r.wf(),
            r@.len() == 0,
            r.next_track_id == 1,
            r.ledger@ == Map::<u64, u64>::empty(),
            r.ledger.next_artist_id == 1,
            r.moderation.items@.len() == 0,
            r.screen@ == (seq!["spam"@, "scam"@, "fake"@, "copyright"@, "illegal"@]),
            r.activity@.len() == 0,
    {
        let r = TrackStore {
            records: Vec::new(),
            next_track_id: 1,
            ledger: ArtistLedger::new(),
            moderation: ModerationQueue::new(),
            screen: ContentScreen::new(),
            activity: Vec::new(),
        };
        assert(r@ =~= Seq::<RecordModel>::empty());
        r
    }

    /// The position of the only record whose track has id `id`.
    pub proof fn lemma_slot(&self, id: u64, i: int)
        requires
            self.wf(),
            0 <= i < self@.len(),
            self@[i].track.id == id,
        ensures
            self.has(id),
            self.slot(id) == i,
    {
        assert(self.has(id));
        let k = self.slot(id);
        if k < i {
            assert(self@[k].track.id < self@[i].track.id);
        } else if k > i {
            assert(self@[i].track.id < self@[k].track.id);
        }
    }

    /// Finds the position of track `id`.
    pub fn find(&self, id: u64) -> (r: Option<usize>)
        requires
            self.wf(),
        ensures
            r is Some <==> self.has(id),
            (r matches Some(i) ==> i == self.slot(id) && i < self@.len()),
    {
        let mut i: usize = 0;
        while i < self.records.len()
            invariant
                self.wf(),
                i <= self@.len(),
                forall|j: int| 0 <= j < i ==> (#[trigger] self@[j]).track.id != id,
            decreases self@.len() - i,
        {
            if self.records[i].track.id == id {
                proof {
                    self.lemma_slot(id, i as int);
                }
                return Some(i);
            }
            i = i + 1;
        }
        None
    }

    /// Replaces record `i` by `rec`, which keeps its track id.
    pub(crate) fn put(&mut self, i: usize, rec: TrackRecord)
        requires
            old(self).wf(),
            i < old(self)@.len(),
            rec@.track.id == old(self)@[i as int].track.id,
            chain_ok(rec@.versions),
            track_ok(rec@.track),
        ensures
            final(self).wf(),
            final(self).replaced(old(self), i as int, rec@),
    {
        let ghost r = rec@;
        self.records.set(i, rec);
        assert(self@ =~= old(self)@.update(i as int, r));
    }

    /// A copy of track `id`, if stored.
    pub fn get_track(&self, id: u64) -> (r: Option<Track>)
        requires
            self.wf(),
        ensures
            r is Some <==> self.has(id),
            (r matches Some(t) ==> t@ == self.track(id)),
    {
        match self.find(id) {
            Some(i) => Some(self.records[i].track.clone()),
            None => None,
        }
    }

    /// Whether `create_track` accepts these inputs in this state.
    pub open spec fn can_create(
        &self,
        title: Seq<char>,
        description: Seq<char>,
        contributors: Seq<u64>,
    ) -> bool {
        &&& !is_blank(title)
        &&& !is_blank(description)
        &&& contributors.len() > 0
        &&& self.next_track_id < u64::MAX
        &&& self.moderation.has_room()
    }

    /// Creates a track under the next id. Fails on a blank title or
    /// description, no contributors, or exhausted ids. Every contributor
    /// becomes an owner, the history starts with version 1, and the title
    /// and description are screened: a hit enqueues an automatic flag.
    pub fn create_track(
        &mut self,
        title: String,
        description: String,
        contributors: Vec<u64>,
        creator: Principal,
        now: u64,
    ) -> (r: Option<Track>)
        requires
            old(self).wf(),
        ensures
            final(self).wf(),
            r is Some <==> old(self).can_create(title@, description@, contributors@),
            (r is None ==> *final(self) == *old(self)),
            (r matches Some(t) ==> {
                let id = old(self).next_track_id;
                let verdict = screen_verdict(old(self).screen@, track_text(title@, description@));
                let n = old(self).activity@.len();
                &&& t@ == new_track_model(id, title@, description@, contributors@)
                &&& final(self)@ == old(self)@.push(
                    RecordModel {
                        track: t@,
                        versions: seq![
                            initial_version(title@, description@, contributors@, creator, now),
                        ],
                    },
                )
                &&& final(self).next_track_id == id + 1
                &&& final(self).ledger == old(self).ledger
                &&& final(self).screen == old(self).screen
                &&& (verdict is None ==> final(self).moderation.items@ == old(self).moderation.items@)
                &&& (verdict is Some ==> {
                    &&& final(self).moderation.items@.drop_last() == old(self).moderation.items@
                    &&& final(self).moderation.items@.len() == old(self).moderation.items@.len() + 1
                    &&& is_new_item(
                        final(self).moderation.items@.last(),
                        old(self).moderation.next_id() as u64,
                        ModerationTargetType::Track,
                        decimal(id as nat),
                        None,
                        verdict.unwrap(),
                        now,
                        Some(auto_flag_note()),
                    )
                })
                &&& final(self).activity@.len() == n + contributors@.len()
                &&& final(self).activity@.subrange(0, n as int) == old(self).activity@
                &&& forall|k: int|
                    0 <= k < contributors@.len() ==> is_activity(
                        #[trigger] final(self).activity@[n + k],
                        contributors@[k],
                        "create_track"@,
                        now,
                        created_details(id),
                    )
            }),
    {
        if blank(title.as_str()) || blank(description.as_str()) || contributors.len() == 0 {
            return None;
        }
        if self.next_track_id == u64::MAX || !self.moderation.has_room_exec() {
            return None;
        }
        let id = self.next_track_id;
        self.next_track_id = id + 1;

        let mut content = String::from_str(title.as_str());
        content.append(" ");
        content.append(description.as_str());
        let target = to_decimal(id);
        self.moderation.auto_flag_content_if_needed(
            &self.screen,
            ModerationTargetType::Track,
            target,
            content.as_str(),
            now,
        );

        let mut roles: Vec<(u64, TrackRole)> = Vec::new();
        let mut i: usize = 0;
        while i < contributors.len()
            invariant
                i <= contributors@.len(),
                roles@ == owner_roles(contributors@.subrange(0, i as int)),
            decreases contributors@.len() - i,
        {
            assert(contributors@.subrange(0, i as int + 1).drop_last() =~= contributors@.subrange(
                0,
                i as int,
            ));
            upsert(&mut roles, contributors[i], TrackRole::Owner);
            i = i + 1;
        }
        proof {
            lemma_owner_roles_distinct(contributors@);
        }
        assert(contributors@.subrange(0, contributors@.len() as int) =~= contributors@);

        let track = Track {
            id,
            title: title.clone(),
            description: description.clone(),
            contributors: contributors.clone(),
            version: 1,
            splits: None,
            comments: Vec::new(),
            payments: Vec::new(),
            visibility: TrackVisibility::Public,
            invited: Vec::new(),
            roles,
            ratings: Vec::new(),
            tags: Vec::new(),
            genre: None,
            play_count: 0,
            downloadable: true,
        };
        let first = TrackVersion {
            version: 1,
            title,
            description,
            contributors: contributors.clone(),
            changed_by: creator,
            changed_at: now,
            change_description: Some(String::from_str("Initial version")),
        };
        assert(track@.tags =~= Seq::<Seq<char>>::empty());
        assert(track@ == new_track_model(id, title@, description@, contributors@));
        let result = track.clone();
        let mut versions: Vec<TrackVersion> = Vec::new();
        versions.push(first);
        let rec = TrackRecord { track, versions };
        let ghost before = self@;
        self.records.push(rec);
        assert(self@ =~= before.push(rec@));
        assert(rec@.versions =~= seq![rec@.versions[0]]);

        let ghost log_before = self.activity@;
        let ghost mid = *self;
        let mut k: usize = 0;
        while k < contributors.len()
            invariant
                self.records == mid.records,
                self.next_track_id == mid.next_track_id,
                self.ledger == mid.ledger,
                self.moderation == mid.moderation,
                self.screen == mid.screen,
                k <= contributors@.len(),
                self.activity@.len() == log_before.len() + k,
                self.activity@.subrange(0, log_before.len() as int) == log_before,
                forall|j: int|
                    0 <= j < k ==> is_activity(
                        #[trigger] self.activity@[log_before.len() + j],
                        contributors@[j],
                        "create_track"@,
                        now,
                        created_details(id),
                    ),
            decreases contributors@.len() - k,
        {
            let mut details = String::from_str("Track ");
            let digits = to_decimal(id);
            details.append(digits.as_str());
            details.append(" created");
            let ghost prev = self.activity@;
            log_activity(&mut self.activity, contributors[k], "create_track", now, details);
            assert(self.activity@.subrange(0, log_before.len() as int) =~= prev.subrange(
                0,
                log_before.len() as int,
            ));
            assert forall|j: int| 0 <= j < k implies #[trigger] self.activity@[log_before.len() + j]
                == prev[log_before.len() + j] by {
                assert(self.activity@.drop_last()[log_before.len() + j]
                    == self.activity@[log_before.len() + j]);
            }
            k = k + 1;
        }
        Some(result)
    }
}

} // verus!

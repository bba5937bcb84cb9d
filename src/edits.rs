use vstd::prelude::*;
use crate::ops::{lemma_upsert_keeps_distinct, lookup, upserted, upsert, find_value};
use crate::store::TrackStore;
use crate::track::{Track, TrackModel, RecordModel, TrackRole, TrackVisibility, splits_view};
use crate::types::{Split, UserRole};

verus! {

pub(crate) fn contains_id(v: &Vec<u64>, x: u64) -> (r: bool)
    ensures
        r == v@.contains(x),
{
    let mut j: usize = 0;
    while j < v.len()
        invariant
            j <= v@.len(),
            forall|k: int| 0 <= k < j ==> v@[k] != x,
        decreases v@.len() - j,
    {
        if v[j] == x {
            assert(v@[j as int] == x);
            return true;
        }
        j = j + 1;
    }
    false
}

pub(crate) fn contains_text(v: &Vec<String>, x: &String) -> (r: bool)
    ensures
        r == v@.map_values(|g: String| g@).contains(x@),
{
    let ghost tags = v@.map_values(|g: String| g@);
    let mut j: usize = 0;
    while j < v.len()
        invariant
            tags == v@.map_values(|g: String| g@),
            j <= v@.len(),
            forall|k: int| 0 <= k < j ==> #[trigger] tags[k] != x@,
        decreases v@.len() - j,
    {
        if v[j] == *x {
            assert(tags[j as int] == x@);
            return true;
        }
        j = j + 1;
    }
    false
}

fn without_text(v: &Vec<String>, x: &String) -> (r: Vec<String>)
    ensures
        r@.map_values(|g: String| g@) == v@.map_values(|g: String| g@).filter(
            |g: Seq<char>| g != x@,
        ),
{
    let ghost tags = v@.map_values(|g: String| g@);
    let ghost pred = |g: Seq<char>| g != x@;
    let mut kept: Vec<String> = Vec::new();
    let mut j: usize = 0;
    while j < v.len()
        invariant
            tags == v@.map_values(|g: String| g@),
            pred == (|g: Seq<char>| g != x@),
            j <= tags.len(),
            kept@.map_values(|g: String| g@) == tags.subrange(0, j as int).filter(pred),
        decreases tags.len() - j,
    {
        let ghost prev = kept@.map_values(|g: String| g@);
        let ghost sub = tags.subrange(0, j as int + 1);
        assert(sub.drop_last() =~= tags.subrange(0, j as int));
        reveal(Seq::filter);
        if v[j] != *x {
            kept.push(v[j].clone());
            assert(kept@.map_values(|g: String| g@) =~= prev.push(tags[j as int]));
        }
        j = j + 1;
    }
    assert(tags.subrange(0, tags.len() as int) =~= tags);
    kept
}

impl TrackStore {
    /// `self` is `old` with the live state of track `id` replaced by `t`.
    pub open spec fn edited(&self, old: &TrackStore, id: u64, t: TrackModel) -> bool {
        let i = old.slot(id);
        self.replaced(old, i, RecordModel { track: t, ..old@[i] })
    }

    /// Replaces the split table of track `track_id` wholesale; percentages
    /// are not checked.
    pub fn set_track_splits(&mut self, track_id: u64, splits: Vec<Split>) -> (r: Option<Track>)
        requires
            old(self).wf(),
        ensures
            final(self).wf(),
            r is Some <==> old(self).has(track_id),
            (r is None ==> *final(self) == *old(self)),
            (r matches Some(t) ==> t@ == TrackModel {
                splits: Some(splits@),
                ..old(self).track(track_id)
            } && final(self).edited(old(self), track_id, t@)),
    {
        let i = match self.find(track_id) {
            Some(i) => i,
            None => return None,
        };
        let mut rec = self.records[i].clone();
        rec.track.splits = Some(splits);
        let out = rec.track.clone();
        self.put(i, rec);
        Some(out)
    }

    /// The split table of track `track_id`, if the track exists and has one.
    pub fn get_track_splits(&self, track_id: u64) -> (r: Option<Vec<Split>>)
        requires
            self.wf(),
        ensures
            splits_view(r) == (if self.has(track_id) {
                self.track(track_id).splits
            } else {
                None
            }),
    {
        match self.find(track_id) {
            Some(i) => match &self.records[i].track.splits {
                Some(s) => {
                    let c = s.clone();
                    assert(c@ =~= s@);
                    Some(c)
                },
                None => None,
            },
            None => None,
        }
    }

    /// Records `user_id`'s rating of a track, replacing an earlier one.
    /// Fails, changing nothing, on a rating outside 1..=5 or an unknown
    /// track.
    pub fn rate_track(&mut self, track_id: u64, user_id: u64, rating: u8) -> (r: bool)
        requires
            old(self).wf(),
        ensures
            final(self).wf(),
            r == (1 <= rating <= 5 && old(self).has(track_id)),
            (!r ==> *final(self) == *old(self)),
            (r ==> final(self).edited(
                old(self),
                track_id,
                TrackModel {
                    ratings: upserted(old(self).track(track_id).ratings, user_id, rating),
                    ..old(self).track(track_id)
                },
            )),
    {
        if rating < 1 || rating > 5 {
            return false;
        }
        let i = match self.find(track_id) {
            Some(i) => i,
            None => return false,
        };
        let mut rec = self.records[i].clone();
        proof {
            lemma_upsert_keeps_distinct(rec@.track.ratings, user_id, rating);
        }
        upsert(&mut rec.track.ratings, user_id, rating);
        self.put(i, rec);
        true
    }

    /// `user_id`'s rating of a track, if any.
    pub fn get_user_track_rating(&self, track_id: u64, user_id: u64) -> (r: Option<u8>)
        requires
            self.wf(),
        ensures
            r == (if self.has(track_id) {
                lookup(self.track(track_id).ratings, user_id)
            } else {
                None
            }),
    {
        match self.find(track_id) {
            Some(i) => find_value(&self.records[i].track.ratings, user_id),
            None => None,
        }
    }

    /// Gives `user_id` a role on a track, replacing an earlier one.
    pub fn assign_role(&mut self, track_id: u64, user_id: u64, role: TrackRole) -> (r: bool)
        requires
            old(self).wf(),
        ensures
            final(self).wf(),
            r == old(self).has(track_id),
            (!r ==> *final(self) == *old(self)),
            (r ==> final(self).edited(
                old(self),
                track_id,
                TrackModel {
                    roles: upserted(old(self).track(track_id).roles, user_id, role),
                    ..old(self).track(track_id)
                },
            )),
    {
        let i = match self.find(track_id) {
            Some(i) => i,
            None => return false,
        };
        let mut rec = self.records[i].clone();
        proof {
            lemma_upsert_keeps_distinct(rec@.track.roles, user_id, role);
        }
        upsert(&mut rec.track.roles, user_id, role);
        self.put(i, rec);
        true
    }

    /// `user_id`'s role on a track, if any.
    pub fn get_user_role(&self, track_id: u64, user_id: u64) -> (r: Option<TrackRole>)
        requires
            self.wf(),
        ensures
            r == (if self.has(track_id) {
                lookup(self.track(track_id).roles, user_id)
            } else {
                None
            }),
    {
        match self.find(track_id) {
            Some(i) => find_value(&self.records[i].track.roles, user_id),
            None => None,
        }
    }

    /// Adds `user_id` to a track's invitations, once.
    pub fn invite_user(&mut self, track_id: u64, user_id: u64) -> (r: bool)
        requires
            old(self).wf(),
        ensures
            final(self).wf(),
            r == old(self).has(track_id),
            (!r ==> *final(self) == *old(self)),
            (r ==> {
                let t = old(self).track(track_id);
                final(self).edited(
                    old(self),
                    track_id,
                    TrackModel {
                        invited: if t.invited.contains(user_id) {
                            t.invited
                        } else {
                            t.invited.push(user_id)
                        },
                        ..t
                    },
                )
            }),
    {
        let i = match self.find(track_id) {
            Some(i) => i,
            None => return false,
        };
        let mut rec = self.records[i].clone();
        let found = contains_id(&rec.track.invited, user_id);
        if !found {
            rec.track.invited.push(user_id);
        }
        self.put(i, rec);
        true
    }

    /// Adds a tag to a track, once.
    pub fn add_tag(&mut self, track_id: u64, tag: String) -> (r: bool)
        requires
            old(self).wf(),
        ensures
            final(self).wf(),
            r == old(self).has(track_id),
            (!r ==> *final(self) == *old(self)),
            (r ==> {
                let t = old(self).track(track_id);
                final(self).edited(
                    old(self),
                    track_id,
                    TrackModel {
                        tags: if t.tags.contains(tag@) {
                            t.tags
                        } else {
                            t.tags.push(tag@)
                        },
                        ..t
                    },
                )
            }),
    {
        let i = match self.find(track_id) {
            Some(i) => i,
            None => return false,
        };
        let mut rec = self.records[i].clone();
        let ghost tags = rec.track@.tags;
        if contains_text(&rec.track.tags, &tag) {
            self.put(i, rec);
            return true;
        }
        rec.track.tags.push(tag);
        assert(rec.track@.tags =~= tags.push(tag@));
        self.put(i, rec);
        true
    }

    /// Removes every occurrence of a tag from a track.
    pub fn remove_tag(&mut self, track_id: u64, tag: String) -> (r: bool)
        requires
            old(self).wf(),
        ensures
            final(self).wf(),
            r == old(self).has(track_id),
            (!r ==> *final(self) == *old(self)),
            (r ==> {
                let t = old(self).track(track_id);
                final(self).edited(
                    old(self),
                    track_id,
                    TrackModel { tags: t.tags.filter(|g: Seq<char>| g != tag@), ..t },
                )
            }),
    {
        let i = match self.find(track_id) {
            Some(i) => i,
            None => return false,
        };
        let mut rec = self.records[i].clone();
        let kept = without_text(&rec.track.tags, &tag);
        rec.track.tags = kept;
        self.put(i, rec);
        true
    }

    /// Sets a track's genre.
    pub fn set_genre(&mut self, track_id: u64, genre: String) -> (r: bool)
        requires
            old(self).wf(),
        ensures
            final(self).wf(),
            r == old(self).has(track_id),
            (!r ==> *final(self) == *old(self)),
            (r ==> final(self).edited(
                old(self),
                track_id,
                TrackModel { genre: Some(genre@), ..old(self).track(track_id) },
            )),
    {
        let i = match self.find(track_id) {
            Some(i) => i,
            None => return false,
        };
        let mut rec = self.records[i].clone();
        rec.track.genre = Some(genre);
        self.put(i, rec);
        true
    }

    /// Sets a track's visibility.
    pub fn set_track_visibility(&mut self, track_id: u64, visibility: TrackVisibility) -> (r: bool)
        requires
            old(self).wf(),
        ensures
            final(self).wf(),
            r == old(self).has(track_id),
            (!r ==> *final(self) == *old(self)),
            (r ==> final(self).edited(
                old(self),
                track_id,
                TrackModel { visibility: visibility, ..old(self).track(track_id) },
            )),
    {
        let i = match self.find(track_id) {
            Some(i) => i,
            None => return false,
        };
        let mut rec = self.records[i].clone();
        rec.track.visibility = visibility;
        self.put(i, rec);
        true
    }

    /// Allows or forbids downloading a track.
    pub fn set_track_downloadable(&mut self, track_id: u64, downloadable: bool) -> (r: bool)
        requires
            old(self).wf(),
        ensures
            final(self).wf(),
            r == old(self).has(track_id),
            (!r ==> *final(self) == *old(self)),
            (r ==> final(self).edited(
                old(self),
                track_id,
                TrackModel { downloadable: downloadable, ..old(self).track(track_id) },
            )),
    {
        let i = match self.find(track_id) {
            Some(i) => i,
            None => return false,
        };
        let mut rec = self.records[i].clone();
        rec.track.downloadable = downloadable;
        self.put(i, rec);
        true
    }

    /// Counts one more play of a track; the counter saturates.
    pub fn increment_play_count(&mut self, track_id: u64) -> (r: bool)
        requires
            old(self).wf(),
        ensures
            final(self).wf(),
            r == old(self).has(track_id),
            (!r ==> *final(self) == *old(self)),
            (r ==> {
                let t = old(self).track(track_id);
                final(self).edited(
                    old(self),
                    track_id,
                    TrackModel {
                        play_count: if t.play_count < u64::MAX {
                            (t.play_count + 1) as u64
                        } else {
                            u64::MAX
                        },
                        ..t
                    },
                )
            }),
    {
        let i = match self.find(track_id) {
            Some(i) => i,
            None => return false,
        };
        let mut rec = self.records[i].clone();
        rec.track.play_count = rec.track.play_count.saturating_add(1);
        self.put(i, rec);
        true
    }

    /// Deletes a track together with its history on an administrator's
    /// behalf. True when the caller is an administrator and the track
    /// existed.
    pub fn delete_track_by_admin(&mut self, track_id: u64, caller_role: UserRole) -> (r: bool)
        requires
            old(self).wf(),
        ensures
            final(self).wf(),
            r == (caller_role == UserRole::Admin && old(self).has(track_id)),
            (!r ==> *final(self) == *old(self)),
            (r ==> final(self)@ == old(self)@.remove(old(self).slot(track_id))
                && final(self).same_services(old(self))),
    {
        if caller_role != UserRole::Admin {
            return false;
        }
        self.delete_track(track_id)
    }

    /// Deletes a track together with its history. True when it existed.
    pub fn delete_track(&mut self, track_id: u64) -> (r: bool)
        requires
            old(self).wf(),
        ensures
            final(self).wf(),
            r == old(self).has(track_id),
            (!r ==> *final(self) == *old(self)),
            (r ==> final(self)@ == old(self)@.remove(old(self).slot(track_id))
                && final(self).same_services(old(self))),
    {
        let i = match self.find(track_id) {
            Some(i) => i,
            None => return false,
        };
        let ghost before = self@;
        self.records.remove(i);
        assert(self@ =~= before.remove(i as int));
        true
    }
}

} // verus!

use vstd::prelude::*;
use vstd::string::*;
use candid::Principal;
use crate::store::TrackStore;
use crate::text::{change_string, change_text, decimal, list_debug, list_text, to_decimal};
use crate::track::{
    Track, TrackModel, RecordModel, TrackVersion, VersionModel, chain_ok, copy_versions,
};
use crate::types::text_view;

verus! {

/// The result of comparing two versions of a track field by field. Each
/// `*_diff` describes a changed field as `old -> new`.
#[derive(Debug)]
pub struct VersionComparison {
    pub version1: u32,
    pub version2: u32,
    pub title_changed: bool,
    pub description_changed: bool,
    pub contributors_changed: bool,
    pub title_diff: Option<String>,
    pub description_diff: Option<String>,
    pub contributors_diff: Option<String>,
}

/// The diff text of a field that changed from `a` to `b`, `None` if it
/// did not change.
pub open spec fn diff_of(changed: bool, a: Seq<char>, b: Seq<char>) -> Option<Seq<char>> {
    if changed {
        Some(change_text(a, b))
    } else {
        None
    }
}

/// `c` compares snapshot `a` (numbered `v1`) with snapshot `b` (`v2`).
pub open spec fn compares(c: VersionComparison, v1: u32, v2: u32, a: VersionModel, b: VersionModel) -> bool {
    &&& c.version1 == v1
    &&& c.version2 == v2
    &&& c.title_changed == (a.title != b.title)
    &&& c.description_changed == (a.description != b.description)
    &&& c.contributors_changed == (a.contributors != b.contributors)
    &&& text_view(c.title_diff) == diff_of(c.title_changed, a.title, b.title)
    &&& text_view(c.description_diff) == diff_of(c.description_changed, a.description, b.description)
    &&& text_view(c.contributors_diff) == diff_of(
        c.contributors_changed,
        list_text(a.contributors),
        list_text(b.contributors),
    )
}

/// Title, description and contributors agree.
pub open spec fn same_content(a: VersionModel, b: VersionModel) -> bool {
    a.title == b.title && a.description == b.description && a.contributors == b.contributors
}

/// The snapshot appended to a history of length `len`.
pub open spec fn next_version(
    len: nat,
    title: Seq<char>,
    description: Seq<char>,
    contributors: Seq<u64>,
    changed_by: Principal,
    now: u64,
    note: Option<Seq<char>>,
) -> VersionModel {
    VersionModel {
        version: (len + 1) as u32,
        title: title,
        description: description,
        contributors: contributors,
        changed_by: changed_by,
        changed_at: now,
        change_description: note,
    }
}

/// The live state `t` showing the content of snapshot `v`.
pub open spec fn showing(t: TrackModel, v: VersionModel) -> TrackModel {
    TrackModel {
        title: v.title,
        description: v.description,
        contributors: v.contributors,
        version: v.version,
        ..t
    }
}

/// The note of a snapshot made by reverting to version `v`.
pub open spec fn revert_note(v: u32) -> Seq<char> {
    "Reverted to version "@ + decimal(v as nat)
}

/// `r` is record `rec` with snapshot `v` appended and shown live.
pub open spec fn appended(r: RecordModel, rec: RecordModel, v: VersionModel) -> bool {
    r == RecordModel { track: showing(rec.track, v), versions: rec.versions.push(v) }
}

fn same_ids(a: &Vec<u64>, b: &Vec<u64>) -> (r: bool)
    ensures
        r == (a@ == b@),
{
    if a.len() != b.len() {
        return false;
    }
    let mut i: usize = 0;
    while i < a.len()
        invariant
            a@.len() == b@.len(),
            i <= a@.len(),
            forall|j: int| 0 <= j < i ==> a@[j] == b@[j],
        decreases a@.len() - i,
    {
        if a[i] != b[i] {
            return false;
        }
        i = i + 1;
    }
    assert(a@ =~= b@);
    true
}

impl TrackStore {
    /// Another snapshot still fits in the history of track `id`.
    pub open spec fn can_append(&self, id: u64) -> bool {
        self.history(id).len() + 1 < u32::MAX
    }

    /// Appends a record's snapshot and shows it live.
    fn append_version(&mut self, i: usize, v: TrackVersion) -> (r: Track)
        requires
            old(self).wf(),
            i < old(self)@.len(),
            old(self)@[i as int].versions.len() + 1 < u32::MAX,
            v.version == old(self)@[i as int].versions.len() + 1,
        ensures
            final(self).wf(),
            final(self).same_services(old(self)),
            final(self)@ == old(self)@.update(i as int, final(self)@[i as int]),
            appended(final(self)@[i as int], old(self)@[i as int], v@),
            r@ == final(self)@[i as int].track,
    {
        let mut rec = self.records[i].clone();
        rec.track.title = v.title.clone();
        rec.track.description = v.description.clone();
        rec.track.contributors = copy_ids_of(&v);
        rec.track.version = v.version;
        let ghost vv = v@;
        let ghost before = rec@.versions;
        rec.versions.push(v);
        assert(rec@.versions =~= before.push(vv));
        proof {
            let vs = rec@.versions;
            assert forall|j: int| 0 <= j < vs.len() implies (#[trigger] vs[j]).version == j + 1 by {
                if j < before.len() {
                    assert(vs[j] == before[j]);
                }
            }
        }
        let r = rec.track.clone();
        self.put(i, rec);
        r
    }

    /// Appends a snapshot of the given content to track `track_id`'s
    /// history, numbered one past the last, and makes it the live state.
    /// `None` when the track is unknown or its history is full.
    pub fn add_track_version(
        &mut self,
        track_id: u64,
        title: String,
        description: String,
        contributors: Vec<u64>,
        change_description: Option<String>,
        changed_by: Principal,
        now: u64,
    ) -> (r: Option<TrackVersion>)
        requires
            old(self).wf(),
        ensures
            final(self).wf(),
            r is Some <==> old(self).has(track_id) && old(self).can_append(track_id),
            (r is None ==> *final(self) == *old(self)),
            (r matches Some(v) ==> {
                let i = old(self).slot(track_id);
                &&& v@ == next_version(
                    old(self).history(track_id).len(),
                    title@,
                    description@,
                    contributors@,
                    changed_by,
                    now,
                    text_view(change_description),
                )
                &&& final(self).same_services(old(self))
                &&& final(self)@ == old(self)@.update(i, final(self)@[i])
                &&& appended(final(self)@[i], old(self)@[i], v@)
            }),
    {
        let i = match self.find(track_id) {
            Some(i) => i,
            None => return None,
        };
        let len = self.records[i].versions.len();
        if len >= (u32::MAX - 1) as usize {
            return None;
        }
        let v = TrackVersion {
            version: (len + 1) as u32,
            title,
            description,
            contributors,
            changed_by,
            changed_at: now,
            change_description,
        };
        let out = v.clone();
        self.append_version(i, v);
        Some(out)
    }

    /// Appends a copy of the content of version `version_number` as a new
    /// snapshot and makes it the live state; the history only grows. `None`
    /// when the track or the version is unknown, or the history is full.
    /// No ownership check is made here: authorization is the caller's.
    pub fn revert_to_version(
        &mut self,
        track_id: u64,
        version_number: u32,
        reverter: Principal,
        now: u64,
    ) -> (r: Option<Track>)
        requires
            old(self).wf(),
        ensures
            final(self).wf(),
            r is Some <==> old(self).has(track_id) && old(self).can_append(track_id) && 1
                <= version_number <= old(self).history(track_id).len(),
            (r is None ==> *final(self) == *old(self)),
            (r matches Some(t) ==> final(self).reverted(old(self), track_id, version_number, reverter, now)
                && t@ == final(self).track(track_id)),
    {
        let i = match self.find(track_id) {
            Some(i) => i,
            None => return None,
        };
        let len = self.records[i].versions.len();
        if len >= (u32::MAX - 1) as usize {
            return None;
        }
        if version_number == 0 || version_number as usize > len {
            return None;
        }
        let target = &self.records[i].versions[(version_number - 1) as usize];
        let mut note = String::from_str("Reverted to version ");
        let digits = to_decimal(version_number as u64);
        note.append(digits.as_str());
        let v = TrackVersion {
            version: (len + 1) as u32,
            title: target.title.clone(),
            description: target.description.clone(),
            contributors: copy_ids_of(target),
            changed_by: reverter,
            changed_at: now,
            change_description: Some(note),
        };
        let t = self.append_version(i, v);
        proof {
            self.lemma_slot(track_id, i as int);
        }
        Some(t)
    }

    /// `self` is `old` after reverting track `id` to version `v`.
    pub open spec fn reverted(&self, old: &TrackStore, id: u64, v: u32, reverter: Principal, now: u64) -> bool {
        let i = old.slot(id);
        let target = old.history(id)[v - 1];
        &&& old.has(id)
        &&& 1 <= v <= old.history(id).len()
        &&& self.same_services(old)
        &&& self@ == old@.update(i, self@[i])
        &&& appended(
            self@[i],
            old@[i],
            next_version(
                old.history(id).len(),
                target.title,
                target.description,
                target.contributors,
                reverter,
                now,
                Some(revert_note(v)),
            ),
        )
    }

    /// Compares versions `version1` and `version2` of track `track_id`.
    /// `None` unless the track and both versions exist.
    pub fn compare_versions(&self, track_id: u64, version1: u32, version2: u32) -> (r: Option<
        VersionComparison,
    >)
        requires
            self.wf(),
        ensures
            r is Some <==> self.has(track_id) && 1 <= version1 <= self.history(track_id).len() && 1
                <= version2 <= self.history(track_id).len(),
            (r matches Some(c) ==> compares(
                c,
                version1,
                version2,
                self.history(track_id)[version1 - 1],
                self.history(track_id)[version2 - 1],
            )),
    {
        let i = match self.find(track_id) {
            Some(i) => i,
            None => return None,
        };
        let versions = &self.records[i].versions;
        if version1 == 0 || version1 as usize > versions.len() || version2 == 0 || version2 as usize
            > versions.len() {
            return None;
        }
        let a = &versions[(version1 - 1) as usize];
        let b = &versions[(version2 - 1) as usize];
        assert(a@ == self.history(track_id)[version1 - 1]);
        let title_changed = a.title != b.title;
        let description_changed = a.description != b.description;
        let contributors_changed = !same_ids(&a.contributors, &b.contributors);
        let title_diff = if title_changed {
            Some(change_string(a.title.as_str(), b.title.as_str()))
        } else {
            None
        };
        let description_diff = if description_changed {
            Some(change_string(a.description.as_str(), b.description.as_str()))
        } else {
            None
        };
        let contributors_diff = if contributors_changed {
            let la = list_debug(&a.contributors);
            let lb = list_debug(&b.contributors);
            Some(change_string(la.as_str(), lb.as_str()))
        } else {
            None
        };
        Some(
            VersionComparison {
                version1,
                version2,
                title_changed,
                description_changed,
                contributors_changed,
                title_diff,
                description_diff,
                contributors_diff,
            },
        )
    }

    /// A copy of track `track_id`'s history, empty for an unknown track.
    pub fn get_track_versions(&self, track_id: u64) -> (r: Vec<TrackVersion>)
        requires
            self.wf(),
        ensures
            self.has(track_id) ==> r@.map_values(|v: TrackVersion| v@) == self.history(track_id),
            !self.has(track_id) ==> r@.len() == 0,
    {
        match self.find(track_id) {
            Some(i) => copy_versions(&self.records[i].versions),
            None => Vec::new(),
        }
    }

    /// Overwrites the live title, description, contributors and version
    /// number of track `id` without touching its history, so the version
    /// number may stop matching the history's last entry.
    pub fn update_track(
        &mut self,
        id: u64,
        title: String,
        description: String,
        contributors: Vec<u64>,
        version: u32,
    ) -> (r: Option<Track>)
        requires
            old(self).wf(),
        ensures
            final(self).wf(),
            r is Some <==> old(self).has(id),
            (r is None ==> *final(self) == *old(self)),
            (r matches Some(t) ==> {
                let i = old(self).slot(id);
                let rec = old(self)@[i];
                &&& t@ == TrackModel {
                    title: title@,
                    description: description@,
                    contributors: contributors@,
                    version: version,
                    ..rec.track
                }
                &&& final(self).replaced(old(self), i, RecordModel { track: t@, ..rec })
            }),
    {
        let i = match self.find(id) {
            Some(i) => i,
            None => return None,
        };
        let mut rec = self.records[i].clone();
        rec.track.title = title;
        rec.track.description = description;
        rec.track.contributors = contributors;
        rec.track.version = version;
        let out = rec.track.clone();
        self.put(i, rec);
        Some(out)
    }
}

fn copy_ids_of(v: &TrackVersion) -> (r: Vec<u64>)
    ensures
        r@ == v.contributors@,
{
    let mut out: Vec<u64> = Vec::new();
    let mut i: usize = 0;
    while i < v.contributors.len()
        invariant
            i <= v.contributors@.len(),
            out@ == v.contributors@.subrange(0, i as int),
        decreases v.contributors@.len() - i,
    {
        out.push(v.contributors[i]);
        assert(out@ =~= v.contributors@.subrange(0, i as int + 1));
        i = i + 1;
    }
    assert(out@ =~= v.contributors@);
    out
}

/// Every stored history numbers its versions 1, 2, ..., N without gap or
/// repeat, whatever operations produced the store.
pub proof fn lemma_versions_contiguous(s: TrackStore, id: u64)
    requires
        s.wf(),
        s.has(id),
    ensures
        forall|j: int|
            0 <= j < s.history(id).len() ==> (#[trigger] s.history(id)[j]).version == j + 1,
{
    let i = s.slot(id);
    assert(chain_ok(s@[i].versions));
}

/// Right after a revert to version `v`, comparing version `v` with the
/// track's new current version shows no difference in title, description
/// or contributors.
pub proof fn lemma_revert_then_compare(
    before: TrackStore,
    after: TrackStore,
    id: u64,
    v: u32,
    reverter: Principal,
    now: u64,
)
    requires
        before.wf(),
        after.wf(),
        after.reverted(&before, id, v, reverter, now),
    ensures
        after.has(id),
        1 <= v <= after.history(id).len(),
        1 <= after.track(id).version <= after.history(id).len(),
        after.history(id)[after.track(id).version - 1] == after.history(id).last(),
        same_content(after.history(id)[v - 1], after.history(id)[after.track(id).version - 1]),
        forall|c: VersionComparison|
            #[trigger] compares(
                c,
                v,
                after.track(id).version,
                after.history(id)[v - 1],
                after.history(id)[after.track(id).version - 1],
            ) ==> !c.title_changed && !c.description_changed && !c.contributors_changed
                && c.title_diff is None && c.description_diff is None && c.contributors_diff is None,
{
    let i = before.slot(id);
    assert(after@[i].track.id == id);
    after.lemma_slot(id, i);
    let old_hist = before.history(id);
    let hist = after.history(id);
    assert(hist == old_hist.push(hist.last()));
    assert(hist[v - 1] == old_hist[v - 1]);
    assert(chain_ok(before@[i].versions));
}

} // verus!

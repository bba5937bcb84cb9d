use vstd::prelude::*;
use vstd::string::*;
use crate::ledger::{balance_of, credited_all};
use crate::moderation::{ModerationTargetType, is_new_item, auto_flag_note};
use crate::royalty::{shares_for, split_payment};
use crate::screen::screen_verdict;
use crate::store::TrackStore;
use crate::text::{decimal, to_decimal};
use crate::track::{TrackModel, RecordModel, keys_distinct};
use crate::types::{Comment, Payment, is_activity, log_activity};

verus! {

/// `key` first appears in `s` at position `k`.
pub open spec fn first_key_at<T>(s: Seq<(u64, T)>, key: u64, k: int) -> bool {
    &&& 0 <= k < s.len()
    &&& s[k].0 == key
    &&& forall|j: int| 0 <= j < k ==> (#[trigger] s[j]).0 != key
}

/// `s` with the first entry for `key` given value `val`, or with
/// `(key, val)` appended when there is none.
pub open spec fn upserted<T>(s: Seq<(u64, T)>, key: u64, val: T) -> Seq<(u64, T)> {
    if exists|k: int| first_key_at(s, key, k) {
        s.update(choose|k: int| first_key_at(s, key, k), (key, val))
    } else {
        s.push((key, val))
    }
}

/// The value of the first entry for `key`, if any.
pub open spec fn lookup<T>(s: Seq<(u64, T)>, key: u64) -> Option<T> {
    if exists|k: int| first_key_at(s, key, k) {
        Some(s[choose|k: int| first_key_at(s, key, k)].1)
    } else {
        None
    }
}

proof fn lemma_first_key_unique<T>(s: Seq<(u64, T)>, key: u64, k: int, m: int)
    requires
        first_key_at(s, key, k),
        first_key_at(s, key, m),
    ensures
        k == m,
{
    if k < m {
        assert(s[k].0 != key);
    } else if m < k {
        assert(s[m].0 != key);
    }
}

/// Without a first entry for `key`, no entry below `n` has that key.
proof fn lemma_key_absent<T>(s: Seq<(u64, T)>, key: u64, n: int)
    requires
        forall|k: int| !first_key_at(s, key, k),
        n <= s.len(),
    ensures
        forall|j: int| 0 <= j < n ==> (#[trigger] s[j]).0 != key,
    decreases n,
{
    if n > 0 {
        lemma_key_absent(s, key, n - 1);
        assert(!first_key_at(s, key, n - 1));
    }
}

/// Sets the value of the first entry for `key`, or appends `(key, val)`.
pub(crate) fn upsert<T: Copy>(v: &mut Vec<(u64, T)>, key: u64, val: T)
    ensures
        final(v)@ == upserted(old(v)@, key, val),
{
    let mut i: usize = 0;
    while i < v.len()
        invariant
            v@ == old(v)@,
            i <= v@.len(),
            forall|j: int| 0 <= j < i ==> (#[trigger] v@[j]).0 != key,
        decreases v@.len() - i,
    {
        if v[i].0 == key {
            proof {
                assert(first_key_at(v@, key, i as int));
                let k = choose|k: int| first_key_at(v@, key, k);
                lemma_first_key_unique(v@, key, i as int, k);
            }
            v.set(i, (key, val));
            return;
        }
        i = i + 1;
    }
    proof {
        assert forall|k: int| !first_key_at(v@, key, k) by {
            if 0 <= k < v@.len() {
                assert(v@[k].0 != key);
            }
        }
    }
    v.push((key, val));
}

pub(crate) fn find_value<T: Copy>(v: &Vec<(u64, T)>, key: u64) -> (r: Option<T>)
    ensures
        r == lookup(v@, key),
{
    let mut i: usize = 0;
    while i < v.len()
        invariant
            i <= v@.len(),
            forall|j: int| 0 <= j < i ==> (#[trigger] v@[j]).0 != key,
        decreases v@.len() - i,
    {
        if v[i].0 == key {
            proof {
                assert(first_key_at(v@, key, i as int));
                let k = choose|k: int| first_key_at(v@, key, k);
                lemma_first_key_unique(v@, key, i as int, k);
            }
            return Some(v[i].1);
        }
        i = i + 1;
    }
    proof {
        assert forall|k: int| !first_key_at(v@, key, k) by {
            if 0 <= k < v@.len() {
                assert(v@[k].0 != key);
            }
        }
    }
    None
}

/// Upserting a key twice is upserting it once with the second value: a
/// repeated rating, or role, from one user overwrites and never
/// duplicates.
pub proof fn lemma_upsert_overwrites<T>(s: Seq<(u64, T)>, key: u64, a: T, b: T)
    ensures
        upserted(upserted(s, key, a), key, b) == upserted(s, key, b),
        lookup(upserted(s, key, b), key) == Some(b),
        upserted(upserted(s, key, a), key, b).len() == upserted(s, key, a).len(),
{
    let s1 = upserted(s, key, a);
    if exists|k: int| first_key_at(s, key, k) {
        let k = choose|k: int| first_key_at(s, key, k);
        assert(first_key_at(s1, key, k));
        let m = choose|m: int| first_key_at(s1, key, m);
        lemma_first_key_unique(s1, key, k, m);
        assert(upserted(s1, key, b) =~= upserted(s, key, b));
        let s2 = upserted(s, key, b);
        assert(first_key_at(s2, key, k));
        let m2 = choose|m: int| first_key_at(s2, key, m);
        lemma_first_key_unique(s2, key, k, m2);
    } else {
        let k = s.len() as int;
        lemma_key_absent(s, key, k);
        assert(first_key_at(s1, key, k));
        let m = choose|m: int| first_key_at(s1, key, m);
        lemma_first_key_unique(s1, key, k, m);
        assert(upserted(s1, key, b) =~= upserted(s, key, b));
        let s2 = upserted(s, key, b);
        assert(first_key_at(s2, key, k));
        let m2 = choose|m: int| first_key_at(s2, key, m);
        lemma_first_key_unique(s2, key, k, m2);
    }
}

/// Upserting keeps the keys of a mapping distinct, and afterwards `key`
/// maps to `val`.
pub proof fn lemma_upsert_keeps_distinct<T>(s: Seq<(u64, T)>, key: u64, val: T)
    requires
        keys_distinct(s),
    ensures
        keys_distinct(upserted(s, key, val)),
        lookup(upserted(s, key, val), key) == Some(val),
{
    let s1 = upserted(s, key, val);
    if exists|k: int| first_key_at(s, key, k) {
        let k = choose|k: int| first_key_at(s, key, k);
        assert(keys_distinct(s1)) by {
            assert forall|i: int, j: int| 0 <= i < j < s1.len() implies (#[trigger] s1[i]).0
                != (#[trigger] s1[j]).0 by {
                assert(s[i].0 != s[j].0);
            }
        }
        assert(first_key_at(s1, key, k));
        let m = choose|m: int| first_key_at(s1, key, m);
        lemma_first_key_unique(s1, key, k, m);
    } else {
        lemma_key_absent(s, key, s.len() as int);
        let k = s.len() as int;
        assert(keys_distinct(s1)) by {
            assert forall|i: int, j: int| 0 <= i < j < s1.len() implies (#[trigger] s1[i]).0
                != (#[trigger] s1[j]).0 by {
                if j < k {
                    assert(s[i].0 != s[j].0);
                } else {
                    assert(s[i].0 != key);
                }
            }
        }
        assert(first_key_at(s1, key, k));
        let m = choose|m: int| first_key_at(s1, key, m);
        lemma_first_key_unique(s1, key, k, m);
    }
}

/// The activity details logged for a payment.
pub open spec fn paid_details(amount: u64, id: u64) -> Seq<char> {
    "Paid "@ + decimal(amount as nat) + " for track "@ + decimal(id as nat)
}

/// The activity details logged for a withdrawal.
pub open spec fn withdrew_details(amount: u64) -> Seq<char> {
    "Withdrew "@ + decimal(amount as nat) + " tokens"@
}

/// The activity details logged for a comment.
pub open spec fn commented_details(id: u64, text: Seq<char>) -> Seq<char> {
    "Commented on track "@ + decimal(id as nat) + ": "@ + text
}

/// The moderation target id of a comment.
pub open spec fn comment_target(id: u64, now: u64) -> Seq<char> {
    "track_"@ + decimal(id as nat) + "_comment_"@ + decimal(now as nat)
}

impl TrackStore {
    /// `self` is `old` with only the activity log grown by one entry.
    pub open spec fn logged_one(&self, old: &TrackStore) -> bool {
        &&& self.activity@.len() == old.activity@.len() + 1
        &&& self.activity@.drop_last() == old.activity@
    }

    /// Pays `amount` for track `track_id`: each split's share, `amount * pct
    /// / 100` rounded down, is credited to its artist (unknown artists are
    /// skipped, balances saturate), then the payment is recorded. Fails,
    /// changing nothing, when the track is unknown or has no split table.
    pub fn distribute_payment(&mut self, track_id: u64, payer: u64, amount: u64, timestamp: u64) -> (r:
        bool)
        requires
            old(self).wf(),
        ensures
            final(self).wf(),
            r == (old(self).has(track_id) && old(self).track(track_id).splits is Some),
            (!r ==> *final(self) == *old(self)),
            (r ==> {
                let i = old(self).slot(track_id);
                let t = old(self).track(track_id);
                &&& final(self).ledger@ == credited_all(
                    old(self).ledger@,
                    shares_for(amount, t.splits.unwrap()),
                )
                &&& final(self)@ == old(self)@.update(
                    i,
                    RecordModel {
                        track: TrackModel {
                            payments: t.payments.push(Payment { payer, amount, timestamp }),
                            ..t
                        },
                        ..old(self)@[i]
                    },
                )
                &&& final(self).next_track_id == old(self).next_track_id
                &&& final(self).moderation == old(self).moderation
                &&& final(self).screen == old(self).screen
                &&& final(self).logged_one(old(self))
                &&& is_activity(
                    final(self).activity@.last(),
                    payer,
                    "distribute_payment"@,
                    timestamp,
                    paid_details(amount, track_id),
                )
            }),
    {
        let i = match self.find(track_id) {
            Some(i) => i,
            None => return false,
        };
        let mut rec = self.records[i].clone();
        let shares = match &rec.track.splits {
            Some(splits) => split_payment(amount, splits),
            None => return false,
        };
        self.ledger.credit_all(&shares);
        rec.track.payments.push(Payment { payer, amount, timestamp });
        self.put(i, rec);
        let mut details = String::from_str("Paid ");
        let a = to_decimal(amount);
        details.append(a.as_str());
        details.append(" for track ");
        let t = to_decimal(track_id);
        details.append(t.as_str());
        log_activity(&mut self.activity, payer, "distribute_payment", timestamp, details);
        true
    }

    /// Withdraws `amount` from an artist's royalties. Fails, changing
    /// nothing, exactly when `amount` is 0 or exceeds the balance.
    pub fn withdraw_royalties(&mut self, artist_id: u64, amount: u64, now: u64) -> (r: bool)
        requires
            old(self).wf(),
        ensures
            final(self).wf(),
            r == !(amount == 0 || amount > balance_of(old(self).ledger@, artist_id)),
            (!r ==> *final(self) == *old(self)),
            (r ==> {
                &&& final(self).ledger@ == old(self).ledger@.insert(
                    artist_id,
                    (balance_of(old(self).ledger@, artist_id) - amount) as u64,
                )
                &&& final(self)@ == old(self)@
                &&& final(self).records == old(self).records
                &&& final(self).next_track_id == old(self).next_track_id
                &&& final(self).moderation == old(self).moderation
                &&& final(self).screen == old(self).screen
                &&& final(self).logged_one(old(self))
                &&& is_activity(
                    final(self).activity@.last(),
                    artist_id,
                    "withdraw_royalties"@,
                    now,
                    withdrew_details(amount),
                )
            }),
    {
        if amount == 0 || amount > self.ledger.get_royalty_balance(artist_id) {
            return false;
        }
        let ok = self.ledger.withdraw_royalties(artist_id, amount);
        let mut details = String::from_str("Withdrew ");
        let a = to_decimal(amount);
        details.append(a.as_str());
        details.append(" tokens");
        log_activity(&mut self.activity, artist_id, "withdraw_royalties", now, details);
        ok
    }

    /// Adds a comment to track `track_id` and screens its text: a hit
    /// enqueues an automatic flag. `None`, changing nothing, when the track
    /// is unknown or the moderation queue has no id left.
    pub fn add_comment(&mut self, track_id: u64, commenter: u64, text: String, now: u64) -> (r:
        Option<crate::track::Track>)
        requires
            old(self).wf(),
        ensures
            final(self).wf(),
            r is Some <==> old(self).has(track_id) && old(self).moderation.has_room(),
            (r is None ==> *final(self) == *old(self)),
            (r matches Some(t) ==> {
                let i = old(self).slot(track_id);
                let old_t = old(self).track(track_id);
                let verdict = screen_verdict(old(self).screen@, text@);
                &&& t@ == TrackModel {
                    comments: old_t.comments.push(Comment { commenter, text }),
                    ..old_t
                }
                &&& final(self)@ == old(self)@.update(i, RecordModel { track: t@, ..old(self)@[i] })
                &&& final(self).next_track_id == old(self).next_track_id
                &&& final(self).ledger == old(self).ledger
                &&& final(self).screen == old(self).screen
                &&& (verdict is None ==> final(self).moderation.items@ == old(self).moderation.items@)
                &&& (verdict is Some ==> {
                    &&& final(self).moderation.items@.drop_last() == old(self).moderation.items@
                    &&& final(self).moderation.items@.len() == old(self).moderation.items@.len() + 1
                    &&& is_new_item(
                        final(self).moderation.items@.last(),
                        old(self).moderation.next_id() as u64,
                        ModerationTargetType::Comment,
                        comment_target(track_id, now),
                        None,
                        verdict.unwrap(),
                        now,
                        Some(auto_flag_note()),
                    )
                })
                &&& final(self).logged_one(old(self))
                &&& is_activity(
                    final(self).activity@.last(),
                    commenter,
                    "add_comment"@,
                    now,
                    commented_details(track_id, text@),
                )
            }),
    {
        let i = match self.find(track_id) {
            Some(i) => i,
            None => return None,
        };
        if !self.moderation.has_room_exec() {
            return None;
        }
        let mut target = String::from_str("track_");
        let id_text = to_decimal(track_id);
        target.append(id_text.as_str());
        target.append("_comment_");
        let now_text = to_decimal(now);
        target.append(now_text.as_str());
        self.moderation.auto_flag_content_if_needed(
            &self.screen,
            ModerationTargetType::Comment,
            target,
            text.as_str(),
            now,
        );
        let mut details = String::from_str("Commented on track ");
        details.append(id_text.as_str());
        details.append(": ");
        details.append(text.as_str());
        let mut rec = self.records[i].clone();
        rec.track.comments.push(Comment { commenter, text });
        let out = rec.track.clone();
        self.put(i, rec);
        log_activity(&mut self.activity, commenter, "add_comment", now, details);
        Some(out)
    }
}

} // verus!

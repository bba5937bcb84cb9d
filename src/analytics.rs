use vstd::prelude::*;
use crate::edits::contains_id;
use crate::queries::{capped, payment_sum, rating_sum, tracks_where};
use crate::store::TrackStore;
use crate::track::{TrackModel, RecordModel};

verus! {

/// Integer totals over a set of tracks. Sums saturate at `u64::MAX`.
#[derive(Clone, Copy, Debug, PartialEq, Eq, Structural)]
pub struct TrackTotals {
    pub tracks: u64,
    pub plays: u64,
    pub revenue: u64,
    pub ratings: u64,
    pub rating_sum: u64,
}

pub open spec fn sum_plays(ts: Seq<TrackModel>) -> int
    decreases ts.len(),
{
    if ts.len() == 0 {
        0
    } else {
        sum_plays(ts.drop_last()) + ts.last().play_count
    }
}

pub open spec fn sum_revenue(ts: Seq<TrackModel>) -> int
    decreases ts.len(),
{
    if ts.len() == 0 {
        0
    } else {
        sum_revenue(ts.drop_last()) + payment_sum(ts.last().payments)
    }
}

pub open spec fn sum_rating_counts(ts: Seq<TrackModel>) -> int
    decreases ts.len(),
{
    if ts.len() == 0 {
        0
    } else {
        sum_rating_counts(ts.drop_last()) + ts.last().ratings.len()
    }
}

pub open spec fn sum_ratings(ts: Seq<TrackModel>) -> int
    decreases ts.len(),
{
    if ts.len() == 0 {
        0
    } else {
        sum_ratings(ts.drop_last()) + rating_sum(ts.last().ratings)
    }
}

/// The totals that `ts` adds up to.
pub open spec fn totals_of(ts: Seq<TrackModel>) -> TrackTotals {
    TrackTotals {
        tracks: ts.len() as u64,
        plays: capped(sum_plays(ts), u64::MAX as int) as u64,
        revenue: capped(sum_revenue(ts), u64::MAX as int) as u64,
        ratings: capped(sum_rating_counts(ts), u64::MAX as int) as u64,
        rating_sum: capped(sum_ratings(ts), u64::MAX as int) as u64,
    }
}

/// A saturating add of a non-negative amount to a capped running sum
/// caps the grown sum.
proof fn lemma_capped_add(a: int, x: int)
    requires
        a >= 0,
        x >= 0,
    ensures
        capped(capped(a, u64::MAX as int) + capped(x, u64::MAX as int), u64::MAX as int) == capped(
            a + x,
            u64::MAX as int,
        ),
{
}

proof fn lemma_sums_nonneg(ts: Seq<TrackModel>)
    ensures
        sum_plays(ts) >= 0,
        sum_revenue(ts) >= 0,
        sum_rating_counts(ts) >= 0,
        sum_ratings(ts) >= 0,
    decreases ts.len(),
{
    if ts.len() > 0 {
        lemma_sums_nonneg(ts.drop_last());
        lemma_payment_sum_nonneg(ts.last().payments);
        lemma_rating_sum_nonneg(ts.last().ratings);
    }
}

proof fn lemma_payment_sum_nonneg(s: Seq<crate::types::Payment>)
    ensures
        payment_sum(s) >= 0,
    decreases s.len(),
{
    if s.len() > 0 {
        lemma_payment_sum_nonneg(s.drop_last());
    }
}

proof fn lemma_rating_sum_nonneg(s: Seq<(u64, u8)>)
    ensures
        rating_sum(s) >= 0,
    decreases s.len(),
{
    if s.len() > 0 {
        lemma_rating_sum_nonneg(s.drop_last());
    }
}

fn sat_add(a: u64, b: u128) -> (r: u64)
    ensures
        r == capped(a + b, u64::MAX as int),
{
    if b > u64::MAX as u128 || (a as u128) + b > u64::MAX as u128 {
        u64::MAX
    } else {
        (a as u128 + b) as u64
    }
}

impl TrackStore {
    /// Adds up the stored tracks for which `keep` holds, given the verdict
    /// of `p` on each stored track.
    fn totals_where(&self, keep: &Vec<bool>, p: Ghost<spec_fn(TrackModel) -> bool>) -> (r: TrackTotals)
        requires
            self.wf(),
            keep@.len() == self@.len(),
            forall|k: int| 0 <= k < keep@.len() ==> keep@[k] == (p@)(#[trigger] self@[k].track),
        ensures
            r == totals_of(tracks_where(*self, p@)),
    {
        let ghost all = self@.map_values(|x: RecordModel| x.track);
        let mut acc = TrackTotals { tracks: 0, plays: 0, revenue: 0, ratings: 0, rating_sum: 0 };
        let mut i: usize = 0;
        proof {
            reveal(Seq::filter);
            assert(all.subrange(0, 0).filter(p@) =~= Seq::<TrackModel>::empty());
        }
        while i < self.records.len()
            invariant
                all == self@.map_values(|x: RecordModel| x.track),
                keep@.len() == self@.len(),
                forall|k: int| 0 <= k < keep@.len() ==> keep@[k] == (p@)(#[trigger] self@[k].track),
                i <= self@.len(),
                acc == totals_of(all.subrange(0, i as int).filter(p@)),
                all.subrange(0, i as int).filter(p@).len() <= i,
            decreases self@.len() - i,
        {
            let ghost prev = all.subrange(0, i as int).filter(p@);
            let ghost sub = all.subrange(0, i as int + 1);
            assert(sub.drop_last() =~= all.subrange(0, i as int));
            assert(sub.last() == self@[i as int].track);
            reveal(Seq::filter);
            if keep[i] {
                let t = &self.records[i].track;
                let ghost next = prev.push(t@);
                assert(sub.filter(p@) == next);
                assert(next.drop_last() =~= prev);
                proof {
                    lemma_sums_nonneg(prev);
                    lemma_payment_sum_nonneg(t@.payments);
                    lemma_rating_sum_nonneg(t@.ratings);
                    lemma_capped_add(sum_plays(prev), t.play_count as int);
                    lemma_capped_add(sum_revenue(prev), payment_sum(t@.payments));
                    lemma_capped_add(sum_rating_counts(prev), t@.ratings.len() as int);
                    lemma_capped_add(sum_ratings(prev), rating_sum(t@.ratings));
                }
                let revenue = crate::queries::sum_payments(&t.payments);
                let rsum = crate::queries::sum_ratings(&t.ratings);
                acc = TrackTotals {
                    tracks: acc.tracks + 1,
                    plays: sat_add(acc.plays, t.play_count as u128),
                    revenue: sat_add(acc.revenue, revenue),
                    ratings: sat_add(acc.ratings, t.ratings.len() as u128),
                    rating_sum: sat_add(acc.rating_sum, rsum),
                };
            }
            i = i + 1;
        }
        assert(all.subrange(0, all.len() as int) =~= all);
        acc
    }

    /// Totals over the tracks that list `user_id` among their contributors.
    pub fn contributor_totals(&self, user_id: u64) -> (r: TrackTotals)
        requires
            self.wf(),
        ensures
            r == totals_of(tracks_where(*self, |t: TrackModel| t.contributors.contains(user_id))),
    {
        let ghost p = |t: TrackModel| t.contributors.contains(user_id);
        let mut keep: Vec<bool> = Vec::new();
        let mut i: usize = 0;
        while i < self.records.len()
            invariant
                p == (|t: TrackModel| t.contributors.contains(user_id)),
                i <= self@.len(),
                keep@.len() == i,
                forall|k: int| 0 <= k < i ==> keep@[k] == p(#[trigger] self@[k].track),
            decreases self@.len() - i,
        {
            keep.push(contains_id(&self.records[i].track.contributors, user_id));
            i = i + 1;
        }
        self.totals_where(&keep, Ghost(p))
    }

    /// Totals over every stored track.
    pub fn platform_totals(&self) -> (r: TrackTotals)
        requires
            self.wf(),
        ensures
            r == totals_of(tracks_where(*self, |t: TrackModel| true)),
    {
        let ghost p = |t: TrackModel| true;
        let mut keep: Vec<bool> = Vec::new();
        let mut i: usize = 0;
        while i < self.records.len()
            invariant
                p == (|t: TrackModel| true),
                i <= self@.len(),
                keep@.len() == i,
                forall|k: int| 0 <= k < i ==> keep@[k] == p(#[trigger] self@[k].track),
            decreases self@.len() - i,
        {
            keep.push(true);
            i = i + 1;
        }
        self.totals_where(&keep, Ghost(p))
    }
}

} // verus!

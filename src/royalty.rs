use vstd::prelude::*;
use crate::ledger::{balance_of, credited, credited_all};
use crate::types::Split;

verus! {

/// `amount * pct / 100`, rounded down.
pub open spec fn raw_share(amount: u64, pct: u8) -> int {
    (amount as int * pct as int) / 100
}

/// The share of `amount` owed for a split of `pct` percent; it is capped at
/// `u64::MAX`, which only a percentage above 100 can reach.
pub open spec fn share_of(amount: u64, pct: u8) -> u64 {
    if raw_share(amount, pct) <= u64::MAX {
        raw_share(amount, pct) as u64
    } else {
        u64::MAX
    }
}

/// What truncation drops from one split's share, in hundredths of a unit.
pub open spec fn truncation_of(amount: u64, pct: u8) -> int {
    (amount as int * pct as int) % 100
}

/// The sum of the percentages of a split table.
pub open spec fn pct_total(splits: Seq<Split>) -> int
    decreases splits.len(),
{
    if splits.len() == 0 {
        0
    } else {
        pct_total(splits.drop_last()) + splits.last().pct
    }
}

/// The sum of the shares of `amount` that a split table hands out.
pub open spec fn shares_total(amount: u64, splits: Seq<Split>) -> int
    decreases splits.len(),
{
    if splits.len() == 0 {
        0
    } else {
        shares_total(amount, splits.drop_last()) + share_of(amount, splits.last().pct)
    }
}

/// The sum of what truncation drops over a split table, in hundredths.
pub open spec fn truncation_total(amount: u64, splits: Seq<Split>) -> int
    decreases splits.len(),
{
    if splits.len() == 0 {
        0
    } else {
        truncation_total(amount, splits.drop_last()) + truncation_of(amount, splits.last().pct)
    }
}

/// The per-payee shares of `amount` under `splits`, one per split and in
/// the table's order: `(artist id, share)`.
pub open spec fn shares_for(amount: u64, splits: Seq<Split>) -> Seq<(u64, u64)> {
    splits.map_values(|s: Split| (s.id, share_of(amount, s.pct)))
}

/// Computes each payee's share of `amount`: `amount * pct / 100` rounded
/// down, in integer arithmetic. Percentages are not checked to add up to
/// 100 and an artist may appear more than once.
pub fn split_payment(amount: u64, splits: &Vec<Split>) -> (r: Vec<(u64, u64)>)
    ensures
        r@ == shares_for(amount, splits@),
{
    let mut out: Vec<(u64, u64)> = Vec::new();
    let mut i: usize = 0;
    while i < splits.len()
        invariant
            i <= splits@.len(),
            out@ == shares_for(amount, splits@.subrange(0, i as int)),
        decreases splits@.len() - i,
    {
        let s = splits[i];
        assert((amount as u128) * (s.pct as u128) <= u64::MAX as u128 * 255) by (nonlinear_arith)
            requires
                s.pct <= 255,
        ;
        let raw: u128 = (amount as u128) * (s.pct as u128) / 100;
        let share: u64 = if raw <= u64::MAX as u128 {
            raw as u64
        } else {
            u64::MAX
        };
        out.push((s.id, share));
        assert(out@ =~= shares_for(amount, splits@.subrange(0, i as int + 1)));
        i = i + 1;
    }
    assert(splits@.subrange(0, splits@.len() as int) =~= splits@);
    out
}

/// Shares and truncation together account for `amount * pct_total`, as
/// long as no percentage exceeds 100.
proof fn lemma_shares_and_truncation(amount: u64, splits: Seq<Split>)
    requires
        forall|i: int| 0 <= i < splits.len() ==> (#[trigger] splits[i]).pct <= 100,
    ensures
        100 * shares_total(amount, splits) + truncation_total(amount, splits) == amount
            * pct_total(splits),
    decreases splits.len(),
{
    if splits.len() > 0 {
        let d = splits.drop_last();
        assert forall|i: int| 0 <= i < d.len() implies (#[trigger] d[i]).pct <= 100 by {
            assert(d[i] == splits[i]);
        }
        lemma_shares_and_truncation(amount, d);
        let p = splits.last().pct;
        assert(splits[splits.len() - 1].pct <= 100);
        let prod = amount as int * p as int;
        assert(prod == 100 * (prod / 100) + prod % 100) by (nonlinear_arith);
        assert(prod / 100 <= amount as int) by (nonlinear_arith)
            requires
                prod == amount as int * p as int,
                p <= 100,
        ;
        assert(amount as int * pct_total(splits) == amount as int * pct_total(d) + prod)
            by (nonlinear_arith)
            requires
                pct_total(splits) == pct_total(d) + p,
                prod == amount as int * p as int,
        ;
    }
}

/// Whenever the percentages of a split table add up to exactly 100, the
/// shares of a payment never exceed the payment, and what is left over,
/// counted in hundredths of a unit, is the sum of what truncation dropped
/// from each share.
pub proof fn lemma_split_shortfall(amount: u64, splits: Seq<Split>)
    requires
        pct_total(splits) == 100,
    ensures
        shares_total(amount, splits) <= amount,
        100 * (amount - shares_total(amount, splits)) == truncation_total(amount, splits),
{
    lemma_pct_bound(splits);
    lemma_shares_and_truncation(amount, splits);
    lemma_truncation_nonneg(amount, splits);
}

/// No single percentage exceeds the table's total.
proof fn lemma_pct_bound(splits: Seq<Split>)
    ensures
        pct_total(splits) >= 0,
        forall|i: int| 0 <= i < splits.len() ==> (#[trigger] splits[i]).pct <= pct_total(splits),
    decreases splits.len(),
{
    if splits.len() > 0 {
        let d = splits.drop_last();
        lemma_pct_bound(d);
        assert forall|i: int| 0 <= i < splits.len() implies (#[trigger] splits[i]).pct
            <= pct_total(splits) by {
            if i < splits.len() - 1 {
                assert(d[i] == splits[i]);
            }
        }
    }
}

proof fn lemma_truncation_nonneg(amount: u64, splits: Seq<Split>)
    ensures
        truncation_total(amount, splits) >= 0,
    decreases splits.len(),
{
    if splits.len() > 0 {
        lemma_truncation_nonneg(amount, splits.drop_last());
    }
}


/// The sum of the balances of the artists `ks`.
pub open spec fn balance_sum(m: Map<u64, u64>, ks: Seq<u64>) -> int
    decreases ks.len(),
{
    if ks.len() == 0 {
        0
    } else {
        balance_sum(m, ks.drop_last()) + balance_of(m, ks.last())
    }
}

/// The sum of the amounts of `(artist, amount)` pairs.
pub open spec fn pair_total(s: Seq<(u64, u64)>) -> int
    decreases s.len(),
{
    if s.len() == 0 {
        0
    } else {
        pair_total(s.drop_last()) + s.last().1
    }
}

proof fn lemma_balance_le_sum(m: Map<u64, u64>, ks: Seq<u64>, id: u64)
    requires
        ks.contains(id),
    ensures
        balance_of(m, id) <= balance_sum(m, ks),
        balance_sum(m, ks) >= 0,
    decreases ks.len(),
{
    let d = ks.drop_last();
    lemma_balance_sum_nonneg(m, d);
    if ks.last() != id {
        let k = choose|k: int| 0 <= k < ks.len() && ks[k] == id;
        assert(d[k] == id);
        lemma_balance_le_sum(m, d, id);
    }
}

proof fn lemma_balance_sum_nonneg(m: Map<u64, u64>, ks: Seq<u64>)
    ensures
        balance_sum(m, ks) >= 0,
    decreases ks.len(),
{
    if ks.len() > 0 {
        lemma_balance_sum_nonneg(m, ks.drop_last());
    }
}

proof fn lemma_sum_unchanged(m: Map<u64, u64>, ks: Seq<u64>, id: u64, share: u64)
    requires
        !ks.contains(id),
    ensures
        balance_sum(credited(m, id, share), ks) == balance_sum(m, ks),
    decreases ks.len(),
{
    if ks.len() > 0 {
        let d = ks.drop_last();
        assert(!d.contains(id)) by {
            if d.contains(id) {
                let k = choose|k: int| 0 <= k < d.len() && d[k] == id;
                assert(ks[k] == id);
            }
        }
        assert(ks.last() != id) by {
            assert(ks[ks.len() - 1] == ks.last());
        }
        lemma_sum_unchanged(m, d, id, share);
    }
}

proof fn lemma_sum_after_credit(m: Map<u64, u64>, ks: Seq<u64>, id: u64, share: u64)
    requires
        ks.no_duplicates(),
        ks.contains(id),
        m.contains_key(id),
        m[id] + share <= u64::MAX,
    ensures
        balance_sum(credited(m, id, share), ks) == balance_sum(m, ks) + share,
    decreases ks.len(),
{
    let d = ks.drop_last();
    assert(d.no_duplicates());
    if ks.last() == id {
        assert(!d.contains(id)) by {
            if d.contains(id) {
                let k = choose|k: int| 0 <= k < d.len() && d[k] == id;
                assert(ks[k] == ks[ks.len() - 1]);
            }
        }
        lemma_sum_unchanged(m, d, id, share);
    } else {
        let k = choose|k: int| 0 <= k < ks.len() && ks[k] == id;
        assert(d[k] == id);
        lemma_sum_after_credit(m, d, id, share);
    }
}

/// Crediting known artists without reaching the cap raises the balances of
/// any distinct artists that include them all by exactly the amounts
/// credited.
proof fn lemma_credit_all_sum(m: Map<u64, u64>, ks: Seq<u64>, s: Seq<(u64, u64)>)
    requires
        ks.no_duplicates(),
        forall|i: int| 0 <= i < s.len() ==> m.contains_key((#[trigger] s[i]).0) && ks.contains(s[i].0),
        balance_sum(m, ks) + pair_total(s) <= u64::MAX,
    ensures
        balance_sum(credited_all(m, s), ks) == balance_sum(m, ks) + pair_total(s),
        forall|id: u64| #[trigger] credited_all(m, s).contains_key(id) == m.contains_key(id),
    decreases s.len(),
{
    if s.len() > 0 {
        let d = s.drop_last();
        assert forall|i: int| 0 <= i < d.len() implies m.contains_key((#[trigger] d[i]).0)
            && ks.contains(d[i].0) by {
            assert(d[i] == s[i]);
        }
        lemma_credit_all_sum(m, ks, d);
        let m1 = credited_all(m, d);
        let (id, share) = s.last();
        assert(s[s.len() - 1] == s.last());
        assert(m1.contains_key(id));
        lemma_balance_le_sum(m1, ks, id);
        lemma_sum_after_credit(m1, ks, id, share);
        assert forall|k: u64| #[trigger] credited_all(m, s).contains_key(k) == m.contains_key(k) by {
            assert(credited_all(m, s) == credited(m1, id, share));
            assert(m1.contains_key(k) == m.contains_key(k));
        }
    }
}

proof fn lemma_pair_total_shares(amount: u64, splits: Seq<Split>)
    ensures
        pair_total(shares_for(amount, splits)) == shares_total(amount, splits),
    decreases splits.len(),
{
    if splits.len() > 0 {
        assert(shares_for(amount, splits).drop_last() =~= shares_for(amount, splits.drop_last()));
        lemma_pair_total_shares(amount, splits.drop_last());
    }
}

/// Paying `amount` through a split table whose percentages add up to 100,
/// when every split names a known artist and no balance reaches the cap,
/// raises the balances of the artists `ks` (distinct, and covering every
/// split) by exactly the sum of the shares. That sum is at most `amount`,
/// and what is left over, counted in hundredths of a unit, is the sum of
/// what truncation dropped from each share.
pub proof fn lemma_payment_credits_shares(
    m: Map<u64, u64>,
    ks: Seq<u64>,
    amount: u64,
    splits: Seq<Split>,
)
    requires
        pct_total(splits) == 100,
        ks.no_duplicates(),
        forall|i: int|
            0 <= i < splits.len() ==> m.contains_key((#[trigger] splits[i]).id) && ks.contains(
                splits[i].id,
            ),
        balance_sum(m, ks) + amount <= u64::MAX,
    ensures
        balance_sum(credited_all(m, shares_for(amount, splits)), ks) - balance_sum(m, ks)
            == shares_total(amount, splits),
        shares_total(amount, splits) <= amount,
        100 * (amount - shares_total(amount, splits)) == truncation_total(amount, splits),
{
    lemma_split_shortfall(amount, splits);
    lemma_pair_total_shares(amount, splits);
    let s = shares_for(amount, splits);
    assert forall|i: int| 0 <= i < s.len() implies m.contains_key((#[trigger] s[i]).0) && ks.contains(
        s[i].0,
    ) by {
        assert(s[i].0 == splits[i].id);
    }
    lemma_credit_all_sum(m, ks, s);
}

} // verus!

use vstd::prelude::*;
use std::collections::HashMap;

verus! {

broadcast use vstd::std_specs::hash::group_hash_axioms;

/// The balance of `artist` in a ledger, 0 for an unknown artist.
pub open spec fn balance_of(m: Map<u64, u64>, artist: u64) -> u64 {
    if m.contains_key(artist) {
        m[artist]
    } else {
        0
    }
}

/// A ledger after crediting `share` to `artist`: a saturating add on a
/// known artist, nothing at all on an unknown one.
pub open spec fn credited(m: Map<u64, u64>, artist: u64, share: u64) -> Map<u64, u64> {
    if m.contains_key(artist) {
        let sum = m[artist] + share;
        m.insert(artist, if sum <= u64::MAX { sum as u64 } else { u64::MAX })
    } else {
        m
    }
}

/// A ledger after crediting each `(artist, share)` pair in turn.
pub open spec fn credited_all(m: Map<u64, u64>, shares: Seq<(u64, u64)>) -> Map<u64, u64>
    decreases shares.len(),
{
    if shares.len() == 0 {
        m
    } else {
        let last = shares.last();
        credited(credited_all(m, shares.drop_last()), last.0, last.1)
    }
}

/// Royalty balances by artist id. Ids are handed out from 1 upwards.
pub struct ArtistLedger {
    pub balances: HashMap<u64, u64>,
    pub next_artist_id: u64,
}

impl ArtistLedger {
    pub open spec fn view(&self) -> Map<u64, u64> {
        self.balances@
    }

    pub open spec fn wf(&self) -> bool {
        &&& self.next_artist_id >= 1
        &&& forall|id: u64| #[trigger] self@.contains_key(id) ==> 1 <= id < self.next_artist_id
    }

    pub fn new() -> (r: ArtistLedger)
        ensures
            r.wf(),
            r@ == Map::<u64, u64>::empty(),
            r.next_artist_id == 1,
    {
        ArtistLedger { balances: HashMap::new(), next_artist_id: 1 }
    }

    /// Opens an account with a zero balance under the next artist id.
    /// `None` only when the ids are used up.
    pub fn open_account(&mut self) -> (r: Option<u64>)
        requires
            old(self).wf(),
        ensures
            final(self).wf(),
            r is Some <==> old(self).next_artist_id < u64::MAX,
            (r matches Some(id) ==> {
                &&& id == old(self).next_artist_id
                &&& final(self)@ == old(self)@.insert(id, 0)
                &&& final(self).next_artist_id == id + 1
            }),
            (r is None ==> final(self)@ == old(self)@),
    {
        if self.next_artist_id == u64::MAX {
            return None;
        }
        let id = self.next_artist_id;
        let ghost before = self@;
        self.balances.insert(id, 0);
        self.next_artist_id = id + 1;
        assert forall|k: u64| #[trigger] self@.contains_key(k) implies 1 <= k < self.next_artist_id by {
            if k != id {
                assert(before.contains_key(k));
            }
        }
        Some(id)
    }

    /// The balance of `artist_id`, 0 for an unknown artist.
    pub fn get_royalty_balance(&self, artist_id: u64) -> (r: u64)
        ensures
            r == balance_of(self@, artist_id),
    {
        match self.balances.get(&artist_id) {
            Some(b) => *b,
            None => 0,
        }
    }

    /// Credits `share` to a known artist, saturating at `u64::MAX`; an
    /// unknown artist is skipped.
    pub fn credit(&mut self, artist_id: u64, share: u64)
        requires
            old(self).wf(),
        ensures
            final(self).wf(),
            final(self)@ == credited(old(self)@, artist_id, share),
            final(self).next_artist_id == old(self).next_artist_id,
    {
        match self.balances.get(&artist_id) {
            Some(b) => {
                let nb = b.saturating_add(share);
                let ghost before = self@;
                self.balances.insert(artist_id, nb);
                assert(self@.dom() =~= before.dom());
            },
            None => {},
        }
    }

    /// Credits each `(artist, share)` pair in turn.
    pub fn credit_all(&mut self, shares: &Vec<(u64, u64)>)
        requires
            old(self).wf(),
        ensures
            final(self).wf(),
            final(self)@ == credited_all(old(self)@, shares@),
            final(self).next_artist_id == old(self).next_artist_id,
    {
        let mut i: usize = 0;
        while i < shares.len()
            invariant
                self.wf(),
                i <= shares@.len(),
                self@ == credited_all(old(self)@, shares@.subrange(0, i as int)),
                self.next_artist_id == old(self).next_artist_id,
            decreases shares@.len() - i,
        {
            let (artist, share) = shares[i];
            self.credit(artist, share);
            assert(shares@.subrange(0, i as int + 1).drop_last() =~= shares@.subrange(0, i as int));
            i = i + 1;
        }
        assert(shares@.subrange(0, shares@.len() as int) =~= shares@);
    }

    /// Withdraws `amount` from `artist_id`'s balance. Fails, changing
    /// nothing, exactly when `amount` is 0 or exceeds the balance (an
    /// unknown artist has balance 0).
    pub fn withdraw_royalties(&mut self, artist_id: u64, amount: u64) -> (r: bool)
        requires
            old(self).wf(),
        ensures
            final(self).wf(),
            r == !(amount == 0 || amount > balance_of(old(self)@, artist_id)),
            r ==> final(self)@ == old(self)@.insert(
                artist_id,
                (balance_of(old(self)@, artist_id) - amount) as u64,
            ),
            !r ==> final(self)@ == old(self)@,
            final(self).next_artist_id == old(self).next_artist_id,
    {
        if amount == 0 {
            return false;
        }
        match self.balances.get(&artist_id) {
            Some(b) => {
                if *b >= amount {
                    let nb = *b - amount;
                    let ghost before = self@;
                    self.balances.insert(artist_id, nb);
                    assert(self@.dom() =~= before.dom());
                    true
                } else {
                    false
                }
            },
            None => false,
        }
    }
}

} // verus!

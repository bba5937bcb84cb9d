use vstd::prelude::*;
use crate::types::copy_text;

verus! {

/// State of a collaboration request.
#[derive(Clone, Copy, Debug, PartialEq, Eq, Structural)]
pub enum CollabRequestStatus {
    Pending,
    Accepted,
    Declined,
}

/// One artist's request to another to collaborate on a track.
#[derive(Debug)]
pub struct CollabRequest {
    pub id: u64,
    /// Artist id of the sender.
    pub from: u64,
    /// Artist id of the recipient.
    pub to: u64,
    pub track_id: u64,
    pub message: Option<String>,
    pub status: CollabRequestStatus,
    pub timestamp: u64,
}

impl Clone for CollabRequest {
    fn clone(&self) -> (r: Self)
        ensures
            r == *self,
    {
        CollabRequest {
            id: self.id,
            from: self.from,
            to: self.to,
            track_id: self.track_id,
            message: copy_text(&self.message),
            status: self.status,
            timestamp: self.timestamp,
        }
    }
}

/// `q` is a pending request from `from` to `to` about `track_id`.
pub open spec fn pending_between(q: CollabRequest, from: u64, to: u64, track_id: u64) -> bool {
    q.from == from && q.to == to && q.track_id == track_id && q.status == CollabRequestStatus::Pending
}

/// All collaboration requests; the one at position `i` has id `i + 1`.
pub struct CollabRequests {
    pub requests: Vec<CollabRequest>,
}

impl CollabRequests {
    pub open spec fn wf(&self) -> bool {
        forall|i: int| 0 <= i < self.requests@.len() ==> (#[trigger] self.requests@[i]).id == i + 1
    }

    /// A pending request with the same sender, recipient and track exists.
    pub open spec fn has_pending(&self, from: u64, to: u64, track_id: u64) -> bool {
        exists|i: int|
            0 <= i < self.requests@.len() && pending_between(
                #[trigger] self.requests@[i],
                from,
                to,
                track_id,
            )
    }

    pub fn new() -> (r: CollabRequests)
        ensures
            r.wf(),
            r.requests@.len() == 0,
    {
        CollabRequests { requests: Vec::new() }
    }

    /// Sends a request under the next id. `None`, changing nothing, when
    /// the same request is already pending or no id is left.
    pub fn send_collab_request(
        &mut self,
        from: u64,
        to: u64,
        track_id: u64,
        message: Option<String>,
        now: u64,
    ) -> (r: Option<CollabRequest>)
        requires
            old(self).wf(),
        ensures
            final(self).wf(),
            r is Some <==> !old(self).has_pending(from, to, track_id) && old(self).requests@.len()
                < u64::MAX,
            (r is None ==> final(self).requests@ == old(self).requests@),
            (r matches Some(q) ==> q == CollabRequest {
                id: (old(self).requests@.len() + 1) as u64,
                from,
                to,
                track_id,
                message,
                status: CollabRequestStatus::Pending,
                timestamp: now,
            } && final(self).requests@ == old(self).requests@.push(q)),
    {
        let mut i: usize = 0;
        while i < self.requests.len()
            invariant
                self.wf(),
                self.requests@ == old(self).requests@,
                i <= self.requests@.len(),
                forall|k: int|
                    0 <= k < i ==> !pending_between(#[trigger] self.requests@[k], from, to, track_id),
            decreases self.requests@.len() - i,
        {
            let q = &self.requests[i];
            if q.from == from && q.to == to && q.track_id == track_id && q.status
                == CollabRequestStatus::Pending {
                assert(pending_between(self.requests@[i as int], from, to, track_id));
                return None;
            }
            i = i + 1;
        }
        if self.requests.len() as u128 >= u64::MAX as u128 {
            return None;
        }
        let req = CollabRequest {
            id: self.requests.len() as u64 + 1,
            from,
            to,
            track_id,
            message,
            status: CollabRequestStatus::Pending,
            timestamp: now,
        };
        let out = req.clone();
        self.requests.push(req);
        Some(out)
    }

    /// Accepts or declines request `request_id` if it is pending.
    pub fn respond_collab_request(&mut self, request_id: u64, accept: bool) -> (r: Option<
        CollabRequest,
    >)
        requires
            old(self).wf(),
        ensures
            final(self).wf(),
            r is Some <==> 1 <= request_id <= old(self).requests@.len() && old(self).requests@[request_id
                - 1].status == CollabRequestStatus::Pending,
            (r is None ==> final(self).requests@ == old(self).requests@),
            (r matches Some(q) ==> {
                let i = request_id - 1;
                &&& q == CollabRequest {
                    status: if accept {
                        CollabRequestStatus::Accepted
                    } else {
                        CollabRequestStatus::Declined
                    },
                    ..old(self).requests@[i]
                }
                &&& final(self).requests@ == old(self).requests@.update(i, q)
            }),
    {
        if request_id == 0 || request_id as u128 > self.requests.len() as u128 {
            return None;
        }
        let i = (request_id - 1) as usize;
        if self.requests[i].status != CollabRequestStatus::Pending {
            return None;
        }
        let mut q = self.requests[i].clone();
        q.status = if accept {
            CollabRequestStatus::Accepted
        } else {
            CollabRequestStatus::Declined
        };
        let out = q.clone();
        self.requests.set(i, q);
        Some(out)
    }

    /// The requests that `user_id` sent or received, oldest first.
    pub fn list_collab_requests_for_user(&self, user_id: u64) -> (r: Vec<CollabRequest>)
        ensures
            r@ == self.requests@.filter(|q: CollabRequest| q.to == user_id || q.from == user_id),
    {
        let ghost pred = |q: CollabRequest| q.to == user_id || q.from == user_id;
        let mut out: Vec<CollabRequest> = Vec::new();
        let mut i: usize = 0;
        while i < self.requests.len()
            invariant
                pred == (|q: CollabRequest| q.to == user_id || q.from == user_id),
                i <= self.requests@.len(),
                out@ == self.requests@.subrange(0, i as int).filter(pred),
            decreases self.requests@.len() - i,
        {
            let ghost sub = self.requests@.subrange(0, i as int + 1);
            assert(sub.drop_last() =~= self.requests@.subrange(0, i as int));
            reveal(Seq::filter);
            let q = &self.requests[i];
            if q.to == user_id || q.from == user_id {
                out.push(q.clone());
            }
            i = i + 1;
        }
        assert(self.requests@.subrange(0, self.requests@.len() as int) =~= self.requests@);
        out
    }
}

} // verus!

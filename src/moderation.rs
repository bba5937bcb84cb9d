use vstd::prelude::*;
use vstd::string::*;
use candid::Principal;
use crate::screen::{ContentScreen, screen_verdict};
use crate::types::{UserRole, copy_text};

verus! {

/// The kind of content a moderation item points at.
#[derive(Clone, Copy, Debug, PartialEq, Eq, Structural)]
pub enum ModerationTargetType {
    Track,
    Comment,
}

/// Review state of a moderation item.
#[derive(Clone, Copy, Debug, PartialEq, Eq, Structural)]
pub enum ModerationStatus {
    Pending,
    Approved,
    Removed,
}

/// Content flagged for human review.
#[derive(Debug)]
pub struct ModerationQueueItem {
    pub id: u64,
    pub target_type: ModerationTargetType,
    pub target_id: String,
    /// The user who flagged it; `None` for the automatic screen.
    pub flagged_by: Option<Principal>,
    pub reason: String,
    pub status: ModerationStatus,
    pub created_at: u64,
    pub reviewed_by: Option<Principal>,
    pub reviewed_at: Option<u64>,
    pub notes: Option<String>,
}

impl Clone for ModerationQueueItem {
    fn clone(&self) -> (r: Self)
        ensures
            r == *self,
    {
        ModerationQueueItem {
            id: self.id,
            target_type: self.target_type,
            target_id: self.target_id.clone(),
            flagged_by: self.flagged_by,
            reason: self.reason.clone(),
            status: self.status,
            created_at: self.created_at,
            reviewed_by: self.reviewed_by,
            reviewed_at: self.reviewed_at,
            notes: copy_text(&self.notes),
        }
    }
}

/// A fresh, unreviewed item with the given fields.
pub open spec fn is_new_item(
    item: ModerationQueueItem,
    id: u64,
    target_type: ModerationTargetType,
    target_id: Seq<char>,
    flagged_by: Option<Principal>,
    reason: Seq<char>,
    now: u64,
    notes: Option<Seq<char>>,
) -> bool {
    &&& item.id == id
    &&& item.target_type == target_type
    &&& item.target_id@ == target_id
    &&& item.flagged_by == flagged_by
    &&& item.reason@ == reason
    &&& item.status == ModerationStatus::Pending
    &&& item.created_at == now
    &&& item.reviewed_by is None
    &&& item.reviewed_at is None
    &&& match item.notes {
        Some(n) => notes == Some(n@),
        None => notes is None,
    }
}

/// The note attached to items that the automatic screen flagged.
pub open spec fn auto_flag_note() -> Seq<char> {
    "Auto-flagged by system"@
}

/// `item` after a review that set `status` and `notes`.
pub open spec fn reviewed_item(
    item: ModerationQueueItem,
    status: ModerationStatus,
    notes: Option<String>,
    reviewer: Principal,
    now: u64,
) -> ModerationQueueItem {
    ModerationQueueItem {
        status: status,
        reviewed_by: Some(reviewer),
        reviewed_at: Some(now),
        notes: notes,
        ..item
    }
}

/// The append-only queue of flagged content. The item at position `i` has
/// id `i + 1`.
pub struct ModerationQueue {
    pub items: Vec<ModerationQueueItem>,
}

impl ModerationQueue {
    pub open spec fn wf(&self) -> bool {
        forall|i: int| 0 <= i < self.items@.len() ==> (#[trigger] self.items@[i]).id == i + 1
    }

    /// The id the next item will get.
    pub open spec fn next_id(&self) -> int {
        self.items@.len() + 1int
    }

    /// Whether another item can still be given an id.
    pub open spec fn has_room(&self) -> bool {
        self.items@.len() < u64::MAX
    }

    pub fn new() -> (r: ModerationQueue)
        ensures
            r.wf(),
            r.items@.len() == 0,
    {
        ModerationQueue { items: Vec::new() }
    }

    pub fn has_room_exec(&self) -> (r: bool)
        ensures
            r == self.has_room(),
    {
        (self.items.len() as u128) < (u64::MAX as u128)
    }

    fn enqueue(
        &mut self,
        target_type: ModerationTargetType,
        target_id: String,
        flagged_by: Option<Principal>,
        reason: String,
        now: u64,
        notes: Option<String>,
    ) -> (r: ModerationQueueItem)
        requires
            old(self).wf(),
            old(self).has_room(),
        ensures
            final(self).wf(),
            is_new_item(
                r,
                old(self).next_id() as u64,
                target_type,
                target_id@,
                flagged_by,
                reason@,
                now,
                crate::types::text_view(notes),
            ),
            final(self).items@ == old(self).items@.push(r),
    {
        let id = self.items.len() as u64 + 1;
        let item = ModerationQueueItem {
            id,
            target_type,
            target_id,
            flagged_by,
            reason,
            status: ModerationStatus::Pending,
            created_at: now,
            reviewed_by: None,
            reviewed_at: None,
            notes,
        };
        let r = item.clone();
        self.items.push(item);
        r
    }

    /// Flags content on a user's behalf. `None` only when no id is left to
    /// give.
    pub fn flag_content_for_moderation(
        &mut self,
        target_type: ModerationTargetType,
        target_id: String,
        reason: String,
        flagged_by: Principal,
        now: u64,
    ) -> (r: Option<ModerationQueueItem>)
        requires
            old(self).wf(),
        ensures
            final(self).wf(),
            r is Some <==> old(self).has_room(),
            (r matches Some(item) ==> {
                &&& is_new_item(
                    item,
                    old(self).next_id() as u64,
                    target_type,
                    target_id@,
                    Some(flagged_by),
                    reason@,
                    now,
                    None,
                )
                &&& final(self).items@ == old(self).items@.push(item)
            }),
            (r is None ==> final(self).items@ == old(self).items@),
    {
        if !self.has_room_exec() {
            return None;
        }
        Some(self.enqueue(target_type, target_id, Some(flagged_by), reason, now, None))
    }

    /// Runs `screen` over `content` and, on a hit, enqueues an automatic
    /// flag whose reason names the keyword. True when an item was added.
    pub fn auto_flag_content_if_needed(
        &mut self,
        screen: &ContentScreen,
        target_type: ModerationTargetType,
        target_id: String,
        content: &str,
        now: u64,
    ) -> (r: bool)
        requires
            old(self).wf(),
        ensures
            final(self).wf(),
            r == (screen_verdict(screen@, content@) is Some && old(self).has_room()),
            r ==> final(self).items@.len() == old(self).items@.len() + 1
                && final(self).items@.drop_last() == old(self).items@
                && is_new_item(
                    final(self).items@.last(),
                    old(self).next_id() as u64,
                    target_type,
                    target_id@,
                    None,
                    screen_verdict(screen@, content@).unwrap(),
                    now,
                    Some(auto_flag_note()),
                ),
            !r ==> final(self).items@ == old(self).items@,
    {
        if !self.has_room_exec() {
            return false;
        }
        match screen.check_content_for_banned_words(content) {
            Some(reason) => {
                let note = String::from_str("Auto-flagged by system");
                let ghost before = self.items@;
                let item = self.enqueue(target_type, target_id, None, reason, now, Some(note));
                assert(self.items@.drop_last() =~= before);
                true
            },
            None => false,
        }
    }

    /// Records a review of item `item_id`, moving it to Approved or Removed.
    /// Only an administrator may review, and no review moves an item back to
    /// Pending; a reviewed item may be reviewed again, the last review wins.
    /// True when the item exists, the caller is an administrator and the new
    /// status is not Pending.
    pub fn review_moderation_item(
        &mut self,
        item_id: u64,
        status: ModerationStatus,
        notes: Option<String>,
        reviewer: Principal,
        reviewer_role: UserRole,
        now: u64,
    ) -> (r: bool)
        requires
            old(self).wf(),
        ensures
            final(self).wf(),
            r == (reviewer_role == UserRole::Admin && 1 <= item_id <= old(self).items@.len() && status
                != ModerationStatus::Pending),
            r ==> final(self).items@ == old(self).items@.update(
                item_id - 1,
                reviewed_item(old(self).items@[item_id - 1], status, notes, reviewer, now),
            ),
            !r ==> final(self).items@ == old(self).items@,
    {
        if reviewer_role != UserRole::Admin || status == ModerationStatus::Pending {
            return false;
        }
        if item_id == 0 || item_id as u128 > self.items.len() as u128 {
            return false;
        }
        let i = (item_id - 1) as usize;
        let mut item = self.items[i].clone();
        item.status = status;
        item.reviewed_by = Some(reviewer);
        item.reviewed_at = Some(now);
        item.notes = notes;
        self.items.set(i, item);
        true
    }

    /// All items, oldest first.
    pub fn list_moderation_queue(&self) -> (r: Vec<ModerationQueueItem>)
        ensures
            r@ == self.items@,
    {
        let mut out: Vec<ModerationQueueItem> = Vec::new();
        let mut i: usize = 0;
        while i < self.items.len()
            invariant
                i <= self.items@.len(),
                out@ == self.items@.subrange(0, i as int),
            decreases self.items@.len() - i,
        {
            out.push(self.items[i].clone());
            assert(out@ =~= self.items@.subrange(0, i as int + 1));
            i = i + 1;
        }
        assert(out@ =~= self.items@);
        out
    }
}

} // verus!

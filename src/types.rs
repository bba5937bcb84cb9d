use vstd::prelude::*;
use vstd::string::*;

verus! {

/// Declares `candid::Principal`, the identity of a caller as the hosting
/// runtime hands it over. It stays opaque: the library only carries it
/// along to attribute actions.
#[verifier::external_type_specification]
#[verifier::external_body]
pub struct ExPrincipal(candid::Principal);

/// A comment left on a track.
#[derive(Debug)]
pub struct Comment {
    /// Artist id of the commenter.
    pub commenter: u64,
    pub text: String,
}

impl Clone for Comment {
    fn clone(&self) -> (r: Self)
        ensures
            r == *self,
    {
        Comment { commenter: self.commenter, text: self.text.clone() }
    }
}

/// One entry of a royalty split table: an artist and its percentage.
#[derive(Clone, Copy, Debug, PartialEq, Eq, Structural)]
pub struct Split {
    /// Artist id.
    pub id: u64,
    pub pct: u8,
}

/// A payment made for a track.
#[derive(Clone, Copy, Debug, PartialEq, Eq, Structural)]
pub struct Payment {
    pub payer: u64,
    pub amount: u64,
    pub timestamp: u64,
}

/// An entry of the activity log.
#[derive(Debug)]
pub struct Activity {
    pub user_id: u64,
    pub action: String,
    pub timestamp: u64,
    pub details: String,
}

impl Clone for Activity {
    fn clone(&self) -> (r: Self)
        ensures
            r == *self,
    {
        Activity {
            user_id: self.user_id,
            action: self.action.clone(),
            timestamp: self.timestamp,
            details: self.details.clone(),
        }
    }
}

/// An activity entry with the given fields.
pub open spec fn is_activity(
    a: Activity,
    user_id: u64,
    action: Seq<char>,
    timestamp: u64,
    details: Seq<char>,
) -> bool {
    a.user_id == user_id && a.action@ == action && a.timestamp == timestamp && a.details@ == details
}

/// Appends an entry to an activity log.
pub fn log_activity(log: &mut Vec<Activity>, user_id: u64, action: &str, timestamp: u64, details: String)
    ensures
        final(log)@.len() == old(log)@.len() + 1,
        final(log)@.drop_last() == old(log)@,
        is_activity(final(log)@.last(), user_id, action@, timestamp, details@),
{
    let ghost before = log@;
    log.push(Activity { user_id, action: String::from_str(action), timestamp, details });
    assert(log@.drop_last() =~= before);
}

/// Platform-wide role of a user.
#[derive(Clone, Copy, Debug, PartialEq, Eq, Structural)]
pub enum UserRole {
    User,
    Admin,
    Moderator,
}

/// A copy of an optional text.
pub fn copy_text(o: &Option<String>) -> (r: Option<String>)
    ensures
        r == *o,
{
    match o {
        Some(s) => Some(s.clone()),
        None => None,
    }
}

/// The character sequence of an optional text.
pub open spec fn text_view(o: Option<String>) -> Option<Seq<char>> {
    match o {
        Some(s) => Some(s@),
        None => None,
    }
}

} // verus!

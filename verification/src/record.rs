//! Per-identity verification records and their well-formedness.

use vstd::prelude::*;

verus! {

/// Smallest value a verification code may take (inclusive).
pub const CODE_MIN: i32 = 100000;

/// Upper bound on verification codes (exclusive): codes are six decimal digits.
pub const CODE_MAX: i32 = 1000000;

/// How long a fresh verification code stays valid, in milliseconds.
pub const CODE_TTL_MILLIS: u128 = 30000;

/// Progress of one identity through the verification workflow.
#[derive(Clone, Copy, PartialEq, Eq, Structural, Debug)]
pub enum VerifyState {
    /// Created on first contact; holds an outstanding code and its expiry.
    New,
    /// A chat account has claimed the code; awaiting moderator approval.
    Pending,
    /// A moderator has approved the link.
    Approved,
}

/// One verification record, keyed by the opaque `uuid` identity string.
pub struct UserState {
    /// Human-readable label, informational only.
    pub name: String,
    /// Unique key; immutable after creation.
    pub uuid: String,
    /// The chat-platform account linked to this record, once one claims it.
    pub discord_id: Option<u64>,
    /// Position in the state machine.
    pub verify_state: VerifyState,
    /// Handle of the notification posted for moderator review.
    pub verify_message: Option<u64>,
    /// Outstanding code; present exactly while the record is `New`.
    pub verify_code: Option<i32>,
    /// When the outstanding code lapses; present exactly alongside the code.
    pub code_expires: Option<u128>,
}

impl UserState {
    /// Shape every record must keep: the code and its expiry exist exactly in
    /// state `New`, a linked account exists exactly outside `New`, codes are
    /// six digits, and a `New` record never carries a notification handle.
    pub open spec fn wf(self) -> bool {
        &&& (self.verify_code is Some <==> self.verify_state is New)
        &&& (self.code_expires is Some <==> self.verify_state is New)
        &&& (self.discord_id is Some <==> !(self.verify_state is New))
        &&& (self.verify_state is New ==> self.verify_message is None)
        &&& (self.verify_code is Some ==> CODE_MIN <= self.verify_code->0 < CODE_MAX)
    }

    /// A fresh record in state `New` holding `code`, expiring a short while
    /// after `now`.
    pub fn new(name: &String, uuid: &String, code: i32, now: u128) -> (r: UserState)
        requires
            CODE_MIN <= code < CODE_MAX,
            now + CODE_TTL_MILLIS <= u128::MAX,
        ensures
            r.wf(),
            r.name@ == name@,
            r.uuid@ == uuid@,
            r.discord_id is None,
            r.verify_state is New,
            r.verify_message is None,
            r.verify_code == Some(code),
            r.code_expires == Some((now + CODE_TTL_MILLIS) as u128),
    {
        UserState {
            name: name.clone(),
            uuid: uuid.clone(),
            discord_id: None,
            verify_state: VerifyState::New,
            verify_message: None,
            verify_code: Some(code),
            code_expires: Some(now + CODE_TTL_MILLIS),
        }
    }
}

impl Clone for UserState {
    /// An exact copy: every field of the result equals the original's.
    fn clone(&self) -> (r: Self)
        ensures
            r == *self,
    {
        UserState {
            name: self.name.clone(),
            uuid: self.uuid.clone(),
            discord_id: self.discord_id,
            verify_state: self.verify_state,
            verify_message: self.verify_message,
            verify_code: self.verify_code,
            code_expires: self.code_expires,
        }
    }
}

} // verus!

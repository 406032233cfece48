use vstd::prelude::*;

use crate::model::{
    spec_state_error, state_error, Agreement, AgreementError, AgreementState, ApprovalStatus,
    RemoteError, StateError,
};
use crate::reason::Reason;
use crate::NodeId;

verus! {

/// Whether the deadline of `a` has been reached at time `now`.
pub open spec fn deadline_passed(a: Agreement, now: u64) -> bool {
    now >= a.valid_to
}

/// Requestor confirms: `Proposal` becomes `Pending` before `valid_to`.
pub open spec fn confirm_step(a: Agreement, session: Option<String>, now: u64) -> Result<
    Agreement,
    AgreementError,
> {
    if a.state != AgreementState::Proposal {
        Err(AgreementError::InvalidState(spec_state_error(a.state)))
    } else if deadline_passed(a, now) {
        Err(AgreementError::InvalidState(StateError::Expired))
    } else {
        Ok(Agreement { state: AgreementState::Pending, session_id: session, ..a })
    }
}

/// Requestor learns how its `Propose` went: a failure rolls `Pending` back
/// to the unconfirmed record, which has no session.
pub open spec fn confirm_reply_step(a: Agreement, reply: Result<(), RemoteError>) -> (
    Agreement,
    Result<(), AgreementError>,
) {
    match reply {
        Ok(()) => (a, Ok(())),
        Err(e) => (
            if a.state == AgreementState::Pending {
                Agreement { state: AgreementState::Proposal, session_id: None, ..a }
            } else {
                a
            },
            Err(AgreementError::ProtocolCreate(e)),
        ),
    }
}

/// Provider approves locally: `Pending` becomes `Approving` before
/// `valid_to`, and the time of the approval is recorded. The record keeps
/// the session that came with `Propose`.
pub open spec fn approve_step(a: Agreement, now: u64) -> Result<
    Agreement,
    AgreementError,
> {
    if a.state != AgreementState::Pending {
        Err(AgreementError::InvalidState(spec_state_error(a.state)))
    } else if deadline_passed(a, now) {
        Err(AgreementError::InvalidState(StateError::Expired))
    } else {
        Ok(
            Agreement {
                state: AgreementState::Approving,
                approved_ts: Some(now),
                ..a
            },
        )
    }
}

pub open spec fn unapproved(a: Agreement) -> Agreement {
    if a.state == AgreementState::Approving {
        Agreement { state: AgreementState::Pending, approved_ts: None, ..a }
    } else {
        a
    }
}

/// Provider learns the requestor's answer to its `Approve`.
pub open spec fn approve_reply_step(a: Agreement, reply: Result<(), RemoteError>) -> (
    Agreement,
    Result<(), AgreementError>,
) {
    match reply {
        Ok(()) => if a.state == AgreementState::Approving {
            (Agreement { state: AgreementState::Approved, ..a }, Ok(()))
        } else {
            (a, Err(AgreementError::InvalidState(spec_state_error(a.state))))
        },
        Err(RemoteError::InvalidState(s)) => (unapproved(a), Err(AgreementError::InvalidState(s))),
        Err(e) => (unapproved(a), Err(AgreementError::ProtocolApprove(e))),
    }
}

/// Requestor receives `Approve` from its counterpart.
pub open spec fn on_approve_step(a: Agreement, sender: NodeId, now: u64) -> Result<
    Agreement,
    RemoteError,
> {
    if sender != a.spec_counterpart() {
        Err(RemoteError::Unauthorized)
    } else if a.state != AgreementState::Pending {
        Err(RemoteError::InvalidState(spec_state_error(a.state)))
    } else if deadline_passed(a, now) {
        Err(RemoteError::InvalidState(StateError::Expired))
    } else {
        Ok(Agreement { state: AgreementState::Approved, approved_ts: Some(now), ..a })
    }
}

/// A side ends a `Pending` agreement on its own (reject, cancel).
pub open spec fn withdraw_step(a: Agreement, to: AgreementState) -> Result<
    Agreement,
    AgreementError,
> {
    if a.state != AgreementState::Pending {
        Err(AgreementError::InvalidState(spec_state_error(a.state)))
    } else {
        Ok(Agreement { state: to, ..a })
    }
}

/// A side receives the peer's reject or cancel: an open agreement takes the
/// peer's outcome; a repeated message changes nothing.
pub open spec fn on_withdraw_step(a: Agreement, sender: NodeId, to: AgreementState) -> Result<
    Agreement,
    RemoteError,
> {
    if sender != a.spec_counterpart() {
        Err(RemoteError::Unauthorized)
    } else if a.state == to {
        Ok(a)
    } else if a.state == AgreementState::Pending || a.state == AgreementState::Approving {
        Ok(Agreement { state: to, ..a })
    } else {
        Err(RemoteError::InvalidState(spec_state_error(a.state)))
    }
}

pub open spec fn terminated(a: Agreement, reason: Reason, now: u64) -> Agreement {
    Agreement {
        state: AgreementState::Terminated,
        terminated_ts: Some(now),
        termination_reason: Some(reason),
        ..a
    }
}

/// A side terminates an `Approved` agreement.
pub open spec fn terminate_step(a: Agreement, reason: Reason, now: u64) -> Result<
    Agreement,
    AgreementError,
> {
    if a.state != AgreementState::Approved {
        Err(AgreementError::InvalidState(spec_state_error(a.state)))
    } else {
        Ok(terminated(a, reason, now))
    }
}

/// A side receives the peer's `Terminate`.
pub open spec fn on_terminate_step(a: Agreement, reason: Reason, sender: NodeId, now: u64) -> Result<
    Agreement,
    RemoteError,
> {
    if sender != a.spec_counterpart() {
        Err(RemoteError::Unauthorized)
    } else if a.state == AgreementState::Terminated {
        Ok(a)
    } else if a.state == AgreementState::Approved {
        Ok(terminated(a, reason, now))
    } else {
        Err(RemoteError::InvalidState(spec_state_error(a.state)))
    }
}

/// The expiration timer fires: an open agreement past its deadline expires.
pub open spec fn expire_step(a: Agreement, now: u64) -> Option<Agreement> {
    if crate::model::is_expirable(a.state) && deadline_passed(a, now) {
        Some(Agreement { state: AgreementState::Expired, ..a })
    } else {
        None
    }
}

/// What a wait for approval reports at time `now`; `None` means "keep
/// waiting".
pub open spec fn wait_step(a: Agreement, now: u64, timed_out: bool) -> Result<
    Option<ApprovalStatus>,
    AgreementError,
> {
    let id = a.agreement_id;
    match a.state {
        AgreementState::Proposal => Err(AgreementError::NotConfirmed(id)),
        AgreementState::Expired => Err(AgreementError::Expired(id)),
        AgreementState::Approved => Ok(Some(ApprovalStatus::Approved)),
        AgreementState::Cancelled => Ok(Some(ApprovalStatus::Cancelled)),
        AgreementState::Rejected => Ok(Some(ApprovalStatus::Rejected)),
        AgreementState::Terminated => Ok(Some(ApprovalStatus::Terminated)),
        _ => if deadline_passed(a, now) {
            Err(AgreementError::Expired(id))
        } else if timed_out {
            Ok(Some(ApprovalStatus::TimedOut))
        } else {
            Ok(None)
        },
    }
}

pub fn confirm_record(a: &Agreement, session: Option<String>, now: u64) -> (r: Result<
    Agreement,
    AgreementError,
>)
    requires
        a.wf(),
    ensures
        r == confirm_step(*a, session, now),
        r matches Ok(b) ==> b.wf(),
{
    if a.state != AgreementState::Proposal {
        Err(AgreementError::InvalidState(state_error(a.state)))
    } else if now >= a.valid_to {
        Err(AgreementError::InvalidState(StateError::Expired))
    } else {
        let mut b = a.duplicate();
        b.state = AgreementState::Pending;
        b.session_id = session;
        Ok(b)
    }
}

pub fn confirm_reply_record(a: &Agreement, reply: Result<(), RemoteError>) -> (r: (
    Agreement,
    Result<(), AgreementError>,
))
    requires
        a.wf(),
    ensures
        r == confirm_reply_step(*a, reply),
        r.0.wf(),
{
    let mut b = a.duplicate();
    match reply {
        Ok(()) => (b, Ok(())),
        Err(e) => {
            if b.state == AgreementState::Pending {
                b.state = AgreementState::Proposal;
                b.session_id = None;
            }
            (b, Err(AgreementError::ProtocolCreate(e)))
        },
    }
}

pub fn approve_record(a: &Agreement, now: u64) -> (r: Result<
    Agreement,
    AgreementError,
>)
    requires
        a.wf(),
    ensures
        r == approve_step(*a, now),
        r matches Ok(b) ==> b.wf(),
{
    if a.state != AgreementState::Pending {
        Err(AgreementError::InvalidState(state_error(a.state)))
    } else if now >= a.valid_to {
        Err(AgreementError::InvalidState(StateError::Expired))
    } else {
        let mut b = a.duplicate();
        b.state = AgreementState::Approving;
        b.approved_ts = Some(now);
        Ok(b)
    }
}

pub fn approve_reply_record(a: &Agreement, reply: Result<(), RemoteError>) -> (r: (
    Agreement,
    Result<(), AgreementError>,
))
    requires
        a.wf(),
    ensures
        r == approve_reply_step(*a, reply),
        r.0.wf(),
{
    let mut b = a.duplicate();
    match reply {
        Ok(()) => {
            if b.state == AgreementState::Approving {
                b.state = AgreementState::Approved;
                (b, Ok(()))
            } else {
                let e = state_error(b.state);
                (b, Err(AgreementError::InvalidState(e)))
            }
        },
        Err(e) => {
            if b.state == AgreementState::Approving {
                b.state = AgreementState::Pending;
                b.approved_ts = None;
            }
            match e {
                RemoteError::InvalidState(s) => (b, Err(AgreementError::InvalidState(s))),
                _ => (b, Err(AgreementError::ProtocolApprove(e))),
            }
        },
    }
}

pub fn on_approve_record(a: &Agreement, sender: NodeId, now: u64) -> (r: Result<
    Agreement,
    RemoteError,
>)
    requires
        a.wf(),
    ensures
        r == on_approve_step(*a, sender, now),
        r matches Ok(b) ==> b.wf(),
{
    if sender != a.counterpart() {
        Err(RemoteError::Unauthorized)
    } else if a.state != AgreementState::Pending {
        Err(RemoteError::InvalidState(state_error(a.state)))
    } else if now >= a.valid_to {
        Err(RemoteError::InvalidState(StateError::Expired))
    } else {
        let mut b = a.duplicate();
        b.state = AgreementState::Approved;
        b.approved_ts = Some(now);
        Ok(b)
    }
}

pub fn withdraw_record(a: &Agreement, to: AgreementState) -> (r: Result<
    Agreement,
    AgreementError,
>)
    requires
        a.wf(),
        to == AgreementState::Rejected || to == AgreementState::Cancelled,
    ensures
        r == withdraw_step(*a, to),
        r matches Ok(b) ==> b.wf(),
{
    if a.state != AgreementState::Pending {
        Err(AgreementError::InvalidState(state_error(a.state)))
    } else {
        let mut b = a.duplicate();
        b.state = to;
        Ok(b)
    }
}

pub fn on_withdraw_record(a: &Agreement, sender: NodeId, to: AgreementState) -> (r: Result<
    Agreement,
    RemoteError,
>)
    requires
        a.wf(),
        to == AgreementState::Rejected || to == AgreementState::Cancelled,
    ensures
        r == on_withdraw_step(*a, sender, to),
        r matches Ok(b) ==> b.wf(),
{
    if sender != a.counterpart() {
        Err(RemoteError::Unauthorized)
    } else if a.state == to {
        Ok(a.duplicate())
    } else if a.state == AgreementState::Pending || a.state == AgreementState::Approving {
        let mut b = a.duplicate();
        b.state = to;
        Ok(b)
    } else {
        Err(RemoteError::InvalidState(state_error(a.state)))
    }
}

fn terminated_record(a: &Agreement, reason: Reason, now: u64) -> (r: Agreement)
    ensures
        r == terminated(*a, reason, now),
        reason.wf(),
{
    proof {
        use_type_invariant(&reason);
    }
    let mut b = a.duplicate();
    b.state = AgreementState::Terminated;
    b.terminated_ts = Some(now);
    b.termination_reason = Some(reason);
    b
}

pub fn terminate_record(a: &Agreement, reason: Reason, now: u64) -> (r: Result<
    Agreement,
    AgreementError,
>)
    requires
        a.wf(),
    ensures
        r == terminate_step(*a, reason, now),
        r matches Ok(b) ==> b.wf(),
{
    if a.state != AgreementState::Approved {
        Err(AgreementError::InvalidState(state_error(a.state)))
    } else {
        Ok(terminated_record(a, reason, now))
    }
}

pub fn on_terminate_record(a: &Agreement, reason: Reason, sender: NodeId, now: u64) -> (r: Result<
    Agreement,
    RemoteError,
>)
    requires
        a.wf(),
    ensures
        r == on_terminate_step(*a, reason, sender, now),
        r matches Ok(b) ==> b.wf(),
{
    if sender != a.counterpart() {
        Err(RemoteError::Unauthorized)
    } else if a.state == AgreementState::Terminated {
        Ok(a.duplicate())
    } else if a.state == AgreementState::Approved {
        Ok(terminated_record(a, reason, now))
    } else {
        Err(RemoteError::InvalidState(state_error(a.state)))
    }
}

pub fn expire_record(a: &Agreement, now: u64) -> (r: Option<Agreement>)
    requires
        a.wf(),
    ensures
        r == expire_step(*a, now),
        r matches Some(b) ==> b.wf(),
{
    let open = a.state == AgreementState::Proposal || a.state == AgreementState::Pending
        || a.state == AgreementState::Approving;
    if open && now >= a.valid_to {
        let mut b = a.duplicate();
        b.state = AgreementState::Expired;
        Some(b)
    } else {
        None
    }
}

pub fn wait_record(a: &Agreement, now: u64, timed_out: bool) -> (r: Result<
    Option<ApprovalStatus>,
    AgreementError,
>)
    ensures
        r == wait_step(*a, now, timed_out),
{
    let id = a.agreement_id;
    match a.state {
        AgreementState::Proposal => Err(AgreementError::NotConfirmed(id)),
        AgreementState::Expired => Err(AgreementError::Expired(id)),
        AgreementState::Approved => Ok(Some(ApprovalStatus::Approved)),
        AgreementState::Cancelled => Ok(Some(ApprovalStatus::Cancelled)),
        AgreementState::Rejected => Ok(Some(ApprovalStatus::Rejected)),
        AgreementState::Terminated => Ok(Some(ApprovalStatus::Terminated)),
        _ => if now >= a.valid_to {
            Err(AgreementError::Expired(id))
        } else if timed_out {
            Ok(Some(ApprovalStatus::TimedOut))
        } else {
            Ok(None)
        },
    }
}

} // verus!

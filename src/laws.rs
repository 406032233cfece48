use vstd::prelude::*;

use crate::ids::{AgreementId, Owner};
use crate::market::{
    apply, create_allowed, created, has_successor, promoted, propose_outcome, Market,
};
use crate::model::{
    Agreement, AgreementError, RemoteError, AgreementState, ApprovalStatus, Proposal, StateError,
};
use crate::transitions::{
    approve_reply_step, approve_step, confirm_reply_step, confirm_step, expire_step, on_approve_step, on_terminate_step, on_withdraw_step,
    terminate_step, wait_step, withdraw_step,
};
use crate::reason::Reason;
use crate::NodeId;

verus! {

/// An approved agreement has an approval time, and it is no later than the
/// agreement's deadline.
pub proof fn lemma_approved_has_timestamp(m: Market, id: AgreementId)
    requires
        m.wf(),
        m.agreement_map().contains_key(id),
        m.agreement_map()[id].state == AgreementState::Approved,
    ensures
        m.agreement_map()[id].approved_ts is Some,
        m.agreement_map()[id].approved_ts.unwrap() <= m.agreement_map()[id].valid_to,
{
}

/// A terminated agreement carries its termination time and a reason that is
/// a JSON object with a string member `message`, and the approval time of
/// the approval that came before.
pub proof fn lemma_terminated_record(m: Market, id: AgreementId)
    requires
        m.wf(),
        m.agreement_map().contains_key(id),
        m.agreement_map()[id].state == AgreementState::Terminated,
    ensures
        m.agreement_map()[id].termination_reason is Some,
        m.agreement_map()[id].termination_reason.unwrap().wf(),
        crate::reason::is_reason(
            vstd::utf8::encode_utf8(m.agreement_map()[id].termination_reason.unwrap().json_text()),
        ),
        m.agreement_map()[id].terminated_ts is Some,
        m.agreement_map()[id].approved_ts is Some,
{
}

/// Only an approved agreement becomes terminated, whether the termination
/// starts on this side or comes from the peer.
pub proof fn lemma_terminated_only_from_approved(
    a: Agreement,
    reason: Reason,
    sender: NodeId,
    now: u64,
)
    ensures
        terminate_step(a, reason, now) is Ok ==> a.state == AgreementState::Approved,
        on_terminate_step(a, reason, sender, now) matches Ok(b) ==> b == a || a.state
            == AgreementState::Approved,
{
}

/// The proposal behind a requestor's agreement is accepted and has no
/// counter-proposal.
pub proof fn lemma_promoted_proposal(m: Market, id: AgreementId)
    requires
        m.wf(),
        m.agreement_map().contains_key(id),
        id.owner == Owner::Requestor,
    ensures
        m.proposal_map().contains_key(m.agreement_map()[id].proposal_id),
        m.proposal_map()[m.agreement_map()[id].proposal_id].state
            == crate::model::ProposalState::Accepted,
        !has_successor(m.proposal_map(), m.agreement_map()[id].proposal_id),
{
    assert(promoted(m.proposal_map(), m.agreement_map()[id].proposal_id));
}

/// Once each side has handled the other's terminal message, both sides
/// hold the same terminal state: a termination of an approved agreement, a
/// requestor's cancel and a provider's reject each reach the peer.
pub proof fn lemma_peers_agree_on_outcome(
    local: Agreement,
    peer: Agreement,
    reason: Reason,
    sender: NodeId,
    now: u64,
    peer_now: u64,
)
    requires
        sender == peer.spec_counterpart(),
    ensures
        local.state == AgreementState::Approved && (peer.state == AgreementState::Approved
            || peer.state == AgreementState::Terminated) ==> {
            &&& terminate_step(local, reason, now) matches Ok(l)
            &&& on_terminate_step(peer, reason, sender, peer_now) matches Ok(p)
            &&& l.state == AgreementState::Terminated
            &&& p.state == AgreementState::Terminated
        },
        local.state == AgreementState::Pending && (peer.state == AgreementState::Pending
            || peer.state == AgreementState::Approving) ==> {
            &&& withdraw_step(local, AgreementState::Cancelled) matches Ok(l)
            &&& on_withdraw_step(peer, sender, AgreementState::Cancelled) matches Ok(p)
            &&& l.state == AgreementState::Cancelled
            &&& p.state == AgreementState::Cancelled
        },
        local.state == AgreementState::Pending && peer.state == AgreementState::Pending ==> {
            &&& withdraw_step(local, AgreementState::Rejected) matches Ok(l)
            &&& on_withdraw_step(peer, sender, AgreementState::Rejected) matches Ok(p)
            &&& l.state == AgreementState::Rejected
            &&& p.state == AgreementState::Rejected
        },
{
}

/// Waiting on an approved agreement reports `Approved`, at any time and
/// however often it is asked.
pub proof fn lemma_wait_after_approval(
    a: Agreement,
    now1: u64,
    timed_out1: bool,
    now2: u64,
    timed_out2: bool,
)
    requires
        a.state == AgreementState::Approved,
    ensures
        wait_step(a, now1, timed_out1) == wait_step(a, now2, timed_out2),
        wait_step(a, now1, timed_out1) == Ok::<Option<ApprovalStatus>, AgreementError>(
            Some(ApprovalStatus::Approved),
        ),
{
}

/// A repeated `Propose` changes nothing: the store after two deliveries is
/// the store after one.
pub proof fn lemma_propose_idempotent(
    agrs: Map<AgreementId, Agreement>,
    cancelled: Set<u128>,
    agreement: Agreement,
    session: Option<String>,
    sender: NodeId,
)
    ensures
        ({
            let once = propose_outcome(agrs, cancelled, agreement, session, sender);
            let twice = propose_outcome(once.0, cancelled, agreement, session, sender);
            twice.0 == once.0 && twice.1 == once.1
        }),
{
}

/// A repeated `Approve`, delivered no earlier than the first, changes
/// nothing: the second delivery is refused and leaves the store as the first
/// left it.
pub proof fn lemma_approve_idempotent(
    agrs: Map<AgreementId, Agreement>,
    id: AgreementId,
    sender: NodeId,
    now1: u64,
    now2: u64,
)
    requires
        agrs.contains_key(id),
        now1 <= now2,
    ensures
        ({
            let once = apply(agrs, id, on_approve_step(agrs[id], sender, now1));
            let twice = apply(once, id, on_approve_step(once[id], sender, now2));
            &&& on_approve_step(once[id], sender, now2) is Err
            &&& twice == once
        }),
{
    let once = apply(agrs, id, on_approve_step(agrs[id], sender, now1));
    if on_approve_step(agrs[id], sender, now1) is Ok {
        assert(once[id].state == AgreementState::Approved);
    } else {
        assert(once == agrs);
    }
}

/// A promotable proposal can be made into an agreement whose deadline is
/// the time of its creation, and confirming that agreement at that time or
/// later fails with `InvalidState(Expired)`.
pub proof fn lemma_create_at_deadline(
    agrs: Map<AgreementId, Agreement>,
    props: Map<u128, Proposal>,
    pid: u128,
    now: u64,
    logical: u128,
    requestor: NodeId,
    session: Option<String>,
    later: u64,
)
    requires
        props.contains_key(pid),
        props[pid].prev_id is Some,
        props[pid].issuer == Owner::Provider,
        !has_successor(props, pid),
        forall|a: AgreementId| !crate::market::references(agrs, a, pid),
        !agrs.contains_key(AgreementId { logical, owner: Owner::Requestor }),
        later >= now,
    ensures
        create_allowed(agrs, props, pid, now, now, logical),
        confirm_step(created(logical, props[pid], requestor, now, now), session, later) == Err::<
            Agreement,
            AgreementError,
        >(AgreementError::InvalidState(StateError::Expired)),
{
}

/// The expiration timer changes an agreement at most once: after it has
/// fired, a later firing finds nothing to do.
pub proof fn lemma_expires_once(a: Agreement, now: u64, later: u64)
    ensures
        expire_step(a, now) matches Some(b) ==> expire_step(b, later) is None,
{
}

/// A confirm whose `Propose` could not be delivered leaves the record
/// exactly as it was before the confirm, so it can be confirmed again.
pub proof fn lemma_confirm_rollback(a: Agreement, session: Option<String>, now: u64, e: RemoteError)
    requires
        a.wf(),
        a.state == AgreementState::Proposal,
    ensures
        confirm_step(a, session, now) matches Ok(b) ==> confirm_reply_step(b, Err(e)) == (
            a,
            Err::<(), AgreementError>(AgreementError::ProtocolCreate(e)),
        ),
{
}

/// An approval whose `Approve` was refused or not delivered leaves the
/// provider's record exactly as it was before the approval.
pub proof fn lemma_approve_rollback(a: Agreement, now: u64, e: RemoteError)
    requires
        a.wf(),
        a.state == AgreementState::Pending,
    ensures
        approve_step(a, now) matches Ok(b) ==> approve_reply_step(b, Err(e)).0 == a,
{
}

} // verus!

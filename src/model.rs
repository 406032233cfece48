use vstd::prelude::*;

use crate::ids::{AgreementId, Owner};
use crate::reason::Reason;
use crate::NodeId;

verus! {

/// Lifecycle state of an agreement.
#[derive(Clone, Copy, Debug, PartialEq, Eq, Structural)]
pub enum AgreementState {
    /// Created by the requestor, not yet confirmed.
    Proposal,
    /// Confirmed by the requestor and sent to the provider.
    Pending,
    Cancelled,
    Rejected,
    /// Approved by the provider, awaiting the requestor's acknowledgement.
    Approving,
    Approved,
    Expired,
    Terminated,
}

/// The state named by an `InvalidState` error.
#[derive(Clone, Copy, Debug, PartialEq, Eq, Structural)]
pub enum StateError {
    Proposal,
    Confirmed,
    Approved,
    Cancelled,
    Rejected,
    Expired,
    Terminated,
}

pub open spec fn spec_state_error(s: AgreementState) -> StateError {
    match s {
        AgreementState::Proposal => StateError::Proposal,
        AgreementState::Pending => StateError::Confirmed,
        AgreementState::Cancelled => StateError::Cancelled,
        AgreementState::Rejected => StateError::Rejected,
        AgreementState::Approving => StateError::Approved,
        AgreementState::Approved => StateError::Approved,
        AgreementState::Expired => StateError::Expired,
        AgreementState::Terminated => StateError::Terminated,
    }
}

/// How a state is reported when an operation does not accept it.
pub fn state_error(s: AgreementState) -> (r: StateError)
    ensures
        r == spec_state_error(s),
{
    match s {
        AgreementState::Proposal => StateError::Proposal,
        AgreementState::Pending => StateError::Confirmed,
        AgreementState::Cancelled => StateError::Cancelled,
        AgreementState::Rejected => StateError::Rejected,
        AgreementState::Approving => StateError::Approved,
        AgreementState::Approved => StateError::Approved,
        AgreementState::Expired => StateError::Expired,
        AgreementState::Terminated => StateError::Terminated,
    }
}

pub open spec fn is_terminal(s: AgreementState) -> bool {
    s == AgreementState::Cancelled || s == AgreementState::Rejected || s == AgreementState::Expired
        || s == AgreementState::Terminated
}

/// States that the expiration timer may still end.
pub open spec fn is_expirable(s: AgreementState) -> bool {
    s == AgreementState::Proposal || s == AgreementState::Pending || s == AgreementState::Approving
}

/// Negotiation state of a proposal.
#[derive(Clone, Copy, Debug, PartialEq, Eq, Structural)]
pub enum ProposalState {
    Initial,
    Draft,
    Accepted,
    Rejected,
    Expired,
}

/// One step of a negotiation, linked to the step it counters.
pub struct Proposal {
    pub id: u128,
    pub prev_id: Option<u128>,
    pub issuer: Owner,
    pub issuer_node: NodeId,
    pub state: ProposalState,
    pub body: String,
    pub ts: u64,
}

/// One side's record of an agreement.
pub struct Agreement {
    pub agreement_id: AgreementId,
    pub proposal_id: u128,
    pub requestor_id: NodeId,
    pub provider_id: NodeId,
    pub creation_ts: u64,
    pub valid_to: u64,
    pub state: AgreementState,
    pub approved_ts: Option<u64>,
    pub terminated_ts: Option<u64>,
    pub termination_reason: Option<Reason>,
    pub session_id: Option<String>,
}

fn copy_string(s: &Option<String>) -> (r: Option<String>)
    ensures
        r == *s,
{
    match s {
        Some(v) => Some(v.clone()),
        None => None,
    }
}

impl Proposal {
    pub fn duplicate(&self) -> (r: Proposal)
        ensures
            r == *self,
    {
        Proposal {
            id: self.id,
            prev_id: self.prev_id,
            issuer: self.issuer,
            issuer_node: self.issuer_node,
            state: self.state,
            body: self.body.clone(),
            ts: self.ts,
        }
    }
}

impl Agreement {
    pub fn duplicate(&self) -> (r: Agreement)
        ensures
            r == *self,
    {
        let reason = match &self.termination_reason {
            Some(t) => Some(t.duplicate()),
            None => None,
        };
        Agreement {
            agreement_id: self.agreement_id,
            proposal_id: self.proposal_id,
            requestor_id: self.requestor_id,
            provider_id: self.provider_id,
            creation_ts: self.creation_ts,
            valid_to: self.valid_to,
            state: self.state,
            approved_ts: self.approved_ts,
            terminated_ts: self.terminated_ts,
            termination_reason: reason,
            session_id: copy_string(&self.session_id),
        }
    }

    /// The identity of the peer of the side that holds this record.
    pub open spec fn spec_counterpart(&self) -> NodeId {
        match self.agreement_id.owner {
            Owner::Requestor => self.provider_id,
            Owner::Provider => self.requestor_id,
        }
    }

    pub fn counterpart(&self) -> (r: NodeId)
        ensures
            r == self.spec_counterpart(),
    {
        match self.agreement_id.owner {
            Owner::Requestor => self.provider_id,
            Owner::Provider => self.requestor_id,
        }
    }

    /// Facts that hold of every stored record.
    pub open spec fn wf(&self) -> bool {
        &&& self.state == AgreementState::Proposal ==> self.session_id is None
            && self.approved_ts is None
        &&& self.state == AgreementState::Pending ==> self.approved_ts is None
        &&& (self.state == AgreementState::Approving || self.state == AgreementState::Approved)
            ==> self.approved_ts.is_some() && self.approved_ts.unwrap() <= self.valid_to
        &&& self.state == AgreementState::Terminated ==> self.approved_ts.is_some()
            && self.approved_ts.unwrap() <= self.valid_to && self.termination_reason.is_some()
            && self.termination_reason.unwrap().wf() && self.terminated_ts.is_some()
    }
}

/// Errors of the agreement operations.
#[derive(Clone, Copy, Debug, PartialEq, Eq, Structural)]
pub enum AgreementError {
    NotFound(AgreementId),
    AlreadyExists(AgreementId, u128),
    ProposalNotFound(u128),
    OwnProposal(u128),
    NoNegotiations(u128),
    ProposalCountered(u128),
    InvalidState(StateError),
    Expired(AgreementId),
    NotConfirmed(AgreementId),
    ProtocolCreate(RemoteError),
    ProtocolApprove(RemoteError),
    BadReason,
}

/// Error reply of a peer to a protocol message, or the transport's failure
/// to deliver it.
#[derive(Clone, Copy, Debug, PartialEq, Eq, Structural)]
pub enum RemoteError {
    NotFound,
    InvalidState(StateError),
    Unauthorized,
    Unreachable,
}

/// Outcome of waiting for the provider's approval.
#[derive(Clone, Copy, Debug, PartialEq, Eq, Structural)]
pub enum ApprovalStatus {
    Approved,
    Cancelled,
    Rejected,
    Terminated,
    TimedOut,
}

} // verus!

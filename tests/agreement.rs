use ya_market::{
    AgreementError, AgreementId, AgreementState, ApprovalStatus, Market, NodeId, Owner, Proposal,
    ProposalState, Reason, RemoteError, StateError,
};

const REQ: NodeId = NodeId { addr: 1 };
const PROV: NodeId = NodeId { addr: 2 };
const NOW: u64 = 1_000_000;
const HOUR: u64 = 3_600_000;

fn proposal(id: u128, prev_id: Option<u128>, issuer: Owner, state: ProposalState) -> Proposal {
    let issuer_node = match issuer {
        Owner::Requestor => REQ,
        Owner::Provider => PROV,
    };
    Proposal { id, prev_id, issuer, issuer_node, state, body: String::from("terms"), ts: 0 }
}

/// An offer (1), the requestor's counter (2) and the provider's draft (3).
fn exchange_draft_proposals() -> (Market, Market, u128) {
    let mut req = Market::new(REQ);
    let prov = Market::new(PROV);
    req.add_proposal(proposal(1, None, Owner::Provider, ProposalState::Initial)).unwrap();
    req.add_proposal(proposal(2, Some(1), Owner::Requestor, ProposalState::Draft)).unwrap();
    req.add_proposal(proposal(3, Some(2), Owner::Provider, ProposalState::Draft)).unwrap();
    (req, prov, 3)
}

fn confirm(req: &mut Market, prov: &mut Market, id: AgreementId, now: u64) -> Result<(), AgreementError> {
    let sent = req.confirm_agreement(id, None, now)?;
    let reply = prov.on_propose(&sent, None, req.node());
    req.confirm_delivered(id, reply)
}

fn approve(prov: &mut Market, req: &mut Market, id: AgreementId, now: u64) -> Result<(), AgreementError> {
    let pid = id.as_provider();
    prov.approve_agreement(pid, now)?;
    let reply = req.on_approve(id.as_requestor(), prov.node(), now);
    prov.approve_delivered(pid, reply)
}

fn reason(text: &str) -> Reason {
    Reason::from_json(text).unwrap()
}

fn approved_agreement() -> (Market, Market, AgreementId) {
    let (mut req, mut prov, pid) = exchange_draft_proposals();
    let id = req.create_agreement(pid, NOW + HOUR, NOW).unwrap();
    confirm(&mut req, &mut prov, id, NOW).unwrap();
    approve(&mut prov, &mut req, id, NOW + 1).unwrap();
    (req, prov, id)
}

fn state_of(m: &Market, id: AgreementId) -> AgreementState {
    m.get_agreement(&id).unwrap().state
}

#[test]
fn full_market_interaction_aka_happy_path() {
    let (mut req, mut prov, pid) = exchange_draft_proposals();
    let id = req.create_agreement(pid, NOW + HOUR, NOW).unwrap();
    assert_eq!(req.get_proposal(pid).unwrap().state, ProposalState::Accepted);
    confirm(&mut req, &mut prov, id, NOW).unwrap();
    assert_eq!(req.wait_for_approval(id, NOW, false), Ok(None));
    approve(&mut prov, &mut req, id, NOW + 10).unwrap();
    assert_eq!(req.wait_for_approval(id, NOW + 20, false), Ok(Some(ApprovalStatus::Approved)));
    assert_eq!(state_of(&prov, id.as_provider()), AgreementState::Approved);
}

#[test]
fn second_creation_should_fail() {
    let (mut req, _prov, pid) = exchange_draft_proposals();
    let id = req.create_agreement(pid, NOW, NOW).unwrap();
    let result = req.create_agreement(pid, NOW, NOW);
    assert_eq!(result, Err(AgreementError::AlreadyExists(id, pid)));
}

#[test]
fn second_confirmation_should_fail() {
    let (mut req, mut prov, pid) = exchange_draft_proposals();
    let id = req.create_agreement(pid, NOW + HOUR, NOW).unwrap();
    confirm(&mut req, &mut prov, id, NOW).unwrap();
    let result = confirm(&mut req, &mut prov, id, NOW);
    assert_eq!(result, Err(AgreementError::InvalidState(StateError::Confirmed)));
}

#[test]
fn agreement_expired_before_confirmation() {
    let (mut req, mut prov, pid) = exchange_draft_proposals();
    let id = req.create_agreement(pid, NOW, NOW).unwrap();
    let result = confirm(&mut req, &mut prov, id, NOW + 50);
    assert_eq!(result, Err(AgreementError::InvalidState(StateError::Expired)));
}

#[test]
fn agreement_expired_before_approval() {
    let (mut req, mut prov, pid) = exchange_draft_proposals();
    let id = req.create_agreement(pid, NOW + 30, NOW).unwrap();
    confirm(&mut req, &mut prov, id, NOW).unwrap();
    let result = req.wait_for_approval(id, NOW + 50, false);
    assert_eq!(result, Err(AgreementError::Expired(id)));
}

#[test]
fn waiting_wo_confirmation_should_fail() {
    let (mut req, _prov, pid) = exchange_draft_proposals();
    let id = req.create_agreement(pid, NOW + HOUR, NOW).unwrap();
    let result = req.wait_for_approval(id, NOW, true);
    assert_eq!(result, Err(AgreementError::NotConfirmed(id)));
}

#[test]
fn approval_before_confirmation_should_fail() {
    let (mut req, mut prov, pid) = exchange_draft_proposals();
    let id = req.create_agreement(pid, NOW + HOUR, NOW).unwrap();
    let result = prov.approve_agreement(id.as_provider(), NOW);
    assert_eq!(result, Err(AgreementError::NotFound(id.as_provider())));
}

#[test]
fn approval_without_waiting_should_pass() {
    let (mut req, mut prov, pid) = exchange_draft_proposals();
    let id = req.create_agreement(pid, NOW + HOUR, NOW).unwrap();
    confirm(&mut req, &mut prov, id, NOW).unwrap();
    approve(&mut prov, &mut req, id, NOW).unwrap();
}

#[test]
fn waiting_after_approval_should_pass() {
    let (req, _prov, id) = approved_agreement();
    assert_eq!(req.wait_for_approval(id, NOW + 5, false), Ok(Some(ApprovalStatus::Approved)));
}

#[test]
fn second_approval_should_fail() {
    let (mut req, mut prov, id) = approved_agreement();
    let result = approve(&mut prov, &mut req, id, NOW + 2);
    assert_eq!(result, Err(AgreementError::InvalidState(StateError::Approved)));
}

#[test]
fn second_waiting_should_pass() {
    let (req, _prov, id) = approved_agreement();
    assert_eq!(req.wait_for_approval(id, NOW + 5, false), Ok(Some(ApprovalStatus::Approved)));
    assert_eq!(req.wait_for_approval(id, NOW + 6, true), Ok(Some(ApprovalStatus::Approved)));
}

#[test]
fn net_err_while_confirming() {
    let (mut req, mut prov, pid) = exchange_draft_proposals();
    let id = req.create_agreement(pid, NOW + HOUR, NOW).unwrap();
    req.confirm_agreement(id, None, NOW).unwrap();
    let result = req.confirm_delivered(id, Err(RemoteError::Unreachable));
    assert_eq!(result, Err(AgreementError::ProtocolCreate(RemoteError::Unreachable)));
    assert_eq!(state_of(&req, id), AgreementState::Proposal);
    confirm(&mut req, &mut prov, id, NOW + 1).unwrap();
    assert_eq!(state_of(&req, id), AgreementState::Pending);
}

#[test]
fn net_err_while_approving() {
    let (mut req, mut prov, pid) = exchange_draft_proposals();
    let id = req.create_agreement(pid, NOW + HOUR, NOW).unwrap();
    confirm(&mut req, &mut prov, id, NOW).unwrap();
    let pid = id.as_provider();
    prov.approve_agreement(pid, NOW).unwrap();
    assert_eq!(state_of(&prov, pid), AgreementState::Approving);
    let result = prov.approve_delivered(pid, Err(RemoteError::Unreachable));
    assert_eq!(result, Err(AgreementError::ProtocolApprove(RemoteError::Unreachable)));
    assert_eq!(state_of(&prov, pid), AgreementState::Pending);
    assert_eq!(prov.get_agreement(&pid).unwrap().approved_ts, None);
}

#[test]
fn cant_promote_requestor_proposal() {
    let (mut req, _prov, pid) = exchange_draft_proposals();
    req.add_proposal(proposal(4, Some(pid), Owner::Requestor, ProposalState::Draft)).unwrap();
    let result = req.create_agreement(4, NOW + HOUR, NOW);
    assert_eq!(result, Err(AgreementError::OwnProposal(4)));
}

#[test]
fn cant_promote_initial_proposal() {
    let (mut req, _prov, _pid) = exchange_draft_proposals();
    let result = req.create_agreement(1, NOW + HOUR, NOW);
    assert_eq!(result, Err(AgreementError::NoNegotiations(1)));
}

#[test]
fn cant_promote_not_last_proposal() {
    let (mut req, _prov, pid) = exchange_draft_proposals();
    req.add_proposal(proposal(4, Some(pid), Owner::Requestor, ProposalState::Draft)).unwrap();
    let result = req.create_agreement(pid, NOW + HOUR, NOW);
    assert_eq!(result, Err(AgreementError::ProposalCountered(pid)));
}

#[test]
fn test_terminate() {
    let (mut req, mut prov, id) = approved_agreement();
    let r = reason("{\"ala\":\"ma kota\",\"message\": \"coś\"}");
    req.terminate_agreement(id, r.duplicate(), NOW + 100).unwrap();
    let stored = req.get_agreement(&id).unwrap();
    assert_eq!(stored.state, AgreementState::Terminated);
    assert_eq!(stored.terminated_ts, Some(NOW + 100));
    assert_eq!(stored.termination_reason.unwrap().message(), "coś");
    prov.on_terminate(id.as_provider(), r, REQ, NOW + 101).unwrap();
    assert_eq!(state_of(&prov, id.as_provider()), AgreementState::Terminated);
}

#[test]
fn test_terminate_not_existing_agreement() {
    let (mut req, _prov, _id) = approved_agreement();
    let missing = AgreementId { logical: 0, owner: Owner::Requestor };
    let result = req.terminate_agreement(missing, reason("{\"message\":\"Success\"}"), NOW);
    assert_eq!(result, Err(AgreementError::NotFound(missing)));
}

#[test]
fn test_terminate_from_wrong_states() {
    let (mut req, mut prov, pid) = exchange_draft_proposals();
    let id = req.create_agreement(pid, NOW + HOUR, NOW).unwrap();
    let result = req.terminate_agreement(id, reason("{\"message\":\"Failure\"}"), NOW);
    assert_eq!(result, Err(AgreementError::InvalidState(StateError::Proposal)));
    confirm(&mut req, &mut prov, id, NOW).unwrap();
    let result = req.terminate_agreement(id, reason("{\"message\":\"Failure\"}"), NOW);
    assert_eq!(result, Err(AgreementError::InvalidState(StateError::Confirmed)));
    let result = prov.terminate_agreement(id.as_provider(), reason("{\"message\":\"Failure\"}"), NOW);
    assert_eq!(result, Err(AgreementError::InvalidState(StateError::Confirmed)));
}

#[test]
fn test_terminate_invalid_reason() {
    let result = Reason::from_json("Unstructured message. Should be json.");
    assert_eq!(result.err(), Some(AgreementError::BadReason));
    let result = Reason::from_json("{'no_message_field': 'Reason expects message field'}");
    assert_eq!(result.err(), Some(AgreementError::BadReason));
}

#[test]
fn test_get_agreement() {
    let (mut req, _prov, pid) = exchange_draft_proposals();
    let id = req.create_agreement(pid, NOW + HOUR, NOW).unwrap();
    let a = req.get_agreement(&id).unwrap();
    assert_eq!(a.agreement_id, id);
    assert_eq!(a.proposal_id, pid);
    assert_eq!(a.requestor_id, REQ);
    assert_eq!(a.provider_id, PROV);
    assert_eq!(a.creation_ts, NOW);
    assert_eq!(a.valid_to, NOW + HOUR);
    assert_eq!(a.state, AgreementState::Proposal);
}

#[test]
fn test_gsb_get_agreement() {
    let (mut req, mut prov, pid) = exchange_draft_proposals();
    let id = req.create_agreement(pid, NOW + HOUR, NOW).unwrap();
    confirm(&mut req, &mut prov, id, NOW).unwrap();
    let a = prov.get_agreement(&id.as_provider()).unwrap();
    assert_eq!(a.agreement_id, id.as_provider());
    assert_eq!(a.agreement_id.logical, id.logical);
    assert_eq!(a.state, AgreementState::Pending);
    assert_eq!(a.valid_to, NOW + HOUR);
}

#[test]
fn test_rest_get_not_existing_agreement() {
    let (mut req, prov, pid) = exchange_draft_proposals();
    let id = req.create_agreement(pid, NOW + HOUR, NOW).unwrap();
    let missing = id.as_provider();
    assert_eq!(prov.get_agreement(&missing).err(), Some(AgreementError::NotFound(missing)));
}

use ya_market::{
    AgreementError, AgreementId, AgreementState, ApprovalStatus, Market, NodeId, Owner, Proposal,
    ProposalError, ProposalState, Reason, RemoteError, StateError,
};

const REQ: NodeId = NodeId { addr: 10 };
const PROV: NodeId = NodeId { addr: 20 };
const NOW: u64 = 5_000;

fn draft(id: u128, prev_id: Option<u128>, issuer: Owner) -> Proposal {
    let issuer_node = if issuer == Owner::Requestor { REQ } else { PROV };
    Proposal {
        id,
        prev_id,
        issuer,
        issuer_node,
        state: if prev_id.is_none() { ProposalState::Initial } else { ProposalState::Draft },
        body: String::new(),
        ts: 0,
    }
}

fn pending_pair(valid_to: u64) -> (Market, Market, AgreementId) {
    let mut req = Market::new(REQ);
    let mut prov = Market::new(PROV);
    req.add_proposal(draft(1, None, Owner::Provider)).unwrap();
    req.add_proposal(draft(2, Some(1), Owner::Provider)).unwrap();
    let id = req.create_agreement(2, valid_to, NOW).unwrap();
    let sent = req.confirm_agreement(id, Some(String::from("r-session")), NOW).unwrap();
    let reply = prov.on_propose(&sent, Some(String::from("p-session")), REQ);
    req.confirm_delivered(id, reply).unwrap();
    (req, prov, id)
}

#[test]
fn approved_agreement_has_timestamp_within_deadline() {
    let (mut req, mut prov, id) = pending_pair(NOW + 100);
    prov.approve_agreement(id.as_provider(), NOW + 40).unwrap();
    req.on_approve(id, PROV, NOW + 50).unwrap();
    prov.approve_delivered(id.as_provider(), Ok(())).unwrap();
    let r = req.get_agreement(&id).unwrap();
    assert_eq!(r.approved_ts, Some(NOW + 50));
    let p = prov.get_agreement(&id.as_provider()).unwrap();
    assert_eq!(p.approved_ts, Some(NOW + 40));
    assert!(p.approved_ts.unwrap() <= p.valid_to);
}

#[test]
fn late_approve_is_refused_and_rolled_back() {
    let (mut req, mut prov, id) = pending_pair(NOW + 100);
    prov.approve_agreement(id.as_provider(), NOW + 90).unwrap();
    let reply = req.on_approve(id, PROV, NOW + 100);
    assert_eq!(reply, Err(RemoteError::InvalidState(StateError::Expired)));
    let result = prov.approve_delivered(id.as_provider(), reply);
    assert_eq!(result, Err(AgreementError::InvalidState(StateError::Expired)));
    assert_eq!(prov.get_agreement(&id.as_provider()).unwrap().state, AgreementState::Pending);
    assert!(prov.expire_agreement(id.as_provider(), NOW + 100));
}

#[test]
fn promoted_proposal_cannot_be_countered() {
    let (mut req, _prov, _id) = pending_pair(NOW + 100);
    assert_eq!(req.get_proposal(2).unwrap().state, ProposalState::Accepted);
    assert_eq!(req.add_proposal(draft(3, Some(2), Owner::Requestor)), Err(ProposalError {}));
    assert_eq!(req.add_proposal(draft(2, Some(1), Owner::Provider)), Err(ProposalError {}));
    let mut accepted = draft(4, Some(1), Owner::Provider);
    accepted.state = ProposalState::Accepted;
    assert_eq!(req.add_proposal(accepted), Err(ProposalError {}));
    assert!(req.get_proposal(3).is_none());
}

#[test]
fn cancel_reaches_provider() {
    let (mut req, mut prov, id) = pending_pair(NOW + 100);
    req.cancel_agreement(id).unwrap();
    prov.on_cancel(id.as_provider(), REQ).unwrap();
    assert_eq!(req.get_agreement(&id).unwrap().state, AgreementState::Cancelled);
    assert_eq!(prov.get_agreement(&id.as_provider()).unwrap().state, AgreementState::Cancelled);
    assert_eq!(req.wait_for_approval(id, NOW + 1, false), Ok(Some(ApprovalStatus::Cancelled)));
}

#[test]
fn reject_reaches_requestor() {
    let (mut req, mut prov, id) = pending_pair(NOW + 100);
    prov.reject_agreement(id.as_provider()).unwrap();
    req.on_reject(id, PROV).unwrap();
    assert_eq!(req.get_agreement(&id).unwrap().state, AgreementState::Rejected);
    assert_eq!(req.on_reject(id, PROV), Ok(()));
    assert_eq!(req.wait_for_approval(id, NOW + 1, false), Ok(Some(ApprovalStatus::Rejected)));
}

#[test]
fn cancel_overrides_approving_provider() {
    let (mut req, mut prov, id) = pending_pair(NOW + 100);
    prov.approve_agreement(id.as_provider(), NOW + 1).unwrap();
    req.cancel_agreement(id).unwrap();
    prov.on_cancel(id.as_provider(), REQ).unwrap();
    let reply = req.on_approve(id, PROV, NOW + 2);
    assert_eq!(reply, Err(RemoteError::InvalidState(StateError::Cancelled)));
    let result = prov.approve_delivered(id.as_provider(), reply);
    assert_eq!(result, Err(AgreementError::InvalidState(StateError::Cancelled)));
    assert_eq!(prov.get_agreement(&id.as_provider()).unwrap().state, AgreementState::Cancelled);
}

#[test]
fn peer_message_from_stranger_is_refused() {
    let (mut req, mut prov, id) = pending_pair(NOW + 100);
    let stranger = NodeId { addr: 99 };
    assert_eq!(prov.on_cancel(id.as_provider(), stranger), Err(RemoteError::Unauthorized));
    assert_eq!(req.on_approve(id, stranger, NOW), Err(RemoteError::Unauthorized));
    assert_eq!(req.get_agreement(&id).unwrap().state, AgreementState::Pending);
}

#[test]
fn repeated_propose_changes_nothing() {
    let (mut req, mut prov, id) = pending_pair(NOW + 100);
    let sent = req.get_agreement(&id).unwrap();
    prov.approve_agreement(id.as_provider(), NOW).unwrap();
    assert_eq!(prov.on_propose(&sent, None, REQ), Ok(()));
    assert_eq!(prov.get_agreement(&id.as_provider()).unwrap().state, AgreementState::Approving);
    assert_eq!(prov.on_propose(&sent, None, PROV), Err(RemoteError::Unauthorized));
}

#[test]
fn repeated_approve_changes_nothing() {
    let (mut req, _prov, id) = pending_pair(NOW + 100);
    assert_eq!(req.on_approve(id, PROV, NOW + 1), Ok(()));
    let reply = req.on_approve(id, PROV, NOW + 2);
    assert_eq!(reply, Err(RemoteError::InvalidState(StateError::Approved)));
    assert_eq!(req.get_agreement(&id).unwrap().approved_ts, Some(NOW + 1));
}

#[test]
fn creation_at_deadline_then_confirm_fails() {
    let mut req = Market::new(REQ);
    req.add_proposal(draft(1, None, Owner::Provider)).unwrap();
    req.add_proposal(draft(2, Some(1), Owner::Provider)).unwrap();
    assert_eq!(
        req.create_agreement(2, NOW - 1, NOW),
        Err(AgreementError::InvalidState(StateError::Expired))
    );
    let id = req.create_agreement(2, NOW, NOW).unwrap();
    assert_eq!(
        req.confirm_agreement(id, None, NOW).err(),
        Some(AgreementError::InvalidState(StateError::Expired))
    );
}

#[test]
fn expiration_fires_once() {
    let (mut req, _prov, id) = pending_pair(NOW + 100);
    assert!(!req.expire_agreement(id, NOW + 99));
    assert!(req.expire_agreement(id, NOW + 100));
    assert_eq!(req.get_agreement(&id).unwrap().state, AgreementState::Expired);
    assert!(!req.expire_agreement(id, NOW + 200));
    assert_eq!(req.wait_for_approval(id, NOW + 1, false), Err(AgreementError::Expired(id)));
}

#[test]
fn approved_agreement_does_not_expire() {
    let (mut req, _prov, id) = pending_pair(NOW + 100);
    req.on_approve(id, PROV, NOW + 1).unwrap();
    assert!(!req.expire_agreement(id, NOW + 1000));
    assert_eq!(req.get_agreement(&id).unwrap().state, AgreementState::Approved);
}

#[test]
fn wait_times_out_while_pending() {
    let (req, _prov, id) = pending_pair(NOW + 100);
    assert_eq!(req.wait_for_approval(id, NOW + 1, false), Ok(None));
    assert_eq!(req.wait_for_approval(id, NOW + 1, true), Ok(Some(ApprovalStatus::TimedOut)));
    let other = AgreementId { logical: id.logical, owner: Owner::Provider };
    assert_eq!(req.wait_for_approval(other, NOW, false), Err(AgreementError::NotFound(other)));
}

#[test]
fn terminate_by_provider_reaches_requestor() {
    let (mut req, mut prov, id) = pending_pair(NOW + 100);
    prov.approve_agreement(id.as_provider(), NOW + 1).unwrap();
    req.on_approve(id, PROV, NOW + 1).unwrap();
    prov.approve_delivered(id.as_provider(), Ok(())).unwrap();
    let r = Reason::from_json("{\"message\":\"done\",\"extra\":{\"a\":[1,2.5e3,true,null]}}").unwrap();
    prov.terminate_agreement(id.as_provider(), r.duplicate(), NOW + 5).unwrap();
    req.on_terminate(id, r.duplicate(), PROV, NOW + 6).unwrap();
    assert_eq!(req.on_terminate(id, r, PROV, NOW + 7), Ok(()));
    let a = req.get_agreement(&id).unwrap();
    assert_eq!(a.state, AgreementState::Terminated);
    assert_eq!(a.terminated_ts, Some(NOW + 6));
    assert_eq!(req.wait_for_approval(id, NOW + 8, false), Ok(Some(ApprovalStatus::Terminated)));
}

#[test]
fn distinct_agreements_get_distinct_ids() {
    let mut req = Market::new(REQ);
    req.add_proposal(draft(1, None, Owner::Provider)).unwrap();
    req.add_proposal(draft(2, Some(1), Owner::Provider)).unwrap();
    req.add_proposal(draft(3, None, Owner::Provider)).unwrap();
    req.add_proposal(draft(4, Some(3), Owner::Provider)).unwrap();
    let a = req.create_agreement(2, NOW + 10, NOW).unwrap();
    let b = req.create_agreement(4, NOW + 10, NOW).unwrap();
    assert_ne!(a.logical, b.logical);
    assert_eq!(a.owner, Owner::Requestor);
}

#[test]
fn create_with_given_id_and_collision() {
    let mut req = Market::new(REQ);
    req.add_proposal(draft(1, None, Owner::Provider)).unwrap();
    req.add_proposal(draft(2, Some(1), Owner::Provider)).unwrap();
    req.add_proposal(draft(3, None, Owner::Provider)).unwrap();
    req.add_proposal(draft(4, Some(3), Owner::Provider)).unwrap();
    let a = req.create_agreement_with_id(2, NOW + 10, NOW, 42).unwrap();
    assert_eq!(a, AgreementId { logical: 42, owner: Owner::Requestor });
    assert_eq!(req.create_agreement_with_id(4, NOW + 10, NOW, 42), Err(AgreementError::AlreadyExists(a, 4)));
    assert_eq!(req.create_agreement_with_id(9, NOW + 10, NOW, 43), Err(AgreementError::ProposalNotFound(9)));
    assert_eq!(req.get_proposal(4).unwrap().state, ProposalState::Draft);
}

#[test]
fn reason_reads_message_and_keeps_object() {
    let text = " { \"x\" : -0.5 , \"message\" : \"a\\\"b\\u0041\" , \"y\": [] } ";
    let r = Reason::from_json(text).unwrap();
    assert_eq!(r.message(), "a\\\"b\\u0041");
    assert_eq!(r.json(), text);
    let r = Reason::from_json("{\"message\":\"\"}").unwrap();
    assert_eq!(r.message(), "");
}

#[test]
fn reason_refuses_malformed_objects() {
    for bad in [
        "plain string",
        "\"plain string\"",
        "",
        "{}",
        "{\"message\": 5}",
        "{\"message\": \"a\"",
        "{\"message\": \"a\",}",
        "{\"message\": \"a\"} x",
        "{\"other\": \"a\"}",
        "[{\"message\": \"a\"}]",
        "{\"message\": \"a\", \"n\": 01}",
        "{\"message\": \"bad \\x escape\"}",
    ] {
        assert_eq!(Reason::from_json(bad).err(), Some(AgreementError::BadReason), "{}", bad);
    }
}

#[test]
fn translate_keeps_logical_id() {
    let id = AgreementId { logical: 77, owner: Owner::Requestor };
    assert_eq!(id.translate(Owner::Provider), AgreementId { logical: 77, owner: Owner::Provider });
    assert_eq!(id.as_provider().as_requestor(), id);
}

#[test]
fn state_error_names_confirmed_for_pending() {
    assert_eq!(ya_market::model::state_error(AgreementState::Pending), StateError::Confirmed);
    assert_eq!(ya_market::model::state_error(AgreementState::Approving), StateError::Approved);
    assert_eq!(ya_market::model::state_error(AgreementState::Terminated), StateError::Terminated);
}

#[test]
fn error_descriptions() {
    assert_eq!(ya_market::ScanError {}.description(), "scan failed");
    assert_eq!(ya_market::SubscribeError {}.description(), "subscription failed");
    assert_eq!(ya_market::UnSubscribeError {}.description(), "un-subscription failed");
    assert_eq!(ya_market::CollectError {}.description(), "collect failed");
    assert_eq!(ProposalError {}.description(), "post failed");
    assert_eq!(AgreementError::BadReason.description(), "agreement operation failed");
}

#[test]
fn failed_confirm_restores_session() {
    let mut req = Market::new(REQ);
    req.add_proposal(draft(1, None, Owner::Provider)).unwrap();
    req.add_proposal(draft(2, Some(1), Owner::Provider)).unwrap();
    let id = req.create_agreement(2, NOW + 100, NOW).unwrap();
    req.confirm_agreement(id, Some(String::from("r-session")), NOW).unwrap();
    assert_eq!(req.get_agreement(&id).unwrap().session_id, Some(String::from("r-session")));
    let result = req.confirm_delivered(id, Err(RemoteError::Unreachable));
    assert_eq!(result, Err(AgreementError::ProtocolCreate(RemoteError::Unreachable)));
    let a = req.get_agreement(&id).unwrap();
    assert_eq!(a.state, AgreementState::Proposal);
    assert_eq!(a.session_id, None);
}

#[test]
fn failed_approve_keeps_proposed_session() {
    let (_req, mut prov, id) = pending_pair(NOW + 100);
    let pid = id.as_provider();
    prov.approve_agreement(pid, NOW + 1).unwrap();
    let result = prov.approve_delivered(pid, Err(RemoteError::Unreachable));
    assert_eq!(result, Err(AgreementError::ProtocolApprove(RemoteError::Unreachable)));
    let a = prov.get_agreement(&pid).unwrap();
    assert_eq!(a.state, AgreementState::Pending);
    assert_eq!(a.approved_ts, None);
    assert_eq!(a.session_id, Some(String::from("p-session")));
}

#[test]
fn expired_approve_leaves_no_approval_time() {
    let (_req, mut prov, id) = pending_pair(NOW + 100);
    let pid = id.as_provider();
    let result = prov.approve_agreement(pid, NOW + 100);
    assert_eq!(result, Err(AgreementError::InvalidState(StateError::Expired)));
    assert_eq!(prov.get_agreement(&pid).unwrap().approved_ts, None);
}

#[test]
fn cancel_before_propose_refuses_propose() {
    let mut req = Market::new(REQ);
    let mut prov = Market::new(PROV);
    req.add_proposal(draft(1, None, Owner::Provider)).unwrap();
    req.add_proposal(draft(2, Some(1), Owner::Provider)).unwrap();
    let id = req.create_agreement(2, NOW + 100, NOW).unwrap();
    let sent = req.confirm_agreement(id, None, NOW).unwrap();
    req.cancel_agreement(id).unwrap();
    assert_eq!(prov.on_cancel(id.as_provider(), REQ), Ok(()));
    let reply = prov.on_propose(&sent, None, REQ);
    assert_eq!(reply, Err(RemoteError::InvalidState(StateError::Cancelled)));
    assert!(prov.get_agreement(&id.as_provider()).is_err());
}

#[test]
fn propose_after_cancel_is_refused() {
    let (mut req, mut prov, id) = pending_pair(NOW + 100);
    let sent = req.get_agreement(&id).unwrap();
    req.cancel_agreement(id).unwrap();
    prov.on_cancel(id.as_provider(), REQ).unwrap();
    let reply = prov.on_propose(&sent, None, REQ);
    assert_eq!(reply, Err(RemoteError::InvalidState(StateError::Cancelled)));
}

#[test]
fn provider_record_blocks_second_promotion() {
    let mut node = Market::new(REQ);
    node.add_proposal(draft(1, None, Owner::Provider)).unwrap();
    node.add_proposal(draft(2, Some(1), Owner::Provider)).unwrap();
    let mut other = Market::new(REQ);
    other.add_proposal(draft(1, None, Owner::Provider)).unwrap();
    other.add_proposal(draft(2, Some(1), Owner::Provider)).unwrap();
    let id = other.create_agreement(2, NOW + 100, NOW).unwrap();
    let sent = other.confirm_agreement(id, None, NOW).unwrap();
    node.on_propose(&sent, None, REQ).unwrap();
    let result = node.create_agreement(2, NOW + 100, NOW);
    assert_eq!(result, Err(AgreementError::AlreadyExists(id.as_provider(), 2)));
}

#[test]
fn reason_nesting_is_bounded() {
    let deep = |n: usize| format!("{{\"message\":\"m\",\"x\":{}1{}}}", "[".repeat(n), "]".repeat(n));
    assert!(Reason::from_json(&deep(127)).is_ok());
    assert_eq!(Reason::from_json(&deep(128)).err(), Some(AgreementError::BadReason));
    assert_eq!(Reason::from_json(&deep(100_000)).err(), Some(AgreementError::BadReason));
    let wide = format!("{{\"message\":\"m\"{}}}", ",\"k\":1".repeat(100_000));
    assert!(Reason::from_json(&wide).is_ok());
}

#[test]
fn terminate_with_malformed_payload_is_refused() {
    let (mut req, _prov, id) = pending_pair(NOW + 100);
    req.on_approve(id, PROV, NOW + 1).unwrap();
    let result = req.terminate_with_payload(id, "plain string", NOW + 2);
    assert_eq!(result, Err(AgreementError::BadReason));
    assert_eq!(req.get_agreement(&id).unwrap().state, AgreementState::Approved);
    req.terminate_with_payload(id, "{\"message\":\"done\"}", NOW + 3).unwrap();
    assert_eq!(req.get_agreement(&id).unwrap().state, AgreementState::Terminated);
}

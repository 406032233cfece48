use vstd::prelude::*;

use crate::ids::{new_logical_id, AgreementId, Owner};
use crate::keyed::{keyed_map, keys_unique, lemma_keyed_at, lemma_keyed_push, lemma_keyed_update};
use crate::model::{
    Agreement, AgreementError, AgreementState, ApprovalStatus, Proposal, ProposalState,
    RemoteError, StateError,
};
use crate::transitions::{
    approve_record, approve_reply_record, approve_reply_step, approve_step, confirm_record,
    confirm_reply_record, confirm_reply_step, confirm_step, expire_record, expire_step,
    on_approve_record, on_approve_step, on_terminate_record, on_terminate_step,
    on_withdraw_record, on_withdraw_step, terminate_record, terminate_step, wait_record,
    wait_step, withdraw_record, withdraw_step,
};
use crate::reason::{reason_text_ok, Reason};
use vstd::string::StringSliceAdditionalSpecFns;
use crate::{NodeId, ProposalError};

verus! {

pub open spec fn agreement_key() -> spec_fn(Agreement) -> AgreementId {
    |a: Agreement| a.agreement_id
}

pub open spec fn proposal_key() -> spec_fn(Proposal) -> u128 {
    |p: Proposal| p.id
}

/// Some proposal counters `pid`.
pub open spec fn has_successor(props: Map<u128, Proposal>, pid: u128) -> bool {
    exists|q: u128| props.contains_key(q) && props[q].prev_id == Some(pid)
}

/// `pid` is an accepted proposal that nobody countered.
pub open spec fn promoted(props: Map<u128, Proposal>, pid: u128) -> bool {
    &&& props.contains_key(pid)
    &&& props[pid].state == ProposalState::Accepted
    &&& !has_successor(props, pid)
}

/// `a` is an agreement made from proposal `pid`, under either tag.
pub open spec fn references(agrs: Map<AgreementId, Agreement>, a: AgreementId, pid: u128) -> bool {
    agrs.contains_key(a) && agrs[a].proposal_id == pid
}

pub open spec fn market_invariant(
    agrs: Map<AgreementId, Agreement>,
    props: Map<u128, Proposal>,
    node: NodeId,
) -> bool {
    &&& forall|id: AgreementId| #[trigger]
        agrs.contains_key(id) ==> agrs[id].agreement_id == id && agrs[id].wf()
    &&& forall|id: AgreementId| #[trigger]
        agrs.contains_key(id) && id.owner == Owner::Requestor ==> promoted(
            props,
            agrs[id].proposal_id,
        ) && agrs[id].requestor_id == node
    &&& forall|pid: u128| #[trigger] props.contains_key(pid) ==> props[pid].id == pid
}

/// `id` names a record held under the role `owner`.
pub open spec fn visible(agrs: Map<AgreementId, Agreement>, id: AgreementId, owner: Owner) -> bool {
    id.owner == owner && agrs.contains_key(id)
}

/// The store after a step on `id` that either produced a new record or
/// failed.
pub open spec fn apply<E>(agrs: Map<AgreementId, Agreement>, id: AgreementId, r: Result<
    Agreement,
    E,
>) -> Map<AgreementId, Agreement> {
    match r {
        Ok(b) => agrs.insert(id, b),
        Err(_) => agrs,
    }
}

pub open spec fn drop_record<E>(r: Result<Agreement, E>) -> Result<(), E> {
    match r {
        Ok(_) => Ok(()),
        Err(e) => Err(e),
    }
}

/// The record that `create` stores.
pub open spec fn created(
    logical: u128,
    proposal: Proposal,
    requestor: NodeId,
    now: u64,
    valid_to: u64,
) -> Agreement {
    Agreement {
        agreement_id: AgreementId { logical, owner: Owner::Requestor },
        proposal_id: proposal.id,
        requestor_id: requestor,
        provider_id: proposal.issuer_node,
        creation_ts: now,
        valid_to,
        state: AgreementState::Proposal,
        approved_ts: None,
        terminated_ts: None,
        termination_reason: None,
        session_id: None,
    }
}

/// Why `create` refuses, checked in this order; `false` where it succeeds.
pub open spec fn create_refused(
    agrs: Map<AgreementId, Agreement>,
    props: Map<u128, Proposal>,
    pid: u128,
    valid_to: u64,
    now: u64,
    logical: u128,
    e: AgreementError,
) -> bool {
    let fresh = AgreementId { logical, owner: Owner::Requestor };
    if !props.contains_key(pid) {
        e == AgreementError::ProposalNotFound(pid)
    } else if props[pid].prev_id is None {
        e == AgreementError::NoNegotiations(pid)
    } else if props[pid].issuer == Owner::Requestor {
        e == AgreementError::OwnProposal(pid)
    } else if has_successor(props, pid) {
        e == AgreementError::ProposalCountered(pid)
    } else if exists|a: AgreementId| references(agrs, a, pid) {
        exists|a: AgreementId| references(agrs, a, pid) && e == AgreementError::AlreadyExists(a, pid)
    } else if valid_to < now {
        e == AgreementError::InvalidState(StateError::Expired)
    } else if agrs.contains_key(fresh) {
        e == AgreementError::AlreadyExists(fresh, pid)
    } else {
        false
    }
}

pub open spec fn create_allowed(
    agrs: Map<AgreementId, Agreement>,
    props: Map<u128, Proposal>,
    pid: u128,
    valid_to: u64,
    now: u64,
    logical: u128,
) -> bool {
    &&& props.contains_key(pid)
    &&& props[pid].prev_id is Some
    &&& props[pid].issuer == Owner::Provider
    &&& !has_successor(props, pid)
    &&& !(exists|a: AgreementId| references(agrs, a, pid))
    &&& valid_to >= now
    &&& !agrs.contains_key(AgreementId { logical, owner: Owner::Requestor })
}

/// Why a new proposal is refused: its id is taken, it claims to be accepted,
/// or it counters an accepted proposal.
pub open spec fn proposal_refused(props: Map<u128, Proposal>, p: Proposal) -> bool {
    ||| props.contains_key(p.id)
    ||| p.state == ProposalState::Accepted
    ||| (p.prev_id matches Some(q) && props.contains_key(q) && props[q].state
        == ProposalState::Accepted)
}

/// The record a provider stores on receipt of `Propose`.
pub open spec fn received(a: Agreement, session: Option<String>) -> Agreement {
    Agreement {
        agreement_id: AgreementId { logical: a.agreement_id.logical, owner: Owner::Provider },
        state: AgreementState::Pending,
        approved_ts: None,
        terminated_ts: None,
        termination_reason: None,
        session_id: session,
        ..a
    }
}

/// The provider's store and reply after receiving `Propose`.
/// A `Propose` for an agreement that the requestor cancelled before, whether
/// the cancel came before or after the first `Propose`, is refused as
/// cancelled.
pub open spec fn propose_outcome(
    agrs: Map<AgreementId, Agreement>,
    cancelled: Set<u128>,
    agreement: Agreement,
    session: Option<String>,
    sender: NodeId,
) -> (Map<AgreementId, Agreement>, Result<(), RemoteError>) {
    let pid = AgreementId { logical: agreement.agreement_id.logical, owner: Owner::Provider };
    if sender != agreement.requestor_id {
        (agrs, Err(RemoteError::Unauthorized))
    } else if cancelled.contains(pid.logical) || (agrs.contains_key(pid) && agrs[pid].state
        == AgreementState::Cancelled) {
        (agrs, Err(RemoteError::InvalidState(StateError::Cancelled)))
    } else if agrs.contains_key(pid) {
        (agrs, Ok(()))
    } else {
        (agrs.insert(pid, received(agreement, session)), Ok(()))
    }
}

/// The expiration timer may still end `a`, and its deadline is at or
/// before `ts`.
pub open spec fn expiring(a: Agreement, ts: u64) -> bool {
    crate::model::is_expirable(a.state) && a.valid_to <= ts
}

/// Operations on agreements leave the node, its proposals and the ids
/// cancelled ahead of their `Propose` as they were.
pub open spec fn same_node_and_proposals(a: Market, b: Market) -> bool {
    a.node_id() == b.node_id() && a.proposal_map() == b.proposal_map() && a.cancelled_ids()
        == b.cancelled_ids()
}

/// One node's agreement engine: its proposals and its agreements, each side
/// of an agreement held under its own owner tag.
pub struct Market {
    node: NodeId,
    proposals: Vec<Proposal>,
    agreements: Vec<Agreement>,
    cancelled: Vec<u128>,
}

impl Market {
    pub closed spec fn agreement_map(&self) -> Map<AgreementId, Agreement> {
        keyed_map(self.agreements@, agreement_key())
    }

    pub closed spec fn proposal_map(&self) -> Map<u128, Proposal> {
        keyed_map(self.proposals@, proposal_key())
    }

    /// Logical ids of agreements whose `Cancel` reached this provider before
    /// any `Propose`.
    pub closed spec fn cancelled_ids(&self) -> Set<u128> {
        Set::new(|x: u128| self.cancelled@.contains(x))
    }

    pub closed spec fn node_id(&self) -> NodeId {
        self.node
    }

    /// The identity of this node.
    pub fn node(&self) -> (r: NodeId)
        ensures
            r == self.node_id(),
    {
        self.node
    }

    pub closed spec fn store_wf(&self) -> bool {
        keys_unique(self.agreements@, agreement_key()) && keys_unique(
            self.proposals@,
            proposal_key(),
        )
    }

    pub open spec fn wf(&self) -> bool {
        self.store_wf() && market_invariant(self.agreement_map(), self.proposal_map(), self.node_id())
    }

    pub fn new(node: NodeId) -> (r: Market)
        ensures
            r.wf(),
            r.node_id() == node,
            r.agreement_map() == Map::<AgreementId, Agreement>::empty(),
            r.proposal_map() == Map::<u128, Proposal>::empty(),
            r.cancelled_ids() == Set::<u128>::empty(),
    {
        let r = Market { node, proposals: Vec::new(), agreements: Vec::new(), cancelled: Vec::new() };
        assert(r.cancelled_ids() =~= Set::<u128>::empty());
        assert(r.agreement_map() =~= Map::<AgreementId, Agreement>::empty());
        assert(r.proposal_map() =~= Map::<u128, Proposal>::empty());
        r
    }

    fn find_agreement(&self, id: &AgreementId) -> (r: Option<usize>)
        requires
            self.wf(),
        ensures
            match r {
                Some(i) => i < self.agreements.len() && self.agreement_map().contains_key(*id)
                    && self.agreements@[i as int] == self.agreement_map()[*id],
                None => !self.agreement_map().contains_key(*id),
            },
    {
        let mut i: usize = 0;
        while i < self.agreements.len()
            invariant
                self.wf(),
                i <= self.agreements.len(),
                forall|j: int| 0 <= j < i ==> self.agreements@[j].agreement_id != *id,
            decreases self.agreements.len() - i,
        {
            if self.agreements[i].agreement_id == *id {
                proof {
                    lemma_keyed_at(self.agreements@, agreement_key(), i as int);
                }
                return Some(i);
            }
            i += 1;
        }
        None
    }

    fn find_visible(&self, id: &AgreementId, owner: Owner) -> (r: Option<usize>)
        requires
            self.wf(),
        ensures
            match r {
                Some(i) => i < self.agreements.len() && visible(self.agreement_map(), *id, owner)
                    && self.agreements@[i as int] == self.agreement_map()[*id],
                None => !visible(self.agreement_map(), *id, owner),
            },
    {
        if id.owner != owner {
            None
        } else {
            self.find_agreement(id)
        }
    }

    fn find_proposal(&self, pid: u128) -> (r: Option<usize>)
        requires
            self.wf(),
        ensures
            match r {
                Some(i) => i < self.proposals.len() && self.proposal_map().contains_key(pid)
                    && self.proposals@[i as int] == self.proposal_map()[pid],
                None => !self.proposal_map().contains_key(pid),
            },
    {
        let mut i: usize = 0;
        while i < self.proposals.len()
            invariant
                self.wf(),
                i <= self.proposals.len(),
                forall|j: int| 0 <= j < i ==> self.proposals@[j].id != pid,
            decreases self.proposals.len() - i,
        {
            if self.proposals[i].id == pid {
                proof {
                    lemma_keyed_at(self.proposals@, proposal_key(), i as int);
                }
                return Some(i);
            }
            i += 1;
        }
        None
    }

    /// Stores `a` in place of the record at `i`, which has the same id and
    /// proposal.
    fn replace_at(&mut self, i: usize, a: Agreement)
        requires
            old(self).wf(),
            i < old(self).agreements.len(),
            a.agreement_id == old(self).agreements@[i as int].agreement_id,
            a.proposal_id == old(self).agreements@[i as int].proposal_id,
            a.requestor_id == old(self).agreements@[i as int].requestor_id,
            a.wf(),
        ensures
            final(self).wf(),
            final(self).node_id() == old(self).node_id(),
            final(self).proposal_map() == old(self).proposal_map(),
            final(self).cancelled_ids() == old(self).cancelled_ids(),
            final(self).agreement_map() == old(self).agreement_map().insert(a.agreement_id, a),
    {
        proof {
            lemma_keyed_at(self.agreements@, agreement_key(), i as int);
            lemma_keyed_update(self.agreements@, agreement_key(), i as int, a);
        }
        let ghost before = self.agreement_map();
        self.agreements.set(i, a);
        assert forall|id: AgreementId| #[trigger]
            self.agreement_map().contains_key(id) && id.owner == Owner::Requestor implies promoted(
            self.proposal_map(),
            self.agreement_map()[id].proposal_id,
        ) by {
            assert(before.contains_key(id));
        }
    }

    pub fn get_agreement(&self, id: &AgreementId) -> (r: Result<Agreement, AgreementError>)
        requires
            self.wf(),
        ensures
            self.agreement_map().contains_key(*id) ==> r == Ok::<Agreement, AgreementError>(
                self.agreement_map()[*id],
            ),
            !self.agreement_map().contains_key(*id) ==> r == Err::<Agreement, AgreementError>(
                AgreementError::NotFound(*id),
            ),
    {
        match self.find_agreement(id) {
            Some(i) => Ok(self.agreements[i].duplicate()),
            None => Err(AgreementError::NotFound(*id)),
        }
    }

    pub fn get_proposal(&self, pid: u128) -> (r: Option<Proposal>)
        requires
            self.wf(),
        ensures
            self.proposal_map().contains_key(pid) ==> r == Some(self.proposal_map()[pid]),
            !self.proposal_map().contains_key(pid) ==> r is None,
    {
        match self.find_proposal(pid) {
            Some(i) => Some(self.proposals[i].duplicate()),
            None => None,
        }
    }

    /// Stores a proposal produced by negotiation.
    pub fn add_proposal(&mut self, p: Proposal) -> (r: Result<(), ProposalError>)
        requires
            old(self).wf(),
        ensures
            final(self).wf(),
            final(self).node_id() == old(self).node_id(),
            final(self).agreement_map() == old(self).agreement_map(),
            r is Err <==> proposal_refused(old(self).proposal_map(), p),
            r is Ok ==> final(self).proposal_map() == old(self).proposal_map().insert(p.id, p),
            r is Err ==> final(self).proposal_map() == old(self).proposal_map(),
    {
        if self.find_proposal(p.id).is_some() {
            return Err(ProposalError {});
        }
        if p.state == ProposalState::Accepted {
            return Err(ProposalError {});
        }
        match p.prev_id {
            Some(q) => match self.find_proposal(q) {
                Some(qi) => {
                    if self.proposals[qi].state == ProposalState::Accepted {
                        return Err(ProposalError {});
                    }
                },
                None => {},
            },
            None => {},
        }
        let ghost before = self.proposal_map();
        let ghost pp = p;
        proof {
            lemma_keyed_push(self.proposals@, proposal_key(), p);
        }
        self.proposals.push(p);
        let ghost after = self.proposal_map();
        assert forall|id: AgreementId| #[trigger]
            self.agreement_map().contains_key(id) && id.owner == Owner::Requestor implies promoted(
            after,
            self.agreement_map()[id].proposal_id,
        ) by {
            let pid = self.agreement_map()[id].proposal_id;
            assert(promoted(before, pid));
            if has_successor(after, pid) {
                let q = choose|q: u128| after.contains_key(q) && after[q].prev_id == Some(pid);
                if q != pp.id {
                    assert(before.contains_key(q));
                }
            }
        }
        Ok(())
    }

    fn successor_exists(&self, pid: u128) -> (r: bool)
        requires
            self.wf(),
        ensures
            r == has_successor(self.proposal_map(), pid),
    {
        let mut i: usize = 0;
        while i < self.proposals.len()
            invariant
                self.wf(),
                i <= self.proposals.len(),
                forall|j: int| 0 <= j < i ==> self.proposals@[j].prev_id != Some(pid),
            decreases self.proposals.len() - i,
        {
            if self.proposals[i].prev_id == Some(pid) {
                proof {
                    lemma_keyed_at(self.proposals@, proposal_key(), i as int);
                }
                return true;
            }
            i += 1;
        }
        proof {
            if has_successor(self.proposal_map(), pid) {
                let q = choose|q: u128|
                    self.proposal_map().contains_key(q) && self.proposal_map()[q].prev_id == Some(
                        pid,
                    );
                let j = choose|j: int|
                    0 <= j < self.proposals@.len() && (proposal_key())(self.proposals@[j]) == q;
                lemma_keyed_at(self.proposals@, proposal_key(), j);
            }
        }
        false
    }

    fn find_reference(&self, pid: u128) -> (r: Option<AgreementId>)
        requires
            self.wf(),
        ensures
            match r {
                Some(a) => references(self.agreement_map(), a, pid),
                None => !(exists|a: AgreementId| references(self.agreement_map(), a, pid)),
            },
    {
        let mut i: usize = 0;
        while i < self.agreements.len()
            invariant
                self.wf(),
                i <= self.agreements.len(),
                forall|j: int| 0 <= j < i ==> self.agreements@[j].proposal_id != pid,
            decreases self.agreements.len() - i,
        {
            if self.agreements[i].proposal_id == pid {
                proof {
                    lemma_keyed_at(self.agreements@, agreement_key(), i as int);
                }
                return Some(self.agreements[i].agreement_id);
            }
            i += 1;
        }
        proof {
            if exists|a: AgreementId| references(self.agreement_map(), a, pid) {
                let a = choose|a: AgreementId| references(self.agreement_map(), a, pid);
                let j = choose|j: int|
                    0 <= j < self.agreements@.len() && (agreement_key())(self.agreements@[j]) == a;
                lemma_keyed_at(self.agreements@, agreement_key(), j);
            }
        }
        None
    }

    /// Promotes proposal `proposal_id` to an agreement with logical id
    /// `logical`, valid until `valid_to`, at time `now`.
    pub fn create_agreement_with_id(
        &mut self,
        proposal_id: u128,
        valid_to: u64,
        now: u64,
        logical: u128,
    ) -> (r: Result<AgreementId, AgreementError>)
        requires
            old(self).wf(),
        ensures
            final(self).wf(),
            final(self).node_id() == old(self).node_id(),
            r is Ok <==> create_allowed(
                old(self).agreement_map(),
                old(self).proposal_map(),
                proposal_id,
                valid_to,
                now,
                logical,
            ),
            match r {
                Ok(id) => {
                    let p = old(self).proposal_map()[proposal_id];
                    &&& id == AgreementId { logical, owner: Owner::Requestor }
                    &&& final(self).agreement_map() == old(self).agreement_map().insert(
                        id,
                        created(logical, p, old(self).node_id(), now, valid_to),
                    )
                    &&& final(self).proposal_map() == old(self).proposal_map().insert(
                        proposal_id,
                        Proposal { state: ProposalState::Accepted, ..p },
                    )
                },
                Err(e) => {
                    &&& create_refused(
                        old(self).agreement_map(),
                        old(self).proposal_map(),
                        proposal_id,
                        valid_to,
                        now,
                        logical,
                        e,
                    )
                    &&& final(self).agreement_map() == old(self).agreement_map()
                    &&& final(self).proposal_map() == old(self).proposal_map()
                },
            },
    {
        let pi = match self.find_proposal(proposal_id) {
            Some(i) => i,
            None => return Err(AgreementError::ProposalNotFound(proposal_id)),
        };
        if self.proposals[pi].prev_id.is_none() {
            return Err(AgreementError::NoNegotiations(proposal_id));
        }
        if self.proposals[pi].issuer == Owner::Requestor {
            return Err(AgreementError::OwnProposal(proposal_id));
        }
        if self.successor_exists(proposal_id) {
            return Err(AgreementError::ProposalCountered(proposal_id));
        }
        match self.find_reference(proposal_id) {
            Some(a) => return Err(AgreementError::AlreadyExists(a, proposal_id)),
            None => {},
        }
        if valid_to < now {
            return Err(AgreementError::InvalidState(StateError::Expired));
        }
        let id = AgreementId { logical, owner: Owner::Requestor };
        if self.find_agreement(&id).is_some() {
            return Err(AgreementError::AlreadyExists(id, proposal_id));
        }
        let agreement = Agreement {
            agreement_id: id,
            proposal_id,
            requestor_id: self.node,
            provider_id: self.proposals[pi].issuer_node,
            creation_ts: now,
            valid_to,
            state: AgreementState::Proposal,
            approved_ts: None,
            terminated_ts: None,
            termination_reason: None,
            session_id: None,
        };
        let mut accepted = self.proposals[pi].duplicate();
        accepted.state = ProposalState::Accepted;
        let ghost agrs0 = self.agreement_map();
        let ghost props0 = self.proposal_map();
        proof {
            lemma_keyed_at(self.proposals@, proposal_key(), pi as int);
            lemma_keyed_update(self.proposals@, proposal_key(), pi as int, accepted);
            lemma_keyed_push(self.agreements@, agreement_key(), agreement);
        }
        self.proposals.set(pi, accepted);
        self.agreements.push(agreement);
        let ghost agrs1 = self.agreement_map();
        let ghost props1 = self.proposal_map();
        assert forall|q: u128| #[trigger] props1.contains_key(q) implies props1[q].prev_id
            == props0[q].prev_id && props0.contains_key(q) by {}
        assert forall|id2: AgreementId| #[trigger]
            agrs1.contains_key(id2) && id2.owner == Owner::Requestor implies promoted(
            props1,
            agrs1[id2].proposal_id,
        ) by {
            let pid = agrs1[id2].proposal_id;
            if id2 != id {
                assert(references(agrs0, id2, pid));
                assert(promoted(props0, pid));
            }
            if has_successor(props1, pid) {
                let q = choose|q: u128| props1.contains_key(q) && props1[q].prev_id == Some(pid);
                assert(props0.contains_key(q));
            }
        }
        Ok(id)
    }

    /// Promotes proposal `proposal_id` to an agreement with a fresh random
    /// logical id, valid until `valid_to`, at time `now`.
    pub fn create_agreement(&mut self, proposal_id: u128, valid_to: u64, now: u64) -> (r: Result<
        AgreementId,
        AgreementError,
    >)
        requires
            old(self).wf(),
        ensures
            final(self).wf(),
            final(self).node_id() == old(self).node_id(),
            exists|logical: u128|
                {
                    &&& (r is Ok <==> create_allowed(
                        old(self).agreement_map(),
                        old(self).proposal_map(),
                        proposal_id,
                        valid_to,
                        now,
                        logical,
                    ))
                    &&& match r {
                        Ok(id) => {
                            let p = old(self).proposal_map()[proposal_id];
                            &&& id == AgreementId { logical, owner: Owner::Requestor }
                            &&& final(self).agreement_map() == old(self).agreement_map().insert(
                                id,
                                created(logical, p, old(self).node_id(), now, valid_to),
                            )
                            &&& final(self).proposal_map() == old(self).proposal_map().insert(
                                proposal_id,
                                Proposal { state: ProposalState::Accepted, ..p },
                            )
                        },
                        Err(e) => {
                            &&& create_refused(
                                old(self).agreement_map(),
                                old(self).proposal_map(),
                                proposal_id,
                                valid_to,
                                now,
                                logical,
                                e,
                            )
                            &&& final(self).agreement_map() == old(self).agreement_map()
                            &&& final(self).proposal_map() == old(self).proposal_map()
                        },
                    }
                },
    {
        let logical = new_logical_id();
        self.create_agreement_with_id(proposal_id, valid_to, now, logical)
    }

    /// Requestor: confirms agreement `id` at time `now`; on success the
    /// agreement is `Pending` and the result is the record to send to the
    /// provider in `Propose`.
    pub fn confirm_agreement(&mut self, id: AgreementId, session: Option<String>, now: u64) -> (r:
        Result<Agreement, AgreementError>)
        requires
            old(self).wf(),
        ensures
            final(self).wf(),
            same_node_and_proposals(*old(self), *final(self)),
            visible(old(self).agreement_map(), id, Owner::Requestor) ==> {
                let step = confirm_step(old(self).agreement_map()[id], session, now);
                &&& r == step
                &&& final(self).agreement_map() == apply(old(self).agreement_map(), id, step)
            },
            !visible(old(self).agreement_map(), id, Owner::Requestor) ==> {
                &&& r == Err::<Agreement, AgreementError>(AgreementError::NotFound(id))
                &&& final(self).agreement_map() == old(self).agreement_map()
            },
    {
        let i = match self.find_visible(&id, Owner::Requestor) {
            Some(i) => i,
            None => return Err(AgreementError::NotFound(id)),
        };
        match confirm_record(&self.agreements[i], session, now) {
            Ok(b) => {
                let out = b.duplicate();
                self.replace_at(i, b);
                Ok(out)
            },
            Err(e) => Err(e),
        }
    }

    /// Requestor: applies the outcome of sending `Propose` for `id`; a
    /// failed delivery rolls the agreement back to `Proposal`.
    pub fn confirm_delivered(&mut self, id: AgreementId, reply: Result<(), RemoteError>) -> (r:
        Result<(), AgreementError>)
        requires
            old(self).wf(),
        ensures
            final(self).wf(),
            same_node_and_proposals(*old(self), *final(self)),
            visible(old(self).agreement_map(), id, Owner::Requestor) ==> {
                let step = confirm_reply_step(old(self).agreement_map()[id], reply);
                &&& r == step.1
                &&& final(self).agreement_map() == old(self).agreement_map().insert(id, step.0)
            },
            !visible(old(self).agreement_map(), id, Owner::Requestor) ==> {
                &&& r == Err::<(), AgreementError>(AgreementError::NotFound(id))
                &&& final(self).agreement_map() == old(self).agreement_map()
            },
    {
        let i = match self.find_visible(&id, Owner::Requestor) {
            Some(i) => i,
            None => return Err(AgreementError::NotFound(id)),
        };
        let (b, out) = confirm_reply_record(&self.agreements[i], reply);
        self.replace_at(i, b);
        out
    }

    /// Provider: receives `Propose` for `agreement` from `sender`. A new
    /// agreement is stored as `Pending` under the provider's tag; a repeated
    /// message changes nothing.
    pub fn on_propose(&mut self, agreement: &Agreement, session: Option<String>, sender: NodeId) -> (r:
        Result<(), RemoteError>)
        requires
            old(self).wf(),
        ensures
            final(self).wf(),
            same_node_and_proposals(*old(self), *final(self)),
            (final(self).agreement_map(), r) == propose_outcome(
                old(self).agreement_map(),
                old(self).cancelled_ids(),
                *agreement,
                session,
                sender,
            ),
    {
        if sender != agreement.requestor_id {
            return Err(RemoteError::Unauthorized);
        }
        let pid = AgreementId { logical: agreement.agreement_id.logical, owner: Owner::Provider };
        if self.was_cancelled(pid.logical) {
            return Err(RemoteError::InvalidState(StateError::Cancelled));
        }
        match self.find_agreement(&pid) {
            Some(i) => {
                if self.agreements[i].state == AgreementState::Cancelled {
                    return Err(RemoteError::InvalidState(StateError::Cancelled));
                }
                return Ok(());
            },
            None => {},
        }
        let mut b = agreement.duplicate();
        b.agreement_id = pid;
        b.state = AgreementState::Pending;
        b.approved_ts = None;
        b.terminated_ts = None;
        b.termination_reason = None;
        b.session_id = session;
        let ghost agrs0 = self.agreement_map();
        proof {
            lemma_keyed_push(self.agreements@, agreement_key(), b);
        }
        self.agreements.push(b);
        assert forall|id2: AgreementId| #[trigger]
            self.agreement_map().contains_key(id2) && id2.owner == Owner::Requestor implies promoted(
            self.proposal_map(),
            self.agreement_map()[id2].proposal_id,
        ) by {
            assert(agrs0.contains_key(id2));
        }
        Ok(())
    }

    /// Provider: approves agreement `id` at time `now`; on success the
    /// agreement is `Approving` until the requestor answers `Approve`, which
    /// the caller sends with the session of its choice.
    pub fn approve_agreement(&mut self, id: AgreementId, now: u64) -> (r:
        Result<(), AgreementError>)
        requires
            old(self).wf(),
        ensures
            final(self).wf(),
            same_node_and_proposals(*old(self), *final(self)),
            visible(old(self).agreement_map(), id, Owner::Provider) ==> {
                let step = approve_step(old(self).agreement_map()[id], now);
                &&& r == drop_record(step)
                &&& final(self).agreement_map() == apply(old(self).agreement_map(), id, step)
            },
            !visible(old(self).agreement_map(), id, Owner::Provider) ==> {
                &&& r == Err::<(), AgreementError>(AgreementError::NotFound(id))
                &&& final(self).agreement_map() == old(self).agreement_map()
            },
    {
        let i = match self.find_visible(&id, Owner::Provider) {
            Some(i) => i,
            None => return Err(AgreementError::NotFound(id)),
        };
        match approve_record(&self.agreements[i], now) {
            Ok(b) => {
                self.replace_at(i, b);
                Ok(())
            },
            Err(e) => Err(e),
        }
    }

    /// Provider: applies the requestor's answer to `Approve` for `id`.
    pub fn approve_delivered(&mut self, id: AgreementId, reply: Result<(), RemoteError>) -> (r:
        Result<(), AgreementError>)
        requires
            old(self).wf(),
        ensures
            final(self).wf(),
            same_node_and_proposals(*old(self), *final(self)),
            visible(old(self).agreement_map(), id, Owner::Provider) ==> {
                let step = approve_reply_step(old(self).agreement_map()[id], reply);
                &&& r == step.1
                &&& final(self).agreement_map() == old(self).agreement_map().insert(id, step.0)
            },
            !visible(old(self).agreement_map(), id, Owner::Provider) ==> {
                &&& r == Err::<(), AgreementError>(AgreementError::NotFound(id))
                &&& final(self).agreement_map() == old(self).agreement_map()
            },
    {
        let i = match self.find_visible(&id, Owner::Provider) {
            Some(i) => i,
            None => return Err(AgreementError::NotFound(id)),
        };
        let (b, out) = approve_reply_record(&self.agreements[i], reply);
        self.replace_at(i, b);
        out
    }

    /// Requestor: receives `Approve` for `id` from `sender` at time `now`.
    pub fn on_approve(&mut self, id: AgreementId, sender: NodeId, now: u64) -> (r: Result<
        (),
        RemoteError,
    >)
        requires
            old(self).wf(),
        ensures
            final(self).wf(),
            same_node_and_proposals(*old(self), *final(self)),
            visible(old(self).agreement_map(), id, Owner::Requestor) ==> {
                let step = on_approve_step(old(self).agreement_map()[id], sender, now);
                &&& r == drop_record(step)
                &&& final(self).agreement_map() == apply(old(self).agreement_map(), id, step)
            },
            !visible(old(self).agreement_map(), id, Owner::Requestor) ==> {
                &&& r == Err::<(), RemoteError>(RemoteError::NotFound)
                &&& final(self).agreement_map() == old(self).agreement_map()
            },
    {
        let i = match self.find_visible(&id, Owner::Requestor) {
            Some(i) => i,
            None => return Err(RemoteError::NotFound),
        };
        match on_approve_record(&self.agreements[i], sender, now) {
            Ok(b) => {
                self.replace_at(i, b);
                Ok(())
            },
            Err(e) => Err(e),
        }
    }

    fn withdraw(&mut self, id: AgreementId, owner: Owner, to: AgreementState) -> (r: Result<
        (),
        AgreementError,
    >)
        requires
            old(self).wf(),
            to == AgreementState::Rejected || to == AgreementState::Cancelled,
        ensures
            final(self).wf(),
            same_node_and_proposals(*old(self), *final(self)),
            visible(old(self).agreement_map(), id, owner) ==> {
                let step = withdraw_step(old(self).agreement_map()[id], to);
                &&& r == drop_record(step)
                &&& final(self).agreement_map() == apply(old(self).agreement_map(), id, step)
            },
            !visible(old(self).agreement_map(), id, owner) ==> {
                &&& r == Err::<(), AgreementError>(AgreementError::NotFound(id))
                &&& final(self).agreement_map() == old(self).agreement_map()
            },
    {
        let i = match self.find_visible(&id, owner) {
            Some(i) => i,
            None => return Err(AgreementError::NotFound(id)),
        };
        match withdraw_record(&self.agreements[i], to) {
            Ok(b) => {
                self.replace_at(i, b);
                Ok(())
            },
            Err(e) => Err(e),
        }
    }

    /// Provider: rejects the `Pending` agreement `id`; the caller then sends
    /// `Reject` to the requestor.
    pub fn reject_agreement(&mut self, id: AgreementId) -> (r: Result<(), AgreementError>)
        requires
            old(self).wf(),
        ensures
            final(self).wf(),
            same_node_and_proposals(*old(self), *final(self)),
            visible(old(self).agreement_map(), id, Owner::Provider) ==> {
                let step = withdraw_step(old(self).agreement_map()[id], AgreementState::Rejected);
                &&& r == drop_record(step)
                &&& final(self).agreement_map() == apply(old(self).agreement_map(), id, step)
            },
            !visible(old(self).agreement_map(), id, Owner::Provider) ==> {
                &&& r == Err::<(), AgreementError>(AgreementError::NotFound(id))
                &&& final(self).agreement_map() == old(self).agreement_map()
            },
    {
        self.withdraw(id, Owner::Provider, AgreementState::Rejected)
    }

    /// Requestor: cancels the `Pending` agreement `id`; the caller then sends
    /// `Cancel` to the provider.
    pub fn cancel_agreement(&mut self, id: AgreementId) -> (r: Result<(), AgreementError>)
        requires
            old(self).wf(),
        ensures
            final(self).wf(),
            same_node_and_proposals(*old(self), *final(self)),
            visible(old(self).agreement_map(), id, Owner::Requestor) ==> {
                let step = withdraw_step(old(self).agreement_map()[id], AgreementState::Cancelled);
                &&& r == drop_record(step)
                &&& final(self).agreement_map() == apply(old(self).agreement_map(), id, step)
            },
            !visible(old(self).agreement_map(), id, Owner::Requestor) ==> {
                &&& r == Err::<(), AgreementError>(AgreementError::NotFound(id))
                &&& final(self).agreement_map() == old(self).agreement_map()
            },
    {
        self.withdraw(id, Owner::Requestor, AgreementState::Cancelled)
    }

    fn on_withdraw(&mut self, id: AgreementId, owner: Owner, sender: NodeId, to: AgreementState) -> (r:
        Result<(), RemoteError>)
        requires
            old(self).wf(),
            to == AgreementState::Rejected || to == AgreementState::Cancelled,
        ensures
            final(self).wf(),
            same_node_and_proposals(*old(self), *final(self)),
            visible(old(self).agreement_map(), id, owner) ==> {
                let step = on_withdraw_step(old(self).agreement_map()[id], sender, to);
                &&& r == drop_record(step)
                &&& final(self).agreement_map() == apply(old(self).agreement_map(), id, step)
            },
            !visible(old(self).agreement_map(), id, owner) ==> {
                &&& r == Err::<(), RemoteError>(RemoteError::NotFound)
                &&& final(self).agreement_map() == old(self).agreement_map()
            },
    {
        let i = match self.find_visible(&id, owner) {
            Some(i) => i,
            None => return Err(RemoteError::NotFound),
        };
        match on_withdraw_record(&self.agreements[i], sender, to) {
            Ok(b) => {
                self.replace_at(i, b);
                Ok(())
            },
            Err(e) => Err(e),
        }
    }

    /// Requestor: receives `Reject` for `id` from `sender`.
    pub fn on_reject(&mut self, id: AgreementId, sender: NodeId) -> (r: Result<(), RemoteError>)
        requires
            old(self).wf(),
        ensures
            final(self).wf(),
            same_node_and_proposals(*old(self), *final(self)),
            visible(old(self).agreement_map(), id, Owner::Requestor) ==> {
                let step = on_withdraw_step(
                    old(self).agreement_map()[id],
                    sender,
                    AgreementState::Rejected,
                );
                &&& r == drop_record(step)
                &&& final(self).agreement_map() == apply(old(self).agreement_map(), id, step)
            },
            !visible(old(self).agreement_map(), id, Owner::Requestor) ==> {
                &&& r == Err::<(), RemoteError>(RemoteError::NotFound)
                &&& final(self).agreement_map() == old(self).agreement_map()
            },
    {
        self.on_withdraw(id, Owner::Requestor, sender, AgreementState::Rejected)
    }

    fn was_cancelled(&self, logical: u128) -> (r: bool)
        ensures
            r == self.cancelled_ids().contains(logical),
    {
        let mut i: usize = 0;
        while i < self.cancelled.len()
            invariant
                i <= self.cancelled.len(),
                forall|j: int| 0 <= j < i ==> self.cancelled@[j] != logical,
            decreases self.cancelled.len() - i,
        {
            if self.cancelled[i] == logical {
                assert(self.cancelled@.contains(logical));
                return true;
            }
            i += 1;
        }
        false
    }

    /// Provider: receives `Cancel` for `id` from `sender`. A `Cancel` for an
    /// agreement not received yet is remembered, so that a later `Propose`
    /// for it is refused; no identity is recorded for it to be checked
    /// against.
    pub fn on_cancel(&mut self, id: AgreementId, sender: NodeId) -> (r: Result<(), RemoteError>)
        requires
            old(self).wf(),
        ensures
            final(self).wf(),
            final(self).node_id() == old(self).node_id(),
            final(self).proposal_map() == old(self).proposal_map(),
            !visible(old(self).agreement_map(), id, Owner::Provider) && id.owner == Owner::Provider
                ==> final(self).cancelled_ids() == old(self).cancelled_ids().insert(id.logical),
            visible(old(self).agreement_map(), id, Owner::Provider) || id.owner != Owner::Provider
                ==> final(self).cancelled_ids() == old(self).cancelled_ids(),
            visible(old(self).agreement_map(), id, Owner::Provider) ==> {
                let step = on_withdraw_step(
                    old(self).agreement_map()[id],
                    sender,
                    AgreementState::Cancelled,
                );
                &&& r == drop_record(step)
                &&& final(self).agreement_map() == apply(old(self).agreement_map(), id, step)
            },
            !visible(old(self).agreement_map(), id, Owner::Provider) && id.owner == Owner::Provider
                ==> {
                &&& r == Ok::<(), RemoteError>(())
                &&& final(self).agreement_map() == old(self).agreement_map()
            },
            id.owner != Owner::Provider ==> {
                &&& r == Err::<(), RemoteError>(RemoteError::NotFound)
                &&& final(self).agreement_map() == old(self).agreement_map()
            },
    {
        if id.owner == Owner::Provider && self.find_agreement(&id).is_none() {
            if !self.was_cancelled(id.logical) {
                let ghost before = self.cancelled_ids();
                self.cancelled.push(id.logical);
                assert forall|x: u128| self.cancelled_ids().contains(x) <==> before.insert(
                    id.logical,
                ).contains(x) by {
                    if x != id.logical && self.cancelled@.contains(x) {
                        let k = choose|k: int|
                            0 <= k < self.cancelled@.len() && self.cancelled@[k] == x;
                        assert(old(self).cancelled@[k] == x);
                    }
                    if before.contains(x) {
                        let k = choose|k: int|
                            0 <= k < old(self).cancelled@.len() && old(self).cancelled@[k] == x;
                        assert(self.cancelled@[k] == x);
                    }
                    if x == id.logical {
                        assert(self.cancelled@[self.cancelled@.len() - 1] == x);
                    }
                }
                assert(self.cancelled_ids() =~= before.insert(id.logical));
            } else {
                assert(self.cancelled_ids() =~= old(self).cancelled_ids().insert(id.logical));
            }
            return Ok(());
        }
        self.on_withdraw(id, Owner::Provider, sender, AgreementState::Cancelled)
    }

    /// Either side: terminates the `Approved` agreement `id` at time `now`;
    /// the caller then sends `Terminate` to the peer.
    pub fn terminate_agreement(&mut self, id: AgreementId, reason: Reason, now: u64) -> (r: Result<
        (),
        AgreementError,
    >)
        requires
            old(self).wf(),
        ensures
            final(self).wf(),
            same_node_and_proposals(*old(self), *final(self)),
            old(self).agreement_map().contains_key(id) ==> {
                let step = terminate_step(old(self).agreement_map()[id], reason, now);
                &&& r == drop_record(step)
                &&& final(self).agreement_map() == apply(old(self).agreement_map(), id, step)
            },
            !old(self).agreement_map().contains_key(id) ==> {
                &&& r == Err::<(), AgreementError>(AgreementError::NotFound(id))
                &&& final(self).agreement_map() == old(self).agreement_map()
            },
    {
        let i = match self.find_agreement(&id) {
            Some(i) => i,
            None => return Err(AgreementError::NotFound(id)),
        };
        match terminate_record(&self.agreements[i], reason, now) {
            Ok(b) => {
                self.replace_at(i, b);
                Ok(())
            },
            Err(e) => Err(e),
        }
    }

    /// Either side: receives `Terminate` for `id` from `sender` at time `now`.
    pub fn on_terminate(&mut self, id: AgreementId, reason: Reason, sender: NodeId, now: u64) -> (r:
        Result<(), RemoteError>)
        requires
            old(self).wf(),
        ensures
            final(self).wf(),
            same_node_and_proposals(*old(self), *final(self)),
            old(self).agreement_map().contains_key(id) ==> {
                let step = on_terminate_step(old(self).agreement_map()[id], reason, sender, now);
                &&& r == drop_record(step)
                &&& final(self).agreement_map() == apply(old(self).agreement_map(), id, step)
            },
            !old(self).agreement_map().contains_key(id) ==> {
                &&& r == Err::<(), RemoteError>(RemoteError::NotFound)
                &&& final(self).agreement_map() == old(self).agreement_map()
            },
    {
        let i = match self.find_agreement(&id) {
            Some(i) => i,
            None => return Err(RemoteError::NotFound),
        };
        match on_terminate_record(&self.agreements[i], reason, sender, now) {
            Ok(b) => {
                self.replace_at(i, b);
                Ok(())
            },
            Err(e) => Err(e),
        }
    }

    /// The expiration timer of `id` fires at time `now`. Returns whether the
    /// agreement expired.
    pub fn expire_agreement(&mut self, id: AgreementId, now: u64) -> (r: bool)
        requires
            old(self).wf(),
        ensures
            final(self).wf(),
            same_node_and_proposals(*old(self), *final(self)),
            old(self).agreement_map().contains_key(id) ==> match expire_step(
                old(self).agreement_map()[id],
                now,
            ) {
                Some(b) => r && final(self).agreement_map() == old(self).agreement_map().insert(id, b),
                None => !r && final(self).agreement_map() == old(self).agreement_map(),
            },
            !old(self).agreement_map().contains_key(id) ==> !r && final(self).agreement_map()
                == old(self).agreement_map(),
    {
        let i = match self.find_agreement(&id) {
            Some(i) => i,
            None => return false,
        };
        match expire_record(&self.agreements[i], now) {
            Some(b) => {
                self.replace_at(i, b);
                true
            },
            None => false,
        }
    }

    /// Requestor: what a wait for the approval of `id` reports at time
    /// `now`, once `timed_out` says whether the caller's timeout has run
    /// out; `Ok(None)` means "keep waiting".
    pub fn wait_for_approval(&self, id: AgreementId, now: u64, timed_out: bool) -> (r: Result<
        Option<ApprovalStatus>,
        AgreementError,
    >)
        requires
            self.wf(),
        ensures
            visible(self.agreement_map(), id, Owner::Requestor) ==> r == wait_step(
                self.agreement_map()[id],
                now,
                timed_out,
            ),
            !visible(self.agreement_map(), id, Owner::Requestor) ==> r == Err::<
                Option<ApprovalStatus>,
                AgreementError,
            >(AgreementError::NotFound(id)),
    {
        match self.find_visible(&id, Owner::Requestor) {
            Some(i) => wait_record(&self.agreements[i], now, timed_out),
            None => Err(AgreementError::NotFound(id)),
        }
    }

    /// The agreements that the expiration timer may still end and whose
    /// deadline is at or before `ts`, each listed once.
    pub fn expiring_before(&self, ts: u64) -> (r: Vec<AgreementId>)
        requires
            self.wf(),
        ensures
            r@.no_duplicates(),
            forall|id: AgreementId|
                r@.contains(id) <==> (self.agreement_map().contains_key(id) && expiring(
                    self.agreement_map()[id],
                    ts,
                )),
    {
        let mut r: Vec<AgreementId> = Vec::new();
        let mut i: usize = 0;
        while i < self.agreements.len()
            invariant
                self.wf(),
                i <= self.agreements.len(),
                r@.no_duplicates(),
                forall|id: AgreementId|
                    r@.contains(id) <==> exists|j: int|
                        0 <= j < i && #[trigger] self.agreements@[j].agreement_id == id
                            && expiring(self.agreements@[j], ts),
            decreases self.agreements.len() - i,
        {
            let a = &self.agreements[i];
            let open = a.state == AgreementState::Proposal || a.state == AgreementState::Pending
                || a.state == AgreementState::Approving;
            if open && a.valid_to <= ts {
                let ghost before = r@;
                assert(!before.contains(a.agreement_id)) by {
                    if before.contains(a.agreement_id) {
                        let j = choose|j: int|
                            0 <= j < i && #[trigger] self.agreements@[j].agreement_id
                                == a.agreement_id && expiring(self.agreements@[j], ts);
                        assert(j != i);
                    }
                }
                r.push(a.agreement_id);
                assert forall|id: AgreementId|
                    r@.contains(id) <==> exists|j: int|
                        0 <= j < i + 1 && #[trigger] self.agreements@[j].agreement_id == id
                            && expiring(self.agreements@[j], ts) by {
                    if r@.contains(id) && id != a.agreement_id {
                        assert(before.contains(id));
                    }
                    if id == a.agreement_id {
                        assert(r@[before.len() as int] == id);
                    }
                    if exists|j: int|
                        0 <= j < i + 1 && #[trigger] self.agreements@[j].agreement_id == id
                            && expiring(self.agreements@[j], ts) {
                        if id != a.agreement_id {
                            let j = choose|j: int|
                                0 <= j < i + 1 && #[trigger] self.agreements@[j].agreement_id == id
                                    && expiring(self.agreements@[j], ts);
                            assert(j < i);
                            assert(before.contains(id));
                            let k = choose|k: int| 0 <= k < before.len() && before[k] == id;
                            assert(r@[k] == id);
                        }
                    }
                }
            }
            i += 1;
        }
        assert forall|id: AgreementId|
            r@.contains(id) <==> (self.agreement_map().contains_key(id) && expiring(
                self.agreement_map()[id],
                ts,
            )) by {
            if r@.contains(id) {
                let j = choose|j: int|
                    0 <= j < self.agreements@.len() && #[trigger] self.agreements@[j].agreement_id
                        == id && expiring(self.agreements@[j], ts);
                lemma_keyed_at(self.agreements@, agreement_key(), j);
            }
            if self.agreement_map().contains_key(id) && expiring(self.agreement_map()[id], ts) {
                let j = choose|j: int|
                    0 <= j < self.agreements@.len() && (agreement_key())(self.agreements@[j]) == id;
                lemma_keyed_at(self.agreements@, agreement_key(), j);
            }
        }
        r
    }

    /// Either side: terminates agreement `id` with a reason given as text.
    /// Text that is not a valid reason is refused with `BadReason` before
    /// the agreement is looked at; otherwise this is `terminate_agreement`
    /// with the reason read from the text.
    pub fn terminate_with_payload(&mut self, id: AgreementId, payload: &str, now: u64) -> (r:
        Result<(), AgreementError>)
        requires
            old(self).wf(),
        ensures
            final(self).wf(),
            same_node_and_proposals(*old(self), *final(self)),
            !reason_text_ok(payload.spec_bytes()) ==> {
                &&& r == Err::<(), AgreementError>(AgreementError::BadReason)
                &&& final(self).agreement_map() == old(self).agreement_map()
            },
            reason_text_ok(payload.spec_bytes()) ==> exists|reason: Reason|
                {
                    &&& reason.wf()
                    &&& reason.json_text() == payload@
                    &&& (old(self).agreement_map().contains_key(id) ==> {
                        let step = terminate_step(old(self).agreement_map()[id], reason, now);
                        &&& r == drop_record(step)
                        &&& final(self).agreement_map() == apply(
                            old(self).agreement_map(),
                            id,
                            step,
                        )
                    })
                    &&& (!old(self).agreement_map().contains_key(id) ==> {
                        &&& r == Err::<(), AgreementError>(AgreementError::NotFound(id))
                        &&& final(self).agreement_map() == old(self).agreement_map()
                    })
                },
    {
        match Reason::from_json(payload) {
            Ok(reason) => self.terminate_agreement(id, reason, now),
            Err(e) => Err(e),
        }
    }
}

} // verus!

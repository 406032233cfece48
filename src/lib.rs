use vstd::prelude::*;

pub mod ids;
pub mod keyed;
pub mod laws;
pub mod market;
pub mod model;
pub mod reason;
pub mod transitions;

pub use ids::{AgreementId, Owner};
pub use market::Market;
pub use model::{
    Agreement, AgreementError, AgreementState, ApprovalStatus, Proposal, ProposalState,
    RemoteError, StateError,
};
pub use reason::Reason;

verus! {

/// Identity of a node on the network.
#[derive(Clone, Copy, Debug, PartialEq, Eq, Structural)]
pub struct NodeId {
    pub addr: u128,
}

/// What a provider offers: explicit properties with values, a constraint
/// expression over the demand, and implicit properties without values.
pub struct Offer {
    pub offer_id: u128,
    pub provider_id: NodeId,
    pub exp_properties: std::collections::HashMap<String, String>,
    pub constraints: String,
    pub imp_properties: Vec<String>,
}

/// What a requestor demands: explicit properties with values, a constraint
/// expression over the offer, and implicit properties without values.
pub struct Demand {
    pub demand_id: u128,
    pub requestor_id: NodeId,
    pub exp_properties: std::collections::HashMap<String, String>,
    pub constraints: String,
    pub imp_properties: Vec<String>,
}

/// A scan of the market failed.
#[derive(Clone, Copy, Debug, PartialEq, Eq, Structural)]
pub struct ScanError {}

impl ScanError {
    pub fn description(&self) -> (r: &'static str)
        ensures
            r@ == "scan failed"@,
    {
        "scan failed"
    }
}

/// A subscription could not be made.
#[derive(Clone, Copy, Debug, PartialEq, Eq, Structural)]
pub struct SubscribeError {}

impl SubscribeError {
    pub fn description(&self) -> (r: &'static str)
        ensures
            r@ == "subscription failed"@,
    {
        "subscription failed"
    }
}

/// A subscription could not be removed.
#[derive(Clone, Copy, Debug, PartialEq, Eq, Structural)]
pub struct UnSubscribeError {}

impl UnSubscribeError {
    pub fn description(&self) -> (r: &'static str)
        ensures
            r@ == "un-subscription failed"@,
    {
        "un-subscription failed"
    }
}

/// Collecting the results of a subscription failed.
#[derive(Clone, Copy, Debug, PartialEq, Eq, Structural)]
pub struct CollectError {}

impl CollectError {
    pub fn description(&self) -> (r: &'static str)
        ensures
            r@ == "collect failed"@,
    {
        "collect failed"
    }
}

/// A proposal could not be stored.
#[derive(Clone, Copy, Debug, PartialEq, Eq, Structural)]
pub struct ProposalError {}

impl ProposalError {
    pub fn description(&self) -> (r: &'static str)
        ensures
            r@ == "post failed"@,
    {
        "post failed"
    }
}

impl AgreementError {
    pub fn description(&self) -> (r: &'static str)
        ensures
            r@ == "agreement operation failed"@,
    {
        "agreement operation failed"
    }
}

} // verus!

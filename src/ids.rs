use vstd::prelude::*;

verus! {

/// The role under which a node views an agreement.
#[derive(Clone, Copy, Debug, PartialEq, Eq, Structural)]
pub enum Owner {
    Requestor,
    Provider,
}

/// An agreement id: a logical id shared by both sides, tagged with the
/// role of the side that holds this view of it.
#[derive(Clone, Copy, Debug, PartialEq, Eq, Structural)]
pub struct AgreementId {
    pub logical: u128,
    pub owner: Owner,
}

impl AgreementId {
    /// The same logical agreement, viewed by `owner`.
    pub fn translate(&self, owner: Owner) -> (r: AgreementId)
        ensures
            r.logical == self.logical,
            r.owner == owner,
    {
        AgreementId { logical: self.logical, owner }
    }

    pub fn as_provider(&self) -> (r: AgreementId)
        ensures
            r == (AgreementId { logical: self.logical, owner: Owner::Provider }),
    {
        self.translate(Owner::Provider)
    }

    pub fn as_requestor(&self) -> (r: AgreementId)
        ensures
            r == (AgreementId { logical: self.logical, owner: Owner::Requestor }),
    {
        self.translate(Owner::Requestor)
    }
}

/// Relies on uuid::Uuid::new_v4 (random bits from the operating system),
/// read back as its 128-bit value by uuid::Uuid::as_u128. Nothing is
/// promised of the value. The call panics only if the operating system's
/// random source fails.
#[verifier::external_body]
pub(crate) fn new_logical_id() -> (r: u128) {
    uuid::Uuid::new_v4().as_u128()
}

} // verus!

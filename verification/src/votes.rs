//! Value types for votes and protocol messages, and the record of one
//! participant's current claim.

use vstd::prelude::*;

verus! {

/// The protocol message category carried by a participant's claim: a
/// tentative vote, a certifying vote, or a vote carried into the next period.
#[allow(non_camel_case_types)]
#[derive(PartialEq, Eq, Structural, Clone, Copy, Debug, Hash)]
pub enum MessageType {
    SOFT,
    CERT,
    NEXT,
}

/// A proposed value identifier, or the explicit "no value" sentinel.
#[derive(PartialEq, Eq, Structural, Clone, Copy, Debug, Hash)]
pub enum Vote {
    Value(u64),
    NullVote,
}

/// One participant's current claim: an identity, the current vote and
/// message category, and an authenticity token produced by the external
/// signing collaborator. The token is opaque here: no function of this
/// crate reads its contents.
#[derive(PartialEq, Eq, Clone, Debug)]
pub struct ParticipantRecord {
    pub id: u64,
    pub vote: Vote,
    pub message: MessageType,
    pub token: Vec<u8>,
}

} // verus!

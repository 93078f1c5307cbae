//! One round of a Byzantine-fault-tolerant agreement protocol: tally a
//! snapshot of peer votes, resolve the majority (message-type, vote) pair,
//! decide whether a certification quorum has been reached, and run the
//! five-step transition that updates a participant's own vote.

pub mod votes;
pub mod tally;
pub mod majority;
pub mod steps;

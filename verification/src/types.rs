//! Core data types of the dispute-resolution module.
//!
//! Everything here is a plain value: validators are addressed by their index
//! in the current session snapshot, blocks and candidates by their hash, head
//! data by its raw bytes. Mapping these onto the host chain's concrete key and
//! hash types is the host's concern.

use vstd::prelude::*;

verus! {

/// Binding outcome of a concluded dispute: the candidate was found valid, or
/// proven invalid.
#[derive(Clone, Copy, PartialEq, Eq, Structural, Debug)]
pub enum Verdict {
    Valid,
    Invalid,
}

/// Lifecycle state of one disputed candidate.
///
/// Transitions are one-directional: `Open` may become `Resolved` or
/// `TimedOut`, and nothing ever leaves `Resolved` or `TimedOut`.
#[derive(Clone, Copy, PartialEq, Eq, Structural, Debug)]
pub enum DisputeState {
    /// Votes are still being collected; no verdict yet.
    Open,
    /// A supermajority bound the recorded verdict.
    Resolved(Verdict),
    /// The host timed the dispute out before a verdict was reached.
    TimedOut,
}

/// Everything that can go wrong while driving a dispute.
#[derive(Clone, Copy, PartialEq, Eq, Structural, Debug)]
pub enum DisputeError {
    /// A vote arrived from an index outside the current session snapshot.
    UnknownValidator,
    /// The validator already voted on this candidate; the first vote stands.
    DuplicateVote,
    /// No dispute is registered for this candidate and session.
    UnknownDispute,
    /// A dispute for this candidate is already registered.
    DisputeExists,
    /// The dispute already reached a terminal state.
    AlreadyConcluded,
    /// Both sides reached the supermajority threshold at once. This is
    /// impossible while vote admission and the validator count are sound, so
    /// it signals a broken invariant; the caller must abort rather than pick
    /// a side.
    AmbiguousResolution,
}

/// Running tally of one dispute: votes for the candidate's validity (`pro`)
/// and against it (`cons`).
#[derive(Clone, Copy, PartialEq, Eq, Structural, Debug)]
pub struct DisputeVotes {
    pub pro: usize,
    pub cons: usize,
}

/// Answer of the threshold resolver for one tally.
#[derive(Clone, Copy, PartialEq, Eq, Structural, Debug)]
pub enum TallyOutcome {
    /// Neither side reached the threshold; the dispute stays open.
    Undecided,
    /// One side reached the threshold and the other did not.
    Decided(Verdict),
}

/// Immutable record of a concluded dispute: produced exactly once per
/// candidate, when its verdict binds.
pub struct Resolution {
    /// Hash of the disputed candidate block.
    pub candidate: u64,
    /// Session in which the dispute was raised.
    pub session: u32,
    /// The binding verdict.
    pub verdict: Verdict,
    /// Validator indices selected for punishment.
    pub punished: Vec<u32>,
}

/// Slashing request handed to the external punishment module. This crate only
/// selects the offenders; it never constructs or submits punishment
/// transactions.
pub struct SlashingRequest {
    /// Validator indices to punish.
    pub offenders: Vec<u32>,
    /// Hash of the disputed candidate block.
    pub candidate: u64,
    /// Session in which the dispute was raised.
    pub session: u32,
    /// The verdict that makes them offenders.
    pub verdict: Verdict,
}

/// Events for third-party consumers (indexers, UIs); the core itself never
/// reads them back. The host adapter translates them into its own eventing
/// mechanism.
pub enum Event {
    /// A validator indicated that a previously-included candidate is disputed.
    DisputeIndicated { candidate: u64, session: u32, block_number: u64 },
    /// A dispute concluded with a binding verdict.
    DisputeResolved { candidate: u64, session: u32, verdict: Verdict },
    /// A dispute was timed out by the host without reaching a verdict.
    DisputeTimedOut { candidate: u64, head_data: Vec<u8> },
}

/// What one call of the dispute entry point produced.
pub enum ProcessOutcome {
    /// Neither side has reached the threshold yet; the dispute stays open.
    Undecided,
    /// The dispute had already reached a terminal state earlier; nothing
    /// changes and no second resolution is produced.
    AlreadyConcluded,
    /// The tally bound a verdict. Carries the dispute's resolution, the
    /// slashing request for the external punishment module, and the heads of
    /// the branches the host must prune.
    Resolved { resolution: Resolution, slash: SlashingRequest, pruned: Vec<u64> },
}

/// An availability bitfield as submitted by one validator: one bit per
/// availability core, kept with the block number it was submitted at, since
/// the meaning of the bits may change over time.
pub struct AvailabilityBitfieldRecord {
    pub bitfield: Vec<bool>,
    pub submitted_at: u64,
}

/// A backed candidate pending availability.
pub struct CandidatePendingAvailability {
    /// The availability core this candidate is assigned to.
    pub core: u32,
    /// Hash of the candidate.
    pub candidate_hash: u64,
    /// The parallel chain this candidate belongs to.
    pub para_id: u32,
    /// The received availability votes, one per validator.
    pub availability_votes: Vec<bool>,
    /// Block number of the relay parent of the receipt.
    pub relay_parent_number: u64,
    /// Block number of the relay-chain block this was backed in.
    pub backed_in_number: u64,
}

} // verus!

//! Dispute resolution for previously-included candidate blocks.
//!
//! After a candidate block of a parallel chain has been included, validators
//! may still disagree about whether it was valid. This crate is the
//! Byzantine-fault-tolerant core that settles such disagreements: it records
//! one vote per validator per disputed candidate, decides when a two-thirds
//! supermajority binds a verdict, propagates an `Invalid` verdict to every
//! active chain branch that builds on the disputed block, selects the
//! validators to punish, and carries still-open disputes across session
//! boundaries.
//!
//! Everything the core decides is computed from plain values handed in by the
//! host: the current validator set, the active branch heads with their
//! ancestry, and the set of validators that originally validated the
//! candidate. Signature checking, storage, gossip and the punishment
//! transactions themselves are the host's business.

use vstd::prelude::*;

pub mod forks;
pub mod ledger;
pub mod session;
pub mod slash;
pub mod threshold;
pub mod types;

use crate::forks::{descendant_heads, transplant_to, Blacklist, Branch};
use crate::ledger::{dispute_at, dispute_of, distinct_candidates, has_dispute, VoteLedger};
use crate::session::SessionSnapshot;
use crate::slash::{copy_validator_indices, offender_set, select_offenders};
use crate::threshold::{determine_verdict, spec_threshold};
use crate::types::{
    DisputeError, DisputeState, Event, ProcessOutcome, Resolution, TallyOutcome, Verdict,
};

verus! {

/// The dispute-resolution state machine: the current validator-set snapshot,
/// the vote ledger and the permanent blacklist, driven by the host once per
/// block.
pub struct Disputes {
    /// The validator set of the current session.
    pub snapshot: SessionSnapshot,
    /// One record per disputed candidate, with its running tally.
    pub ledger: VoteLedger,
    /// Block hashes permanently barred from the chain.
    pub blacklist: Blacklist,
}

impl Disputes {
    /// All internal invariants: the snapshot is indexable by `u32` validator
    /// indices, dispute records are keyed by distinct candidate hashes, and
    /// every record's counters agree with its vote list.
    pub open spec fn wf(self) -> bool {
        &&& self.snapshot.wf()
        &&& self.ledger.wf()
    }

    /// A fresh state machine for the given session: no disputes, an empty
    /// blacklist.
    pub fn new(session_index: u32, validators: Vec<u64>) -> (r: Disputes)
        requires
            validators@.len() <= u32::MAX as int,
        ensures
            r.wf(),
            r.snapshot.session_index == session_index,
            r.snapshot.validators@ == validators@,
            r.ledger.disputes@.len() == 0,
            r.blacklist.hashes@.len() == 0,
        {
        Disputes {
            snapshot: SessionSnapshot { session_index, validators },
            ledger: VoteLedger { disputes: Vec::new() },
            blacklist: Blacklist { hashes: Vec::new() },
        }
    }

    /// Block initialization logic, called by the initializer. Dispute
    /// processing is driven entirely by explicit host calls, so nothing
    /// happens here and the consumed weight is zero.
    pub fn initializer_initialize(&self, _now: u64) -> (weight: u64)
        ensures
            weight == 0,
        {
        0
    }

    /// Block finalization logic, called by the initializer. Nothing is
    /// buffered per block, so nothing needs flushing.
    pub fn initializer_finalize(&self) {
    }
}

impl Disputes {
    /// Adjudicate the dispute over `block_hash`, raised in `session`: the
    /// entry point the host runtime calls once per candidate eligible for
    /// adjudication.
    ///
    /// The host injects the current view of its external collaborators: the
    /// active branch heads with their ancestry (from the fork/ancestry
    /// provider) and the validators that originally validated the candidate
    /// at inclusion time (from the session-history lookup, keyed by
    /// `session`).
    ///
    /// Reading the tally against the supermajority threshold of the current
    /// validator-set size, exactly one of the following happens:
    /// - no dispute is registered under this candidate and session:
    ///   `Err(UnknownDispute)`, nothing changes;
    /// - the dispute already concluded: `Ok(AlreadyConcluded)`, nothing
    ///   changes — a resolution is produced at most once;
    /// - neither side reaches the threshold: `Ok(Undecided)`, the dispute
    ///   stays open;
    /// - both sides reach it: `Err(AmbiguousResolution)`, and the operation
    ///   aborts without touching anything — see
    ///   [`threshold::lemma_verdict_exclusive`](crate::threshold::lemma_verdict_exclusive);
    /// - one side reaches it: the dispute moves to `Resolved`, offenders are
    ///   selected, and — for an `Invalid` verdict — the block is barred
    ///   forever and every branch descending from it is reported for
    ///   pruning. Branches not descending from it are untouched, and a
    ///   `Valid` verdict bars and prunes nothing.
    pub fn process_concluded(
        &mut self,
        _block_number: u64,
        block_hash: u64,
        session: u32,
        active_heads: &Vec<Branch>,
        original_validators: &Vec<u32>,
    ) -> (r: Result<ProcessOutcome, DisputeError>)
        requires
            old(self).wf(),
        ensures
            final(self).wf(),
            final(self).snapshot == old(self).snapshot,
            final(self).ledger.disputes@.len() == old(self).ledger.disputes@.len(),
            // votes, tallies and keys never change here; only one record's
            // state may move, one-directionally, from Open to Resolved
            forall|j: int| 0 <= j < old(self).ledger.disputes@.len() ==> ({
                let prev = old(self).ledger.disputes@[j];
                let cur = #[trigger] final(self).ledger.disputes@[j];
                &&& cur.candidate == prev.candidate
                &&& cur.session == prev.session
                &&& cur.opened_at == prev.opened_at
                &&& cur.votes@ == prev.votes@
                &&& cur.pro == prev.pro
                &&& cur.cons == prev.cons
                &&& (!(prev.state is Open) ==> cur.state == prev.state)
            }),
            // the blacklist only ever grows
            old(self).blacklist.hashes@.is_prefix_of(final(self).blacklist.hashes@),
            ({
                let s = old(self).ledger.disputes@;
                let known = has_dispute(s, block_hash) && dispute_of(s, block_hash).session
                    == session;
                let rec = dispute_of(s, block_hash);
                let t = spec_threshold(old(self).snapshot.validators@.len() as int);
                &&& (!known ==> r == Err::<ProcessOutcome, DisputeError>(
                    DisputeError::UnknownDispute,
                ) && *final(self) == *old(self))
                &&& (known && !(rec.state is Open) ==> r == Ok::<ProcessOutcome, DisputeError>(
                    ProcessOutcome::AlreadyConcluded,
                ) && *final(self) == *old(self))
                &&& (known && rec.state is Open && rec.pro < t && rec.cons < t ==> r == Ok::<
                    ProcessOutcome,
                    DisputeError,
                >(ProcessOutcome::Undecided) && *final(self) == *old(self))
                &&& (known && rec.state is Open && rec.pro >= t && rec.cons >= t ==> r == Err::<
                    ProcessOutcome,
                    DisputeError,
                >(DisputeError::AmbiguousResolution) && *final(self) == *old(self))
                &&& (known && rec.state is Open && (rec.pro >= t) != (rec.cons >= t) ==> ({
                    let verdict = if rec.pro >= t {
                        Verdict::Valid
                    } else {
                        Verdict::Invalid
                    };
                    let i = dispute_at(s, block_hash);
                    &&& final(self).ledger.disputes@[i].state == DisputeState::Resolved(verdict)
                    &&& (forall|j: int|
                        0 <= j < s.len() && j != i ==> final(self).ledger.disputes@[j] == s[j])
                    &&& (verdict is Valid ==> final(self).blacklist == old(self).blacklist)
                    &&& (verdict is Invalid ==> final(self).blacklist.hashes@ == old(
                        self,
                    ).blacklist.hashes@.push(block_hash))
                    &&& (r matches Ok(ProcessOutcome::Resolved { resolution, slash, pruned })
                        && ({
                        &&& resolution.candidate == block_hash
                        &&& resolution.session == session
                        &&& resolution.verdict == verdict
                        &&& resolution.punished@ == offender_set(
                            rec.votes@,
                            original_validators@,
                            verdict,
                        )
                        &&& slash.offenders@ == resolution.punished@
                        &&& slash.candidate == block_hash
                        &&& slash.session == session
                        &&& slash.verdict == verdict
                        &&& (verdict is Valid ==> pruned@.len() == 0)
                        &&& (verdict is Invalid ==> pruned@ == descendant_heads(
                            active_heads@,
                            block_hash,
                        ))
                    }))
                }))
            }),
        {
        let n = self.snapshot.validators.len();
        let idx = match self.find_dispute(block_hash) {
            None => { return Err(DisputeError::UnknownDispute) },
            Some(i) => i,
        };
        if self.ledger.disputes[idx].session != session {
            return Err(DisputeError::UnknownDispute);
        }
        match self.ledger.disputes[idx].state {
            DisputeState::Open => {},
            _ => { return Ok(ProcessOutcome::AlreadyConcluded) },
        }
        let pro_count = self.ledger.disputes[idx].pro;
        let cons_count = self.ledger.disputes[idx].cons;
        let verdict = match determine_verdict(pro_count, cons_count, n) {
            Err(e) => { return Err(e) },
            Ok(TallyOutcome::Undecided) => { return Ok(ProcessOutcome::Undecided) },
            Ok(TallyOutcome::Decided(v)) => v,
        };
        let slash = select_offenders(verdict, &self.ledger.disputes[idx], original_validators);
        let punished = copy_validator_indices(&slash.offenders);
        let resolution = Resolution { candidate: block_hash, session, verdict, punished };
        let pruned: Vec<u64> = match verdict {
            Verdict::Invalid => {
                let mut burnt: Vec<u64> = Vec::new();
                burnt.push(block_hash);
                self.blacklist.extend_blacklist(&burnt);
                proof {
                    assert(old(self).blacklist.hashes@ + burnt@ =~= old(
                        self,
                    ).blacklist.hashes@.push(block_hash));
                }
                transplant_to(&resolution, active_heads)
            },
            Verdict::Valid => Vec::new(),
        };
        let ghost old_seq = old(self).ledger.disputes@;
        let mut rec = self.ledger.disputes.remove(idx);
        rec.state = DisputeState::Resolved(verdict);
        let ghost new_rec = rec;
        self.ledger.disputes.insert(idx, rec);
        proof {
            assert(old_seq[idx as int].wf());
            assert(self.ledger.disputes@ =~= old_seq.update(idx as int, new_rec));
            assert forall|a: int, b: int|
                0 <= a < b < self.ledger.disputes@.len() implies self.ledger.disputes@[a].candidate
                != self.ledger.disputes@[b].candidate by {
                assert(old_seq[a].candidate != old_seq[b].candidate);
            }
            assert(distinct_candidates(self.ledger.disputes@));
            assert forall|i: int|
                0 <= i < self.ledger.disputes@.len() implies (#[trigger] self.ledger.disputes@[i]).wf() by {
                if i != idx as int {
                    assert(old_seq[i].wf());
                }
            }
            assert(old(self).blacklist.hashes@.is_prefix_of(self.blacklist.hashes@));
        }
        Ok(ProcessOutcome::Resolved { resolution, slash, pruned })
    }

    /// The event the host emits for a freshly produced resolution.
    pub fn resolution_event(resolution: &Resolution) -> (e: Event)
        ensures
            e == (Event::DisputeResolved {
                candidate: resolution.candidate,
                session: resolution.session,
                verdict: resolution.verdict,
            }),
        {
        Event::DisputeResolved {
            candidate: resolution.candidate,
            session: resolution.session,
            verdict: resolution.verdict,
        }
    }
}

} // verus!

//! VoteLedger: one vote per validator per disputed candidate, with running
//! pro/against counters so the tally of a dispute is read in constant time
//! rather than by scanning the votes — validator sets can be large.
//!
//! Which vote sources count toward a dispute is a policy decision. The policy
//! here: only votes explicitly submitted through [`Disputes::submit_vote`]
//! count; backing and approval statements from other subsystems are not
//! imported.

use vstd::prelude::*;

use crate::types::{DisputeError, DisputeState, DisputeVotes, Event};
use crate::Disputes;

verus! {

/// One validator's stance on one candidate: `pro` is true when the validator
/// attests the candidate as valid.
#[derive(Clone, Copy, PartialEq, Eq, Structural)]
pub struct VoteEntry {
    pub validator: u32,
    pub pro: bool,
}

/// Lifecycle record of one disputed candidate: its votes, the maintained
/// counters and its state.
pub struct DisputeRecord {
    /// Hash of the disputed candidate block.
    pub candidate: u64,
    /// Session in which the dispute was raised.
    pub session: u32,
    /// Block number at which the dispute was indicated.
    pub opened_at: u64,
    /// Every vote cast so far, in arrival order; at most one per validator.
    pub votes: Vec<VoteEntry>,
    /// Number of votes attesting the candidate as valid.
    pub pro: usize,
    /// Number of votes attesting the candidate as invalid.
    pub cons: usize,
    /// Where the dispute stands in its one-directional lifecycle.
    pub state: DisputeState,
}

/// The validator indices among `votes` that voted `pro`, in vote order.
pub open spec fn voters_with(votes: Seq<VoteEntry>, pro: bool) -> Seq<u32>
    decreases votes.len(),
{
    if votes.len() == 0 {
        Seq::empty()
    } else {
        let rest = voters_with(votes.drop_last(), pro);
        if votes.last().pro == pro {
            rest.push(votes.last().validator)
        } else {
            rest
        }
    }
}

/// How many of `votes` side with `pro`.
pub open spec fn count_votes(votes: Seq<VoteEntry>, pro: bool) -> int {
    voters_with(votes, pro).len() as int
}

/// No validator occurs twice: the first vote is authoritative, a second one
/// is never admitted.
pub open spec fn distinct_validators(votes: Seq<VoteEntry>) -> bool {
    forall|i: int, j: int|
        #![trigger votes[i].validator, votes[j].validator]
        0 <= i < j < votes.len() ==> votes[i].validator != votes[j].validator
}

/// Whether `validator` already cast a vote among `votes`.
pub open spec fn has_voted(votes: Seq<VoteEntry>, validator: u32) -> bool {
    exists|i: int| 0 <= i < votes.len() && #[trigger] votes[i].validator == validator
}

impl DisputeRecord {
    /// Counters agree with the vote list and no validator voted twice.
    pub open spec fn wf(self) -> bool {
        &&& distinct_validators(self.votes@)
        &&& self.pro == count_votes(self.votes@, true)
        &&& self.cons == count_votes(self.votes@, false)
    }

    /// The validators that attested the disputed candidate as valid.
    pub fn validators_pro(&self) -> (r: Vec<u32>)
        ensures
            r@ == voters_with(self.votes@, true),
        {
        collect_voters(&self.votes, true)
    }

    /// The validators that attested the disputed candidate as invalid.
    pub fn validators_cons(&self) -> (r: Vec<u32>)
        ensures
            r@ == voters_with(self.votes@, false),
        {
        collect_voters(&self.votes, false)
    }
}

/// Every vote is on one of the two sides.
pub proof fn lemma_count_votes_total(votes: Seq<VoteEntry>)
    ensures
        count_votes(votes, true) + count_votes(votes, false) == votes.len(),
    decreases votes.len(),
{
    if votes.len() > 0 {
        lemma_count_votes_total(votes.drop_last());
    }
}

/// A validator index is listed among the `pro`-siders exactly when it cast a
/// vote with that stance.
pub proof fn lemma_voters_with_membership(votes: Seq<VoteEntry>, pro: bool, validator: u32)
    ensures
        voters_with(votes, pro).contains(validator) <==> exists|i: int|
            0 <= i < votes.len() && #[trigger] votes[i].validator == validator && votes[i].pro
                == pro,
    decreases votes.len(),
{
    if votes.len() > 0 {
        let prefix = votes.drop_last();
        let last = votes.last();
        lemma_voters_with_membership(prefix, pro, validator);
        let prev = voters_with(prefix, pro);
        let cur = voters_with(votes, pro);
        assert(forall|i: int| 0 <= i < prefix.len() ==> prefix[i] == votes[i]);
        if cur.contains(validator) {
            let k = choose|k: int| 0 <= k < cur.len() && cur[k] == validator;
            if last.pro == pro && k == prev.len() {
                assert(votes[votes.len() - 1].validator == validator && votes[votes.len() - 1].pro
                    == pro);
            } else {
                assert(prev[k] == validator);
                assert(prev.contains(validator));
            }
        }
        if exists|i: int|
            0 <= i < votes.len() && #[trigger] votes[i].validator == validator && votes[i].pro
                == pro {
            let i = choose|i: int|
                0 <= i < votes.len() && #[trigger] votes[i].validator == validator && votes[i].pro
                    == pro;
            if i < votes.len() - 1 {
                assert(prefix[i].validator == validator && prefix[i].pro == pro);
                assert(prev.contains(validator));
                let k = choose|k: int| 0 <= k < prev.len() && prev[k] == validator;
                assert(cur[k] == validator);
                assert(cur.contains(validator));
            } else {
                assert(cur[cur.len() - 1] == validator);
                assert(cur.contains(validator));
            }
        }
    }
}

/// With at most one vote per validator, nobody is counted on both sides.
pub proof fn lemma_opposing_voters_disjoint(votes: Seq<VoteEntry>)
    requires
        distinct_validators(votes),
    ensures
        forall|v: u32|
            !(#[trigger] voters_with(votes, true).contains(v) && voters_with(
                votes,
                false,
            ).contains(v)),
{
    assert forall|v: u32|
        !(#[trigger] voters_with(votes, true).contains(v) && voters_with(
            votes,
            false,
        ).contains(v)) by {
        lemma_voters_with_membership(votes, true, v);
        lemma_voters_with_membership(votes, false, v);
        if voters_with(votes, true).contains(v) && voters_with(votes, false).contains(v) {
            let i = choose|i: int|
                0 <= i < votes.len() && #[trigger] votes[i].validator == v && votes[i].pro == true;
            let j = choose|j: int|
                0 <= j < votes.len() && #[trigger] votes[j].validator == v && votes[j].pro == false;
            assert(i != j);
            assert(votes[i].validator != votes[j].validator);
        }
    }
}


/// All dispute records, keyed by the hash of their disputed candidate.
pub struct VoteLedger {
    pub disputes: Vec<DisputeRecord>,
}

/// Whether the ledger sequence holds a record for `candidate`.
pub open spec fn has_dispute(s: Seq<DisputeRecord>, candidate: u64) -> bool {
    exists|i: int| 0 <= i < s.len() && #[trigger] s[i].candidate == candidate
}

/// Index of the record for `candidate`; meaningful only when `has_dispute`
/// holds (candidates are distinct in a well-formed ledger, so it is unique).
pub open spec fn dispute_at(s: Seq<DisputeRecord>, candidate: u64) -> int {
    choose|i: int| 0 <= i < s.len() && #[trigger] s[i].candidate == candidate
}

/// The record for `candidate`; meaningful only when `has_dispute` holds.
pub open spec fn dispute_of(s: Seq<DisputeRecord>, candidate: u64) -> DisputeRecord {
    s[dispute_at(s, candidate)]
}

/// Every candidate hash keys at most one record.
pub open spec fn distinct_candidates(s: Seq<DisputeRecord>) -> bool {
    forall|i: int, j: int|
        #![trigger s[i].candidate, s[j].candidate]
        0 <= i < j < s.len() ==> s[i].candidate != s[j].candidate
}

/// Every record's counters agree with its votes.
pub open spec fn records_wf(s: Seq<DisputeRecord>) -> bool {
    forall|i: int| 0 <= i < s.len() ==> (#[trigger] s[i]).wf()
}

impl VoteLedger {
    /// Candidates are distinct keys and every record is well-formed.
    pub open spec fn wf(self) -> bool {
        &&& distinct_candidates(self.disputes@)
        &&& records_wf(self.disputes@)
    }
}

/// In a ledger with distinct candidates, any index holding `candidate` is
/// the one `dispute_at` picks.
pub proof fn lemma_dispute_at_unique(s: Seq<DisputeRecord>, candidate: u64, i: int)
    requires
        distinct_candidates(s),
        0 <= i < s.len(),
        s[i].candidate == candidate,
    ensures
        has_dispute(s, candidate),
        dispute_at(s, candidate) == i,
{
    assert(has_dispute(s, candidate));
    let k = dispute_at(s, candidate);
    if k < i {
        assert(s[k].candidate != s[i].candidate);
    } else if k > i {
        assert(s[i].candidate != s[k].candidate);
    }
}

/// The validator indices among `votes` siding with `pro`, in vote order.
fn collect_voters(votes: &Vec<VoteEntry>, pro: bool) -> (r: Vec<u32>)
    ensures
        r@ == voters_with(votes@, pro),
    {
    let mut r: Vec<u32> = Vec::new();
    let mut i: usize = 0;
    while i < votes.len()
        invariant
            i <= votes@.len(),
            r@ == voters_with(votes@.take(i as int), pro),
        decreases votes@.len() - i,
    {
        proof {
            assert(votes@.take(i as int + 1).drop_last() =~= votes@.take(i as int));
            assert(votes@.take(i as int + 1).last() == votes@[i as int]);
        }
        if votes[i].pro == pro {
            r.push(votes[i].validator);
        }
        i += 1;
    }
    proof {
        assert(votes@.take(votes@.len() as int) =~= votes@);
    }
    r
}

/// Whether `validator` already cast a vote among `votes`.
fn contains_vote_from(votes: &Vec<VoteEntry>, validator: u32) -> (r: bool)
    ensures
        r == has_voted(votes@, validator),
    {
    let mut i: usize = 0;
    while i < votes.len()
        invariant
            i <= votes@.len(),
            forall|j: int| 0 <= j < i ==> #[trigger] votes@[j].validator != validator,
        decreases votes@.len() - i,
    {
        if votes[i].validator == validator {
            return true;
        }
        i += 1;
    }
    false
}

impl Disputes {
    /// Index of the ledger record for `candidate`, if any.
    pub(crate) fn find_dispute(&self, candidate: u64) -> (r: Option<usize>)
        requires
            self.wf(),
        ensures
            match r {
                Some(i) => {
                    &&& i < self.ledger.disputes@.len()
                    &&& self.ledger.disputes@[i as int].candidate == candidate
                    &&& has_dispute(self.ledger.disputes@, candidate)
                    &&& dispute_at(self.ledger.disputes@, candidate) == i
                },
                None => !has_dispute(self.ledger.disputes@, candidate),
            },
        {
        let mut i: usize = 0;
        while i < self.ledger.disputes.len()
            invariant
                self.wf(),
                i <= self.ledger.disputes@.len(),
                forall|j: int| 0 <= j < i ==> #[trigger] self.ledger.disputes@[j].candidate
                    != candidate,
            decreases self.ledger.disputes@.len() - i,
        {
            if self.ledger.disputes[i].candidate == candidate {
                proof {
                    lemma_dispute_at_unique(self.ledger.disputes@, candidate, i as int);
                }
                return Some(i);
            }
            i += 1;
        }
        None
    }

    /// Register a dispute for `candidate`, signaled by the external checking
    /// subsystem at block `block_number`. At most one dispute exists per
    /// candidate: a second indication is rejected and changes nothing.
    pub fn indicate_dispute(&mut self, candidate: u64, session: u32, block_number: u64) -> (r:
        Result<Event, DisputeError>)
        requires
            old(self).wf(),
        ensures
            final(self).wf(),
            final(self).snapshot == old(self).snapshot,
            final(self).blacklist == old(self).blacklist,
            has_dispute(old(self).ledger.disputes@, candidate) ==> r == Err::<Event, DisputeError>(DisputeError::DisputeExists) && *final(self) == *old(self),
            !has_dispute(old(self).ledger.disputes@, candidate) ==> ({
                let s = final(self).ledger.disputes@;
                &&& r == Ok::<Event, DisputeError>(Event::DisputeIndicated { candidate, session, block_number })
                &&& s.len() == old(self).ledger.disputes@.len() + 1
                &&& forall|j: int| 0 <= j < old(self).ledger.disputes@.len() ==> s[j] == old(
                    self,
                ).ledger.disputes@[j]
                &&& s.last().candidate == candidate
                &&& s.last().session == session
                &&& s.last().opened_at == block_number
                &&& s.last().votes@.len() == 0
                &&& s.last().pro == 0
                &&& s.last().cons == 0
                &&& s.last().state is Open
            }),
        {
        match self.find_dispute(candidate) {
            Some(_) => Err(DisputeError::DisputeExists),
            None => {
                let record = DisputeRecord {
                    candidate,
                    session,
                    opened_at: block_number,
                    votes: Vec::new(),
                    pro: 0,
                    cons: 0,
                    state: DisputeState::Open,
                };
                self.ledger.disputes.push(record);
                Ok(Event::DisputeIndicated { candidate, session, block_number })
            },
        }
    }
}

/// The first rejection that applies to a vote, if any: an unknown validator
/// index, an unregistered (candidate, session) pair, a concluded dispute, or
/// a duplicate vote — in that order of precedence.
pub open spec fn vote_error(s: crate::Disputes, validator: u32, candidate: u64, session: u32) -> Option<DisputeError> {
    if validator as int >= s.snapshot.validators@.len() {
        Some(DisputeError::UnknownValidator)
    } else if !has_dispute(s.ledger.disputes@, candidate) {
        Some(DisputeError::UnknownDispute)
    } else if dispute_of(s.ledger.disputes@, candidate).session != session {
        Some(DisputeError::UnknownDispute)
    } else if !(dispute_of(s.ledger.disputes@, candidate).state is Open) {
        Some(DisputeError::AlreadyConcluded)
    } else if has_voted(dispute_of(s.ledger.disputes@, candidate).votes@, validator) {
        Some(DisputeError::DuplicateVote)
    } else {
        None
    }
}

impl Disputes {
    /// Record one validator's vote on one disputed candidate.
    ///
    /// The vote is rejected with `UnknownValidator` when the index is outside
    /// the current session snapshot, with `UnknownDispute` when no dispute is
    /// registered under this candidate and session, with `AlreadyConcluded`
    /// when the dispute reached a terminal state — further votes never change
    /// a concluded verdict — and with `DuplicateVote` when this validator
    /// already voted here: the first vote is authoritative, there is no
    /// overwrite. A rejected vote mutates nothing. An admitted vote appends
    /// one entry, bumps the matching counter and returns the updated tally.
    /// This is the only mutator of a dispute's tally.
    pub fn submit_vote(&mut self, validator: u32, candidate: u64, session: u32, pro: bool) -> (r:
        Result<DisputeVotes, DisputeError>)
        requires
            old(self).wf(),
        ensures
            final(self).wf(),
            final(self).snapshot == old(self).snapshot,
            final(self).blacklist == old(self).blacklist,
            final(self).ledger.disputes@.len() == old(self).ledger.disputes@.len(),
            // keys, sessions and lifecycle states are untouched by voting
            forall|j: int| 0 <= j < old(self).ledger.disputes@.len() ==> ({
                let prev = old(self).ledger.disputes@[j];
                let cur = #[trigger] final(self).ledger.disputes@[j];
                &&& cur.candidate == prev.candidate
                &&& cur.session == prev.session
                &&& cur.state == prev.state
                &&& cur.opened_at == prev.opened_at
            }),
            // a rejected vote changes nothing, and the error says exactly why
            vote_error(*old(self), validator, candidate, session) matches Some(e) ==> r == Err::<
                DisputeVotes,
                DisputeError,
            >(e) && *final(self) == *old(self),
            // once a dispute has concluded, further votes leave it untouched
            has_dispute(old(self).ledger.disputes@, candidate) && !(dispute_of(
                old(self).ledger.disputes@,
                candidate,
            ).state is Open) ==> *final(self) == *old(self),
            // an admitted vote appends one entry and bumps one counter
            vote_error(*old(self), validator, candidate, session) is None ==> ({
                let i = dispute_at(old(self).ledger.disputes@, candidate);
                let prev = old(self).ledger.disputes@[i];
                let cur = final(self).ledger.disputes@[i];
                &&& forall|j: int|
                    0 <= j < old(self).ledger.disputes@.len() && j != i
                        ==> final(self).ledger.disputes@[j] == old(self).ledger.disputes@[j]
                &&& cur.votes@ == prev.votes@.push((VoteEntry { validator, pro }))
                &&& cur.pro as int == prev.pro as int + (if pro { 1int } else { 0int })
                &&& cur.cons as int == prev.cons as int + (if pro { 0int } else { 1int })
                &&& r == Ok::<DisputeVotes, DisputeError>((DisputeVotes { pro: cur.pro, cons: cur.cons }))
            }),
        {
        if validator as usize >= self.snapshot.validators.len() {
            return Err(DisputeError::UnknownValidator);
        }
        let idx = match self.find_dispute(candidate) {
            None => { return Err(DisputeError::UnknownDispute) },
            Some(i) => i,
        };
        if self.ledger.disputes[idx].session != session {
            return Err(DisputeError::UnknownDispute);
        }
        match self.ledger.disputes[idx].state {
            DisputeState::Open => {},
            _ => { return Err(DisputeError::AlreadyConcluded) },
        }
        if contains_vote_from(&self.ledger.disputes[idx].votes, validator) {
            return Err(DisputeError::DuplicateVote);
        }
        let ghost old_seq = self.ledger.disputes@;
        let ghost old_rec = old_seq[idx as int];
        proof {
            assert(old_seq[idx as int].wf());
        }
        let mut rec = self.ledger.disputes.remove(idx);
        proof {
            lemma_count_votes_total(rec.votes@);
        }
        rec.votes.push(VoteEntry { validator, pro });
        let new_len: usize = rec.votes.len();
        proof {
            assert(rec.votes@.drop_last() =~= old_rec.votes@);
            assert(forall|j: int|
                0 <= j < old_rec.votes@.len() ==> #[trigger] old_rec.votes@[j].validator
                    != validator);
            assert forall|a: int, b: int|
                0 <= a < b < rec.votes@.len() implies rec.votes@[a].validator
                != rec.votes@[b].validator by {
                assert(rec.votes@[a] == old_rec.votes@[a]);
                if b < rec.votes@.len() - 1 {
                    assert(rec.votes@[b] == old_rec.votes@[b]);
                }
            }
            assert(distinct_validators(rec.votes@));
            // both counters stay below the vote count, so the bump cannot
            // overflow
            assert(rec.pro + rec.cons < new_len);
        }
        if pro {
            rec.pro = rec.pro + 1;
        } else {
            rec.cons = rec.cons + 1;
        }
        let result = DisputeVotes { pro: rec.pro, cons: rec.cons };
        let ghost new_rec = rec;
        proof {
            assert(rec.wf());
        }
        self.ledger.disputes.insert(idx, rec);
        proof {
            assert(self.ledger.disputes@ =~= old_seq.update(idx as int, new_rec));
            assert forall|a: int, b: int|
                0 <= a < b < self.ledger.disputes@.len() implies self.ledger.disputes@[a].candidate
                != self.ledger.disputes@[b].candidate by {
                assert(old_seq[a].candidate != old_seq[b].candidate);
            }
            assert(distinct_candidates(self.ledger.disputes@));
            assert forall|i: int|
                0 <= i < self.ledger.disputes@.len() implies (#[trigger] self.ledger.disputes@[i]).wf() by {
                if i != idx as int {
                    assert(old_seq[i].wf());
                }
            }
        }
        Ok(result)
    }

    /// Current `(pro, against)` counts for `candidate`, read from the
    /// maintained counters — no scan of the votes, which matters because
    /// validator sets can be large.
    pub fn tally(&self, candidate: u64) -> (r: Option<DisputeVotes>)
        requires
            self.wf(),
        ensures
            match r {
                Some(v) => {
                    &&& has_dispute(self.ledger.disputes@, candidate)
                    &&& v.pro as int == count_votes(
                        dispute_of(self.ledger.disputes@, candidate).votes@,
                        true,
                    )
                    &&& v.cons as int == count_votes(
                        dispute_of(self.ledger.disputes@, candidate).votes@,
                        false,
                    )
                },
                None => !has_dispute(self.ledger.disputes@, candidate),
            },
        {
        match self.find_dispute(candidate) {
            None => None,
            Some(i) => {
                proof {
                    assert(self.ledger.disputes@[i as int].wf());
                }
                Some(
                    DisputeVotes {
                        pro: self.ledger.disputes[i].pro,
                        cons: self.ledger.disputes[i].cons,
                    },
                )
            },
        }
    }

    /// Check all of the known votes for that block: the tally of its dispute,
    /// or zero on both sides when no dispute is registered for it.
    pub fn count_pro_and_cons_votes(&self, block: u64) -> (r: DisputeVotes)
        requires
            self.wf(),
        ensures
            has_dispute(self.ledger.disputes@, block) ==> r.pro as int == count_votes(
                dispute_of(self.ledger.disputes@, block).votes@,
                true,
            ) && r.cons as int == count_votes(dispute_of(self.ledger.disputes@, block).votes@, false),
            !has_dispute(self.ledger.disputes@, block) ==> r.pro == 0 && r.cons == 0,
        {
        match self.tally(block) {
            Some(v) => v,
            None => DisputeVotes { pro: 0, cons: 0 },
        }
    }

    /// Time the dispute for `candidate` out: the host triggers this when the
    /// configured number of blocks elapsed without a verdict. Terminal and
    /// verdict-free; only an open dispute can time out.
    pub fn time_out_dispute(&mut self, candidate: u64, head_data: Vec<u8>) -> (r: Result<
        Event,
        DisputeError,
    >)
        requires
            old(self).wf(),
        ensures
            final(self).wf(),
            final(self).snapshot == old(self).snapshot,
            final(self).blacklist == old(self).blacklist,
            !has_dispute(old(self).ledger.disputes@, candidate) ==> r == Err::<Event, DisputeError>(
                DisputeError::UnknownDispute,
            ) && *final(self) == *old(self),
            has_dispute(old(self).ledger.disputes@, candidate) && !(dispute_of(
                old(self).ledger.disputes@,
                candidate,
            ).state is Open) ==> r == Err::<Event, DisputeError>(DisputeError::AlreadyConcluded)
                && *final(self) == *old(self),
            has_dispute(old(self).ledger.disputes@, candidate) && dispute_of(
                old(self).ledger.disputes@,
                candidate,
            ).state is Open ==> ({
                let i = dispute_at(old(self).ledger.disputes@, candidate);
                let prev = old(self).ledger.disputes@[i];
                let cur = final(self).ledger.disputes@[i];
                &&& r == Ok::<Event, DisputeError>(Event::DisputeTimedOut { candidate, head_data })
                &&& final(self).ledger.disputes@.len() == old(self).ledger.disputes@.len()
                &&& forall|j: int|
                    0 <= j < old(self).ledger.disputes@.len() && j != i
                        ==> final(self).ledger.disputes@[j] == old(self).ledger.disputes@[j]
                &&& cur.state is TimedOut
                &&& cur.candidate == prev.candidate
                &&& cur.session == prev.session
                &&& cur.opened_at == prev.opened_at
                &&& cur.votes@ == prev.votes@
                &&& cur.pro == prev.pro
                &&& cur.cons == prev.cons
            }),
        {
        let idx = match self.find_dispute(candidate) {
            None => { return Err(DisputeError::UnknownDispute) },
            Some(i) => i,
        };
        match self.ledger.disputes[idx].state {
            DisputeState::Open => {},
            _ => { return Err(DisputeError::AlreadyConcluded) },
        }
        let ghost old_seq = self.ledger.disputes@;
        proof {
            assert(old_seq[idx as int].wf());
        }
        let mut rec = self.ledger.disputes.remove(idx);
        rec.state = DisputeState::TimedOut;
        let ghost new_rec = rec;
        self.ledger.disputes.insert(idx, rec);
        proof {
            assert(self.ledger.disputes@ =~= old_seq.update(idx as int, new_rec));
            assert forall|a: int, b: int|
                0 <= a < b < self.ledger.disputes@.len() implies self.ledger.disputes@[a].candidate
                != self.ledger.disputes@[b].candidate by {
                assert(old_seq[a].candidate != old_seq[b].candidate);
            }
            assert(distinct_candidates(self.ledger.disputes@));
            assert forall|i: int|
                0 <= i < self.ledger.disputes@.len() implies (#[trigger] self.ledger.disputes@[i]).wf() by {
                if i != idx as int {
                    assert(old_seq[i].wf());
                }
            }
        }
        Ok(Event::DisputeTimedOut { candidate, head_data })
    }
}

} // verus!

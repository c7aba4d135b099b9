//! SessionCoordinator: session-boundary transitions — the validator-set
//! snapshot is replaced atomically, and the vote ledger's retention policy is
//! applied.

use vstd::prelude::*;

use crate::ledger::{distinct_candidates, has_dispute, records_wf, DisputeRecord};
use crate::types::DisputeState;
use crate::Disputes;

verus! {

/// The active validator set of the current session. Exactly one snapshot is
/// live at a time; it is replaced atomically at session rollover.
pub struct SessionSnapshot {
    /// Index of the session this snapshot belongs to.
    pub session_index: u32,
    /// Ordered validator identities; a validator index is a position in this
    /// list.
    pub validators: Vec<u64>,
}

impl SessionSnapshot {
    /// Validator indices are `u32`, so a usable snapshot never holds more
    /// validators than a `u32` can address.
    pub open spec fn wf(self) -> bool {
        self.validators@.len() <= u32::MAX as int
    }
}

/// What the host delivers once per session boundary: the new session's index
/// and validator set.
pub struct SessionChangeNotification {
    pub session_index: u32,
    pub validators: Vec<u64>,
}

/// The records among `s` whose dispute is still open, in order: what the
/// retention policy keeps across a session boundary.
pub open spec fn open_records(s: Seq<DisputeRecord>) -> Seq<DisputeRecord>
    decreases s.len(),
{
    if s.len() == 0 {
        Seq::empty()
    } else {
        let rest = open_records(s.drop_last());
        if s.last().state is Open {
            rest.push(s.last())
        } else {
            rest
        }
    }
}

/// Whether `r` occurs among the records `s`.
pub open spec fn appears_in(r: DisputeRecord, s: Seq<DisputeRecord>) -> bool {
    exists|m: int| 0 <= m < s.len() && s[m] == r
}

/// What retention keeps: `open_records` preserves well-formedness and key
/// distinctness, keeps only open records, invents none, and keeps every open
/// record of the source.
pub proof fn lemma_open_records_shape(s: Seq<DisputeRecord>)
    requires
        distinct_candidates(s),
        records_wf(s),
    ensures
        distinct_candidates(open_records(s)),
        records_wf(open_records(s)),
        forall|k: int|
            0 <= k < open_records(s).len() ==> (#[trigger] open_records(s)[k]).state is Open,
        forall|k: int|
            0 <= k < open_records(s).len() ==> appears_in(#[trigger] open_records(s)[k], s),
        forall|k: int|
            0 <= k < s.len() && (#[trigger] s[k]).state is Open ==> open_records(s).contains(s[k]),
    decreases s.len(),
{
    if s.len() > 0 {
        let prefix = s.drop_last();
        assert(forall|i: int| 0 <= i < prefix.len() ==> prefix[i] == s[i]);
        assert forall|a: int, b: int|
            0 <= a < b < prefix.len() implies prefix[a].candidate != prefix[b].candidate by {
            assert(s[a].candidate != s[b].candidate);
        }
        assert forall|a: int| 0 <= a < prefix.len() implies (#[trigger] prefix[a]).wf() by {
            assert(s[a].wf());
        }
        lemma_open_records_shape(prefix);
        let prev = open_records(prefix);
        let cur = open_records(s);
        let last = s.last();
        assert(last == s[s.len() - 1]);
        assert(last.wf());
        // everything listed for the prefix appears in `s` as well
        assert forall|k: int| 0 <= k < prev.len() implies appears_in(#[trigger] prev[k], s) by {
            let m = choose|m: int| 0 <= m < prefix.len() && prefix[m] == prev[k];
            assert(s[m] == prev[k]);
        }
        if last.state is Open {
            assert(cur == prev.push(last));
            assert forall|a: int, b: int|
                0 <= a < b < cur.len() implies cur[a].candidate != cur[b].candidate by {
                if b < prev.len() {
                    assert(prev[a].candidate != prev[b].candidate);
                } else {
                    assert(cur[b] == last);
                    assert(cur[a] == prev[a]);
                    let m = choose|m: int| 0 <= m < prefix.len() && prefix[m] == prev[a];
                    assert(s[m].candidate != s[s.len() - 1].candidate);
                }
            }
            assert forall|k: int|
                0 <= k < s.len() && (#[trigger] s[k]).state is Open implies cur.contains(s[k]) by {
                if k < s.len() - 1 {
                    assert(prefix[k].state is Open);
                    assert(prev.contains(prefix[k]));
                    let m = choose|m: int| 0 <= m < prev.len() && prev[m] == prefix[k];
                    assert(cur[m] == s[k]);
                } else {
                    assert(cur[cur.len() - 1] == s[k]);
                }
            }
        } else {
            assert(cur == prev);
            assert forall|k: int|
                0 <= k < s.len() && (#[trigger] s[k]).state is Open implies cur.contains(s[k]) by {
                assert(k < s.len() - 1);
                assert(prefix[k].state is Open);
                assert(prev.contains(prefix[k]));
                let m = choose|m: int| 0 <= m < prev.len() && prev[m] == prefix[k];
                assert(cur[m] == s[k]);
            }
        }
    }
}

impl Disputes {
    /// Handle an incoming session change: atomically replace the validator
    /// snapshot and apply the retention policy to the vote ledger.
    ///
    /// Still-open disputes are retained with their votes and tallies
    /// untouched — they will be matched against the new session's votes —
    /// while the vote state of concluded (Resolved or TimedOut) disputes is
    /// purged. Draining every record here regardless of its state would
    /// silently abandon live disputes, so only concluded ones go. The
    /// blacklist is permanent and survives every rollover.
    pub fn initializer_on_new_session(&mut self, notification: SessionChangeNotification)
        requires
            old(self).wf(),
            notification.validators@.len() <= u32::MAX as int,
        ensures
            final(self).wf(),
            final(self).snapshot.session_index == notification.session_index,
            final(self).snapshot.validators@ == notification.validators@,
            final(self).blacklist == old(self).blacklist,
            // exactly the still-open records survive, in order, unchanged
            final(self).ledger.disputes@ == open_records(old(self).ledger.disputes@),
            // an open dispute of the closed session keeps its prior tally
            forall|k: int|
                0 <= k < old(self).ledger.disputes@.len() && (#[trigger] old(
                    self,
                ).ledger.disputes@[k]).state is Open ==> final(self).ledger.disputes@.contains(
                    old(self).ledger.disputes@[k],
                ),
            // concluded disputes leave no vote state behind
            forall|k: int|
                0 <= k < old(self).ledger.disputes@.len() && !((#[trigger] old(
                    self,
                ).ledger.disputes@[k]).state is Open) ==> !has_dispute(
                    final(self).ledger.disputes@,
                    old(self).ledger.disputes@[k].candidate,
                ),
        {
        let ghost orig = self.ledger.disputes@;
        let mut kept: Vec<DisputeRecord> = Vec::new();
        while self.ledger.disputes.len() > 0
            invariant
                self.blacklist == old(self).blacklist,
                self.snapshot == old(self).snapshot,
                self.ledger.disputes@.len() <= orig.len(),
                self.ledger.disputes@ == orig.skip(orig.len() - self.ledger.disputes@.len()),
                kept@ == open_records(orig.take(orig.len() - self.ledger.disputes@.len())),
            decreases self.ledger.disputes@.len(),
        {
            let ghost k = orig.len() - self.ledger.disputes@.len();
            let rec = self.ledger.disputes.remove(0);
            proof {
                assert(rec == orig[k]);
                assert(self.ledger.disputes@ =~= orig.skip(k + 1));
                assert(orig.take(k + 1).drop_last() =~= orig.take(k));
                assert(orig.take(k + 1).last() == orig[k]);
            }
            let keep = match rec.state {
                DisputeState::Open => true,
                _ => false,
            };
            if keep {
                kept.push(rec);
            }
        }
        proof {
            assert(orig.take(orig.len() as int) =~= orig);
        }
        self.ledger.disputes = kept;
        self.snapshot = SessionSnapshot {
            session_index: notification.session_index,
            validators: notification.validators,
        };
        proof {
            lemma_open_records_shape(orig);
            let open = open_records(orig);
            assert forall|k: int|
                0 <= k < orig.len() && !((#[trigger] orig[k]).state is Open) implies !has_dispute(
                open,
                orig[k].candidate,
            ) by {
                if has_dispute(open, orig[k].candidate) {
                    let j = choose|j: int|
                        0 <= j < open.len() && #[trigger] open[j].candidate == orig[k].candidate;
                    assert(open[j].state is Open);
                    let m = choose|m: int| 0 <= m < orig.len() && orig[m] == open[j];
                    assert(m != k);
                    if m < k {
                        assert(orig[m].candidate != orig[k].candidate);
                    } else {
                        assert(orig[k].candidate != orig[m].candidate);
                    }
                }
            }
        }
    }
}

} // verus!

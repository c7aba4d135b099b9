//! ForkPropagator: once a candidate is proven invalid, its block hash is
//! barred forever and every active chain branch that builds on it is marked
//! for pruning, so no competing branch can retain a block the network has
//! proven invalid.
//!
//! The branch DAG itself is maintained by the host's fork/ancestry provider;
//! it hands each active head in here together with the hashes of the blocks
//! it descends from.

use vstd::prelude::*;

use crate::types::Resolution;

verus! {

/// One active chain branch, as reported by the host's fork/ancestry
/// provider.
pub struct Branch {
    /// Hash of the branch's head block.
    pub head: u64,
    /// Hashes of the blocks this branch is built on, from the head back to
    /// the root: the branch descends from exactly the blocks listed here.
    pub ancestry: Vec<u64>,
}

impl Branch {
    /// Whether this branch builds on the block `hash`.
    pub open spec fn descends_from(self, hash: u64) -> bool {
        self.ancestry@.contains(hash)
    }

    /// Whether this branch builds on the block `hash`.
    pub fn contains_block(&self, hash: u64) -> (r: bool)
        ensures
            r == self.descends_from(hash),
        {
        vec_holds_hash(&self.ancestry, hash)
    }
}

/// The heads of exactly those branches that build on `hash`, in the order the
/// branches were given.
pub open spec fn descendant_heads(branches: Seq<Branch>, hash: u64) -> Seq<u64>
    decreases branches.len(),
{
    if branches.len() == 0 {
        Seq::empty()
    } else {
        let rest = descendant_heads(branches.drop_last(), hash);
        if branches.last().descends_from(hash) {
            rest.push(branches.last().head)
        } else {
            rest
        }
    }
}

/// The set of block hashes permanently barred from being built upon or
/// synced again. Append-only: membership is for the life of the chain.
pub struct Blacklist {
    pub hashes: Vec<u64>,
}

impl Blacklist {
    /// Whether `hash` is barred.
    pub open spec fn spec_contains(self, hash: u64) -> bool {
        self.hashes@.contains(hash)
    }

    /// Whether `hash` is barred.
    pub fn is_barred(&self, hash: u64) -> (r: bool)
        ensures
            r == self.spec_contains(hash),
        {
        vec_holds_hash(&self.hashes, hash)
    }

    /// Extend the set of blocks never to sync again. Strictly append-only:
    /// everything barred before stays barred.
    pub fn extend_blacklist(&mut self, burnt: &Vec<u64>)
        ensures
            final(self).hashes@ == old(self).hashes@ + burnt@,
            forall|h: u64| old(self).spec_contains(h) ==> final(self).spec_contains(h),
            forall|j: int| 0 <= j < burnt@.len() ==> final(self).spec_contains(#[trigger] burnt@[j]),
        {
        let ghost orig = self.hashes@;
        let mut i: usize = 0;
        while i < burnt.len()
            invariant
                i <= burnt@.len(),
                self.hashes@ == orig + burnt@.take(i as int),
            decreases burnt@.len() - i,
        {
            proof {
                assert(orig + burnt@.take(i as int + 1) =~= (orig + burnt@.take(i as int)).push(
                    burnt@[i as int],
                ));
            }
            self.hashes.push(burnt[i]);
            i += 1;
        }
        proof {
            assert(burnt@.take(burnt@.len() as int) =~= burnt@);
            assert forall|h: u64| orig.contains(h) implies self.spec_contains(h) by {
                let k = choose|k: int| 0 <= k < orig.len() && orig[k] == h;
                assert(self.hashes@[k] == h);
            }
            assert forall|j: int| 0 <= j < burnt@.len() implies self.spec_contains(
                #[trigger] burnt@[j],
            ) by {
                assert(self.hashes@[orig.len() + j] == burnt@[j]);
            }
        }
    }
}

/// Transplant a concluded resolution onto all other active forks: report the
/// head of every branch whose ancestry includes the disputed candidate, so
/// the host prunes them. Branches that do not descend from the disputed
/// block are untouched.
pub fn transplant_to(resolution: &Resolution, active_heads: &Vec<Branch>) -> (pruned: Vec<u64>)
    ensures
        pruned@ == descendant_heads(active_heads@, resolution.candidate),
    {
    let mut pruned: Vec<u64> = Vec::new();
    let mut i: usize = 0;
    while i < active_heads.len()
        invariant
            i <= active_heads@.len(),
            pruned@ == descendant_heads(active_heads@.take(i as int), resolution.candidate),
        decreases active_heads@.len() - i,
    {
        proof {
            assert(active_heads@.take(i as int + 1).drop_last() =~= active_heads@.take(i as int));
            assert(active_heads@.take(i as int + 1).last() == active_heads@[i as int]);
        }
        if active_heads[i].contains_block(resolution.candidate) {
            pruned.push(active_heads[i].head);
        }
        i += 1;
    }
    proof {
        assert(active_heads@.take(active_heads@.len() as int) =~= active_heads@);
    }
    pruned
}

/// Whether `v` holds `hash`.
fn vec_holds_hash(v: &Vec<u64>, hash: u64) -> (r: bool)
    ensures
        r == v@.contains(hash),
    {
    let mut i: usize = 0;
    while i < v.len()
        invariant
            i <= v@.len(),
            forall|j: int| 0 <= j < i ==> v@[j] != hash,
        decreases v@.len() - i,
    {
        if v[i] == hash {
            return true;
        }
        i += 1;
    }
    false
}

} // verus!

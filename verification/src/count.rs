//! Statistics over a block's primitive stream.

use crate::primitive_block::{block_prims, Primitive, PrimitiveBlock, PrimitiveModel};
use vstd::prelude::*;

verus! {

/// How many nodes, ways and relations a primitive stream holds.
pub open spec fn prim_counts(s: Seq<PrimitiveModel>) -> (int, int, int)
    decreases s.len(),
{
    if s.len() == 0 {
        (0int, 0int, 0int)
    } else {
        let rest = prim_counts(s.skip(1));
        match s[0] {
            PrimitiveModel::Node(_) => (rest.0 + 1, rest.1, rest.2),
            PrimitiveModel::Way(_) => (rest.0, rest.1 + 1, rest.2),
            PrimitiveModel::Relation(_) => (rest.0, rest.1, rest.2 + 1),
        }
    }
}

/// Every component of a primitive count is non-negative.
pub proof fn lemma_prim_counts_nonneg(s: Seq<PrimitiveModel>)
    ensures
        prim_counts(s).0 >= 0,
        prim_counts(s).1 >= 0,
        prim_counts(s).2 >= 0,
    decreases s.len(),
{
    if s.len() != 0 {
        lemma_prim_counts_nonneg(s.skip(1));
    }
}

impl PrimitiveBlock {
    /// Count this block's nodes, ways and relations, in that order. Exact
    /// whenever the totals fit the counters, which any decodable input
    /// satisfies; the additions saturate instead of wrapping.
    #[verifier::rlimit(100)]
    pub fn count_primitives(&self) -> (r: (u64, u64, u64))
        ensures
            ({
                let c = prim_counts(block_prims(self@));
                c.0 + c.1 + c.2 <= u64::MAX ==> r.0 == c.0 && r.1 == c.1 && r.2 == c.2
            }),
    {
        let ghost whole = block_prims(self@);
        let ghost c = prim_counts(whole);
        let mut nodes: u64 = 0;
        let mut ways: u64 = 0;
        let mut relations: u64 = 0;
        let mut it = self.primitives();
        loop
            invariant
                it.wf(),
                whole == block_prims(self@),
                c == prim_counts(whole),
                c.0 + c.1 + c.2 <= u64::MAX ==> {
                    &&& nodes + prim_counts(it.remaining()).0 == c.0
                    &&& ways + prim_counts(it.remaining()).1 == c.1
                    &&& relations + prim_counts(it.remaining()).2 == c.2
                },
            decreases it.remaining().len(),
        {
            let ghost before = it.remaining();
            proof {
                lemma_prim_counts_nonneg(whole);
                lemma_prim_counts_nonneg(before);
                lemma_prim_counts_nonneg(before.skip(1));
            }
            match it.next() {
                Some(p) => {
                    match p {
                        Primitive::Node(_) => {
                            nodes = nodes.saturating_add(1);
                        },
                        Primitive::Way(_) => {
                            ways = ways.saturating_add(1);
                        },
                        Primitive::Relation(_) => {
                            relations = relations.saturating_add(1);
                        },
                    }
                },
                None => {
                    return (nodes, ways, relations);
                },
            }
        }
    }
}

} // verus!

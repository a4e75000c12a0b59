//! Splitting a flat packed column into zero-terminated groups: the dense-node
//! tag column stores `key,val,key,val,...,0` runs, one run per node.

use crate::wire::{packed_u32s_of, read_packed_u32s};
use vstd::prelude::*;

verus! {

/// The leading group of `vals`: everything before the first zero, or the
/// whole sequence if no zero remains.
pub open spec fn group_of(vals: Seq<u32>) -> Seq<u32>
    decreases vals.len(),
{
    if vals.len() == 0 {
        Seq::empty()
    } else if vals[0] == 0 {
        Seq::empty()
    } else {
        seq![vals[0]] + group_of(vals.skip(1))
    }
}

/// What remains after consuming the leading group and its terminating zero.
pub open spec fn after_group(vals: Seq<u32>) -> Seq<u32>
    decreases vals.len(),
{
    if vals.len() == 0 {
        Seq::empty()
    } else if vals[0] == 0 {
        vals.skip(1)
    } else {
        after_group(vals.skip(1))
    }
}

/// Splits a packed varint column into consecutive zero-terminated groups. The
/// terminating zero is consumed and not part of the group; once the column is
/// exhausted every further group is empty.
pub struct DelimitedIter {
    vals: Vec<u32>,
    idx: usize,
}

impl DelimitedIter {
    pub closed spec fn wf(&self) -> bool {
        self.idx <= self.vals@.len()
    }

    /// The packed elements not yet consumed.
    pub closed spec fn remaining(&self) -> Seq<u32> {
        self.vals@.skip(self.idx as int)
    }

    /// A splitter over the packed varint column in `data`.
    pub fn new(data: &[u8]) -> (r: Self)
        ensures
            r.wf(),
            r.remaining() == packed_u32s_of(data@),
    {
        let vals = read_packed_u32s(data);
        proof {
            assert(vals@.skip(0) =~= vals@);
        }
        DelimitedIter { vals, idx: 0 }
    }

    /// The next group: the elements up to the next zero, which is consumed
    /// but not included. Always succeeds; past the end of the column the
    /// group is empty.
    pub fn next(&mut self) -> (r: Vec<u32>)
        requires
            old(self).wf(),
        ensures
            final(self).wf(),
            r@ == group_of(old(self).remaining()),
            final(self).remaining() == after_group(old(self).remaining()),
    {
        let ghost start = self.remaining();
        let mut out: Vec<u32> = Vec::new();
        loop
            invariant
                self.wf(),
                self.vals == old(self).vals,
                start == old(self).remaining(),
                old(self).idx <= self.idx,
                group_of(start) == out@ + group_of(self.remaining()),
                after_group(start) == after_group(self.remaining()),
                forall|j: int|
                    old(self).idx <= j < self.idx ==> self.vals@[j] != 0,
            decreases self.vals@.len() - self.idx,
        {
            proof {
                assert(group_of(start) =~= out@ + group_of(self.remaining()));
            }
            if self.idx >= self.vals.len() {
                proof {
                    assert(self.remaining() =~= Seq::<u32>::empty());
                    assert(group_of(start) =~= out@);
                }
                return out;
            }
            let v = self.vals[self.idx];
            proof {
                let rest = self.remaining();
                assert(rest[0] == self.vals@[self.idx as int]);
                assert(rest.skip(1) =~= self.vals@.skip(self.idx as int + 1));
            }
            self.idx = self.idx + 1;
            if v == 0 {
                proof {
                    assert(group_of(start) =~= out@);
                }
                return out;
            }
            out.push(v);
            proof {
                assert(out@.drop_last() + seq![v] =~= out@);
            }
        }
    }

    /// How many items could still come: no lower bound, and an upper bound
    /// that never claims more groups than the packed elements that remain,
    /// since every non-empty group consumes at least one element.
    pub fn size_hint(&self) -> (r: (usize, Option<usize>))
        requires
            self.wf(),
        ensures
            r.0 == 0,
            r.1 matches Some(ub) && ub == self.remaining().len(),
    {
        (0, Some(self.vals.len() - self.idx))
    }
}

} // verus!

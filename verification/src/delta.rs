//! Running-sum decoding of delta-encoded columns: each stored value is the
//! difference from its predecessor, and the decoder adds them back up,
//! starting from zero.

use crate::wire::{packed_i32s_of, packed_i64s_of, read_packed_i32s, read_packed_i64s};
use vstd::prelude::*;

verus! {

/// The running sums of `deltas` seeded at `last`, each sum wrapping as 64-bit
/// addition does.
pub open spec fn delta_outputs(deltas: Seq<i64>, last: i64) -> Seq<i64>
    decreases deltas.len(),
{
    if deltas.len() == 0 {
        Seq::empty()
    } else {
        let cur = vstd::wrapping::i64_specs::wrapping_add(last, deltas[0]);
        seq![cur] + delta_outputs(deltas.skip(1), cur)
    }
}

/// The running sums of `deltas` seeded at `last`, in 32-bit arithmetic.
pub open spec fn delta_outputs_i32(deltas: Seq<i32>, last: i32) -> Seq<i32>
    decreases deltas.len(),
{
    if deltas.len() == 0 {
        Seq::empty()
    } else {
        let cur = vstd::wrapping::i32_specs::wrapping_add(last, deltas[0]);
        seq![cur] + delta_outputs_i32(deltas.skip(1), cur)
    }
}

/// Decoding an empty delta sequence yields an empty output, whatever the seed.
pub proof fn lemma_delta_empty(last: i64)
    ensures
        delta_outputs(Seq::empty(), last) =~= Seq::<i64>::empty(),
{
}

/// Running-sum decoder over a packed column of zigzag-coded 64-bit deltas.
/// Each decoder starts its total at zero, independently of any other.
pub struct DeltaEncodedIter {
    deltas: Vec<i64>,
    idx: usize,
    last: i64,
}

impl DeltaEncodedIter {
    pub closed spec fn wf(&self) -> bool {
        self.idx <= self.deltas@.len()
    }

    /// The running sums this decoder has yet to yield.
    pub closed spec fn remaining(&self) -> Seq<i64> {
        delta_outputs(self.deltas@.skip(self.idx as int), self.last)
    }

    /// A decoder over the packed varint column in `data`, its total at zero.
    pub fn new(data: &[u8]) -> (r: Self)
        ensures
            r.wf(),
            r.remaining() == delta_outputs(packed_i64s_of(data@), 0),
    {
        let deltas = read_packed_i64s(data);
        proof {
            assert(deltas@.skip(0) =~= deltas@);
        }
        DeltaEncodedIter { deltas, idx: 0, last: 0 }
    }

    /// The next running sum, or `None` once the column is exhausted.
    pub fn next(&mut self) -> (r: Option<i64>)
        requires
            old(self).wf(),
        ensures
            final(self).wf(),
            match r {
                Some(v) => {
                    &&& old(self).remaining().len() > 0
                    &&& v == old(self).remaining()[0]
                    &&& final(self).remaining() == old(self).remaining().skip(1)
                },
                None => {
                    &&& old(self).remaining().len() == 0
                    &&& final(self).remaining().len() == 0
                },
            },
    {
        if self.idx < self.deltas.len() {
            let d = self.deltas[self.idx];
            let cur = self.last.wrapping_add(d);
            proof {
                let rest = self.deltas@.skip(self.idx as int);
                assert(rest[0] == self.deltas@[self.idx as int]);
                assert(rest.skip(1) =~= self.deltas@.skip(self.idx as int + 1));
            }
            self.last = cur;
            self.idx = self.idx + 1;
            Some(cur)
        } else {
            None
        }
    }
}

/// Delta-decode a whole packed column at once, from a zero seed.
pub fn delta_decode_all(data: &[u8]) -> (r: Vec<i64>)
    ensures
        r@ == delta_outputs(packed_i64s_of(data@), 0),
{
    let mut it = DeltaEncodedIter::new(data);
    let mut out: Vec<i64> = Vec::new();
    proof {
        assert(out@ + it.remaining() =~= it.remaining());
    }
    let ghost whole = it.remaining();
    loop
        invariant
            it.wf(),
            whole == delta_outputs(packed_i64s_of(data@), 0),
            out@ + it.remaining() == whole,
        decreases it.remaining().len(),
    {
        let ghost before = it.remaining();
        match it.next() {
            Some(v) => {
                let ghost prev = out@;
                out.push(v);
                proof {
                    assert(out@ + it.remaining() =~= prev + before);
                }
            },
            None => {
                proof {
                    assert(out@ + before =~= out@);
                }
                return out;
            },
        }
    }
}

/// Running-sum decoder over a packed column of zigzag-coded deltas truncated
/// to 32 bits, accumulating in 32-bit arithmetic.
pub struct DeltaEncodedIter32 {
    deltas: Vec<i32>,
    idx: usize,
    last: i32,
}

impl DeltaEncodedIter32 {
    pub closed spec fn wf(&self) -> bool {
        self.idx <= self.deltas@.len()
    }

    /// The running sums this decoder has yet to yield.
    pub closed spec fn remaining(&self) -> Seq<i32> {
        delta_outputs_i32(self.deltas@.skip(self.idx as int), self.last)
    }

    /// A decoder over the packed varint column in `data`, its total at zero.
    pub fn new(data: &[u8]) -> (r: Self)
        ensures
            r.wf(),
            r.remaining() == delta_outputs_i32(packed_i32s_of(data@), 0),
    {
        let deltas = read_packed_i32s(data);
        proof {
            assert(deltas@.skip(0) =~= deltas@);
        }
        DeltaEncodedIter32 { deltas, idx: 0, last: 0 }
    }

    /// The next running sum, or `None` once the column is exhausted.
    pub fn next(&mut self) -> (r: Option<i32>)
        requires
            old(self).wf(),
        ensures
            final(self).wf(),
            match r {
                Some(v) => {
                    &&& old(self).remaining().len() > 0
                    &&& v == old(self).remaining()[0]
                    &&& final(self).remaining() == old(self).remaining().skip(1)
                },
                None => {
                    &&& old(self).remaining().len() == 0
                    &&& final(self).remaining().len() == 0
                },
            },
    {
        if self.idx < self.deltas.len() {
            let d = self.deltas[self.idx];
            let cur = self.last.wrapping_add(d);
            proof {
                let rest = self.deltas@.skip(self.idx as int);
                assert(rest[0] == self.deltas@[self.idx as int]);
                assert(rest.skip(1) =~= self.deltas@.skip(self.idx as int + 1));
            }
            self.last = cur;
            self.idx = self.idx + 1;
            Some(cur)
        } else {
            None
        }
    }
}

} // verus!

//! Tag resolution: two packed index columns, keys and values, are walked in
//! lock step and resolved against the block's string table. The walk stops
//! for good the first time a column runs out while the other still has an
//! index, or an index falls outside the table — whatever was resolved up to
//! that point is kept, the rest is discarded.

use crate::primitive_block::strings_view;
use crate::wire::{packed_u32s_of, read_packed_u32s};
use vstd::prelude::*;

verus! {

/// The key/value pairs resolved against the string table `st`, ending at the
/// first missing column entry or out-of-range index.
pub open spec fn tags_resolved(keys: Seq<u32>, vals: Seq<u32>, st: Seq<Seq<char>>) -> Seq<
    (Seq<char>, Seq<char>),
>
    decreases keys.len(),
{
    if keys.len() == 0 || vals.len() == 0 {
        Seq::empty()
    } else {
        let k = keys[0];
        let v = vals[0];
        if k < st.len() && v < st.len() {
            seq![(st[k as int], st[v as int])] + tags_resolved(keys.skip(1), vals.skip(1), st)
        } else {
            Seq::empty()
        }
    }
}

/// View of a list of owned string pairs as character-sequence pairs.
pub open spec fn pairs_view(s: Seq<(String, String)>) -> Seq<(Seq<char>, Seq<char>)> {
    s.map_values(|p: (String, String)| (p.0@, p.1@))
}

/// Walks the key and value index columns of one entity in lock step,
/// resolving each pair against the block's string table.
pub struct TagsIter<'a> {
    keys: Vec<u32>,
    vals: Vec<u32>,
    ki: usize,
    vi: usize,
    stringtable: &'a Vec<String>,
}

impl<'a> TagsIter<'a> {
    pub closed spec fn wf(&self) -> bool {
        self.ki <= self.keys@.len() && self.vi <= self.vals@.len()
    }

    /// The key indexes not yet consumed.
    pub closed spec fn keys_rest(&self) -> Seq<u32> {
        self.keys@.skip(self.ki as int)
    }

    /// The value indexes not yet consumed.
    pub closed spec fn vals_rest(&self) -> Seq<u32> {
        self.vals@.skip(self.vi as int)
    }

    /// The string table this walk resolves against.
    pub closed spec fn st_view(&self) -> Seq<Seq<char>> {
        strings_view(self.stringtable@)
    }

    /// The pairs this walk can still resolve from its current position.
    pub open spec fn remaining(&self) -> Seq<(Seq<char>, Seq<char>)> {
        tags_resolved(self.keys_rest(), self.vals_rest(), self.st_view())
    }

    /// An empty walk over the given string table; the columns come later.
    pub fn new(stringtable: &'a Vec<String>) -> (r: Self)
        ensures
            r.wf(),
            r.keys_rest() == Seq::<u32>::empty(),
            r.vals_rest() == Seq::<u32>::empty(),
            r.st_view() == strings_view(stringtable@),
    {
        TagsIter { keys: Vec::new(), vals: Vec::new(), ki: 0, vi: 0, stringtable }
    }

    /// Install the packed key-index column.
    pub fn set_keys(&mut self, data: &[u8])
        requires
            old(self).wf(),
        ensures
            final(self).wf(),
            final(self).keys_rest() == packed_u32s_of(data@),
            final(self).vals_rest() == old(self).vals_rest(),
            final(self).st_view() == old(self).st_view(),
    {
        self.keys = read_packed_u32s(data);
        self.ki = 0;
        proof {
            assert(self.keys@.skip(0) =~= self.keys@);
        }
    }

    /// Install the packed value-index column.
    pub fn set_values(&mut self, data: &[u8])
        requires
            old(self).wf(),
        ensures
            final(self).wf(),
            final(self).vals_rest() == packed_u32s_of(data@),
            final(self).keys_rest() == old(self).keys_rest(),
            final(self).st_view() == old(self).st_view(),
    {
        self.vals = read_packed_u32s(data);
        self.vi = 0;
        proof {
            assert(self.vals@.skip(0) =~= self.vals@);
        }
    }

    /// Resolve the next pair. `None` the first time a column is exhausted or
    /// an index is out of range; the offending entries are consumed.
    pub fn next(&mut self) -> (r: Option<(String, String)>)
        requires
            old(self).wf(),
        ensures
            final(self).wf(),
            match r {
                Some(p) => {
                    &&& old(self).remaining().len() > 0
                    &&& (p.0@, p.1@) == old(self).remaining()[0]
                    &&& final(self).remaining() == old(self).remaining().skip(1)
                },
                None => old(self).remaining().len() == 0,
            },
    {
        proof {
            if self.ki < self.keys@.len() {
                let ks = self.keys@.skip(self.ki as int);
                assert(ks[0] == self.keys@[self.ki as int]);
                assert(ks.skip(1) =~= self.keys@.skip(self.ki as int + 1));
            }
            if self.vi < self.vals@.len() {
                let vs = self.vals@.skip(self.vi as int);
                assert(vs[0] == self.vals@[self.vi as int]);
                assert(vs.skip(1) =~= self.vals@.skip(self.vi as int + 1));
            }
        }
        let key_index = if self.ki < self.keys.len() {
            let k = self.keys[self.ki];
            self.ki = self.ki + 1;
            Some(k)
        } else {
            None
        };
        let val_index = if self.vi < self.vals.len() {
            let v = self.vals[self.vi];
            self.vi = self.vi + 1;
            Some(v)
        } else {
            None
        };
        match (key_index, val_index) {
            (Some(k), Some(v)) => {
                let n = self.stringtable.len();
                if (k as usize) < n && (v as usize) < n {
                    let key = self.stringtable[k as usize].clone();
                    let val = self.stringtable[v as usize].clone();
                    Some((key, val))
                } else {
                    None
                }
            },
            _ => None,
        }
    }

    /// Resolve every remaining pair, stopping for good at the first fault.
    pub fn collect_tags(&mut self) -> (r: Vec<(String, String)>)
        requires
            old(self).wf(),
        ensures
            final(self).wf(),
            pairs_view(r@) == old(self).remaining(),
    {
        let mut out: Vec<(String, String)> = Vec::new();
        proof {
            assert(pairs_view(out@) + old(self).remaining() =~= old(self).remaining());
        }
        loop
            invariant
                self.wf(),
                pairs_view(out@) + self.remaining() == old(self).remaining(),
            decreases self.remaining().len(),
        {
            let ghost before = self.remaining();
            match self.next() {
                Some(p) => {
                    let ghost prev = out@;
                    out.push(p);
                    proof {
                        assert(pairs_view(out@) =~= pairs_view(prev) + seq![(p.0@, p.1@)]);
                        assert(pairs_view(out@) + self.remaining() =~= pairs_view(prev)
                            + before);
                    }
                },
                None => {
                    proof {
                        assert(pairs_view(out@) + before =~= pairs_view(out@));
                    }
                    return out;
                },
            }
        }
    }
}

} // verus!

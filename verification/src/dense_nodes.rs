//! The dense-node decoder: reconstructs one node per column entry from the
//! parallel id, latitude, longitude, metadata and tag columns of a dense
//! group.

use crate::delimited::{after_group, group_of, DelimitedIter};
use crate::delta::{delta_outputs, DeltaEncodedIter};
use crate::dense_info::{
    dense_info_cols_of, info_cols_head, info_cols_next, DenseInfoCols, DenseInfoParser,
};
use crate::info::Info;
use crate::node::{Node, NodeModel};
use crate::primitive_block::{coord_nano, strings_view, BlockModel, PrimitiveBlock};
use crate::tags::pairs_view;
use crate::wire::{
    fields_of, find_first_bytes, first_bytes_val, packed_i64s_of, packed_u32s_of, read_fields,
    twos_u64,
};
use vstd::prelude::*;

verus! {

/// The tag pairs of one dense node, cut out of its flattened
/// `key,val,key,val,...` run and resolved against the string table. An
/// unpaired trailing key, or the first out-of-range index, ends resolution
/// for this node, keeping the pairs before it.
pub open spec fn dense_tags(g: Seq<u32>, st: Seq<Seq<char>>) -> Seq<(Seq<char>, Seq<char>)>
    decreases g.len(),
{
    if g.len() < 2 {
        Seq::empty()
    } else {
        let k = g[0];
        let v = g[1];
        if k < st.len() && v < st.len() {
            seq![(st[k as int], st[v as int])] + dense_tags(g.skip(2), st)
        } else {
            Seq::empty()
        }
    }
}

/// The decoded columns of one dense group.
#[verifier::ext_equal]
pub struct DenseCols {
    pub ids: Seq<i64>,
    pub lats: Seq<i64>,
    pub lons: Seq<i64>,
    pub kv: Seq<u32>,
    pub infos: Option<DenseInfoCols>,
}

/// The columns a dense group carries, or `None` where one of the required
/// ones (ids, latitudes, longitudes, tags) is missing — such a group decodes
/// to nothing. A present but incomplete metadata column group counts as
/// absent metadata.
pub open spec fn dense_cols_of(d: Seq<u8>) -> Option<DenseCols> {
    let fs = fields_of(d, 0);
    match (
        first_bytes_val(fs, 1),
        first_bytes_val(fs, 8),
        first_bytes_val(fs, 9),
        first_bytes_val(fs, 10),
    ) {
        (Option::Some(ib), Option::Some(ab), Option::Some(ob), Option::Some(kb)) => Option::Some(
            DenseCols {
                ids: delta_outputs(packed_i64s_of(ib), 0),
                lats: delta_outputs(packed_i64s_of(ab), 0),
                lons: delta_outputs(packed_i64s_of(ob), 0),
                kv: packed_u32s_of(kb),
                infos: match first_bytes_val(fs, 5) {
                    Option::Some(b) => dense_info_cols_of(b),
                    Option::None => Option::None,
                },
            },
        ),
        _ => Option::None,
    }
}

/// The nodes the columns still hold, in column order: the sequence ends with
/// the first exhausted required column.
pub open spec fn dense_remaining(c: DenseCols, bm: BlockModel) -> Seq<NodeModel>
    decreases c.ids.len(),
{
    if c.ids.len() == 0 || c.lats.len() == 0 || c.lons.len() == 0 {
        Seq::empty()
    } else {
        let node = NodeModel {
            id: twos_u64(c.ids[0]),
            lat: coord_nano(bm.lat_offset, bm.granularity, c.lats[0]),
            lon: coord_nano(bm.lon_offset, bm.granularity, c.lons[0]),
            info: match c.infos {
                Option::Some(ic) => Option::Some(
                    info_cols_head(ic, bm.stringtable, bm.date_granularity),
                ),
                Option::None => Option::None,
            },
            tags: dense_tags(group_of(c.kv), bm.stringtable),
        };
        let rest = DenseCols {
            ids: c.ids.skip(1),
            lats: c.lats.skip(1),
            lons: c.lons.skip(1),
            kv: after_group(c.kv),
            infos: match c.infos {
                Option::Some(ic) => Option::Some(info_cols_next(ic)),
                Option::None => Option::None,
            },
        };
        seq![node] + dense_remaining(rest, bm)
    }
}

/// Resolve one dense node's tag run against the string table.
fn resolve_dense_tags(group: &Vec<u32>, stringtable: &Vec<String>) -> (r: Vec<(String, String)>)
    ensures
        pairs_view(r@) == dense_tags(group@, strings_view(stringtable@)),
{
    let ghost st = strings_view(stringtable@);
    let ghost g = group@;
    proof {
        assert(g.skip(0) =~= g);
    }
    let mut out: Vec<(String, String)> = Vec::new();
    let n = group.len();
    let mut j: usize = 0;
    loop
        invariant
            n == group@.len(),
            g == group@,
            st == strings_view(stringtable@),
            j <= n,
            dense_tags(g, st) == pairs_view(out@) + dense_tags(g.skip(j as int), st),
        decreases n - j,
    {
        proof {
            assert(dense_tags(g, st) =~= pairs_view(out@) + dense_tags(g.skip(j as int), st));
        }
        if n - j < 2 {
            proof {
                assert(dense_tags(g.skip(j as int), st) =~= Seq::empty());
                assert(dense_tags(g, st) =~= pairs_view(out@));
            }
            return out;
        }
        proof {
            let s = g.skip(j as int);
            assert(s[0] == g[j as int]);
            assert(s[1] == g[j as int + 1]);
            assert(s.skip(2) =~= g.skip(j as int + 2));
        }
        let k = group[j];
        let v = group[j + 1];
        let m = stringtable.len();
        if (k as usize) < m && (v as usize) < m {
            let key = stringtable[k as usize].clone();
            let val = stringtable[v as usize].clone();
            let ghost prev = out@;
            out.push((key, val));
            proof {
                assert(pairs_view(out@) =~= pairs_view(prev) + seq![
                    (st[k as int], st[v as int]),
                ]);
            }
            j = j + 2;
        } else {
            proof {
                assert(dense_tags(g.skip(j as int), st) =~= Seq::empty());
                assert(dense_tags(g, st) =~= pairs_view(out@));
            }
            return out;
        }
    }
}

/// Joins the parallel columns of one dense group back into nodes, one
/// `next` per node.
pub struct DenseNodesParser<'a> {
    primitive_block: &'a PrimitiveBlock,
    ids: DeltaEncodedIter,
    lats: DeltaEncodedIter,
    lons: DeltaEncodedIter,
    infos: Option<DenseInfoParser<'a>>,
    keys_vals: DelimitedIter,
}

impl<'a> DenseNodesParser<'a> {
    pub closed spec fn wf(&self) -> bool {
        &&& self.ids.wf()
        &&& self.lats.wf()
        &&& self.lons.wf()
        &&& self.keys_vals.wf()
        &&& match self.infos {
            Option::Some(p) => p.wf() && p.block_view() == self.primitive_block@,
            Option::None => true,
        }
    }

    /// The column entries not yet consumed.
    pub closed spec fn cols(&self) -> DenseCols {
        DenseCols {
            ids: self.ids.remaining(),
            lats: self.lats.remaining(),
            lons: self.lons.remaining(),
            kv: self.keys_vals.remaining(),
            infos: match self.infos {
                Option::Some(p) => Option::Some(p.cols()),
                Option::None => Option::None,
            },
        }
    }

    /// The block the group belongs to.
    pub closed spec fn block_view(&self) -> BlockModel {
        self.primitive_block@
    }

    /// The nodes this joiner has yet to yield, in column order.
    pub open spec fn remaining(&self) -> Seq<NodeModel> {
        dense_remaining(self.cols(), self.block_view())
    }

    /// Decode a dense group's columns. `None` when a required column is
    /// missing: the whole group then decodes to nothing.
    pub fn new(primitive_block: &'a PrimitiveBlock, data: &[u8]) -> (r: Option<Self>)
        ensures
            match r {
                Some(p) => {
                    &&& p.wf()
                    &&& dense_cols_of(data@) == Some(p.cols())
                    &&& p.block_view() == primitive_block@
                },
                None => dense_cols_of(data@) is None,
            },
    {
        let fields = read_fields(data);
        let ids_buf = match find_first_bytes(&fields, 1) {
            Some(b) => b,
            None => {
                return None;
            },
        };
        let lats_buf = match find_first_bytes(&fields, 8) {
            Some(b) => b,
            None => {
                return None;
            },
        };
        let lons_buf = match find_first_bytes(&fields, 9) {
            Some(b) => b,
            None => {
                return None;
            },
        };
        let kv_buf = match find_first_bytes(&fields, 10) {
            Some(b) => b,
            None => {
                return None;
            },
        };
        let infos = match find_first_bytes(&fields, 5) {
            Some(b) => DenseInfoParser::new(primitive_block, b.as_slice()),
            None => None,
        };
        let p = DenseNodesParser {
            primitive_block,
            ids: DeltaEncodedIter::new(ids_buf.as_slice()),
            lats: DeltaEncodedIter::new(lats_buf.as_slice()),
            lons: DeltaEncodedIter::new(lons_buf.as_slice()),
            infos,
            keys_vals: DelimitedIter::new(kv_buf.as_slice()),
        };
        proof {
            assert(p.cols() =~= dense_cols_of(data@)->Some_0);
        }
        Some(p)
    }

    /// The next reconstructed node, or `None` once the id column (or either
    /// coordinate column) is exhausted. One entry is consumed from every
    /// column in lock step.
    pub fn next(&mut self) -> (r: Option<Node>)
        requires
            old(self).wf(),
        ensures
            final(self).wf(),
            final(self).block_view() == old(self).block_view(),
            match r {
                Some(node) => {
                    &&& old(self).remaining().len() > 0
                    &&& node@ == old(self).remaining()[0]
                    &&& final(self).remaining() == old(self).remaining().skip(1)
                },
                None => {
                    &&& old(self).remaining().len() == 0
                    &&& final(self).remaining().len() == 0
                },
            },
    {
        let group = self.keys_vals.next();
        let tags = resolve_dense_tags(&group, &self.primitive_block.stringtable);
        let info: Option<Info> = match &mut self.infos {
            Some(p) => Some(p.next()),
            None => None,
        };
        let id = match self.ids.next() {
            Some(x) => x,
            None => {
                return None;
            },
        };
        let lat_raw = match self.lats.next() {
            Some(x) => x,
            None => {
                return None;
            },
        };
        let lon_raw = match self.lons.next() {
            Some(x) => x,
            None => {
                return None;
            },
        };
        let node = Node {
            id: crate::wire::cast_i64_u64(id),
            lat: self.primitive_block.convert_lat(lat_raw),
            lon: self.primitive_block.convert_lon(lon_raw),
            info,
            tags,
        };
        proof {
            assert(node@ =~= dense_remaining(old(self).cols(), old(self).block_view())[0]);
            assert(self.cols() =~= (DenseCols {
                ids: old(self).cols().ids.skip(1),
                lats: old(self).cols().lats.skip(1),
                lons: old(self).cols().lons.skip(1),
                kv: after_group(old(self).cols().kv),
                infos: match old(self).cols().infos {
                    Option::Some(ic) => Option::Some(info_cols_next(ic)),
                    Option::None => Option::None,
                },
            }));
        }
        Some(node)
    }
}

} // verus!

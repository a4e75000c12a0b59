//! The discrete node decoder: one forward field scan over a node message,
//! defaulting every absent field.

use crate::info::{Info, InfoModel, info_of};
use crate::primitive_block::{coord_nano, BlockModel, PrimitiveBlock};
use crate::tags::{pairs_view, tags_resolved, TagsIter};
use crate::wire::{fields_of, read_fields, twos_u64, val_i64, wire_fields_view, WireVal};
use vstd::prelude::*;

verus! {

/// The mathematical content of a decoded node: its id, its coordinates in
/// nanodegrees, its metadata and its resolved tags.
#[verifier::ext_equal]
pub struct NodeModel {
    pub id: u64,
    pub lat: i64,
    pub lon: i64,
    pub info: Option<InfoModel>,
    pub tags: Seq<(Seq<char>, Seq<char>)>,
}

/// The accumulator of the node field scan: the scalar fields plus the two
/// unresolved tag index columns.
#[verifier::ext_equal]
pub struct NodeScan {
    pub id: u64,
    pub lat: i64,
    pub lon: i64,
    pub info: Option<InfoModel>,
    pub keys: Seq<u32>,
    pub vals: Seq<u32>,
}

/// The scan's starting point: zero id and coordinates, nothing else.
pub open spec fn node_scan_defaults() -> NodeScan {
    NodeScan {
        id: 0,
        lat: 0,
        lon: 0,
        info: Option::None,
        keys: Seq::empty(),
        vals: Seq::empty(),
    }
}

/// Folds the fields of a node message, last occurrence winning. The id is
/// zigzag-coded; coordinates are scaled by the block's parameters as they
/// are read. A field of the wrong wire type is skipped.
pub open spec fn node_scan(fs: Seq<(u32, WireVal)>, bm: BlockModel, acc: NodeScan) -> NodeScan
    decreases fs.len(),
{
    if fs.len() == 0 {
        acc
    } else {
        let (tag, v) = fs[0];
        let next = if tag == 1 {
            NodeScan { id: twos_u64(val_i64(v)), ..acc }
        } else if tag == 2 {
            match v {
                WireVal::Bytes(b) => NodeScan { keys: crate::wire::packed_u32s_of(b), ..acc },
                _ => acc,
            }
        } else if tag == 3 {
            match v {
                WireVal::Bytes(b) => NodeScan { vals: crate::wire::packed_u32s_of(b), ..acc },
                _ => acc,
            }
        } else if tag == 4 {
            match v {
                WireVal::Bytes(b) => NodeScan {
                    info: Option::Some(info_of(b, bm.stringtable)),
                    ..acc
                },
                _ => acc,
            }
        } else if tag == 8 {
            NodeScan { lat: coord_nano(bm.lat_offset, bm.granularity, val_i64(v)), ..acc }
        } else if tag == 9 {
            NodeScan { lon: coord_nano(bm.lon_offset, bm.granularity, val_i64(v)), ..acc }
        } else {
            acc
        };
        node_scan(fs.skip(1), bm, next)
    }
}

/// What a node message decodes to within its block: the scanned fields, with
/// the tag columns resolved against the string table.
pub open spec fn node_of(d: Seq<u8>, bm: BlockModel) -> NodeModel {
    let s = node_scan(fields_of(d, 0), bm, node_scan_defaults());
    NodeModel {
        id: s.id,
        lat: s.lat,
        lon: s.lon,
        info: s.info,
        tags: tags_resolved(s.keys, s.vals, bm.stringtable),
    }
}

/// A decoded map node: a point with an id, coordinates in nanodegrees,
/// optional metadata and resolved tags.
#[derive(Debug)]
pub struct Node {
    pub id: u64,
    pub lat: i64,
    pub lon: i64,
    pub info: Option<Info>,
    pub tags: Vec<(String, String)>,
}

impl View for Node {
    type V = NodeModel;

    open spec fn view(&self) -> NodeModel {
        NodeModel {
            id: self.id,
            lat: self.lat,
            lon: self.lon,
            info: match self.info {
                Option::Some(i) => Option::Some(i@),
                Option::None => Option::None,
            },
            tags: pairs_view(self.tags@),
        }
    }
}

impl Node {
    /// Decode a discrete node message within its block.
    pub fn parse(primitive_block: &PrimitiveBlock, data: &[u8]) -> (r: Node)
        ensures
            r@ == node_of(data@, primitive_block@),
    {
        let ghost bm = primitive_block@;
        let fields = read_fields(data);
        let ghost fs = wire_fields_view(fields@);
        proof {
            assert(fs.skip(0) =~= fs);
        }
        let mut id: u64 = 0;
        let mut lat: i64 = 0;
        let mut lon: i64 = 0;
        let mut info: Option<Info> = None;
        let mut tags_iter = TagsIter::new(&primitive_block.stringtable);
        let ghost acc0 = node_scan_defaults();
        proof {
            assert((NodeScan {
                id: id,
                lat: lat,
                lon: lon,
                info: Option::None,
                keys: tags_iter.keys_rest(),
                vals: tags_iter.vals_rest(),
            }) =~= acc0);
        }
        let n = fields.len();
        let mut i: usize = 0;
        while i < n
            invariant
                n == fields@.len(),
                i <= n,
                fs == wire_fields_view(fields@),
                fs == fields_of(data@, 0),
                bm == primitive_block@,
                tags_iter.wf(),
                tags_iter.st_view() == bm.stringtable,
                node_scan(
                    fs.skip(i as int),
                    bm,
                    NodeScan {
                        id: id,
                        lat: lat,
                        lon: lon,
                        info: match info {
                            Option::Some(x) => Option::Some(x@),
                            Option::None => Option::None,
                        },
                        keys: tags_iter.keys_rest(),
                        vals: tags_iter.vals_rest(),
                    },
                ) == node_scan(fs, bm, node_scan_defaults()),
            decreases n - i,
        {
            let f = &fields[i];
            proof {
                assert(fs[i as int] == fields@[i as int]@);
                assert(fs.skip(i as int)[0] == fs[i as int]);
                assert(fs.skip(i as int).skip(1) =~= fs.skip(i as int + 1));
            }
            if f.tag == 1 {
                id = crate::wire::cast_i64_u64(f.value.as_i64());
            } else if f.tag == 2 {
                match &f.value {
                    crate::wire::WireValue::Bytes(b) => tags_iter.set_keys(b.as_slice()),
                    _ => {},
                }
            } else if f.tag == 3 {
                match &f.value {
                    crate::wire::WireValue::Bytes(b) => tags_iter.set_values(b.as_slice()),
                    _ => {},
                }
            } else if f.tag == 4 {
                match &f.value {
                    crate::wire::WireValue::Bytes(b) => {
                        info = Some(Info::parse(&primitive_block.stringtable, b.as_slice()));
                    },
                    _ => {},
                }
            } else if f.tag == 8 {
                lat = primitive_block.convert_lat(f.value.as_i64());
            } else if f.tag == 9 {
                lon = primitive_block.convert_lon(f.value.as_i64());
            }
            i = i + 1;
        }
        proof {
            assert(fs.skip(n as int) =~= Seq::<(u32, WireVal)>::empty());
        }
        let tags = tags_iter.collect_tags();
        let node = Node { id, lat, lon, info, tags };
        proof {
            assert(node@ =~= node_of(data@, bm));
        }
        node
    }

    /// The node's resolved tags.
    pub fn tags(&self) -> (r: &Vec<(String, String)>)
        ensures
            pairs_view(r@) == self@.tags,
    {
        &self.tags
    }
}

} // verus!

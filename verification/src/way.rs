//! The way decoder: one forward field scan over a way message. A way's node
//! references arrive delta-encoded and are decoded to absolute ids.

use crate::delta::delta_outputs;
use crate::info::{Info, InfoModel, info_of};
use crate::primitive_block::{BlockModel, PrimitiveBlock};
use crate::tags::{pairs_view, tags_resolved, TagsIter};
use crate::wire::{
    fields_of, packed_i64s_of, packed_u32s_of, read_fields, wire_fields_view, WireVal, WireValue,
};
use vstd::prelude::*;

verus! {

/// The mathematical content of a decoded way: its id, its metadata, its
/// resolved tags and its ordered, delta-decoded node references.
#[verifier::ext_equal]
pub struct WayModel {
    pub id: u64,
    pub info: Option<InfoModel>,
    pub tags: Seq<(Seq<char>, Seq<char>)>,
    pub refs: Seq<i64>,
}

/// The accumulator of the way field scan.
#[verifier::ext_equal]
pub struct WayScan {
    pub id: u64,
    pub info: Option<InfoModel>,
    pub keys: Seq<u32>,
    pub vals: Seq<u32>,
    pub refs: Seq<i64>,
}

/// The scan's starting point: zero id, nothing else.
pub open spec fn way_scan_defaults() -> WayScan {
    WayScan { id: 0, info: Option::None, keys: Seq::empty(), vals: Seq::empty(), refs: Seq::empty() }
}

/// Folds the fields of a way message, last occurrence winning; the id is a
/// plain varint, the reference column is delta-decoded from zero.
pub open spec fn way_scan(fs: Seq<(u32, WireVal)>, bm: BlockModel, acc: WayScan) -> WayScan
    decreases fs.len(),
{
    if fs.len() == 0 {
        acc
    } else {
        let (tag, v) = fs[0];
        let next = if tag == 1 {
            WayScan { id: crate::wire::val_u64(v), ..acc }
        } else if tag == 2 {
            match v {
                WireVal::Bytes(b) => WayScan { keys: packed_u32s_of(b), ..acc },
                _ => acc,
            }
        } else if tag == 3 {
            match v {
                WireVal::Bytes(b) => WayScan { vals: packed_u32s_of(b), ..acc },
                _ => acc,
            }
        } else if tag == 4 {
            match v {
                WireVal::Bytes(b) => WayScan {
                    info: Option::Some(info_of(b, bm.stringtable)),
                    ..acc
                },
                _ => acc,
            }
        } else if tag == 8 {
            match v {
                WireVal::Bytes(b) => WayScan { refs: delta_outputs(packed_i64s_of(b), 0), ..acc },
                _ => acc,
            }
        } else {
            acc
        };
        way_scan(fs.skip(1), bm, next)
    }
}

/// What a way message decodes to within its block.
pub open spec fn way_of(d: Seq<u8>, bm: BlockModel) -> WayModel {
    let s = way_scan(fields_of(d, 0), bm, way_scan_defaults());
    WayModel {
        id: s.id,
        info: s.info,
        tags: tags_resolved(s.keys, s.vals, bm.stringtable),
        refs: s.refs,
    }
}

/// A decoded way: an ordered run of node references with an id, optional
/// metadata and resolved tags. Ways compare equal by their id alone.
#[derive(Debug, Clone)]
pub struct Way {
    pub id: u64,
    pub info: Option<Info>,
    tags: Vec<(String, String)>,
    refs: Vec<i64>,
}

impl View for Way {
    type V = WayModel;

    closed spec fn view(&self) -> WayModel {
        WayModel {
            id: self.id,
            info: match self.info {
                Option::Some(i) => Option::Some(i@),
                Option::None => Option::None,
            },
            tags: pairs_view(self.tags@),
            refs: self.refs@,
        }
    }
}

impl Way {
    /// Decode a way message within its block.
    pub fn parse(primitive_block: &PrimitiveBlock, data: &[u8]) -> (r: Way)
        ensures
            r@ == way_of(data@, primitive_block@),
    {
        let ghost bm = primitive_block@;
        let fields = read_fields(data);
        let ghost fs = wire_fields_view(fields@);
        proof {
            assert(fs.skip(0) =~= fs);
        }
        let mut id: u64 = 0;
        let mut info: Option<Info> = None;
        let mut tags_iter = TagsIter::new(&primitive_block.stringtable);
        let mut refs: Vec<i64> = Vec::new();
        proof {
            assert((WayScan {
                id: id,
                info: Option::None,
                keys: tags_iter.keys_rest(),
                vals: tags_iter.vals_rest(),
                refs: refs@,
            }) =~= way_scan_defaults());
        }
        let n = fields.len();
        let mut i: usize = 0;
        while i < n
            invariant
                n == fields@.len(),
                i <= n,
                fs == wire_fields_view(fields@),
                fs == fields_of(data@, 0),
                bm == primitive_block@,
                tags_iter.wf(),
                tags_iter.st_view() == bm.stringtable,
                way_scan(
                    fs.skip(i as int),
                    bm,
                    WayScan {
                        id: id,
                        info: match info {
                            Option::Some(x) => Option::Some(x@),
                            Option::None => Option::None,
                        },
                        keys: tags_iter.keys_rest(),
                        vals: tags_iter.vals_rest(),
                        refs: refs@,
                    },
                ) == way_scan(fs, bm, way_scan_defaults()),
            decreases n - i,
        {
            let f = &fields[i];
            proof {
                assert(fs[i as int] == fields@[i as int]@);
                assert(fs.skip(i as int)[0] == fs[i as int]);
                assert(fs.skip(i as int).skip(1) =~= fs.skip(i as int + 1));
            }
            if f.tag == 1 {
                id = f.value.as_u64();
            } else if f.tag == 2 {
                match &f.value {
                    WireValue::Bytes(b) => tags_iter.set_keys(b.as_slice()),
                    _ => {},
                }
            } else if f.tag == 3 {
                match &f.value {
                    WireValue::Bytes(b) => tags_iter.set_values(b.as_slice()),
                    _ => {},
                }
            } else if f.tag == 4 {
                match &f.value {
                    WireValue::Bytes(b) => {
                        info = Some(Info::parse(&primitive_block.stringtable, b.as_slice()));
                    },
                    _ => {},
                }
            } else if f.tag == 8 {
                match &f.value {
                    WireValue::Bytes(b) => {
                        refs = crate::delta::delta_decode_all(b.as_slice());
                    },
                    _ => {},
                }
            }
            i = i + 1;
        }
        proof {
            assert(fs.skip(n as int) =~= Seq::<(u32, WireVal)>::empty());
        }
        let tags = tags_iter.collect_tags();
        let way = Way { id, info, tags, refs };
        proof {
            assert(way@ =~= way_of(data@, bm));
        }
        way
    }

    /// The way's resolved tags.
    pub fn tags(&self) -> (r: &Vec<(String, String)>)
        ensures
            pairs_view(r@) == self@.tags,
    {
        &self.tags
    }

    /// The way's node references, in file order, delta-decoded to absolute
    /// ids.
    pub fn refs(&self) -> (r: &Vec<i64>)
        ensures
            r@ == self@.refs,
    {
        &self.refs
    }
}

impl PartialEq for Way {
    fn eq(&self, other: &Way) -> (r: bool) {
        self.id == other.id
    }
}

impl vstd::std_specs::cmp::PartialEqSpecImpl for Way {
    open spec fn obeys_eq_spec() -> bool {
        true
    }

    open spec fn eq_spec(&self, other: &Way) -> bool {
        self@.id == other@.id
    }
}

impl Eq for Way {

}

} // verus!

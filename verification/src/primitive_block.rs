//! One decompressed block: its string table, its coordinate and date scaling
//! parameters, and its primitive groups in file order.

use crate::wire::{
    fields_of, read_fields, val_i64, val_u32, val_u64, wire_fields_view, WireField, WireVal,
    WireValue,
};
use crate::DecodeError;
use vstd::prelude::*;
use vstd::string::StringSliceAdditionalSpecFns;
use vstd::utf8::{decode_utf8, valid_utf8};

verus! {

broadcast use vstd::utf8::encode_utf8_decode_utf8, vstd::utf8::encode_utf8_valid_utf8;

/// Relies on `core::str::from_utf8`: it returns `Ok` exactly on valid UTF-8,
/// and the resulting string views those same bytes.
pub assume_specification<'a>[ core::str::from_utf8 ](v: &'a [u8]) -> (r: Result<
    &'a str,
    core::str::Utf8Error,
>)
    ensures
        r matches Ok(s) ==> valid_utf8(v@) && s.spec_bytes() == v@,
        r is Err ==> !valid_utf8(v@),
;

#[verifier::external_type_specification]
#[verifier::external_body]
pub struct ExUtf8Error(core::str::Utf8Error);

/// The decoded UTF-8 entries of a string-table message: its byte-payload
/// fields with the entry tag, in order. A non-payload entry field or one that
/// is not valid UTF-8 is the fatal fault, `None`.
pub open spec fn st_entries(fs: Seq<(u32, WireVal)>) -> Option<Seq<Seq<char>>>
    decreases fs.len(),
{
    if fs.len() == 0 {
        Option::Some(Seq::empty())
    } else {
        let (tag, v) = fs[0];
        if tag != 1 {
            st_entries(fs.skip(1))
        } else {
            match v {
                WireVal::Bytes(b) => if valid_utf8(b) {
                    match st_entries(fs.skip(1)) {
                        Option::None => Option::None,
                        Option::Some(rest) => Option::Some(seq![decode_utf8(b)] + rest),
                    }
                } else {
                    Option::None
                },
                _ => Option::None,
            }
        }
    }
}

/// The mathematical content of a parsed block.
#[verifier::ext_equal]
pub struct BlockModel {
    pub stringtable: Seq<Seq<char>>,
    pub granularity: u32,
    pub lat_offset: i64,
    pub lon_offset: i64,
    pub date_granularity: u64,
    pub groups: Seq<Seq<u8>>,
}

/// The defaults a block starts from: granularity 100 nanodegrees, offsets
/// zero, date granularity 1000 milliseconds.
pub open spec fn block_defaults() -> BlockModel {
    BlockModel {
        stringtable: Seq::empty(),
        granularity: 100,
        lat_offset: 0,
        lon_offset: 0,
        date_granularity: 1000,
        groups: Seq::empty(),
    }
}

/// Folds the top-level fields of a block: the string table and the scaling
/// parameters, last occurrence winning, and the group payloads in file order.
/// `None` is the fatal string-table fault.
pub open spec fn block_scan(fs: Seq<(u32, WireVal)>, acc: BlockModel) -> Option<BlockModel>
    decreases fs.len(),
{
    if fs.len() == 0 {
        Option::Some(acc)
    } else {
        let (tag, v) = fs[0];
        if tag == 1 {
            match v {
                WireVal::Bytes(b) => match st_entries(fields_of(b, 0)) {
                    Option::None => Option::None,
                    Option::Some(st) => block_scan(
                        fs.skip(1),
                        BlockModel { stringtable: st, ..acc },
                    ),
                },
                _ => Option::None,
            }
        } else if tag == 2 {
            match v {
                WireVal::Bytes(b) => block_scan(
                    fs.skip(1),
                    BlockModel { groups: acc.groups + seq![b], ..acc },
                ),
                _ => block_scan(fs.skip(1), acc),
            }
        } else if tag == 17 {
            block_scan(fs.skip(1), BlockModel { granularity: val_u32(v), ..acc })
        } else if tag == 18 {
            block_scan(fs.skip(1), BlockModel { date_granularity: val_u64(v), ..acc })
        } else if tag == 19 {
            block_scan(fs.skip(1), BlockModel { lat_offset: val_i64(v), ..acc })
        } else if tag == 20 {
            block_scan(fs.skip(1), BlockModel { lon_offset: val_i64(v), ..acc })
        } else {
            block_scan(fs.skip(1), acc)
        }
    }
}

/// What a block buffer parses to, or the fatal string-table fault.
pub open spec fn block_of(d: Seq<u8>) -> Option<BlockModel> {
    block_scan(fields_of(d, 0), block_defaults())
}

/// View of a list of owned strings as their character sequences.
pub open spec fn strings_view(s: Seq<String>) -> Seq<Seq<char>> {
    s.map_values(|x: String| x@)
}

/// View of a list of owned buffers as their byte sequences.
pub open spec fn buffers_view(s: Seq<Vec<u8>>) -> Seq<Seq<u8>> {
    s.map_values(|x: Vec<u8>| x@)
}

/// Decode a string-table message into its entries. A non-string entry is the
/// fatal fault [`DecodeError::MalformedString`].
pub fn parse_stringtable(data: &[u8]) -> (r: Result<Vec<String>, DecodeError>)
    ensures
        match r {
            Ok(st) => st_entries(fields_of(data@, 0)) == Some(strings_view(st@)),
            Err(e) => e == DecodeError::MalformedString && st_entries(fields_of(data@, 0))
                is None,
        },
{
    let fields = read_fields(data);
    let ghost fs = wire_fields_view(fields@);
    proof {
        assert(fs.skip(0) =~= fs);
    }
    let mut out: Vec<String> = Vec::new();
    let n = fields.len();
    let mut i: usize = 0;
    while i < n
        invariant
            n == fields@.len(),
            i <= n,
            fs == wire_fields_view(fields@),
            fs == fields_of(data@, 0),
            match st_entries(fs.skip(i as int)) {
                Option::None => st_entries(fs) is None,
                Option::Some(rest) => st_entries(fs) == Option::Some(strings_view(out@) + rest),
            },
        decreases n - i,
    {
        let f = &fields[i];
        proof {
            assert(fs[i as int] == fields@[i as int]@);
            assert(fs.skip(i as int)[0] == fs[i as int]);
            assert(fs.skip(i as int).skip(1) =~= fs.skip(i as int + 1));
        }
        if f.tag == 1 {
            match &f.value {
                WireValue::Bytes(b) => {
                    match core::str::from_utf8(b.as_slice()) {
                        Ok(s) => {
                            let ghost prev = out@;
                            out.push(s.to_owned());
                            proof {
                                assert(strings_view(out@) =~= strings_view(prev) + seq![
                                    decode_utf8(b@),
                                ]);
                                match st_entries(fs.skip(i as int + 1)) {
                                    Option::Some(rest) => {
                                        assert(strings_view(prev) + (seq![decode_utf8(b@)]
                                            + rest) =~= strings_view(out@) + rest);
                                    },
                                    Option::None => {},
                                }
                            }
                        },
                        Err(_) => {
                            return Err(DecodeError::MalformedString);
                        },
                    }
                },
                _ => {
                    return Err(DecodeError::MalformedString);
                },
            }
        }
        i = i + 1;
    }
    proof {
        assert(fs.skip(n as int) =~= Seq::<(u32, WireVal)>::empty());
        assert(strings_view(out@) + Seq::<Seq<char>>::empty() =~= strings_view(out@));
    }
    Ok(out)
}

/// A raw coordinate scaled to nanodegrees: `offset + granularity * raw`, in
/// wrapping 64-bit arithmetic.
pub open spec fn coord_nano(offset: i64, granularity: u32, raw: i64) -> i64 {
    vstd::wrapping::i64_specs::wrapping_add(
        offset,
        vstd::wrapping::i64_specs::wrapping_mul(granularity as i64, raw),
    )
}

/// Wherever `offset + granularity * raw` fits a 64-bit integer — every
/// coordinate a valid file can hold — the scaling is exact.
pub proof fn lemma_coord_formula(offset: i64, granularity: u32, raw: i64)
    ensures
        (i64::MIN <= offset + (granularity as i64) * raw <= i64::MAX && i64::MIN <= (
        granularity as i64) * raw <= i64::MAX) ==> coord_nano(offset, granularity, raw) == offset
            + (granularity as i64) * raw,
{
}

/// A raw date count scaled to milliseconds: `date_granularity * raw`, in
/// wrapping 64-bit arithmetic.
pub open spec fn date_ms(date_granularity: u64, raw: u64) -> u64 {
    vstd::wrapping::u64_specs::wrapping_mul(date_granularity, raw)
}

/// A parsed block: the string table every entity borrows its text from, the
/// scaling parameters, and the primitive-group payloads in file order.
#[derive(Debug)]
pub struct PrimitiveBlock {
    pub stringtable: Vec<String>,
    pub granularity: u32,
    pub lat_offset: i64,
    pub lon_offset: i64,
    pub date_granularity: u64,
    pub groups: Vec<Vec<u8>>,
}

impl View for PrimitiveBlock {
    type V = BlockModel;

    open spec fn view(&self) -> BlockModel {
        BlockModel {
            stringtable: strings_view(self.stringtable@),
            granularity: self.granularity,
            lat_offset: self.lat_offset,
            lon_offset: self.lon_offset,
            date_granularity: self.date_granularity,
            groups: buffers_view(self.groups@),
        }
    }
}

impl PrimitiveBlock {
    /// Parse a decompressed block buffer. The one fault is a malformed
    /// string table; every other field defaults when absent.
    pub fn parse(data: &[u8]) -> (r: Result<PrimitiveBlock, DecodeError>)
        ensures
            match r {
                Ok(b) => block_of(data@) == Some(b@),
                Err(e) => e == DecodeError::MalformedString && block_of(data@) is None,
            },
    {
        let fields = read_fields(data);
        let ghost fs = wire_fields_view(fields@);
        proof {
            assert(fs.skip(0) =~= fs);
        }
        let mut result = PrimitiveBlock {
            stringtable: Vec::new(),
            granularity: 100,
            lat_offset: 0,
            lon_offset: 0,
            date_granularity: 1000,
            groups: Vec::new(),
        };
        proof {
            assert(result@ =~= block_defaults());
        }
        let n = fields.len();
        let mut i: usize = 0;
        while i < n
            invariant
                n == fields@.len(),
                i <= n,
                fs == wire_fields_view(fields@),
                fs == fields_of(data@, 0),
                block_scan(fs.skip(i as int), result@) == block_of(data@),
            decreases n - i,
        {
            let f = &fields[i];
            proof {
                assert(fs[i as int] == fields@[i as int]@);
                assert(fs.skip(i as int)[0] == fs[i as int]);
                assert(fs.skip(i as int).skip(1) =~= fs.skip(i as int + 1));
            }
            let ghost before = result@;
            if f.tag == 1 {
                match &f.value {
                    WireValue::Bytes(b) => {
                        match parse_stringtable(b.as_slice()) {
                            Ok(st) => {
                                result.stringtable = st;
                                proof {
                                    assert(result@ =~= (BlockModel {
                                        stringtable: strings_view(st@),
                                        ..before
                                    }));
                                }
                            },
                            Err(e) => {
                                return Err(e);
                            },
                        }
                    },
                    _ => {
                        return Err(DecodeError::MalformedString);
                    },
                }
            } else if f.tag == 2 {
                match &f.value {
                    WireValue::Bytes(b) => {
                        let ghost prev_groups = buffers_view(result.groups@);
                        result.groups.push(b.clone());
                        proof {
                            assert(buffers_view(result.groups@) =~= prev_groups + seq![b@]);
                            assert(result@ =~= (BlockModel {
                                groups: before.groups + seq![b@],
                                ..before
                            }));
                        }
                    },
                    _ => {},
                }
            } else if f.tag == 17 {
                result.granularity = f.value.as_u32();
            } else if f.tag == 18 {
                result.date_granularity = f.value.as_u64();
            } else if f.tag == 19 {
                result.lat_offset = f.value.as_i64();
            } else if f.tag == 20 {
                result.lon_offset = f.value.as_i64();
            }
            i = i + 1;
        }
        proof {
            assert(fs.skip(n as int) =~= Seq::<(u32, WireVal)>::empty());
        }
        Ok(result)
    }

    /// A raw latitude in block units, scaled to nanodegrees.
    pub fn convert_lat(&self, lat: i64) -> (r: i64)
        ensures
            r == coord_nano(self.lat_offset, self.granularity, lat),
    {
        self.lat_offset.wrapping_add((self.granularity as i64).wrapping_mul(lat))
    }

    /// A raw longitude in block units, scaled to nanodegrees.
    pub fn convert_lon(&self, lon: i64) -> (r: i64)
        ensures
            r == coord_nano(self.lon_offset, self.granularity, lon),
    {
        self.lon_offset.wrapping_add((self.granularity as i64).wrapping_mul(lon))
    }

    /// A raw date in block units, scaled to milliseconds since the epoch.
    pub fn convert_date(&self, date: u64) -> (r: u64)
        ensures
            r == date_ms(self.date_granularity, date),
    {
        self.date_granularity.wrapping_mul(date)
    }
}

/// One decoded primitive: a node, a way or a relation.
pub enum Primitive {
    Node(crate::node::Node),
    Way(crate::way::Way),
    Relation(crate::relation::Relation),
}

/// Mathematical counterpart of [`Primitive`].
pub enum PrimitiveModel {
    Node(crate::node::NodeModel),
    Way(crate::way::WayModel),
    Relation(crate::relation::RelationModel),
}

impl View for Primitive {
    type V = PrimitiveModel;

    open spec fn view(&self) -> PrimitiveModel {
        match self {
            Primitive::Node(n) => PrimitiveModel::Node(n@),
            Primitive::Way(w) => PrimitiveModel::Way(w@),
            Primitive::Relation(r) => PrimitiveModel::Relation(r@),
        }
    }
}

/// The nodes of one dense group, as primitives; a group missing a required
/// column yields nothing.
pub open spec fn dense_prims(b: Seq<u8>, bm: BlockModel) -> Seq<PrimitiveModel> {
    match crate::dense_nodes::dense_cols_of(b) {
        Option::Some(c) => crate::dense_nodes::dense_remaining(c, bm).map_values(
            |n: crate::node::NodeModel| PrimitiveModel::Node(n),
        ),
        Option::None => Seq::empty(),
    }
}

/// The primitives of one group's field list, in file order: discrete nodes,
/// dense-node sub-streams flattened in place, ways and relations; unknown
/// tags are skipped.
pub open spec fn group_prims(fs: Seq<(u32, WireVal)>, bm: BlockModel) -> Seq<PrimitiveModel>
    decreases fs.len(),
{
    if fs.len() == 0 {
        Seq::empty()
    } else {
        let (tag, v) = fs[0];
        let rest = group_prims(fs.skip(1), bm);
        match v {
            WireVal::Bytes(b) => if tag == 1 {
                seq![PrimitiveModel::Node(crate::node::node_of(b, bm))] + rest
            } else if tag == 2 {
                dense_prims(b, bm) + rest
            } else if tag == 3 {
                seq![PrimitiveModel::Way(crate::way::way_of(b, bm))] + rest
            } else if tag == 4 {
                seq![PrimitiveModel::Relation(crate::relation::relation_of(b, bm))] + rest
            } else {
                rest
            },
            _ => rest,
        }
    }
}

/// The primitives of a run of groups, in file order.
pub open spec fn groups_prims(groups: Seq<Seq<u8>>, bm: BlockModel) -> Seq<PrimitiveModel>
    decreases groups.len(),
{
    if groups.len() == 0 {
        Seq::empty()
    } else {
        group_prims(fields_of(groups[0], 0), bm) + groups_prims(groups.skip(1), bm)
    }
}

/// Every primitive of a block, groups in file order, dense entries in column
/// order.
pub open spec fn block_prims(bm: BlockModel) -> Seq<PrimitiveModel> {
    groups_prims(bm.groups, bm)
}

/// Walks a block's groups and flattens them into one ordered stream of
/// primitives: between groups, inside a group, or inside a group's dense
/// sub-stream.
pub struct PrimitivesIterator<'a> {
    primitive_block: &'a PrimitiveBlock,
    gi: usize,
    in_group: bool,
    group_fields: Vec<WireField>,
    fi: usize,
    dense_nodes: Option<crate::dense_nodes::DenseNodesParser<'a>>,
}

impl<'a> PrimitivesIterator<'a> {
    pub closed spec fn wf(&self) -> bool {
        &&& self.gi <= self.primitive_block.groups@.len()
        &&& self.fi <= self.group_fields@.len()
        &&& match self.dense_nodes {
            Option::Some(d) => d.wf() && d.block_view() == self.primitive_block@,
            Option::None => true,
        }
    }

    /// The primitives this walk has yet to yield: what is left of the dense
    /// sub-stream, then of the current group, then the groups not yet
    /// entered.
    pub closed spec fn remaining(&self) -> Seq<PrimitiveModel> {
        let bm = self.primitive_block@;
        let dense_part = match self.dense_nodes {
            Option::Some(d) => crate::dense_nodes::dense_remaining(d.cols(), bm).map_values(
                |n: crate::node::NodeModel| PrimitiveModel::Node(n),
            ),
            Option::None => Seq::empty(),
        };
        let group_part = if self.in_group {
            group_prims(wire_fields_view(self.group_fields@).skip(self.fi as int), bm)
        } else {
            Seq::empty()
        };
        dense_part + group_part + groups_prims(
            buffers_view(self.primitive_block.groups@).skip(self.gi as int),
            bm,
        )
    }

    /// The stream's next primitive, or `None` once every group is exhausted.
    /// Skipped frames — unknown tags, dense groups that decode to nothing —
    /// are passed over in a plain loop.
    #[verifier::rlimit(100)]
    pub fn next(&mut self) -> (r: Option<Primitive>)
        requires
            old(self).wf(),
        ensures
            final(self).wf(),
            match r {
                Some(p) => {
                    &&& old(self).remaining().len() > 0
                    &&& p@ == old(self).remaining()[0]
                    &&& final(self).remaining() == old(self).remaining().skip(1)
                },
                None => {
                    &&& old(self).remaining().len() == 0
                    &&& final(self).remaining().len() == 0
                },
            },
    {
        loop
            invariant
                self.wf(),
                self.primitive_block == old(self).primitive_block,
                self.remaining() == old(self).remaining(),
            decreases
                    self.primitive_block.groups@.len() - self.gi,
                    (if self.in_group {
                        self.group_fields@.len() - self.fi + 1
                    } else {
                        0int
                    }),
                    (if self.dense_nodes is Some {
                        1int
                    } else {
                        0int
                    }),
        {
            let ghost bm = self.primitive_block@;
            // the dense sub-stream goes first
            let mut emitted: Option<crate::node::Node> = None;
            let mut dense_ended = false;
            match &mut self.dense_nodes {
                Some(d) => {
                    let ghost dense_before = crate::dense_nodes::dense_remaining(d.cols(), bm);
                    match d.next() {
                        Some(node) => {
                            proof {
                                assert(dense_before.map_values(
                                    |n: crate::node::NodeModel| PrimitiveModel::Node(n),
                                )[0] == PrimitiveModel::Node(dense_before[0]));
                                assert(crate::dense_nodes::dense_remaining(d.cols(), bm)
                                    .map_values(
                                    |n: crate::node::NodeModel| PrimitiveModel::Node(n),
                                ) =~= dense_before.map_values(
                                    |n: crate::node::NodeModel| PrimitiveModel::Node(n),
                                ).skip(1));
                            }
                            emitted = Some(node);
                        },
                        None => {
                            dense_ended = true;
                        },
                    }
                },
                None => {},
            }
            match emitted {
                Some(node) => {
                    return Some(Primitive::Node(node));
                },
                None => {},
            }
            if dense_ended {
                proof {
                    match &self.dense_nodes {
                        Option::Some(d) => {
                            assert(crate::dense_nodes::dense_remaining(d.cols(), bm).map_values(
                                |n: crate::node::NodeModel| PrimitiveModel::Node(n),
                            ) =~= Seq::<PrimitiveModel>::empty());
                        },
                        Option::None => {},
                    }
                }
                self.dense_nodes = None;
                continue ;
            }
            // between groups: enter the next one, or end the stream
            if !self.in_group {
                let ghost gs = buffers_view(self.primitive_block.groups@);
                if self.gi >= self.primitive_block.groups.len() {
                    proof {
                        assert(gs.skip(self.gi as int) =~= Seq::<Seq<u8>>::empty());
                    }
                    return None;
                }
                proof {
                    assert(gs.skip(self.gi as int)[0] == gs[self.gi as int]);
                    assert(gs.skip(self.gi as int).skip(1) =~= gs.skip(self.gi as int + 1));
                    assert(gs[self.gi as int] == self.primitive_block.groups@[self.gi as int]@);
                }
                let buf = &self.primitive_block.groups[self.gi];
                self.group_fields = read_fields(buf.as_slice());
                self.fi = 0;
                self.in_group = true;
                self.gi = self.gi + 1;
                proof {
                    assert(wire_fields_view(self.group_fields@).skip(0) =~= wire_fields_view(
                        self.group_fields@,
                    ));
                }
                continue ;
            }
            // inside a group: one field at a time
            let ghost fs = wire_fields_view(self.group_fields@);
            if self.fi >= self.group_fields.len() {
                proof {
                    assert(fs.skip(self.fi as int) =~= Seq::<(u32, WireVal)>::empty());
                }
                self.in_group = false;
                self.group_fields = Vec::new();
                self.fi = 0;
                continue ;
            }
            proof {
                assert(fs[self.fi as int] == self.group_fields@[self.fi as int]@);
                assert(fs.skip(self.fi as int)[0] == fs[self.fi as int]);
                assert(fs.skip(self.fi as int).skip(1) =~= fs.skip(self.fi as int + 1));
            }
            let idx = self.fi;
            self.fi = idx + 1;
            let pb = self.primitive_block;
            let f = &self.group_fields[idx];
            if f.tag == 1 {
                match &f.value {
                    WireValue::Bytes(b) => {
                        return Some(Primitive::Node(crate::node::Node::parse(pb, b.as_slice())));
                    },
                    _ => {},
                }
            } else if f.tag == 2 {
                match &f.value {
                    WireValue::Bytes(b) => {
                        let d = crate::dense_nodes::DenseNodesParser::new(pb, b.as_slice());
                        proof {
                            match &d {
                                Option::Some(dp) => {
                                    assert(crate::dense_nodes::dense_remaining(dp.cols(), bm)
                                        .map_values(
                                        |n: crate::node::NodeModel| PrimitiveModel::Node(n),
                                    ) =~= dense_prims(b@, bm));
                                },
                                Option::None => {
                                    assert(dense_prims(b@, bm) =~= Seq::<PrimitiveModel>::empty());
                                },
                            }
                        }
                        self.dense_nodes = d;
                    },
                    _ => {},
                }
            } else if f.tag == 3 {
                match &f.value {
                    WireValue::Bytes(b) => {
                        return Some(Primitive::Way(crate::way::Way::parse(pb, b.as_slice())));
                    },
                    _ => {},
                }
            } else if f.tag == 4 {
                match &f.value {
                    WireValue::Bytes(b) => {
                        return Some(
                            Primitive::Relation(crate::relation::Relation::parse(pb, b.as_slice())),
                        );
                    },
                    _ => {},
                }
            }
        }
    }
}

impl PrimitiveBlock {
    /// Walk this block's primitives from the start.
    pub fn primitives<'a>(&'a self) -> (r: PrimitivesIterator<'a>)
        ensures
            r.wf(),
            r.remaining() == block_prims(self@),
    {
        let it = PrimitivesIterator {
            primitive_block: self,
            gi: 0,
            in_group: false,
            group_fields: Vec::new(),
            fi: 0,
            dense_nodes: None,
        };
        proof {
            assert(buffers_view(self.groups@).skip(0) =~= buffers_view(self.groups@));
            assert(it.remaining() =~= block_prims(self@));
        }
        it
    }
}

} // verus!

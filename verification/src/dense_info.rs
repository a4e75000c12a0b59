//! The dense metadata decoder: five parallel columns, one entry per dense
//! node, pulled in lock step. Unlike the discrete path, timestamps here are
//! scaled by the block's date granularity as they are read.

use crate::delta::{delta_outputs, delta_outputs_i32, DeltaEncodedIter, DeltaEncodedIter32};
use crate::info::{Info, InfoModel};
use crate::primitive_block::{date_ms, BlockModel, PrimitiveBlock};
use crate::wire::{
    fields_of, find_first_bytes, first_bytes_val, packed_i32s_of, packed_i64s_of, packed_u32s_of,
    read_fields, read_packed_u32s, twos_u32, twos_u64, wire_fields_view,
};
use vstd::prelude::*;

verus! {

/// The five metadata columns (and the optional visibility column), as the
/// sequences of entries they still hold.
#[verifier::ext_equal]
pub struct DenseInfoCols {
    pub versions: Seq<u32>,
    pub timestamps: Seq<i64>,
    pub changesets: Seq<i64>,
    pub uids: Seq<i32>,
    pub user_sids: Seq<i32>,
    pub visibles: Option<Seq<u32>>,
}

/// A sequence without its head, or empty as it was.
pub open spec fn tail1<T>(s: Seq<T>) -> Seq<T> {
    if s.len() == 0 {
        s
    } else {
        s.skip(1)
    }
}

/// The metadata record at the head of the columns: each field present only
/// while its column still has entries; the timestamp scaled to milliseconds;
/// a user index outside the string table leaves the user absent.
pub open spec fn info_cols_head(c: DenseInfoCols, st: Seq<Seq<char>>, date_granularity: u64) -> InfoModel {
    InfoModel {
        version: if c.versions.len() > 0 {
            Option::Some(c.versions[0])
        } else {
            Option::None
        },
        timestamp: if c.timestamps.len() > 0 {
            Option::Some(date_ms(date_granularity, twos_u64(c.timestamps[0])))
        } else {
            Option::None
        },
        changeset: if c.changesets.len() > 0 {
            Option::Some(twos_u64(c.changesets[0]))
        } else {
            Option::None
        },
        uid: if c.uids.len() > 0 {
            Option::Some(twos_u32(c.uids[0]))
        } else {
            Option::None
        },
        user: if c.user_sids.len() > 0 {
            let sid = c.user_sids[0];
            if 0 <= sid && sid < st.len() {
                Option::Some(st[sid as int])
            } else {
                Option::None
            }
        } else {
            Option::None
        },
        visible: match c.visibles {
            Option::Some(vs) => if vs.len() > 0 {
                Option::Some(vs[0] != 0)
            } else {
                Option::None
            },
            Option::None => Option::None,
        },
    }
}

/// The columns with one entry consumed from each.
pub open spec fn info_cols_next(c: DenseInfoCols) -> DenseInfoCols {
    DenseInfoCols {
        versions: tail1(c.versions),
        timestamps: tail1(c.timestamps),
        changesets: tail1(c.changesets),
        uids: tail1(c.uids),
        user_sids: tail1(c.user_sids),
        visibles: match c.visibles {
            Option::Some(vs) => Option::Some(tail1(vs)),
            Option::None => Option::None,
        },
    }
}

/// The columns a dense metadata message carries, or `None` where one of the
/// five required columns is missing.
pub open spec fn dense_info_cols_of(d: Seq<u8>) -> Option<DenseInfoCols> {
    let fs = fields_of(d, 0);
    match (
        first_bytes_val(fs, 1),
        first_bytes_val(fs, 2),
        first_bytes_val(fs, 3),
        first_bytes_val(fs, 4),
        first_bytes_val(fs, 5),
    ) {
        (
            Option::Some(vb),
            Option::Some(tb),
            Option::Some(cb),
            Option::Some(ub),
            Option::Some(sb),
        ) => Option::Some(
            DenseInfoCols {
                versions: packed_u32s_of(vb),
                timestamps: delta_outputs(packed_i64s_of(tb), 0),
                changesets: delta_outputs(packed_i64s_of(cb), 0),
                uids: delta_outputs_i32(packed_i32s_of(ub), 0),
                user_sids: delta_outputs_i32(packed_i32s_of(sb), 0),
                visibles: match first_bytes_val(fs, 6) {
                    Option::Some(b) => Option::Some(packed_u32s_of(b)),
                    Option::None => Option::None,
                },
            },
        ),
        _ => Option::None,
    }
}

/// Pulls one metadata record per dense node from the parallel columns.
pub struct DenseInfoParser<'a> {
    primitive_block: &'a PrimitiveBlock,
    versions: Vec<u32>,
    vi: usize,
    timestamps: DeltaEncodedIter,
    changesets: DeltaEncodedIter,
    uids: DeltaEncodedIter32,
    user_sids: DeltaEncodedIter32,
    visibles: Option<Vec<u32>>,
    bi: usize,
}

impl<'a> DenseInfoParser<'a> {
    pub closed spec fn wf(&self) -> bool {
        &&& self.vi <= self.versions@.len()
        &&& self.timestamps.wf()
        &&& self.changesets.wf()
        &&& self.uids.wf()
        &&& self.user_sids.wf()
        &&& match self.visibles {
            Option::Some(vs) => self.bi <= vs@.len(),
            Option::None => true,
        }
    }

    /// The column entries not yet consumed.
    pub closed spec fn cols(&self) -> DenseInfoCols {
        DenseInfoCols {
            versions: self.versions@.skip(self.vi as int),
            timestamps: self.timestamps.remaining(),
            changesets: self.changesets.remaining(),
            uids: self.uids.remaining(),
            user_sids: self.user_sids.remaining(),
            visibles: match self.visibles {
                Option::Some(vs) => Option::Some(vs@.skip(self.bi as int)),
                Option::None => Option::None,
            },
        }
    }

    /// The block whose string table and date granularity scale the records.
    pub closed spec fn block_view(&self) -> BlockModel {
        self.primitive_block@
    }

    /// Decode a dense metadata message into its columns. `None` when one of
    /// the five required columns is missing: the whole metadata group is then
    /// treated as absent.
    pub fn new(primitive_block: &'a PrimitiveBlock, data: &[u8]) -> (r: Option<Self>)
        ensures
            match r {
                Some(p) => {
                    &&& p.wf()
                    &&& dense_info_cols_of(data@) == Some(p.cols())
                    &&& p.block_view() == primitive_block@
                },
                None => dense_info_cols_of(data@) is None,
            },
    {
        let fields = read_fields(data);
        let ghost fs = wire_fields_view(fields@);
        let versions_buf = match find_first_bytes(&fields, 1) {
            Some(b) => b,
            None => {
                return None;
            },
        };
        let timestamps_buf = match find_first_bytes(&fields, 2) {
            Some(b) => b,
            None => {
                return None;
            },
        };
        let changesets_buf = match find_first_bytes(&fields, 3) {
            Some(b) => b,
            None => {
                return None;
            },
        };
        let uids_buf = match find_first_bytes(&fields, 4) {
            Some(b) => b,
            None => {
                return None;
            },
        };
        let user_sids_buf = match find_first_bytes(&fields, 5) {
            Some(b) => b,
            None => {
                return None;
            },
        };
        let visibles = match find_first_bytes(&fields, 6) {
            Some(b) => Some(read_packed_u32s(b.as_slice())),
            None => None,
        };
        let versions = read_packed_u32s(versions_buf.as_slice());
        let p = DenseInfoParser {
            primitive_block,
            versions,
            vi: 0,
            timestamps: DeltaEncodedIter::new(timestamps_buf.as_slice()),
            changesets: DeltaEncodedIter::new(changesets_buf.as_slice()),
            uids: DeltaEncodedIter32::new(uids_buf.as_slice()),
            user_sids: DeltaEncodedIter32::new(user_sids_buf.as_slice()),
            visibles,
            bi: 0,
        };
        proof {
            assert(p.versions@.skip(0) =~= p.versions@);
            match &p.visibles {
                Option::Some(vs) => {
                    assert(vs@.skip(0) =~= vs@);
                },
                Option::None => {},
            }
            assert(p.cols() =~= dense_info_cols_of(data@)->Some_0);
        }
        Some(p)
    }

    /// The record at the head of the columns; every column moves on by one
    /// entry. A column that has run dry leaves its field absent.
    pub fn next(&mut self) -> (r: Info)
        requires
            old(self).wf(),
        ensures
            final(self).wf(),
            r@ == info_cols_head(
                old(self).cols(),
                old(self).block_view().stringtable,
                old(self).block_view().date_granularity,
            ),
            final(self).cols() == info_cols_next(old(self).cols()),
            final(self).block_view() == old(self).block_view(),
    {
        proof {
            if self.vi < self.versions@.len() {
                let s = self.versions@.skip(self.vi as int);
                assert(s[0] == self.versions@[self.vi as int]);
                assert(s.skip(1) =~= self.versions@.skip(self.vi as int + 1));
            } else {
                assert(self.versions@.skip(self.vi as int) =~= Seq::<u32>::empty());
            }
            match &self.visibles {
                Option::Some(vs) => {
                    if self.bi < vs@.len() {
                        let s = vs@.skip(self.bi as int);
                        assert(s[0] == vs@[self.bi as int]);
                        assert(s.skip(1) =~= vs@.skip(self.bi as int + 1));
                    } else {
                        assert(vs@.skip(self.bi as int) =~= Seq::<u32>::empty());
                    }
                },
                Option::None => {},
            }
        }
        let version = if self.vi < self.versions.len() {
            let v = self.versions[self.vi];
            self.vi = self.vi + 1;
            Some(v)
        } else {
            None
        };
        let timestamp = match self.timestamps.next() {
            Some(t) => Some(
                self.primitive_block.convert_date(crate::wire::cast_i64_u64(t)),
            ),
            None => None,
        };
        let changeset = match self.changesets.next() {
            Some(c) => Some(crate::wire::cast_i64_u64(c)),
            None => None,
        };
        let uid = match self.uids.next() {
            Some(u) => Some(crate::wire::cast_i32_u32(u)),
            None => None,
        };
        let user = match self.user_sids.next() {
            Some(sid) => {
                if 0 <= sid && (sid as usize) < self.primitive_block.stringtable.len() {
                    Some(self.primitive_block.stringtable[sid as usize].clone())
                } else {
                    None
                }
            },
            None => None,
        };
        let visible = match &self.visibles {
            Some(vs) => {
                if self.bi < vs.len() {
                    let b = vs[self.bi];
                    self.bi = self.bi + 1;
                    Some(b != 0)
                } else {
                    None
                }
            },
            None => None,
        };
        let info = Info { version, timestamp, changeset, uid, user, visible };
        proof {
            assert(info@ =~= info_cols_head(
                old(self).cols(),
                old(self).block_view().stringtable,
                old(self).block_view().date_granularity,
            ));
            assert(self.cols() =~= info_cols_next(old(self).cols()));
        }
        info
    }
}

} // verus!

//! Entity metadata: version, timestamp, changeset, user and visibility.
//! Every field is independently optional — an absent field stays `None`,
//! never a sentinel value.
//!
//! On the discrete-entity path the timestamp is kept in raw block units;
//! only the dense path scales it by the block's date granularity.

use crate::primitive_block::strings_view;
use crate::wire::{fields_of, read_fields, val_u32, val_u64, wire_fields_view, WireVal, WireField};
use vstd::prelude::*;

verus! {

/// The mathematical content of a metadata record.
#[verifier::ext_equal]
pub struct InfoModel {
    pub version: Option<u32>,
    pub timestamp: Option<u64>,
    pub changeset: Option<u64>,
    pub uid: Option<u32>,
    pub user: Option<Seq<char>>,
    pub visible: Option<bool>,
}

/// A metadata record with no field present.
pub open spec fn info_defaults() -> InfoModel {
    InfoModel {
        version: Option::None,
        timestamp: Option::None,
        changeset: Option::None,
        uid: Option::None,
        user: Option::None,
        visible: Option::None,
    }
}

/// Folds the fields of a metadata message, last occurrence winning. A user
/// index outside the string table is an entity-scoped fault: it stops the
/// scan, keeping the fields gathered so far.
pub open spec fn info_scan(fs: Seq<(u32, WireVal)>, st: Seq<Seq<char>>, acc: InfoModel) -> InfoModel
    decreases fs.len(),
{
    if fs.len() == 0 {
        acc
    } else {
        let (tag, v) = fs[0];
        if tag == 1 {
            info_scan(fs.skip(1), st, InfoModel { version: Option::Some(val_u32(v)), ..acc })
        } else if tag == 2 {
            info_scan(fs.skip(1), st, InfoModel { timestamp: Option::Some(val_u64(v)), ..acc })
        } else if tag == 3 {
            info_scan(fs.skip(1), st, InfoModel { changeset: Option::Some(val_u64(v)), ..acc })
        } else if tag == 4 {
            info_scan(fs.skip(1), st, InfoModel { uid: Option::Some(val_u32(v)), ..acc })
        } else if tag == 5 {
            let idx = val_u32(v);
            if idx < st.len() {
                info_scan(fs.skip(1), st, InfoModel { user: Option::Some(st[idx as int]), ..acc })
            } else {
                acc
            }
        } else if tag == 6 {
            info_scan(fs.skip(1), st, InfoModel { visible: Option::Some(val_u64(v) != 0), ..acc })
        } else {
            info_scan(fs.skip(1), st, acc)
        }
    }
}

/// What a metadata message decodes to against the string table `st`.
pub open spec fn info_of(d: Seq<u8>, st: Seq<Seq<char>>) -> InfoModel {
    info_scan(fields_of(d, 0), st, info_defaults())
}

/// One entity's metadata, every field independently optional.
#[derive(Clone, Debug)]
pub struct Info {
    pub version: Option<u32>,
    pub timestamp: Option<u64>,
    pub changeset: Option<u64>,
    pub uid: Option<u32>,
    pub user: Option<String>,
    pub visible: Option<bool>,
}

impl View for Info {
    type V = InfoModel;

    open spec fn view(&self) -> InfoModel {
        InfoModel {
            version: self.version,
            timestamp: self.timestamp,
            changeset: self.changeset,
            uid: self.uid,
            user: match self.user {
                Option::Some(u) => Option::Some(u@),
                Option::None => Option::None,
            },
            visible: self.visible,
        }
    }
}

impl Info {
    /// Decode a discrete entity's metadata message: one forward field scan,
    /// the timestamp kept in raw block units.
    pub fn parse(stringtable: &Vec<String>, data: &[u8]) -> (r: Info)
        ensures
            r@ == info_of(data@, strings_view(stringtable@)),
    {
        let fields = read_fields(data);
        let ghost fs = wire_fields_view(fields@);
        let ghost st = strings_view(stringtable@);
        proof {
            assert(fs.skip(0) =~= fs);
        }
        let mut info = Info {
            version: None,
            timestamp: None,
            changeset: None,
            uid: None,
            user: None,
            visible: None,
        };
        proof {
            assert(info@ =~= info_defaults());
        }
        let n = fields.len();
        let mut i: usize = 0;
        while i < n
            invariant
                n == fields@.len(),
                i <= n,
                fs == wire_fields_view(fields@),
                fs == fields_of(data@, 0),
                st == strings_view(stringtable@),
                info_scan(fs.skip(i as int), st, info@) == info_of(data@, st),
            decreases n - i,
        {
            let f = &fields[i];
            proof {
                assert(fs[i as int] == fields@[i as int]@);
                assert(fs.skip(i as int)[0] == fs[i as int]);
                assert(fs.skip(i as int).skip(1) =~= fs.skip(i as int + 1));
            }
            let ghost before = info@;
            if f.tag == 1 {
                info.version = Some(f.value.as_u32());
            } else if f.tag == 2 {
                info.timestamp = Some(f.value.as_u64());
            } else if f.tag == 3 {
                info.changeset = Some(f.value.as_u64());
            } else if f.tag == 4 {
                info.uid = Some(f.value.as_u32());
            } else if f.tag == 5 {
                let idx = f.value.as_u32();
                if (idx as usize) < stringtable.len() {
                    info.user = Some(stringtable[idx as usize].clone());
                } else {
                    // out-of-range user index: keep what is decoded, stop
                    return info;
                }
            } else if f.tag == 6 {
                info.visible = Some(f.value.as_u64() != 0);
            }
            proof {
                assert(info_scan(fs.skip(i as int), st, before) == info_scan(
                    fs.skip(i as int + 1),
                    st,
                    info@,
                ));
            }
            i = i + 1;
        }
        proof {
            assert(fs.skip(n as int) =~= Seq::<(u32, WireVal)>::empty());
        }
        info
    }
}

/// The first field of `fs` carrying `tag`, if any.
pub open spec fn first_tag_val(fs: Seq<(u32, WireVal)>, tag: u32) -> Option<WireVal>
    decreases fs.len(),
{
    if fs.len() == 0 {
        Option::None
    } else if fs[0].0 == tag {
        Option::Some(fs[0].1)
    } else {
        first_tag_val(fs.skip(1), tag)
    }
}

/// Lazy reader over a metadata message: each getter scans for its field's
/// first occurrence and falls back to zero.
pub struct InfoParser {
    fields: Vec<WireField>,
}

impl InfoParser {
    /// The decoded fields this reader scans.
    pub closed spec fn fields_view(&self) -> Seq<(u32, WireVal)> {
        wire_fields_view(self.fields@)
    }

    /// A reader over one metadata message buffer.
    pub fn new(data: &[u8]) -> (r: Self)
        ensures
            r.fields_view() == fields_of(data@, 0),
    {
        InfoParser { fields: read_fields(data) }
    }

    /// The first field carrying `tag`, read as a `u64`, or zero.
    fn scan_u64(&self, tag: u32) -> (r: u64)
        ensures
            r == match first_tag_val(self.fields_view(), tag) {
                Option::Some(v) => val_u64(v),
                Option::None => 0,
            },
    {
        let ghost fs = self.fields_view();
        proof {
            assert(fs.skip(0) =~= fs);
        }
        let n = self.fields.len();
        let mut i: usize = 0;
        while i < n
            invariant
                n == self.fields@.len(),
                fs == self.fields_view(),
                i <= n,
                first_tag_val(fs.skip(i as int), tag) == first_tag_val(fs, tag),
            decreases n - i,
        {
            let f = &self.fields[i];
            proof {
                assert(fs[i as int] == self.fields@[i as int]@);
                assert(fs.skip(i as int)[0] == fs[i as int]);
                assert(fs.skip(i as int).skip(1) =~= fs.skip(i as int + 1));
            }
            if f.tag == tag {
                return f.value.as_u64();
            }
            i = i + 1;
        }
        proof {
            assert(fs.skip(n as int) =~= Seq::<(u32, WireVal)>::empty());
        }
        0
    }

    /// The first field carrying `tag`, read as a `u32`, or zero; the 32-bit
    /// reading is the low word of the 64-bit one.
    fn scan_u32(&self, tag: u32) -> (r: u32)
        ensures
            r == match first_tag_val(self.fields_view(), tag) {
                Option::Some(v) => val_u32(v),
                Option::None => 0u32,
            },
    {
        let w = self.scan_u64(tag);
        proof {
            match first_tag_val(self.fields_view(), tag) {
                Option::Some(v) => {
                    assert(crate::wire::low32(val_u64(v)) == val_u32(v));
                },
                Option::None => {},
            }
        }
        crate::wire::cast_u64_u32(w)
    }

    /// The entity's version, or zero when absent.
    pub fn version(&self) -> (r: u32)
        ensures
            r == match first_tag_val(self.fields_view(), 1) {
                Option::Some(v) => val_u32(v),
                Option::None => 0u32,
            },
    {
        self.scan_u32(1)
    }

    /// The entity's timestamp in raw block units, or zero when absent.
    pub fn timestamp(&self) -> (r: u64)
        ensures
            r == match first_tag_val(self.fields_view(), 2) {
                Option::Some(v) => val_u64(v),
                Option::None => 0,
            },
    {
        self.scan_u64(2)
    }

    /// The changeset that touched the entity, or zero when absent.
    pub fn changeset(&self) -> (r: u64)
        ensures
            r == match first_tag_val(self.fields_view(), 3) {
                Option::Some(v) => val_u64(v),
                Option::None => 0,
            },
    {
        self.scan_u64(3)
    }

    /// The editing user's id, or zero when absent.
    pub fn uid(&self) -> (r: u32)
        ensures
            r == match first_tag_val(self.fields_view(), 4) {
                Option::Some(v) => val_u32(v),
                Option::None => 0u32,
            },
    {
        self.scan_u32(4)
    }
}

} // verus!

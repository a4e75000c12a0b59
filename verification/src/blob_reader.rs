//! Splits the framed container stream into data blobs.
//!
//! Each frame is a 4-byte big-endian length, a header message of that length,
//! and a payload whose size the header gives. Header frames and payload-less
//! frames are skipped; a short read, an unknown header type or a malformed
//! header ends the sequence, which is never an error.

use crate::blob::{Blob, BlobV};
use crate::wire::{
    be32_at, fields_of, read_be_u32, read_fields, val_u32, wire_fields_view, WireVal, WireValue,
};
use vstd::prelude::*;

verus! {

broadcast use vstd::array::group_array_axioms;

/// The bytes of the header type naming a data frame.
pub open spec fn osm_data_name() -> Seq<u8> {
    seq![79u8, 83u8, 77u8, 68u8, 97u8, 116u8, 97u8]
}

/// The bytes of the header type naming a leading header frame.
pub open spec fn osm_header_name() -> Seq<u8> {
    seq![79u8, 83u8, 77u8, 72u8, 101u8, 97u8, 100u8, 101u8, 114u8]
}

/// Folds the fields of a header message: the type field makes the frame a
/// data frame, names a header frame, or (any other type, or a type that is
/// not a byte payload) ends the stream; the size field gives the payload
/// length, last occurrence winning.
pub open spec fn header_scan(fs: Seq<(u32, WireVal)>, osm_data: bool, datasize: u32) -> Option<
    (bool, u32),
>
    decreases fs.len(),
{
    if fs.len() == 0 {
        Option::Some((osm_data, datasize))
    } else {
        let (tag, v) = fs[0];
        if tag == 1 {
            match v {
                WireVal::Bytes(b) => if b == osm_data_name() {
                    header_scan(fs.skip(1), true, datasize)
                } else if b == osm_header_name() {
                    header_scan(fs.skip(1), osm_data, datasize)
                } else {
                    Option::None
                },
                _ => Option::None,
            }
        } else if tag == 3 {
            header_scan(fs.skip(1), osm_data, val_u32(v))
        } else {
            header_scan(fs.skip(1), osm_data, datasize)
        }
    }
}

/// What the header buffer decodes to: whether the frame carries data, and the
/// payload size; `None` ends the stream.
pub open spec fn header_of(d: Seq<u8>) -> Option<(bool, u32)> {
    header_scan(fields_of(d, 0), false, 0)
}

/// The first raw or zlib payload field of a blob message, or `None` where the
/// message has neither.
pub open spec fn payload_of(fs: Seq<(u32, WireVal)>) -> Option<BlobV>
    decreases fs.len(),
{
    if fs.len() == 0 {
        Option::None
    } else {
        let (tag, v) = fs[0];
        match v {
            WireVal::Bytes(b) => if tag == 1 {
                Option::Some(BlobV::Raw(b))
            } else if tag == 3 {
                Option::Some(BlobV::Zlib(b))
            } else {
                payload_of(fs.skip(1))
            },
            _ => payload_of(fs.skip(1)),
        }
    }
}

/// The sequence of data blobs framed in `d` from position `i` on. A length
/// prefix shorter than four bytes, a frame cut short by the end of the
/// buffer, or an unrecognized header type all end the sequence here.
pub open spec fn blobs_from(d: Seq<u8>, i: int) -> Seq<BlobV>
    decreases d.len() - i,
{
    if i < 0 || i + 4 > d.len() {
        Seq::empty()
    } else {
        let hlen = be32_at(d, i) as int;
        if i + 4 + hlen > d.len() {
            Seq::empty()
        } else {
            match header_of(d.subrange(i + 4, i + 4 + hlen)) {
                Option::None => Seq::empty(),
                Option::Some((is_data, datasize)) => {
                    if i + 4 + hlen + datasize > d.len() {
                        Seq::empty()
                    } else {
                        let next = i + 4 + hlen + datasize;
                        if !is_data {
                            blobs_from(d, next)
                        } else {
                            match payload_of(fields_of(d.subrange(i + 4 + hlen, next), 0)) {
                                Option::None => blobs_from(d, next),
                                Option::Some(b) => seq![b] + blobs_from(d, next),
                            }
                        }
                    }
                },
            }
        }
    }
}

/// A stream with fewer than four bytes left holds no length prefix, so the
/// blob sequence ends there, exactly as at a normal end of input.
pub proof fn lemma_truncated_length_prefix_ends_stream(d: Seq<u8>, i: int)
    ensures
        d.len() - i < 4 ==> blobs_from(d, i) =~= Seq::<BlobV>::empty(),
{
}

/// The decoded frame header: whether the frame carries map data, and how many
/// payload bytes follow.
pub struct BlobHeader {
    pub is_osm_data: bool,
    pub datasize: u32,
}

/// Compare a payload against an expected byte sequence.
fn bytes_eq(a: &Vec<u8>, b: &[u8]) -> (r: bool)
    ensures
        r == (a@ == b@),
{
    if a.len() != b.len() {
        return false;
    }
    let n = a.len();
    let mut i: usize = 0;
    while i < n
        invariant
            n == a@.len() == b@.len(),
            i <= n,
            forall|j: int| 0 <= j < i ==> a@[j] == b@[j],
        decreases n - i,
    {
        if a[i] != b[i] {
            return false;
        }
        i = i + 1;
    }
    proof {
        assert(a@ =~= b@);
    }
    true
}

/// Decode a frame header message. `None` means an unrecognized type, which
/// ends the stream.
#[verifier::rlimit(60)]
pub fn parse_blob_header(data: &[u8]) -> (r: Option<BlobHeader>)
    ensures
        r matches Some(h) ==> header_of(data@) == Some((h.is_osm_data, h.datasize)),
        r is None ==> header_of(data@) is None,
{
    let osm_data: [u8; 7] = [79, 83, 77, 68, 97, 116, 97];
    let osm_header: [u8; 9] = [79, 83, 77, 72, 101, 97, 100, 101, 114];
    proof {
        assert(osm_data@ =~= osm_data_name());
        assert(osm_header@ =~= osm_header_name());
    }
    let fields = read_fields(data);
    let ghost fs = wire_fields_view(fields@);
    proof {
        assert(fs.skip(0) =~= fs);
    }
    let mut is_osm_data = false;
    let mut datasize: u32 = 0;
    let n = fields.len();
    let mut i: usize = 0;
    while i < n
        invariant
            n == fields@.len(),
            i <= n,
            fs == wire_fields_view(fields@),
            fs == fields_of(data@, 0),
            osm_data@ == osm_data_name(),
            osm_header@ == osm_header_name(),
            header_scan(fs.skip(i as int), is_osm_data, datasize) == header_of(data@),
        decreases n - i,
    {
        let f = &fields[i];
        proof {
            assert(fs[i as int] == fields@[i as int]@);
            assert(fs.skip(i as int)[0] == fs[i as int]);
            assert(fs.skip(i as int).skip(1) =~= fs.skip(i as int + 1));
        }
        let ghost s = fs.skip(i as int);
        if f.tag == 1 {
            match &f.value {
                WireValue::Bytes(b) => {
                    if bytes_eq(b, osm_data.as_slice()) {
                        proof {
                            assert(b@ == osm_data_name());
                            assert(header_scan(s, is_osm_data, datasize) == header_scan(
                                fs.skip(i as int + 1),
                                true,
                                datasize,
                            ));
                        }
                        is_osm_data = true;
                    } else if bytes_eq(b, osm_header.as_slice()) {
                        proof {
                            assert(header_scan(s, is_osm_data, datasize) == header_scan(
                                fs.skip(i as int + 1),
                                is_osm_data,
                                datasize,
                            ));
                        }
                    } else {
                        proof {
                            assert(header_scan(s, is_osm_data, datasize) is None);
                        }
                        return None;
                    }
                },
                _ => {
                    proof {
                        assert(header_scan(s, is_osm_data, datasize) is None);
                    }
                    return None;
                },
            }
        } else if f.tag == 3 {
            proof {
                assert(header_scan(s, is_osm_data, datasize) == header_scan(
                    fs.skip(i as int + 1),
                    is_osm_data,
                    val_u32(fs[i as int].1),
                ));
            }
            datasize = f.value.as_u32();
        } else {
            proof {
                assert(header_scan(s, is_osm_data, datasize) == header_scan(
                    fs.skip(i as int + 1),
                    is_osm_data,
                    datasize,
                ));
            }
        }
        i = i + 1;
    }
    proof {
        assert(fs.skip(n as int) =~= Seq::<(u32, WireVal)>::empty());
    }
    Some(BlobHeader { is_osm_data, datasize })
}

/// Pick the blob payload out of a blob message: the first raw or compressed
/// byte field. `None` makes the frame skippable.
pub fn parse_blob(data: &[u8]) -> (r: Option<Blob>)
    ensures
        r matches Some(b) ==> payload_of(fields_of(data@, 0)) == Some(b@),
        r is None ==> payload_of(fields_of(data@, 0)) is None,
{
    let fields = read_fields(data);
    let ghost fs = wire_fields_view(fields@);
    proof {
        assert(fs.skip(0) =~= fs);
    }
    let n = fields.len();
    let mut i: usize = 0;
    while i < n
        invariant
            n == fields@.len(),
            i <= n,
            fs == wire_fields_view(fields@),
            fs == fields_of(data@, 0),
            payload_of(fs.skip(i as int)) == payload_of(fs),
        decreases n - i,
    {
        let f = &fields[i];
        proof {
            assert(fs[i as int] == fields@[i as int]@);
            assert(fs.skip(i as int)[0] == fs[i as int]);
            assert(fs.skip(i as int).skip(1) =~= fs.skip(i as int + 1));
        }
        match &f.value {
            WireValue::Bytes(b) => {
                if f.tag == 1 {
                    return Some(Blob::Raw(b.clone()));
                } else if f.tag == 3 {
                    return Some(Blob::Zlib(b.clone()));
                }
            },
            _ => {},
        }
        i = i + 1;
    }
    proof {
        assert(fs.skip(n as int) =~= Seq::<(u32, WireVal)>::empty());
    }
    None
}

/// Pulls data blobs out of a framed container buffer, one frame at a time.
pub struct BlobReader {
    data: Vec<u8>,
    pos: usize,
}

impl BlobReader {
    /// The reader never runs past the end of its buffer.
    pub closed spec fn wf(&self) -> bool {
        self.pos <= self.data@.len()
    }

    /// The blobs this reader has yet to yield, in stream order.
    pub closed spec fn remaining(&self) -> Seq<BlobV> {
        blobs_from(self.data@, self.pos as int)
    }

    /// A reader positioned at the start of the buffer.
    pub fn new(data: Vec<u8>) -> (r: Self)
        ensures
            r.wf(),
            r.remaining() == blobs_from(data@, 0),
    {
        BlobReader { data, pos: 0 }
    }

    /// The next data blob, decoded and cut out of the stream, or `None` once
    /// the stream has ended; header frames and payload-less frames are
    /// skipped in a plain loop.
    pub fn next(&mut self) -> (r: Option<Blob>)
        requires
            old(self).wf(),
        ensures
            final(self).wf(),
            match r {
                Some(b) => {
                    &&& old(self).remaining().len() > 0
                    &&& b@ == old(self).remaining()[0]
                    &&& final(self).remaining() == old(self).remaining().skip(1)
                },
                None => {
                    &&& old(self).remaining().len() == 0
                    &&& final(self).remaining().len() == 0
                },
            },
    {
        loop
            invariant
                self.wf(),
                self.remaining() == old(self).remaining(),
            decreases self.data@.len() - self.pos,
        {
            if self.data.len() - self.pos < 4 {
                return None;
            }
            let hlen = read_be_u32(self.data.as_slice(), self.pos) as usize;
            if self.data.len() - (self.pos + 4) < hlen {
                return None;
            }
            let hdr_start = self.pos + 4;
            let hdr_end = hdr_start + hlen;
            let header = match parse_blob_header(&self.data.as_slice()[hdr_start..hdr_end]) {
                Some(h) => h,
                None => {
                    return None;
                },
            };
            let ds = header.datasize as usize;
            if self.data.len() - hdr_end < ds {
                return None;
            }
            let blob_end = hdr_end + ds;
            if header.is_osm_data {
                let blob = parse_blob(&self.data.as_slice()[hdr_end..blob_end]);
                self.pos = blob_end;
                match blob {
                    Some(b) => {
                        return Some(b);
                    },
                    None => {
                        // a data frame without a payload: skip it
                    },
                }
            } else {
                self.pos = blob_end;
            }
        }
    }
}

} // verus!

//! One frame's payload: raw bytes, or a zlib-compressed buffer that is
//! inflated on demand.

use crate::DecodeError;
use vstd::prelude::*;

verus! {

/// What zlib decompression yields for a buffer, or `None` where the buffer is
/// not a well-formed zlib stream. Decompression is a function of the bytes
/// alone; its definition is the zlib format's.
pub uninterp spec fn inflate_of(data: Seq<u8>) -> Option<Seq<u8>>;

/// Relies on flate2's `ZlibDecoder`, read to the end over an in-memory
/// buffer: it inflates the whole zlib stream, and fails on corrupt input.
#[verifier::external_body]
fn zlib_inflate(data: &Vec<u8>) -> (r: Option<Vec<u8>>)
    ensures
        r matches Some(v) ==> inflate_of(data@) == Some(v@),
        r is None ==> inflate_of(data@) is None,
{
    let mut out = Vec::new();
    let mut dec = flate2::read::ZlibDecoder::new(&data[..]);
    match std::io::Read::read_to_end(&mut dec, &mut out) {
        Ok(_) => Some(out),
        Err(_) => None,
    }
}

/// A data blob cut out of the container stream, holding its payload either
/// uncompressed or zlib-compressed.
pub enum Blob {
    Raw(Vec<u8>),
    Zlib(Vec<u8>),
}

/// Mathematical counterpart of [`Blob`].
pub enum BlobV {
    Raw(Seq<u8>),
    Zlib(Seq<u8>),
}

impl View for Blob {
    type V = BlobV;

    open spec fn view(&self) -> BlobV {
        match self {
            Blob::Raw(d) => BlobV::Raw(d@),
            Blob::Zlib(d) => BlobV::Zlib(d@),
        }
    }
}

impl Blob {
    /// The decompressed payload: a raw blob's bytes unchanged, a compressed
    /// blob's inflation. A corrupt zlib stream is the fatal fault
    /// [`DecodeError::CorruptZlib`].
    pub fn into_data(self) -> (r: Result<Vec<u8>, DecodeError>)
        ensures
            match self {
                Blob::Raw(d) => r matches Ok(v) && v@ == d@,
                Blob::Zlib(c) => match r {
                    Ok(v) => inflate_of(c@) == Some(v@),
                    Err(e) => e == DecodeError::CorruptZlib && inflate_of(c@) is None,
                },
            },
    {
        match self {
            Blob::Raw(data) => Ok(data),
            Blob::Zlib(compressed) => match zlib_inflate(&compressed) {
                Some(out) => Ok(out),
                None => Err(DecodeError::CorruptZlib),
            },
        }
    }
}

} // verus!

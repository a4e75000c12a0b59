//! Decoder for the OpenStreetMap PBF container format: length-framed,
//! optionally zlib-compressed, protobuf-encoded map data.
//!
//! The pipeline is: a framed byte stream is split into blobs
//! ([`blob_reader`]), each blob is decompressed ([`blob`]) into a primitive
//! block ([`primitive_block`]), and the block's primitive groups are walked
//! to produce a flat sequence of nodes, ways and relations.

use vstd::prelude::*;

pub mod blob;
pub mod blob_reader;
pub mod delimited;
pub mod delta;
pub mod info;
pub mod node;
pub mod way;
pub mod relation;
pub mod dense_info;
pub mod dense_nodes;
pub mod primitive_block;
pub mod count;
pub mod tags;
pub mod wire;

pub use blob::Blob;
pub use blob_reader::{BlobHeader, BlobReader};
pub use delimited::DelimitedIter;
pub use delta::DeltaEncodedIter;
pub use dense_info::DenseInfoParser;
pub use dense_nodes::DenseNodesParser;
pub use info::{Info, InfoParser};
pub use node::Node;
pub use primitive_block::{Primitive, PrimitiveBlock, PrimitivesIterator};
pub use relation::{Relation, RelationMemberType, RelationMembersIter};
pub use tags::TagsIter;
pub use way::Way;

verus! {

/// The fatal faults: each one means the container itself is unreadable, so
/// decoding must stop instead of degrading.
#[derive(Clone, Copy, Debug, PartialEq, Eq, Structural)]
pub enum DecodeError {
    /// A compressed blob was not a well-formed zlib stream.
    CorruptZlib,
    /// A string-table entry was not length-delimited UTF-8 text.
    MalformedString,
}

} // verus!

//! Blob decompression, stream framing and block parsing on hand-built
//! containers.

use osm_pbf_iter::blob_reader::parse_blob;
use osm_pbf_iter::primitive_block::parse_stringtable;
use osm_pbf_iter::{Blob, BlobReader, DecodeError, InfoParser, PrimitiveBlock};
use std::io::Write;

fn encode_varint(mut v: u64) -> Vec<u8> {
    let mut out = Vec::new();
    loop {
        let byte = (v & 0x7f) as u8;
        v >>= 7;
        if v == 0 {
            out.push(byte);
            return out;
        }
        out.push(byte | 0x80);
    }
}

fn field_bytes(tag: u32, payload: &[u8]) -> Vec<u8> {
    let mut out = encode_varint(((tag as u64) << 3) | 2);
    out.extend(encode_varint(payload.len() as u64));
    out.extend_from_slice(payload);
    out
}

fn field_varint(tag: u32, v: u64) -> Vec<u8> {
    let mut out = encode_varint((tag as u64) << 3);
    out.extend(encode_varint(v));
    out
}

fn zlib_compress(data: &[u8]) -> Vec<u8> {
    let mut enc = flate2::write::ZlibEncoder::new(Vec::new(), flate2::Compression::default());
    enc.write_all(data).unwrap();
    enc.finish().unwrap()
}

fn frame(header_type: &[u8], blob_msg: &[u8]) -> Vec<u8> {
    let mut header = field_bytes(1, header_type);
    header.extend(field_varint(3, blob_msg.len() as u64));
    let mut out = (header.len() as u32).to_be_bytes().to_vec();
    out.extend(header);
    out.extend_from_slice(blob_msg);
    out
}

#[test]
fn raw_blob_returns_bytes_unchanged() {
    let payload = vec![1u8, 2, 3, 250];
    assert_eq!(Blob::Raw(payload.clone()).into_data().unwrap(), payload);
    assert_eq!(Blob::Raw(Vec::new()).into_data().unwrap(), Vec::<u8>::new());
}

#[test]
fn zlib_blob_round_trips() {
    let plain = b"a compressible payload: aaaaaaaaaaaaaaaaaaaaaaaaaaaaaa".to_vec();
    let blob = Blob::Zlib(zlib_compress(&plain));
    assert_eq!(blob.into_data().unwrap(), plain);
}

#[test]
fn zlib_blob_round_trips_empty_buffer() {
    let blob = Blob::Zlib(zlib_compress(&[]));
    assert_eq!(blob.into_data().unwrap(), Vec::<u8>::new());
}

#[test]
fn corrupt_zlib_is_the_fatal_fault() {
    let blob = Blob::Zlib(vec![1, 2, 3, 4]);
    assert_eq!(blob.into_data().unwrap_err(), DecodeError::CorruptZlib);
}

#[test]
fn truncated_length_prefix_ends_stream() {
    for stream in [vec![], vec![0u8], vec![0u8, 0], vec![0u8, 0, 1]] {
        let mut reader = BlobReader::new(stream);
        assert!(reader.next().is_none());
    }
}

#[test]
fn short_frame_body_ends_stream() {
    // a length prefix promising 100 header bytes that never come
    let mut reader = BlobReader::new(vec![0, 0, 0, 100, 1, 2]);
    assert!(reader.next().is_none());
}

#[test]
fn unknown_header_type_ends_stream() {
    let mut stream = frame(b"SomethingElse", &field_bytes(1, b"xy"));
    stream.extend(frame(b"OSMData", &field_bytes(1, b"real")));
    let mut reader = BlobReader::new(stream);
    // the unrecognized type ends the stream before the data frame
    assert!(reader.next().is_none());
}

#[test]
fn header_frames_are_skipped() {
    let mut stream = frame(b"OSMHeader", &field_bytes(1, b"bbox etc"));
    stream.extend(frame(b"OSMData", &field_bytes(1, b"payload")));
    let mut reader = BlobReader::new(stream);
    match reader.next().unwrap() {
        Blob::Raw(d) => assert_eq!(d, b"payload".to_vec()),
        Blob::Zlib(_) => panic!("expected a raw blob"),
    }
    assert!(reader.next().is_none());
}

#[test]
fn payload_less_data_frames_are_skipped() {
    // a data frame whose blob message has neither raw nor zlib payload
    let mut stream = frame(b"OSMData", &field_varint(9, 7));
    stream.extend(frame(b"OSMData", &field_bytes(1, b"second")));
    let mut reader = BlobReader::new(stream);
    match reader.next().unwrap() {
        Blob::Raw(d) => assert_eq!(d, b"second".to_vec()),
        Blob::Zlib(_) => panic!("expected a raw blob"),
    }
    assert!(reader.next().is_none());
}

#[test]
fn zlib_payload_field_is_recognized() {
    let compressed = zlib_compress(b"hello");
    let blob_msg = field_bytes(3, &compressed);
    match parse_blob(&blob_msg).unwrap() {
        Blob::Zlib(c) => assert_eq!(Blob::Zlib(c).into_data().unwrap(), b"hello".to_vec()),
        Blob::Raw(_) => panic!("expected a zlib blob"),
    }
}

#[test]
fn block_defaults_on_empty_buffer() {
    let block = PrimitiveBlock::parse(&[]).unwrap();
    assert_eq!(block.granularity, 100);
    assert_eq!(block.lat_offset, 0);
    assert_eq!(block.lon_offset, 0);
    assert_eq!(block.date_granularity, 1000);
    assert!(block.stringtable.is_empty());
}

#[test]
fn block_fields_are_read() {
    let mut st_msg = field_bytes(1, b"");
    st_msg.extend(field_bytes(1, "café".as_bytes()));
    let mut block_msg = field_bytes(1, &st_msg);
    block_msg.extend(field_varint(17, 200));
    block_msg.extend(field_varint(18, 2000));
    // offsets are zigzag-coded: 2 → 1, 3 → -2
    block_msg.extend(field_varint(19, 2));
    block_msg.extend(field_varint(20, 3));
    let block = PrimitiveBlock::parse(&block_msg).unwrap();
    assert_eq!(block.stringtable, vec!["".to_string(), "café".to_string()]);
    assert_eq!(block.granularity, 200);
    assert_eq!(block.date_granularity, 2000);
    assert_eq!(block.lat_offset, 1);
    assert_eq!(block.lon_offset, -2);
}

#[test]
fn malformed_stringtable_is_the_fatal_fault() {
    let st_msg = field_bytes(1, &[0xff, 0xfe]);
    let block_msg = field_bytes(1, &st_msg);
    assert_eq!(
        PrimitiveBlock::parse(&block_msg).unwrap_err(),
        DecodeError::MalformedString
    );
    assert_eq!(
        parse_stringtable(&st_msg).unwrap_err(),
        DecodeError::MalformedString
    );
}

#[test]
fn coordinate_scaling_follows_the_block_formula() {
    let block = PrimitiveBlock::parse(&[]).unwrap();
    // granularity 100, offset 0, raw 12345 → 1234500 nanodegrees
    let nano = block.convert_lat(12345);
    assert_eq!(nano, 1234500);
    assert_eq!(1e-9 * nano as f64, 1e-9 * 100.0 * 12345.0);

    let mut block_msg = field_varint(17, 1000);
    block_msg.extend(field_varint(19, 8)); // lat offset 4
    let shifted = PrimitiveBlock::parse(&block_msg).unwrap();
    assert_eq!(shifted.convert_lat(7), 4 + 1000 * 7);
}

#[test]
fn date_scaling_multiplies_by_granularity() {
    let block = PrimitiveBlock::parse(&[]).unwrap();
    assert_eq!(block.convert_date(5), 5000);
}

#[test]
fn info_parse_resolves_user_and_flags() {
    let st = vec!["".to_string(), "alice".to_string()];
    let mut msg = field_varint(1, 2);
    msg.extend(field_varint(2, 555));
    msg.extend(field_varint(5, 1));
    msg.extend(field_varint(6, 1));
    let info = osm_pbf_iter::Info::parse(&st, &msg);
    assert_eq!(info.version, Some(2));
    // raw block units on the discrete path, not milliseconds
    assert_eq!(info.timestamp, Some(555));
    assert_eq!(info.changeset, None);
    assert_eq!(info.uid, None);
    assert_eq!(info.user, Some("alice".to_string()));
    assert_eq!(info.visible, Some(true));
}

#[test]
fn info_parse_stops_at_bad_user_index() {
    let st = vec!["".to_string()];
    let mut msg = field_varint(1, 2);
    msg.extend(field_varint(5, 9));
    msg.extend(field_varint(6, 1));
    let info = osm_pbf_iter::Info::parse(&st, &msg);
    // the fields before the bad index are kept, the rest are dropped
    assert_eq!(info.version, Some(2));
    assert_eq!(info.user, None);
    assert_eq!(info.visible, None);
}

#[test]
fn info_parser_reads_first_occurrences() {
    let mut msg = field_varint(1, 3);
    msg.extend(field_varint(2, 1234567));
    msg.extend(field_varint(3, 99));
    msg.extend(field_varint(4, 42));
    let info = InfoParser::new(&msg);
    assert_eq!(info.version(), 3);
    // the discrete path keeps the timestamp in raw block units
    assert_eq!(info.timestamp(), 1234567);
    assert_eq!(info.changeset(), 99);
    assert_eq!(info.uid(), 42);

    let empty = InfoParser::new(&[]);
    assert_eq!(empty.version(), 0);
    assert_eq!(empty.timestamp(), 0);
    assert_eq!(empty.changeset(), 0);
    assert_eq!(empty.uid(), 0);
}

//! Wire-format primitives, cross-checked against the protobuf_iter crate's
//! reader on identical buffers.

use osm_pbf_iter::wire::{
    read_be_u32, read_field, read_le_u32, read_le_u64, read_packed_i32s, read_packed_i64s,
    read_packed_u32s, read_varint, zigzag_decode, WireValue,
};

fn encode_varint(mut v: u64) -> Vec<u8> {
    let mut out = Vec::new();
    loop {
        let byte = (v & 0x7f) as u8;
        v >>= 7;
        if v == 0 {
            out.push(byte);
            return out;
        }
        out.push(byte | 0x80);
    }
}

#[test]
fn varint_simple_values() {
    for v in [0u64, 1, 127, 128, 150, 300, 86942, u32::MAX as u64, u64::MAX] {
        let data = encode_varint(v);
        let (got, end) = read_varint(&data, 0).unwrap();
        assert_eq!(got, v);
        assert_eq!(end, data.len());
    }
}

#[test]
fn varint_columns_match_protobuf_iter() {
    let buffers: Vec<Vec<u8>> = vec![
        encode_varint(0),
        encode_varint(150),
        encode_varint(300),
        encode_varint(u64::MAX),
        vec![0x96, 0x01, 0x07],
        vec![0xff, 0xff, 0x01],
    ];
    for data in buffers {
        let mine = osm_pbf_iter::wire::read_packed(&data);
        let theirs: Vec<u64> =
            protobuf_iter::PackedIter::<protobuf_iter::PackedVarint, u64>::new(&data).collect();
        assert_eq!(mine, theirs);
    }
}

#[test]
fn varint_unterminated_is_rejected() {
    assert!(read_varint(&[0x80, 0x80], 0).is_none());
    assert!(read_varint(&[], 0).is_none());
}

#[test]
fn zigzag_matches_reference_values() {
    assert_eq!(zigzag_decode(0), 0);
    assert_eq!(zigzag_decode(1), -1);
    assert_eq!(zigzag_decode(2), 1);
    assert_eq!(zigzag_decode(3), -2);
    assert_eq!(zigzag_decode(4294967294), 2147483647);
    assert_eq!(zigzag_decode(4294967295), -2147483648);
    assert_eq!(zigzag_decode(u64::MAX), i64::MIN);
}

#[test]
fn field_decoding_matches_protobuf_iter() {
    // tag 2, length-delimited "testing"
    let data = vec![0x12, 0x07, 0x74, 0x65, 0x73, 0x74, 0x69, 0x6e, 0x67];
    let (tag, value, end) = read_field(&data, 0).unwrap();
    assert_eq!(tag, 2);
    assert_eq!(end, data.len());
    match value {
        WireValue::Bytes(b) => assert_eq!(b, b"testing".to_vec()),
        _ => panic!("expected a byte payload"),
    }
    let mut iter = protobuf_iter::MessageIter::new(&data);
    let field = iter.next().unwrap();
    assert_eq!(field.tag, 2);
    let payload: &[u8] = field.value.get_data();
    assert_eq!(payload, b"testing");
    assert!(iter.next().is_none());

    // tag 1, varint 150
    let data = vec![0x08, 0x96, 0x01];
    let (tag, value, end) = read_field(&data, 0).unwrap();
    assert_eq!(tag, 1);
    assert_eq!(end, 3);
    match value {
        WireValue::Varint(v) => assert_eq!(v, 150),
        _ => panic!("expected a varint"),
    }
    let mut iter = protobuf_iter::MessageIter::new(&data);
    let field = iter.next().unwrap();
    assert_eq!(field.tag, 1);
    let theirs: u64 = From::from(field.value);
    assert_eq!(theirs, 150);
}

#[test]
fn field_with_overlong_length_ends_iteration() {
    // tag 1, length-delimited claiming 100 bytes with only 2 present
    let data = vec![0x0a, 0x64, 0x01, 0x02];
    assert!(read_field(&data, 0).is_none());
}

#[test]
fn fixed_width_reads() {
    let data = vec![0x96, 0, 0, 0, 0, 0, 0, 0, 9];
    assert_eq!(read_le_u32(&data, 0), 150);
    assert_eq!(read_le_u64(&data, 0), 150);
    assert_eq!(read_be_u32(&[0, 0, 1, 2], 0), 258);
    assert_eq!(read_be_u32(&[0xde, 0xad, 0xbe, 0xef], 0), 0xdeadbeef);
}

#[test]
fn packed_columns() {
    // 3, 270, 86942 as packed varints
    let data = vec![0x03, 0x8e, 0x02, 0x9e, 0xa7, 0x05];
    assert_eq!(read_packed_u32s(&data), vec![3, 270, 86942]);

    let mut signed = Vec::new();
    for v in [0u64, 1, 6, 3] {
        signed.extend(encode_varint(v));
    }
    assert_eq!(read_packed_i64s(&signed), vec![0, -1, 3, -2]);
    assert_eq!(read_packed_i32s(&signed), vec![0, -1, 3, -2]);

    // a trailing unterminated varint ends the column
    let cut = vec![0x03, 0x80];
    assert_eq!(read_packed_u32s(&cut), vec![3]);

    assert_eq!(read_packed_u32s(&[]), Vec::<u32>::new());
}

#[test]
fn sign_extended_ten_byte_varint_reads_back() {
    // minus one, sign-extended to ten bytes the way some writers emit
    // negative 32-bit values: all sixty-four bits set
    let data = vec![0xff, 0xff, 0xff, 0xff, 0xff, 0xff, 0xff, 0xff, 0xff, 0x01];
    let (v, end) = read_varint(&data, 0).unwrap();
    assert_eq!(v, u64::MAX);
    assert_eq!(end, 10);
    assert_eq!(zigzag_decode(v), i64::MIN);
}

//! Whole-container decodes of hand-built fixtures: framing, decompression,
//! block parsing and the flattened primitive stream, checked entity by
//! entity and against a reference text dump.

use osm_pbf_iter::{Blob, BlobReader, Primitive, PrimitiveBlock, RelationMemberType};
use std::io::Write;

fn encode_varint(mut v: u64) -> Vec<u8> {
    let mut out = Vec::new();
    loop {
        let byte = (v & 0x7f) as u8;
        v >>= 7;
        if v == 0 {
            out.push(byte);
            return out;
        }
        out.push(byte | 0x80);
    }
}

fn zigzag_enc(v: i64) -> u64 {
    ((v << 1) ^ (v >> 63)) as u64
}

fn field_bytes(tag: u32, payload: &[u8]) -> Vec<u8> {
    let mut out = encode_varint(((tag as u64) << 3) | 2);
    out.extend(encode_varint(payload.len() as u64));
    out.extend_from_slice(payload);
    out
}

fn field_varint(tag: u32, v: u64) -> Vec<u8> {
    let mut out = encode_varint((tag as u64) << 3);
    out.extend(encode_varint(v));
    out
}

fn packed(vals: &[u64]) -> Vec<u8> {
    let mut out = Vec::new();
    for v in vals {
        out.extend(encode_varint(*v));
    }
    out
}

fn packed_zigzag(vals: &[i64]) -> Vec<u8> {
    let mut out = Vec::new();
    for v in vals {
        out.extend(encode_varint(zigzag_enc(*v)));
    }
    out
}

fn deltas(vals: &[i64]) -> Vec<i64> {
    let mut out = Vec::new();
    let mut last = 0i64;
    for v in vals {
        out.push(v - last);
        last = *v;
    }
    out
}

fn stringtable_msg(entries: &[&str]) -> Vec<u8> {
    let mut msg = Vec::new();
    for e in entries {
        msg.extend(field_bytes(1, e.as_bytes()));
    }
    msg
}

fn zlib_compress(data: &[u8]) -> Vec<u8> {
    let mut enc = flate2::write::ZlibEncoder::new(Vec::new(), flate2::Compression::default());
    enc.write_all(data).unwrap();
    enc.finish().unwrap()
}

fn data_frame(blob_msg: &[u8]) -> Vec<u8> {
    let mut header = field_bytes(1, b"OSMData");
    header.extend(field_varint(3, blob_msg.len() as u64));
    let mut out = (header.len() as u32).to_be_bytes().to_vec();
    out.extend(header);
    out.extend_from_slice(blob_msg);
    out
}

fn decode_stream(stream: Vec<u8>) -> Vec<String> {
    let mut dump = Vec::new();
    let mut reader = BlobReader::new(stream);
    while let Some(blob) = reader.next() {
        let data = blob.into_data().unwrap();
        let block = PrimitiveBlock::parse(&data).unwrap();
        let mut primitives = block.primitives();
        while let Some(p) = primitives.next() {
            match p {
                Primitive::Node(node) => {
                    let tags: Vec<String> = node
                        .tags
                        .iter()
                        .map(|(k, v)| format!("{}={}", k, v))
                        .collect();
                    let user = node
                        .info
                        .as_ref()
                        .and_then(|i| i.user.clone())
                        .unwrap_or_default();
                    let ts = node.info.as_ref().and_then(|i| i.timestamp);
                    dump.push(format!(
                        "node {} lat={} lon={} ts={:?} user={} [{}]",
                        node.id,
                        node.lat,
                        node.lon,
                        ts,
                        user,
                        tags.join(",")
                    ));
                }
                Primitive::Way(way) => {
                    let refs: Vec<String> =
                        way.refs().iter().map(|r| format!("{}", r)).collect();
                    let tags: Vec<String> = way
                        .tags()
                        .iter()
                        .map(|(k, v)| format!("{}={}", k, v))
                        .collect();
                    dump.push(format!(
                        "way {} refs=[{}] [{}]",
                        way.id,
                        refs.join(","),
                        tags.join(",")
                    ));
                }
                Primitive::Relation(rel) => {
                    let members: Vec<String> = rel
                        .members()
                        .iter()
                        .map(|(role, id, t)| {
                            let kind = match t {
                                RelationMemberType::Node => "node",
                                RelationMemberType::Way => "way",
                                RelationMemberType::Relation => "relation",
                            };
                            format!("{}/{}/{}", kind, id, role)
                        })
                        .collect();
                    let tags: Vec<String> = rel
                        .tags()
                        .iter()
                        .map(|(k, v)| format!("{}={}", k, v))
                        .collect();
                    dump.push(format!(
                        "relation {} members=[{}] [{}]",
                        rel.id,
                        members.join(","),
                        tags.join(",")
                    ));
                }
            }
        }
    }
    dump
}

#[test]
fn sixty_four_bit_ids_survive_the_round_trip() {
    let big_id: i64 = (1i64 << 33) + 5;
    let mut node_msg = field_varint(1, zigzag_enc(big_id));
    node_msg.extend(field_varint(8, zigzag_enc(900_000_000)));
    node_msg.extend(field_varint(9, zigzag_enc(-1_800_000_000)));
    let group = field_bytes(1, &node_msg);

    let mut way_msg = field_varint(1, (1u64 << 40) + 7);
    way_msg.extend(field_bytes(
        8,
        &packed_zigzag(&deltas(&[1i64 << 35, (1i64 << 35) + 10])),
    ));
    let group2 = field_bytes(3, &way_msg);

    let mut block_msg = field_bytes(2, &group);
    block_msg.extend(field_bytes(2, &group2));

    let stream = data_frame(&field_bytes(3, &zlib_compress(&block_msg)));
    let dump = decode_stream(stream);
    assert_eq!(
        dump,
        vec![
            format!(
                "node {} lat={} lon={} ts=None user= []",
                big_id,
                100i64 * 900_000_000,
                100i64 * -1_800_000_000
            ),
            format!(
                "way {} refs=[{},{}] []",
                (1u64 << 40) + 7,
                1i64 << 35,
                (1i64 << 35) + 10
            ),
        ]
    );
}

#[test]
fn multipolygon_relation_resolves_members() {
    let st = stringtable_msg(&["", "outer", "inner", "type", "multipolygon"]);

    let mut way1 = field_varint(1, 11);
    way1.extend(field_bytes(8, &packed_zigzag(&deltas(&[1, 2, 3, 1]))));
    let mut way2 = field_varint(1, 12);
    way2.extend(field_bytes(8, &packed_zigzag(&deltas(&[4, 5, 4]))));

    let mut rel = field_varint(1, 77);
    rel.extend(field_bytes(2, &packed(&[3])));
    rel.extend(field_bytes(3, &packed(&[4])));
    // roles: sids 1 ("outer") and 2 ("inner"), zigzag-coded
    rel.extend(field_bytes(8, &packed_zigzag(&[1, 2])));
    rel.extend(field_bytes(9, &packed_zigzag(&deltas(&[11, 12]))));
    rel.extend(field_bytes(10, &packed(&[1, 1])));

    let mut group = field_bytes(3, &way1);
    group.extend(field_bytes(3, &way2));
    group.extend(field_bytes(4, &rel));

    let mut block_msg = field_bytes(1, &st);
    block_msg.extend(field_bytes(2, &group));

    let stream = data_frame(&field_bytes(1, &block_msg));
    let dump = decode_stream(stream);
    assert_eq!(
        dump,
        vec![
            "way 11 refs=[1,2,3,1] []".to_string(),
            "way 12 refs=[4,5,4] []".to_string(),
            "relation 77 members=[way/11/outer,way/12/inner] [type=multipolygon]".to_string(),
        ]
    );
}

#[test]
fn dense_nodes_with_variable_tag_runs() {
    let st = stringtable_msg(&["", "amenity", "bench", "name", "A", "alice", "bob"]);

    let mut dense = field_bytes(1, &packed_zigzag(&deltas(&[10, 11, 13])));
    // dense info: versions, timestamps, changesets, uids, user sids, visibles
    let mut dense_info = field_bytes(1, &packed(&[1, 2, 3]));
    dense_info.extend(field_bytes(2, &packed_zigzag(&deltas(&[100, 110, 90]))));
    dense_info.extend(field_bytes(3, &packed_zigzag(&deltas(&[7, 7, 8]))));
    dense_info.extend(field_bytes(4, &packed_zigzag(&deltas(&[500, 500, 501]))));
    dense_info.extend(field_bytes(5, &packed_zigzag(&deltas(&[5, 6, 6]))));
    dense_info.extend(field_bytes(6, &packed(&[1, 0, 1])));
    dense.extend(field_bytes(5, &dense_info));
    dense.extend(field_bytes(8, &packed_zigzag(&deltas(&[50, -20, 0]))));
    dense.extend(field_bytes(9, &packed_zigzag(&deltas(&[7, 7, -7]))));
    // tag runs: two pairs; none; one pair
    dense.extend(field_bytes(
        10,
        &packed(&[1, 2, 3, 4, 0, 0, 3, 4, 0]),
    ));

    let group = field_bytes(2, &dense);
    let mut block_msg = field_bytes(1, &st);
    block_msg.extend(field_bytes(2, &group));

    let stream = data_frame(&field_bytes(1, &block_msg));
    let dump = decode_stream(stream);
    assert_eq!(
        dump,
        vec![
            // timestamps are scaled by the default date granularity of 1000
            "node 10 lat=5000 lon=700 ts=Some(100000) user=alice [amenity=bench,name=A]"
                .to_string(),
            "node 11 lat=-2000 lon=700 ts=Some(110000) user=bob []".to_string(),
            "node 13 lat=0 lon=-700 ts=Some(90000) user=bob [name=A]".to_string(),
        ]
    );
}

#[test]
fn blocks_in_one_stream_keep_their_order() {
    let mut node1 = field_varint(1, zigzag_enc(1));
    node1.extend(field_varint(8, zigzag_enc(5)));
    node1.extend(field_varint(9, zigzag_enc(6)));
    let block1 = field_bytes(2, &field_bytes(1, &node1));

    let node2 = field_varint(1, zigzag_enc(2));
    let block2 = field_bytes(2, &field_bytes(1, &node2));

    let mut stream = data_frame(&field_bytes(1, &block1));
    stream.extend(data_frame(&field_bytes(3, &zlib_compress(&block2))));

    let dump = decode_stream(stream);
    assert_eq!(
        dump,
        vec![
            "node 1 lat=500 lon=600 ts=None user= []".to_string(),
            "node 2 lat=0 lon=0 ts=None user= []".to_string(),
        ]
    );
}

#[test]
fn counting_matches_the_stream() {
    let mut node = field_varint(1, zigzag_enc(4));
    node.extend(field_varint(8, zigzag_enc(1)));
    node.extend(field_varint(9, zigzag_enc(2)));
    let way = field_varint(1, 5);
    let mut rel = field_varint(1, 6);
    rel.extend(field_bytes(8, &packed_zigzag(&[0])));
    rel.extend(field_bytes(9, &packed_zigzag(&[9])));
    rel.extend(field_bytes(10, &packed(&[0])));

    let mut group = field_bytes(1, &node);
    group.extend(field_bytes(3, &way));
    group.extend(field_bytes(3, &way));
    group.extend(field_bytes(4, &rel));

    let mut block_msg = field_bytes(1, &stringtable_msg(&[""]));
    block_msg.extend(field_bytes(2, &group));

    let block = PrimitiveBlock::parse(&block_msg).unwrap();
    assert_eq!(block.count_primitives(), (1, 2, 1));
}

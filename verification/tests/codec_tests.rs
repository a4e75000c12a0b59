//! The delta, delimited and tag-resolution codecs on concrete columns.

use osm_pbf_iter::{DelimitedIter, DeltaEncodedIter, TagsIter};

fn encode_varint(mut v: u64) -> Vec<u8> {
    let mut out = Vec::new();
    loop {
        let byte = (v & 0x7f) as u8;
        v >>= 7;
        if v == 0 {
            out.push(byte);
            return out;
        }
        out.push(byte | 0x80);
    }
}

fn packed(vals: &[u64]) -> Vec<u8> {
    let mut out = Vec::new();
    for v in vals {
        out.extend(encode_varint(*v));
    }
    out
}

#[test]
fn delta_running_sum() {
    // zigzag varints [0,1,6,3] decode to deltas [0,-1,3,-2]
    let mut it = DeltaEncodedIter::new(&[0, 1, 6, 3]);
    let mut got = Vec::new();
    while let Some(v) = it.next() {
        got.push(v);
    }
    assert_eq!(got, vec![0, -1, 2, 0]);
}

#[test]
fn delta_empty_input() {
    let mut it = DeltaEncodedIter::new(&[]);
    assert_eq!(it.next(), None);
    assert_eq!(it.next(), None);
}

#[test]
fn delta_restartable_per_construction() {
    let data = [2u8, 2, 2];
    let mut first = DeltaEncodedIter::new(&data);
    assert_eq!(first.next(), Some(1));
    assert_eq!(first.next(), Some(2));
    let mut second = DeltaEncodedIter::new(&data);
    assert_eq!(second.next(), Some(1));
}

#[test]
fn delimited_groups() {
    // [5, 7, 0, 9, 0, 3] → groups [5,7], [9], [3]
    let data = packed(&[5, 7, 0, 9, 0, 3]);
    let mut it = DelimitedIter::new(&data);
    assert_eq!(it.next(), vec![5, 7]);
    assert_eq!(it.next(), vec![9]);
    assert_eq!(it.next(), vec![3]);
    // exhausted: every further group is empty
    assert_eq!(it.next(), Vec::<u32>::new());
    assert_eq!(it.next(), Vec::<u32>::new());
}

#[test]
fn delimited_leading_zero_is_empty_group() {
    let data = packed(&[0, 4]);
    let mut it = DelimitedIter::new(&data);
    assert_eq!(it.next(), Vec::<u32>::new());
    assert_eq!(it.next(), vec![4]);
}

#[test]
fn delimited_size_hint_bounds_groups_by_elements() {
    let data = packed(&[5, 7, 0, 9, 0, 3]);
    let mut it = DelimitedIter::new(&data);
    // the upper bound equals the packed elements left, so it never claims
    // more groups than that count
    assert_eq!(it.size_hint(), (0, Some(6)));
    it.next();
    assert_eq!(it.size_hint(), (0, Some(3)));
    it.next();
    assert_eq!(it.size_hint(), (0, Some(1)));
    it.next();
    assert_eq!(it.size_hint(), (0, Some(0)));
    it.next();
    assert_eq!(it.size_hint(), (0, Some(0)));
}

fn table() -> Vec<String> {
    vec![
        "highway".to_string(),
        "yes".to_string(),
        "crossing".to_string(),
        "lit".to_string(),
    ]
}

fn resolve(keys: &[u64], vals: &[u64]) -> Vec<(String, String)> {
    let st = table();
    let mut it = TagsIter::new(&st);
    it.set_keys(&packed(keys));
    it.set_values(&packed(vals));
    it.collect_tags()
}

#[test]
fn tags_resolve_in_lock_step() {
    assert_eq!(
        resolve(&[0, 3], &[2, 1]),
        vec![
            ("highway".to_string(), "crossing".to_string()),
            ("lit".to_string(), "yes".to_string()),
        ]
    );
}

#[test]
fn tags_stop_when_keys_run_out() {
    assert_eq!(
        resolve(&[0], &[2, 1]),
        vec![("highway".to_string(), "crossing".to_string())]
    );
}

#[test]
fn tags_stop_when_values_run_out() {
    assert_eq!(
        resolve(&[0, 3], &[2]),
        vec![("highway".to_string(), "crossing".to_string())]
    );
}

#[test]
fn tags_discard_all_on_leading_bad_key() {
    assert_eq!(resolve(&[4, 3], &[2, 1]), Vec::<(String, String)>::new());
}

#[test]
fn tags_truncate_after_bad_value_index() {
    assert_eq!(
        resolve(&[0, 3], &[2, 210]),
        vec![("highway".to_string(), "crossing".to_string())]
    );
}

#[test]
fn tags_empty_without_columns() {
    let st = table();
    let mut it = TagsIter::new(&st);
    assert_eq!(it.collect_tags(), Vec::<(String, String)>::new());
}

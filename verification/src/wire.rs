//! Protocol-buffer wire-format primitives: base-128 varints, zigzag-coded
//! signed integers, fixed-width little-endian values, and the splitting of a
//! raw buffer into a sequence of tagged fields.
//!
//! Everything here is total: malformed bytes (a varint that runs past the end
//! of the buffer, a length that claims more bytes than remain) end the field
//! sequence instead of failing.

use vstd::arithmetic::div_mod::{
    lemma_add_mod_noop, lemma_mul_mod_noop_left, lemma_mul_mod_noop_right,
};
use vstd::prelude::*;

verus! {

/// Position just past the varint that starts at `i`, or `None` if the buffer
/// ends before a terminating byte (one with its high bit clear) is found.
pub open spec fn vint_end(d: Seq<u8>, i: int) -> Option<int>
    decreases d.len() - i,
{
    if i < 0 || i >= d.len() {
        None
    } else if d[i] < 128 {
        Some(i + 1)
    } else {
        vint_end(d, i + 1)
    }
}

/// The unbounded value of the varint starting at `i`: its 7-bit groups in
/// little-endian order. Bytes past the end of the buffer contribute nothing.
pub open spec fn vint_raw(d: Seq<u8>, i: int) -> nat
    decreases d.len() - i,
{
    if i < 0 || i >= d.len() {
        0
    } else if d[i] < 128 {
        d[i] as nat
    } else {
        (d[i] - 128) as nat + 128 * vint_raw(d, i + 1)
    }
}

/// The value of the varint starting at `i`, reduced to 64 bits. Groups beyond
/// the tenth byte fall outside the word and are dropped, so a sign-extended
/// ten-byte encoding of a negative 32-bit number reads back correctly.
pub open spec fn vint_value(d: Seq<u8>, i: int) -> u64 {
    (vint_raw(d, i) % 0x1_0000_0000_0000_0000) as u64
}

pub proof fn lemma_vint_end_bounds(d: Seq<u8>, i: int)
    ensures
        vint_end(d, i) matches Some(e) ==> i < e <= d.len(),
    decreases d.len() - i,
{
    if 0 <= i < d.len() && d[i] >= 128 {
        lemma_vint_end_bounds(d, i + 1);
    }
}

/// Decode the varint starting at `start`. Returns its 64-bit value and the
/// position just past it, or `None` if the buffer ends inside the varint.
pub fn read_varint(d: &[u8], start: usize) -> (r: Option<(u64, usize)>)
    requires
        start <= d@.len(),
    ensures
        r matches Some(p) ==> {
            &&& vint_end(d@, start as int) == Some(p.1 as int)
            &&& p.0 == vint_value(d@, start as int)
            &&& start < p.1 <= d@.len()
        },
        r is None ==> vint_end(d@, start as int) is None,
{
    let ghost m: nat = 0x1_0000_0000_0000_0000;
    let mut i = start;
    let mut acc: u64 = 0;
    let mut mult: u64 = 1;
    let ghost mut psum: nat = 0;
    let ghost mut pmult: nat = 1;
    loop
        invariant
            start <= i <= d@.len(),
            vint_end(d@, start as int) == vint_end(d@, i as int),
            vint_raw(d@, start as int) == psum + pmult * vint_raw(d@, i as int),
            acc == psum % m,
            mult == pmult % m,
            m == 0x1_0000_0000_0000_0000,
        decreases d@.len() - i,
    {
        if i >= d.len() {
            return None;
        }
        let b = d[i];
        if b < 128 {
            let v = acc.wrapping_add((b as u64).wrapping_mul(mult));
            proof {
                assert(vint_raw(d@, i as int) == b as nat);
                lemma_mul_mod_noop_right(b as int, pmult as int, m as int);
                lemma_add_mod_noop(psum as int, (b as nat * pmult) as int, m as int);
                assert(psum + b as nat * pmult == vint_raw(d@, start as int)) by (nonlinear_arith)
                    requires
                        vint_raw(d@, start as int) == psum + pmult * vint_raw(d@, i as int),
                        vint_raw(d@, i as int) == b as nat,
                ;
            }
            return Some((v, i + 1));
        } else {
            acc = acc.wrapping_add(((b - 128) as u64).wrapping_mul(mult));
            mult = mult.wrapping_mul(128);
            proof {
                let g = (b - 128) as nat;
                assert(vint_raw(d@, i as int) == g + 128 * vint_raw(d@, i + 1));
                lemma_mul_mod_noop_right(g as int, pmult as int, m as int);
                lemma_add_mod_noop(psum as int, (g * pmult) as int, m as int);
                lemma_mul_mod_noop_left(pmult as int, 128, m as int);
                assert(psum + pmult * (g + 128 * vint_raw(d@, i + 1)) == (psum + pmult * g)
                    + (pmult * 128) * vint_raw(d@, i + 1)) by (nonlinear_arith);
                psum = psum + pmult * g;
                pmult = pmult * 128;
            }
            i = i + 1;
        }
    }
}

/// Little-endian 32-bit value from the four bytes at `i`.
pub open spec fn le32_at(d: Seq<u8>, i: int) -> u32 {
    (d[i] + d[i + 1] * 0x100 + d[i + 2] * 0x1_0000 + d[i + 3] * 0x100_0000) as u32
}

/// Little-endian 64-bit value from the eight bytes at `i`.
pub open spec fn le64_at(d: Seq<u8>, i: int) -> u64 {
    (d[i] + d[i + 1] * 0x100 + d[i + 2] * 0x1_0000 + d[i + 3] * 0x100_0000 + d[i + 4]
        * 0x1_0000_0000 + d[i + 5] * 0x100_0000_0000 + d[i + 6] * 0x1_0000_0000_0000 + d[i + 7]
        * 0x100_0000_0000_0000) as u64
}

/// Big-endian 32-bit value from the four bytes at `i`; the frame length
/// prefix of the container format is stored this way.
pub open spec fn be32_at(d: Seq<u8>, i: int) -> u32 {
    (d[i] * 0x100_0000 + d[i + 1] * 0x1_0000 + d[i + 2] * 0x100 + d[i + 3]) as u32
}

/// One decoded field value, by wire type. Fixed-width values are kept as
/// their little-endian integer reading; length-delimited payloads are copied
/// out of the enclosing buffer.
pub enum WireValue {
    Varint(u64),
    Fixed64(u64),
    Bytes(Vec<u8>),
    Fixed32(u32),
}

/// Mathematical counterpart of [`WireValue`].
pub enum WireVal {
    Varint(u64),
    Fixed64(u64),
    Bytes(Seq<u8>),
    Fixed32(u32),
}

impl View for WireValue {
    type V = WireVal;

    open spec fn view(&self) -> WireVal {
        match self {
            WireValue::Varint(v) => WireVal::Varint(*v),
            WireValue::Fixed64(v) => WireVal::Fixed64(*v),
            WireValue::Bytes(b) => WireVal::Bytes(b@),
            WireValue::Fixed32(v) => WireVal::Fixed32(*v),
        }
    }
}

/// Position just past the field that starts at `i`, or `None` if the field is
/// cut short by the end of the buffer or uses a wire type that cannot be
/// decoded (the deprecated group markers, or an undefined type).
pub open spec fn field_end(d: Seq<u8>, i: int) -> Option<int> {
    match vint_end(d, i) {
        Option::None => Option::None,
        Option::Some(k) => {
            let wt = vint_value(d, i) % 8;
            if wt == 0 {
                vint_end(d, k)
            } else if wt == 1 {
                if k + 8 <= d.len() {
                    Option::Some(k + 8)
                } else {
                    Option::None
                }
            } else if wt == 2 {
                match vint_end(d, k) {
                    Option::None => Option::None,
                    Option::Some(p) => {
                        if p + vint_value(d, k) <= d.len() {
                            Option::Some(p + vint_value(d, k))
                        } else {
                            Option::None
                        }
                    },
                }
            } else if wt == 5 {
                if k + 4 <= d.len() {
                    Option::Some(k + 4)
                } else {
                    Option::None
                }
            } else {
                Option::None
            }
        },
    }
}

/// Tag of the field starting at `i`: the key varint without its low three
/// bits, reduced to 32 bits.
pub open spec fn field_tag(d: Seq<u8>, i: int) -> u32 {
    ((vint_value(d, i) / 8) % 0x1_0000_0000) as u32
}

/// Value of the field starting at `i`, assuming `field_end(d, i)` is `Some`.
pub open spec fn field_val(d: Seq<u8>, i: int) -> WireVal {
    let k = vint_end(d, i)->Some_0;
    let wt = vint_value(d, i) % 8;
    if wt == 0 {
        WireVal::Varint(vint_value(d, k))
    } else if wt == 1 {
        WireVal::Fixed64(le64_at(d, k))
    } else if wt == 2 {
        let p = vint_end(d, k)->Some_0;
        WireVal::Bytes(d.subrange(p, p + vint_value(d, k)))
    } else {
        WireVal::Fixed32(le32_at(d, k))
    }
}

pub proof fn lemma_field_end_bounds(d: Seq<u8>, i: int)
    ensures
        field_end(d, i) matches Some(e) ==> i < e <= d.len(),
{
    lemma_vint_end_bounds(d, i);
    match vint_end(d, i) {
        Option::Some(k) => lemma_vint_end_bounds(d, k),
        Option::None => (),
    }
}

/// The sequence of `(tag, value)` fields of the buffer from `i` on, ending at
/// the first malformed field.
pub open spec fn fields_of(d: Seq<u8>, i: int) -> Seq<(u32, WireVal)>
    decreases d.len() - i,
        via fields_of_decreases
{
    match field_end(d, i) {
        Option::None => Seq::empty(),
        Option::Some(e) => seq![(field_tag(d, i), field_val(d, i))] + fields_of(d, e),
    }
}

#[via_fn]
proof fn fields_of_decreases(d: Seq<u8>, i: int) {
    lemma_field_end_bounds(d, i);
}

/// Decode the field starting at `start`: its tag, its value, and the position
/// just past it. `None` ends field iteration, exactly where [`field_end`]
/// says so.
pub fn read_field(d: &[u8], start: usize) -> (r: Option<(u32, WireValue, usize)>)
    requires
        start <= d@.len(),
    ensures
        r matches Some(f) ==> {
            &&& field_end(d@, start as int) == Some(f.2 as int)
            &&& f.0 == field_tag(d@, start as int)
            &&& f.1@ == field_val(d@, start as int)
            &&& start < f.2 <= d@.len()
        },
        r is None ==> field_end(d@, start as int) is None,
{
    proof {
        lemma_vint_end_bounds(d@, start as int);
    }
    let (key, k) = match read_varint(d, start) {
        Some(p) => p,
        None => {
            return None;
        },
    };
    let tag = ((key / 8) % 0x1_0000_0000) as u32;
    let wt = key % 8;
    if wt == 0 {
        proof {
            lemma_vint_end_bounds(d@, k as int);
        }
        match read_varint(d, k) {
            Some((v, e)) => Some((tag, WireValue::Varint(v), e)),
            None => None,
        }
    } else if wt == 1 {
        if d.len() - k >= 8 {
            let v = read_le_u64(d, k);
            Some((tag, WireValue::Fixed64(v), k + 8))
        } else {
            None
        }
    } else if wt == 2 {
        proof {
            lemma_vint_end_bounds(d@, k as int);
        }
        match read_varint(d, k) {
            Some((len, p)) => {
                if len <= (d.len() - p) as u64 {
                    let b = vstd::slice::slice_to_vec(&d[p..p + len as usize]);
                    Some((tag, WireValue::Bytes(b), p + len as usize))
                } else {
                    None
                }
            },
            None => None,
        }
    } else if wt == 5 {
        if d.len() - k >= 4 {
            let v = read_le_u32(d, k);
            Some((tag, WireValue::Fixed32(v), k + 4))
        } else {
            None
        }
    } else {
        None
    }
}

/// Little-endian `u32` of the four bytes at `i`.
pub fn read_le_u32(d: &[u8], i: usize) -> (r: u32)
    requires
        i + 4 <= d@.len(),
    ensures
        r == le32_at(d@, i as int),
{
    d[i] as u32 + d[i + 1] as u32 * 0x100 + d[i + 2] as u32 * 0x1_0000 + d[i + 3] as u32
        * 0x100_0000
}

/// Little-endian `u64` of the eight bytes at `i`.
pub fn read_le_u64(d: &[u8], i: usize) -> (r: u64)
    requires
        i + 8 <= d@.len(),
    ensures
        r == le64_at(d@, i as int),
{
    d[i] as u64 + d[i + 1] as u64 * 0x100 + d[i + 2] as u64 * 0x1_0000 + d[i + 3] as u64
        * 0x100_0000 + d[i + 4] as u64 * 0x1_0000_0000 + d[i + 5] as u64 * 0x100_0000_0000 + d[i
        + 6] as u64 * 0x1_0000_0000_0000 + d[i + 7] as u64 * 0x100_0000_0000_0000
}

/// Big-endian `u32` of the four bytes at `i`.
pub fn read_be_u32(d: &[u8], i: usize) -> (r: u32)
    requires
        i + 4 <= d@.len(),
    ensures
        r == be32_at(d@, i as int),
{
    d[i] as u32 * 0x100_0000 + d[i + 1] as u32 * 0x1_0000 + d[i + 2] as u32 * 0x100 + d[i
        + 3] as u32
}

/// One decoded field: a tag and its value.
pub struct WireField {
    pub tag: u32,
    pub value: WireValue,
}

impl View for WireField {
    type V = (u32, WireVal);

    open spec fn view(&self) -> (u32, WireVal) {
        (self.tag, self.value@)
    }
}

/// View of a decoded field list.
pub open spec fn wire_fields_view(s: Seq<WireField>) -> Seq<(u32, WireVal)> {
    s.map_values(|f: WireField| f@)
}

/// Decode all fields of the buffer, in order, stopping at the first malformed
/// field.
pub fn read_fields(d: &[u8]) -> (r: Vec<WireField>)
    ensures
        wire_fields_view(r@) == fields_of(d@, 0),
{
    let mut out: Vec<WireField> = Vec::new();
    let mut pos: usize = 0;
    loop
        invariant
            pos <= d@.len(),
            fields_of(d@, 0) == wire_fields_view(out@) + fields_of(d@, pos as int),
        decreases d@.len() - pos,
    {
        match read_field(d, pos) {
            Some((tag, value, e)) => {
                let ghost prev = out@;
                out.push(WireField { tag, value });
                proof {
                    assert(wire_fields_view(out@) =~= wire_fields_view(prev) + seq![
                        (tag, value@),
                    ]);
                    assert(wire_fields_view(out@) + fields_of(d@, e as int) =~= wire_fields_view(
                        prev,
                    ) + fields_of(d@, pos as int));
                }
                pos = e;
            },
            None => {
                proof {
                    assert(fields_of(d@, 0) =~= wire_fields_view(out@));
                }
                return out;
            },
        }
    }
}

/// The values of the packed varints filling the buffer from `i` on; a
/// trailing unterminated varint ends the sequence.
pub open spec fn packed_vals(d: Seq<u8>, i: int) -> Seq<u64>
    decreases d.len() - i,
        via packed_vals_decreases
{
    match vint_end(d, i) {
        Option::None => Seq::empty(),
        Option::Some(e) => seq![vint_value(d, i)] + packed_vals(d, e),
    }
}

#[via_fn]
proof fn packed_vals_decreases(d: Seq<u8>, i: int) {
    lemma_vint_end_bounds(d, i);
}

/// Decode the whole buffer as packed varints.
pub fn read_packed(d: &[u8]) -> (r: Vec<u64>)
    ensures
        r@ == packed_vals(d@, 0),
{
    let mut out: Vec<u64> = Vec::new();
    let mut pos: usize = 0;
    loop
        invariant
            pos <= d@.len(),
            packed_vals(d@, 0) == out@ + packed_vals(d@, pos as int),
        decreases d@.len() - pos,
    {
        match read_varint(d, pos) {
            Some((v, e)) => {
                let ghost prev = out@;
                out.push(v);
                proof {
                    assert(out@ + packed_vals(d@, e as int) =~= prev + packed_vals(
                        d@,
                        pos as int,
                    ));
                }
                pos = e;
            },
            None => {
                proof {
                    assert(packed_vals(d@, 0) =~= out@);
                }
                return out;
            },
        }
    }
}

/// Zigzag decoding: even varints are non-negative, odd varints negative.
pub open spec fn zigzag64(n: u64) -> i64 {
    if n % 2 == 0 {
        (n / 2) as i64
    } else {
        (-((n / 2) as int) - 1) as i64
    }
}

/// Decode a zigzag-coded signed value.
pub fn zigzag_decode(n: u64) -> (r: i64)
    ensures
        r == zigzag64(n),
{
    let half = (n / 2) as i64;
    if n % 2 == 0 {
        half
    } else {
        -half - 1
    }
}

/// The `u64` with the same bit pattern as `x` (two's complement).
pub open spec fn twos_u64(x: i64) -> u64 {
    if x >= 0 {
        x as u64
    } else {
        (x + 0x1_0000_0000_0000_0000) as u64
    }
}

/// The `i64` with the same bit pattern as `x` (two's complement).
pub open spec fn twos_i64(x: u64) -> i64 {
    if x < 0x8000_0000_0000_0000 {
        x as i64
    } else {
        (x - 0x1_0000_0000_0000_0000) as i64
    }
}

/// The `u32` with the same bit pattern as `x` (two's complement).
pub open spec fn twos_u32(x: i32) -> u32 {
    if x >= 0 {
        x as u32
    } else {
        (x + 0x1_0000_0000) as u32
    }
}

/// The `i32` with the same bit pattern as `x` (two's complement).
pub open spec fn twos_i32(x: u32) -> i32 {
    if x < 0x8000_0000 {
        x as i32
    } else {
        (x - 0x1_0000_0000) as i32
    }
}

/// The low 32 bits of `x`.
pub open spec fn low32(x: u64) -> u32 {
    (x % 0x1_0000_0000) as u32
}

/// `x` truncated to 32 bits, keeping the sign bit of the low word.
pub open spec fn crop32(x: i64) -> i32 {
    twos_i32(low32(twos_u64(x)))
}

/// Reinterpret a signed value as unsigned, as `x as u64` does.
pub fn cast_i64_u64(x: i64) -> (r: u64)
    ensures
        r == twos_u64(x),
{
    if x >= 0 {
        x as u64
    } else {
        ((x as i128) + 0x1_0000_0000_0000_0000) as u64
    }
}

/// Reinterpret an unsigned value as signed, as `x as i64` does.
pub fn cast_u64_i64(x: u64) -> (r: i64)
    ensures
        r == twos_i64(x),
{
    if x < 0x8000_0000_0000_0000 {
        x as i64
    } else {
        ((x as i128) - 0x1_0000_0000_0000_0000) as i64
    }
}

/// Reinterpret a signed value as unsigned, as `x as u32` does.
pub fn cast_i32_u32(x: i32) -> (r: u32)
    ensures
        r == twos_u32(x),
{
    if x >= 0 {
        x as u32
    } else {
        ((x as i64) + 0x1_0000_0000) as u32
    }
}

/// Truncate to the low 32 bits, as `x as u32` does on a `u64`.
pub fn cast_u64_u32(x: u64) -> (r: u32)
    ensures
        r == low32(x),
{
    (x % 0x1_0000_0000) as u32
}

/// Truncate to 32 bits keeping the low word's sign bit, as `x as i32` does on
/// an `i64`.
pub fn cast_i64_i32(x: i64) -> (r: i32)
    ensures
        r == crop32(x),
{
    let u = cast_i64_u64(x);
    let l = cast_u64_u32(u);
    if l < 0x8000_0000 {
        l as i32
    } else {
        ((l as i64) - 0x1_0000_0000) as i32
    }
}

/// The unsigned reading of a field value: varints and fixed-width values give
/// their integer, a byte payload gives zero.
pub open spec fn val_u64(v: WireVal) -> u64 {
    match v {
        WireVal::Varint(x) => x,
        WireVal::Fixed64(x) => x,
        WireVal::Fixed32(x) => x as u64,
        WireVal::Bytes(_) => 0,
    }
}

/// The 32-bit unsigned reading of a field value: 64-bit values are truncated.
pub open spec fn val_u32(v: WireVal) -> u32 {
    match v {
        WireVal::Varint(x) => low32(x),
        WireVal::Fixed64(x) => low32(x),
        WireVal::Fixed32(x) => x,
        WireVal::Bytes(_) => 0,
    }
}

/// The signed reading of a field value: varints are zigzag-decoded, fixed
/// values reinterpreted (sign-extending the 32-bit one).
pub open spec fn val_i64(v: WireVal) -> i64 {
    match v {
        WireVal::Varint(x) => zigzag64(x),
        WireVal::Fixed64(x) => twos_i64(x),
        WireVal::Fixed32(x) => twos_i32(x) as i64,
        WireVal::Bytes(_) => 0,
    }
}

/// The 32-bit signed reading of a field value.
pub open spec fn val_i32(v: WireVal) -> i32 {
    match v {
        WireVal::Varint(x) => crop32(zigzag64(x)),
        WireVal::Fixed64(x) => crop32(twos_i64(x)),
        WireVal::Fixed32(x) => twos_i32(x),
        WireVal::Bytes(_) => 0,
    }
}

impl WireValue {
    /// Read this value as a `u64`.
    pub fn as_u64(&self) -> (r: u64)
        ensures
            r == val_u64(self@),
    {
        match self {
            WireValue::Varint(x) => *x,
            WireValue::Fixed64(x) => *x,
            WireValue::Fixed32(x) => *x as u64,
            WireValue::Bytes(_) => 0,
        }
    }

    /// Read this value as a `u32`.
    pub fn as_u32(&self) -> (r: u32)
        ensures
            r == val_u32(self@),
    {
        match self {
            WireValue::Varint(x) => cast_u64_u32(*x),
            WireValue::Fixed64(x) => cast_u64_u32(*x),
            WireValue::Fixed32(x) => *x,
            WireValue::Bytes(_) => 0,
        }
    }

    /// Read this value as an `i64` (zigzag for varints).
    pub fn as_i64(&self) -> (r: i64)
        ensures
            r == val_i64(self@),
    {
        match self {
            WireValue::Varint(x) => zigzag_decode(*x),
            WireValue::Fixed64(x) => cast_u64_i64(*x),
            WireValue::Fixed32(x) => {
                let w = if *x < 0x8000_0000 {
                    *x as i32
                } else {
                    ((*x as i64) - 0x1_0000_0000) as i32
                };
                w as i64
            },
            WireValue::Bytes(_) => 0,
        }
    }
}

/// The byte payload of the first field of `fs` carrying `tag`; fields of the
/// same tag with another wire type are passed over.
pub open spec fn first_bytes_val(fs: Seq<(u32, WireVal)>, tag: u32) -> Option<Seq<u8>>
    decreases fs.len(),
{
    if fs.len() == 0 {
        Option::None
    } else if fs[0].0 == tag && fs[0].1 is Bytes {
        Option::Some(fs[0].1->Bytes_0)
    } else {
        first_bytes_val(fs.skip(1), tag)
    }
}

/// Find the first byte-payload field carrying `tag` in a decoded field list.
pub fn find_first_bytes(fields: &Vec<WireField>, tag: u32) -> (r: Option<Vec<u8>>)
    ensures
        match r {
            Some(b) => first_bytes_val(wire_fields_view(fields@), tag) == Some(b@),
            None => first_bytes_val(wire_fields_view(fields@), tag) is None,
        },
{
    let ghost fs = wire_fields_view(fields@);
    proof {
        assert(fs.skip(0) =~= fs);
    }
    let n = fields.len();
    let mut i: usize = 0;
    while i < n
        invariant
            n == fields@.len(),
            i <= n,
            fs == wire_fields_view(fields@),
            first_bytes_val(fs.skip(i as int), tag) == first_bytes_val(fs, tag),
        decreases n - i,
    {
        let f = &fields[i];
        proof {
            assert(fs[i as int] == fields@[i as int]@);
            assert(fs.skip(i as int)[0] == fs[i as int]);
            assert(fs.skip(i as int).skip(1) =~= fs.skip(i as int + 1));
        }
        if f.tag == tag {
            match &f.value {
                WireValue::Bytes(b) => {
                    return Some(b.clone());
                },
                _ => {},
            }
        }
        i = i + 1;
    }
    proof {
        assert(fs.skip(n as int) =~= Seq::<(u32, WireVal)>::empty());
    }
    None
}

/// A packed column read as plain unsigned 32-bit values.
pub open spec fn packed_u32s_of(d: Seq<u8>) -> Seq<u32> {
    packed_vals(d, 0).map_values(|x: u64| low32(x))
}

/// A packed column read as zigzag-coded signed 64-bit values.
pub open spec fn packed_i64s_of(d: Seq<u8>) -> Seq<i64> {
    packed_vals(d, 0).map_values(|x: u64| zigzag64(x))
}

/// A packed column read as zigzag-coded signed values truncated to 32 bits.
pub open spec fn packed_i32s_of(d: Seq<u8>) -> Seq<i32> {
    packed_vals(d, 0).map_values(|x: u64| crop32(zigzag64(x)))
}

/// Decode a packed column of plain unsigned 32-bit values.
pub fn read_packed_u32s(d: &[u8]) -> (r: Vec<u32>)
    ensures
        r@ == packed_u32s_of(d@),
{
    let raw = read_packed(d);
    let mut out: Vec<u32> = Vec::new();
    let mut i: usize = 0;
    while i < raw.len()
        invariant
            i <= raw@.len(),
            raw@ == packed_vals(d@, 0),
            out@ == packed_u32s_of(d@).take(i as int),
        decreases raw@.len() - i,
    {
        out.push(cast_u64_u32(raw[i]));
        i = i + 1;
        proof {
            assert(out@ =~= packed_u32s_of(d@).take(i as int));
        }
    }
    proof {
        assert(out@ =~= packed_u32s_of(d@));
    }
    out
}

/// Decode a packed column of zigzag-coded signed 64-bit values.
pub fn read_packed_i64s(d: &[u8]) -> (r: Vec<i64>)
    ensures
        r@ == packed_i64s_of(d@),
{
    let raw = read_packed(d);
    let mut out: Vec<i64> = Vec::new();
    let mut i: usize = 0;
    while i < raw.len()
        invariant
            i <= raw@.len(),
            raw@ == packed_vals(d@, 0),
            out@ == packed_i64s_of(d@).take(i as int),
        decreases raw@.len() - i,
    {
        out.push(zigzag_decode(raw[i]));
        i = i + 1;
        proof {
            assert(out@ =~= packed_i64s_of(d@).take(i as int));
        }
    }
    proof {
        assert(out@ =~= packed_i64s_of(d@));
    }
    out
}

/// Decode a packed column of zigzag-coded signed values truncated to 32 bits.
pub fn read_packed_i32s(d: &[u8]) -> (r: Vec<i32>)
    ensures
        r@ == packed_i32s_of(d@),
{
    let raw = read_packed(d);
    let mut out: Vec<i32> = Vec::new();
    let mut i: usize = 0;
    while i < raw.len()
        invariant
            i <= raw@.len(),
            raw@ == packed_vals(d@, 0),
            out@ == packed_i32s_of(d@).take(i as int),
        decreases raw@.len() - i,
    {
        out.push(cast_i64_i32(zigzag_decode(raw[i])));
        i = i + 1;
        proof {
            assert(out@ =~= packed_i32s_of(d@).take(i as int));
        }
    }
    proof {
        assert(out@ =~= packed_i32s_of(d@));
    }
    out
}

} // verus!

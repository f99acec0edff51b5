//! Protocol buffers wire format: varints, tagged fields and length-delimited payloads.
//!
//! Reading varints goes through `quick_protobuf`; the rest (field framing, skipping unknown
//! fields, writing) is verified here against the specifications below.
use vstd::prelude::*;
use quick_protobuf::BytesReader;
use vstd::slice::{slice_subrange, slice_to_vec};
use vstd::utf8::{valid_utf8, decode_utf8, encode_utf8};

verus! {

/// `128^k`
pub open spec fn pow128(k: nat) -> nat
    decreases k,
{
    if k == 0 {
        1
    } else {
        128 * pow128((k - 1) as nat)
    }
}

/// `2^64`, the modulus of the 64-bit varint values.
pub open spec fn modulus64() -> nat {
    0x1_0000_0000_0000_0000
}

/// The varint encoding of `v`: seven bits per byte, least significant group first, the high
/// bit of every byte but the last one set.
pub open spec fn varint_encode(v: nat) -> Seq<u8>
    decreases v,
{
    if v < 128 {
        seq![v as u8]
    } else {
        seq![(v % 128 + 128) as u8] + varint_encode(v / 128)
    }
}

/// Reads a varint whose first byte is the `k`-th byte of the varint (at most ten bytes in
/// all): the value and the number of bytes it takes.
pub open spec fn varint_parse_from(bytes: Seq<u8>, k: nat) -> Option<(nat, nat)>
    decreases 10 - k,
{
    if k >= 10 || bytes.len() == 0 {
        None
    } else if bytes[0] < 128 {
        Some((bytes[0] as nat, 1))
    } else {
        match varint_parse_from(bytes.drop_first(), k + 1) {
            Some((v, n)) => Some((((bytes[0] - 128) + 128 * v) as nat, n + 1)),
            None => None,
        }
    }
}

/// Reads a varint at the start of `bytes`: its value (unbounded) and its length.
pub open spec fn varint_parse(bytes: Seq<u8>) -> Option<(nat, nat)> {
    varint_parse_from(bytes, 0)
}

/// Reads the next varint of `bytes` with `quick_protobuf::BytesReader::read_varint64`.
///
/// Claimed of that method: it reads at most ten bytes, seven value bits each, until a byte
/// without the high bit; it fails when the input ends first or when ten bytes all have the
/// high bit; it returns the value modulo 2^64. The second component is the number of bytes
/// left after the varint (`BytesReader::len`).
#[verifier::external_body]
fn read_varint(bytes: &[u8]) -> (res: Option<(u64, usize)>)
    ensures
        match varint_parse(bytes@) {
            Some((v, n)) => res == Some(((v % modulus64()) as u64, (bytes@.len() - n) as usize)),
            None => res is None,
        },
{
    let mut reader = BytesReader::from_bytes(bytes);
    match reader.read_varint64(bytes) {
        Ok(v) => Some((v, reader.len())),
        Err(_) => None,
    }
}

/// A varint takes at least one byte, and no more than the input holds.
pub proof fn lemma_varint_parse_len(bytes: Seq<u8>, k: nat)
    ensures
        varint_parse_from(bytes, k) matches Some((v, n)) ==> 0 < n <= bytes.len() && n <= 10 - k,
    decreases 10 - k,
{
    if k < 10 && bytes.len() > 0 && bytes[0] >= 128 {
        lemma_varint_parse_len(bytes.drop_first(), k + 1);
    }
}

/// Reading a varint only looks at the varint's own bytes.
pub proof fn lemma_varint_parse_prefix(bytes: Seq<u8>, rest: Seq<u8>, k: nat)
    requires
        varint_parse_from(bytes, k) is Some,
    ensures
        varint_parse_from(bytes + rest, k) == varint_parse_from(bytes, k),
    decreases 10 - k,
{
    if bytes[0] >= 128 {
        assert((bytes + rest).drop_first() =~= bytes.drop_first() + rest);
        lemma_varint_parse_prefix(bytes.drop_first(), rest, k + 1);
    }
}

/// The encoding of `v` is at most `j` bytes long when `v < 128^j`.
pub proof fn lemma_varint_encode_len(v: nat, j: nat)
    requires
        v < pow128(j),
        j >= 1,
    ensures
        varint_encode(v).len() <= j,
        varint_encode(v).len() >= 1,
    decreases v,
{
    if v >= 128 {
        assert(j >= 1) by {
            if j == 0 {
                assert(pow128(0) == 1);
            }
        }
        let jj = (j - 1) as nat;
        assert(v / 128 < pow128(jj)) by (nonlinear_arith)
            requires
                v < 128 * pow128(jj),
        ;
        assert(jj >= 1) by {
            if jj == 0 {
                assert(pow128(0) == 1);
            }
        }
        lemma_varint_encode_len(v / 128, jj);
    }
}

/// Reading the varint encoding of `v` gives back `v` and the encoding's length, whatever
/// follows it.
pub proof fn lemma_varint_roundtrip_from(v: nat, rest: Seq<u8>, k: nat)
    requires
        k < 10,
        v < pow128((10 - k) as nat),
    ensures
        varint_parse_from(varint_encode(v) + rest, k) == Some((v, varint_encode(v).len())),
    decreases v,
{
    let e = varint_encode(v) + rest;
    if v < 128 {
        assert(e[0] == v as u8);
    } else {
        let jj = (9 - k) as nat;
        assert(pow128((10 - k) as nat) == 128 * pow128(jj));
        assert(v / 128 < pow128(jj)) by (nonlinear_arith)
            requires
                v < 128 * pow128(jj),
        ;
        assert(k + 1 < 10) by {
            if k + 1 >= 10 {
                assert(jj == 0);
                assert(pow128(0) == 1);
            }
        }
        assert(e.drop_first() =~= varint_encode(v / 128) + rest);
        lemma_varint_roundtrip_from(v / 128, rest, k + 1);
        assert(e[0] == (v % 128 + 128) as u8);
    }
}

/// `2^64 <= 128^10`: every 64-bit value has a varint encoding of at most ten bytes.
pub proof fn lemma_u64_fits_varint(v: u64)
    ensures
        (v as nat) < pow128(10),
{
    assert(pow128(0) == 1);
    assert(pow128(1) == 128);
    assert(pow128(2) == 0x4000);
    assert(pow128(3) == 0x20_0000);
    assert(pow128(4) == 0x1000_0000);
    assert(pow128(5) == 0x8_0000_0000);
    assert(pow128(6) == 0x400_0000_0000);
    assert(pow128(7) == 0x2_0000_0000_0000);
    assert(pow128(8) == 0x100_0000_0000_0000);
    assert(pow128(9) == 0x8000_0000_0000_0000);
    assert(pow128(10) == 0x40_0000_0000_0000_0000_nat);
}

/// Reading the varint encoding of a 64-bit value gives it back.
pub proof fn lemma_varint_roundtrip(v: u64, rest: Seq<u8>)
    ensures
        varint_parse(varint_encode(v as nat) + rest) == Some((v as nat, varint_encode(v as nat).len())),
        varint_encode(v as nat).len() <= 10,
{
    lemma_u64_fits_varint(v);
    lemma_varint_roundtrip_from(v as nat, rest, 0);
    lemma_varint_encode_len(v as nat, 10);
}

/// Appends the varint encoding of `v` to `out`.
pub fn write_varint(out: &mut Vec<u8>, v: u64)
    ensures
        final(out)@ == old(out)@ + varint_encode(v as nat),
{
    let mut rem: u64 = v;
    while rem >= 128
        invariant
            old(out)@ + varint_encode(v as nat) == out@ + varint_encode(rem as nat),
        decreases rem,
    {
        let ghost before = out@;
        out.push((rem % 128 + 128) as u8);
        assert(varint_encode(rem as nat) == seq![(rem % 128 + 128) as u8] + varint_encode(
            (rem / 128) as nat,
        ));
        assert(before + varint_encode(rem as nat) =~= out@ + varint_encode((rem / 128) as nat));
        rem = rem / 128;
    }
    out.push(rem as u8);
    assert(varint_encode(rem as nat) == seq![rem as u8]);
}

/// `2^32`, the modulus of tags.
pub open spec fn modulus32() -> nat {
    0x1_0000_0000
}

/// The payload of a field as it stands on the wire.
pub enum WireValue {
    /// Wire type 0: a varint, its value modulo 2^64
    Varint(u64),
    /// Wire type 2: length-delimited bytes
    Bytes(Seq<u8>),
    /// Wire types 1 and 5: eight or four bytes, which no message of the protocol uses
    Fixed,
}

/// A field on the wire: its tag (field number and wire type) and its payload.
pub struct WireField {
    pub tag: u32,
    pub value: WireValue,
}

/// Reads the payload of a field with tag `tag` at the start of `rest`: the payload and the
/// number of bytes it takes. The low three bits of the tag give the wire type; groups (wire
/// types 3 and 4) and unknown wire types are refused. The length of a length-delimited payload
/// is read modulo 2^32 for a field that the message `known`s (as `read_varint32` reads it),
/// and modulo 2^64 for a field that is skipped (as `read_varint64` reads it).
pub open spec fn parse_value(rest: Seq<u8>, tag: u32, known: bool) -> Option<(WireValue, nat)> {
    let wire = tag % 8;
    if wire == 0 {
        match varint_parse(rest) {
            Some((v, m)) => Some((WireValue::Varint((v % modulus64()) as u64), m)),
            None => None,
        }
    } else if wire == 2 {
        match varint_parse(rest) {
            Some((l, m)) => {
                let len = if known {
                    l % modulus32()
                } else {
                    l % modulus64()
                };
                if m + len <= rest.len() {
                    Some((WireValue::Bytes(rest.subrange(m as int, (m + len) as int)), m + len))
                } else {
                    None
                }
            },
            None => None,
        }
    } else if wire == 1 {
        if rest.len() >= 8 {
            Some((WireValue::Fixed, 8))
        } else {
            None
        }
    } else if wire == 5 {
        if rest.len() >= 4 {
            Some((WireValue::Fixed, 4))
        } else {
            None
        }
    } else {
        None
    }
}

/// Reads the field at the start of `bytes`: the field and the number of bytes it takes.
/// The tag is a varint read modulo 2^32; `known` tells the tags of the fields that the
/// message reads, the others being skipped.
pub open spec fn parse_field(bytes: Seq<u8>, known: spec_fn(u32) -> bool) -> Option<(WireField, nat)> {
    match varint_parse(bytes) {
        None => None,
        Some((t, n)) => {
            let tag = (t % modulus32()) as u32;
            match parse_value(bytes.skip(n as int), tag, known(tag)) {
                Some((v, m)) => Some((WireField { tag, value: v }, n + m)),
                None => None,
            }
        },
    }
}

/// A field takes at least one byte, and no more than the input holds.
pub proof fn lemma_parse_field_len(bytes: Seq<u8>, known: spec_fn(u32) -> bool)
    ensures
        parse_field(bytes, known) matches Some((f, n)) ==> 0 < n <= bytes.len(),
{
    lemma_varint_parse_len(bytes, 0);
    if let Some((t, n)) = varint_parse(bytes) {
        lemma_varint_parse_len(bytes.skip(n as int), 0);
    }
}

/// Decodes the fields of `bytes` one by one, folding each into `acc` with `apply`; fails
/// when a field cannot be read or `apply` refuses one. `known` tells the tags that `apply`
/// reads.
pub open spec fn decode_fields<M>(
    bytes: Seq<u8>,
    acc: M,
    apply: spec_fn(M, WireField) -> Option<M>,
    known: spec_fn(u32) -> bool,
) -> Option<M>
    decreases bytes.len(),
{
    if bytes.len() == 0 {
        Some(acc)
    } else {
        match parse_field(bytes, known) {
            None => None,
            Some((f, n)) => {
                proof {
                    lemma_parse_field_len(bytes, known);
                }
                match apply(acc, f) {
                    None => None,
                    Some(a) => decode_fields(bytes.skip(n as int), a, apply, known),
                }
            },
        }
    }
}

/// Folds the fields `fs` into `acc` with `apply`.
pub open spec fn apply_fields<M>(
    fs: Seq<WireField>,
    acc: M,
    apply: spec_fn(M, WireField) -> Option<M>,
) -> Option<M>
    decreases fs.len(),
{
    if fs.len() == 0 {
        Some(acc)
    } else {
        match apply(acc, fs[0]) {
            None => None,
            Some(a) => apply_fields(fs.drop_first(), a, apply),
        }
    }
}

/// The bytes of a payload.
pub open spec fn encode_value(v: WireValue) -> Seq<u8> {
    match v {
        WireValue::Varint(x) => varint_encode(x as nat),
        WireValue::Bytes(b) => varint_encode(b.len()) + b,
        WireValue::Fixed => Seq::empty(),
    }
}

/// The bytes of a field: its tag, then its payload.
pub open spec fn encode_field(f: WireField) -> Seq<u8> {
    varint_encode(f.tag as nat) + encode_value(f.value)
}

/// The bytes of a sequence of fields, one after the other.
pub open spec fn encode_fields(fs: Seq<WireField>) -> Seq<u8>
    decreases fs.len(),
{
    if fs.len() == 0 {
        Seq::empty()
    } else {
        encode_field(fs[0]) + encode_fields(fs.drop_first())
    }
}

/// A field that the writers below produce: a varint under a tag of wire type 0, or bytes
/// under a tag of wire type 2.
pub open spec fn field_shaped(f: WireField) -> bool {
    match f.value {
        WireValue::Varint(_) => f.tag % 8 == 0,
        WireValue::Bytes(b) => f.tag % 8 == 2 && b.len() < modulus64(),
        WireValue::Fixed => false,
    }
}

/// Every field of `fs` is shaped.
pub open spec fn fields_shaped(fs: Seq<WireField>) -> bool {
    forall|i: int| 0 <= i < fs.len() ==> field_shaped(#[trigger] fs[i])
}

/// A shaped field that reads back as written: the length of its bytes, if any, is below 2^32,
/// so that reading it modulo 2^32 or 2^64 gives the same.
pub open spec fn field_canonical(f: WireField) -> bool {
    &&& field_shaped(f)
    &&& (f.value matches WireValue::Bytes(b) ==> b.len() < modulus32())
}

/// Every field of `fs` is canonical.
pub open spec fn fields_canonical(fs: Seq<WireField>) -> bool {
    forall|i: int| 0 <= i < fs.len() ==> field_canonical(#[trigger] fs[i])
}

/// Reading a written field gives it back, whatever follows it.
pub proof fn lemma_field_roundtrip(f: WireField, rest: Seq<u8>, known: spec_fn(u32) -> bool)
    requires
        field_canonical(f),
    ensures
        parse_field(encode_field(f) + rest, known) == Some((f, encode_field(f).len())),
{
    let bytes = encode_field(f) + rest;
    let te = varint_encode(f.tag as nat);
    let after = encode_value(f.value) + rest;
    assert(bytes =~= te + after);
    lemma_varint_roundtrip(f.tag as u64, after);
    assert(bytes.skip(te.len() as int) =~= after);
    match f.value {
        WireValue::Varint(x) => {
            lemma_varint_roundtrip(x, rest);
        },
        WireValue::Bytes(b) => {
            let le = varint_encode(b.len());
            assert(after =~= le + (b + rest));
            lemma_varint_roundtrip(b.len() as u64, b + rest);
            assert(after.subrange(le.len() as int, (le.len() + b.len()) as int) =~= b);
        },
        WireValue::Fixed => {},
    }
}

/// Decoding written fields folds exactly those fields.
pub proof fn lemma_decode_encoded_fields<M>(
    fs: Seq<WireField>,
    acc: M,
    apply: spec_fn(M, WireField) -> Option<M>,
    known: spec_fn(u32) -> bool,
)
    requires
        fields_canonical(fs),
    ensures
        decode_fields(encode_fields(fs), acc, apply, known) == apply_fields(fs, acc, apply),
    decreases fs.len(),
{
    if fs.len() > 0 {
        let f = fs[0];
        let tail = fs.drop_first();
        assert(field_canonical(fs[0]));
        lemma_field_roundtrip(f, encode_fields(tail), known);
        let bytes = encode_fields(fs);
        assert(bytes.len() > 0) by {
            lemma_u64_fits_varint(f.tag as u64);
            lemma_varint_encode_len(f.tag as nat, 10);
        }
        assert(bytes.skip(encode_field(f).len() as int) =~= encode_fields(tail));
        assert(fields_canonical(tail)) by {
            assert forall|i: int| 0 <= i < tail.len() implies field_canonical(#[trigger] tail[i]) by {
                assert(tail[i] == fs[i + 1]);
            }
        }
        match apply(acc, f) {
            None => {},
            Some(a) => {
                lemma_decode_encoded_fields(tail, a, apply, known);
            },
        }
    }
}

/// Folding two runs of fields is folding the first, then the second.
pub proof fn lemma_apply_fields_append<M>(
    a: Seq<WireField>,
    b: Seq<WireField>,
    acc: M,
    apply: spec_fn(M, WireField) -> Option<M>,
)
    ensures
        apply_fields(a + b, acc, apply) == match apply_fields(a, acc, apply) {
            Some(m) => apply_fields(b, m, apply),
            None => None,
        },
    decreases a.len(),
{
    if a.len() > 0 {
        assert((a + b).drop_first() =~= a.drop_first() + b);
        assert((a + b)[0] == a[0]);
        match apply(acc, a[0]) {
            None => {},
            Some(m) => {
                lemma_apply_fields_append(a.drop_first(), b, m, apply);
            },
        }
    }
}

/// The encoding of two runs of fields is the concatenation of their encodings.
pub proof fn lemma_encode_fields_append(a: Seq<WireField>, b: Seq<WireField>)
    ensures
        encode_fields(a + b) == encode_fields(a) + encode_fields(b),
    decreases a.len(),
{
    if a.len() == 0 {
        assert(a + b =~= b);
        assert(encode_fields(a) + encode_fields(b) =~= encode_fields(b));
    } else {
        assert((a + b).drop_first() =~= a.drop_first() + b);
        assert((a + b)[0] == a[0]);
        lemma_encode_fields_append(a.drop_first(), b);
        assert(encode_fields(a + b) =~= encode_fields(a) + encode_fields(b));
    }
}

/// Every length-delimited field of `fs` holds fewer than 2^32 bytes.
pub open spec fn fields_short(fs: Seq<WireField>) -> bool {
    forall|i: int|
        0 <= i < fs.len() ==> ((#[trigger] fs[i]).value matches WireValue::Bytes(b) ==> b.len()
            < modulus32())
}

/// A field whose tag has the wire type of its payload: 0 for a varint, 2 for bytes.
pub open spec fn field_tagged(f: WireField) -> bool {
    match f.value {
        WireValue::Varint(_) => f.tag % 8 == 0,
        WireValue::Bytes(_) => f.tag % 8 == 2,
        WireValue::Fixed => false,
    }
}

/// Every field of `fs` is tagged.
pub open spec fn fields_tagged(fs: Seq<WireField>) -> bool {
    forall|i: int| 0 <= i < fs.len() ==> field_tagged(#[trigger] fs[i])
}

/// Tagged runs stay tagged when joined.
pub proof fn lemma_fields_tagged_append(a: Seq<WireField>, b: Seq<WireField>)
    requires
        fields_tagged(a),
        fields_tagged(b),
    ensures
        fields_tagged(a + b),
{
    assert forall|i: int| 0 <= i < (a + b).len() implies field_tagged(#[trigger] (a + b)[i]) by {
        if i < a.len() {
            assert((a + b)[i] == a[i]);
        } else {
            assert((a + b)[i] == b[i - a.len()]);
        }
    }
}

/// A tagged run whose length-delimited fields are short is canonical.
pub proof fn lemma_fields_canonical_of_short(fs: Seq<WireField>)
    requires
        fields_tagged(fs),
        fields_short(fs),
    ensures
        fields_canonical(fs),
{
    assert forall|i: int| 0 <= i < fs.len() implies field_canonical(#[trigger] fs[i]) by {
        assert(field_tagged(fs[i]));
    }
}

/// The bytes of a field of a run are no longer than the encoding of the whole run.
pub proof fn lemma_encode_fields_part_len(fs: Seq<WireField>, i: int)
    requires
        0 <= i < fs.len(),
    ensures
        encode_field(fs[i]).len() <= encode_fields(fs).len(),
    decreases fs.len(),
{
    if i > 0 {
        lemma_encode_fields_part_len(fs.drop_first(), i - 1);
        assert(fs.drop_first()[i - 1] == fs[i]);
    }
}

/// A run of shaped fields whose encoding is shorter than 2^32 bytes is canonical.
pub proof fn lemma_fields_canonical_of_len(fs: Seq<WireField>)
    requires
        fields_shaped(fs),
        encode_fields(fs).len() < modulus32(),
    ensures
        fields_canonical(fs),
{
    assert forall|i: int| 0 <= i < fs.len() implies field_canonical(#[trigger] fs[i]) by {
        lemma_encode_fields_part_len(fs, i);
        assert(field_shaped(fs[i]));
    }
}

/// An executable view of a payload: a varint, or the bounds of bytes in the input.
pub enum FieldValue {
    Varint(u64),
    Bytes(usize, usize),
    Fixed,
}

/// The executable payload `e` read out of `bytes` stands for the payload `w`.
pub open spec fn field_value_matches(bytes: Seq<u8>, e: FieldValue, w: WireValue) -> bool {
    match (e, w) {
        (FieldValue::Varint(a), WireValue::Varint(b)) => a == b,
        (FieldValue::Bytes(i, j), WireValue::Bytes(b)) => i <= j <= bytes.len() && bytes.subrange(
            i as int,
            j as int,
        ) == b,
        (FieldValue::Fixed, WireValue::Fixed) => true,
        _ => false,
    }
}

/// Reads the next varint of `bytes` with `quick_protobuf::BytesReader::read_varint32`, as the
/// crate reads tags and the lengths of the fields a message knows.
///
/// Claimed of that method: it reads at most ten bytes, until a byte without the high bit; it
/// fails when the input ends first or when ten bytes all have the high bit; it returns the
/// low 32 bits of the value (seven bits from each of the first four bytes, four from the
/// fifth, the rest being discarded). The second component is the number of bytes left after
/// the varint (`BytesReader::len`).
#[verifier::external_body]
fn read_varint32(bytes: &[u8]) -> (res: Option<(u32, usize)>)
    ensures
        match varint_parse(bytes@) {
            Some((v, n)) => res == Some(((v % modulus32()) as u32, (bytes@.len() - n) as usize)),
            None => res is None,
        },
{
    let mut reader = BytesReader::from_bytes(bytes);
    match reader.read_varint32(bytes) {
        Ok(v) => Some((v, reader.len())),
        Err(_) => None,
    }
}

/// Reads the tag of the field of `bytes` that starts at `pos`: the tag and the position after
/// it.
pub fn read_tag(bytes: &[u8], pos: usize) -> (res: Option<(u32, usize)>)
    requires
        pos < bytes@.len(),
    ensures
        match varint_parse(bytes@.skip(pos as int)) {
            None => res is None,
            Some((t, n)) => res == Some(((t % modulus32()) as u32, (pos + n) as usize)),
        },
{
    let rest = slice_subrange(bytes, pos, bytes.len());
    assert(rest@ =~= bytes@.skip(pos as int));
    proof {
        lemma_varint_parse_len(rest@, 0);
    }
    match read_varint32(rest) {
        None => None,
        Some((tag, left)) => Some((tag, bytes.len() - left)),
    }
}

/// Reads the payload of a field with tag `tag` that starts at `p`: the payload and the
/// position after it. `known` tells whether the message reads the field (see `parse_value`).
pub fn read_value(bytes: &[u8], p: usize, tag: u32, known: bool) -> (res: Option<(FieldValue, usize)>)
    requires
        p <= bytes@.len(),
    ensures
        match parse_value(bytes@.skip(p as int), tag, known) {
            None => res is None,
            Some((v, m)) => res matches Some((e, next)) && next == p + m && field_value_matches(
                bytes@,
                e,
                v,
            ),
        },
{
    let wire = tag % 8;
    let after = slice_subrange(bytes, p, bytes.len());
    assert(after@ =~= bytes@.skip(p as int));
    proof {
        lemma_varint_parse_len(after@, 0);
    }
    if wire == 0 {
        match read_varint(after) {
            None => None,
            Some((v, left2)) => Some((FieldValue::Varint(v), bytes.len() - left2)),
        }
    } else if wire == 2 {
        let len = if known {
            match read_varint32(after) {
                None => None,
                Some((l, left2)) => Some((l as u64, left2)),
            }
        } else {
            read_varint(after)
        };
        match len {
            None => None,
            Some((l, left2)) => {
                let q = bytes.len() - left2;
                if l <= left2 as u64 {
                    let end = q + l as usize;
                    assert(bytes@.skip(p as int).subrange((q - p) as int, (end - p) as int)
                        =~= bytes@.subrange(q as int, end as int));
                    Some((FieldValue::Bytes(q, end), end))
                } else {
                    None
                }
            },
        }
    } else if wire == 1 {
        if bytes.len() - p >= 8 {
            Some((FieldValue::Fixed, p + 8))
        } else {
            None
        }
    } else if wire == 5 {
        if bytes.len() - p >= 4 {
            Some((FieldValue::Fixed, p + 4))
        } else {
            None
        }
    } else {
        None
    }
}

/// The field at `pos` is its tag, then its payload read after the tag.
pub proof fn lemma_field_parts(bytes: Seq<u8>, pos: int, known: spec_fn(u32) -> bool)
    requires
        0 <= pos < bytes.len(),
        varint_parse(bytes.skip(pos)) is Some,
    ensures
        ({
            let (t, n) = varint_parse(bytes.skip(pos)).unwrap();
            let tag = (t % modulus32()) as u32;
            &&& pos + n <= bytes.len()
            &&& parse_field(bytes.skip(pos), known) == match parse_value(
                bytes.skip(pos + n),
                tag,
                known(tag),
            ) {
                Some((v, m)) => Some((WireField { tag, value: v }, n + m)),
                None => None,
            }
        }),
{
    let (t, n) = varint_parse(bytes.skip(pos)).unwrap();
    lemma_varint_parse_len(bytes.skip(pos), 0);
    assert(bytes.skip(pos).skip(n as int) =~= bytes.skip(pos + n));
}

/// Appends a varint field.
pub fn write_varint_field(out: &mut Vec<u8>, tag: u32, v: u64)
    requires
        tag % 8 == 0,
    ensures
        final(out)@ == old(out)@ + encode_field(WireField { tag, value: WireValue::Varint(v) }),
        field_shaped(WireField { tag, value: WireValue::Varint(v) }),
{
    write_varint(out, tag as u64);
    write_varint(out, v);
    assert(final(out)@ =~= old(out)@ + encode_field(WireField { tag, value: WireValue::Varint(v) }));
}

/// Appends a length-delimited field.
pub fn write_bytes_field(out: &mut Vec<u8>, tag: u32, b: &[u8])
    requires
        tag % 8 == 2,
    ensures
        final(out)@ == old(out)@ + encode_field(WireField { tag, value: WireValue::Bytes(b@) }),
        field_shaped(WireField { tag, value: WireValue::Bytes(b@) }),
{
    write_varint(out, tag as u64);
    write_varint(out, b.len() as u64);
    let ghost mid = out@;
    out.extend_from_slice(b);
    assert(out@ =~= mid + b@);
    assert(final(out)@ =~= old(out)@ + encode_field(WireField { tag, value: WireValue::Bytes(b@) }));
}

/// Checks that `bytes` are UTF-8 with `std::str::from_utf8`.
///
/// Claimed of that function: it succeeds exactly on valid UTF-8, and the string slice it
/// returns holds the characters that the bytes encode.
#[verifier::external_body]
fn str_from_utf8(bytes: &[u8]) -> (res: Option<&str>)
    ensures
        res is Some <==> valid_utf8(bytes@),
        res matches Some(s) ==> s@ == decode_utf8(bytes@),
{
    std::str::from_utf8(bytes).ok()
}

/// The characters that UTF-8 `bytes` encode, if they are valid UTF-8.
pub open spec fn string_of(bytes: Seq<u8>) -> Option<Seq<char>> {
    if valid_utf8(bytes) {
        Some(decode_utf8(bytes))
    } else {
        None
    }
}

/// Decoding the UTF-8 encoding of `chars` gives them back.
pub proof fn lemma_string_roundtrip(chars: Seq<char>)
    ensures
        string_of(encode_utf8(chars)) == Some(chars),
{
    vstd::utf8::encode_utf8_valid_utf8(chars);
    vstd::utf8::encode_utf8_decode_utf8(chars);
}

/// Copies `bytes[i..j]`.
pub fn copy_bytes(bytes: &[u8], i: usize, j: usize) -> (out: Vec<u8>)
    requires
        i <= j <= bytes@.len(),
    ensures
        out@ == bytes@.subrange(i as int, j as int),
{
    slice_to_vec(slice_subrange(bytes, i, j))
}

/// Decodes `bytes[i..j]` as a UTF-8 string.
pub fn copy_string(bytes: &[u8], i: usize, j: usize) -> (out: Option<String>)
    requires
        i <= j <= bytes@.len(),
    ensures
        string_of(bytes@.subrange(i as int, j as int)) matches Some(s) ==> (out matches Some(o)
            && o@ == s),
        string_of(bytes@.subrange(i as int, j as int)) is None ==> out is None,
{
    match str_from_utf8(slice_subrange(bytes, i, j)) {
        Some(s) => Some(s.to_owned()),
        None => None,
    }
}

/// The varint of an `int32` field: the value sign-extended to 64 bits.
pub open spec fn varint_of_i32(x: i32) -> u64 {
    x as u64
}

/// The varint of an `int64` field.
pub open spec fn varint_of_i64(x: i64) -> u64 {
    x as u64
}

/// The varint of a `bool` field.
pub open spec fn varint_of_bool(b: bool) -> u64 {
    if b {
        1
    } else {
        0
    }
}

/// An `int32` read from a varint: its low 32 bits.
pub open spec fn i32_of_varint(v: u64) -> i32 {
    v as i32
}

/// An `int64` read from a varint.
pub open spec fn i64_of_varint(v: u64) -> i64 {
    v as i64
}

/// A `bool` read from a varint: whether its low 32 bits are not all zero.
pub open spec fn bool_of_varint(v: u64) -> bool {
    (v as u32) != 0
}

/// Reading back the written integers and booleans gives them back.
pub proof fn lemma_scalar_roundtrips(x: i32, y: i64, b: bool)
    ensures
        i32_of_varint(varint_of_i32(x)) == x,
        i64_of_varint(varint_of_i64(y)) == y,
        bool_of_varint(varint_of_bool(b)) == b,
{
    assert((x as u64) as i32 == x) by (bit_vector);
    assert((y as u64) as i64 == y) by (bit_vector);
}

/// Exec: the varint of an `int32` field.
pub fn i32_varint(x: i32) -> (v: u64)
    ensures
        v == varint_of_i32(x),
{
    x as u64
}

/// Exec: the varint of an `int64` field.
pub fn i64_varint(x: i64) -> (v: u64)
    ensures
        v == varint_of_i64(x),
{
    x as u64
}

/// Exec: the varint of a `bool` field.
pub fn bool_varint(b: bool) -> (v: u64)
    ensures
        v == varint_of_bool(b),
{
    if b {
        1
    } else {
        0
    }
}

/// Exec: an `int32` read from a varint.
pub fn varint_i32(v: u64) -> (x: i32)
    ensures
        x == i32_of_varint(v),
{
    v as i32
}

/// Exec: an `int64` read from a varint.
pub fn varint_i64(v: u64) -> (x: i64)
    ensures
        x == i64_of_varint(v),
{
    v as i64
}

/// Exec: a `bool` read from a varint.
pub fn varint_bool(v: u64) -> (b: bool)
    ensures
        b == bool_of_varint(v),
{
    (v as u32) != 0
}

/// One step of `decode_fields`: the field at `pos` is folded in, then the rest.
pub proof fn lemma_decode_step<M>(
    bytes: Seq<u8>,
    pos: int,
    acc: M,
    apply: spec_fn(M, WireField) -> Option<M>,
    known: spec_fn(u32) -> bool,
)
    requires
        0 <= pos < bytes.len(),
        parse_field(bytes.skip(pos), known) is Some,
    ensures
        ({
            let (f, n) = parse_field(bytes.skip(pos), known).unwrap();
            decode_fields(bytes.skip(pos), acc, apply, known) == match apply(acc, f) {
                None => None,
                Some(a) => decode_fields(bytes.skip(pos + n), a, apply, known),
            }
        }),
{
    let (f, n) = parse_field(bytes.skip(pos), known).unwrap();
    lemma_parse_field_len(bytes.skip(pos), known);
    assert(bytes.skip(pos).skip(n as int) =~= bytes.skip(pos + n));
}

/// Appending one field appends its encoding.
pub proof fn lemma_encode_fields_push(fs: Seq<WireField>, f: WireField)
    ensures
        encode_fields(fs.push(f)) == encode_fields(fs) + encode_field(f),
{
    lemma_encode_fields_append(fs, seq![f]);
    assert(fs + seq![f] =~= fs.push(f));
    let one = seq![f];
    assert(one[0] == f);
    assert(one.drop_first() =~= Seq::<WireField>::empty());
    assert(encode_fields(one.drop_first()) =~= Seq::<u8>::empty());
    assert(encode_fields(one) =~= encode_field(f));
}

/// Appending a shaped field keeps a run shaped.
pub proof fn lemma_fields_shaped_push(fs: Seq<WireField>, f: WireField)
    requires
        fields_shaped(fs),
        field_shaped(f),
    ensures
        fields_shaped(fs.push(f)),
{
    assert forall|i: int| 0 <= i < fs.push(f).len() implies field_shaped(#[trigger] fs.push(f)[i]) by {
        if i < fs.len() {
            assert(fs.push(f)[i] == fs[i]);
        }
    }
}

/// The encoding of a single field is the field's own bytes.
pub proof fn lemma_encode_fields_one(f: WireField)
    ensures
        encode_fields(seq![f]) == encode_field(f),
{
    lemma_encode_fields_push(Seq::empty(), f);
    assert(Seq::<WireField>::empty().push(f) =~= seq![f]);
    assert(encode_fields(Seq::<WireField>::empty()) + encode_field(f) =~= encode_field(f));
}

/// The encoding of the first `j` fields of a run is no longer than that of the whole run.
pub proof fn lemma_encode_fields_take_len(fs: Seq<WireField>, j: int)
    requires
        0 <= j <= fs.len(),
    ensures
        encode_fields(fs.take(j)).len() <= encode_fields(fs).len(),
{
    lemma_encode_fields_append(fs.take(j), fs.skip(j));
    assert(fs.take(j) + fs.skip(j) =~= fs);
}

/// The number of bytes of the varint encoding of `v`.
pub fn sizeof_varint(v: u64) -> (n: usize)
    ensures
        n == varint_encode(v as nat).len(),
        1 <= n <= 10,
{
    proof {
        lemma_varint_roundtrip(v, Seq::empty());
    }
    let mut rem: u64 = v;
    let mut n: usize = 1;
    while rem >= 128
        invariant
            n >= 1,
            n - 1 + varint_encode(rem as nat).len() == varint_encode(v as nat).len(),
            varint_encode(v as nat).len() <= 10,
        decreases rem,
    {
        proof {
            lemma_u64_fits_varint(rem / 128);
            lemma_varint_encode_len((rem / 128) as nat, 10);
        }
        assert(varint_encode(rem as nat) == seq![(rem % 128 + 128) as u8] + varint_encode(
            (rem / 128) as nat,
        ));
        rem = rem / 128;
        n = n + 1;
    }
    assert(varint_encode(rem as nat) == seq![rem as u8]);
    n
}

/// The number of bytes of a varint field.
pub fn sizeof_varint_field(tag: u32, v: u64) -> (n: usize)
    ensures
        n == encode_field(WireField { tag, value: WireValue::Varint(v) }).len(),
{
    sizeof_varint(tag as u64) + sizeof_varint(v)
}

/// The number of bytes of a length-delimited field whose payload is `len` bytes long.
pub fn sizeof_len_field(tag: u32, len: usize) -> (n: usize)
    requires
        varint_encode(tag as nat).len() + varint_encode(len as nat).len() + len <= usize::MAX,
    ensures
        n == varint_encode(tag as nat).len() + varint_encode(len as nat).len() + len,
{
    sizeof_varint(tag as u64) + sizeof_varint(len as u64) + len
}

/// The bytes of a varint field on the wire: the varint of its tag, then the varint of its
/// value.
pub open spec fn varint_field_bytes(tag: nat, v: u64) -> Seq<u8> {
    varint_encode(tag) + varint_encode(v as nat)
}

/// The bytes of a length-delimited field on the wire: the varint of its tag, the varint of
/// the length of its payload, then the payload.
pub open spec fn bytes_field_bytes(tag: nat, b: Seq<u8>) -> Seq<u8> {
    varint_encode(tag) + (varint_encode(b.len()) + b)
}

/// The bytes of a repeated length-delimited field: one field of tag `tag` per payload, in
/// order.
pub open spec fn repeated_field_bytes(tag: nat, bs: Seq<Seq<u8>>) -> Seq<u8>
    decreases bs.len(),
{
    if bs.len() == 0 {
        Seq::empty()
    } else {
        bytes_field_bytes(tag, bs[0]) + repeated_field_bytes(tag, bs.drop_first())
    }
}

/// A single varint field is written as its tag, then its value.
pub proof fn lemma_varint_field_layout(tag: u32, v: u64)
    ensures
        encode_fields(seq![(WireField { tag, value: WireValue::Varint(v) })]) == varint_field_bytes(
            tag as nat,
            v,
        ),
{
    lemma_encode_fields_one(WireField { tag, value: WireValue::Varint(v) });
}

/// A single length-delimited field is written as its tag, its length, then its payload.
pub proof fn lemma_bytes_field_layout(tag: u32, b: Seq<u8>)
    ensures
        encode_fields(seq![(WireField { tag, value: WireValue::Bytes(b) })]) == bytes_field_bytes(
            tag as nat,
            b,
        ),
{
    lemma_encode_fields_one(WireField { tag, value: WireValue::Bytes(b) });
}

/// A run of length-delimited fields of one tag is written field by field, in order.
pub proof fn lemma_repeated_field_layout(tag: u32, fs: Seq<WireField>, bs: Seq<Seq<u8>>)
    requires
        fs.len() == bs.len(),
        forall|i: int|
            0 <= i < fs.len() ==> #[trigger] fs[i] == (WireField { tag, value: WireValue::Bytes(bs[i]) }),
    ensures
        encode_fields(fs) == repeated_field_bytes(tag as nat, bs),
    decreases fs.len(),
{
    if fs.len() > 0 {
        let f0 = fs[0];
        assert(fs.drop_first().len() == bs.drop_first().len());
        assert forall|i: int| 0 <= i < fs.drop_first().len() implies #[trigger] fs.drop_first()[i]
            == WireField { tag, value: WireValue::Bytes(bs.drop_first()[i]) } by {
            assert(fs.drop_first()[i] == fs[i + 1]);
        }
        lemma_repeated_field_layout(tag, fs.drop_first(), bs.drop_first());
        assert(encode_field(f0) =~= bytes_field_bytes(tag as nat, bs[0]));
    }
}

} // verus!

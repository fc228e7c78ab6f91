//! The wire format under the control messages: fields that are told apart
//! by a number, each a variable-width integer or a length-delimited byte
//! string.

use crate::error::DecodeError;
use crate::text::bytes_left;
use crate::varint::{
    has_continuation, low7, pow128, read_base128, varint_len, varint_value, MAX_DIGITS,
};
use vstd::prelude::*;
use vstd::slice::{slice_subrange, slice_to_vec};

verus! {

/// The base-128 digits of `v`, least significant first, the continuation
/// bit on every digit but the last.
pub open spec fn varint_bytes(v: nat) -> Seq<u8>
    decreases v,
{
    if v < 128 {
        seq![v as u8]
    } else {
        seq![(v % 128 + 128) as u8] + varint_bytes(v / 128)
    }
}

/// The 64-bit number that starts at `data[start]`, and the position behind
/// it; `None` if the data end inside it, if it has more than ten digits, or
/// if it does not fit 64 bits.
pub open spec fn varint_u64_at(data: Seq<u8>, start: int) -> Option<(u64, int)> {
    match varint_len(data, start, MAX_DIGITS as nat) {
        Some(n) => if varint_value(data, start, n) <= u64::MAX {
            Some((varint_value(data, start, n) as u64, start + n))
        } else {
            None
        },
        None => None,
    }
}

/// The value of `n + 1` digits is the first digit plus 128 times the value
/// of the `n` digits behind it.
pub proof fn lemma_value_head(data: Seq<u8>, start: int, n: nat)
    ensures
        varint_value(data, start, n + 1) == low7(data[start]) + 128 * varint_value(
            data,
            start + 1,
            n,
        ),
    decreases n,
{
    let m: nat = n + 1;
    assert(varint_value(data, start, m) == varint_value(data, start, (m - 1) as nat) + low7(
        data[start + m - 1],
    ) * pow128((m - 1) as nat));
    if n > 0 {
        lemma_value_head(data, start, (n - 1) as nat);
        let a = varint_value(data, start + 1, (n - 1) as nat);
        let d = low7(data[start + n]);
        let p = pow128((n - 1) as nat);
        assert(varint_value(data, start + 1, n) == a + low7(data[start + 1 + n - 1]) * p);
        assert(pow128(n) == 128 * p);
        assert(128 * (a + d * p) == 128 * a + d * (128 * p)) by (nonlinear_arith);
    } else {
        assert(varint_value(data, start, 0) == 0);
        assert(varint_value(data, start + 1, 0) == 0);
        let d = low7(data[start]);
        let one = pow128(0);
        assert(one == 1);
        assert(d * one == d) by (nonlinear_arith)
            requires
                one == 1,
        ;
    }
}

/// The digits of a number below `128^k` are at most `k`, and at least one.
pub proof fn lemma_varint_bytes_len(v: nat, k: nat)
    requires
        k >= 1,
        v < pow128(k),
    ensures
        1 <= varint_bytes(v).len() <= k,
    decreases v,
{
    if v >= 128 {
        assert(k >= 2) by {
            reveal_with_fuel(pow128, 2);
        }
        assert(v / 128 < pow128((k - 1) as nat)) by {
            assert(pow128(k) == 128 * pow128((k - 1) as nat));
        }
        lemma_varint_bytes_len(v / 128, (k - 1) as nat);
    }
}

/// Reading back the digits of a number gives the number, whatever stands
/// in front of the digits and behind them.
pub proof fn lemma_varint_roundtrip(prefix: Seq<u8>, v: nat, rest: Seq<u8>, limit: nat)
    requires
        varint_bytes(v).len() <= limit,
    ensures
        varint_len(prefix + varint_bytes(v) + rest, prefix.len() as int, limit) == Some(
            varint_bytes(v).len(),
        ),
        varint_value(prefix + varint_bytes(v) + rest, prefix.len() as int, varint_bytes(v).len())
            == v,
    decreases v,
{
    let data = prefix + varint_bytes(v) + rest;
    let start = prefix.len() as int;
    assert(data[start] == varint_bytes(v)[0]);
    if v < 128 {
        assert(varint_bytes(v).len() == 1);
        assert(!has_continuation(data[start]));
        lemma_value_head(data, start, 0);
        assert(varint_value(data, start + 1, 0) == 0);
        assert(low7(data[start]) == v);
    } else {
        let first = seq![(v % 128 + 128) as u8];
        let tail = varint_bytes(v / 128);
        let prefix2 = prefix + first;
        assert(varint_bytes(v) == first + tail);
        assert(varint_bytes(v).len() == 1 + tail.len());
        assert(data =~= prefix2 + tail + rest);
        lemma_varint_roundtrip(prefix2, v / 128, rest, (limit - 1) as nat);
        assert(has_continuation(data[start]));
        lemma_value_head(data, start, tail.len());
        assert(low7(data[start]) == v % 128);
        assert(varint_value(data, start + 1, tail.len()) == v / 128);
        assert(v == v % 128 + 128 * (v / 128));
    }
}

/// Appends the digits of `v`.
pub fn write_varint(out: &mut Vec<u8>, v: u64)
    ensures
        final(out)@ == old(out)@ + varint_bytes(v as nat),
{
    let mut rest: u64 = v;
    let ghost mut written: Seq<u8> = Seq::empty();
    while rest >= 128
        invariant
            out@ == old(out)@ + written,
            written + varint_bytes(rest as nat) == varint_bytes(v as nat),
        decreases rest,
    {
        let digit: u8 = ((rest % 128) + 128) as u8;
        out.push(digit);
        proof {
            let before = written;
            written = written.push(digit);
            assert(varint_bytes(rest as nat) == seq![digit] + varint_bytes((rest / 128) as nat));
            assert(written + varint_bytes((rest / 128) as nat) =~= before + varint_bytes(
                rest as nat,
            ));
            assert(out@ =~= old(out)@ + written);
        }
        rest = rest / 128;
    }
    out.push(rest as u8);
    proof {
        assert(varint_bytes(rest as nat) == seq![rest as u8]);
        assert(out@ =~= old(out)@ + (written + seq![rest as u8]));
    }
}

/// Reads the 64-bit number that starts at `data[start]`.
pub fn read_varint(data: &[u8], start: usize) -> (res: Result<(u64, usize), DecodeError>)
    ensures
        match res {
            Ok((value, next)) => varint_u64_at(data@, start as int) == Some((value, next as int))
                && start < next <= data@.len(),
            Err(e) => varint_u64_at(data@, start as int) is None && e
                == DecodeError::InvalidVarint,
        },
{
    match read_base128(data, start, MAX_DIGITS) {
        Some((value, next)) => {
            if value > u64::MAX as u128 {
                Err(DecodeError::InvalidVarint)
            } else {
                Ok((value as u64, next))
            }
        },
        None => Err(DecodeError::InvalidVarint),
    }
}

/// Largest field number.
pub const MAX_FIELD_NUMBER: u64 = 0x1FFF_FFFF;

/// Wire type of a variable-width integer.
pub const WIRE_VARINT: u64 = 0;

/// Wire type of eight bytes.
pub const WIRE_FIXED64: u64 = 1;

/// Wire type of a length, then that many bytes.
pub const WIRE_BYTES: u64 = 2;

/// Wire type of four bytes.
pub const WIRE_FIXED32: u64 = 5;

/// What a field holds, as a value. The control messages use integers and
/// byte strings; a field of fixed width is read over, and only the fact
/// that it stood there is kept.
pub enum RawValue {
    Varint(u64),
    Bytes(Seq<u8>),
    Fixed,
}

/// A field as a value.
pub struct RawField {
    pub number: u64,
    pub value: RawValue,
}

/// What a field holds.
#[derive(Debug, Clone, PartialEq, Eq)]
pub enum FieldValue {
    Varint(u64),
    Bytes(Vec<u8>),
    Fixed,
}

/// A field.
#[derive(Debug, Clone, PartialEq, Eq)]
pub struct Field {
    pub number: u64,
    pub value: FieldValue,
}

impl View for FieldValue {
    type V = RawValue;

    open spec fn view(&self) -> RawValue {
        match self {
            FieldValue::Varint(v) => RawValue::Varint(*v),
            FieldValue::Bytes(b) => RawValue::Bytes(b@),
            FieldValue::Fixed => RawValue::Fixed,
        }
    }
}

impl View for Field {
    type V = RawField;

    open spec fn view(&self) -> RawField {
        RawField { number: self.number, value: self.value@ }
    }
}

/// The fields of a vector as values.
pub open spec fn fields_view(fields: Seq<Field>) -> Seq<RawField> {
    Seq::new(fields.len(), |i: int| fields[i]@)
}

/// The field that starts at `data[start]` and the position behind it: a key
/// that holds the field number and the wire type, then the value.
pub open spec fn field_at(data: Seq<u8>, start: int) -> Result<(RawField, int), DecodeError> {
    match varint_u64_at(data, start) {
        None => Err(DecodeError::InvalidVarint),
        Some((key, at)) => if key / 8 == 0 || key / 8 > MAX_FIELD_NUMBER {
            Err(DecodeError::InvalidKey)
        } else if key % 8 == WIRE_VARINT {
            match varint_u64_at(data, at) {
                None => Err(DecodeError::InvalidVarint),
                Some((v, next)) => Ok(
                    (RawField { number: key / 8, value: RawValue::Varint(v) }, next),
                ),
            }
        } else if key % 8 == WIRE_FIXED64 {
            if at + 8 <= data.len() {
                Ok((RawField { number: key / 8, value: RawValue::Fixed }, at + 8))
            } else {
                Err(DecodeError::UnexpectedEnd)
            }
        } else if key % 8 == WIRE_BYTES {
            match varint_u64_at(data, at) {
                None => Err(DecodeError::InvalidVarint),
                Some((len, body)) => if body + len <= data.len() {
                    Ok(
                        (
                            RawField {
                                number: key / 8,
                                value: RawValue::Bytes(data.subrange(body, body + len)),
                            },
                            body + len,
                        ),
                    )
                } else {
                    Err(DecodeError::UnexpectedEnd)
                },
            }
        } else if key % 8 == WIRE_FIXED32 {
            if at + 4 <= data.len() {
                Ok((RawField { number: key / 8, value: RawValue::Fixed }, at + 4))
            } else {
                Err(DecodeError::UnexpectedEnd)
            }
        } else {
            Err(DecodeError::InvalidKey)
        },
    }
}

/// The fields that `data` holds from `start` to its end.
pub open spec fn fields_from(data: Seq<u8>, start: int) -> Result<Seq<RawField>, DecodeError>
    decreases bytes_left(data, start),
{
    if start >= data.len() || start < 0 {
        Ok(Seq::empty())
    } else {
        match field_at(data, start) {
            Err(e) => Err(e),
            Ok((field, next)) => if start < next {
                match fields_from(data, next) {
                    Err(e) => Err(e),
                    Ok(rest) => Ok(seq![field] + rest),
                }
            } else {
                Err(DecodeError::UnexpectedEnd)
            },
        }
    }
}

/// The fields that `data` is made of.
pub open spec fn parse_fields(data: Seq<u8>) -> Result<Seq<RawField>, DecodeError> {
    fields_from(data, 0)
}

/// The bytes that write a field down.
pub open spec fn field_bytes(field: RawField) -> Seq<u8> {
    match field.value {
        RawValue::Varint(v) => varint_bytes((field.number * 8 + WIRE_VARINT) as nat) + varint_bytes(
            v as nat,
        ),
        RawValue::Bytes(b) => varint_bytes((field.number * 8 + WIRE_BYTES) as nat) + varint_bytes(
            b.len(),
        ) + b,
        RawValue::Fixed => Seq::empty(),
    }
}

/// The bytes that write a sequence of fields down.
pub open spec fn fields_bytes(fields: Seq<RawField>) -> Seq<u8>
    decreases fields.len(),
{
    if fields.len() == 0 {
        Seq::empty()
    } else {
        field_bytes(fields[0]) + fields_bytes(fields.drop_first())
    }
}

/// Whether a field can be written down and read back: its number is in
/// range, it holds an integer or a byte string, and the length of a byte
/// string fits 64 bits.
pub open spec fn is_writable(field: RawField) -> bool {
    &&& 1 <= field.number <= MAX_FIELD_NUMBER
    &&& match field.value {
        RawValue::Varint(_) => true,
        RawValue::Bytes(b) => b.len() <= u64::MAX,
        RawValue::Fixed => false,
    }
}

/// A 64-bit number has at most ten digits.
pub proof fn lemma_u64_digits(v: nat)
    requires
        v <= u64::MAX,
    ensures
        1 <= varint_bytes(v).len() <= MAX_DIGITS,
{
    reveal_with_fuel(pow128, 11);
    lemma_varint_bytes_len(v, 10);
}

/// Reading at the digits of a 64-bit number gives the number.
pub proof fn lemma_varint_u64_roundtrip(prefix: Seq<u8>, v: u64, rest: Seq<u8>)
    ensures
        varint_u64_at(prefix + varint_bytes(v as nat) + rest, prefix.len() as int) == Some(
            (v, (prefix.len() + varint_bytes(v as nat).len()) as int),
        ),
        varint_bytes(v as nat).len() >= 1,
{
    lemma_u64_digits(v as nat);
    lemma_varint_roundtrip(prefix, v as nat, rest, MAX_DIGITS as nat);
}

/// A key splits into the field number and the wire type that it was made
/// of.
proof fn lemma_key_parts(number: u64, wire_type: u64)
    requires
        1 <= number <= MAX_FIELD_NUMBER,
        wire_type < 8,
    ensures
        number * 8 + wire_type <= u64::MAX,
        (number * 8 + wire_type) / 8 == number as int,
        (number * 8 + wire_type) % 8 == wire_type as int,
{
}

/// Reading at the bytes of a field that holds an integer gives the field.
proof fn lemma_varint_field_roundtrip(prefix: Seq<u8>, number: u64, v: u64, rest: Seq<u8>)
    requires
        1 <= number <= MAX_FIELD_NUMBER,
    ensures
        ({
            let field = RawField { number, value: RawValue::Varint(v) };
            field_at(prefix + field_bytes(field) + rest, prefix.len() as int) == Ok::<
                (RawField, int),
                DecodeError,
            >((field, (prefix.len() + field_bytes(field).len()) as int))
        }),
{
    let field = RawField { number, value: RawValue::Varint(v) };
    let data = prefix + field_bytes(field) + rest;
    let start = prefix.len() as int;
    lemma_key_parts(number, WIRE_VARINT);
    let key: u64 = (number * 8 + WIRE_VARINT) as u64;
    let kb = varint_bytes(key as nat);
    let vb = varint_bytes(v as nat);
    assert(field_bytes(field) == kb + vb);
    assert(data =~= prefix + kb + (vb + rest));
    lemma_varint_u64_roundtrip(prefix, key, vb + rest);
    let at = start + kb.len();
    assert(varint_u64_at(data, start) == Some((key, at)));
    assert(data =~= (prefix + kb) + vb + rest);
    lemma_varint_u64_roundtrip(prefix + kb, v, rest);
    assert(varint_u64_at(data, at) == Some((v, at + vb.len())));
}

/// Reading at the bytes of a field that holds a byte string gives the
/// field.
proof fn lemma_bytes_field_roundtrip(prefix: Seq<u8>, number: u64, b: Seq<u8>, rest: Seq<u8>)
    requires
        1 <= number <= MAX_FIELD_NUMBER,
        b.len() <= u64::MAX,
    ensures
        ({
            let field = RawField { number, value: RawValue::Bytes(b) };
            field_at(prefix + field_bytes(field) + rest, prefix.len() as int) == Ok::<
                (RawField, int),
                DecodeError,
            >((field, (prefix.len() + field_bytes(field).len()) as int))
        }),
{
    let field = RawField { number, value: RawValue::Bytes(b) };
    let data = prefix + field_bytes(field) + rest;
    let start = prefix.len() as int;
    lemma_key_parts(number, WIRE_BYTES);
    let key: u64 = (number * 8 + WIRE_BYTES) as u64;
    let kb = varint_bytes(key as nat);
    let lb = varint_bytes(b.len());
    assert(field_bytes(field) == kb + lb + b);
    assert(data =~= prefix + kb + (lb + b + rest));
    lemma_varint_u64_roundtrip(prefix, key, lb + b + rest);
    let at = start + kb.len();
    assert(varint_u64_at(data, start) == Some((key, at)));
    assert(data =~= (prefix + kb) + lb + (b + rest));
    lemma_varint_u64_roundtrip(prefix + kb, b.len() as u64, b + rest);
    let body = at + lb.len();
    assert(varint_u64_at(data, at) == Some((b.len() as u64, body)));
    assert(body + b.len() <= data.len());
    assert(data.subrange(body, body + b.len()) =~= b);
}

/// Reading at the bytes of a writable field gives the field.
pub proof fn lemma_field_roundtrip(prefix: Seq<u8>, field: RawField, rest: Seq<u8>)
    requires
        is_writable(field),
    ensures
        field_at(prefix + field_bytes(field) + rest, prefix.len() as int) == Ok::<
            (RawField, int),
            DecodeError,
        >((field, (prefix.len() + field_bytes(field).len()) as int)),
        field_bytes(field).len() >= 1,
{
    match field.value {
        RawValue::Varint(v) => {
            lemma_varint_field_roundtrip(prefix, field.number, v, rest);
            lemma_u64_digits(v as nat);
        },
        RawValue::Bytes(b) => {
            lemma_bytes_field_roundtrip(prefix, field.number, b, rest);
            lemma_u64_digits(b.len());
        },
        RawValue::Fixed => {},
    }
}

/// Reading the bytes of writable fields gives the fields.
pub proof fn lemma_fields_roundtrip(prefix: Seq<u8>, fields: Seq<RawField>)
    requires
        forall|i: int| 0 <= i < fields.len() ==> is_writable(#[trigger] fields[i]),
    ensures
        fields_from(prefix + fields_bytes(fields), prefix.len() as int) == Ok::<
            Seq<RawField>,
            DecodeError,
        >(fields),
    decreases fields.len(),
{
    let data = prefix + fields_bytes(fields);
    if fields.len() == 0 {
        assert(data =~= prefix);
        assert(fields =~= Seq::<RawField>::empty());
    } else {
        let first = fields[0];
        let others = fields.drop_first();
        let fb = field_bytes(first);
        assert(data =~= prefix + fb + fields_bytes(others));
        lemma_field_roundtrip(prefix, first, fields_bytes(others));
        assert forall|i: int| 0 <= i < others.len() implies is_writable(#[trigger] others[i]) by {
            assert(others[i] == fields[i + 1]);
        }
        assert(data =~= (prefix + fb) + fields_bytes(others));
        lemma_fields_roundtrip(prefix + fb, others);
        assert(seq![first] + others =~= fields);
    }
}

/// Reads the field that starts at `data[start]`.
pub fn read_field(data: &[u8], start: usize) -> (res: Result<(Field, usize), DecodeError>)
    ensures
        match res {
            Ok((field, next)) => field_at(data@, start as int) == Ok::<(RawField, int), DecodeError>(
                (field@, next as int),
            ) && start < next <= data@.len(),
            Err(e) => field_at(data@, start as int) == Err::<(RawField, int), DecodeError>(e),
        },
{
    let len: usize = data.len();
    let (key, at) = match read_varint(data, start) {
        Ok(found) => found,
        Err(e) => {
            return Err(e);
        },
    };
    let number: u64 = key / 8;
    let wire_type: u64 = key % 8;
    if number == 0 || number > MAX_FIELD_NUMBER {
        return Err(DecodeError::InvalidKey);
    }
    if wire_type == WIRE_VARINT {
        match read_varint(data, at) {
            Ok((v, next)) => Ok((Field { number, value: FieldValue::Varint(v) }, next)),
            Err(e) => Err(e),
        }
    } else if wire_type == WIRE_FIXED64 {
        if len - at >= 8 {
            Ok((Field { number, value: FieldValue::Fixed }, at + 8))
        } else {
            Err(DecodeError::UnexpectedEnd)
        }
    } else if wire_type == WIRE_BYTES {
        match read_varint(data, at) {
            Ok((body_len, body)) => {
                if body_len <= (len - body) as u64 {
                    let end: usize = body + body_len as usize;
                    let bytes = slice_to_vec(slice_subrange(data, body, end));
                    Ok((Field { number, value: FieldValue::Bytes(bytes) }, end))
                } else {
                    Err(DecodeError::UnexpectedEnd)
                }
            },
            Err(e) => Err(e),
        }
    } else if wire_type == WIRE_FIXED32 {
        if len - at >= 4 {
            Ok((Field { number, value: FieldValue::Fixed }, at + 4))
        } else {
            Err(DecodeError::UnexpectedEnd)
        }
    } else {
        Err(DecodeError::InvalidKey)
    }
}

/// What `rest` is with the fields `done` in front of it.
pub open spec fn with_fields_in_front(done: Seq<RawField>, rest: Result<Seq<RawField>, DecodeError>)
    -> Result<Seq<RawField>, DecodeError> {
    match rest {
        Ok(fields) => Ok(done + fields),
        Err(e) => Err(e),
    }
}

/// Reads the fields that `data` is made of.
pub fn read_fields(data: &[u8]) -> (res: Result<Vec<Field>, DecodeError>)
    ensures
        match res {
            Ok(fields) => parse_fields(data@) == Ok::<Seq<RawField>, DecodeError>(
                fields_view(fields@),
            ),
            Err(e) => parse_fields(data@) == Err::<Seq<RawField>, DecodeError>(e),
        },
{
    let mut fields: Vec<Field> = Vec::new();
    let mut pos: usize = 0;
    while pos < data.len()
        invariant
            pos <= data@.len(),
            parse_fields(data@) == with_fields_in_front(
                fields_view(fields@),
                fields_from(data@, pos as int),
            ),
        decreases data@.len() - pos,
    {
        match read_field(data, pos) {
            Ok((field, next)) => {
                proof {
                    let done = fields_view(fields@);
                    let after = fields_view(fields@.push(field));
                    assert(after =~= done + seq![field@]);
                    match fields_from(data@, next as int) {
                        Ok(rest) => {
                            assert(after + rest =~= done + (seq![field@] + rest));
                        },
                        Err(_) => {},
                    }
                }
                fields.push(field);
                pos = next;
            },
            Err(e) => {
                return Err(e);
            },
        }
    }
    proof {
        assert(fields_view(fields@) + Seq::<RawField>::empty() =~= fields_view(fields@));
    }
    Ok(fields)
}

/// Appends a field that holds the integer `v`.
pub fn write_varint_field(out: &mut Vec<u8>, number: u64, v: u64)
    requires
        1 <= number <= MAX_FIELD_NUMBER,
    ensures
        final(out)@ == old(out)@ + field_bytes(
            RawField { number, value: RawValue::Varint(v) },
        ),
{
    write_varint(out, number * 8 + WIRE_VARINT);
    write_varint(out, v);
    proof {
        let key = varint_bytes((number * 8 + WIRE_VARINT) as nat);
        assert(out@ =~= old(out)@ + (key + varint_bytes(v as nat)));
    }
}

/// Appends a field that holds the byte string `bytes`.
pub fn write_bytes_field(out: &mut Vec<u8>, number: u64, bytes: &[u8])
    requires
        1 <= number <= MAX_FIELD_NUMBER,
    ensures
        final(out)@ == old(out)@ + field_bytes(
            RawField { number, value: RawValue::Bytes(bytes@) },
        ),
{
    write_varint(out, number * 8 + WIRE_BYTES);
    write_varint(out, bytes.len() as u64);
    out.extend_from_slice(bytes);
    proof {
        let key = varint_bytes((number * 8 + WIRE_BYTES) as nat);
        assert(out@ =~= old(out)@ + (key + varint_bytes(bytes@.len()) + bytes@));
    }
}

} // verus!

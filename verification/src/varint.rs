//! Numbers in base 128, least significant digit first, one digit per byte,
//! the high bit of a byte saying that another digit follows: the VarInt of
//! the Minecraft protocol and the varint of the control-plane encoding.

use vstd::prelude::*;

verus! {

/// The low seven bits of a VarInt byte.
pub open spec fn low7(b: u8) -> nat {
    (b % 128) as nat
}

/// Whether a VarInt byte announces that another byte follows.
pub open spec fn has_continuation(b: u8) -> bool {
    b >= 128
}

/// Whether `data` holds a byte at `k` and that byte carries the continuation
/// bit.
pub open spec fn continues_at(data: Seq<u8>, k: int) -> bool {
    0 <= k < data.len() && has_continuation(data[k])
}

/// Number of bytes of the VarInt that starts at `start`, if one of the first
/// `limit` bytes from there ends it; `None` if the data run out first or all
/// `limit` bytes carry the continuation bit.
pub open spec fn varint_len(data: Seq<u8>, start: int, limit: nat) -> Option<nat>
    decreases limit,
{
    if limit == 0 || start < 0 || start >= data.len() {
        None
    } else if !has_continuation(data[start]) {
        Some(1)
    } else {
        match varint_len(data, start + 1, (limit - 1) as nat) {
            Some(n) => Some(n + 1),
            None => None,
        }
    }
}

/// 128 to the power `n`.
pub open spec fn pow128(n: nat) -> nat
    decreases n,
{
    if n == 0 {
        1
    } else {
        128 * pow128((n - 1) as nat)
    }
}

/// Value of the `n` bytes from `start` read as little-endian base-128 digits:
/// the sum of `low7(data[start + i]) * 128^i` over `i < n`.
pub open spec fn varint_value(data: Seq<u8>, start: int, n: nat) -> nat
    decreases n,
{
    if n == 0 {
        0
    } else {
        varint_value(data, start, (n - 1) as nat) + low7(data[start + n - 1]) * pow128(
            (n - 1) as nat,
        )
    }
}

/// Skipping `i` bytes that all carry the continuation bit leaves the length
/// of the VarInt to be found in the rest, `i` more than what the rest says.
pub proof fn lemma_varint_len_skip(data: Seq<u8>, start: int, limit: nat, i: nat)
    requires
        0 <= start,
        i <= limit,
        forall|k: int| start <= k < start + i ==> continues_at(data, k),
    ensures
        varint_len(data, start, limit) == match varint_len(data, start + i, (limit - i) as nat) {
            Some(n) => Some(n + i),
            None => None,
        },
    decreases i,
{
    if i > 0 {
        assert(continues_at(data, start));
        lemma_varint_len_skip(data, start + 1, (limit - 1) as nat, (i - 1) as nat);
    }
}

/// The value of `n` bytes is below `128^n`.
pub proof fn lemma_varint_value_bound(data: Seq<u8>, start: int, n: nat)
    ensures
        varint_value(data, start, n) < pow128(n),
    decreases n,
{
    if n > 0 {
        lemma_varint_value_bound(data, start, (n - 1) as nat);
        let p = pow128((n - 1) as nat);
        let d = low7(data[start + n - 1]);
        assert(d * p <= 127 * p) by (nonlinear_arith)
            requires
                d <= 127,
                p >= 0,
        ;
    }
}

/// The length of a VarInt is between one and the limit, and the VarInt ends
/// within the data.
pub proof fn lemma_varint_len_bounds(data: Seq<u8>, start: int, limit: nat)
    requires
        0 <= start,
        varint_len(data, start, limit) is Some,
    ensures
        1 <= varint_len(data, start, limit)->0 <= limit,
        start + varint_len(data, start, limit)->0 <= data.len(),
    decreases limit,
{
    if has_continuation(data[start]) {
        lemma_varint_len_bounds(data, start + 1, (limit - 1) as nat);
    }
}

/// `128^a <= 128^b` for `a <= b`.
pub proof fn lemma_pow128_monotonic(a: nat, b: nat)
    requires
        a <= b,
    ensures
        pow128(a) <= pow128(b),
        pow128(a) >= 1,
    decreases b,
{
    if a < b {
        lemma_pow128_monotonic(a, (b - 1) as nat);
    } else if a > 0 {
        lemma_pow128_monotonic((a - 1) as nat, (b - 1) as nat);
    }
}

/// Appending bytes changes neither the length nor the value of a VarInt
/// that was complete before.
pub proof fn lemma_varint_stable(buf: Seq<u8>, more: Seq<u8>, start: int, limit: nat)
    requires
        varint_len(buf, start, limit) is Some,
    ensures
        varint_len(buf + more, start, limit) == varint_len(buf, start, limit),
        start + varint_len(buf, start, limit)->0 <= buf.len(),
        forall|n: nat|
            n <= varint_len(buf, start, limit)->0 ==> varint_value(buf + more, start, n)
                == varint_value(buf, start, n),
    decreases limit,
{
    let ext = buf + more;
    if has_continuation(buf[start]) {
        lemma_varint_stable(buf, more, start + 1, (limit - 1) as nat);
    }
    let len = varint_len(buf, start, limit)->0;
    assert forall|n: nat| n <= len implies varint_value(ext, start, n) == varint_value(
        buf,
        start,
        n,
    ) by {
        lemma_value_stable(buf, more, start, n);
    }
}

/// The value of `n` bytes that the buffer holds does not change when bytes
/// are appended.
pub proof fn lemma_value_stable(buf: Seq<u8>, more: Seq<u8>, start: int, n: nat)
    requires
        0 <= start,
        start + n <= buf.len(),
    ensures
        varint_value(buf + more, start, n) == varint_value(buf, start, n),
    decreases n,
{
    if n > 0 {
        lemma_value_stable(buf, more, start, (n - 1) as nat);
    }
}

/// Largest number of base-128 digits that the reader below is asked for:
/// what a 64-bit number needs.
pub const MAX_DIGITS: usize = 10;

/// Reads the base-128 number that starts at `data[start]` and has at most
/// `limit` digits. Returns the value and the position behind it; `None` if
/// the data end before the number does or the digit `limit` still carries
/// the continuation bit.
pub fn read_base128(data: &[u8], start: usize, limit: usize) -> (res: Option<(u128, usize)>)
    requires
        limit <= MAX_DIGITS,
    ensures
        match res {
            Some((value, next)) => varint_len(data@, start as int, limit as nat) == Some(
                (next - start) as nat,
            ) && start < next <= data@.len() && value == varint_value(
                data@,
                start as int,
                (next - start) as nat,
            ),
            None => varint_len(data@, start as int, limit as nat) is None,
        },
{
    let mut result: u128 = 0;
    let mut weight: u128 = 1;
    let mut pos: usize = start;
    let mut i: usize = 0;
    while i < limit
        invariant
            i <= limit <= MAX_DIGITS,
            pos == start + i,
            pos <= data.len() || i == 0,
            weight == pow128(i as nat),
            result == varint_value(data@, start as int, i as nat),
            result < weight,
            forall|k: int| start <= k < start + i ==> continues_at(data@, k),
        decreases limit - i,
    {
        if pos >= data.len() {
            proof {
                lemma_varint_len_skip(data@, start as int, limit as nat, i as nat);
            }
            return None;
        }
        let byte: u8 = data[pos];
        let low: u128 = (byte & 0x7F) as u128;
        assert(byte & 0x7F == byte % 128) by (bit_vector);
        assert((byte & 0x80 == 0) <==> byte < 128) by (bit_vector);
        proof {
            reveal_with_fuel(pow128, 10);
            assert(low * weight <= 127 * weight) by (nonlinear_arith)
                requires
                    low <= 127,
                    weight >= 0,
            ;
        }
        result = result + low * weight;
        pos = pos + 1;
        if (byte & 0x80) == 0 {
            proof {
                lemma_varint_len_skip(data@, start as int, limit as nat, i as nat);
            }
            return Some((result, pos));
        }
        weight = weight * 128;
        i = i + 1;
    }
    proof {
        lemma_varint_len_skip(data@, start as int, limit as nat, limit as nat);
    }
    None
}

} // verus!

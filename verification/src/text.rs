//! Text helpers shared by the sniffers and the dispatcher: decoding UTF-8,
//! and the few operations on host names that routing needs.

use vstd::prelude::*;
use vstd::std_specs::iter::IteratorSpec;
use vstd::string::StringExecFns;
use vstd::utf8::*;

verus! {

/// The characters that `bytes` spell in UTF-8, if they are valid UTF-8.
pub open spec fn utf8_text(bytes: Seq<u8>) -> Option<Seq<char>> {
    if valid_utf8(bytes) {
        Some(decode_utf8(bytes))
    } else {
        None
    }
}

/// The view of an optional string.
pub open spec fn opt_view(s: Option<String>) -> Option<Seq<char>> {
    match s {
        Some(t) => Some(t@),
        None => None,
    }
}

/// Number of bytes of `data` from `start` on.
pub open spec fn bytes_left(data: Seq<u8>, start: int) -> nat {
    if start <= data.len() {
        (data.len() - start) as nat
    } else {
        0
    }
}

/// Calls `core::str::from_utf8`. Trusted: the call succeeds exactly on valid
/// UTF-8, and the string it returns is made of the very bytes it was given.
#[verifier::external_body]
fn str_from_utf8(bytes: &[u8]) -> (res: Option<&str>)
    ensures
        match res {
            Some(s) => valid_utf8(bytes@) && s@ == decode_utf8(bytes@),
            None => !valid_utf8(bytes@),
        },
{
    match core::str::from_utf8(bytes) {
        Ok(s) => Some(s),
        Err(_) => None,
    }
}

/// Decodes `bytes` as UTF-8 into an owned string.
pub fn decode_text(bytes: &[u8]) -> (res: Option<String>)
    ensures
        opt_view(res) == utf8_text(bytes@),
{
    match str_from_utf8(bytes) {
        Some(s) => Some(s.to_owned()),
        None => None,
    }
}


/// A text never has more characters than its UTF-8 encoding has bytes.
pub proof fn lemma_chars_fit_bytes(s: Seq<char>)
    ensures
        s.len() <= encode_utf8(s).len(),
    decreases s.len(),
{
    if s.len() > 0 {
        lemma_chars_fit_bytes(s.drop_first());
    }
}

/// Two texts with the same UTF-8 encoding are the same text.
pub proof fn lemma_encoding_is_injective(a: Seq<char>, b: Seq<char>)
    requires
        encode_utf8(a) == encode_utf8(b),
    ensures
        a == b,
{
    encode_utf8_decode_utf8(a);
    encode_utf8_decode_utf8(b);
}

/// Whether two byte strings are equal.
pub fn bytes_eq(a: &[u8], b: &[u8]) -> (same: bool)
    ensures
        same == (a@ == b@),
{
    if a.len() != b.len() {
        return false;
    }
    let mut i: usize = 0;
    while i < a.len()
        invariant
            i <= a@.len(),
            a@.len() == b@.len(),
            forall|j: int| 0 <= j < i ==> a@[j] == b@[j],
        decreases a@.len() - i,
    {
        if a[i] != b[i] {
            return false;
        }
        i = i + 1;
    }
    assert(a@ =~= b@);
    true
}

/// Whether two strings hold the same text.
pub fn str_eq(a: &str, b: &str) -> (same: bool)
    ensures
        same == (a@ == b@),
{
    let same = bytes_eq(a.as_bytes(), b.as_bytes());
    proof {
        if same {
            lemma_encoding_is_injective(a@, b@);
        }
    }
    same
}

/// Index of the first `c` in `s`, or the length of `s` if there is none.
pub open spec fn first_index_of<T>(s: Seq<T>, c: T) -> int
    decreases s.len(),
{
    if s.len() == 0 || s[0] == c {
        0
    } else {
        1 + first_index_of(s.drop_first(), c)
    }
}

/// `first_index_of` is the one position below which no `c` stands and at
/// which `s` ends or holds `c`.
pub proof fn lemma_first_index_of<T>(s: Seq<T>, c: T, n: int)
    requires
        0 <= n <= s.len(),
        forall|j: int| 0 <= j < n ==> s[j] != c,
        n == s.len() || s[n] == c,
    ensures
        first_index_of(s, c) == n,
    decreases s.len(),
{
    if n > 0 {
        let t = s.drop_first();
        lemma_first_index_of(t, c, n - 1);
    }
}

/// What `first_index_of` finds: a position within `s`, no `c` before it, and
/// `c` at it unless it is the end.
pub proof fn lemma_first_index_of_bounds<T>(s: Seq<T>, c: T)
    ensures
        0 <= first_index_of(s, c) <= s.len(),
        forall|j: int| 0 <= j < first_index_of(s, c) ==> s[j] != c,
        first_index_of(s, c) < s.len() ==> s[first_index_of(s, c)] == c,
    decreases s.len(),
{
    if !(s.len() == 0 || s[0] == c) {
        let t = s.drop_first();
        lemma_first_index_of_bounds(t, c);
        assert forall|j: int| 0 <= j < first_index_of(s, c) implies s[j] != c by {
            if j > 0 {
                assert(s[j] == t[j - 1]);
            }
        }
    }
}

/// Number of characters of `text` in front of its first `c`; the number of
/// all its characters if it holds none.
pub fn count_until(text: &str, c: char) -> (n: usize)
    ensures
        n == first_index_of(text@, c),
        n <= text@.len(),
{
    broadcast use vstd::string::group_string_axioms;

    let byte_len = text.as_bytes().len();
    proof {
        lemma_chars_fit_bytes(text@);
        assert(text@.len() <= byte_len);
    }
    let mut n: usize = 0;
    let mut it = text.chars();
    let ghost all = text@;
    let mut done = false;
    while !done
        invariant
            n <= all.len(),
            all.len() <= usize::MAX,
            !done ==> it.remaining() == all.skip(n as int),
            forall|j: int| 0 <= j < n ==> all[j] != c,
            done ==> n == all.len() || all[n as int] == c,
        decreases
                all.len() - n + (if done {
                    0int
                } else {
                    1int
                }),
    {
        match it.next() {
            Some(x) => {
                if x == c {
                    done = true;
                } else {
                    n = n + 1;
                }
            },
            None => {
                done = true;
            },
        }
    }
    proof {
        lemma_first_index_of(all, c, n as int);
    }
    n
}

/// The leading DNS label of a host name: what stands in front of its first
/// dot, or all of it if it has none.
pub open spec fn label_of(host: Seq<char>) -> Seq<char> {
    host.take(first_index_of(host, '.'))
}

/// The leading DNS label of `host`.
pub fn leading_label(host: &str) -> (label: String)
    ensures
        label@ == label_of(host@),
{
    let n = count_until(host, '.');
    host.substring_char(0, n).to_owned()
}

/// `c` with an upper-case ASCII letter turned into its lower-case form.
pub open spec fn ascii_lower(c: char) -> char {
    if 'A' <= c && c <= 'Z' {
        ((c as u8) + 32) as char
    } else {
        c
    }
}

/// Whether `a` and `b` are the same text but for the case of ASCII letters.
pub open spec fn same_ignoring_ascii_case(a: Seq<char>, b: Seq<char>) -> bool {
    &&& a.len() == b.len()
    &&& forall|i: int| 0 <= i < a.len() ==> ascii_lower(#[trigger] a[i]) == ascii_lower(b[i])
}

/// `c` with an upper-case ASCII letter turned into its lower-case form.
pub fn to_ascii_lower(c: char) -> (l: char)
    ensures
        l == ascii_lower(c),
{
    if 'A' <= c && c <= 'Z' {
        ((c as u8) + 32) as char
    } else {
        c
    }
}

/// Whether `a` and `b` are the same text but for the case of ASCII letters.
pub fn eq_ignore_ascii_case(a: &str, b: &str) -> (same: bool)
    ensures
        same == same_ignoring_ascii_case(a@, b@),
{
    broadcast use vstd::string::group_string_axioms;

    let mut left = a.chars();
    let mut right = b.chars();
    let ghost mut n: int = 0;
    loop
        invariant
            0 <= n <= a@.len(),
            n <= b@.len(),
            left.remaining() == a@.skip(n),
            right.remaining() == b@.skip(n),
            forall|i: int| 0 <= i < n ==> ascii_lower(#[trigger] a@[i]) == ascii_lower(b@[i]),
        decreases a@.len() - n,
    {
        match left.next() {
            Some(x) => match right.next() {
                Some(y) => {
                    if to_ascii_lower(x) != to_ascii_lower(y) {
                        return false;
                    }
                    proof {
                        n = n + 1;
                    }
                },
                None => {
                    return false;
                },
            },
            None => {
                return right.next().is_none();
            },
        }
    }
}

/// The character that writes the digit `d`.
pub open spec fn digit_char(d: nat) -> char {
    if d == 0 {
        '0'
    } else if d == 1 {
        '1'
    } else if d == 2 {
        '2'
    } else if d == 3 {
        '3'
    } else if d == 4 {
        '4'
    } else if d == 5 {
        '5'
    } else if d == 6 {
        '6'
    } else if d == 7 {
        '7'
    } else if d == 8 {
        '8'
    } else {
        '9'
    }
}

/// The decimal numeral of `n`, without leading zeros.
pub open spec fn decimal(n: nat) -> Seq<char>
    decreases n,
{
    if n < 10 {
        seq![digit_char(n)]
    } else {
        decimal(n / 10).push(digit_char(n % 10))
    }
}

/// The numeral of one digit.
fn digit_text(d: u16) -> (s: &'static str)
    requires
        d < 10,
    ensures
        s@ == seq![digit_char(d as nat)],
{
    proof {
        reveal_strlit("0");
        reveal_strlit("1");
        reveal_strlit("2");
        reveal_strlit("3");
        reveal_strlit("4");
        reveal_strlit("5");
        reveal_strlit("6");
        reveal_strlit("7");
        reveal_strlit("8");
        reveal_strlit("9");
    }
    let s = if d == 0 {
        "0"
    } else if d == 1 {
        "1"
    } else if d == 2 {
        "2"
    } else if d == 3 {
        "3"
    } else if d == 4 {
        "4"
    } else if d == 5 {
        "5"
    } else if d == 6 {
        "6"
    } else if d == 7 {
        "7"
    } else if d == 8 {
        "8"
    } else {
        "9"
    };
    s
}

/// The decimal numeral of `n`.
pub fn u16_text(n: u16) -> (s: String)
    ensures
        s@ == decimal(n as nat),
    decreases n,
{
    if n < 10 {
        digit_text(n).to_owned()
    } else {
        let head = u16_text(n / 10);
        let s = head.concat(digit_text(n % 10));
        s
    }
}

/// The address `host:port` as text.
pub open spec fn host_port(host: Seq<char>, port: u16) -> Seq<char> {
    host + ":"@ + decimal(port as nat)
}

/// The address `host:port`.
pub fn join_host_port(host: &str, port: u16) -> (addr: String)
    ensures
        addr@ == host_port(host@, port),
{
    let digits = u16_text(port);
    host.to_owned().concat(":").concat(digits.as_str())
}

/// Whether `c` is one of the digits `0` to `9`.
pub open spec fn is_digit(c: char) -> bool {
    '0' <= c && c <= '9'
}

/// The number that a run of decimal digits writes: `None` for an empty run
/// and for one that holds anything but digits.
pub open spec fn digits_value(s: Seq<char>) -> Option<nat>
    decreases s.len(),
{
    if s.len() == 0 {
        None
    } else if !is_digit(s.last()) {
        None
    } else if s.len() == 1 {
        Some((s[0] as nat - '0' as nat) as nat)
    } else {
        match digits_value(s.drop_last()) {
            Some(v) => Some(v * 10 + (s.last() as nat - '0' as nat) as nat),
            None => None,
        }
    }
}

/// The 16-bit number that `s` writes in decimal, with or without a plus
/// sign in front: `None` if `s` holds no digit, holds anything else, or
/// writes a number above 65535.
pub open spec fn u16_of(s: Seq<char>) -> Option<u16> {
    let digits = if s.len() > 0 && s[0] == '+' {
        s.skip(1)
    } else {
        s
    };
    match digits_value(digits) {
        Some(v) => if v <= u16::MAX {
            Some(v as u16)
        } else {
            None
        },
        None => None,
    }
}

/// The value of a run of digits, as far as it matters for a 16-bit number:
/// the value itself up to 65535, and 65536 for everything above.
pub open spec fn capped_value(s: Seq<char>) -> nat {
    match digits_value(s) {
        Some(v) => if v <= u16::MAX {
            v
        } else {
            65536
        },
        None => 0,
    }
}

/// Reads `text` as a 16-bit number in decimal.
pub fn parse_u16(text: &str) -> (res: Option<u16>)
    ensures
        res == u16_of(text@),
{
    broadcast use vstd::string::group_string_axioms;

    let ghost all = text@;
    let mut it = text.chars();
    let ghost mut seen: int = 0;
    let ghost mut from: int = 0;
    let mut first = true;
    let mut any = false;
    let mut acc: u32 = 0;
    loop
        invariant
            all == text@,
            0 <= from <= seen <= all.len(),
            it.remaining() == all.skip(seen),
            first <==> seen == 0,
            from == 0 || (from == 1 && all[0] == '+'),
            from == 1 ==> seen >= 1,
            seen > 0 && all[0] == '+' ==> from == 1,
            any <==> seen > from,
            !first && !any ==> seen == 1 && from == 1,
            any ==> digits_value(all.subrange(from, seen)) is Some,
            acc == if any {
                capped_value(all.subrange(from, seen))
            } else {
                0
            },
            acc <= 65536,
        decreases all.len() - seen,
    {
        match it.next() {
            Some(c) => {
                if first && c == '+' {
                    first = false;
                    proof {
                        seen = 1;
                        from = 1;
                    }
                } else if '0' <= c && c <= '9' {
                    let d: u32 = c as u32 - '0' as u32;
                    proof {
                        let before = all.subrange(from, seen);
                        let now = all.subrange(from, seen + 1);
                        assert(now.drop_last() =~= before);
                    }
                    acc = acc * 10 + d;
                    if acc > 65535 {
                        acc = 65536;
                    }
                    first = false;
                    any = true;
                    proof {
                        seen = seen + 1;
                    }
                } else {
                    proof {
                        lemma_not_a_number(all, from, seen);
                    }
                    return None;
                }
            },
            None => {
                proof {
                    assert(all.subrange(from, seen) =~= if from == 1 {
                        all.skip(1)
                    } else {
                        all
                    });
                }
                if any && acc <= 65535 {
                    return Some(acc as u16);
                } else {
                    return None;
                }
            },
        }
    }
}

/// A text with a character at `seen` that is no digit, and no plus sign at
/// the front, writes no number.
proof fn lemma_not_a_number(all: Seq<char>, from: int, seen: int)
    requires
        0 <= from <= seen < all.len(),
        from == 0 || (from == 1 && all[0] == '+'),
        !is_digit(all[seen]),
        !(seen == 0 && all[0] == '+'),
    ensures
        u16_of(all) is None,
{
    let digits = if all.len() > 0 && all[0] == '+' {
        all.skip(1)
    } else {
        all
    };
    if all[0] == '+' {
        lemma_digits_all_digits(digits, seen - 1);
    } else {
        lemma_digits_all_digits(digits, seen);
    }
}

/// A run of characters that writes a number holds digits only.
pub proof fn lemma_digits_all_digits(s: Seq<char>, i: int)
    requires
        0 <= i < s.len(),
        !is_digit(s[i]),
    ensures
        digits_value(s) is None,
    decreases s.len(),
{
    if i < s.len() - 1 {
        lemma_digits_all_digits(s.drop_last(), i);
    }
}

/// Number of characters of `s` that are left when every `c` at its end is
/// taken away.
pub open spec fn trimmed_len(s: Seq<char>, c: char) -> int
    decreases s.len(),
{
    if s.len() > 0 && s.last() == c {
        trimmed_len(s.drop_last(), c)
    } else {
        s.len() as int
    }
}

/// `s` without the run of `c` at its end.
pub open spec fn trim_end(s: Seq<char>, c: char) -> Seq<char> {
    s.take(trimmed_len(s, c))
}

/// Index of the last `c` in `s`.
pub open spec fn last_index_of(s: Seq<char>, c: char) -> Option<int>
    decreases s.len(),
{
    if s.len() == 0 {
        None
    } else if s.last() == c {
        Some(s.len() - 1)
    } else {
        last_index_of(s.drop_last(), c)
    }
}

/// Scans `text` once: the number of its characters, the number that is
/// left without the run of `trim` at its end, and the index of its last
/// `find`.
pub fn scan(text: &str, trim: char, find: char) -> (res: (usize, usize, Option<usize>))
    ensures
        ({
            let (len, kept, last) = res;
            &&& len == text@.len()
            &&& kept == trimmed_len(text@, trim)
            &&& kept <= len
            &&& match last {
                Some(i) => last_index_of(text@, find) == Some(i as int) && i < len,
                None => last_index_of(text@, find) is None,
            }
        }),
{
    broadcast use vstd::string::group_string_axioms;

    let byte_len = text.as_bytes().len();
    proof {
        lemma_chars_fit_bytes(text@);
        assert(text@.len() <= byte_len);
    }
    let ghost all = text@;
    let mut it = text.chars();
    let mut n: usize = 0;
    let mut kept: usize = 0;
    let mut last: Option<usize> = None;
    loop
        invariant
            all == text@,
            all.len() <= usize::MAX,
            n <= all.len(),
            it.remaining() == all.skip(n as int),
            kept == trimmed_len(all.take(n as int), trim),
            kept <= n,
            match last {
                Some(i) => last_index_of(all.take(n as int), find) == Some(i as int) && i < n,
                None => last_index_of(all.take(n as int), find) is None,
            },
        decreases all.len() - n,
    {
        match it.next() {
            Some(c) => {
                proof {
                    let now = all.take(n + 1);
                    assert(now.drop_last() =~= all.take(n as int));
                }
                if c != trim {
                    kept = n + 1;
                }
                if c == find {
                    last = Some(n);
                }
                n = n + 1;
            },
            None => {
                proof {
                    assert(all.take(n as int) =~= all);
                }
                return (n, kept, last);
            },
        }
    }
}

/// Whether `s` starts with `prefix`.
pub open spec fn starts_with(s: Seq<char>, prefix: Seq<char>) -> bool {
    prefix.len() <= s.len() && s.take(prefix.len() as int) == prefix
}

/// Whether `text` starts with `prefix`.
pub fn has_prefix(text: &str, prefix: &str) -> (b: bool)
    ensures
        b == starts_with(text@, prefix@),
{
    broadcast use vstd::string::group_string_axioms;

    let mut left = text.chars();
    let mut right = prefix.chars();
    let ghost mut n: int = 0;
    loop
        invariant
            0 <= n <= text@.len(),
            n <= prefix@.len(),
            left.remaining() == text@.skip(n),
            right.remaining() == prefix@.skip(n),
            forall|i: int| 0 <= i < n ==> text@[i] == prefix@[i],
        decreases prefix@.len() - n,
    {
        match right.next() {
            Some(y) => match left.next() {
                Some(x) => {
                    if x != y {
                        return false;
                    }
                    proof {
                        n = n + 1;
                    }
                },
                None => {
                    return false;
                },
            },
            None => {
                proof {
                    assert(text@.take(prefix@.len() as int) =~= prefix@);
                }
                return true;
            },
        }
    }
}

} // verus!

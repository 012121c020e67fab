//! Conversions between strings, C byte arrays and numbers.
use vstd::prelude::*;
use vstd::string::*;
use vstd::utf8::*;

verus! {

/// The C boolean for `var`: 1 for true, 0 for false.
pub fn bool_to_cint(var: bool) -> (r: i32)
    ensures
        r == (if var { 1i32 } else { 0i32 }),
{
    if var {
        1
    } else {
        0
    }
}

/// The bytes of `buf` before its first NUL byte (all of it when it has none).
pub open spec fn cstr_prefix(buf: Seq<u8>) -> Seq<u8> {
    if exists|i: int| 0 <= i < buf.len() && #[trigger] buf[i] == 0 {
        buf.take(choose|i: int| 0 <= i < buf.len() && buf[i] == 0 && forall|j: int| 0 <= j < i ==> buf[j] != 0)
    } else {
        buf
    }
}

/// The bytes of `buf` before its first NUL byte.
pub fn cstr_bytes(buf: &[u8]) -> (r: Vec<u8>)
    ensures
        r@.len() <= buf@.len(),
        r@ == buf@.take(r@.len() as int),
        forall|j: int| 0 <= j < r@.len() ==> r@[j] != 0,
        r@.len() < buf@.len() ==> buf@[r@.len() as int] == 0,
{
    let mut v: Vec<u8> = Vec::new();
    let mut i: usize = 0;
    while i < buf.len()
        invariant
            i <= buf@.len(),
            v@ == buf@.take(i as int),
            forall|j: int| 0 <= j < i ==> buf@[j] != 0,
        decreases buf@.len() - i,
    {
        if buf[i] == 0 {
            return v;
        }
        v.push(buf[i]);
        i = i + 1;
    }
    v
}

/// The text `String::from_utf8_lossy` makes of `bytes`: a function of the
/// bytes alone.
pub uninterp spec fn utf8_lossy(bytes: Seq<u8>) -> Seq<char>;

/// `String::from_utf8_lossy`: the text that `bytes` encode, each malformed
/// sequence replaced by U+FFFD. Its result is named `utf8_lossy`; for valid
/// UTF-8 it is the decoded text.
#[verifier::external_body]
fn string_from_utf8_lossy(bytes: &Vec<u8>) -> (r: String)
    ensures
        r@ == utf8_lossy(bytes@),
        valid_utf8(bytes@) ==> r@ == decode_utf8(bytes@),
{
    String::from_utf8_lossy(bytes.as_slice()).into_owned()
}

/// The text of a NUL-terminated C string held in `buf`: the bytes before the
/// first NUL, decoded as UTF-8 (malformed sequences become U+FFFD).
pub fn cstr_arr_to_string(buf: &[u8]) -> (r: String)
    ensures
        r@ == utf8_lossy(cstr_prefix(buf@)),
        valid_utf8(cstr_prefix(buf@)) ==> r@ == decode_utf8(cstr_prefix(buf@)),
{
    let v = cstr_bytes(buf);
    proof {
        if v@.len() < buf@.len() {
            let k = v@.len() as int;
            assert(buf@[k] == 0);
            let c = choose|i: int| 0 <= i < buf@.len() && buf@[i] == 0 && forall|j: int| 0 <= j < i ==> buf@[j] != 0;
            assert(0 <= k < buf@.len() && buf@[k] == 0 && forall|j: int| 0 <= j < k ==> buf@[j] != 0) by {
                assert forall|j: int| 0 <= j < k implies buf@[j] != 0 by {
                    assert(v@[j] == buf@[j]);
                }
            }
            if c < k {
                assert(v@[c] == buf@[c]);
            }
            if k < c {
                assert(buf@[k] != 0);
            }
            assert(c == k);
        } else {
            assert(v@ =~= buf@);
            if exists|i: int| 0 <= i < buf@.len() && #[trigger] buf@[i] == 0 {
                let i = choose|i: int| 0 <= i < buf@.len() && #[trigger] buf@[i] == 0;
                assert(v@[i] == buf@[i]);
            }
        }
        assert(v@ == cstr_prefix(buf@));
    }
    string_from_utf8_lossy(&v)
}

/// The 32-byte C array holding the UTF-8 bytes of `s`, padded with zeros.
pub fn string_to_cstr_arr(s: String) -> (r: [u8; 32])
    requires
        encode_utf8(s@).len() <= 32,
    ensures
        forall|i: int| 0 <= i < encode_utf8(s@).len() ==> r@[i] == encode_utf8(s@)[i],
        forall|i: int| encode_utf8(s@).len() <= i < 32 ==> r@[i] == 0,
{
    let mut buf: [u8; 32] = [0u8; 32];
    let bytes = s.as_str().as_bytes();
    let mut i: usize = 0;
    while i < bytes.len()
        invariant
            bytes@ == encode_utf8(s@),
            bytes@.len() <= 32,
            i <= bytes@.len(),
            forall|j: int| 0 <= j < i ==> buf@[j] == bytes@[j],
            forall|j: int| bytes@.len() <= j < 32 ==> buf@[j] == 0,
        decreases bytes@.len() - i,
    {
        buf[i] = bytes[i];
        i = i + 1;
    }
    buf
}


/// Why a string is not a number, as std's integer parsing reports it.
#[derive(Clone, Copy, PartialEq, Eq, Structural, Debug)]
pub enum NumParseError {
    /// The string is empty.
    Empty,
    /// A character is not a digit of the radix, or a sign stands alone.
    InvalidDigit,
    /// The number does not fit in the target type.
    PosOverflow,
}

/// The value of digit `c` in base `radix` (`0-9`, then `a-z` or `A-Z`), if it is one.
pub open spec fn char_digit(c: char, radix: nat) -> Option<nat> {
    let n = c as u32;
    let d: int = if 0x30 <= n <= 0x39 {
        n - 0x30
    } else if 0x61 <= n <= 0x7a {
        n - 0x61 + 10
    } else if 0x41 <= n <= 0x5a {
        n - 0x41 + 10
    } else {
        36
    };
    if d < radix {
        Some(d as nat)
    } else {
        None
    }
}

/// Whether every character of `s` is a digit in base `radix`.
pub open spec fn all_digits(s: Seq<char>, radix: nat) -> bool {
    forall|i: int| 0 <= i < s.len() ==> #[trigger] char_digit(s[i], radix) is Some
}

/// The number that the digits `s` write in base `radix`.
pub open spec fn digits_value(s: Seq<char>, radix: nat) -> nat
    decreases s.len(),
{
    if s.len() == 0 {
        0
    } else {
        let d = match char_digit(s.last(), radix) {
            Some(d) => d,
            None => 0,
        };
        digits_value(s.drop_last(), radix) * radix + d
    }
}

/// `s` without its leading `+`, if it has one.
pub open spec fn unsigned_digits(s: Seq<char>) -> Seq<char> {
    if s.len() > 0 && s[0] == '+' {
        s.drop_first()
    } else {
        s
    }
}

/// Whether `s` is an unsigned number in base `radix` (an optional `+`, then
/// one digit or more) whose value is at most `max`.
pub open spec fn parses_as(s: Seq<char>, radix: nat, max: nat) -> bool {
    let d = unsigned_digits(s);
    d.len() > 0 && all_digits(d, radix) && digits_value(d, radix) <= max
}

/// What std's unsigned integer parsing reports for `s` in base `radix`, for a
/// type whose largest value is `max`: the value, or the error kind. Where an
/// invalid digit follows a prefix that already overflows, std may report
/// either kind; this function says `InvalidDigit` there, and the contracts
/// that use it say so.
pub open spec fn radix_parse(s: Seq<char>, radix: nat, max: nat) -> Result<nat, NumParseError> {
    let d = unsigned_digits(s);
    if s.len() == 0 {
        Err(NumParseError::Empty)
    } else if d.len() == 0 || !all_digits(d, radix) {
        Err(NumParseError::InvalidDigit)
    } else if digits_value(d, radix) > max {
        Err(NumParseError::PosOverflow)
    } else {
        Ok(digits_value(d, radix))
    }
}

/// Whether `r` is what std's parsing of `s` in base `radix` into a type with
/// largest value `max` may return: exactly `radix_parse` but for the error
/// kind of a string with an invalid digit, which may also be `PosOverflow`.
pub open spec fn parse_result_matches<T>(r: Result<T, NumParseError>, value: spec_fn(T) -> nat, s: Seq<char>, radix: nat, max: nat) -> bool {
    match radix_parse(s, radix, max) {
        Ok(v) => r is Ok && value(r->Ok_0) == v,
        Err(NumParseError::InvalidDigit) => r == Err::<T, NumParseError>(NumParseError::InvalidDigit)
            || r == Err::<T, NumParseError>(NumParseError::PosOverflow),
        Err(e) => r == Err::<T, NumParseError>(e),
    }
}

/// `u64::from_str_radix`: per its documentation, an optional `+` followed by
/// digits of `radix` (`0-9`, `a-z`, `A-Z`), anything else an error; `Empty`
/// for the empty string, `PosOverflow` for a value above `u64::MAX`. It panics
/// for a radix outside 2..=36. Which error comes for a string that both holds
/// an invalid digit and overflows is left unsaid.
#[verifier::external_body]
pub(crate) fn u64_from_str_radix(src: &str, radix: u32) -> (r: Result<u64, NumParseError>)
    requires
        2 <= radix <= 36,
    ensures
        parse_result_matches(r, |v: u64| v as nat, src@, radix as nat, u64::MAX as nat),
{
    match u64::from_str_radix(src, radix) {
        Ok(v) => Ok(v),
        Err(e) => Err(
            match e.kind() {
                std::num::IntErrorKind::Empty => NumParseError::Empty,
                std::num::IntErrorKind::PosOverflow => NumParseError::PosOverflow,
                _ => NumParseError::InvalidDigit,
            },
        ),
    }
}

/// `u32::from_str_radix`, with the same contract as `u64_from_str_radix` for
/// the range of `u32`.
#[verifier::external_body]
pub(crate) fn u32_from_str_radix(src: &str, radix: u32) -> (r: Result<u32, NumParseError>)
    requires
        2 <= radix <= 36,
    ensures
        parse_result_matches(r, |v: u32| v as nat, src@, radix as nat, u32::MAX as nat),
{
    match u32::from_str_radix(src, radix) {
        Ok(v) => Ok(v),
        Err(e) => Err(
            match e.kind() {
                std::num::IntErrorKind::Empty => NumParseError::Empty,
                std::num::IntErrorKind::PosOverflow => NumParseError::PosOverflow,
                _ => NumParseError::InvalidDigit,
            },
        ),
    }
}

/// Whether `c` has the Unicode White_Space property, the whitespace that
/// `str::trim` removes.
pub open spec fn is_white_space(c: char) -> bool {
    let n = c as u32;
    (0x9 <= n <= 0xd) || n == 0x20 || n == 0x85 || n == 0xa0 || n == 0x1680 || (0x2000 <= n
        <= 0x200a) || n == 0x2028 || n == 0x2029 || n == 0x202f || n == 0x205f || n == 0x3000
}

fn char_is_white_space(c: char) -> (r: bool)
    ensures
        r == is_white_space(c),
{
    let n = c as u32;
    (0x9 <= n && n <= 0xd) || n == 0x20 || n == 0x85 || n == 0xa0 || n == 0x1680 || (0x2000 <= n
        && n <= 0x200a) || n == 0x2028 || n == 0x2029 || n == 0x202f || n == 0x205f || n == 0x3000
}

/// The index of the first non-whitespace character of `s` at or after `i`
/// (the length of `s` if there is none).
pub open spec fn first_non_ws(s: Seq<char>, i: nat) -> nat
    decreases s.len() - i,
{
    if i >= s.len() {
        s.len()
    } else if is_white_space(s[i as int]) {
        first_non_ws(s, i + 1)
    } else {
        i
    }
}

/// The end of the last non-whitespace character of `s` before `j` (0 if none).
pub open spec fn end_non_ws(s: Seq<char>, j: nat) -> nat
    decreases j,
{
    if j == 0 {
        0
    } else if is_white_space(s[j - 1]) {
        end_non_ws(s, (j - 1) as nat)
    } else {
        j
    }
}

/// `s` without its leading and trailing whitespace.
pub open spec fn trim(s: Seq<char>) -> Seq<char> {
    let a = first_non_ws(s, 0);
    let b = end_non_ws(s, s.len());
    if a < b {
        s.subrange(a as int, b as int)
    } else {
        Seq::empty()
    }
}

proof fn lemma_end_non_ws_le(s: Seq<char>, j: nat)
    ensures
        end_non_ws(s, j) <= j,
    decreases j,
{
    if j > 0 {
        lemma_end_non_ws_le(s, (j - 1) as nat);
    }
}

/// `s` without its leading and trailing whitespace.
pub fn trim_str(s: &str) -> (r: &str)
    ensures
        r@ == trim(s@),
{
    let n = s.unicode_len();
    let mut a: usize = 0;
    while a < n && char_is_white_space(s.get_char(a))
        invariant
            a <= n,
            n == s@.len(),
            first_non_ws(s@, a as nat) == first_non_ws(s@, 0),
        decreases n - a,
    {
        a = a + 1;
    }
    let mut b: usize = n;
    while b > a && char_is_white_space(s.get_char(b - 1))
        invariant
            a <= b <= n,
            n == s@.len(),
            end_non_ws(s@, b as nat) == end_non_ws(s@, n as nat),
        decreases b,
    {
        b = b - 1;
    }
    proof {
        lemma_end_non_ws_le(s@, b as nat);
        assert(first_non_ws(s@, a as nat) == a);
    }
    s.substring_char(a, b)
}

/// Whether `t` begins with the two characters `c0`, `c1`.
pub open spec fn has_prefix2(t: Seq<char>, c0: char, c1: char) -> bool {
    t.len() >= 2 && t[0] == c0 && t[1] == c1
}

/// The base that `string_to_u64` reads `t` in: 16 after `0x`, 2 after `0b`,
/// 10 otherwise.
pub open spec fn number_radix(t: Seq<char>) -> nat {
    if has_prefix2(t, '0', 'x') {
        16
    } else if has_prefix2(t, '0', 'b') {
        2
    } else {
        10
    }
}

/// The digits that `string_to_u64` reads in `t`: all of it after its prefix.
pub open spec fn number_digits(t: Seq<char>) -> Seq<char> {
    if number_radix(t) == 10 {
        t
    } else {
        t.skip(2)
    }
}

/// The message `string_to_u64` fails with for the trimmed text `t`.
pub open spec fn number_error_message(t: Seq<char>) -> Seq<char> {
    if number_radix(t) == 16 {
        "Not hex string: "@ + t
    } else if number_radix(t) == 2 {
        "Not binary string: "@ + t
    } else {
        "String "@ + t + " is not in hex/bin/decimal format!"@
    }
}

/// Reads a number written in hexadecimal after `0x`, in binary after `0b`, or
/// in decimal, with surrounding whitespace ignored.
pub fn string_to_u64(s: String) -> (r: Result<u64, String>)
    ensures
        r is Ok <==> parses_as(number_digits(trim(s@)), number_radix(trim(s@)), u64::MAX as nat),
        r is Ok ==> r->Ok_0 == digits_value(unsigned_digits(number_digits(trim(s@))), number_radix(trim(s@))),
        r is Err ==> r->Err_0@ == number_error_message(trim(s@)),
{
    let t = trim_str(s.as_str());
    let n = t.unicode_len();
    let hex = n >= 2 && t.get_char(0) == '0' && t.get_char(1) == 'x';
    let bin = !hex && n >= 2 && t.get_char(0) == '0' && t.get_char(1) == 'b';
    if hex {
        let digits = t.substring_char(2, n);
        match u64_from_str_radix(digits, 16) {
            Ok(v) => Ok(v),
            Err(_) => Err("Not hex string: ".to_owned().concat(t)),
        }
    } else if bin {
        let digits = t.substring_char(2, n);
        match u64_from_str_radix(digits, 2) {
            Ok(v) => Ok(v),
            Err(_) => Err("Not binary string: ".to_owned().concat(t)),
        }
    } else {
        match u64_from_str_radix(t, 10) {
            Ok(v) => Ok(v),
            Err(_) => Err("String ".to_owned().concat(t).concat(" is not in hex/bin/decimal format!")),
        }
    }
}

} // verus!

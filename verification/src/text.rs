//! Small text helpers: turning received bytes into text, decimal numbers, and
//! building strings piece by piece.

use vstd::prelude::*;
use vstd::string::{StringExecFns, StrSliceExecFns};

verus! {

/// What `String::from_utf8_lossy` makes of a byte string: the decoded text,
/// with each invalid sequence replaced by U+FFFD.
pub uninterp spec fn utf8_lossy(bytes: Seq<u8>) -> Seq<char>;

/// `String::from_utf8_lossy`, owned. The result is named by [`utf8_lossy`]; as
/// the standard library documents, valid UTF-8 comes back as the text it
/// encodes. What it makes of invalid sequences is not stated here.
#[verifier::external_body]
pub(crate) fn lossy_string(bytes: &[u8]) -> (r: String)
    ensures
        r@ == utf8_lossy(bytes@),
        vstd::utf8::valid_utf8(bytes@) ==> r@ == vstd::utf8::decode_utf8(bytes@),
{
    String::from_utf8_lossy(bytes).into_owned()
}

/// The text of a byte string as `String::from_utf8_lossy` gives it: valid
/// UTF-8 decodes to exactly the text it encodes; anything else is
/// [`utf8_lossy`] of it.
pub open spec fn lossy_text(bytes: Seq<u8>) -> Seq<char> {
    if vstd::utf8::valid_utf8(bytes) {
        vstd::utf8::decode_utf8(bytes)
    } else {
        utf8_lossy(bytes)
    }
}

/// The decimal digit character for `d` (0 to 9).
pub open spec fn digit_char(d: nat) -> char {
    (48 + d) as char
}

/// The decimal text of `n`, most significant digit first, no leading zeros.
pub open spec fn decimal(n: nat) -> Seq<char>
    decreases n,
{
    if n < 10 {
        seq![digit_char(n)]
    } else {
        decimal(n / 10).push(digit_char(n % 10))
    }
}

/// A one-character string holding the digit `d`.
fn digit_str(d: u128) -> (r: &'static str)
    requires
        d < 10,
    ensures
        r@ == seq![digit_char(d as nat)],
{
    proof {
        reveal_strlit("0");
        reveal_strlit("1");
        reveal_strlit("2");
        reveal_strlit("3");
        reveal_strlit("4");
        reveal_strlit("5");
        reveal_strlit("6");
        reveal_strlit("7");
        reveal_strlit("8");
        reveal_strlit("9");
    }
    if d == 0 {
        "0"
    } else if d == 1 {
        "1"
    } else if d == 2 {
        "2"
    } else if d == 3 {
        "3"
    } else if d == 4 {
        "4"
    } else if d == 5 {
        "5"
    } else if d == 6 {
        "6"
    } else if d == 7 {
        "7"
    } else if d == 8 {
        "8"
    } else {
        "9"
    }
}

/// Append the decimal text of `n` to `s`.
pub fn push_decimal(s: &mut String, n: u128)
    ensures
        final(s)@ == old(s)@ + decimal(n as nat),
    decreases n,
{
    if n >= 10 {
        push_decimal(s, n / 10);
    }
    s.append(digit_str(n % 10));
    assert(decimal(n as nat) =~= if n < 10 {
        seq![digit_char(n as nat)]
    } else {
        decimal((n / 10) as nat).push(digit_char((n % 10) as nat))
    });
}

/// Whether `c` has the Unicode `White_Space` property, which is what
/// `char::is_whitespace` and `str::trim` go by.
pub open spec fn is_white_space(c: char) -> bool {
    let u = c as u32;
    ||| 0x09 <= u <= 0x0D
    ||| u == 0x20
    ||| u == 0x85
    ||| u == 0xA0
    ||| u == 0x1680
    ||| 0x2000 <= u <= 0x200A
    ||| u == 0x2028
    ||| u == 0x2029
    ||| u == 0x202F
    ||| u == 0x205F
    ||| u == 0x3000
}

/// `s` without its leading white space.
pub open spec fn trim_start(s: Seq<char>) -> Seq<char>
    decreases s.len(),
{
    if s.len() > 0 && is_white_space(s[0]) {
        trim_start(s.drop_first())
    } else {
        s
    }
}

/// `s` without its trailing white space.
pub open spec fn trim_end(s: Seq<char>) -> Seq<char>
    decreases s.len(),
{
    if s.len() > 0 && is_white_space(s.last()) {
        trim_end(s.drop_last())
    } else {
        s
    }
}

/// `s` without leading and trailing white space, as `str::trim` gives it.
pub open spec fn trimmed(s: Seq<char>) -> Seq<char> {
    trim_end(trim_start(s))
}

fn is_white_space_char(c: char) -> (b: bool)
    ensures
        b == is_white_space(c),
{
    let u = c as u32;
    (0x09 <= u && u <= 0x0D) || u == 0x20 || u == 0x85 || u == 0xA0 || u == 0x1680 || (0x2000
        <= u && u <= 0x200A) || u == 0x2028 || u == 0x2029 || u == 0x202F || u == 0x205F || u
        == 0x3000
}

/// The characters of `s`, in order.
pub fn chars_of(s: &str) -> (v: Vec<char>)
    ensures
        v@ == s@,
{
    let mut v: Vec<char> = Vec::new();
    for c in it: s.chars()
        invariant
            v@ == it.seq().take(it.index() as int),
            it.seq() == s@,
    {
        v.push(c);
    }
    v
}

/// `s` with leading and trailing white space removed, owned.
pub fn trim_white_space(s: &str) -> (r: String)
    ensures
        r@ == trimmed(s@),
{
    let v = chars_of(s);
    let n = v.len();
    let mut i: usize = 0;
    assert(s@.subrange(0, n as int) =~= s@);
    while i < n && is_white_space_char(v[i])
        invariant
            i <= n,
            n == v@.len(),
            v@ == s@,
            trim_start(s@) == trim_start(s@.subrange(i as int, n as int)),
        decreases n - i,
    {
        assert(s@.subrange(i as int, n as int).drop_first() =~= s@.subrange(i + 1, n as int));
        i = i + 1;
    }
    assert(trim_start(s@) == s@.subrange(i as int, n as int));
    let mut j: usize = n;
    while j > i && is_white_space_char(v[j - 1])
        invariant
            i <= j <= n,
            n == v@.len(),
            v@ == s@,
            trim_end(s@.subrange(i as int, n as int)) == trim_end(s@.subrange(i as int, j as int)),
        decreases j - i,
    {
        assert(s@.subrange(i as int, j as int).drop_last() =~= s@.subrange(i as int, j - 1));
        j = j - 1;
    }
    assert(trim_end(s@.subrange(i as int, j as int)) == s@.subrange(i as int, j as int));
    let t = s.substring_char(i, j);
    String::from_str(t)
}

/// The value of a hexadecimal digit, either case.
pub open spec fn hex_digit(c: char) -> Option<nat> {
    let u = c as u32;
    if 0x30 <= u <= 0x39 {
        Some((u - 0x30) as nat)
    } else if 0x61 <= u <= 0x66 {
        Some((u - 0x61 + 10) as nat)
    } else if 0x41 <= u <= 0x46 {
        Some((u - 0x41 + 10) as nat)
    } else {
        None
    }
}

/// Whether every character of `s` is a hexadecimal digit.
pub open spec fn all_hex(s: Seq<char>) -> bool {
    forall|i: int| 0 <= i < s.len() ==> (#[trigger] hex_digit(s[i])) is Some
}

/// The number that the hexadecimal digits `s` spell, most significant first.
pub open spec fn hex_value(s: Seq<char>) -> nat
    decreases s.len(),
{
    if s.len() == 0 {
        0
    } else {
        hex_value(s.drop_last()) * 16 + hex_digit(s.last()).unwrap_or(0)
    }
}

/// What `usize::from_str_radix(s, 16)` accepts: an optional `+`, then one or
/// more hexadecimal digits whose value fits in a `usize`.
pub open spec fn parse_hex(s: Seq<char>) -> Option<usize> {
    let digits = if s.len() > 0 && s[0] == '+' {
        s.drop_first()
    } else {
        s
    };
    if digits.len() == 0 || !all_hex(digits) || hex_value(digits) > usize::MAX {
        None
    } else {
        Some(hex_value(digits) as usize)
    }
}

fn hex_digit_of(c: char) -> (r: Option<usize>)
    ensures
        match hex_digit(c) {
            Some(d) => r == Some(d as usize),
            None => r is None,
        },
{
    let u = c as u32;
    if 0x30 <= u && u <= 0x39 {
        Some((u - 0x30) as usize)
    } else if 0x61 <= u && u <= 0x66 {
        Some((u - 0x61 + 10) as usize)
    } else if 0x41 <= u && u <= 0x46 {
        Some((u - 0x41 + 10) as usize)
    } else {
        None
    }
}

proof fn lemma_hex_value_grows(s: Seq<char>, k: int)
    requires
        0 <= k <= s.len(),
    ensures
        hex_value(s.take(k)) <= hex_value(s),
    decreases s.len() - k,
{
    if k < s.len() {
        lemma_hex_value_grows(s, k + 1);
        assert(s.take(k + 1).drop_last() =~= s.take(k));
    } else {
        assert(s.take(k) =~= s);
    }
}

/// Parse `s` as `usize::from_str_radix(s, 16)` does: `None` where that gives
/// an error (empty, a stray character, or too large).
pub fn parse_hex_usize(s: &str) -> (r: Option<usize>)
    ensures
        r == parse_hex(s@),
{
    let v = chars_of(s);
    let n = v.len();
    let mut i: usize = 0;
    if n > 0 && v[0] == '+' {
        i = 1;
    }
    let ghost digits = s@.subrange(i as int, n as int);
    assert(digits =~= if s@.len() > 0 && s@[0] == '+' { s@.drop_first() } else { s@ });
    if i == n {
        return None;
    }
    let mut acc: usize = 0;
    let mut k: usize = i;
    while k < n
        invariant
            i <= k <= n,
            n == v@.len(),
            v@ == s@,
            digits == s@.subrange(i as int, n as int),
            digits == (if s@.len() > 0 && s@[0] == '+' { s@.drop_first() } else { s@ }),
            digits.len() > 0,
            all_hex(digits.take(k - i)),
            acc == hex_value(digits.take(k - i)),
        decreases n - k,
    {
        assert(digits.take(k - i + 1).drop_last() =~= digits.take(k - i));
        let d = match hex_digit_of(v[k]) {
            Some(d) => d,
            None => {
                assert(!all_hex(digits) && (hex_digit(digits[k - i])) is None);
                return None;
            },
        };
        let next = match acc.checked_mul(16) {
            Some(m) => m.checked_add(d),
            None => None,
        };
        match next {
            Some(x) => {
                acc = x;
            },
            None => {
                proof {
                    let t = digits.take(k - i + 1);
                    assert(hex_value(t) > usize::MAX);
                    if all_hex(digits) {
                        lemma_hex_value_grows(digits, k - i + 1);
                    }
                }
                return None;
            },
        }
        k = k + 1;
    }
    assert(digits.take(n - i) =~= digits);
    Some(acc)
}

/// Whether `c` is an ASCII decimal digit.
pub open spec fn is_digit(c: char) -> bool {
    0x30 <= c as u32 <= 0x39
}

/// Whether every character of `s` is a decimal digit.
pub open spec fn all_digits(s: Seq<char>) -> bool {
    forall|i: int| 0 <= i < s.len() ==> #[trigger] is_digit(s[i])
}

/// The number that the decimal digits `s` spell, most significant first.
pub open spec fn digits_value(s: Seq<char>) -> nat
    decreases s.len(),
{
    if s.len() == 0 {
        0
    } else {
        digits_value(s.drop_last()) * 10 + (s.last() as u32 - 0x30) as nat
    }
}

/// `s` read as a number written the way `decimal` writes one: one or more
/// digits, no leading zero, no sign, at most `max`.
pub open spec fn canonical_number(s: Seq<char>, max: nat) -> Option<nat> {
    if s.len() > 0 && all_digits(s) && (s.len() == 1 || s[0] != '0') && digits_value(s) <= max {
        Some(digits_value(s))
    } else {
        None
    }
}

/// `s` read as `str::parse` reads an unsigned integer type whose largest value
/// is `max`: an optional `+`, then one or more digits, at most `max`.
pub open spec fn parse_unsigned(s: Seq<char>, max: nat) -> Option<nat> {
    let digits = if s.len() > 0 && s[0] == '+' {
        s.drop_first()
    } else {
        s
    };
    if digits.len() > 0 && all_digits(digits) && digits_value(digits) <= max {
        Some(digits_value(digits))
    } else {
        None
    }
}

proof fn lemma_digits_value_grows(s: Seq<char>, k: int)
    requires
        0 <= k <= s.len(),
    ensures
        digits_value(s.take(k)) <= digits_value(s),
    decreases s.len() - k,
{
    if k < s.len() {
        lemma_digits_value_grows(s, k + 1);
        assert(s.take(k + 1).drop_last() =~= s.take(k));
    } else {
        assert(s.take(k) =~= s);
    }
}

/// The value of the digits `s`, if they are all digits, there is at least one,
/// and the value is at most `max`.
fn digits_up_to(s: &[char], max: u64) -> (r: Option<u64>)
    ensures
        match r {
            Some(v) => s@.len() > 0 && all_digits(s@) && v == digits_value(s@) && v <= max,
            None => !(s@.len() > 0 && all_digits(s@) && digits_value(s@) <= max),
        },
{
    let n = s.len();
    if n == 0 {
        return None;
    }
    let mut acc: u64 = 0;
    let mut k: usize = 0;
    while k < n
        invariant
            k <= n,
            n == s@.len(),
            all_digits(s@.take(k as int)),
            acc == digits_value(s@.take(k as int)),
            acc <= max,
        decreases n - k,
    {
        assert(s@.take(k + 1).drop_last() =~= s@.take(k as int));
        let c = s[k];
        let u = c as u32;
        if u < 0x30 || u > 0x39 {
            assert(!is_digit(s@[k as int]));
            return None;
        }
        let d = (u - 0x30) as u64;
        let next = match acc.checked_mul(10) {
            Some(m) => m.checked_add(d),
            None => None,
        };
        match next {
            Some(x) if x <= max => {
                acc = x;
            },
            _ => {
                proof {
                    assert(digits_value(s@.take(k + 1)) > max);
                    lemma_digits_value_grows(s@, k + 1);
                }
                return None;
            },
        }
        assert(all_digits(s@.take(k + 1))) by {
            assert forall|i: int| 0 <= i < k + 1 implies #[trigger] is_digit(s@.take(k + 1)[i]) by {
                if i < k {
                    assert(s@.take(k + 1)[i] == s@.take(k as int)[i]);
                }
            }
        }
        k = k + 1;
    }
    assert(s@.take(n as int) =~= s@);
    Some(acc)
}

/// Read `s` as [`canonical_number`] does, with `max` as the bound.
pub fn canonical_number_of(s: &[char], max: u64) -> (r: Option<u64>)
    ensures
        match canonical_number(s@, max as nat) {
            Some(v) => r == Some(v as u64),
            None => r is None,
        },
{
    if s.len() > 1 && s[0] == '0' {
        return None;
    }
    digits_up_to(s, max)
}

/// Read `s` as [`parse_unsigned`] does, with `max` as the bound.
pub fn parse_unsigned_of(s: &str, max: u64) -> (r: Option<u64>)
    ensures
        match parse_unsigned(s@, max as nat) {
            Some(v) => r == Some(v as u64),
            None => r is None,
        },
{
    let v = chars_of(s);
    let n = v.len();
    let start: usize = if n > 0 && v[0] == '+' {
        1
    } else {
        0
    };
    let digits = vstd::slice::slice_subrange(v.as_slice(), start, n);
    assert(digits@ =~= if s@.len() > 0 && s@[0] == '+' { s@.drop_first() } else { s@ });
    digits_up_to(digits, max)
}

/// Whether `t` starts with `p`.
pub open spec fn has_prefix(t: Seq<char>, p: Seq<char>) -> bool {
    t.len() >= p.len() && t.take(p.len() as int) == p
}

/// What follows the prefix `p` in `t`.
pub open spec fn after(t: Seq<char>, p: Seq<char>) -> Seq<char> {
    t.skip(p.len() as int)
}

/// Whether the characters `s` are the text `lit`.
pub fn chars_eq(s: &[char], lit: &str) -> (b: bool)
    ensures
        b == (s@ == lit@),
{
    let n = lit.unicode_len();
    if s.len() != n {
        return false;
    }
    let mut i: usize = 0;
    while i < n
        invariant
            n == lit@.len(),
            n == s@.len(),
            i <= n,
            forall|k: int| 0 <= k < i ==> s@[k] == lit@[k],
        decreases n - i,
    {
        if s[i] != lit.get_char(i) {
            return false;
        }
        i = i + 1;
    }
    assert(s@ =~= lit@);
    true
}

/// What follows `lit` in `s`, if `s` starts with it.
pub fn strip_prefix<'a>(s: &'a [char], lit: &str) -> (r: Option<&'a [char]>)
    ensures
        match r {
            Some(rest) => has_prefix(s@, lit@) && rest@ == after(s@, lit@),
            None => !has_prefix(s@, lit@),
        },
{
    let n = lit.unicode_len();
    if s.len() < n {
        return None;
    }
    let head = vstd::slice::slice_subrange(s, 0, n);
    if chars_eq(head, lit) {
        Some(vstd::slice::slice_subrange(s, n, s.len()))
    } else {
        None
    }
}

/// Whether the text `s` is `lit`.
pub fn text_is(s: &str, lit: &str) -> (b: bool)
    ensures
        b == (s@ == lit@),
{
    let v = chars_of(s);
    chars_eq(v.as_slice(), lit)
}

/// Whether the text `s` starts with `lit`.
pub fn text_starts_with(s: &str, lit: &str) -> (b: bool)
    ensures
        b == has_prefix(s@, lit@),
{
    let v = chars_of(s);
    strip_prefix(v.as_slice(), lit).is_some()
}

} // verus!

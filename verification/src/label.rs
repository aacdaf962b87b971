//! Reading a strategy back from its label.
//!
//! The probe records the winner by its label, the configuration file stores
//! that label, and `apply` and the service turn it back into a strategy. The
//! grammar is exactly what [`Strategy::label`] writes, so the two are inverse:
//! a label reads back as the strategy that wrote it, and a text reads as a
//! strategy only if it is that strategy's label.

use vstd::prelude::*;

use crate::strategy::{cut_text, decoy_text, label_text, Cut, Decoy, Strategy};
use crate::text::{
    after, chars_eq, has_prefix, strip_prefix, all_digits, canonical_number, canonical_number_of, chars_of, decimal, digit_char,
    digits_value, is_digit,
};

verus! {

/// The first `:` in `s` at or after `from`.
pub open spec fn first_colon(s: Seq<char>, from: int) -> Option<int>
    decreases s.len() - from,
{
    if from < 0 || from >= s.len() {
        None
    } else if s[from] == ':' {
        Some(from)
    } else {
        first_colon(s, from + 1)
    }
}

/// A cut as [`cut_text`] writes it.
pub open spec fn parse_cut(s: Seq<char>) -> Option<Cut> {
    if s == "sni"@ {
        Some(Cut::Sni)
    } else if has_prefix(s, "at"@) {
        match canonical_number(after(s, "at"@), usize::MAX as nat) {
            Some(n) => Some(Cut::Fixed(n as usize)),
            None => None,
        }
    } else {
        None
    }
}

/// A decoy as [`decoy_text`] writes it.
pub open spec fn parse_decoy(s: Seq<char>) -> Option<Decoy> {
    if s == "badsum"@ {
        Some(Decoy::BadChecksum)
    } else if has_prefix(s, "ttl"@) {
        match canonical_number(after(s, "ttl"@), u8::MAX as nat) {
            Some(n) => Some(Decoy::LowTtl(n as u8)),
            None => None,
        }
    } else if has_prefix(s, "wseq"@) {
        match canonical_number(after(s, "wseq"@), u32::MAX as nat) {
            Some(n) => Some(Decoy::WrongSeq(n as u32)),
            None => None,
        }
    } else {
        None
    }
}

/// A strategy as [`label_text`] writes it.
pub open spec fn parse_label(t: Seq<char>) -> Option<Strategy> {
    if t == "passthrough"@ {
        Some(Strategy::Passthrough)
    } else if has_prefix(t, "split:"@) {
        match parse_cut(after(t, "split:"@)) {
            Some(cut) => Some(Strategy::Split { cut }),
            None => None,
        }
    } else if has_prefix(t, "disorder:"@) {
        match parse_cut(after(t, "disorder:"@)) {
            Some(cut) => Some(Strategy::Disorder { cut }),
            None => None,
        }
    } else if has_prefix(t, "fakesplit:"@) {
        let rest = after(t, "fakesplit:"@);
        match first_colon(rest, 0) {
            Some(i) => match (parse_decoy(rest.take(i)), parse_cut(rest.skip(i + 1))) {
                (Some(decoy), Some(cut)) => Some(Strategy::FakeSplit { decoy, cut }),
                _ => None,
            },
            None => None,
        }
    } else if has_prefix(t, "fake:"@) {
        match parse_decoy(after(t, "fake:"@)) {
            Some(decoy) => Some(Strategy::Fake { decoy }),
            None => None,
        }
    } else {
        None
    }
}

// ── Decimal text ─────────────────────────────────────────────────────────────

proof fn lemma_digit_char(d: nat)
    requires
        d < 10,
    ensures
        is_digit(digit_char(d)),
        digit_char(d) as u32 - 0x30 == d,
        digit_char(d) == '0' <==> d == 0,
{
}

proof fn lemma_char_of_digit(c: char, d: nat)
    requires
        d < 10,
        c as u32 == 0x30 + d,
    ensures
        digit_char(d) == c,
{
}

/// `decimal(n)` is a canonical run of digits whose value is `n`.
pub proof fn lemma_decimal_is_canonical(n: nat)
    ensures
        decimal(n).len() > 0,
        all_digits(decimal(n)),
        digits_value(decimal(n)) == n,
        decimal(n)[0] == '0' ==> n == 0,
        n == 0 ==> decimal(n).len() == 1,
    decreases n,
{
    if n < 10 {
        lemma_digit_char(n);
        assert(decimal(n).drop_last() =~= Seq::<char>::empty());
        assert(digits_value(Seq::<char>::empty()) == 0);
    } else {
        lemma_decimal_is_canonical(n / 10);
        lemma_digit_char(n % 10);
        let d = decimal(n);
        assert(d == decimal(n / 10).push(digit_char(n % 10)));
        assert(d.drop_last() =~= decimal(n / 10));
        assert(n == (n / 10) * 10 + n % 10);
        assert(digits_value(d) == digits_value(decimal(n / 10)) * 10 + (d.last() as u32 - 0x30) as nat);
        assert forall|i: int| 0 <= i < d.len() implies #[trigger] is_digit(d[i]) by {
            if i < d.len() - 1 {
                assert(d[i] == decimal(n / 10)[i]);
            }
        }
        assert(d[0] == decimal(n / 10)[0]);
    }
}

/// A canonical run of digits is the decimal text of its value.
pub proof fn lemma_canonical_is_decimal(s: Seq<char>)
    requires
        s.len() > 0,
        all_digits(s),
        s.len() == 1 || s[0] != '0',
    ensures
        decimal(digits_value(s)) == s,
        s[0] != '0' ==> digits_value(s) >= 1,
    decreases s.len(),
{
    let c = s.last();
    assert(is_digit(s[s.len() - 1]));
    let d = (c as u32 - 0x30) as nat;
    assert(c as u32 == 0x30 + d && d < 10);
    lemma_char_of_digit(c, d);
    if s.len() == 1 {
        assert(s.drop_last() =~= Seq::<char>::empty());
        assert(digits_value(Seq::<char>::empty()) == 0);
        assert(digits_value(s) == d);
        assert(decimal(d) =~= s);
    } else {
        let p = s.drop_last();
        assert(all_digits(p)) by {
            assert forall|i: int| 0 <= i < p.len() implies #[trigger] is_digit(p[i]) by {
                assert(is_digit(s[i]));
            }
        }
        assert(p[0] == s[0]);
        lemma_canonical_is_decimal(p);
        let v = digits_value(p) * 10 + d;
        assert(digits_value(s) == v);
        assert(v / 10 == digits_value(p) && v % 10 == d) by (nonlinear_arith)
            requires
                v == digits_value(p) * 10 + d,
                d < 10,
        ;
        assert(decimal(v) == decimal(v / 10).push(digit_char(v % 10)));
        assert(decimal(v) =~= s);
    }
}

/// Reading back a number's decimal text gives the number.
pub proof fn lemma_canonical_number_of_decimal(n: nat, max: nat)
    requires
        n <= max,
    ensures
        canonical_number(decimal(n), max) == Some(n),
{
    lemma_decimal_is_canonical(n);
    if decimal(n).len() != 1 {
        assert(decimal(n)[0] != '0');
    }
}

/// A number read back from text was written as that text.
pub proof fn lemma_decimal_of_canonical_number(s: Seq<char>, max: nat)
    requires
        canonical_number(s, max) is Some,
    ensures
        decimal(canonical_number(s, max)->0) == s,
{
    lemma_canonical_is_decimal(s);
}

// ── The two laws ─────────────────────────────────────────────────────────────

proof fn lemma_no_colon_in_decoy(d: Decoy)
    ensures
        forall|i: int| 0 <= i < decoy_text(d).len() ==> decoy_text(d)[i] != ':',
{
    reveal_strlit("ttl");
    reveal_strlit("badsum");
    reveal_strlit("wseq");
    match d {
        Decoy::LowTtl(t) => {
            lemma_decimal_is_canonical(t as nat);
            assert forall|i: int| 0 <= i < decoy_text(d).len() implies decoy_text(d)[i] != ':' by {
                if i >= 3 {
                    assert(decoy_text(d)[i] == decimal(t as nat)[i - 3]);
                    assert(is_digit(decimal(t as nat)[i - 3]));
                }
            }
        },
        Decoy::BadChecksum => {},
        Decoy::WrongSeq(o) => {
            lemma_decimal_is_canonical(o as nat);
            assert forall|i: int| 0 <= i < decoy_text(d).len() implies decoy_text(d)[i] != ':' by {
                if i >= 4 {
                    assert(decoy_text(d)[i] == decimal(o as nat)[i - 4]);
                    assert(is_digit(decimal(o as nat)[i - 4]));
                }
            }
        },
    }
}

proof fn lemma_first_colon_at(s: Seq<char>, from: int, k: int)
    requires
        0 <= from <= k < s.len(),
        s[k] == ':',
        forall|i: int| from <= i < k ==> s[i] != ':',
    ensures
        first_colon(s, from) == Some(k),
    decreases k - from,
{
    if from < k {
        lemma_first_colon_at(s, from + 1, k);
    }
}

proof fn lemma_first_colon_found(s: Seq<char>, from: int)
    ensures
        first_colon(s, from) matches Some(k) ==> from <= k < s.len() && s[k] == ':',
    decreases s.len() - from,
{
    if 0 <= from < s.len() && s[from] != ':' {
        lemma_first_colon_found(s, from + 1);
    }
}

proof fn lemma_cut_round_trip(c: Cut)
    ensures
        parse_cut(cut_text(c)) == Some(c),
{
    reveal_strlit("sni");
    reveal_strlit("at");
    match c {
        Cut::Sni => {},
        Cut::Fixed(n) => {
            let t = cut_text(c);
            assert(t[0] == 'a');
            assert(t != "sni"@);
            assert(t.take(2) =~= "at"@);
            assert(after(t, "at"@) =~= decimal(n as nat));
            lemma_canonical_number_of_decimal(n as nat, usize::MAX as nat);
        },
    }
}

proof fn lemma_decoy_round_trip(d: Decoy)
    ensures
        parse_decoy(decoy_text(d)) == Some(d),
{
    reveal_strlit("ttl");
    reveal_strlit("badsum");
    reveal_strlit("wseq");
    let t = decoy_text(d);
    match d {
        Decoy::LowTtl(v) => {
            assert(t[0] == 't');
            assert(t != "badsum"@);
            assert(t.take(3) =~= "ttl"@);
            assert(after(t, "ttl"@) =~= decimal(v as nat));
            lemma_canonical_number_of_decimal(v as nat, u8::MAX as nat);
        },
        Decoy::BadChecksum => {},
        Decoy::WrongSeq(o) => {
            assert(t[0] == 'w');
            assert(t != "badsum"@);
            assert(t.take(3)[0] != "ttl"@[0]);
            assert(!has_prefix(t, "ttl"@));
            assert(t.take(4) =~= "wseq"@);
            assert(after(t, "wseq"@) =~= decimal(o as nat));
            lemma_canonical_number_of_decimal(o as nat, u32::MAX as nat);
        },
    }
}

proof fn lemma_cut_read_back(s: Seq<char>)
    requires
        parse_cut(s) is Some,
    ensures
        cut_text(parse_cut(s)->0) == s,
{
    reveal_strlit("sni");
    reveal_strlit("at");
    if s != "sni"@ {
        let rest = after(s, "at"@);
        lemma_decimal_of_canonical_number(rest, usize::MAX as nat);
        assert(s =~= "at"@ + rest);
    }
}

proof fn lemma_decoy_read_back(s: Seq<char>)
    requires
        parse_decoy(s) is Some,
    ensures
        decoy_text(parse_decoy(s)->0) == s,
{
    reveal_strlit("ttl");
    reveal_strlit("badsum");
    reveal_strlit("wseq");
    if s != "badsum"@ {
        if has_prefix(s, "ttl"@) {
            let rest = after(s, "ttl"@);
            lemma_decimal_of_canonical_number(rest, u8::MAX as nat);
            assert(s =~= "ttl"@ + rest);
        } else {
            let rest = after(s, "wseq"@);
            lemma_decimal_of_canonical_number(rest, u32::MAX as nat);
            assert(s =~= "wseq"@ + rest);
        }
    }
}

/// A strategy's label reads back as that strategy.
pub proof fn law_label_reads_back(s: Strategy)
    ensures
        parse_label(label_text(s)) == Some(s),
{
    reveal_strlit("passthrough");
    reveal_strlit("split:");
    reveal_strlit("disorder:");
    reveal_strlit("fakesplit:");
    reveal_strlit("fake:");
    reveal_strlit(":");
    let t = label_text(s);
    match s {
        Strategy::Passthrough => {},
        Strategy::Split { cut } => {
            assert(t[0] == 's');
            assert(t.take(6) =~= "split:"@);
            assert(after(t, "split:"@) =~= cut_text(cut));
            lemma_cut_round_trip(cut);
        },
        Strategy::Disorder { cut } => {
            assert(t[0] == 'd');
            assert(t.take(9) =~= "disorder:"@);
            assert(after(t, "disorder:"@) =~= cut_text(cut));
            lemma_cut_round_trip(cut);
        },
        Strategy::Fake { decoy } => {
            assert(t[0] == 'f' && t[4] == ':');
            assert(t.len() < 10 || t.take(10)[4] != "fakesplit:"@[4]);
            assert(!has_prefix(t, "fakesplit:"@));
            assert(t.take(5) =~= "fake:"@);
            assert(after(t, "fake:"@) =~= decoy_text(decoy));
            lemma_decoy_round_trip(decoy);
        },
        Strategy::FakeSplit { decoy, cut } => {
            assert(t[0] == 'f');
            assert(t.take(10) =~= "fakesplit:"@);
            let rest = after(t, "fakesplit:"@);
            let k = decoy_text(decoy).len() as int;
            assert(rest =~= decoy_text(decoy) + ":"@ + cut_text(cut));
            lemma_no_colon_in_decoy(decoy);
            lemma_first_colon_at(rest, 0, k);
            assert(rest.take(k) =~= decoy_text(decoy));
            assert(rest.skip(k + 1) =~= cut_text(cut));
            lemma_decoy_round_trip(decoy);
            lemma_cut_round_trip(cut);
        },
    }
}

proof fn lemma_prefix_split(t: Seq<char>, p: Seq<char>)
    requires
        has_prefix(t, p),
    ensures
        t == p + after(t, p),
{
    assert(t =~= p + after(t, p));
}

/// A text reads as a strategy only if it is that strategy's label.
pub proof fn law_only_labels_read(t: Seq<char>)
    requires
        parse_label(t) is Some,
    ensures
        label_text(parse_label(t)->0) == t,
{
    if t != "passthrough"@ {
        if has_prefix(t, "split:"@) {
            lemma_cut_read_back(after(t, "split:"@));
            lemma_prefix_split(t, "split:"@);
        } else if has_prefix(t, "disorder:"@) {
            lemma_cut_read_back(after(t, "disorder:"@));
            lemma_prefix_split(t, "disorder:"@);
        } else if has_prefix(t, "fakesplit:"@) {
            let rest = after(t, "fakesplit:"@);
            lemma_first_colon_found(rest, 0);
            let i = first_colon(rest, 0)->0;
            lemma_decoy_read_back(rest.take(i));
            lemma_cut_read_back(rest.skip(i + 1));
            reveal_strlit(":");
            assert(rest =~= rest.take(i) + ":"@ + rest.skip(i + 1));
            lemma_prefix_split(t, "fakesplit:"@);
        } else {
            lemma_decoy_read_back(after(t, "fake:"@));
            lemma_prefix_split(t, "fake:"@);
        }
    }
}

// ── Reading a label ──────────────────────────────────────────────────────────

/// Read a cut, as [`parse_cut`].
fn cut_of(s: &[char]) -> (r: Option<Cut>)
    ensures
        r == parse_cut(s@),
{
    if chars_eq(s, "sni") {
        return Some(Cut::Sni);
    }
    match strip_prefix(s, "at") {
        Some(rest) => match canonical_number_of(rest, usize::MAX as u64) {
            Some(n) => Some(Cut::Fixed(n as usize)),
            None => None,
        },
        None => None,
    }
}

/// Read a decoy, as [`parse_decoy`].
fn decoy_of(s: &[char]) -> (r: Option<Decoy>)
    ensures
        r == parse_decoy(s@),
{
    if chars_eq(s, "badsum") {
        return Some(Decoy::BadChecksum);
    }
    if let Some(rest) = strip_prefix(s, "ttl") {
        return match canonical_number_of(rest, 0xFF) {
            Some(n) => Some(Decoy::LowTtl(n as u8)),
            None => None,
        };
    }
    match strip_prefix(s, "wseq") {
        Some(rest) => match canonical_number_of(rest, 0xFFFF_FFFF) {
            Some(n) => Some(Decoy::WrongSeq(n as u32)),
            None => None,
        },
        None => None,
    }
}

/// The offset of the first `:` in `s`, as [`first_colon`] from the start.
fn first_colon_of(s: &[char]) -> (r: Option<usize>)
    ensures
        match first_colon(s@, 0) {
            Some(i) => r == Some(i as usize),
            None => r is None,
        },
{
    let mut i: usize = 0;
    while i < s.len()
        invariant
            i <= s@.len(),
            first_colon(s@, 0) == first_colon(s@, i as int),
        decreases s@.len() - i,
    {
        if s[i] == ':' {
            return Some(i);
        }
        i = i + 1;
    }
    None
}

impl Strategy {
    /// The strategy whose [`label`](Strategy::label) is `label`, if any.
    pub fn from_label(label: &str) -> (r: Option<Strategy>)
        ensures
            r == parse_label(label@),
    {
        let v = chars_of(label);
        let s = v.as_slice();
        if chars_eq(s, "passthrough") {
            return Some(Strategy::Passthrough);
        }
        if let Some(rest) = strip_prefix(s, "split:") {
            return match cut_of(rest) {
                Some(cut) => Some(Strategy::Split { cut }),
                None => None,
            };
        }
        if let Some(rest) = strip_prefix(s, "disorder:") {
            return match cut_of(rest) {
                Some(cut) => Some(Strategy::Disorder { cut }),
                None => None,
            };
        }
        if let Some(rest) = strip_prefix(s, "fakesplit:") {
            return match first_colon_of(rest) {
                Some(i) => {
                    proof {
                        lemma_first_colon_found(rest@, 0);
                    }
                    let decoy = decoy_of(vstd::slice::slice_subrange(rest, 0, i));
                    let cut = cut_of(vstd::slice::slice_subrange(rest, i + 1, rest.len()));
                    match (decoy, cut) {
                        (Some(decoy), Some(cut)) => Some(Strategy::FakeSplit { decoy, cut }),
                        _ => None,
                    }
                },
                None => None,
            };
        }
        match strip_prefix(s, "fake:") {
            Some(rest) => match decoy_of(rest) {
                Some(decoy) => Some(Strategy::Fake { decoy }),
                None => None,
            },
            None => None,
        }
    }
}

} // verus!

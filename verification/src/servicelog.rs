//! The service log's text: the lines it holds, the newest of them, how it is
//! halved when it grows too large, and how a line is stamped. Reading and
//! writing the file, and reading the clock, happen outside this crate.

use vstd::prelude::*;
use vstd::string::{StringExecFns, StrSliceExecFns};

use crate::text::{chars_of, decimal, push_decimal};

verus! {

/// The size past which the oldest half of the log is dropped.
pub const CAP_BYTES: u64 = 64 * 1024;

/// The first line feed in `s` at or after `from`.
pub open spec fn next_lf(s: Seq<char>, from: int) -> Option<int>
    decreases s.len() - from,
{
    if from < 0 || from >= s.len() {
        None
    } else if s[from] == '\n' {
        Some(from)
    } else {
        next_lf(s, from + 1)
    }
}

/// A line without the carriage return that ended it, if any.
pub open spec fn without_cr(line: Seq<char>) -> Seq<char> {
    if line.len() > 0 && line.last() == '\r' {
        line.drop_last()
    } else {
        line
    }
}

/// The lines of `s`, as `str::lines` gives them: split at each line feed, a
/// carriage return before the line feed dropped, no empty line after a final
/// line feed.
pub open spec fn lines(s: Seq<char>) -> Seq<Seq<char>>
    decreases s.len(),
{
    if s.len() == 0 {
        Seq::empty()
    } else {
        match next_lf(s, 0) {
            None => seq![s],
            Some(i) => {
                proof {
                    lemma_next_lf_found(s, 0);
                }
                seq![without_cr(s.take(i))] + lines(s.skip(i + 1))
            },
        }
    }
}

/// Where [`next_lf`] finds a line feed, there is one.
pub proof fn lemma_next_lf_found(s: Seq<char>, from: int)
    ensures
        next_lf(s, from) matches Some(i) ==> from <= i < s.len() && s[i] == '\n',
    decreases s.len() - from,
{
    if 0 <= from < s.len() && s[from] != '\n' {
        lemma_next_lf_found(s, from + 1);
    }
}

proof fn lemma_next_lf_at(s: Seq<char>, k: int)
    requires
        0 <= k < s.len(),
        s[k] == '\n',
        forall|j: int| 0 <= j < k ==> s[j] != '\n',
    ensures
        next_lf(s, 0) == Some(k),
{
    lemma_next_lf_from(s, 0, k);
}

proof fn lemma_next_lf_from(s: Seq<char>, from: int, k: int)
    requires
        0 <= from <= k < s.len(),
        s[k] == '\n',
        forall|j: int| from <= j < k ==> s[j] != '\n',
    ensures
        next_lf(s, from) == Some(k),
    decreases k - from,
{
    if from < k {
        lemma_next_lf_from(s, from + 1, k);
    }
}

proof fn lemma_no_lf(s: Seq<char>)
    requires
        forall|j: int| 0 <= j < s.len() ==> s[j] != '\n',
    ensures
        next_lf(s, 0) is None,
{
    lemma_no_lf_from(s, 0);
}

proof fn lemma_no_lf_from(s: Seq<char>, from: int)
    requires
        forall|j: int| 0 <= j < s.len() ==> s[j] != '\n',
    ensures
        next_lf(s, from) is None,
    decreases s.len() - from,
{
    if 0 <= from < s.len() {
        lemma_no_lf_from(s, from + 1);
    }
}

/// The texts of a list of strings.
pub open spec fn texts_of(v: Seq<String>) -> Seq<Seq<char>> {
    v.map_values(|s: String| s@)
}

/// A string holding the characters `v[from..to]`.
fn string_of(v: &Vec<char>, from: usize, to: usize) -> (r: String)
    requires
        from <= to <= v@.len(),
    ensures
        r@ == v@.subrange(from as int, to as int),
{
    let mut s = String::new();
    let mut i = from;
    while i < to
        invariant
            from <= i <= to <= v@.len(),
            s@ == v@.subrange(from as int, i as int),
        decreases to - i,
    {
        let one = char_string(v[i]);
        s.append(one.as_str());
        assert(s@ =~= v@.subrange(from as int, i + 1));
        i = i + 1;
    }
    s
}

/// A one-character string.
#[verifier::external_body]
fn char_string(c: char) -> (r: String)
    ensures
        r@ == seq![c],
{
    String::from(c)
}

/// The lines of `text`.
pub fn log_lines(text: &str) -> (r: Vec<String>)
    ensures
        texts_of(r@) == lines(text@),
{
    let v = chars_of(text);
    let n = v.len();
    let mut out: Vec<String> = Vec::new();
    let mut start: usize = 0;
    let mut i: usize = 0;
    assert(v@.skip(0) =~= v@);
    while i < n
        invariant
            start <= i <= n,
            n == v@.len(),
            v@ == text@,
            forall|k: int| start <= k < i ==> v@[k] != '\n',
            lines(text@) == texts_of(out@) + lines(v@.skip(start as int)),
        decreases n - i,
    {
        if v[i] == '\n' {
            let ghost rest = v@.skip(start as int);
            proof {
                lemma_next_lf_at(rest, (i - start) as int);
            }
            let end = if i > start && v[i - 1] == '\r' {
                i - 1
            } else {
                i
            };
            let line = string_of(&v, start, end);
            let ghost before = out@;
            out.push(line);
            proof {
                assert(rest.take(i - start) =~= v@.subrange(start as int, i as int));
                assert(rest.skip(i - start + 1) =~= v@.skip(i + 1));
                assert(without_cr(rest.take(i - start)) =~= v@.subrange(start as int, end as int));
                assert(texts_of(out@) =~= texts_of(before).push(line@));
                assert(texts_of(out@) + lines(v@.skip(i + 1)) =~= texts_of(before) + (seq![
                    without_cr(rest.take(i - start)),
                ] + lines(rest.skip(i - start + 1))));
            }
            start = i + 1;
        }
        i = i + 1;
    }
    if start < n {
        let ghost rest = v@.skip(start as int);
        proof {
            lemma_no_lf(rest);
        }
        let line = string_of(&v, start, n);
        let ghost before = out@;
        out.push(line);
        proof {
            assert(rest =~= v@.subrange(start as int, n as int));
            assert(texts_of(out@) =~= texts_of(before) + seq![rest]);
        }
    } else {
        proof {
            assert(v@.skip(start as int) =~= Seq::<char>::empty());
            assert(texts_of(out@) + Seq::<Seq<char>>::empty() =~= texts_of(out@));
        }
    }
    out
}

/// The last `n` lines of `text`, oldest first.
pub fn tail(text: &str, n: usize) -> (r: Vec<String>)
    ensures
        texts_of(r@) == if lines(text@).len() > n {
            lines(text@).skip(lines(text@).len() - n)
        } else {
            lines(text@)
        },
{
    let all = log_lines(text);
    let start: usize = if all.len() > n {
        all.len() - n
    } else {
        0
    };
    let mut out: Vec<String> = Vec::new();
    let mut i = start;
    while i < all.len()
        invariant
            start <= i <= all@.len(),
            texts_of(out@) == texts_of(all@).subrange(start as int, i as int),
        decreases all@.len() - i,
    {
        let ghost before = out@;
        let line = all[i].clone();
        assert(line@ == all@[i as int]@);
        out.push(line);
        assert(out@ == before.push(line));
        assert(texts_of(out@) =~= texts_of(before).push(line@));
        assert(texts_of(out@) =~= texts_of(all@).subrange(start as int, i + 1));
        i = i + 1;
    }
    assert(texts_of(all@).subrange(start as int, all@.len() as int) =~= texts_of(all@).skip(
        start as int,
    ));
    assert(texts_of(all@).skip(0) =~= texts_of(all@));
    out
}

/// Each line followed by a line feed.
pub open spec fn terminated(ls: Seq<Seq<char>>) -> Seq<char>
    decreases ls.len(),
{
    if ls.len() == 0 {
        Seq::empty()
    } else {
        terminated(ls.drop_last()) + ls.last() + seq!['\n']
    }
}

/// The log once its oldest half is dropped: the newer half of its lines,
/// joined by line feeds, with a final line feed.
pub open spec fn halved(text: Seq<char>) -> Seq<char> {
    let ls = lines(text);
    let keep = ls.skip((ls.len() / 2) as int);
    if keep.len() == 0 {
        seq!['\n']
    } else {
        terminated(keep)
    }
}

/// Whether a log of `len` bytes is past the cap.
pub fn too_large(len: u64) -> (r: bool)
    ensures
        r == (len > CAP_BYTES),
{
    len > CAP_BYTES
}

/// Drop the oldest half of the log's lines.
pub fn halve(text: &str) -> (r: String)
    ensures
        r@ == halved(text@),
{
    let all = log_lines(text);
    let start = all.len() / 2;
    let ghost keep = texts_of(all@).skip(start as int);
    if start == all.len() {
        proof {
            reveal_strlit("\n");
            assert(keep.len() == 0);
        }
        return String::from_str("\n");
    }
    let mut out = String::new();
    let mut i = start;
    while i < all.len()
        invariant
            start <= i <= all@.len(),
            start == all@.len() / 2,
            out@ == terminated(texts_of(all@).subrange(start as int, i as int)),
        decreases all@.len() - i,
    {
        out.append(all[i].as_str());
        out.append("\n");
        proof {
            reveal_strlit("\n");
            let s = texts_of(all@).subrange(start as int, i + 1);
            assert(s.drop_last() =~= texts_of(all@).subrange(start as int, i as int));
        }
        i = i + 1;
    }
    assert(texts_of(all@).subrange(start as int, all@.len() as int) =~= keep);
    out
}

/// `n` in decimal, with zeros in front to make it at least `width` digits.
pub open spec fn padded(n: nat, width: nat) -> Seq<char> {
    let d = decimal(n);
    if d.len() >= width {
        d
    } else {
        Seq::new((width - d.len()) as nat, |i: int| '0') + d
    }
}

/// Append `n` with zeros in front to make it at least `width` digits.
fn push_padded(s: &mut String, n: u16, width: usize)
    ensures
        final(s)@ == old(s)@ + padded(n as nat, width as nat),
{
    let mut digits = String::new();
    push_decimal(&mut digits, n as u128);
    let len = digits.as_str().unicode_len();
    let ghost start = s@;
    if len < width {
        let mut k: usize = 0;
        while k < width - len
            invariant
                k <= width - len,
                s@ == start + Seq::new(k as nat, |i: int| '0'),
            decreases width - len - k,
        {
            s.append("0");
            proof {
                reveal_strlit("0");
            }
            assert(s@ =~= start + Seq::new((k + 1) as nat, |i: int| '0'));
            k = k + 1;
        }
    }
    s.append(digits.as_str());
    assert(s@ =~= start + padded(n as nat, width as nat));
}

/// The local time as the log writes it: `YYYY-MM-DD hh:mm:ss`.
pub open spec fn timestamp_text(year: u16, month: u16, day: u16, hour: u16, minute: u16, second: u16) -> Seq<char> {
    padded(year as nat, 4) + "-"@ + padded(month as nat, 2) + "-"@ + padded(day as nat, 2) + " "@
        + padded(hour as nat, 2) + ":"@ + padded(minute as nat, 2) + ":"@ + padded(second as nat, 2)
}

/// A log line: the time, two spaces, the message.
pub fn stamped_line(
    year: u16,
    month: u16,
    day: u16,
    hour: u16,
    minute: u16,
    second: u16,
    msg: &str,
) -> (r: String)
    ensures
        r@ == timestamp_text(year, month, day, hour, minute, second) + "  "@ + msg@,
{
    let mut s = String::new();
    push_padded(&mut s, year, 4);
    s.append("-");
    push_padded(&mut s, month, 2);
    s.append("-");
    push_padded(&mut s, day, 2);
    s.append(" ");
    push_padded(&mut s, hour, 2);
    s.append(":");
    push_padded(&mut s, minute, 2);
    s.append(":");
    push_padded(&mut s, second, 2);
    s.append("  ");
    s.append(msg);
    assert(s@ =~= timestamp_text(year, month, day, hour, minute, second) + "  "@ + msg@);
    s
}

} // verus!

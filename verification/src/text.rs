//! Character-level helpers on strings: conversion between `&str` and
//! `Vec<char>`, white-space trimming, line splitting and decimal rendering.
//!
//! Contracts speak of a string by its view, a `Seq<char>`.

use vstd::prelude::*;

verus! {

/// `String::push` appends one character to the end of the string.
pub assume_specification[ String::push ](s: &mut String, c: char)
    ensures
        final(s)@ == old(s)@.push(c),
;

/// The characters that carry the Unicode property `White_Space`.
pub open spec fn is_white_space(c: char) -> bool {
    let n = c as u32;
    ||| 0x09 <= n <= 0x0D
    ||| n == 0x20
    ||| n == 0x85
    ||| n == 0xA0
    ||| n == 0x1680
    ||| 0x2000 <= n <= 0x200A
    ||| n == 0x2028
    ||| n == 0x2029
    ||| n == 0x202F
    ||| n == 0x205F
    ||| n == 0x3000
}

/// `s` without its leading white space.
pub open spec fn trim_start(s: Seq<char>) -> Seq<char>
    decreases s.len(),
{
    if s.len() > 0 && is_white_space(s[0]) {
        trim_start(s.drop_first())
    } else {
        s
    }
}

/// `s` without its trailing white space.
pub open spec fn trim_end(s: Seq<char>) -> Seq<char>
    decreases s.len(),
{
    if s.len() > 0 && is_white_space(s.last()) {
        trim_end(s.drop_last())
    } else {
        s
    }
}

/// `s` without leading and trailing white space.
pub open spec fn trim(s: Seq<char>) -> Seq<char> {
    trim_end(trim_start(s))
}

/// The decimal digit `d` as a character.
pub open spec fn digit_char(d: nat) -> char
    recommends
        d < 10,
{
    (0x30 + d) as char
}

/// `n` in decimal, without leading zeros.
pub open spec fn decimal(n: nat) -> Seq<char>
    decreases n,
{
    if n < 10 {
        seq![digit_char(n)]
    } else {
        decimal(n / 10).push(digit_char(n % 10))
    }
}

/// The views of a list of strings.
pub open spec fn texts(strings: Seq<String>) -> Seq<Seq<char>> {
    strings.map_values(|s: String| s@)
}

/// The lines of `s`: the pieces between line feeds. A final line feed ends
/// the last line and opens no further one.
pub open spec fn lines(s: Seq<char>) -> Seq<Seq<char>>
    decreases s.len(),
{
    if s.len() == 0 {
        Seq::empty()
    } else {
        let cut = first_line_feed(s);
        if 0 <= cut < s.len() {
            seq![s.take(cut)] + lines(s.skip(cut + 1))
        } else {
            seq![s]
        }
    }
}

/// The index of the first line feed in `s`, or `s.len()` if it holds none.
pub open spec fn first_line_feed(s: Seq<char>) -> int
    decreases s.len(),
{
    if s.len() == 0 || s[0] == '\n' {
        0
    } else {
        1 + first_line_feed(s.drop_first())
    }
}

/// The first line feed lies within the text, is a line feed, and has none
/// before it.
pub proof fn law_first_line_feed(s: Seq<char>)
    ensures
        0 <= first_line_feed(s) <= s.len(),
        first_line_feed(s) < s.len() ==> s[first_line_feed(s)] == '\n',
        forall|i: int| 0 <= i < first_line_feed(s) ==> s[i] != '\n',
    decreases s.len(),
{
    if s.len() == 0 || s[0] == '\n' {
    } else {
        let t = s.drop_first();
        law_first_line_feed(t);
        assert forall|i: int| 0 <= i < first_line_feed(s) implies s[i] != '\n' by {
            if i > 0 {
                assert(s[i] == t[i - 1]);
            }
        }
    }
}

/// Whether `c` is white space.
pub fn is_white_space_char(c: char) -> (r: bool)
    ensures
        r == is_white_space(c),
{
    let n: u32 = c as u32;
    (0x09 <= n && n <= 0x0D) || n == 0x20 || n == 0x85 || n == 0xA0 || n == 0x1680 || (0x2000 <= n
        && n <= 0x200A) || n == 0x2028 || n == 0x2029 || n == 0x202F || n == 0x205F || n == 0x3000
}

/// The characters of `s`, in order.
pub fn chars_of(s: &str) -> (v: Vec<char>)
    ensures
        v@ == s@,
{
    let mut v: Vec<char> = Vec::new();
    for c in it: s.chars()
        invariant
            v@ == it.seq().take(it.index() as int),
            it.seq() == s@,
    {
        v.push(c);
    }
    v
}

/// The string made of `v[from..to]`.
pub(crate) fn string_of(v: &Vec<char>, from: usize, to: usize) -> (s: String)
    requires
        from <= to <= v.len(),
    ensures
        s@ == v@.subrange(from as int, to as int),
{
    let mut s = String::new();
    let mut i: usize = from;
    while i < to
        invariant
            from <= i <= to <= v.len(),
            s@ == v@.subrange(from as int, i as int),
        decreases to - i,
    {
        s.push(v[i]);
        i = i + 1;
    }
    s
}

/// Appends `more` to `text`.
pub fn append_str(text: &mut String, more: &str)
    ensures
        final(text)@ == old(text)@ + more@,
{
    let chars = chars_of(more);
    let mut i: usize = 0;
    while i < chars.len()
        invariant
            i <= chars.len(),
            text@ == old(text)@ + chars@.take(i as int),
        decreases chars.len() - i,
    {
        text.push(chars[i]);
        assert(chars@.take(i + 1) == chars@.take(i as int).push(chars@[i as int]));
        i = i + 1;
    }
    assert(chars@.take(chars.len() as int) == chars@);
}

/// The decimal digit `d` as a character.
pub(crate) fn digit(d: u64) -> (c: char)
    requires
        d < 10,
    ensures
        c == digit_char(d as nat),
{
    let code: u8 = 0x30 + (d as u8);
    code as char
}

/// `n` in decimal, without leading zeros.
pub fn decimal_string(n: u64) -> (r: String)
    ensures
        r@ == decimal(n as nat),
{
    let mut low: Vec<char> = Vec::new();
    let mut rest: u64 = n;
    assert(decimal(rest as nat) + low@.reverse() =~= decimal(n as nat));
    while rest >= 10
        invariant
            decimal(n as nat) == decimal(rest as nat) + low@.reverse(),
        decreases rest,
    {
        let d = digit(rest % 10);
        assert(decimal((rest / 10) as nat) + low@.push(d).reverse() =~= decimal(rest as nat)
            + low@.reverse());
        low.push(d);
        rest = rest / 10;
    }
    let mut text = String::new();
    text.push(digit(rest));
    let mut i: usize = low.len();
    while i > 0
        invariant
            i <= low.len(),
            rest < 10,
            text@ == decimal(rest as nat) + low@.reverse().take(low.len() - i),
        decreases i,
    {
        i = i - 1;
        text.push(low[i]);
        assert(low@.reverse().take(low.len() - i) =~= low@.reverse().take(low.len() - i - 1).push(
            low@[i as int],
        ));
    }
    assert(low@.reverse().take(low.len() as int) =~= low@.reverse());
    text
}

/// Where the trimmed part of `v[from..to]` starts and ends.
pub(crate) fn trim_bounds(v: &Vec<char>, from: usize, to: usize) -> (r: (usize, usize))
    requires
        from <= to <= v.len(),
    ensures
        from <= r.0 <= r.1 <= to,
        v@.subrange(r.0 as int, r.1 as int) == trim(v@.subrange(from as int, to as int)),
{
    let mut a: usize = from;
    while a < to && is_white_space_char(v[a])
        invariant
            from <= a <= to <= v.len(),
            trim_start(v@.subrange(from as int, to as int)) == trim_start(
                v@.subrange(a as int, to as int),
            ),
        decreases to - a,
    {
        assert(v@.subrange(a as int, to as int).drop_first() == v@.subrange(a + 1, to as int));
        a = a + 1;
    }
    let mut b: usize = to;
    while a < b && is_white_space_char(v[b - 1])
        invariant
            a <= b <= to <= v.len(),
            trim_end(v@.subrange(a as int, to as int)) == trim_end(v@.subrange(a as int, b as int)),
        decreases b - a,
    {
        assert(v@.subrange(a as int, b as int).drop_last() == v@.subrange(a as int, b - 1));
        b = b - 1;
    }
    (a, b)
}

/// `s` without leading and trailing white space.
pub fn trimmed(s: &str) -> (r: String)
    ensures
        r@ == trim(s@),
{
    let v = chars_of(s);
    let (a, b) = trim_bounds(&v, 0, v.len());
    assert(v@.subrange(0, v.len() as int) == v@);
    string_of(&v, a, b)
}

/// The lines of `s`, each as a string of its own.
pub fn split_lines(s: &str) -> (r: Vec<String>)
    ensures
        texts(r@) == lines(s@),
{
    let v = chars_of(s);
    let n = v.len();
    let mut out: Vec<String> = Vec::new();
    let mut start: usize = 0;
    let mut i: usize = 0;
    proof {
        assert(v@.skip(0) == v@);
        assert(texts(out@) + lines(v@) == lines(v@));
    }
    while i < n
        invariant
            start <= i <= n == v.len(),
            forall|k: int| start <= k < i ==> v@[k] != '\n',
            texts(out@) + lines(v@.skip(start as int)) == lines(v@),
        decreases n - i,
    {
        if v[i] == '\n' {
            let line = string_of(&v, start, i);
            proof {
                let rest = v@.skip(start as int);
                lemma_line_feed_at(rest, i - start);
                assert(rest.take(i - start) == v@.subrange(start as int, i as int));
                assert(rest.skip(i - start + 1) == v@.skip(i + 1));
                let before = texts(out@);
                assert(texts(out@.push(line)) == before.push(line@));
                assert(before.push(line@) + lines(v@.skip(i + 1)) == before + (seq![line@] + lines(
                    v@.skip(i + 1),
                )));
            }
            out.push(line);
            start = i + 1;
        }
        i = i + 1;
    }
    if start < n {
        let line = string_of(&v, start, n);
        proof {
            let rest = v@.skip(start as int);
            lemma_no_line_feed(rest);
            assert(rest == v@.subrange(start as int, n as int));
            let before = texts(out@);
            assert(texts(out@.push(line)) == before.push(line@));
            assert(before.push(line@) == before + seq![line@]);
        }
        out.push(line);
    } else {
        proof {
            assert(v@.skip(start as int).len() == 0);
            let before = texts(out@);
            assert(before + Seq::<Seq<char>>::empty() == before);
        }
    }
    assert(s@ == v@);
    out
}

/// A line feed at `at` with none before it is the first one.
proof fn lemma_line_feed_at(s: Seq<char>, at: int)
    requires
        0 <= at < s.len(),
        s[at] == '\n',
        forall|k: int| 0 <= k < at ==> s[k] != '\n',
    ensures
        first_line_feed(s) == at,
    decreases at,
{
    if at > 0 {
        let t = s.drop_first();
        assert forall|k: int| 0 <= k < at - 1 implies t[k] != '\n' by {
            assert(t[k] == s[k + 1]);
        }
        lemma_line_feed_at(t, at - 1);
    }
}

/// Without a line feed in it, `s` is one line.
proof fn lemma_no_line_feed(s: Seq<char>)
    requires
        forall|k: int| 0 <= k < s.len() ==> s[k] != '\n',
    ensures
        first_line_feed(s) == s.len(),
    decreases s.len(),
{
    if s.len() > 0 {
        let t = s.drop_first();
        assert forall|k: int| 0 <= k < t.len() implies t[k] != '\n' by {
            assert(t[k] == s[k + 1]);
        }
        lemma_no_line_feed(t);
    }
}

} // verus!

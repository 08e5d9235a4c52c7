//! Text over characters: trimming, splitting, comparing, parsing and rendering numbers.
//!
//! Strings are modelled as `Seq<char>`. Executable code decodes a `&str` once into
//! a `Vec<char>` and works on character slices.

use vstd::prelude::*;
use vstd::slice::slice_subrange;
use crate::lists::{slice_texts, texts};

verus! {

broadcast use crate::lists::group_texts;

/// The characters with the Unicode property White_Space.
pub open spec fn is_space(c: char) -> bool {
    let u = c as u32;
    ||| 0x09 <= u <= 0x0d
    ||| u == 0x20
    ||| u == 0x85
    ||| u == 0xa0
    ||| u == 0x1680
    ||| 0x2000 <= u <= 0x200a
    ||| u == 0x2028
    ||| u == 0x2029
    ||| u == 0x202f
    ||| u == 0x205f
    ||| u == 0x3000
}

pub fn space(c: char) -> (r: bool)
    ensures
        r == is_space(c),
{
    let u: u32 = c as u32;
    (0x09 <= u && u <= 0x0d) || u == 0x20 || u == 0x85 || u == 0xa0 || u == 0x1680
        || (0x2000 <= u && u <= 0x200a) || u == 0x2028 || u == 0x2029 || u == 0x202f
        || u == 0x205f || u == 0x3000
}

/// `s` without its leading white space.
pub open spec fn trimmed_start(s: Seq<char>) -> Seq<char>
    decreases s.len(),
{
    if s.len() > 0 && is_space(s[0]) {
        trimmed_start(s.skip(1))
    } else {
        s
    }
}

/// `s` without its trailing white space.
pub open spec fn trimmed_end(s: Seq<char>) -> Seq<char>
    decreases s.len(),
{
    if s.len() > 0 && is_space(s.last()) {
        trimmed_end(s.drop_last())
    } else {
        s
    }
}

/// `s` without white space at either end.
pub open spec fn trimmed(s: Seq<char>) -> Seq<char> {
    trimmed_end(trimmed_start(s))
}

/// The characters of a string.
pub fn chars_of(s: &str) -> (r: Vec<char>)
    ensures
        r@ == s@,
{
    let mut out: Vec<char> = Vec::new();
    for c in it: s.chars()
        invariant
            it.seq() == s@,
            out@ == s@.take(it.index() as int),
    {
        out.push(c);
        assert(out@ =~= s@.take(it.index() + 1));
    }
    assert(s@.take(s@.len() as int) =~= s@);
    out
}

/// Trusted: `String::push` appends the character to the end of the string and leaves the rest
/// as it is.
pub assume_specification[ String::push ](s: &mut String, c: char)
    ensures
        final(s)@ == old(s)@.push(c),
;

/// The string made of the given characters.
pub fn string_of(s: &[char]) -> (r: String)
    ensures
        r@ == s@,
{
    let mut out: String = String::new();
    let mut i: usize = 0;
    while i < s.len()
        invariant
            i <= s.len(),
            out@ == s@.take(i as int),
        decreases s.len() - i,
    {
        out.push(s[i]);
        i = i + 1;
    }
    assert(s@.take(s@.len() as int) =~= s@);
    out
}

pub fn trim_start<'a>(s: &'a [char]) -> (r: &'a [char])
    ensures
        r@ == trimmed_start(s@),
{
    let mut i: usize = 0;
    assert(s@.skip(0) =~= s@);
    while i < s.len() && space(s[i])
        invariant
            i <= s.len(),
            trimmed_start(s@) == trimmed_start(s@.skip(i as int)),
        decreases s.len() - i,
    {
        assert(s@.skip(i as int).skip(1) =~= s@.skip(i + 1));
        i = i + 1;
    }
    assert(s@.subrange(i as int, s@.len() as int) =~= s@.skip(i as int));
    slice_subrange(s, i, s.len())
}

pub fn trim_end<'a>(s: &'a [char]) -> (r: &'a [char])
    ensures
        r@ == trimmed_end(s@),
{
    let mut n: usize = s.len();
    assert(s@.take(n as int) =~= s@);
    while n > 0 && space(s[n - 1])
        invariant
            n <= s.len(),
            trimmed_end(s@) == trimmed_end(s@.take(n as int)),
        decreases n,
    {
        assert(s@.take(n as int).drop_last() =~= s@.take(n - 1));
        n = n - 1;
    }
    assert(s@.subrange(0, n as int) =~= s@.take(n as int));
    slice_subrange(s, 0, n)
}

pub fn trim<'a>(s: &'a [char]) -> (r: &'a [char])
    ensures
        r@ == trimmed(s@),
{
    trim_end(trim_start(s))
}

/// The same characters.
pub open spec fn equal(a: Seq<char>, b: Seq<char>) -> bool {
    a == b
}

/// Whether two strings hold the same characters.
pub fn str_eq(a: &str, b: &str) -> (r: bool)
    ensures
        r == equal(a@, b@),
{
    let x = a.as_bytes();
    let y = b.as_bytes();
    proof {
        vstd::utf8::encode_utf8_decode_utf8(a@);
        vstd::utf8::encode_utf8_decode_utf8(b@);
    }
    if x.len() != y.len() {
        return false;
    }
    let mut i: usize = 0;
    while i < x.len()
        invariant
            i <= x.len(),
            x.len() == y.len(),
            x@ == vstd::utf8::encode_utf8(a@),
            y@ == vstd::utf8::encode_utf8(b@),
            forall|j: int| 0 <= j < i ==> x@[j] == y@[j],
        decreases x.len() - i,
    {
        if x[i] != y[i] {
            return false;
        }
        i = i + 1;
    }
    assert(x@ =~= y@);
    true
}

/// The decimal digit `d`.
pub open spec fn digit_char(d: nat) -> char {
    (d + 48) as char
}

/// The decimal numeral of `n`.
pub open spec fn dec(n: nat) -> Seq<char>
    decreases n,
{
    if n < 10 {
        seq![digit_char(n)]
    } else {
        dec(n / 10).push(digit_char(n % 10))
    }
}

/// Appends the decimal numeral of `n`.
pub fn push_dec(out: &mut String, n: u64)
    ensures
        final(out)@ == old(out)@ + dec(n as nat),
{
    push_wide_dec(out, n as u128);
}

/// Appends the decimal numeral of a wide number.
pub fn push_wide_dec(out: &mut String, n: u128)
    ensures
        final(out)@ == old(out)@ + dec(n as nat),
    decreases n,
{
    if n >= 10 {
        push_wide_dec(out, n / 10);
    }
    let d: u8 = (n % 10) as u8;
    out.push((d + 48u8) as char);
    assert(out@ =~= old(out)@ + dec(n as nat));
}

/// `n` in at least `width` decimal digits, padded with zeros.
pub open spec fn padded_dec(n: nat, width: nat) -> Seq<char> {
    let d = dec(n);
    if d.len() < width {
        Seq::new((width - d.len()) as nat, |i: int| '0') + d
    } else {
        d
    }
}

pub fn push_padded_dec(out: &mut String, n: u64, width: usize)
    ensures
        final(out)@ == old(out)@ + padded_dec(n as nat, width as nat),
{
    let mut d: String = String::new();
    push_dec(&mut d, n);
    assert(d@ =~= dec(n as nat));
    let len: usize = d.as_str().unicode_len();
    let mut k: usize = len;
    let ghost before = out@;
    while k < width
        invariant
            d@ == dec(n as nat),
            len == d@.len(),
            len <= k,
            len >= width ==> k == len,
            len < width ==> k <= width,
            out@ == before + Seq::new((k - len) as nat, |i: int| '0'),
        decreases width - k,
    {
        out.push('0');
        k = k + 1;
        assert(out@ =~= before + Seq::new((k - len) as nat, |i: int| '0'));
    }
    out.append(d.as_str());
    assert(out@ =~= before + padded_dec(n as nat, width as nat));
}

pub open spec fn bool_text(b: bool) -> Seq<char> {
    if b {
        "true"@
    } else {
        "false"@
    }
}

pub fn push_bool(out: &mut String, b: bool)
    ensures
        final(out)@ == old(out)@ + bool_text(b),
{
    if b {
        out.append("true");
    } else {
        out.append("false");
    }
}

/// The index of the first `c` in `s`, or the length of `s` where it has none.
pub open spec fn index_of(s: Seq<char>, c: char) -> int
    decreases s.len(),
{
    if s.len() == 0 || s[0] == c {
        0
    } else {
        1 + index_of(s.skip(1), c)
    }
}

pub proof fn lemma_index_of(s: Seq<char>, c: char)
    ensures
        0 <= index_of(s, c) <= s.len(),
        index_of(s, c) < s.len() ==> s[index_of(s, c)] == c,
        forall|j: int| 0 <= j < index_of(s, c) ==> s[j] != c,
    decreases s.len(),
{
    if s.len() > 0 && s[0] != c {
        lemma_index_of(s.skip(1), c);
        let p = index_of(s.skip(1), c);
        assert forall|j: int| 0 <= j < 1 + p implies s[j] != c by {
            if j > 0 {
                assert(s.skip(1)[j - 1] == s[j]);
            }
        }
    }
}

pub proof fn lemma_index_of_at(s: Seq<char>, c: char, p: int)
    requires
        0 <= p <= s.len(),
        p < s.len() ==> s[p] == c,
        forall|j: int| 0 <= j < p ==> s[j] != c,
    ensures
        index_of(s, c) == p,
{
    lemma_index_of(s, c);
    let q = index_of(s, c);
    if q < p {
        assert(s[q] != c);
    } else if p < q {
        assert(s[p] != c);
    }
}

pub fn find(s: &[char], c: char) -> (r: usize)
    ensures
        r == index_of(s@, c),
        r <= s.len(),
{
    let mut i: usize = 0;
    while i < s.len() && s[i] != c
        invariant
            i <= s.len(),
            forall|j: int| 0 <= j < i ==> s@[j] != c,
        decreases s.len() - i,
    {
        i = i + 1;
    }
    proof {
        lemma_index_of_at(s@, c, i as int);
    }
    i
}

/// The index of the last `c` in `s`, or -1 where it has none.
pub open spec fn last_index_of(s: Seq<char>, c: char) -> int
    decreases s.len(),
{
    if s.len() == 0 {
        -1
    } else if s.last() == c {
        s.len() - 1
    } else {
        last_index_of(s.drop_last(), c)
    }
}

pub fn rfind(s: &[char], c: char) -> (r: Option<usize>)
    ensures
        match r {
            Some(p) => p == last_index_of(s@, c) && p < s.len(),
            None => last_index_of(s@, c) == -1,
        },
{
    let mut n: usize = s.len();
    assert(s@.take(n as int) =~= s@);
    while n > 0
        invariant
            n <= s.len(),
            last_index_of(s@, c) == last_index_of(s@.take(n as int), c),
        decreases n,
    {
        if s[n - 1] == c {
            return Some(n - 1);
        }
        assert(s@.take(n as int).drop_last() =~= s@.take(n - 1));
        n = n - 1;
    }
    None
}

/// The part of `s` from `a` up to `b`.
pub fn part<'a>(s: &'a [char], a: usize, b: usize) -> (r: &'a [char])
    requires
        a <= b <= s.len(),
    ensures
        r@ == s@.subrange(a as int, b as int),
{
    slice_subrange(s, a, b)
}

/// The first `n` characters.
pub fn head<'a>(s: &'a [char], n: usize) -> (r: &'a [char])
    requires
        n <= s.len(),
    ensures
        r@ == s@.take(n as int),
{
    assert(s@.subrange(0, n as int) =~= s@.take(n as int));
    slice_subrange(s, 0, n)
}

/// All characters after the first `n`.
pub fn tail<'a>(s: &'a [char], n: usize) -> (r: &'a [char])
    requires
        n <= s.len(),
    ensures
        r@ == s@.skip(n as int),
{
    assert(s@.subrange(n as int, s@.len() as int) =~= s@.skip(n as int));
    slice_subrange(s, n, s.len())
}

/// The parts of `s` between the occurrences of `c`.
pub open spec fn pieces(s: Seq<char>, c: char) -> Seq<Seq<char>>
    decreases s.len(),
{
    let p = index_of(s, c);
    if 0 <= p < s.len() {
        seq![s.take(p)] + pieces(s.skip(p + 1), c)
    } else {
        seq![s]
    }
}

pub fn split<'a>(s: &'a [char], c: char) -> (r: Vec<&'a [char]>)
    ensures
        slice_texts(r@) == pieces(s@, c),
        r.len() >= 1,
{
    let mut out: Vec<&'a [char]> = Vec::new();
    let mut i: usize = 0;
    assert(s@.skip(0) =~= s@);
    assert(slice_texts(out@) + pieces(s@.skip(0), c) =~= pieces(s@, c));
    loop
        invariant_except_break
            i <= s.len(),
            pieces(s@, c) == slice_texts(out@) + pieces(s@.skip(i as int), c),
        ensures
            slice_texts(out@) == pieces(s@, c),
            out.len() >= 1,
        decreases s.len() + 1 - i,
    {
        let rest: &'a [char] = tail(s, i);
        let p: usize = find(rest, c);
        let ghost done = out@;
        if p < rest.len() {
            out.push(head(rest, p));
            assert(rest@.skip(p + 1) =~= s@.skip(i + p + 1));
            assert(slice_texts(out@) =~= slice_texts(done).push(rest@.take(p as int)));
            assert(slice_texts(out@) + pieces(s@.skip(i + p + 1), c) =~= pieces(s@, c));
            i = i + p + 1;
        } else {
            out.push(rest);
            assert(slice_texts(out@) =~= slice_texts(done) + pieces(rest@, c));
            break;
        }
    }
    out
}

/// `s` without one final `c`, where it ends in one.
pub open spec fn without_last(s: Seq<char>, c: char) -> Seq<char> {
    if s.len() > 0 && s.last() == c {
        s.drop_last()
    } else {
        s
    }
}

/// The lines of `s`: each ends in a newline, which may follow a carriage return;
/// the last line may lack it, and then keeps its carriage return.
pub open spec fn line_texts(s: Seq<char>) -> Seq<Seq<char>>
    decreases s.len(),
{
    let p = index_of(s, '\n');
    if 0 <= p < s.len() {
        seq![without_last(s.take(p), '\r')] + line_texts(s.skip(p + 1))
    } else if s.len() > 0 {
        seq![s]
    } else {
        Seq::empty()
    }
}

pub fn lines<'a>(s: &'a [char]) -> (r: Vec<&'a [char]>)
    ensures
        slice_texts(r@) == line_texts(s@),
{
    let mut out: Vec<&'a [char]> = Vec::new();
    let mut i: usize = 0;
    assert(s@.skip(0) =~= s@);
    assert(slice_texts(out@) + line_texts(s@.skip(0)) =~= line_texts(s@));
    loop
        invariant_except_break
            i <= s.len(),
            line_texts(s@) == slice_texts(out@) + line_texts(s@.skip(i as int)),
        ensures
            slice_texts(out@) == line_texts(s@),
        decreases s.len() + 1 - i,
    {
        let rest: &'a [char] = tail(s, i);
        let p: usize = find(rest, '\n');
        let ghost done = out@;
        if p < rest.len() {
            let mut line: &'a [char] = head(rest, p);
            if p > 0 && line[p - 1] == '\r' {
                line = head(line, p - 1);
            }
            assert(line@ =~= without_last(rest@.take(p as int), '\r'));
            out.push(line);
            assert(rest@.skip(p + 1) =~= s@.skip(i + p + 1));
            assert(slice_texts(out@) =~= slice_texts(done).push(line@));
            assert(slice_texts(out@) + line_texts(s@.skip(i + p + 1)) =~= line_texts(s@));
            i = i + p + 1;
        } else {
            if rest.len() > 0 {
                out.push(rest);
                assert(line_texts(rest@) =~= seq![rest@]);
            }
            assert(slice_texts(out@) =~= slice_texts(done) + line_texts(rest@));
            break;
        }
    }
    out
}

/// The index of the first white space in `s`, or the length of `s` where it has none.
pub open spec fn space_index(s: Seq<char>) -> int
    decreases s.len(),
{
    if s.len() == 0 || is_space(s[0]) {
        0
    } else {
        1 + space_index(s.skip(1))
    }
}

pub proof fn lemma_space_index(s: Seq<char>)
    ensures
        0 <= space_index(s) <= s.len(),
        s.len() > 0 && !is_space(s[0]) ==> space_index(s) > 0,
    decreases s.len(),
{
    if s.len() > 0 && !is_space(s[0]) {
        lemma_space_index(s.skip(1));
    }
}

pub proof fn lemma_trimmed_start_len(s: Seq<char>)
    ensures
        trimmed_start(s).len() <= s.len(),
        trimmed_start(s).len() > 0 ==> !is_space(trimmed_start(s)[0]),
    decreases s.len(),
{
    if s.len() > 0 && is_space(s[0]) {
        lemma_trimmed_start_len(s.skip(1));
    }
}

/// The words of `s`: its longest parts without white space.
pub open spec fn words(s: Seq<char>) -> Seq<Seq<char>>
    decreases s.len(),
    via words_decreases
{
    let t = trimmed_start(s);
    if t.len() == 0 {
        Seq::empty()
    } else {
        seq![t.take(space_index(t))] + words(t.skip(space_index(t)))
    }
}

#[via_fn]
proof fn words_decreases(s: Seq<char>) {
    lemma_trimmed_start_len(s);
    lemma_space_index(trimmed_start(s));
}

pub fn split_words<'a>(s: &'a [char]) -> (r: Vec<&'a [char]>)
    ensures
        slice_texts(r@) == words(s@),
{
    let mut out: Vec<&'a [char]> = Vec::new();
    let mut rest: &'a [char] = s;
    assert(slice_texts(out@) + words(s@) =~= words(s@));
    loop
        invariant_except_break
            words(s@) == slice_texts(out@) + words(rest@),
        ensures
            slice_texts(out@) == words(s@),
        decreases rest.len(),
    {
        let t: &'a [char] = trim_start(rest);
        proof {
            lemma_trimmed_start_len(rest@);
            lemma_space_index(t@);
        }
        if t.len() == 0 {
            assert(words(rest@) =~= Seq::empty());
            assert(slice_texts(out@) + words(rest@) =~= slice_texts(out@));
            break;
        }
        let mut i: usize = 0;
        assert(t@.skip(0) =~= t@);
        while i < t.len() && !space(t[i])
            invariant
                i <= t.len(),
                space_index(t@) == i + space_index(t@.skip(i as int)),
            decreases t.len() - i,
        {
            assert(t@.skip(i as int).skip(1) =~= t@.skip(i + 1));
            i = i + 1;
        }
        let ghost done = out@;
        out.push(head(t, i));
        assert(slice_texts(out@) =~= slice_texts(done).push(t@.take(i as int)));
        assert(slice_texts(out@) + words(t@.skip(i as int)) =~= slice_texts(done) + words(rest@));
        rest = tail(t, i);
    }
    out
}

/// Whether the characters are those of the string.
pub fn same(a: &[char], b: &str) -> (r: bool)
    ensures
        r == (a@ == b@),
{
    let v: Vec<char> = chars_of(b);
    if a.len() != v.len() {
        return false;
    }
    let mut i: usize = 0;
    while i < a.len()
        invariant
            i <= a.len(),
            a.len() == v.len(),
            v@ == b@,
            forall|j: int| 0 <= j < i ==> a@[j] == v@[j],
        decreases a.len() - i,
    {
        if a[i] != v[i] {
            return false;
        }
        i = i + 1;
    }
    assert(a@ =~= b@);
    true
}

/// Whether `s` starts with the characters of `p`.
pub fn starts_with(s: &[char], p: &str) -> (r: bool)
    ensures
        r == p@.is_prefix_of(s@),
{
    let v: Vec<char> = chars_of(p);
    if s.len() < v.len() {
        return false;
    }
    let mut i: usize = 0;
    while i < v.len()
        invariant
            i <= v.len() <= s.len(),
            v@ == p@,
            forall|j: int| 0 <= j < i ==> s@[j] == v@[j],
        decreases v.len() - i,
    {
        if s[i] != v[i] {
            assert(s@.subrange(0, p@.len() as int)[i as int] != p@[i as int]);
            return false;
        }
        i = i + 1;
    }
    assert(p@ =~= s@.subrange(0, p@.len() as int));
    true
}

/// Whether `s` ends with the characters of `p`.
pub fn ends_with(s: &[char], p: &str) -> (r: bool)
    ensures
        r == p@.is_suffix_of(s@),
{
    let v: Vec<char> = chars_of(p);
    if s.len() < v.len() {
        return false;
    }
    let d: usize = s.len() - v.len();
    let mut i: usize = 0;
    while i < v.len()
        invariant
            i <= v.len() <= s.len(),
            d == s.len() - v.len(),
            v@ == p@,
            forall|j: int| 0 <= j < i ==> s@[d + j] == v@[j],
        decreases v.len() - i,
    {
        if s[d + i] != v[i] {
            assert(s@.subrange(s@.len() - p@.len(), s@.len() as int)[i as int] != p@[i as int]);
            return false;
        }
        i = i + 1;
    }
    assert(p@ =~= s@.subrange(s@.len() - p@.len(), s@.len() as int));
    true
}

/// `s` after the prefix `p`, where it starts with it.
pub fn strip_prefix<'a>(s: &'a [char], p: &str) -> (r: Option<&'a [char]>)
    ensures
        match r {
            Some(t) => p@.is_prefix_of(s@) && t@ == s@.skip(p@.len() as int),
            None => !p@.is_prefix_of(s@),
        },
{
    if starts_with(s, p) {
        let n: usize = p.unicode_len();
        Some(tail(s, n))
    } else {
        None
    }
}

pub open spec fn is_digit(c: char) -> bool {
    48 <= c as u32 <= 57
}

pub fn digit(c: char) -> (r: bool)
    ensures
        r == is_digit(c),
{
    let u: u32 = c as u32;
    48 <= u && u <= 57
}

/// The number that a row of decimal digits denotes.
pub open spec fn digits_value(s: Seq<char>) -> int
    decreases s.len(),
{
    if s.len() == 0 {
        0
    } else {
        10 * digits_value(s.drop_last()) + (s.last() as u32 - 48)
    }
}

/// One or more decimal digits.
pub open spec fn is_numeral(s: Seq<char>) -> bool {
    s.len() > 0 && forall|i: int| 0 <= i < s.len() ==> is_digit(s[i])
}

/// `s` without a leading plus sign.
pub open spec fn without_plus(s: Seq<char>) -> Seq<char> {
    if s.len() > 0 && s[0] == '+' {
        s.skip(1)
    } else {
        s
    }
}

/// The number between 0 and `max` that `s` denotes: digits, which a plus sign may precede.
pub open spec fn unsigned_of(s: Seq<char>, max: int) -> Option<int> {
    let t = without_plus(s);
    if is_numeral(t) && digits_value(t) <= max {
        Some(digits_value(t))
    } else {
        None
    }
}

/// The 64-bit signed number that `s` denotes: digits, which a sign may precede.
pub open spec fn signed_of(s: Seq<char>) -> Option<int> {
    if s.len() > 0 && s[0] == '-' {
        let t = s.skip(1);
        if is_numeral(t) && digits_value(t) <= 9223372036854775808 {
            Some(-digits_value(t))
        } else {
            None
        }
    } else {
        unsigned_of(s, i64::MAX as int)
    }
}

pub proof fn lemma_digits_value_grows(s: Seq<char>, n: int)
    requires
        0 <= n <= s.len(),
        forall|i: int| 0 <= i < s.len() ==> is_digit(s[i]),
    ensures
        0 <= digits_value(s.take(n)) <= digits_value(s),
    decreases s.len(),
{
    if n == s.len() {
        assert(s.take(n) =~= s);
        if s.len() > 0 {
            lemma_digits_value_grows(s.drop_last(), n - 1);
            assert(s.drop_last().take(n - 1) =~= s.drop_last());
        }
    } else {
        lemma_digits_value_grows(s.drop_last(), n);
        assert(s.drop_last().take(n) =~= s.take(n));
    }
}

/// A number that is read lies between 0 and the bound.
pub proof fn lemma_unsigned_bound(s: Seq<char>, max: int)
    ensures
        unsigned_of(s, max) matches Some(v) ==> 0 <= v <= max,
{
    let t = without_plus(s);
    if is_numeral(t) {
        lemma_digits_value_grows(t, 0);
    }
}

/// The value of a row of digits, where it is at most `max`.
fn numeral_value(s: &[char], max: u64) -> (r: Option<u64>)
    ensures
        match r {
            Some(v) => is_numeral(s@) && digits_value(s@) == v && v <= max,
            None => !is_numeral(s@) || digits_value(s@) > max,
        },
{
    if s.len() == 0 {
        return None;
    }
    let mut i: usize = 0;
    while i < s.len()
        invariant
            i <= s.len(),
            forall|j: int| 0 <= j < i ==> is_digit(s@[j]),
        decreases s.len() - i,
    {
        if !digit(s[i]) {
            return None;
        }
        i = i + 1;
    }
    let mut v: u64 = 0;
    i = 0;
    while i < s.len()
        invariant
            i <= s.len(),
            is_numeral(s@),
            v == digits_value(s@.take(i as int)),
            v <= max,
        decreases s.len() - i,
    {
        let d: u64 = (s[i] as u32 - 48) as u64;
        let w: u128 = 10 * (v as u128) + d as u128;
        assert(s@.take(i + 1).drop_last() =~= s@.take(i as int));
        assert(w == digits_value(s@.take(i + 1)));
        proof {
            lemma_digits_value_grows(s@, i + 1);
        }
        if w > max as u128 {
            return None;
        }
        v = w as u64;
        i = i + 1;
    }
    assert(s@.take(s@.len() as int) =~= s@);
    Some(v)
}

/// Reads an unsigned number that is at most `max`.
pub fn parse_unsigned(s: &[char], max: u64) -> (r: Option<u64>)
    ensures
        match r {
            Some(v) => unsigned_of(s@, max as int) == Some(v as int) && v <= max,
            None => unsigned_of(s@, max as int) is None,
        },
{
    if s.len() > 0 && s[0] == '+' {
        numeral_value(tail(s, 1), max)
    } else {
        numeral_value(s, max)
    }
}

pub fn parse_u32(s: &[char]) -> (r: Option<u32>)
    ensures
        match r {
            Some(v) => unsigned_of(s@, u32::MAX as int) == Some(v as int),
            None => unsigned_of(s@, u32::MAX as int) is None,
        },
{
    match parse_unsigned(s, u32::MAX as u64) {
        Some(v) => Some(v as u32),
        None => None,
    }
}

pub fn parse_i64(s: &[char]) -> (r: Option<i64>)
    ensures
        match r {
            Some(v) => signed_of(s@) == Some(v as int),
            None => signed_of(s@) is None,
        },
{
    if s.len() > 0 && s[0] == '-' {
        match numeral_value(tail(s, 1), 9223372036854775808) {
            Some(v) => if v == 9223372036854775808 {
                Some(i64::MIN)
            } else {
                Some(-(v as i64))
            },
            None => None,
        }
    } else {
        match parse_unsigned(s, i64::MAX as u64) {
            Some(v) => Some(v as i64),
            None => None,
        }
    }
}

/// The texts with `sep` between each two neighbours.
pub open spec fn joined(parts: Seq<Seq<char>>, sep: Seq<char>) -> Seq<char>
    decreases parts.len(),
{
    if parts.len() == 0 {
        Seq::empty()
    } else if parts.len() == 1 {
        parts[0]
    } else {
        joined(parts.drop_last(), sep) + sep + parts.last()
    }
}

pub fn join(parts: &Vec<String>, sep: &str) -> (r: String)
    ensures
        r@ == joined(texts(parts@), sep@),
{
    let mut out: String = String::new();
    let mut i: usize = 0;
    assert(texts(parts@).take(0).len() == 0);
    while i < parts.len()
        invariant
            i <= parts.len(),
            out@ == joined(texts(parts@).take(i as int), sep@),
        decreases parts.len() - i,
    {
        if i > 0 {
            out.append(sep);
        }
        out.append(parts[i].as_str());
        assert(texts(parts@).take(i + 1).drop_last() =~= texts(parts@).take(i as int));
        assert(out@ =~= joined(texts(parts@).take(i + 1), sep@));
        i = i + 1;
    }
    assert(texts(parts@).take(parts@.len() as int) =~= texts(parts@));
    out
}

/// A decimal numeral consists of digits and denotes its number.
pub proof fn lemma_dec_value(n: nat)
    ensures
        is_numeral(dec(n)),
        digits_value(dec(n)) == n,
    decreases n,
{
    if n < 10 {
        lemma_digit_char(n);
        assert(dec(n).drop_last() =~= Seq::empty());
        assert(digits_value(Seq::<char>::empty()) == 0);
        assert(dec(n).last() == digit_char(n));
    } else {
        lemma_dec_value(n / 10);
        lemma_digit_char(n % 10);
        let d = dec(n / 10);
        assert(dec(n).drop_last() =~= d);
        assert(dec(n).last() == digit_char(n % 10));
        assert forall|i: int| 0 <= i < dec(n).len() implies is_digit(dec(n)[i]) by {
            if i < d.len() {
                assert(is_digit(d[i]));
            }
        }
    }
}

proof fn lemma_digit_char(d: nat)
    requires
        d < 10,
    ensures
        is_digit(digit_char(d)),
        digit_char(d) as u32 == d + 48,
{
}

/// Reading a decimal numeral gives its number back.
pub proof fn law_dec_reads_back(n: nat, max: int)
    requires
        n <= max,
    ensures
        unsigned_of(dec(n), max) == Some(n as int),
        trimmed(dec(n)) == dec(n),
{
    lemma_dec_value(n);
    let d = dec(n);
    assert(is_digit(d[0]));
    assert(is_digit(d[d.len() - 1]));
    assert(without_plus(d) == d);
    lemma_trimmed_fixed(d);
}

/// A text with no white space at its ends is not trimmed.
pub proof fn lemma_trimmed_fixed(s: Seq<char>)
    requires
        s.len() > 0,
        !is_space(s[0]),
        !is_space(s.last()),
    ensures
        trimmed(s) == s,
{
}

/// A text that trimming leaves alone has no white space at its ends.
pub proof fn lemma_trimmed_ends(s: Seq<char>)
    requires
        trimmed(s) == s,
        s.len() > 0,
    ensures
        !is_space(s[0]),
        !is_space(s.last()),
{
    lemma_trimmed_start_len(s);
    lemma_trimmed_end_len(trimmed_start(s));
    if is_space(s[0]) {
        lemma_trimmed_start_len(s.skip(1));
    }
}

proof fn lemma_trimmed_end_len(s: Seq<char>)
    ensures
        trimmed_end(s).len() <= s.len(),
        trimmed_end(s).len() > 0 ==> !is_space(trimmed_end(s).last()),
        trimmed_end(s).len() == s.len() ==> trimmed_end(s) == s,
    decreases s.len(),
{
    if s.len() > 0 && is_space(s.last()) {
        lemma_trimmed_end_len(s.drop_last());
    }
}

/// A whole line at the end of whole lines is one more line.
pub proof fn lemma_lines_push(s: Seq<char>, row: Seq<char>)
    requires
        s.len() == 0 || s.last() == '\n',
        !row.contains('\n'),
        row.len() > 0 ==> row.last() != '\r',
    ensures
        line_texts(s + row + seq!['\n']) == line_texts(s).push(row),
    decreases s.len(),
{
    let t = s + row + seq!['\n'];
    if s.len() == 0 {
        assert forall|j: int| 0 <= j < row.len() implies t[j] != '\n' by {
            assert(t[j] == row[j]);
        }
        assert(t[row.len() as int] == '\n');
        lemma_index_of_at(t, '\n', row.len() as int);
        assert(t.take(row.len() as int) =~= row);
        assert(t.skip(row.len() as int + 1) =~= Seq::empty());
        assert(index_of(Seq::<char>::empty(), '\n') == 0);
        assert(line_texts(Seq::<char>::empty()) =~= Seq::empty());
        assert(without_last(row, '\r') == row);
        assert(line_texts(t) =~= seq![row]);
        assert(line_texts(s) =~= Seq::empty());
        assert(line_texts(s).push(row) =~= seq![row]);
    } else {
        lemma_index_of(s, '\n');
        let p = index_of(s, '\n');
        assert(p < s.len()) by {
            if p == s.len() {
                assert(s[s.len() - 1] != '\n');
            }
        }
        assert forall|j: int| 0 <= j < p implies t[j] != '\n' by {
            assert(t[j] == s[j]);
        }
        assert(t[p] == s[p]);
        lemma_index_of_at(t, '\n', p);
        let rest = s.skip(p + 1);
        assert(rest.len() > 0 ==> rest.last() == s.last());
        lemma_lines_push(rest, row);
        assert(t.take(p) =~= s.take(p));
        assert(t.skip(p + 1) =~= rest + row + seq!['\n']);
        assert(line_texts(t) =~= line_texts(s).push(row));
    }
}

} // verus!

//! How the build of a file is found.

use vstd::prelude::*;
use crate::bytes::word;
use crate::dex::{dex_version, first_sha, is_dex, is_hex, is_short_sha, length_end, sha_at};

verus! {

/// A file of the format has its whole header, and starts with its name and a line end.
pub proof fn law_how_files_start(b: Seq<u8>)
    ensures
        is_dex(b) <==> b.len() >= 112 && b.take(4) == seq![0x64u8, 0x65u8, 0x78u8, 0x0au8],
        !is_dex(b) ==> dex_version(b) is None,
{
    let m = seq![0x64u8, 0x65u8, 0x78u8, 0x0au8];
    if b.len() >= 112 && b.take(4) == m {
        assert(b.take(4)[0] == m[0] && b.take(4)[1] == m[1] && b.take(4)[2] == m[2] && b.take(4)[3]
            == m[3]);
    }
    if is_dex(b) {
        assert(b.take(4) =~= m);
    }
}

/// A build is seven characters, each of them one of the sixteen digits.
pub proof fn law_what_builds_look_like(s: Seq<char>)
    ensures
        is_short_sha(s) <==> s.len() == 7 && forall|i: int|
            0 <= i < s.len() ==> "0123456789abcdef"@.contains(#[trigger] s[i]),
{
    let d = "0123456789abcdef"@;
    assert forall|i: int| 0 <= i < s.len() implies (is_hex(#[trigger] s[i]) <==> d.contains(
        s[i],
    )) by {
        lemma_digit(s[i]);
    }
}

proof fn lemma_digit(c: char)
    ensures
        is_hex(c) <==> "0123456789abcdef"@.contains(c),
{
    reveal_strlit("0123456789abcdef");
    let d = "0123456789abcdef"@;
    if '0' <= c <= '9' {
        assert(d[c as int - 48] == c);
    } else if 'a' <= c <= 'f' {
        assert(d[c as int - 87] == c);
    }
}

proof fn lemma_length_end(b: Seq<u8>, p: int, n: int, k: int)
    requires
        0 <= p,
        0 <= n,
        0 <= k,
        n + k <= 5,
        p + k < b.len(),
        forall|i: int| p <= i < p + k ==> #[trigger] b[i] >= 128,
        b[p + k] < 128 || n + k == 5,
    ensures
        length_end(b, p, n) == p + k + 1,
    decreases k,
{
    if k > 0 {
        assert(b[p] >= 128);
        lemma_length_end(b, p + 1, n + 1, k - 1);
    }
}

/// The text of a string starts behind its length: behind the first byte below 128, or behind six
/// bytes where that does not come.
pub proof fn law_text_follows_its_length(b: Seq<u8>, at: int, k: int)
    requires
        0 <= at,
        0 <= k <= 5,
        at + k < b.len(),
        forall|i: int| at <= i < at + k ==> #[trigger] b[i] >= 128,
        b[at + k] < 128 || k == 5,
    ensures
        length_end(b, at, 0) == at + k + 1,
{
    lemma_length_end(b, at, 0, k);
}

/// Whether the string of that number is there and names a build. The table of strings starts
/// where the header says.
pub open spec fn names_build(b: Seq<u8>, i: int) -> bool {
    let at = word(b, word(b, 60) + 4 * i);
    at < b.len() && sha_at(b, at) is Some
}

proof fn lemma_first_of_strings(b: Seq<u8>, from: int, i: int)
    requires
        0 <= from <= i < word(b, 56),
        word(b, 60) + 4 * i + 4 <= b.len(),
        names_build(b, i),
        forall|j: int| from <= j < i ==> !#[trigger] names_build(b, j),
    ensures
        first_sha(b, word(b, 60), from, word(b, 56)) == sha_at(b, word(b, word(b, 60) + 4 * i)),
    decreases i - from,
{
    if from < i {
        assert(!names_build(b, from));
        lemma_first_of_strings(b, from + 1, i);
    }
}

proof fn lemma_none_of_strings(b: Seq<u8>, from: int)
    requires
        forall|j: int|
            from <= j < word(b, 56) && word(b, 60) + 4 * j + 4 <= b.len()
                ==> !#[trigger] names_build(b, j),
    ensures
        first_sha(b, word(b, 60), from, word(b, 56)) is None,
    decreases word(b, 56) - from,
{
    if from < word(b, 56) && word(b, 60) + 4 * from + 4 <= b.len() {
        assert(!names_build(b, from));
        lemma_none_of_strings(b, from + 1);
    }
}

/// The build of a file is the one that the first string to name one names; a file none of whose
/// strings names one has none.
pub proof fn law_first_build_counts(b: Seq<u8>, i: int)
    requires
        is_dex(b),
        0 <= i,
    ensures
        i < word(b, 56) && word(b, 60) + 4 * i + 4 <= b.len() && names_build(b, i) && (forall|j: int|
            0 <= j < i ==> !#[trigger] names_build(b, j)) ==> dex_version(b) == sha_at(
            b,
            word(b, word(b, 60) + 4 * i),
        ),
        (forall|j: int|
            0 <= j < word(b, 56) && word(b, 60) + 4 * j + 4 <= b.len()
                ==> !#[trigger] names_build(b, j)) ==> dex_version(b) is None,
{
    if i < word(b, 56) && word(b, 60) + 4 * i + 4 <= b.len() && names_build(b, i) && (forall|j: int|
        0 <= j < i ==> !#[trigger] names_build(b, j)) {
        lemma_first_of_strings(b, 0, i);
    }
    if forall|j: int|
        0 <= j < word(b, 56) && word(b, 60) + 4 * j + 4 <= b.len()
            ==> !#[trigger] names_build(b, j) {
        lemma_none_of_strings(b, 0);
    }
}

} // verus!

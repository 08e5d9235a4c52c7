//! Handing out the bytes of the probe: which build they are, and whether they may go out.
//!
//! The build is a name of seven lower-case hexadecimal digits among the strings of the file.
//! Bytes of another build than the expected one stay here; where the build cannot be told, or
//! none is expected, they go out.

use vstd::prelude::*;
use vstd::utf8::{decode_utf8, valid_utf8};
use crate::bytes::{take_until_zero, until_zero, word, word_at};
use crate::events::opt_view;
use crate::json::{opt_quoted, push_opt_quoted};
use crate::text::{chars_of, dec, push_dec, string_of, trim, trimmed};

verus! {

/// Decodes bytes as text.
///
/// Trusted: `std::str::from_utf8` succeeds exactly on valid UTF-8, and gives the characters
/// that the bytes encode.
#[verifier::external_body]
fn text_of<'a>(b: &'a [u8]) -> (r: Option<&'a str>)
    ensures
        match r {
            Some(s) => valid_utf8(b@) && s@ == decode_utf8(b@),
            None => !valid_utf8(b@),
        },
{
    match std::str::from_utf8(b) {
        Ok(s) => Some(s),
        Err(_) => None,
    }
}

/// A lower-case hexadecimal digit.
pub open spec fn is_hex(c: char) -> bool {
    '0' <= c <= '9' || 'a' <= c <= 'f'
}

/// Seven lower-case hexadecimal digits.
pub open spec fn is_short_sha(s: Seq<char>) -> bool {
    s.len() == 7 && forall|i: int| 0 <= i < s.len() ==> is_hex(#[trigger] s[i])
}

/// Where a number of variable length ends that starts at `p`, after `n` of its bytes: at the
/// first byte below 128, and after six at the latest.
pub open spec fn length_end(b: Seq<u8>, p: int, n: int) -> int
    decreases 6 - n,
{
    if p >= b.len() {
        p
    } else if b[p] < 128 || n >= 5 {
        p + 1
    } else {
        length_end(b, p + 1, n + 1)
    }
}

/// The build that the string at `at` names, if it names one.
pub open spec fn sha_at(b: Seq<u8>, at: int) -> Option<Seq<char>> {
    let s = until_zero(b.skip(length_end(b, at, 0)));
    if valid_utf8(s) && is_short_sha(trimmed(decode_utf8(s))) {
        Some(trimmed(decode_utf8(s)))
    } else {
        None
    }
}

/// The first build that the strings from number `i` on name. The list of strings starts at
/// `off`; where it runs past the end of the file, there is none.
pub open spec fn first_sha(b: Seq<u8>, off: int, i: int, size: int) -> Option<Seq<char>>
    decreases size - i,
{
    if i >= size || off + 4 * i + 4 > b.len() {
        None
    } else {
        let at = word(b, off + 4 * i);
        if at < b.len() && sha_at(b, at) is Some {
            sha_at(b, at)
        } else {
            first_sha(b, off, i + 1, size)
        }
    }
}

/// Whether the file starts as a file of this format does.
pub open spec fn is_dex(b: Seq<u8>) -> bool {
    b.len() >= 0x70 && b[0] == 100 && b[1] == 101 && b[2] == 120 && b[3] == 10
}

/// The build of the file.
pub open spec fn dex_version(b: Seq<u8>) -> Option<Seq<char>> {
    if is_dex(b) {
        first_sha(b, word(b, 0x3c), 0, word(b, 0x38))
    } else {
        None
    }
}

/// What is found is always a build.
pub proof fn law_dex_version_is_a_build(b: Seq<u8>)
    ensures
        dex_version(b) is Some ==> is_dex(b) && is_short_sha(dex_version(b)->0),
{
    if is_dex(b) {
        lemma_first_sha(b, word(b, 0x3c), 0, word(b, 0x38));
    }
}

proof fn lemma_first_sha(b: Seq<u8>, off: int, i: int, size: int)
    ensures
        first_sha(b, off, i, size) is Some ==> is_short_sha(first_sha(b, off, i, size)->0),
    decreases size - i,
{
    if i < size {
        lemma_first_sha(b, off, i + 1, size);
    }
}

fn hex(c: char) -> (r: bool)
    ensures
        r == is_hex(c),
{
    ('0' <= c && c <= '9') || ('a' <= c && c <= 'f')
}

fn short_sha(s: &[char]) -> (r: bool)
    ensures
        r == is_short_sha(s@),
{
    if s.len() != 7 {
        return false;
    }
    let mut i: usize = 0;
    while i < s.len()
        invariant
            i <= s.len(),
            s.len() == 7,
            forall|j: int| 0 <= j < i ==> is_hex(#[trigger] s@[j]),
        decreases s.len() - i,
    {
        if !hex(s[i]) {
            return false;
        }
        i = i + 1;
    }
    true
}

fn skip_length(b: &[u8], at: usize) -> (r: usize)
    requires
        at <= b.len(),
    ensures
        r == length_end(b@, at as int, 0),
        r <= b.len(),
{
    let mut p: usize = at;
    let mut n: usize = 0;
    while p < b.len()
        invariant
            p <= b.len(),
            n <= 5,
            length_end(b@, at as int, 0) == length_end(b@, p as int, n as int),
        decreases b.len() - p,
    {
        if b[p] < 128 || n >= 5 {
            return p + 1;
        }
        p = p + 1;
        n = n + 1;
    }
    p
}

fn find_sha(b: &[u8], at: usize) -> (r: Option<String>)
    requires
        at < b.len(),
    ensures
        opt_view(r) == sha_at(b@, at as int),
{
    let start: usize = skip_length(b, at);
    let raw: Vec<u8> = take_until_zero(b, start, b.len());
    assert(b@.subrange(start as int, b@.len() as int) =~= b@.skip(start as int));
    match text_of(raw.as_slice()) {
        Some(s) => {
            let v: Vec<char> = chars_of(s);
            let t: &[char] = trim(v.as_slice());
            if short_sha(t) {
                Some(string_of(t))
            } else {
                None
            }
        },
        None => None,
    }
}

/// The build of the file.
pub fn extract_dex_version(bytes: &[u8]) -> (r: Option<String>)
    ensures
        opt_view(r) == dex_version(bytes@),
{
    let n: usize = bytes.len();
    if n < 0x70 || bytes[0] != 100 || bytes[1] != 101 || bytes[2] != 120 || bytes[3] != 10 {
        return None;
    }
    let size: u64 = word_at(bytes, 0x38) as u64;
    let off: u64 = word_at(bytes, 0x3c) as u64;
    let mut i: u64 = 0;
    while i < size
        invariant
            n == bytes.len(),
            n >= 0x70,
            i <= size <= u32::MAX,
            off <= u32::MAX,
            is_dex(bytes@),
            off == word(bytes@, 0x3c),
            size == word(bytes@, 0x38),
            dex_version(bytes@) == first_sha(bytes@, off as int, i as int, size as int),
        decreases size - i,
    {
        let id: u64 = off + 4 * i;
        if id + 4 > n as u64 {
            return None;
        }
        let at: u32 = word_at(bytes, id as usize);
        if (at as u64) < n as u64 {
            let found: Option<String> = find_sha(bytes, at as usize);
            if found.is_some() {
                return found;
            }
        }
        i = i + 1;
    }
    None
}

/// Whether bytes of a build may go out.
pub open spec fn may_go_out(expected: Option<Seq<char>>, actual: Option<Seq<char>>) -> bool {
    expected is None || actual is None || expected == actual
}

/// Why bytes do not go out.
pub open spec fn refusal(expected: Option<Seq<char>>, actual: Option<Seq<char>>) -> Seq<char> {
    "{\"ok\":0,\"error\":\"字节源版本与期望不一致 actual="@ + shown(actual, "<解析失败>"@)
        + " expected="@ + shown(expected, "<无>"@) + "，请同步六位一体（含 root 侧）\"}"@
}

pub open spec fn shown(s: Option<Seq<char>>, otherwise: Seq<char>) -> Seq<char> {
    match s {
        Some(t) => t,
        None => otherwise,
    }
}

/// The rest of the line before the bytes.
pub open spec fn size_and_builds(
    size: nat,
    expected: Option<Seq<char>>,
    actual: Option<Seq<char>>,
) -> Seq<char> {
    dec(size) + ",\"expected_hash\":"@ + opt_quoted(expected) + ",\"actual_hash\":"@ + opt_quoted(
        actual,
    ) + "}"@
}

/// The line that answers a request for the bytes, and whether they follow it.
pub open spec fn fetch_answer(b: Seq<u8>, expected: Option<Seq<char>>) -> (Seq<char>, bool) {
    let actual = dex_version(b);
    if may_go_out(expected, actual) {
        ("{\"ok\":1,\"size\":"@ + size_and_builds(b.len(), expected, actual), true)
    } else {
        (refusal(expected, actual), false)
    }
}

/// The line that announces the bytes to listeners, or why they are not sent.
pub open spec fn push_announcement(b: Seq<u8>, expected: Option<Seq<char>>) -> (Seq<char>, bool) {
    let actual = dex_version(b);
    if may_go_out(expected, actual) {
        (
            "{\"event\":\"dex-push\",\"size\":"@ + size_and_builds(b.len(), expected, actual)
                + "\n"@,
            true,
        )
    } else {
        (refusal(expected, actual), false)
    }
}

/// Bytes of a build that is not the expected one go neither to who asks nor to who listens.
pub proof fn law_wrong_build_stays(b: Seq<u8>, expected: Seq<char>)
    requires
        dex_version(b) is Some,
        dex_version(b)->0 != expected,
    ensures
        !fetch_answer(b, Some(expected)).1,
        !push_announcement(b, Some(expected)).1,
{
}

/// Bytes of the expected build go out, and so do bytes whose build cannot be told, and all
/// bytes where no build is expected.
pub proof fn law_other_bytes_go_out(b: Seq<u8>, expected: Option<Seq<char>>)
    requires
        expected is None || dex_version(b) is None || dex_version(b) == expected,
    ensures
        fetch_answer(b, expected).1,
        push_announcement(b, expected).1,
{
}

fn same_build(expected: &Option<String>, actual: &Option<String>) -> (r: bool)
    ensures
        r == may_go_out(opt_view(*expected), opt_view(*actual)),
{
    match (expected, actual) {
        (Some(e), Some(a)) => crate::text::str_eq(e.as_str(), a.as_str()),
        _ => true,
    }
}

fn push_shown(out: &mut String, s: &Option<String>, otherwise: &str)
    ensures
        final(out)@ == old(out)@ + shown(opt_view(*s), otherwise@),
{
    match s {
        Some(t) => out.append(t.as_str()),
        None => out.append(otherwise),
    }
}

fn refuse(expected: &Option<String>, actual: &Option<String>) -> (r: String)
    ensures
        r@ == refusal(opt_view(*expected), opt_view(*actual)),
{
    let mut s: String = String::from_str("{\"ok\":0,\"error\":\"字节源版本与期望不一致 actual=");
    push_shown(&mut s, actual, "<解析失败>");
    s.append(" expected=");
    push_shown(&mut s, expected, "<无>");
    s.append("，请同步六位一体（含 root 侧）\"}");
    s
}

fn size_line(size: usize, expected: &Option<String>, actual: &Option<String>) -> (r: String)
    ensures
        r@ == size_and_builds(size as nat, opt_view(*expected), opt_view(*actual)),
{
    let mut s: String = String::new();
    push_dec(&mut s, size as u64);
    assert(s@ =~= dec(size as nat));
    s.append(",\"expected_hash\":");
    push_opt_quoted(&mut s, expected);
    s.append(",\"actual_hash\":");
    push_opt_quoted(&mut s, actual);
    s.append("}");
    s
}

/// The line that answers a request for the bytes, and whether they follow it.
pub fn serve_dex_bytes(bytes: &[u8], expected: &Option<String>) -> (r: (String, bool))
    ensures
        (r.0@, r.1) == fetch_answer(bytes@, opt_view(*expected)),
{
    let actual: Option<String> = extract_dex_version(bytes);
    if same_build(expected, &actual) {
        let mut s: String = String::from_str("{\"ok\":1,\"size\":");
        let rest: String = size_line(bytes.len(), expected, &actual);
        s.append(rest.as_str());
        (s, true)
    } else {
        (refuse(expected, &actual), false)
    }
}

/// The line that announces the bytes to listeners, or why they are not sent.
pub fn push_dex(bytes: &[u8], expected: &Option<String>) -> (r: (String, bool))
    ensures
        (r.0@, r.1) == push_announcement(bytes@, opt_view(*expected)),
{
    let actual: Option<String> = extract_dex_version(bytes);
    if same_build(expected, &actual) {
        let mut s: String = String::from_str("{\"event\":\"dex-push\",\"size\":");
        let rest: String = size_line(bytes.len(), expected, &actual);
        s.append(rest.as_str());
        s.append("\n");
        (s, true)
    } else {
        (refuse(expected, &actual), false)
    }
}

/// What is said when the bytes were sent to listeners.
pub fn push_done(notified: usize, size: usize, path: &str) -> (r: String)
    ensures
        r@ == "{\"ok\":1,\"notified\":"@ + dec(notified as nat) + ",\"size\":"@ + dec(size as nat)
            + ",\"dex_path\":\""@ + path@ + "\"}"@,
{
    let mut s: String = String::from_str("{\"ok\":1,\"notified\":");
    push_dec(&mut s, notified as u64);
    s.append(",\"size\":");
    push_dec(&mut s, size as u64);
    s.append(",\"dex_path\":\"");
    s.append(path);
    s.append("\"}");
    s
}

/// What is said when the bytes cannot be read.
pub fn read_failed(path: &str, why: &str) -> (r: String)
    ensures
        r@ == "{\"ok\":0,\"error\":\"read "@ + path@ + " failed: "@ + why@ + "\"}"@,
{
    let mut s: String = String::from_str("{\"ok\":0,\"error\":\"read ");
    s.append(path);
    s.append(" failed: ");
    s.append(why);
    s.append("\"}");
    s
}

} // verus!

//! Pieces of JSON replies. Strings stand in quotes as they are: what goes in here are names
//! and hashes.

use vstd::prelude::*;
use crate::events::opt_view;
use crate::lists::texts;
use crate::text::{dec, join, joined, push_dec};

verus! {

broadcast use {crate::lists::texts_len, crate::lists::texts_at};

pub open spec fn quoted(s: Seq<char>) -> Seq<char> {
    "\""@ + s + "\""@
}

/// A string in quotes, or `null`.
pub open spec fn opt_quoted(s: Option<Seq<char>>) -> Seq<char> {
    match s {
        Some(t) => quoted(t),
        None => "null"@,
    }
}

/// An array of strings.
pub open spec fn string_array(v: Seq<Seq<char>>) -> Seq<char> {
    "["@ + joined(v.map_values(|s: Seq<char>| quoted(s)), ","@) + "]"@
}

/// Numbers with commas between them.
pub open spec fn number_list(v: Seq<u32>) -> Seq<char> {
    joined(v.map_values(|n: u32| dec(n as nat)), ","@)
}

/// An array of numbers.
pub open spec fn number_array(v: Seq<u32>) -> Seq<char> {
    "["@ + number_list(v) + "]"@
}

/// 1 where what was reported is what is expected, 0 where it is not, -1 where one of them is
/// missing.
pub open spec fn match_text(expected: Option<Seq<char>>, reported: Option<Seq<char>>) -> Seq<char> {
    if expected is None || reported is None {
        "-1"@
    } else if expected == reported {
        "1"@
    } else {
        "0"@
    }
}

pub fn push_quoted(out: &mut String, s: &str)
    ensures
        final(out)@ == old(out)@ + quoted(s@),
{
    let ghost before = out@;
    out.append("\"");
    out.append(s);
    out.append("\"");
    assert(out@ =~= before + quoted(s@));
}

pub fn push_opt_quoted(out: &mut String, s: &Option<String>)
    ensures
        final(out)@ == old(out)@ + opt_quoted(opt_view(*s)),
{
    match s {
        Some(t) => push_quoted(out, t.as_str()),
        None => out.append("null"),
    }
}

pub fn push_string_array(out: &mut String, v: &Vec<String>)
    ensures
        final(out)@ == old(out)@ + string_array(texts(v@)),
{
    let ghost before = out@;
    let ghost all = texts(v@).map_values(|s: Seq<char>| quoted(s));
    let mut parts: Vec<String> = Vec::new();
    let mut i: usize = 0;
    assert(texts(parts@) =~= all.take(0));
    while i < v.len()
        invariant
            i <= v.len(),
            all == texts(v@).map_values(|s: Seq<char>| quoted(s)),
            texts(parts@) == all.take(i as int),
        decreases v.len() - i,
    {
        let ghost done = texts(parts@);
        let mut q: String = String::new();
        push_quoted(&mut q, v[i].as_str());
        assert(q@ =~= quoted(v@[i as int]@));
        parts.push(q);
        assert(texts(parts@) =~= done.push(quoted(v@[i as int]@)));
        assert(all.take(i + 1) =~= all.take(i as int).push(all[i as int]));
        i = i + 1;
    }
    assert(all.take(all.len() as int) =~= all);
    let inner: String = join(&parts, ",");
    out.append("[");
    out.append(inner.as_str());
    out.append("]");
    assert(out@ =~= before + string_array(texts(v@)));
}

pub fn number_list_text(v: &Vec<u32>) -> (r: String)
    ensures
        r@ == number_list(v@),
{
    let ghost all = v@.map_values(|n: u32| dec(n as nat));
    let mut parts: Vec<String> = Vec::new();
    let mut i: usize = 0;
    assert(texts(parts@) =~= all.take(0));
    while i < v.len()
        invariant
            i <= v.len(),
            all == v@.map_values(|n: u32| dec(n as nat)),
            texts(parts@) == all.take(i as int),
        decreases v.len() - i,
    {
        let ghost done = texts(parts@);
        let mut q: String = String::new();
        push_dec(&mut q, v[i] as u64);
        assert(q@ =~= dec(v@[i as int] as nat));
        parts.push(q);
        assert(texts(parts@) =~= done.push(dec(v@[i as int] as nat)));
        assert(all.take(i + 1) =~= all.take(i as int).push(all[i as int]));
        i = i + 1;
    }
    assert(all.take(all.len() as int) =~= all);
    join(&parts, ",")
}

pub fn push_number_array(out: &mut String, v: &Vec<u32>)
    ensures
        final(out)@ == old(out)@ + number_array(v@),
{
    let ghost before = out@;
    let inner: String = number_list_text(v);
    out.append("[");
    out.append(inner.as_str());
    out.append("]");
    assert(out@ =~= before + number_array(v@));
}

/// Appends whether two hashes match.
pub fn push_match(out: &mut String, expected: &Option<String>, reported: Option<&str>)
    ensures
        final(out)@ == old(out)@ + match_text(
            opt_view(*expected),
            crate::events::opt_str(reported),
        ),
{
    match (expected, reported) {
        (Some(e), Some(r)) => if crate::text::str_eq(e.as_str(), r) {
            out.append("1");
        } else {
            out.append("0");
        },
        _ => out.append("-1"),
    }
}

} // verus!

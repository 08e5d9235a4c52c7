//! A small TOML subset for the policy, preset and rule files.
//!
//! - table headers `[a.b]`; a quoted segment `[apps."com.x"]` is one segment
//! - `key = value` with a double-quoted string (escapes `\"`, `\\`, `\n`, `\t`), a
//!   boolean, an integer, or an array of strings, which may span lines
//! - `#` comments, on a line of their own or at the end of a line
//!
//! There are no multi-line strings, inline tables, dates or floats. An error carries
//! the number of the line and a description.

use vstd::prelude::*;
use crate::lists::{slice_texts, texts};
use crate::text::{chars_of, find, head, lines, parse_i64, part, same, split, string_of, tail, trim};

verus! {

broadcast use crate::lists::group_texts;

/// A parsed value.
#[derive(Debug, PartialEq)]
pub enum TomlValue {
    Str(String),
    Bool(bool),
    Int(i64),
    StrArray(Vec<String>),
}

/// One `key = value` under the table of the last header before it.
#[derive(Debug)]
pub struct TomlEntry {
    pub table: Vec<String>,
    pub key: String,
    pub value: TomlValue,
}

/// What a value denotes.
pub enum ValueView {
    Str(Seq<char>),
    Bool(bool),
    Int(int),
    StrArray(Seq<Seq<char>>),
}

/// What an entry denotes.
pub struct EntryView {
    pub table: Seq<Seq<char>>,
    pub key: Seq<char>,
    pub value: ValueView,
}

impl View for TomlValue {
    type V = ValueView;

    open spec fn view(&self) -> ValueView {
        match *self {
            TomlValue::Str(s) => ValueView::Str(s@),
            TomlValue::Bool(b) => ValueView::Bool(b),
            TomlValue::Int(n) => ValueView::Int(n as int),
            TomlValue::StrArray(v) => ValueView::StrArray(texts(v@)),
        }
    }
}

impl View for TomlEntry {
    type V = EntryView;

    open spec fn view(&self) -> EntryView {
        EntryView { table: texts(self.table@), key: self.key@, value: self.value@ }
    }
}

/// The views of a list of entries.
pub open spec fn entry_views(v: Seq<TomlEntry>) -> Seq<EntryView> {
    Seq::new(v.len(), |i: int| v[i]@)
}

/// A line number and a description.
pub type Fault = (int, Seq<char>);

/// The number of occurrences of `c`.
pub open spec fn count_of(s: Seq<char>, c: char) -> nat
    decreases s.len(),
{
    if s.len() == 0 {
        0
    } else if s.last() == c {
        count_of(s.drop_last(), c) + 1
    } else {
        count_of(s.drop_last(), c)
    }
}

/// A line without its comment. Only the first `#` can start one, and only where an even
/// number of quotes precedes it.
pub open spec fn uncommented(line: Seq<char>) -> Seq<char> {
    let p = crate::text::index_of(line, '#');
    if 0 <= p < line.len() && count_of(line.take(p), '"') % 2 == 0 {
        line.take(p)
    } else {
        line
    }
}

/// The texts, trimmed, without those that are then empty.
pub open spec fn trimmed_non_empty(parts: Seq<Seq<char>>) -> Seq<Seq<char>>
    decreases parts.len(),
{
    if parts.len() == 0 {
        parts
    } else {
        let t = crate::text::trimmed(parts.last());
        if t.len() == 0 {
            trimmed_non_empty(parts.drop_last())
        } else {
            trimmed_non_empty(parts.drop_last()).push(t)
        }
    }
}

/// The segments of an unquoted stretch of a header.
pub open spec fn bare_segments(s: Seq<char>) -> Seq<Seq<char>> {
    trimmed_non_empty(crate::text::pieces(s, '.'))
}

/// The path that a table header names: a quoted stretch is one segment, the rest is split
/// at the dots. A quote that is not closed counts as unquoted text.
pub open spec fn header_path(s: Seq<char>) -> Seq<Seq<char>>
    decreases s.len(),
{
    let q = crate::text::index_of(s, '"');
    if 0 <= q < s.len() {
        let r = s.skip(q + 1);
        let e = crate::text::index_of(r, '"');
        if 0 <= e < r.len() {
            bare_segments(s.take(q)) + seq![r.take(e)] + header_path(r.skip(e + 1))
        } else {
            bare_segments(s.take(q)) + bare_segments(s.skip(q))
        }
    } else {
        bare_segments(s)
    }
}

/// `r` with `a` put in front of what it holds.
pub open spec fn prepend<T, E>(a: Seq<T>, r: Result<Seq<T>, E>) -> Result<Seq<T>, E> {
    match r {
        Ok(b) => Ok(a + b),
        Err(e) => Err(e),
    }
}

/// The character that an escape stands for.
pub open spec fn escape_char(c: char) -> Option<char> {
    if c == '"' || c == '\\' {
        Some(c)
    } else if c == 'n' {
        Some('\n')
    } else if c == 't' {
        Some('\t')
    } else {
        None
    }
}

/// The text of a quoted string, with its escapes resolved.
pub open spec fn unescaped(s: Seq<char>, lineno: int) -> Result<Seq<char>, Fault>
    decreases s.len(),
{
    if s.len() == 0 {
        Ok(s)
    } else if s[0] != '\\' {
        prepend(seq![s[0]], unescaped(s.skip(1), lineno))
    } else if s.len() == 1 {
        Err((lineno, "结尾反斜杠"@))
    } else {
        match escape_char(s[1]) {
            Some(c) => prepend(seq![c], unescaped(s.skip(2), lineno)),
            None => Err((lineno, "不支持的转义: \\"@ + seq![s[1]])),
        }
    }
}

/// Two characters or more, between double quotes.
pub open spec fn is_quoted(s: Seq<char>) -> bool {
    s.len() >= 2 && s[0] == '"' && s.last() == '"'
}

pub open spec fn inside(s: Seq<char>) -> Seq<char> {
    s.subrange(1, s.len() - 1)
}

/// The strings of an array, given the trimmed texts of its elements.
pub open spec fn array_items(parts: Seq<Seq<char>>, lineno: int) -> Result<Seq<Seq<char>>, Fault>
    decreases parts.len(),
{
    if parts.len() == 0 {
        Ok(parts)
    } else {
        let p = parts[0];
        if !is_quoted(p) {
            Err((lineno, "数组元素须为双引号字符串: "@ + p))
        } else {
            match unescaped(inside(p), lineno) {
                Ok(item) => prepend(seq![item], array_items(parts.skip(1), lineno)),
                Err(e) => Err(e),
            }
        }
    }
}

/// The value that the text right of the `=` denotes.
pub open spec fn value_view(s: Seq<char>, lineno: int) -> Result<ValueView, Fault> {
    if s.len() == 0 {
        Err((lineno, "空值"@))
    } else if s[0] == '[' {
        if s.last() != ']' {
            Err((lineno, "数组未闭合: "@ + s))
        } else {
            match array_items(
                trimmed_non_empty(crate::text::pieces(crate::text::trimmed(inside(s)), ',')),
                lineno,
            ) {
                Ok(items) => Ok(ValueView::StrArray(items)),
                Err(e) => Err(e),
            }
        }
    } else if s[0] == '"' {
        if !is_quoted(s) {
            Err((lineno, "字符串未闭合: "@ + s))
        } else {
            match unescaped(inside(s), lineno) {
                Ok(t) => Ok(ValueView::Str(t)),
                Err(e) => Err(e),
            }
        }
    } else if s == "true"@ {
        Ok(ValueView::Bool(true))
    } else if s == "false"@ {
        Ok(ValueView::Bool(false))
    } else {
        match crate::text::signed_of(s) {
            Some(n) => Ok(ValueView::Int(n)),
            None => Err((lineno, "不支持的值类型: "@ + s)),
        }
    }
}

/// What line `i` says, without comment and outer white space.
pub open spec fn line_body(ls: Seq<Seq<char>>, i: int) -> Seq<char> {
    crate::text::trimmed(uncommented(ls[i]))
}

/// The text of an array that is open after `acc`, and the line after it: the lines from
/// `i` are put together up to the first that holds a closing bracket.
pub open spec fn gathered(ls: Seq<Seq<char>>, i: int, acc: Seq<char>) -> (Seq<char>, int)
    decreases ls.len() - i,
{
    if i >= ls.len() {
        (acc, i)
    } else {
        let l = line_body(ls, i);
        if l.len() == 0 {
            gathered(ls, i + 1, acc)
        } else if l.contains(']') {
            (acc + l, i + 1)
        } else {
            gathered(ls, i + 1, acc + l)
        }
    }
}

pub open spec fn is_open_array(s: Seq<char>) -> bool {
    s.len() > 0 && s[0] == '[' && s.last() != ']'
}

/// The value text that starts with `first` on line `i`, and the line after it.
pub open spec fn value_text(ls: Seq<Seq<char>>, i: int, first: Seq<char>) -> (Seq<char>, int) {
    if is_open_array(first) {
        gathered(ls, i + 1, first)
    } else {
        (first, i + 1)
    }
}

pub proof fn lemma_gathered_next(ls: Seq<Seq<char>>, i: int, acc: Seq<char>)
    ensures
        gathered(ls, i, acc).1 >= i,
        i <= ls.len() ==> gathered(ls, i, acc).1 <= ls.len(),
        acc.len() > 0 ==> gathered(ls, i, acc).0.len() > 0 && gathered(ls, i, acc).0[0] == acc[0],
    decreases ls.len() - i,
{
    if i < ls.len() {
        let l = line_body(ls, i);
        lemma_gathered_next(ls, i + 1, acc);
        lemma_gathered_next(ls, i + 1, acc + l);
    }
}

/// The entries of the lines from `i` on, in the table `table`.
pub open spec fn entries_from(ls: Seq<Seq<char>>, i: int, table: Seq<Seq<char>>) -> Result<
    Seq<EntryView>,
    Fault,
>
    decreases ls.len() - i,
    via entries_from_decreases
{
    if i >= ls.len() {
        Ok(Seq::empty())
    } else {
        let line = line_body(ls, i);
        if line.len() == 0 {
            entries_from(ls, i + 1, table)
        } else if line[0] == '[' {
            if line.last() != ']' {
                Err((i + 1, "表头未闭合: "@ + line))
            } else {
                entries_from(ls, i + 1, header_path(inside(line)))
            }
        } else {
            let eq = crate::text::index_of(line, '=');
            if eq >= line.len() {
                Err((i + 1, "缺 '=': "@ + line))
            } else {
                let key = crate::text::trimmed(line.take(eq));
                let (text, next) = value_text(ls, i, crate::text::trimmed(line.skip(eq + 1)));
                if key.len() == 0 {
                    Err((i + 1, "空键名: "@ + line))
                } else {
                    match value_view(text, i + 1) {
                        Ok(value) => prepend(
                            seq![EntryView { table, key, value }],
                            entries_from(ls, next, table),
                        ),
                        Err(e) => Err(e),
                    }
                }
            }
        }
    }
}

#[via_fn]
proof fn entries_from_decreases(ls: Seq<Seq<char>>, i: int, table: Seq<Seq<char>>) {
    if i < ls.len() {
        let line = line_body(ls, i);
        let eq = crate::text::index_of(line, '=');
        let first = crate::text::trimmed(line.skip(eq + 1));
        lemma_gathered_next(ls, i + 1, first);
    }
}

/// The entries of a file.
pub open spec fn parsed(src: Seq<char>) -> Result<Seq<EntryView>, Fault> {
    entries_from(crate::text::line_texts(src), 0, Seq::empty())
}

fn count(s: &[char], c: char) -> (r: usize)
    ensures
        r == count_of(s@, c),
{
    let mut n: usize = 0;
    let mut i: usize = 0;
    while i < s.len()
        invariant
            i <= s.len(),
            n <= i,
            n == count_of(s@.take(i as int), c),
        decreases s.len() - i,
    {
        assert(s@.take(i + 1).drop_last() =~= s@.take(i as int));
        if s[i] == c {
            n = n + 1;
        }
        i = i + 1;
    }
    assert(s@.take(s@.len() as int) =~= s@);
    n
}

fn strip_comment<'a>(line: &'a [char]) -> (r: &'a [char])
    ensures
        r@ == uncommented(line@),
{
    let p: usize = find(line, '#');
    if p < line.len() && count(head(line, p), '"') % 2 == 0 {
        head(line, p)
    } else {
        line
    }
}

/// The trimmed parts of `s` at `c` that are not empty.
pub(crate) fn split_trimmed<'a>(s: &'a [char], c: char) -> (r: Vec<&'a [char]>)
    ensures
        slice_texts(r@) == trimmed_non_empty(crate::text::pieces(s@, c)),
{
    let parts: Vec<&'a [char]> = split(s, c);
    let ghost ps = slice_texts(parts@);
    let mut out: Vec<&'a [char]> = Vec::new();
    let mut i: usize = 0;
    assert(slice_texts(out@) =~= trimmed_non_empty(ps.take(0)));
    while i < parts.len()
        invariant
            i <= parts.len(),
            ps == slice_texts(parts@),
            slice_texts(out@) == trimmed_non_empty(ps.take(i as int)),
        decreases parts.len() - i,
    {
        let t: &'a [char] = trim(parts[i]);
        let ghost done = out@;
        assert(ps.take(i + 1).drop_last() =~= ps.take(i as int));
        if t.len() > 0 {
            out.push(t);
            assert(slice_texts(out@) =~= slice_texts(done).push(t@));
        }
        i = i + 1;
    }
    assert(ps.take(ps.len() as int) =~= ps);
    out
}

/// Appends the segments of an unquoted stretch.
fn push_bare(out: &mut Vec<String>, s: &[char])
    ensures
        texts(final(out)@) == texts(old(out)@) + bare_segments(s@),
{
    let segs: Vec<&[char]> = split_trimmed(s, '.');
    let ghost before = texts(out@);
    let ghost ss = slice_texts(segs@);
    let mut i: usize = 0;
    assert(before + ss.take(0) =~= before);
    while i < segs.len()
        invariant
            i <= segs.len(),
            ss == slice_texts(segs@),
            texts(out@) == before + ss.take(i as int),
        decreases segs.len() - i,
    {
        let ghost done = texts(out@);
        out.push(string_of(segs[i]));
        assert(texts(out@) =~= done.push(ss[i as int]));
        assert(texts(out@) =~= before + ss.take(i + 1));
        i = i + 1;
    }
    assert(ss.take(ss.len() as int) =~= ss);
}

fn split_table_header(inner: &[char]) -> (r: Vec<String>)
    ensures
        texts(r@) == header_path(inner@),
{
    let mut out: Vec<String> = Vec::new();
    let mut rest: &[char] = inner;
    assert(texts(out@) + header_path(inner@) =~= header_path(inner@));
    loop
        invariant_except_break
            header_path(inner@) == texts(out@) + header_path(rest@),
        ensures
            texts(out@) == header_path(inner@),
        decreases rest.len(),
    {
        let q: usize = find(rest, '"');
        let ghost done = texts(out@);
        if q < rest.len() {
            push_bare(&mut out, head(rest, q));
            let after: &[char] = tail(rest, q + 1);
            let e: usize = find(after, '"');
            if e < after.len() {
                let ghost mid = texts(out@);
                out.push(string_of(head(after, e)));
                assert(texts(out@) =~= mid.push(after@.take(e as int)));
                assert(texts(out@) + header_path(after@.skip(e + 1)) =~= done + header_path(
                    rest@,
                ));
                rest = tail(after, e + 1);
            } else {
                push_bare(&mut out, tail(rest, q));
                assert(texts(out@) =~= done + header_path(rest@));
                break;
            }
        } else {
            push_bare(&mut out, rest);
            break;
        }
    }
    out
}

/// Resolves the escapes in the text of a quoted string.
pub fn unescape(s: &[char], lineno: usize) -> (r: Result<String, (usize, String)>)
    ensures
        match r {
            Ok(t) => unescaped(s@, lineno as int) == Ok::<Seq<char>, Fault>(t@),
            Err(e) => unescaped(s@, lineno as int) == Err::<Seq<char>, Fault>((e.0 as int, e.1@)),
        },
{
    let mut out: String = String::new();
    let mut i: usize = 0;
    let ghost all = unescaped(s@, lineno as int);
    assert(s@.skip(0) =~= s@);
    assert(prepend(out@, all) == all) by {
        if all is Ok {
            assert(out@ + all->Ok_0 =~= all->Ok_0);
        }
    }
    while i < s.len()
        invariant
            i <= s.len(),
            all == unescaped(s@, lineno as int),
            all == prepend(out@, unescaped(s@.skip(i as int), lineno as int)),
        decreases s.len() - i,
    {
        let c: char = s[i];
        let ghost done = out@;
        let ghost rest = s@.skip(i as int);
        if c == '\\' {
            if i + 1 == s.len() {
                let msg: String = String::from_str("结尾反斜杠");
                return Err((lineno, msg));
            }
            let d: char = s[i + 1];
            if d == '"' || d == '\\' {
                out.push(d);
            } else if d == 'n' {
                out.push('\n');
            } else if d == 't' {
                out.push('\t');
            } else {
                let mut msg: String = String::from_str("不支持的转义: \\");
                msg.push(d);
                assert(msg@ =~= "不支持的转义: \\"@ + seq![d]);
                return Err((lineno, msg));
            }
            assert(rest.skip(2) =~= s@.skip(i + 2));
            i = i + 2;
        } else {
            out.push(c);
            assert(rest.skip(1) =~= s@.skip(i + 1));
            i = i + 1;
        }
        proof {
            let tail = unescaped(s@.skip(i as int), lineno as int);
            if tail is Ok {
                assert(done + (seq![out@.last()] + tail->Ok_0) =~= out@ + tail->Ok_0);
            }
        }
    }
    assert(s@.skip(i as int).len() == 0);
    assert(out@ + s@.skip(i as int) =~= out@);
    Ok(out)
}

/// A message followed by a text.
fn message(head: &str, s: &[char]) -> (r: String)
    ensures
        r@ == head@ + s@,
{
    let mut msg: String = String::from_str(head);
    let t: String = string_of(s);
    msg.append(t.as_str());
    msg
}

fn quoted(s: &[char]) -> (r: bool)
    ensures
        r == is_quoted(s@),
{
    s.len() >= 2 && s[0] == '"' && s[s.len() - 1] == '"'
}

fn parse_items(parts: &Vec<&[char]>, lineno: usize) -> (r: Result<Vec<String>, (usize, String)>)
    ensures
        match r {
            Ok(v) => array_items(slice_texts(parts@), lineno as int) == Ok::<
                Seq<Seq<char>>,
                Fault,
            >(texts(v@)),
            Err(e) => array_items(slice_texts(parts@), lineno as int) == Err::<
                Seq<Seq<char>>,
                Fault,
            >((e.0 as int, e.1@)),
        },
{
    let mut items: Vec<String> = Vec::new();
    let mut i: usize = 0;
    let ghost ps = slice_texts(parts@);
    let ghost all = array_items(ps, lineno as int);
    assert(ps.skip(0) =~= ps);
    assert(prepend(texts(items@), all) == all) by {
        if all is Ok {
            assert(texts(items@) + all->Ok_0 =~= all->Ok_0);
        }
    }
    while i < parts.len()
        invariant
            i <= parts.len(),
            ps == slice_texts(parts@),
            all == array_items(ps, lineno as int),
            all == prepend(texts(items@), array_items(ps.skip(i as int), lineno as int)),
        decreases parts.len() - i,
    {
        let p: &[char] = parts[i];
        let ghost done = texts(items@);
        assert(ps.skip(i as int)[0] == p@);
        assert(ps.skip(i as int).skip(1) =~= ps.skip(i + 1));
        if !quoted(p) {
            return Err((lineno, message("数组元素须为双引号字符串: ", p)));
        }
        match unescape(part(p, 1, p.len() - 1), lineno) {
            Ok(item) => {
                items.push(item);
                assert(texts(items@) =~= done.push(item@));
                proof {
                    let tail = array_items(ps.skip(i + 1), lineno as int);
                    if tail is Ok {
                        assert(done + (seq![item@] + tail->Ok_0) =~= texts(items@) + tail->Ok_0);
                    }
                }
            },
            Err(e) => {
                return Err(e);
            },
        }
        i = i + 1;
    }
    assert(texts(items@) + ps.skip(i as int) =~= texts(items@));
    Ok(items)
}

fn parse_value(s: &[char], lineno: usize) -> (r: Result<TomlValue, (usize, String)>)
    ensures
        match r {
            Ok(v) => value_view(s@, lineno as int) == Ok::<ValueView, Fault>(v@),
            Err(e) => value_view(s@, lineno as int) == Err::<ValueView, Fault>(
                (e.0 as int, e.1@),
            ),
        },
{
    if s.len() == 0 {
        return Err((lineno, String::from_str("空值")));
    }
    let n: usize = s.len();
    if s[0] == '[' {
        if s[n - 1] != ']' {
            return Err((lineno, message("数组未闭合: ", s)));
        }
        let parts: Vec<&[char]> = split_trimmed(trim(part(s, 1, n - 1)), ',');
        return match parse_items(&parts, lineno) {
            Ok(items) => Ok(TomlValue::StrArray(items)),
            Err(e) => Err(e),
        };
    }
    if s[0] == '"' {
        if !quoted(s) {
            return Err((lineno, message("字符串未闭合: ", s)));
        }
        return match unescape(part(s, 1, n - 1), lineno) {
            Ok(t) => Ok(TomlValue::Str(t)),
            Err(e) => Err(e),
        };
    }
    if same(s, "true") {
        return Ok(TomlValue::Bool(true));
    }
    if same(s, "false") {
        return Ok(TomlValue::Bool(false));
    }
    match parse_i64(s) {
        Some(v) => Ok(TomlValue::Int(v)),
        None => Err((lineno, message("不支持的值类型: ", s))),
    }
}

/// Reads the rest of an array that spans lines; gives its text and the line after it.
fn gather(ls: &Vec<&[char]>, from: usize, first: &[char]) -> (r: (Vec<char>, usize))
    requires
        from <= ls.len(),
    ensures
        (r.0@, r.1 as int) == gathered(slice_texts(ls@), from as int, first@),
{
    let ghost texts_ = slice_texts(ls@);
    let mut acc: Vec<char> = Vec::new();
    push_all(&mut acc, first);
    let mut i: usize = from;
    assert(acc@ =~= first@);
    while i < ls.len()
        invariant
            i <= ls.len(),
            texts_ == slice_texts(ls@),
            gathered(texts_, from as int, first@) == gathered(texts_, i as int, acc@),
        decreases ls.len() - i,
    {
        let l: &[char] = trim(strip_comment(ls[i]));
        assert(l@ == line_body(texts_, i as int));
        i = i + 1;
        if l.len() > 0 {
            push_all(&mut acc, l);
            let p: usize = find(l, ']');
            proof {
                crate::text::lemma_index_of(l@, ']');
            }
            if p < l.len() {
                assert(l@[p as int] == ']');
                return (acc, i);
            }
            assert(!l@.contains(']'));
        }
    }
    (acc, i)
}

fn push_all(acc: &mut Vec<char>, s: &[char])
    ensures
        final(acc)@ == old(acc)@ + s@,
{
    let ghost before = acc@;
    let mut i: usize = 0;
    while i < s.len()
        invariant
            i <= s.len(),
            acc@ == before + s@.take(i as int),
        decreases s.len() - i,
    {
        acc.push(s[i]);
        i = i + 1;
        assert(acc@ =~= before + s@.take(i as int));
    }
    assert(acc@ =~= before + s@);
}

fn clone_path(v: &Vec<String>) -> (r: Vec<String>)
    ensures
        texts(r@) == texts(v@),
{
    let mut out: Vec<String> = Vec::new();
    let mut i: usize = 0;
    while i < v.len()
        invariant
            i <= v.len(),
            texts(out@) == texts(v@).take(i as int),
        decreases v.len() - i,
    {
        let ghost done = texts(out@);
        out.push(v[i].clone());
        assert(texts(out@) =~= done.push(v@[i as int]@));
        assert(texts(out@) =~= texts(v@).take(i + 1));
        i = i + 1;
    }
    assert(texts(v@).take(v@.len() as int) =~= texts(v@));
    out
}

/// Parses a whole file: its entries in order, or the first error with its line.
pub fn parse(src: &str) -> (r: Result<Vec<TomlEntry>, (usize, String)>)
    ensures
        match r {
            Ok(v) => parsed(src@) == Ok::<Seq<EntryView>, Fault>(entry_views(v@)),
            Err(e) => parsed(src@) == Err::<Seq<EntryView>, Fault>((e.0 as int, e.1@)),
        },
{
    let chars: Vec<char> = chars_of(src);
    let ls: Vec<&[char]> = lines(chars.as_slice());
    let ghost lt = slice_texts(ls@);
    let ghost all = parsed(src@);
    let mut out: Vec<TomlEntry> = Vec::new();
    let mut table: Vec<String> = Vec::new();
    let mut i: usize = 0;
    assert(texts(table@) =~= Seq::empty());
    assert(prepend(entry_views(out@), all) == all) by {
        if all is Ok {
            assert(entry_views(out@) + all->Ok_0 =~= all->Ok_0);
        }
    }
    while i < ls.len()
        invariant
            i <= ls.len(),
            lt == slice_texts(ls@),
            all == parsed(src@),
            all == prepend(entry_views(out@), entries_from(lt, i as int, texts(table@))),
        decreases ls.len() - i,
    {
        let lineno: usize = i + 1;
        let line: &[char] = trim(strip_comment(ls[i]));
        assert(line@ == line_body(lt, i as int));
        if line.len() == 0 {
            i = i + 1;
        } else if line[0] == '[' {
            if line[line.len() - 1] != ']' {
                return Err((lineno, message("表头未闭合: ", line)));
            }
            table = split_table_header(part(line, 1, line.len() - 1));
            i = i + 1;
        } else {
            let eq: usize = find(line, '=');
            if eq >= line.len() {
                return Err((lineno, message("缺 '=': ", line)));
            }
            let key: &[char] = trim(head(line, eq));
            if key.len() == 0 {
                return Err((lineno, message("空键名: ", line)));
            }
            let first: &[char] = trim(tail(line, eq + 1));
            let mut value: Result<TomlValue, (usize, String)> = parse_value(first, lineno);
            let mut next: usize = i + 1;
            if first.len() > 0 && first[0] == '[' && first[first.len() - 1] != ']' {
                let (text, after) = gather(&ls, i + 1, first);
                proof {
                    lemma_gathered_next(lt, i + 1, first@);
                }
                value = parse_value(text.as_slice(), lineno);
                next = after;
            }
            match value {
                Ok(v) => {
                    let ghost done = entry_views(out@);
                    let ghost tp = texts(table@);
                    let entry = TomlEntry { table: clone_path(&table), key: string_of(key), value: v };
                    let ghost ev = entry@;
                    out.push(entry);
                    assert(entry_views(out@) =~= done.push(ev));
                    proof {
                        let rest = entries_from(lt, next as int, tp);
                        if rest is Ok {
                            assert(done + (seq![ev] + rest->Ok_0) =~= entry_views(out@)
                                + rest->Ok_0);
                        }
                    }
                },
                Err(e) => {
                    return Err(e);
                },
            }
            i = next;
        }
    }
    assert(entry_views(out@) + Seq::<EntryView>::empty() =~= entry_views(out@));
    Ok(out)
}

} // verus!

//! What holds of files in the configuration format whatever they say.

use vstd::prelude::*;
use crate::text::{
    dec, index_of, is_digit, is_space, law_dec_reads_back, lemma_dec_value, lemma_index_of,
    lemma_index_of_at, lemma_trimmed_ends, lemma_trimmed_fixed, line_texts, pieces, trimmed,
    trimmed_end, trimmed_start, without_last,
};
use crate::toml::{
    array_items, entries_from, escape_char, gathered, header_path, inside, is_open_array,
    lemma_gathered_next, line_body, parsed, trimmed_non_empty, uncommented, unescaped, value_text,
    value_view, EntryView, Fault, ValueView,
};

verus! {

// ---- Escapes ----

/// A backslash at the end of a string, or before a character that it does not go with, is an
/// error on the line of the string, wherever it stands among plain characters.
pub proof fn law_bad_escape_is_an_error(before: Seq<char>, after: Seq<char>, lineno: int)
    requires
        forall|i: int| 0 <= i < before.len() ==> before[i] != '\\',
        after.len() == 0 || escape_char(after[0]) is None,
    ensures
        unescaped(before + seq!['\\'] + after, lineno) matches Err(f) && f.0 == lineno,
    decreases before.len(),
{
    let s = before + seq!['\\'] + after;
    if before.len() > 0 {
        assert(s.skip(1) =~= before.skip(1) + seq!['\\'] + after);
        law_bad_escape_is_an_error(before.skip(1), after, lineno);
    } else {
        assert(s[0] == '\\');
        if after.len() > 0 {
            assert(s[1] == after[0]);
        }
    }
}

// ---- Results that agree but for the line of an error ----

/// The same success, or the same complaint about a line that is at most one further down.
pub open spec fn agree<T>(a: Result<T, Fault>, b: Result<T, Fault>) -> bool {
    match (a, b) {
        (Ok(x), Ok(y)) => x == y,
        (Err(f), Err(g)) => f.1 == g.1 && g.0 <= f.0 <= g.0 + 1,
        _ => false,
    }
}

proof fn lemma_unescaped_line(s: Seq<char>, a: int, b: int)
    requires
        b <= a <= b + 1,
    ensures
        agree(unescaped(s, a), unescaped(s, b)),
        unescaped(s, a) matches Err(f) ==> f.0 == a,
    decreases s.len(),
{
    if s.len() > 0 {
        if s[0] != '\\' {
            lemma_unescaped_line(s.skip(1), a, b);
        } else if s.len() > 1 && escape_char(s[1]) is Some {
            lemma_unescaped_line(s.skip(2), a, b);
        }
    }
}

proof fn lemma_items_line(parts: Seq<Seq<char>>, a: int, b: int)
    requires
        b <= a <= b + 1,
    ensures
        agree(array_items(parts, a), array_items(parts, b)),
        array_items(parts, a) matches Err(f) ==> f.0 == a,
    decreases parts.len(),
{
    if parts.len() > 0 {
        lemma_unescaped_line(inside(parts[0]), a, b);
        lemma_items_line(parts.skip(1), a, b);
    }
}

proof fn lemma_value_line(s: Seq<char>, a: int, b: int)
    requires
        b <= a <= b + 1,
    ensures
        agree(value_view(s, a), value_view(s, b)),
        value_view(s, a) matches Err(f) ==> f.0 == a,
{
    lemma_unescaped_line(inside(s), a, b);
    lemma_items_line(
        trimmed_non_empty(crate::text::pieces(crate::text::trimmed(inside(s)), ',')),
        a,
        b,
    );
}

// ---- One more line that says nothing ----

/// A line that says nothing: blank, or only a comment.
pub open spec fn says_nothing(line: Seq<char>) -> bool {
    trimmed(uncommented(line)).len() == 0
}

proof fn lemma_lines_moved(ls: Seq<Seq<char>>, k: int, b: Seq<char>, i: int)
    requires
        0 <= k <= ls.len(),
    ensures
        0 <= i < k ==> line_body(ls.insert(k, b), i) == line_body(ls, i),
        k <= i < ls.len() ==> line_body(ls.insert(k, b), i + 1) == line_body(ls, i),
        ls.insert(k, b).len() == ls.len() + 1,
        ls.insert(k, b)[k] == b,
{
}

/// Below the new line nothing changes but the numbers of the lines.
proof fn lemma_gathered_below(ls: Seq<Seq<char>>, k: int, b: Seq<char>, i: int, acc: Seq<char>)
    requires
        0 <= k <= i <= ls.len(),
    ensures
        gathered(ls.insert(k, b), i + 1, acc) == (
            gathered(ls, i, acc).0,
            gathered(ls, i, acc).1 + 1,
        ),
    decreases ls.len() - i,
{
    lemma_lines_moved(ls, k, b, i);
    if i < ls.len() {
        lemma_gathered_below(ls, k, b, i + 1, acc);
        lemma_gathered_below(ls, k, b, i + 1, acc + line_body(ls, i));
    }
}

proof fn lemma_gathered_above(ls: Seq<Seq<char>>, k: int, b: Seq<char>, i: int, acc: Seq<char>)
    requires
        0 <= i <= k <= ls.len(),
        says_nothing(b),
    ensures
        ({
            let (t, n) = gathered(ls, i, acc);
            let (t2, n2) = gathered(ls.insert(k, b), i, acc);
            &&& t2 == t
            &&& (n <= k && n2 == n) || (n >= k && n2 == n + 1)
        }),
    decreases k - i,
{
    lemma_lines_moved(ls, k, b, i);
    if i == k {
        assert(line_body(ls.insert(k, b), k).len() == 0);
        lemma_gathered_below(ls, k, b, k, acc);
        lemma_gathered_next(ls, k, acc);
    } else {
        lemma_gathered_above(ls, k, b, i + 1, acc);
        lemma_gathered_above(ls, k, b, i + 1, acc + line_body(ls, i));
    }
}

proof fn lemma_entries_below(
    ls: Seq<Seq<char>>,
    k: int,
    b: Seq<char>,
    i: int,
    table: Seq<Seq<char>>,
)
    requires
        0 <= k <= i <= ls.len(),
    ensures
        agree(entries_from(ls.insert(k, b), i + 1, table), entries_from(ls, i, table)),
    decreases ls.len() - i,
{
    let m = ls.insert(k, b);
    lemma_lines_moved(ls, k, b, i);
    if i < ls.len() {
        let line = line_body(ls, i);
        if line.len() == 0 {
            lemma_entries_below(ls, k, b, i + 1, table);
        } else if line[0] == '[' {
            lemma_entries_below(ls, k, b, i + 1, crate::toml::header_path(inside(line)));
        } else {
            let eq = index_of(line, '=');
            let first = trimmed(line.skip(eq + 1));
            let (text, next) = value_text(ls, i, first);
            lemma_gathered_next(ls, i + 1, first);
            lemma_gathered_below(ls, k, b, i + 1, first);
            assert(value_text(m, i + 1, first) == (text, next + 1));
            lemma_value_line(text, i + 2, i + 1);
            lemma_entries_below(ls, k, b, next, table);
        }
    }
}

proof fn lemma_entries_above(
    ls: Seq<Seq<char>>,
    k: int,
    b: Seq<char>,
    i: int,
    table: Seq<Seq<char>>,
)
    requires
        0 <= i <= k <= ls.len(),
        says_nothing(b),
    ensures
        agree(entries_from(ls.insert(k, b), i, table), entries_from(ls, i, table)),
    decreases k - i,
{
    let m = ls.insert(k, b);
    lemma_lines_moved(ls, k, b, i);
    if i == k {
        assert(line_body(m, k).len() == 0);
        lemma_entries_below(ls, k, b, k, table);
    } else {
        let line = line_body(ls, i);
        if line.len() == 0 {
            lemma_entries_above(ls, k, b, i + 1, table);
        } else if line[0] == '[' {
            lemma_entries_above(ls, k, b, i + 1, crate::toml::header_path(inside(line)));
        } else {
            let eq = index_of(line, '=');
            let first = trimmed(line.skip(eq + 1));
            let (text, next) = value_text(ls, i, first);
            lemma_gathered_next(ls, i + 1, first);
            lemma_gathered_above(ls, k, b, i + 1, first);
            let (text2, next2) = value_text(m, i, first);
            assert(text2 == text);
            lemma_value_line(text, i + 1, i + 1);
            if next2 == next && next <= k {
                lemma_entries_above(ls, k, b, next, table);
            } else {
                lemma_entries_below(ls, k, b, next, table);
            }
        }
    }
}

/// A blank line or a line with only a comment, put anywhere between the lines of a file, before
/// the first or after the last, also within an array that spans lines, changes no entry and no
/// order; and where the file has an error it stays the same error, on the same line or the one
/// below.
pub proof fn law_blank_lines_say_nothing(ls: Seq<Seq<char>>, k: int, b: Seq<char>)
    requires
        0 <= k <= ls.len(),
        says_nothing(b),
    ensures
        agree(
            entries_from(ls.insert(k, b), 0, Seq::empty()),
            entries_from(ls, 0, Seq::empty()),
        ),
{
    lemma_entries_above(ls, k, b, 0, Seq::empty());
}

/// A text that ends where a line does.
pub open spec fn ends_line(s: Seq<char>) -> bool {
    s.len() == 0 || s.last() == '\n'
}

/// The lines of two texts put together are the lines of both, where the first ends a line.
proof fn lemma_lines_of_both(a: Seq<char>, c: Seq<char>)
    requires
        ends_line(a),
    ensures
        line_texts(a + c) == line_texts(a) + line_texts(c),
    decreases a.len(),
{
    if a.len() == 0 {
        assert(a + c =~= c);
        assert(line_texts(a) + line_texts(c) =~= line_texts(c));
    } else {
        lemma_index_of(a, '\n');
        let p = index_of(a, '\n');
        assert(a[a.len() - 1] == '\n');
        assert((a + c).take(p) =~= a.take(p));
        lemma_index_of_at(a + c, '\n', p);
        assert((a + c).skip(p + 1) =~= a.skip(p + 1) + c);
        lemma_lines_of_both(a.skip(p + 1), c);
        assert(line_texts(a + c) =~= line_texts(a) + line_texts(c));
    }
}

proof fn lemma_one_line(row: Seq<char>)
    requires
        !row.contains('\n'),
    ensures
        line_texts(row.push('\n')) == seq![without_last(row, '\r')],
{
    let s = row.push('\n');
    assert forall|i: int| 0 <= i < row.len() implies s[i] != '\n' by {
        assert(row.contains(row[i]));
    }
    lemma_index_of_at(s, '\n', row.len() as int);
    assert(s.take(row.len() as int) =~= row);
    assert(s.skip(row.len() as int + 1) =~= Seq::empty());
    assert(index_of(Seq::<char>::empty(), '\n') == 0);
    assert(line_texts(Seq::<char>::empty()) =~= Seq::empty());
    assert(line_texts(s) =~= seq![without_last(row, '\r')]);
}

/// The same of texts: a row that says nothing may be added wherever a line ends or begins.
pub proof fn law_blank_rows_say_nothing(a: Seq<char>, row: Seq<char>, c: Seq<char>)
    requires
        ends_line(a),
        !row.contains('\n'),
        says_nothing(without_last(row, '\r')),
    ensures
        agree(parsed(a + row.push('\n') + c), parsed(a + c)),
{
    let b = without_last(row, '\r');
    let k = line_texts(a).len() as int;
    lemma_lines_of_both(a, c);
    lemma_lines_of_both(row.push('\n'), c);
    lemma_lines_of_both(a, row.push('\n') + c);
    lemma_one_line(row);
    assert(a + row.push('\n') + c =~= a + (row.push('\n') + c));
    let ls = line_texts(a) + line_texts(c);
    assert(line_texts(a) + (seq![b] + line_texts(c)) =~= ls.insert(k, b));
    law_blank_lines_say_nothing(ls, k, b);
}

proof fn lemma_same_gathered(l: Seq<Seq<char>>, m: Seq<Seq<char>>, i: int, acc: Seq<char>)
    requires
        l.len() == m.len(),
        forall|j: int| 0 <= j < l.len() ==> #[trigger] line_body(l, j) == line_body(m, j),
        0 <= i,
    ensures
        gathered(l, i, acc) == gathered(m, i, acc),
    decreases l.len() - i,
{
    if i < l.len() {
        assert(line_body(l, i) == line_body(m, i));
        lemma_same_gathered(l, m, i + 1, acc);
        lemma_same_gathered(l, m, i + 1, acc + line_body(l, i));
    }
}

/// Only what the lines say counts, not the white space around it.
proof fn lemma_same_entries(
    l: Seq<Seq<char>>,
    m: Seq<Seq<char>>,
    i: int,
    table: Seq<Seq<char>>,
)
    requires
        l.len() == m.len(),
        forall|j: int| 0 <= j < l.len() ==> #[trigger] line_body(l, j) == line_body(m, j),
        0 <= i,
    ensures
        entries_from(l, i, table) == entries_from(m, i, table),
    decreases l.len() - i,
{
    if i < l.len() {
        let line = line_body(l, i);
        assert(line == line_body(m, i));
        if line.len() == 0 {
            lemma_same_entries(l, m, i + 1, table);
        } else if line[0] == '[' {
            lemma_same_entries(l, m, i + 1, crate::toml::header_path(inside(line)));
        } else {
            let eq = index_of(line, '=');
            let first = trimmed(line.skip(eq + 1));
            let (text, next) = value_text(l, i, first);
            lemma_gathered_next(l, i + 1, first);
            lemma_same_gathered(l, m, i + 1, first);
            lemma_same_entries(l, m, next, table);
        }
    }
}

proof fn lemma_trimmed_start_push(s: Seq<char>, c: char)
    requires
        is_space(c),
    ensures
        trimmed_end(trimmed_start(s.push(c))) == trimmed_end(trimmed_start(s)),
    decreases s.len(),
{
    let t = s.push(c);
    if s.len() == 0 {
        assert(t.skip(1) =~= s);
    } else if is_space(s[0]) {
        assert(t.skip(1) =~= s.skip(1).push(c));
        lemma_trimmed_start_push(s.skip(1), c);
    } else {
        assert(t.drop_last() =~= s);
    }
}

/// A carriage return at the end of a line says nothing.
proof fn lemma_return_says_nothing(row: Seq<char>)
    ensures
        trimmed(uncommented(without_last(row, '\r'))) == trimmed(uncommented(row)),
{
    if row.len() > 0 && row.last() == '\r' {
        let s = row.drop_last();
        assert(s.push('\r') =~= row);
        lemma_index_of(row, '#');
        let p = index_of(row, '#');
        if p < row.len() {
            assert(row[row.len() - 1] == '\r');
            lemma_index_of_at(s, '#', p);
            assert(s.take(p) =~= row.take(p));
        } else {
            lemma_index_of_at(s, '#', s.len() as int);
        }
        lemma_trimmed_start_push(s, '\r');
    }
}

/// A newline after a last line that lacks it makes no difference to what the lines say.
proof fn lemma_closed_line(a: Seq<char>)
    requires
        !ends_line(a),
    ensures
        line_texts(a.push('\n')).len() == line_texts(a).len(),
        forall|j: int|
            0 <= j < line_texts(a).len() ==> #[trigger] line_body(line_texts(a.push('\n')), j)
                == line_body(line_texts(a), j),
    decreases a.len(),
{
    let l = line_texts(a.push('\n'));
    let m = line_texts(a);
    lemma_index_of(a, '\n');
    let p = index_of(a, '\n');
    if p < a.len() {
        let rest = a.skip(p + 1);
        assert(a.push('\n').take(p) =~= a.take(p));
        lemma_index_of_at(a.push('\n'), '\n', p);
        assert(a.push('\n').skip(p + 1) =~= rest.push('\n'));
        lemma_closed_line(rest);
        assert forall|j: int| 0 <= j < m.len() implies #[trigger] line_body(l, j) == line_body(
            m,
            j,
        ) by {
            if j > 0 {
                assert(l[j] == line_texts(rest.push('\n'))[j - 1]);
                assert(m[j] == line_texts(rest)[j - 1]);
                assert(line_body(line_texts(rest.push('\n')), j - 1) == line_body(
                    line_texts(rest),
                    j - 1,
                ));
            }
        }
    } else {
        assert(!a.contains('\n'));
        lemma_one_line(a);
        lemma_return_says_nothing(a);
    }
}

/// The same after the last line where that has no end: a row that says nothing may follow, or
/// only the end.
pub proof fn law_blank_row_at_the_end(a: Seq<char>, row: Seq<char>)
    requires
        !ends_line(a),
        !row.contains('\n'),
        says_nothing(row),
    ensures
        agree(parsed(a.push('\n') + row), parsed(a)),
{
    let l = line_texts(a.push('\n'));
    let m = line_texts(a);
    lemma_closed_line(a);
    lemma_same_entries(l, m, 0, Seq::empty());
    lemma_lines_of_both(a.push('\n'), row);
    if row.len() == 0 {
        assert(a.push('\n') + row =~= a.push('\n'));
    } else {
        lemma_index_of(row, '\n');
        if index_of(row, '\n') < row.len() {
            assert(row.contains(row[index_of(row, '\n')]));
        }
        assert(line_texts(row) =~= seq![row]);
        assert(l + seq![row] =~= l.insert(l.len() as int, row));
        law_blank_lines_say_nothing(l, l.len() as int, row);
    }
}

// ---- The line of an error ----

proof fn lemma_fault_line(ls: Seq<Seq<char>>, i: int, table: Seq<Seq<char>>)
    requires
        0 <= i <= ls.len(),
    ensures
        entries_from(ls, i, table) matches Err(f) ==> i < f.0 <= ls.len(),
    decreases ls.len() - i,
{
    if i < ls.len() {
        let line = line_body(ls, i);
        if line.len() == 0 {
            lemma_fault_line(ls, i + 1, table);
        } else if line[0] == '[' {
            lemma_fault_line(ls, i + 1, crate::toml::header_path(inside(line)));
        } else {
            let eq = index_of(line, '=');
            let first = trimmed(line.skip(eq + 1));
            let (text, next) = value_text(ls, i, first);
            lemma_gathered_next(ls, i + 1, first);
            lemma_value_line(text, i + 1, i + 1);
            lemma_fault_line(ls, next, table);
        }
    }
}

/// An error names a line of the file, counted from one.
pub proof fn law_errors_name_a_line(src: Seq<char>)
    ensures
        parsed(src) matches Err(f) ==> 1 <= f.0 <= line_texts(src).len(),
{
    lemma_fault_line(line_texts(src), 0, Seq::empty());
}

// ---- What is written is read ----

/// How a text is written between quotes.
pub open spec fn written(t: Seq<char>) -> Seq<char>
    decreases t.len(),
{
    if t.len() == 0 {
        t
    } else {
        let c = t[0];
        (if c == '"' || c == '\\' {
            seq!['\\', c]
        } else if c == '\n' {
            seq!['\\', 'n']
        } else if c == '\t' {
            seq!['\\', 't']
        } else {
            seq![c]
        }) + written(t.skip(1))
    }
}

/// A text that is written between quotes is read as it was.
pub proof fn law_texts_read_back(t: Seq<char>, lineno: int)
    ensures
        unescaped(written(t), lineno) == Ok::<Seq<char>, Fault>(t),
    decreases t.len(),
{
    let w = written(t);
    if t.len() > 0 {
        let c = t[0];
        let r = t.skip(1);
        law_texts_read_back(r, lineno);
        if c == '"' || c == '\\' || c == '\n' || c == '\t' {
            assert(w.skip(2) =~= written(r));
            assert(seq![c] + r =~= t);
        } else {
            assert(w.skip(1) =~= written(r));
            assert(seq![c] + r =~= t);
        }
    }
}

/// Numbers, negative ones too, switches and quoted texts are read as what they are.
pub proof fn law_values_read_back(n: nat, t: Seq<char>, lineno: int)
    requires
        n <= i64::MAX,
    ensures
        value_view(dec(n), lineno) == Ok::<ValueView, Fault>(ValueView::Int(n as int)),
        value_view(seq!['-'] + dec(n), lineno) == Ok::<ValueView, Fault>(ValueView::Int(-(n as int))),
        value_view("true"@, lineno) == Ok::<ValueView, Fault>(ValueView::Bool(true)),
        value_view("false"@, lineno) == Ok::<ValueView, Fault>(ValueView::Bool(false)),
        value_view(seq!['"'] + written(t) + seq!['"'], lineno) == Ok::<ValueView, Fault>(
            ValueView::Str(t),
        ),
{
    lemma_dec_value(n);
    law_dec_reads_back(n, i64::MAX as int);
    law_texts_read_back(t, lineno);
    reveal_strlit("true");
    reveal_strlit("false");
    assert("true"@.len() == 4 && "false"@.len() == 5);
    let d = dec(n);
    assert(is_digit(d[0]));
    assert(d != "true"@ && d != "false"@) by {
        assert("true"@[0] == 't' && "false"@[0] == 'f');
    }
    let m = seq!['-'] + d;
    assert(m[0] == '-');
    assert(m.skip(1) =~= d);
    assert(m != "true"@ && m != "false"@) by {
        assert("true"@[0] == 't' && "false"@[0] == 'f');
    }
    let q = seq!['"'] + written(t) + seq!['"'];
    assert(inside(q) =~= written(t));
}

/// A line with a key, an equals sign and a value is an entry of the table that it stands in.
pub proof fn law_entries_are_read(
    key: Seq<char>,
    text: Seq<char>,
    value: ValueView,
    table: Seq<Seq<char>>,
)
    requires
        key.len() > 0 && trimmed(key) == key && key[0] != '[',
        forall|i: int| 0 <= i < key.len() ==> key[i] != '=' && key[i] != '#',
        text.len() > 0 && trimmed(text) == text && !is_open_array(text),
        forall|i: int| 0 <= i < text.len() ==> text[i] != '#',
        value_view(text, 1) == Ok::<ValueView, Fault>(value),
    ensures
        entries_from(seq![key + seq!['='] + text], 0, table) == Ok::<Seq<EntryView>, Fault>(
            seq![EntryView { table, key, value }],
        ),
{
    let row = key + seq!['='] + text;
    let ls = seq![row];
    assert forall|i: int| 0 <= i < row.len() implies row[i] != '#' by {
        if i < key.len() {
            assert(row[i] == key[i]);
        } else if i > key.len() {
            assert(row[i] == text[i - key.len() - 1]);
        }
    }
    lemma_index_of_at(row, '#', row.len() as int);
    assert(uncommented(row) == row);
    lemma_trimmed_ends(key);
    lemma_trimmed_ends(text);
    assert(row[0] == key[0] && row.last() == text.last());
    lemma_trimmed_fixed(row);
    assert(line_body(ls, 0) == row);
    assert forall|i: int| 0 <= i < key.len() implies row[i] != '=' by {
        assert(row[i] == key[i]);
    }
    lemma_index_of_at(row, '=', key.len() as int);
    assert(row.take(key.len() as int) =~= key);
    assert(row.skip(key.len() as int + 1) =~= text);
    assert(entries_from(ls, 1, table) == Ok::<Seq<EntryView>, Fault>(Seq::empty()));
    assert(seq![EntryView { table, key, value }] + Seq::<EntryView>::empty() =~= seq![
        EntryView { table, key, value },
    ]);
}

/// A line with a name in brackets opens the table of that name for the lines behind it.
pub proof fn law_headers_open_tables(name: Seq<char>, ls: Seq<Seq<char>>, table: Seq<Seq<char>>)
    requires
        name.len() > 0 && trimmed(name) == name,
        forall|i: int| 0 <= i < name.len() ==> name[i] != '#' && name[i] != '.' && name[i] != '"',
        ls.len() > 0,
        ls[0] == seq!['['] + name + seq![']'],
    ensures
        entries_from(ls, 0, table) == entries_from(ls, 1, seq![name]),
{
    let row = ls[0];
    assert forall|i: int| 0 <= i < row.len() implies row[i] != '#' by {
        if 1 <= i <= name.len() {
            assert(row[i] == name[i - 1]);
        }
    }
    lemma_index_of_at(row, '#', row.len() as int);
    lemma_trimmed_fixed(row);
    assert(line_body(ls, 0) == row);
    assert(inside(row) =~= name);
    lemma_index_of_at(name, '"', name.len() as int);
    lemma_index_of_at(name, '.', name.len() as int);
    assert(pieces(name, '.') =~= seq![name]);
    assert(seq![name].drop_last() =~= Seq::<Seq<char>>::empty());
    assert(trimmed_non_empty(Seq::<Seq<char>>::empty()) =~= Seq::<Seq<char>>::empty());
    assert(trimmed_non_empty(seq![name]) =~= seq![name]);
    assert(header_path(name) =~= seq![name]);
}

} // verus!

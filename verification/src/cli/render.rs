//! Rendering of command results: optional sorting, and tables padded into
//! aligned columns.

use vstd::prelude::*;
use vstd::slice::slice_subrange;
use vstd::string::{StringSliceAdditionalSpecFns, StrSliceExecFns};
use vstd::utf8::encode_utf8;
use crate::cli::context::strings_view;

verus! {

/// Byte-wise lexicographic order: the order of `String`s.
pub open spec fn bytes_lt(a: Seq<u8>, b: Seq<u8>) -> bool
    decreases a.len(),
{
    if a.len() == 0 {
        b.len() > 0
    } else if b.len() == 0 {
        false
    } else if a[0] != b[0] {
        a[0] < b[0]
    } else {
        bytes_lt(a.drop_first(), b.drop_first())
    }
}

/// `a` is a proper prefix of `b`.
pub open spec fn proper_prefix(a: Seq<u8>, b: Seq<u8>) -> bool {
    a.len() < b.len() && b.subrange(0, a.len() as int) == a
}

/// `a` and `b` agree before position `i`, and there `a` holds the smaller byte.
pub open spec fn first_difference_smaller(a: Seq<u8>, b: Seq<u8>, i: int) -> bool {
    &&& 0 <= i < a.len()
    &&& i < b.len()
    &&& a.subrange(0, i) == b.subrange(0, i)
    &&& a[i] < b[i]
}

/// Byte strings sort lexicographically, as `String`s do: `a` comes before `b`
/// exactly when `a` is a proper prefix of `b` (so the empty string comes
/// before every other), or when at the first position where they differ
/// `a` holds the smaller byte.
pub proof fn lemma_bytes_lt_lexicographic(a: Seq<u8>, b: Seq<u8>)
    ensures
        bytes_lt(a, b) <==> (proper_prefix(a, b) || exists|i: int| #[trigger]
            first_difference_smaller(a, b, i)),
    decreases a.len(),
{
    if a.len() == 0 {
        if b.len() > 0 {
            assert(b.subrange(0, 0) =~= a);
        }
    } else if b.len() == 0 {
    } else if a[0] != b[0] {
        if a[0] < b[0] {
            assert(a.subrange(0, 0) =~= b.subrange(0, 0));
            assert(first_difference_smaller(a, b, 0));
        }
        if proper_prefix(a, b) {
            assert(b.subrange(0, a.len() as int)[0] == b[0]);
        }
        assert forall|i: int| #[trigger] first_difference_smaller(a, b, i) implies a[0] < b[0] by {
            if i > 0 {
                assert(a.subrange(0, i)[0] == b.subrange(0, i)[0]);
            }
        }
    } else {
        let a1 = a.drop_first();
        let b1 = b.drop_first();
        lemma_bytes_lt_lexicographic(a1, b1);
        if proper_prefix(a1, b1) {
            assert(b.subrange(0, a.len() as int) =~= seq![b[0]] + b1.subrange(0, a1.len() as int));
            assert(a =~= seq![a[0]] + a1);
        }
        if proper_prefix(a, b) {
            assert(b1.subrange(0, a1.len() as int) =~= b.subrange(0, a.len() as int).drop_first());
        }
        assert forall|j: int| #[trigger] first_difference_smaller(a1, b1, j) implies first_difference_smaller(
            a,
            b,
            j + 1,
        ) by {
            assert(a.subrange(0, j + 1) =~= seq![a[0]] + a1.subrange(0, j));
            assert(b.subrange(0, j + 1) =~= seq![b[0]] + b1.subrange(0, j));
        }
        assert forall|i: int| #[trigger] first_difference_smaller(a, b, i) implies first_difference_smaller(
            a1,
            b1,
            i - 1,
        ) by {
            if i == 0 {
                assert(false);
            }
            assert(a1.subrange(0, i - 1) =~= a.subrange(0, i).drop_first());
            assert(b1.subrange(0, i - 1) =~= b.subrange(0, i).drop_first());
        }
        if exists|j: int| #[trigger] first_difference_smaller(a1, b1, j) {
            let j = choose|j: int| #[trigger] first_difference_smaller(a1, b1, j);
            assert(first_difference_smaller(a, b, j + 1));
        }
        if exists|i: int| #[trigger] first_difference_smaller(a, b, i) {
            let i = choose|i: int| #[trigger] first_difference_smaller(a, b, i);
            assert(first_difference_smaller(a1, b1, i - 1));
        }
    }
}

/// A string sorts before every longer string it begins: "a" before "ab",
/// "sdb" before "sdb1", the empty string before any other.
pub proof fn lemma_prefix_sorts_first(a: Seq<u8>, b: Seq<u8>)
    requires
        a.len() < b.len(),
        b.subrange(0, a.len() as int) == a,
    ensures
        bytes_lt(a, b),
        !bytes_lt(b, a),
{
    lemma_bytes_lt_lexicographic(a, b);
    lemma_bytes_lt_lexicographic(b, a);
    if exists|i: int| #[trigger] first_difference_smaller(b, a, i) {
        let i = choose|i: int| #[trigger] first_difference_smaller(b, a, i);
        assert(b[i] == b.subrange(0, a.len() as int)[i]);
    }
}

/// Whether `a` sorts before `b`.
pub fn bytes_less(a: &[u8], b: &[u8]) -> (lt: bool)
    ensures
        lt == bytes_lt(a@, b@),
    decreases a@.len(),
{
    if a.len() == 0 {
        b.len() > 0
    } else if b.len() == 0 {
        false
    } else if a[0] != b[0] {
        a[0] < b[0]
    } else {
        let ra = slice_subrange(a, 1, a.len());
        let rb = slice_subrange(b, 1, b.len());
        assert(ra@ =~= a@.drop_first());
        assert(rb@ =~= b@.drop_first());
        bytes_less(ra, rb)
    }
}

/// The sort key of a table row: its first cell, as bytes; a row without
/// cells sorts first.
pub open spec fn row_key(row: Seq<Seq<char>>) -> Option<Seq<u8>> {
    if row.len() == 0 { None } else { Some(encode_utf8(row[0])) }
}

pub open spec fn key_lt(a: Option<Seq<u8>>, b: Option<Seq<u8>>) -> bool {
    match (a, b) {
        (None, Some(_)) => true,
        (Some(x), Some(y)) => bytes_lt(x, y),
        _ => false,
    }
}

/// `x` is placed after every element of `sorted` that does not sort after it.
pub open spec fn insert_row(sorted: Seq<Seq<Seq<char>>>, x: Seq<Seq<char>>) -> Seq<Seq<Seq<char>>>
    decreases sorted.len(),
{
    if sorted.len() == 0 {
        seq![x]
    } else if !key_lt(row_key(x), row_key(sorted.last())) {
        sorted.push(x)
    } else {
        insert_row(sorted.drop_last(), x).push(sorted.last())
    }
}

/// The rows in order of their first cell; rows with equal first cells keep
/// their order (a stable sort).
pub open spec fn sort_rows_spec(rows: Seq<Seq<Seq<char>>>) -> Seq<Seq<Seq<char>>>
    decreases rows.len(),
{
    if rows.len() == 0 {
        Seq::empty()
    } else {
        insert_row(sort_rows_spec(rows.drop_last()), rows.last())
    }
}

pub open spec fn row_view(r: Vec<String>) -> Seq<Seq<char>> {
    strings_view(r@)
}

pub open spec fn rows_view(rows: Seq<Vec<String>>) -> Seq<Seq<Seq<char>>> {
    rows.map_values(|r: Vec<String>| row_view(r))
}

proof fn lemma_insert_row_at(s: Seq<Seq<Seq<char>>>, x: Seq<Seq<char>>, j: int)
    requires
        0 <= j <= s.len(),
        forall|k: int| j <= k < s.len() ==> key_lt(row_key(x), #[trigger] row_key(s[k])),
        j > 0 ==> !key_lt(row_key(x), row_key(s[j - 1])),
    ensures
        insert_row(s, x) == s.subrange(0, j).push(x) + s.subrange(j, s.len() as int),
    decreases s.len(),
{
    if s.len() == 0 {
        assert(s.subrange(0, j).push(x) + s.subrange(j, s.len() as int) =~= seq![x]);
    } else if j == s.len() {
        assert(s.subrange(0, j).push(x) + s.subrange(j, s.len() as int) =~= s.push(x));
    } else {
        assert(key_lt(row_key(x), row_key(s.last())));
        lemma_insert_row_at(s.drop_last(), x, j);
        assert(s.drop_last().subrange(0, j) =~= s.subrange(0, j));
        assert(s.subrange(0, j).push(x) + s.subrange(j, s.len() as int) =~= (s.drop_last().subrange(
            0,
            j,
        ).push(x) + s.drop_last().subrange(j, s.len() - 1)).push(s.last()));
    }
}

fn row_key_less(x: &Vec<String>, y: &Vec<String>) -> (lt: bool)
    ensures
        lt == key_lt(row_key(row_view(*x)), row_key(row_view(*y))),
{
    if x.len() == 0 {
        y.len() > 0
    } else if y.len() == 0 {
        false
    } else {
        bytes_less(x[0].as_str().as_bytes(), y[0].as_str().as_bytes())
    }
}

/// Sorts table rows by their first cell, keeping the order of rows with
/// equal first cells.
pub fn sort_rows(rows: Vec<Vec<String>>) -> (sorted: Vec<Vec<String>>)
    ensures
        rows_view(sorted@) == sort_rows_spec(rows_view(rows@)),
{
    let mut rest = rows;
    let ghost all = rows_view(rest@);
    let ghost n = rest@.len();
    let mut out: Vec<Vec<String>> = Vec::new();
    let _len = rest.len();
    let mut i: usize = 0;
    while rest.len() > 0
        invariant
            n == all.len(),
            n <= usize::MAX,
            i + rest@.len() == n,
            rows_view(rest@) == all.subrange(i as int, n as int),
            rows_view(out@) == sort_rows_spec(all.subrange(0, i as int)),
        decreases rest@.len(),
    {
        let ghost old_rest = rest@;
        let x = rest.remove(0);
        assert(row_view(x) == rows_view(old_rest)[0]);
        assert(all.subrange(i as int, n as int)[0] == all[i as int]);
        assert(rows_view(rest@) =~= rows_view(old_rest).drop_first());
        assert(all.subrange(i as int, n as int).drop_first() =~= all.subrange(i + 1, n as int));
        let mut j = out.len();
        while j > 0 && row_key_less(&x, &out[j - 1])
            invariant
                j <= out@.len(),
                forall|k: int| j <= k < out@.len() ==> key_lt(
                    row_key(row_view(x)),
                    #[trigger] row_key(rows_view(out@)[k]),
                ),
            decreases j,
        {
            j = j - 1;
        }
        let ghost before = rows_view(out@);
        proof {
            lemma_insert_row_at(before, row_view(x), j as int);
            assert(all.subrange(0, i + 1).drop_last() =~= all.subrange(0, i as int));
            assert(all.subrange(0, i + 1).last() == row_view(x));
        }
        out.insert(j, x);
        assert(rows_view(out@) =~= before.subrange(0, j as int).push(row_view(x)) + before.subrange(
            j as int,
            before.len() as int,
        ));
        i = i + 1;
        assert(rows_view(rest@) =~= all.subrange(i as int, n as int));
    }
    assert(all.subrange(0, n as int) =~= all);
    out
}

/// The length of a cell in bytes, as a column width counts it.
pub open spec fn byte_len(s: Seq<char>) -> nat {
    encode_utf8(s).len()
}

/// The width of column `i`: its longest cell, in bytes.
pub open spec fn col_width(rows: Seq<Seq<Seq<char>>>, i: int) -> nat
    decreases rows.len(),
{
    if rows.len() == 0 {
        0
    } else {
        let w = col_width(rows.drop_last(), i);
        let r = rows.last();
        if 0 <= i < r.len() && byte_len(r[i]) > w { byte_len(r[i]) } else { w }
    }
}

pub open spec fn spaces(n: nat) -> Seq<char> {
    Seq::new(n, |i: int| ' ')
}

/// A cell left-aligned in `width` characters.
pub open spec fn padded(cell: Seq<char>, width: nat) -> Seq<char> {
    if cell.len() < width { cell + spaces((width - cell.len()) as nat) } else { cell }
}

/// A row's line: each cell padded to its column's width and followed by two spaces.
pub open spec fn render_line(row: Seq<Seq<char>>, widths: Seq<nat>) -> Seq<char>
    decreases row.len(),
{
    if row.len() == 0 {
        Seq::empty()
    } else {
        render_line(row.drop_last(), widths) + padded(row.last(), widths[row.len() - 1]) + "  "@
    }
}

/// The column widths of a table with as many columns as its first row.
pub open spec fn table_widths(rows: Seq<Seq<Seq<char>>>) -> Seq<nat> {
    Seq::new(rows[0].len(), |i: int| col_width(rows, i))
}

/// The lines a table renders to.
pub open spec fn table_lines(rows: Seq<Seq<Seq<char>>>) -> Seq<Seq<char>> {
    rows.map_values(|r: Seq<Seq<char>>| render_line(r, table_widths(rows)))
}

/// The rows as they are shown: sorted by their first cell when asked.
pub open spec fn shown_rows(rows: Seq<Seq<Seq<char>>>, sort: bool) -> Seq<Seq<Seq<char>>> {
    if sort { sort_rows_spec(rows) } else { rows }
}

/// A table can be rendered when it has a row and no row has more cells
/// than the first.
pub open spec fn renderable(rows: Seq<Seq<Seq<char>>>) -> bool {
    rows.len() > 0 && forall|r: int| 0 <= r < rows.len() ==> #[trigger] rows[r].len() <= rows[0].len()
}

fn column_widths(rows: &Vec<Vec<String>>) -> (widths: Vec<usize>)
    requires
        renderable(rows_view(rows@)),
    ensures
        widths@.len() == rows@[0]@.len(),
        forall|k: int| 0 <= k < widths@.len() ==> widths@[k] == col_width(rows_view(rows@), k),
{
    let ghost t = rows_view(rows@);
    let ncols = rows[0].len();
    let mut widths: Vec<usize> = Vec::new();
    widths.resize(ncols, 0usize);
    let mut r: usize = 0;
    while r < rows.len()
        invariant
            t == rows_view(rows@),
            renderable(t),
            ncols == t[0].len(),
            widths@.len() == ncols,
            0 <= r <= rows@.len(),
            forall|k: int| 0 <= k < ncols ==> widths@[k] == col_width(t.subrange(0, r as int), k),
        decreases rows@.len() - r,
    {
        let row = &rows[r];
        assert(row_view(*row) == t[r as int]);
        assert(t.subrange(0, r + 1).drop_last() =~= t.subrange(0, r as int));
        assert(t.subrange(0, r + 1).last() == t[r as int]);
        assert(row@.len() <= ncols);
        let mut i: usize = 0;
        while i < row.len()
            invariant
                t == rows_view(rows@),
                r < rows@.len(),
                row_view(*row) == t[r as int],
                row@.len() <= ncols,
                widths@.len() == ncols,
                0 <= i <= row@.len(),
                t.subrange(0, r + 1).drop_last() == t.subrange(0, r as int),
                t.subrange(0, r + 1).last() == t[r as int],
                forall|k: int| 0 <= k < i ==> widths@[k] == col_width(t.subrange(0, r + 1), k),
                forall|k: int| i <= k < ncols ==> widths@[k] == col_width(t.subrange(0, r as int), k),
            decreases row@.len() - i,
        {
            let w = row[i].as_str().as_bytes().len();
            assert(row@[i as int]@ == t[r as int][i as int]);
            assert(w == byte_len(t[r as int][i as int]));
            if w > widths[i] {
                widths.set(i, w);
            }
            assert(widths@[i as int] == col_width(t.subrange(0, r + 1), i as int));
            i = i + 1;
        }
        assert forall|k: int| 0 <= k < ncols implies widths@[k] == col_width(t.subrange(0, r + 1), k) by {
            if k >= row@.len() {
            }
        }
        r = r + 1;
    }
    assert(t.subrange(0, rows@.len() as int) =~= t);
    widths
}

fn push_spaces(s: &mut String, n: usize)
    ensures
        final(s)@ == old(s)@ + spaces(n as nat),
{
    let mut i: usize = 0;
    while i < n
        invariant
            0 <= i <= n,
            s@ == old(s)@ + spaces(i as nat),
        decreases n - i,
    {
        proof {
            reveal_strlit(" ");
        }
        s.append(" ");
        i = i + 1;
        assert(s@ =~= old(s)@ + spaces(i as nat));
    }
}

fn render_row(row: &Vec<String>, widths: &Vec<usize>) -> (line: String)
    requires
        row@.len() <= widths@.len(),
    ensures
        line@ == render_line(row_view(*row), widths@.map_values(|w: usize| w as nat)),
{
    let ghost ws = widths@.map_values(|w: usize| w as nat);
    let ghost rv = row_view(*row);
    let mut line = String::new();
    let mut i: usize = 0;
    while i < row.len()
        invariant
            rv == row_view(*row),
            ws == widths@.map_values(|w: usize| w as nat),
            row@.len() <= widths@.len(),
            0 <= i <= row@.len(),
            line@ == render_line(rv.subrange(0, i as int), ws),
        decreases row@.len() - i,
    {
        let cell = row[i].as_str();
        line.append(cell);
        let chars = cell.unicode_len();
        if chars < widths[i] {
            push_spaces(&mut line, widths[i] - chars);
        }
        line.append("  ");
        assert(rv.subrange(0, i + 1).drop_last() =~= rv.subrange(0, i as int));
        assert(rv.subrange(0, i + 1).last() == cell@);
        i = i + 1;
    }
    assert(rv.subrange(0, row@.len() as int) =~= rv);
    line
}

/// Renders a table: sorted by first cell when `sort` is set, then each row
/// padded into columns as wide as their longest cell.
pub fn render_table(rows: Vec<Vec<String>>, sort: bool) -> (lines: Vec<String>)
    requires
        renderable(shown_rows(rows_view(rows@), sort)),
    ensures
        strings_view(lines@) == table_lines(shown_rows(rows_view(rows@), sort)),
{
    let rows = if sort { sort_rows(rows) } else { rows };
    let ghost t = rows_view(rows@);
    let widths = column_widths(&rows);
    let ghost ws = widths@.map_values(|w: usize| w as nat);
    assert(ws =~= table_widths(t));
    let mut lines: Vec<String> = Vec::new();
    let mut r: usize = 0;
    while r < rows.len()
        invariant
            t == rows_view(rows@),
            renderable(t),
            ws == widths@.map_values(|w: usize| w as nat),
            ws == table_widths(t),
            widths@.len() == t[0].len(),
            0 <= r <= rows@.len(),
            lines@.len() == r,
            forall|k: int| 0 <= k < r ==> (#[trigger] lines@[k])@ == render_line(t[k], ws),
        decreases rows@.len() - r,
    {
        assert(t[r as int].len() <= t[0].len());
        assert(row_view(rows@[r as int]) == t[r as int]);
        let line = render_row(&rows[r], &widths);
        lines.push(line);
        r = r + 1;
    }
    assert(strings_view(lines@) =~= table_lines(t));
    lines
}

/// The lines of a list: its items, sorted when `sort` is set.
pub open spec fn list_lines(items: Seq<Seq<char>>, sort: bool) -> Seq<Seq<char>> {
    if sort {
        sort_rows_spec(items.map_values(|s: Seq<char>| seq![s])).map_values(|r: Seq<Seq<char>>| r[0])
    } else {
        items
    }
}

/// Renders a list, sorted by the bytes of its items when `sort` is set.
pub fn render_list(items: Vec<String>, sort: bool) -> (lines: Vec<String>)
    ensures
        strings_view(lines@) == list_lines(strings_view(items@), sort),
{
    if !sort {
        return items;
    }
    let ghost iv = strings_view(items@);
    let mut rows: Vec<Vec<String>> = Vec::new();
    let mut items = items;
    let mut i: usize = 0;
    let n = items.len();
    while items.len() > 0
        invariant
            n == iv.len(),
            i + items@.len() == n,
            strings_view(items@) == iv.subrange(i as int, n as int),
            rows_view(rows@) == iv.subrange(0, i as int).map_values(|s: Seq<char>| seq![s]),
        decreases items@.len(),
    {
        let ghost old_items = items@;
        let item = items.remove(0);
        assert(strings_view(items@) =~= strings_view(old_items).drop_first());
        assert(iv.subrange(i as int, n as int)[0] == item@);
        assert(iv.subrange(i as int, n as int).drop_first() =~= iv.subrange(i + 1, n as int));
        let mut row: Vec<String> = Vec::new();
        row.push(item);
        assert(row_view(row) =~= seq![iv[i as int]]);
        let ghost before = rows_view(rows@);
        rows.push(row);
        assert(rows_view(rows@) =~= before.push(seq![iv[i as int]]));
        assert(rows_view(rows@) =~= iv.subrange(0, i + 1).map_values(|s: Seq<char>| seq![s]));
        i = i + 1;
    }
    assert(iv.subrange(0, n as int) =~= iv);
    let sorted = sort_rows(rows);
    let ghost sv = rows_view(sorted@);
    let mut lines: Vec<String> = Vec::new();
    let mut rest = sorted;
    let mut k: usize = 0;
    let m = rest.len();
    proof {
        lemma_sort_rows_singletons(iv.map_values(|s: Seq<char>| seq![s]));
    }
    while rest.len() > 0
        invariant
            m == sv.len(),
            k + rest@.len() == m,
            rows_view(rest@) == sv.subrange(k as int, m as int),
            forall|j: int| 0 <= j < sv.len() ==> (#[trigger] sv[j]).len() == 1,
            strings_view(lines@) == sv.subrange(0, k as int).map_values(|r: Seq<Seq<char>>| r[0]),
        decreases rest@.len(),
    {
        let ghost old_rest = rest@;
        let mut row = rest.remove(0);
        assert(rows_view(rest@) =~= rows_view(old_rest).drop_first());
        assert(sv.subrange(k as int, m as int)[0] == row_view(row));
        assert(sv.subrange(k as int, m as int).drop_first() =~= sv.subrange(k + 1, m as int));
        assert(sv[k as int].len() == 1);
        let item = row.remove(0);
        assert(item@ == sv[k as int][0]);
        let ghost before_lines = strings_view(lines@);
        lines.push(item);
        assert(strings_view(lines@) =~= before_lines.push(sv[k as int][0]));
        assert(strings_view(lines@) =~= sv.subrange(0, k + 1).map_values(|r: Seq<Seq<char>>| r[0]));
        k = k + 1;
    }
    assert(sv.subrange(0, m as int) =~= sv);
    lines
}

proof fn lemma_insert_row_singletons(s: Seq<Seq<Seq<char>>>, x: Seq<Seq<char>>)
    requires
        forall|j: int| 0 <= j < s.len() ==> (#[trigger] s[j]).len() == 1,
        x.len() == 1,
    ensures
        forall|j: int| 0 <= j < insert_row(s, x).len() ==> (#[trigger] insert_row(s, x)[j]).len() == 1,
    decreases s.len(),
{
    if s.len() == 0 {
        assert(insert_row(s, x) =~= seq![x]);
    } else if !key_lt(row_key(x), row_key(s.last())) {
        assert forall|j: int| 0 <= j < insert_row(s, x).len() implies (#[trigger] insert_row(s, x)[j]).len() == 1 by {
            if j < s.len() {
                assert(insert_row(s, x)[j] == s[j]);
            }
        }
    } else {
        lemma_insert_row_singletons(s.drop_last(), x);
        let a = insert_row(s.drop_last(), x);
        assert forall|j: int| 0 <= j < insert_row(s, x).len() implies (#[trigger] insert_row(s, x)[j]).len() == 1 by {
            if j < a.len() {
                assert(insert_row(s, x)[j] == a[j]);
            } else {
                assert(insert_row(s, x)[j] == s.last());
            }
        }
    }
}

proof fn lemma_sort_rows_singletons(rows: Seq<Seq<Seq<char>>>)
    requires
        forall|j: int| 0 <= j < rows.len() ==> (#[trigger] rows[j]).len() == 1,
    ensures
        forall|j: int| 0 <= j < sort_rows_spec(rows).len() ==> (#[trigger] sort_rows_spec(rows)[j]).len() == 1,
    decreases rows.len(),
{
    if rows.len() > 0 {
        lemma_sort_rows_singletons(rows.drop_last());
        lemma_insert_row_singletons(sort_rows_spec(rows.drop_last()), rows.last());
    }
}

/// No row comes after a row whose first cell sorts after its own.
pub open spec fn rows_sorted(s: Seq<Seq<Seq<char>>>) -> bool {
    forall|i: int, j: int| 0 <= i < j < s.len() ==> !key_lt(row_key(s[j]), row_key(s[i]))
}

proof fn lemma_bytes_lt_irreflexive(a: Seq<u8>)
    ensures
        !bytes_lt(a, a),
    decreases a.len(),
{
    if a.len() > 0 {
        lemma_bytes_lt_irreflexive(a.drop_first());
    }
}

proof fn lemma_bytes_lt_transitive(a: Seq<u8>, b: Seq<u8>, c: Seq<u8>)
    requires
        bytes_lt(a, b),
        bytes_lt(b, c),
    ensures
        bytes_lt(a, c),
    decreases a.len(),
{
    if a.len() > 0 && b.len() > 0 && c.len() > 0 && a[0] == b[0] && b[0] == c[0] {
        lemma_bytes_lt_transitive(a.drop_first(), b.drop_first(), c.drop_first());
    }
}

proof fn lemma_bytes_lt_total(a: Seq<u8>, b: Seq<u8>)
    ensures
        a == b || bytes_lt(a, b) || bytes_lt(b, a),
    decreases a.len(),
{
    if a.len() > 0 && b.len() > 0 && a[0] == b[0] {
        lemma_bytes_lt_total(a.drop_first(), b.drop_first());
        if a.drop_first() == b.drop_first() {
            assert(a =~= seq![a[0]] + a.drop_first());
            assert(b =~= seq![b[0]] + b.drop_first());
        }
    } else if a.len() == 0 && b.len() == 0 {
        assert(a =~= b);
    }
}

proof fn lemma_key_order(a: Option<Seq<u8>>, b: Option<Seq<u8>>, c: Option<Seq<u8>>)
    ensures
        !key_lt(a, a),
        a == b || key_lt(a, b) || key_lt(b, a),
        key_lt(a, b) && key_lt(b, c) ==> key_lt(a, c),
{
    if let Some(x) = a {
        lemma_bytes_lt_irreflexive(x);
        if let Some(y) = b {
            lemma_bytes_lt_total(x, y);
            if let Some(z) = c {
                if bytes_lt(x, y) && bytes_lt(y, z) {
                    lemma_bytes_lt_transitive(x, y, z);
                }
            }
        }
    }
}

proof fn lemma_insert_row_multiset(s: Seq<Seq<Seq<char>>>, x: Seq<Seq<char>>)
    ensures
        insert_row(s, x).to_multiset() == s.to_multiset().insert(x),
        insert_row(s, x).len() == s.len() + 1,
    decreases s.len(),
{
    broadcast use vstd::seq_lib::group_to_multiset_ensures;
    if s.len() == 0 {
        assert(seq![x] =~= Seq::<Seq<Seq<char>>>::empty().push(x));
    } else if !key_lt(row_key(x), row_key(s.last())) {
    } else {
        lemma_insert_row_multiset(s.drop_last(), x);
        assert(s =~= s.drop_last().push(s.last()));
        assert(s.to_multiset() =~= s.drop_last().to_multiset().insert(s.last()));
        assert(insert_row(s, x).to_multiset() =~= s.to_multiset().insert(x));
    }
}

proof fn lemma_insert_row_sorted(s: Seq<Seq<Seq<char>>>, x: Seq<Seq<char>>)
    requires
        rows_sorted(s),
    ensures
        rows_sorted(insert_row(s, x)),
    decreases s.len(),
{
    broadcast use vstd::seq_lib::group_to_multiset_ensures;
    if s.len() == 0 {
    } else if !key_lt(row_key(x), row_key(s.last())) {
        let r = s.push(x);
        assert forall|i: int, j: int| 0 <= i < j < r.len() implies !key_lt(row_key(r[j]), row_key(r[i])) by {
            if j == r.len() - 1 {
                lemma_key_order(row_key(x), row_key(s[i]), row_key(s.last()));
                lemma_key_order(row_key(s[i]), row_key(s.last()), row_key(x));
                lemma_key_order(row_key(x), row_key(s.last()), row_key(s[i]));
                if i < s.len() - 1 {
                    assert(!key_lt(row_key(s.last()), row_key(s[i])));
                }
            }
        }
    } else {
        let t = s.drop_last();
        let last = s.last();
        lemma_insert_row_sorted(t, x);
        lemma_insert_row_multiset(t, x);
        let a = insert_row(t, x);
        let r = a.push(last);
        assert(r == insert_row(s, x));
        assert forall|i: int, j: int| 0 <= i < j < r.len() implies !key_lt(row_key(r[j]), row_key(r[i])) by {
            if j == r.len() - 1 {
                let e = a[i];
                assert(a.to_multiset().count(e) > 0);
                assert(a.contains(e));
                if e == x {
                    lemma_key_order(row_key(x), row_key(last), row_key(x));
                } else {
                    assert(t.to_multiset().count(e) > 0);
                    let k = choose|k: int| 0 <= k < t.len() && t[k] == e;
                    assert(s[k] == e);
                    assert(!key_lt(row_key(s[s.len() - 1]), row_key(s[k])));
                }
            } else {
                assert(r[i] == a[i] && r[j] == a[j]);
            }
        }
    }
}

/// Sorting table rows keeps every row, once each, and leaves no row after
/// a row whose first cell sorts after its own.
pub proof fn lemma_sort_rows(rows: Seq<Seq<Seq<char>>>)
    ensures
        sort_rows_spec(rows).to_multiset() == rows.to_multiset(),
        sort_rows_spec(rows).len() == rows.len(),
        rows_sorted(sort_rows_spec(rows)),
    decreases rows.len(),
{
    broadcast use vstd::seq_lib::group_to_multiset_ensures;
    if rows.len() > 0 {
        lemma_sort_rows(rows.drop_last());
        lemma_insert_row_multiset(sort_rows_spec(rows.drop_last()), rows.last());
        lemma_insert_row_sorted(sort_rows_spec(rows.drop_last()), rows.last());
        assert(rows =~= rows.drop_last().push(rows.last()));
    } else {
        assert(sort_rows_spec(rows).to_multiset() =~= rows.to_multiset());
    }
}

} // verus!

use vstd::prelude::*;

use crate::num::{decimal, i32_text, i32_text_chars, usize_text};
use crate::text::{string_from_chars, strs};

verus! {

// ---------------------------------------------------------------------------
// Padding
// ---------------------------------------------------------------------------

/// `n` spaces.
pub open spec fn spaces(n: int) -> Seq<char> {
    Seq::new(if n > 0 {
        n as nat
    } else {
        0
    }, |i: int| ' ')
}

/// `format!("{:<w$}", s)`: `s` followed by spaces up to `w` characters.
pub open spec fn pad_right(s: Seq<char>, w: int) -> Seq<char> {
    s + spaces(w - s.len())
}

/// `format!("{:>w$}", s)`: spaces up to `w` characters, then `s`.
pub open spec fn pad_left(s: Seq<char>, w: int) -> Seq<char> {
    spaces(w - s.len()) + s
}

fn push_spaces(out: &mut Vec<char>, n: usize)
    ensures
        final(out)@ == old(out)@ + spaces(n as int),
{
    let mut i: usize = 0;
    while i < n
        invariant
            i <= n,
            out@ == old(out)@ + spaces(i as int),
        decreases n - i,
    {
        out.push(' ');
        i = i + 1;
        assert(out@ =~= old(out)@ + spaces(i as int));
    }
}

fn push_all(out: &mut Vec<char>, s: &Vec<char>)
    ensures
        final(out)@ == old(out)@ + s@,
{
    let mut i: usize = 0;
    while i < s.len()
        invariant
            i <= s.len(),
            out@ == old(out)@ + s@.take(i as int),
        decreases s.len() - i,
    {
        out.push(s[i]);
        i = i + 1;
        assert(out@ =~= old(out)@ + s@.take(i as int));
    }
    assert(s@.take(s.len() as int) =~= s@);
}

// ---------------------------------------------------------------------------
// Statistics
// ---------------------------------------------------------------------------

/// The statistics of the cache.
pub struct Stats {
    pub total: usize,
    pub by_status: Vec<(String, usize)>,
    pub by_year: Vec<(i32, usize)>,
    pub by_field: Vec<(String, usize)>,
    pub top_authors: Vec<(String, usize)>,
}

/// The label of a status group; papers without a status are `(none)`.
pub open spec fn status_label_spec(status: Option<Seq<char>>) -> Seq<char> {
    match status {
        Some(s) => s,
        None => "(none)"@,
    }
}

/// The label of a status group (see [`status_label_spec`]).
pub fn status_label(status: Option<String>) -> (s: String)
    ensures
        s@ == status_label_spec(crate::text::opt_str(status)),
{
    match status {
        Some(s) => s,
        None => String::from_str("(none)"),
    }
}

/// The labels and counts of a table of the report.
pub open spec fn labeled(rows: Seq<(String, usize)>) -> Seq<(Seq<char>, usize)> {
    rows.map_values(|r: (String, usize)| (r.0@, r.1))
}

/// The widest label, counted in UTF-8 bytes as `str::len` counts.
pub open spec fn label_width(rows: Seq<(Seq<char>, usize)>) -> nat
    decreases rows.len(),
{
    if rows.len() == 0 {
        0
    } else {
        let w = label_width(rows.drop_last());
        let l = (vstd::utf8::encode_utf8(rows.last().0).len() as usize) as nat;
        if l > w {
            l
        } else {
            w
        }
    }
}

/// One line of a labeled table: the label padded to `w`, then the count
/// right-aligned in six columns.
pub open spec fn labeled_line(label: Seq<char>, count: usize, w: int) -> Seq<char> {
    "  "@ + pad_right(label, w) + "  "@ + pad_left(decimal(count as nat), 6)
}

/// The lines of a labeled table, or `  (no data)` when it is empty.
pub open spec fn labeled_lines(rows: Seq<(Seq<char>, usize)>) -> Seq<Seq<char>> {
    if rows.len() == 0 {
        seq!["  (no data)"@]
    } else {
        Seq::new(
            rows.len(),
            |i: int| labeled_line(rows[i].0, rows[i].1, label_width(rows) as int),
        )
    }
}

/// The lines of the table by year (at most 20 years), or `  (no data)`.
pub open spec fn year_lines(rows: Seq<(i32, usize)>) -> Seq<Seq<char>> {
    let shown = if rows.len() > 20 {
        rows.take(20)
    } else {
        rows
    };
    if shown.len() == 0 {
        seq!["  (no data)"@]
    } else {
        Seq::new(
            shown.len(),
            |i: int| "  "@ + i32_text(shown[i].0) + "  "@ + pad_left(decimal(shown[i].1 as nat), 6),
        )
    }
}

/// The lines that the `stats` command prints.
pub open spec fn stats_lines(st: Stats) -> Seq<Seq<char>> {
    seq!["=== Paper Cache Statistics ==="@, ""@, "Total papers: "@ + decimal(st.total as nat)]
        + seq![""@, "--- By Status ---"@] + labeled_lines(labeled(st.by_status@)) + seq![
        ""@,
        "--- By Year (top 20) ---"@,
    ] + year_lines(st.by_year@) + seq![""@, "--- By Field (top 20) ---"@] + labeled_lines(
        labeled(st.by_field@),
    ) + seq![""@, "--- Top Authors (top 20) ---"@] + labeled_lines(labeled(st.top_authors@))
}

/// Appends the line `s`.
pub(crate) fn push_line(lines: &mut Vec<String>, s: &str)
    ensures
        strs(final(lines)@) == strs(old(lines)@).push(s@),
{
    let ghost before = lines@;
    lines.push(String::from_str(s));
    proof {
        crate::text::lemma_strs_push(before, lines@.last());
    }
}

/// Appends the line whose characters are `s`.
pub(crate) fn push_line_chars(lines: &mut Vec<String>, s: &Vec<char>)
    ensures
        strs(final(lines)@) == strs(old(lines)@).push(s@),
{
    let ghost before = lines@;
    lines.push(string_from_chars(s.as_slice()));
    proof {
        crate::text::lemma_strs_push(before, lines@.last());
    }
}

/// The width that labels are padded to.
fn label_width_exec(rows: &Vec<(String, usize)>) -> (w: usize)
    ensures
        w == label_width(labeled(rows@)),
{
    let mut w: usize = 0;
    let mut i: usize = 0;
    while i < rows.len()
        invariant
            i <= rows.len(),
            w == label_width(labeled(rows@).take(i as int)),
        decreases rows.len() - i,
    {
        let l = rows[i].0.as_str().len();
        proof {
            assert(l == (vstd::utf8::encode_utf8(rows@[i as int].0@).len() as usize));
            let t = labeled(rows@).take(i + 1);
            assert(t.drop_last() =~= labeled(rows@).take(i as int));
            assert(t.last().0 == rows@[i as int].0@);
        }
        if l > w {
            w = l;
        }
        i = i + 1;
    }
    assert(labeled(rows@).take(rows.len() as int) =~= labeled(rows@));
    w
}

fn push_labeled_lines(lines: &mut Vec<String>, rows: &Vec<(String, usize)>)
    ensures
        strs(final(lines)@) == strs(old(lines)@) + labeled_lines(labeled(rows@)),
{
    if rows.len() == 0 {
        push_line(lines, "  (no data)");
        assert(strs(lines@) =~= strs(old(lines)@) + labeled_lines(labeled(rows@)));
        return;
    }
    let w = label_width_exec(rows);
    let ghost all = labeled_lines(labeled(rows@));
    let mut i: usize = 0;
    while i < rows.len()
        invariant
            i <= rows.len() > 0,
            w == label_width(labeled(rows@)),
            all == labeled_lines(labeled(rows@)),
            strs(lines@) == strs(old(lines)@) + all.take(i as int),
        decreases rows.len() - i,
    {
        let label = crate::text::to_chars(rows[i].0.as_str());
        let count = usize_text(rows[i].1);
        let mut s: Vec<char> = Vec::new();
        s.push(' ');
        s.push(' ');
        push_all(&mut s, &label);
        if label.len() < w {
            push_spaces(&mut s, w - label.len());
        } else {
            push_spaces(&mut s, 0);
        }
        s.push(' ');
        s.push(' ');
        if count.len() < 6 {
            push_spaces(&mut s, 6 - count.len());
        } else {
            push_spaces(&mut s, 0);
        }
        push_all(&mut s, &count);
        proof {
            reveal_strlit("  ");
            assert(s@ =~= labeled_line(rows@[i as int].0@, rows@[i as int].1, w as int));
            assert(all.take(i + 1) =~= all.take(i as int).push(s@));
        }
        push_line_chars(lines, &s);
        i = i + 1;
    }
    assert(all.take(rows.len() as int) =~= all);
}

fn push_year_lines(lines: &mut Vec<String>, rows: &Vec<(i32, usize)>)
    ensures
        strs(final(lines)@) == strs(old(lines)@) + year_lines(rows@),
{
    let n = if rows.len() > 20 {
        20
    } else {
        rows.len()
    };
    if n == 0 {
        push_line(lines, "  (no data)");
        assert(strs(lines@) =~= strs(old(lines)@) + year_lines(rows@));
        return;
    }
    let ghost all = year_lines(rows@);
    let mut i: usize = 0;
    while i < n
        invariant
            i <= n <= rows.len(),
            n > 0,
            n == (if rows.len() > 20 {
                20
            } else {
                rows.len()
            }),
            all == year_lines(rows@),
            strs(lines@) == strs(old(lines)@) + all.take(i as int),
        decreases n - i,
    {
        let year = i32_text_chars(rows[i].0);
        let count = usize_text(rows[i].1);
        let mut s: Vec<char> = Vec::new();
        s.push(' ');
        s.push(' ');
        push_all(&mut s, &year);
        s.push(' ');
        s.push(' ');
        if count.len() < 6 {
            push_spaces(&mut s, 6 - count.len());
        } else {
            push_spaces(&mut s, 0);
        }
        push_all(&mut s, &count);
        proof {
            reveal_strlit("  ");
            assert(s@ =~= "  "@ + i32_text(rows@[i as int].0) + "  "@ + pad_left(
                decimal(rows@[i as int].1 as nat),
                6,
            ));
            assert(all.take(i + 1) =~= all.take(i as int).push(s@));
        }
        push_line_chars(lines, &s);
        i = i + 1;
    }
    assert(all.take(n as int) =~= all);
}

/// The lines that the `stats` command prints (see [`stats_lines`]).
pub fn stats_report(st: &Stats) -> (lines: Vec<String>)
    ensures
        strs(lines@) == stats_lines(*st),
{
    let mut lines: Vec<String> = Vec::new();
    assert(strs(lines@) =~= Seq::<Seq<char>>::empty());
    push_line(&mut lines, "=== Paper Cache Statistics ===");
    push_line(&mut lines, "");
    let mut total = crate::text::to_chars("Total papers: ");
    push_all(&mut total, &usize_text(st.total));
    push_line_chars(&mut lines, &total);
    push_line(&mut lines, "");
    push_line(&mut lines, "--- By Status ---");
    push_labeled_lines(&mut lines, &st.by_status);
    push_line(&mut lines, "");
    push_line(&mut lines, "--- By Year (top 20) ---");
    push_year_lines(&mut lines, &st.by_year);
    push_line(&mut lines, "");
    push_line(&mut lines, "--- By Field (top 20) ---");
    push_labeled_lines(&mut lines, &st.by_field);
    push_line(&mut lines, "");
    push_line(&mut lines, "--- Top Authors (top 20) ---");
    push_labeled_lines(&mut lines, &st.top_authors);
    assert(strs(lines@) =~= stats_lines(*st));
    lines
}

} // verus!

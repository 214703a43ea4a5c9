use vstd::prelude::*;

use crate::num::{parse_i32, parse_i32_spec};
use crate::text::{
    eq_chars, find_chars, find_from, is_ws, occurs_at, opt_str, skip_ws, skip_ws_from, split, split_from,
    split_ranges, string_from_chars, strs, sub_vec, to_chars, trim, trimmed_range,
};
use crate::unicode::{decimal_number, is_decimal_number};

verus! {

// ---------------------------------------------------------------------------
// The bibliography record
// ---------------------------------------------------------------------------

/// What the `## 書誌情報` table of a note says about a paper.
pub struct BibliographyInfo {
    pub title: Option<String>,
    pub authors: Vec<String>,
    pub year: Option<i32>,
    pub venue: Option<String>,
    pub doi: Option<String>,
    pub arxiv_id: Option<String>,
    pub research_tasks: Vec<String>,
    pub citation_count: Option<i32>,
    pub open_access: Option<bool>,
}

/// The mathematical content of a [`BibliographyInfo`].
pub struct BibView {
    pub title: Option<Seq<char>>,
    pub authors: Seq<Seq<char>>,
    pub year: Option<i32>,
    pub venue: Option<Seq<char>>,
    pub doi: Option<Seq<char>>,
    pub arxiv_id: Option<Seq<char>>,
    pub research_tasks: Seq<Seq<char>>,
    pub citation_count: Option<i32>,
    pub open_access: Option<bool>,
}

impl View for BibliographyInfo {
    type V = BibView;

    open spec fn view(&self) -> BibView {
        BibView {
            title: opt_str(self.title),
            authors: strs(self.authors@),
            year: self.year,
            venue: opt_str(self.venue),
            doi: opt_str(self.doi),
            arxiv_id: opt_str(self.arxiv_id),
            research_tasks: strs(self.research_tasks@),
            citation_count: self.citation_count,
            open_access: self.open_access,
        }
    }
}

/// A record in which nothing is known.
pub open spec fn empty_bib() -> BibView {
    BibView {
        title: None,
        authors: Seq::empty(),
        year: None,
        venue: None,
        doi: None,
        arxiv_id: None,
        research_tasks: Seq::empty(),
        citation_count: None,
        open_access: None,
    }
}

impl Default for BibliographyInfo {
    fn default() -> (r: Self)
        ensures
            r@ == empty_bib(),
    {
        let r = BibliographyInfo {
            title: None,
            authors: Vec::new(),
            year: None,
            venue: None,
            doi: None,
            arxiv_id: None,
            research_tasks: Vec::new(),
            citation_count: None,
            open_access: None,
        };
        assert(r@.authors =~= Seq::<Seq<char>>::empty());
        assert(r@.research_tasks =~= Seq::<Seq<char>>::empty());
        r
    }
}

// ---------------------------------------------------------------------------
// Cell values
// ---------------------------------------------------------------------------

/// A cell that says "not available": `N/A`, `n/a` or `-`.
pub open spec fn is_na_spec(v: Seq<char>) -> bool {
    v == "N/A"@ || v == "n/a"@ || v == "-"@
}

/// A cell's text, or `None` when it is empty or says "not available".
pub open spec fn non_na_spec(v: Seq<char>) -> Option<Seq<char>> {
    if is_na_spec(v) || v.len() == 0 {
        None
    } else {
        Some(v)
    }
}

/// The trimmed pieces of a list, with the empty ones left out.
pub open spec fn clean_items(pieces: Seq<Seq<char>>) -> Seq<Seq<char>>
    decreases pieces.len(),
{
    if pieces.len() == 0 {
        Seq::empty()
    } else {
        let rest = clean_items(pieces.drop_last());
        let t = trim(pieces.last());
        if t.len() > 0 {
            rest.push(t)
        } else {
            rest
        }
    }
}

/// The items of a cell that lists names separated by `", "`.
pub open spec fn list_items(v: Seq<char>) -> Seq<Seq<char>> {
    clean_items(split(v, ", "@))
}

/// The index of the first decimal digit (category `Nd`) at or after `i`.
pub open spec fn first_digit_from(v: Seq<char>, i: int) -> Option<int>
    decreases v.len() - i,
{
    if i < 0 || i >= v.len() {
        None
    } else if is_decimal_number(v[i]) {
        Some(i)
    } else {
        first_digit_from(v, i + 1)
    }
}

/// The end of the run of digits and commas that starts at `i`.
pub open spec fn digit_run_end(v: Seq<char>, i: int) -> int
    decreases v.len() - i,
{
    if 0 <= i < v.len() && (is_decimal_number(v[i]) || v[i] == ',') {
        digit_run_end(v, i + 1)
    } else {
        i
    }
}

/// `s` without its commas.
pub open spec fn drop_commas(s: Seq<char>) -> Seq<char>
    decreases s.len(),
{
    if s.len() == 0 {
        s
    } else if s.last() == ',' {
        drop_commas(s.drop_last())
    } else {
        drop_commas(s.drop_last()).push(s.last())
    }
}

/// The number in a citation cell: the first match of `\d[\d,]*`, without its
/// commas, read as an `i32`; `None` when the cell has no digit at all.
pub open spec fn citation_spec(v: Seq<char>) -> Option<Option<i32>> {
    match first_digit_from(v, 0) {
        None => None,
        Some(p) => Some(parse_i32_spec(drop_commas(v.subrange(p, digit_run_end(v, p + 1))))),
    }
}

/// What one table row `| **key** | value |` does to the record.
pub open spec fn apply_row(info: BibView, key: Seq<char>, value: Seq<char>) -> BibView {
    if key == "タイトル"@ {
        BibView { title: non_na_spec(value), ..info }
    } else if key == "著者"@ {
        if is_na_spec(value) {
            info
        } else {
            BibView { authors: list_items(value), ..info }
        }
    } else if key == "発行年"@ {
        if is_na_spec(value) {
            info
        } else {
            BibView { year: parse_i32_spec(value), ..info }
        }
    } else if key == "掲載誌/学会"@ {
        BibView { venue: non_na_spec(value), ..info }
    } else if key == "DOI"@ {
        BibView { doi: non_na_spec(value), ..info }
    } else if key == "arXiv ID"@ {
        BibView { arxiv_id: non_na_spec(value), ..info }
    } else if key == "研究タスク"@ {
        if is_na_spec(value) {
            info
        } else {
            BibView { research_tasks: list_items(value), ..info }
        }
    } else if key == "被引用数"@ {
        if is_na_spec(value) {
            info
        } else {
            match citation_spec(value) {
                None => info,
                Some(n) => BibView { citation_count: n, ..info },
            }
        }
    } else if key == "オープンアクセス"@ {
        if is_na_spec(value) {
            info
        } else {
            BibView { open_access: Some(value == "Yes"@), ..info }
        }
    } else {
        info
    }
}

// ---------------------------------------------------------------------------
// The row grammar `^\|\s*\*\*(.+?)\*\*\s*\|\s*(.+?)\s*\|$` on one line
// ---------------------------------------------------------------------------

/// Whether `**` occurs in `t` at `i`.
pub open spec fn stars_at(t: Seq<char>, i: int) -> bool {
    occurs_at(t, seq!['*', '*'], i)
}

/// Whether a key that ends at `e` can be followed by the rest of a row:
/// `**`, blanks, `|`, then a value of at least one character and the final `|`.
pub open spec fn row_tail_ok(t: Seq<char>, e: int) -> bool {
    &&& stars_at(t, e)
    &&& skip_ws(t, e + 2) < t.len()
    &&& t[skip_ws(t, e + 2)] == '|'
    &&& t.len() - skip_ws(t, e + 2) >= 3
    &&& t[t.len() - 1] == '|'
}

/// The shortest key that a row allows (the lazy `(.+?)`), searched from `e`.
pub open spec fn key_end_from(t: Seq<char>, e: int) -> Option<int>
    decreases t.len() + 1 - e,
{
    if e < 0 || e > t.len() {
        None
    } else if row_tail_ok(t, e) {
        Some(e)
    } else {
        key_end_from(t, e + 1)
    }
}

/// The key and the value of a table row, both trimmed; `None` when the line
/// (which holds no line break) is not a row.
pub open spec fn row_match(t: Seq<char>) -> Option<(Seq<char>, Seq<char>)> {
    if t.len() == 0 || t[0] != '|' {
        None
    } else {
        let a = skip_ws(t, 1);
        if !stars_at(t, a) {
            None
        } else {
            match key_end_from(t, a + 3) {
                None => None,
                Some(e) => Some(
                    (
                        trim(t.subrange(a + 2, e)),
                        trim(t.subrange(skip_ws(t, e + 2) + 1, t.len() - 1)),
                    ),
                ),
            }
        }
    }
}

// ---------------------------------------------------------------------------
// The section and the whole table
// ---------------------------------------------------------------------------

/// The `## 書誌情報` section: from the first heading to the next `\n## `
/// (or the end of the text).
pub open spec fn bibliography_section(c: Seq<char>) -> Option<Seq<char>> {
    match find_from(c, "## 書誌情報"@, 0) {
        None => None,
        Some(p) => Some(
            c.subrange(
                p,
                match find_from(c, "\n## "@, p + 1) {
                    Some(q) => q,
                    None => c.len() as int,
                },
            ),
        ),
    }
}

/// The record after the first `n` lines.
pub open spec fn bib_fold(lines: Seq<Seq<char>>, n: int) -> BibView
    decreases n,
{
    if n <= 0 || n > lines.len() {
        empty_bib()
    } else {
        let prev = bib_fold(lines, n - 1);
        match row_match(trim(lines[n - 1])) {
            Some((k, v)) => apply_row(prev, k, v),
            None => prev,
        }
    }
}

/// What the bibliography table of the note `c` says: each row of the section,
/// from top to bottom, applied to an empty record.
pub open spec fn bibliography_of(c: Seq<char>) -> BibView {
    match bibliography_section(c) {
        None => empty_bib(),
        Some(sec) => {
            let lines = split(sec, seq!['\n']);
            bib_fold(lines, lines.len() as int)
        },
    }
}

// ---------------------------------------------------------------------------
// Executable parsing
// ---------------------------------------------------------------------------

/// Whether the cell `v` says "not available".
pub fn is_na_chars(v: &Vec<char>) -> (b: bool)
    ensures
        b == is_na_spec(v@),
{
    eq_chars(v, &to_chars("N/A")) || eq_chars(v, &to_chars("n/a")) || eq_chars(v, &to_chars("-"))
}

/// The text of the cell `v`, or `None` when it is empty or not available.
pub fn non_na_chars(v: &Vec<char>) -> (r: Option<String>)
    ensures
        opt_str(r) == non_na_spec(v@),
{
    if is_na_chars(v) || v.len() == 0 {
        None
    } else {
        Some(string_from_chars(v.as_slice()))
    }
}

/// The items of a cell that lists names separated by `", "`.
pub fn list_items_chars(v: &Vec<char>) -> (r: Vec<String>)
    ensures
        strs(r@) == list_items(v@),
{
    let sep = to_chars(", ");
    proof {
        reveal_strlit(", ");
    }
    let ranges = split_ranges(v, &sep);
    let ghost pieces = split(v@, sep@);
    let mut out: Vec<String> = Vec::new();
    let mut i: usize = 0;
    while i < ranges.len()
        invariant
            i <= ranges@.len() == pieces.len(),
            pieces == split(v@, sep@),
            forall|j: int|
                0 <= j < ranges@.len() ==> {
                    &&& (#[trigger] ranges@[j]).0 <= ranges@[j].1 <= v.len()
                    &&& pieces[j] == v@.subrange(ranges@[j].0 as int, ranges@[j].1 as int)
                },
            strs(out@) == clean_items(pieces.take(i as int)),
        decreases ranges.len() - i,
    {
        let (a, b) = ranges[i];
        let (lo, hi) = trimmed_range(v, a, b);
        proof {
            let pre = pieces.take(i as int);
            let nxt = pieces.take(i + 1);
            assert(nxt.drop_last() =~= pre);
            assert(nxt.last() == pieces[i as int]);
        }
        if lo < hi {
            let piece = sub_vec(v, lo, hi);
            let ghost old_out = out@;
            out.push(string_from_chars(piece.as_slice()));
            proof {
                crate::text::lemma_strs_push(old_out, out@.last());
            }
        }
        i = i + 1;
    }
    assert(pieces.take(pieces.len() as int) =~= pieces);
    out
}

/// The citation number of a cell (see [`citation_spec`]).
pub fn citation_chars(v: &Vec<char>) -> (r: Option<Option<i32>>)
    ensures
        r == citation_spec(v@),
{
    let n = v.len();
    let mut p: usize = 0;
    while p < n && !decimal_number(v[p])
        invariant
            p <= n == v.len(),
            first_digit_from(v@, p as int) == first_digit_from(v@, 0),
        decreases n - p,
    {
        p = p + 1;
    }
    if p == n {
        return None;
    }
    let mut e = p + 1;
    while e < n && (decimal_number(v[e]) || v[e] == ',')
        invariant
            p < e <= n == v.len(),
            digit_run_end(v@, e as int) == digit_run_end(v@, p + 1),
        decreases n - e,
    {
        e = e + 1;
    }
    let mut digits: Vec<char> = Vec::new();
    let mut k = p;
    while k < e
        invariant
            p <= k <= e <= n == v.len(),
            digits@ == drop_commas(v@.subrange(p as int, k as int)),
        decreases e - k,
    {
        proof {
            let nxt = v@.subrange(p as int, k + 1);
            assert(nxt.drop_last() =~= v@.subrange(p as int, k as int));
        }
        if v[k] != ',' {
            digits.push(v[k]);
        }
        k = k + 1;
    }
    Some(parse_i32(&digits))
}

/// Whether `**` occurs in `t` at `i`.
fn stars_at_exec(t: &Vec<char>, i: usize) -> (b: bool)
    ensures
        b == stars_at(t@, i as int),
{
    if i < t.len() && t.len() - i >= 2 && t[i] == '*' && t[i + 1] == '*' {
        assert(t@.subrange(i as int, i + 2) =~= seq!['*', '*']);
        true
    } else {
        proof {
            if stars_at(t@, i as int) {
                assert(t@.subrange(i as int, i + 2)[0] == '*');
                assert(t@.subrange(i as int, i + 2)[1] == '*');
            }
        }
        false
    }
}

/// Whether a key ending at `e` can be followed by the rest of a row.
fn row_tail_exec(t: &Vec<char>, e: usize) -> (b: bool)
    ensures
        b == row_tail_ok(t@, e as int),
{
    if !stars_at_exec(t, e) {
        return false;
    }
    let n = t.len();
    let b = skip_ws_from(t, e + 2, n);
    b < n && t[b] == '|' && n - b >= 3 && t[n - 1] == '|'
}

/// Recognises a table row (see [`row_match`]) and gives where its trimmed key
/// and value lie in `t`.
pub fn row_match_chars(t: &Vec<char>) -> (r: Option<((usize, usize), (usize, usize))>)
    ensures
        match row_match(t@) {
            None => r is None,
            Some((k, v)) => r matches Some((kr, vr)) && kr.0 <= kr.1 <= t.len() && vr.0 <= vr.1
                <= t.len() && t@.subrange(kr.0 as int, kr.1 as int) == k && t@.subrange(
                vr.0 as int,
                vr.1 as int,
            ) == v,
        },
{
    let n = t.len();
    if n == 0 || t[0] != '|' {
        return None;
    }
    let a = skip_ws_from(t, 1, n);
    if !stars_at_exec(t, a) {
        return None;
    }
    let mut e = a + 2;
    while e < n
        invariant
            a + 2 <= e <= n == t.len(),
            n > 0 && t@[0] == '|',
            a == skip_ws(t@, 1),
            stars_at(t@, a as int),
            key_end_from(t@, e + 1) == key_end_from(t@, a + 3),
        decreases n - e,
    {
        e = e + 1;
        if row_tail_exec(t, e) {
            let b = skip_ws_from(t, e + 2, n);
            let kr = trimmed_range(t, a + 2, e);
            let vr = trimmed_range(t, b + 1, n - 1);
            return Some((kr, vr));
        }
    }
    None
}

/// Applies one table row to `info` (see [`apply_row`]).
pub fn apply_row_chars(info: &mut BibliographyInfo, key: &Vec<char>, value: &Vec<char>)
    ensures
        final(info)@ == apply_row(old(info)@, key@, value@),
{
    if eq_chars(key, &to_chars("タイトル")) {
        info.title = non_na_chars(value);
    } else if eq_chars(key, &to_chars("著者")) {
        if !is_na_chars(value) {
            info.authors = list_items_chars(value);
        }
    } else if eq_chars(key, &to_chars("発行年")) {
        if !is_na_chars(value) {
            info.year = parse_i32(value);
        }
    } else if eq_chars(key, &to_chars("掲載誌/学会")) {
        info.venue = non_na_chars(value);
    } else if eq_chars(key, &to_chars("DOI")) {
        info.doi = non_na_chars(value);
    } else if eq_chars(key, &to_chars("arXiv ID")) {
        info.arxiv_id = non_na_chars(value);
    } else if eq_chars(key, &to_chars("研究タスク")) {
        if !is_na_chars(value) {
            info.research_tasks = list_items_chars(value);
        }
    } else if eq_chars(key, &to_chars("被引用数")) {
        if !is_na_chars(value) {
            match citation_chars(value) {
                None => {},
                Some(n) => {
                    info.citation_count = n;
                },
            }
        }
    } else if eq_chars(key, &to_chars("オープンアクセス")) {
        if !is_na_chars(value) {
            info.open_access = Some(eq_chars(value, &to_chars("Yes")));
        }
    }
}

/// Reads the Markdown table of the `## 書誌情報` section of a note: each row
/// `| **key** | value |` of a known key sets the matching field, rows further
/// down overriding rows above.
pub fn parse_bibliography_table(content: &str) -> (info: BibliographyInfo)
    ensures
        info@ == bibliography_of(content@),
{
    let c = to_chars(content);
    let mut info = BibliographyInfo::default();
    let heading = to_chars("## 書誌情報");
    proof {
        reveal_strlit("## 書誌情報");
        crate::text::lemma_find_from(c@, heading@, 0);
    }
    let p = match find_chars(&c, &heading, 0) {
        None => {
            return info;
        },
        Some(p) => p,
    };
    let next = to_chars("\n## ");
    let end = match find_chars(&c, &next, p + 1) {
        Some(q) => q,
        None => c.len(),
    };
    proof {
        crate::text::lemma_find_from(c@, next@, p + 1);
    }
    let section = sub_vec(&c, p, end);
    let mut nl: Vec<char> = Vec::new();
    nl.push('\n');
    let ranges = split_ranges(&section, &nl);
    let ghost lines = split(section@, nl@);
    assert(nl@ =~= seq!['\n']);
    let mut i: usize = 0;
    while i < ranges.len()
        invariant
            i <= ranges@.len() == lines.len(),
            lines == split(section@, seq!['\n']),
            forall|j: int|
                0 <= j < ranges@.len() ==> {
                    &&& (#[trigger] ranges@[j]).0 <= ranges@[j].1 <= section.len()
                    &&& lines[j] == section@.subrange(ranges@[j].0 as int, ranges@[j].1 as int)
                },
            info@ == bib_fold(lines, i as int),
        decreases ranges.len() - i,
    {
        let (a, b) = ranges[i];
        let (lo, hi) = trimmed_range(&section, a, b);
        let line = sub_vec(&section, lo, hi);
        match row_match_chars(&line) {
            Some((kr, vr)) => {
                let key = sub_vec(&line, kr.0, kr.1);
                let value = sub_vec(&line, vr.0, vr.1);
                apply_row_chars(&mut info, &key, &value);
            },
            None => {},
        }
        i = i + 1;
    }
    assert(bibliography_section(content@) == Some(section@));
    info
}

// ---------------------------------------------------------------------------
// Laws
// ---------------------------------------------------------------------------

/// A later title row overrides what the rows above said about the title.
pub proof fn law_later_title_row_wins(lines: Seq<Seq<char>>, line: Seq<char>, value: Seq<char>)
    requires
        row_match(trim(line)) == Some(("タイトル"@, value)),
    ensures
        bib_fold(lines.push(line), lines.len() + 1int).title == non_na_spec(value),
{
    let all = lines.push(line);
    assert(all[lines.len() as int] == line);
}

/// Lines that are not table rows change nothing.
pub proof fn law_other_lines_change_nothing(lines: Seq<Seq<char>>, line: Seq<char>)
    requires
        row_match(trim(line)) is None,
    ensures
        bib_fold(lines.push(line), lines.len() + 1int) == bib_fold(lines, lines.len() as int),
{
    let all = lines.push(line);
    assert(all[lines.len() as int] == line);
    lemma_bib_fold_prefix(lines, line, lines.len() as int);
}

/// The record after the first `n` lines does not depend on the lines after them.
pub proof fn lemma_bib_fold_prefix(lines: Seq<Seq<char>>, line: Seq<char>, n: int)
    requires
        0 <= n <= lines.len(),
    ensures
        bib_fold(lines.push(line), n) == bib_fold(lines, n),
    decreases n,
{
    if n > 0 {
        lemma_bib_fold_prefix(lines, line, n - 1);
        assert(lines.push(line)[n - 1] == lines[n - 1]);
    }
}

/// A note whose whole text is the heading `## 書誌情報` and one table row
/// `| **key** | value |`.
pub open spec fn single_row_note(key: Seq<char>, value: Seq<char>) -> Seq<char> {
    "## 書誌情報"@ + seq!['\n'] + row_line(key, value)
}

/// The table row `| **key** | value |`.
pub open spec fn row_line(key: Seq<char>, value: Seq<char>) -> Seq<char> {
    seq!['|', ' ', '*', '*'] + key + seq!['*', '*', ' ', '|', ' '] + value + seq![' ', '|']
}

/// A text fit to stand in a table cell: not empty, on one line, without
/// white space at either end.
pub open spec fn plain_cell(s: Seq<char>) -> bool {
    &&& s.len() > 0
    &&& !is_ws(s[0])
    &&& !is_ws(s[s.len() - 1])
    &&& forall|i: int| 0 <= i < s.len() ==> #[trigger] s[i] != '\n'
}

proof fn lemma_find_none(h: Seq<char>, p: Seq<char>, i: int)
    requires
        0 <= i,
        forall|j: int| i <= j ==> !#[trigger] occurs_at(h, p, j),
    ensures
        find_from(h, p, i) is None,
    decreases h.len() + 1 - i,
{
    if i + p.len() <= h.len() {
        assert(!occurs_at(h, p, i));
        lemma_find_none(h, p, i + 1);
    }
}

proof fn lemma_find_at(h: Seq<char>, p: Seq<char>, i: int, k: int)
    requires
        0 <= i <= k,
        occurs_at(h, p, k),
        forall|j: int| i <= j < k ==> !#[trigger] occurs_at(h, p, j),
    ensures
        find_from(h, p, i) == Some(k),
    decreases k - i,
{
    if i < k {
        assert(!occurs_at(h, p, i));
        lemma_find_at(h, p, i + 1, k);
    }
}

proof fn lemma_key_end_at(t: Seq<char>, e0: int, e1: int)
    requires
        0 <= e0 <= e1 <= t.len(),
        row_tail_ok(t, e1),
        forall|e: int| e0 <= e < e1 ==> !#[trigger] row_tail_ok(t, e),
    ensures
        key_end_from(t, e0) == Some(e1),
    decreases e1 - e0,
{
    if e0 < e1 {
        assert(!row_tail_ok(t, e0));
        lemma_key_end_at(t, e0 + 1, e1);
    }
}

proof fn lemma_trim_plain(s: Seq<char>)
    requires
        s.len() > 0,
        !is_ws(s[0]),
        !is_ws(s[s.len() - 1]),
    ensures
        trim(s) == s,
{
    crate::text::lemma_trim_extent(s, 0, s.len() as int);
    assert(s.subrange(0, s.len() as int) =~= s);
}

/// The row of a one-row table reads back its key and its value.
proof fn lemma_row_line(key: Seq<char>, value: Seq<char>)
    requires
        plain_cell(key),
        forall|i: int| 0 <= i < key.len() ==> #[trigger] key[i] != '*',
        plain_cell(value),
    ensures
        row_match(trim(row_line(key, value))) == Some((key, value)),
{
    let t = row_line(key, value);
    let nk = key.len() as int;
    let nv = value.len() as int;
    assert(t.len() == nk + nv + 11);
    assert(t[0] == '|');
    assert(t[t.len() - 1] == '|');
    assert(!is_ws('|'));
    lemma_trim_plain(t);
    assert(t[1] == ' ');
    assert(t[2] == '*');
    crate::text::lemma_skip_ws_unique(t, 1, 2);
    assert(t.subrange(2, 4) =~= seq!['*', '*']);
    assert(stars_at(t, 2));
    let e1 = 4 + nk;
    assert forall|e: int| 5 <= e < e1 implies !#[trigger] row_tail_ok(t, e) by {
        assert(t[e] == key[e - 4]);
        if stars_at(t, e) {
            assert(t.subrange(e, e + 2)[0] == t[e]);
        }
    }
    assert(t[e1] == '*' && t[e1 + 1] == '*' && t[e1 + 2] == ' ' && t[e1 + 3] == '|');
    assert(t.subrange(e1, e1 + 2) =~= seq!['*', '*']);
    crate::text::lemma_skip_ws_unique(t, e1 + 2, e1 + 3);
    assert(row_tail_ok(t, e1));
    lemma_key_end_at(t, 5, e1);
    assert(t.subrange(4, e1) =~= key);
    lemma_trim_plain(key);
    let inner = t.subrange(e1 + 4, t.len() - 1);
    assert(inner =~= seq![' '] + value + seq![' ']);
    assert forall|k: int| 0 <= k < 1 implies is_ws(#[trigger] inner[k]) by {}
    assert forall|k: int| nv + 1 <= k < inner.len() implies is_ws(#[trigger] inner[k]) by {
        assert(inner[k] == ' ');
    }
    assert(inner[1] == value[0]);
    assert(inner[nv] == value[nv - 1]);
    crate::text::lemma_trim_extent(inner, 1, nv + 1);
    assert(inner.subrange(1, nv + 1) =~= value);
}

/// A note whose table has one row with a key of known shape reads as that
/// one row applied to an empty record.
pub proof fn lemma_single_row_note(key: Seq<char>, value: Seq<char>)
    requires
        plain_cell(key),
        forall|i: int| 0 <= i < key.len() ==> #[trigger] key[i] != '*',
        plain_cell(value),
    ensures
        bibliography_of(single_row_note(key, value)) == apply_row(empty_bib(), key, value),
{
    reveal_strlit("## 書誌情報");
    reveal_strlit("\n## ");
    let h = "## 書誌情報"@;
    let line = row_line(key, value);
    let c = single_row_note(key, value);
    let nh = h.len() as int;
    assert(nh == 7);
    assert(c.len() == nh + 1 + line.len());
    assert forall|j: int| 0 <= j < nh implies #[trigger] c[j] == h[j] by {}
    assert(c[nh] == '\n');
    assert forall|j: int| nh < j < c.len() implies #[trigger] c[j] == line[j - nh - 1] by {}
    // The heading is at the start.
    assert(c.subrange(0, nh) =~= h);
    lemma_find_at(c, h, 0, 0);
    // No further heading follows.
    assert forall|j: int| 1 <= j implies !#[trigger] occurs_at(c, "\n## "@, j) by {
        if occurs_at(c, "\n## "@, j) {
            assert(c.subrange(j, j + 4)[0] == c[j]);
            assert(c.subrange(j, j + 4)[1] == c[j + 1]);
            assert(c[j] == '\n');
            if j < nh {
                assert(c[j] == h[j]);
            } else if j > nh {
                assert(c[j] == line[j - nh - 1]);
                assert(line[j - nh - 1] != '\n');
            } else {
                assert(c[j + 1] == line[0]);
            }
        }
    }
    lemma_find_none(c, "\n## "@, 1);
    assert(bibliography_section(c) == Some(c.subrange(0, c.len() as int)));
    assert(c.subrange(0, c.len() as int) =~= c);
    // The lines are the heading and the row.
    let nl = seq!['\n'];
    assert forall|j: int| 0 <= j < nh implies !#[trigger] occurs_at(c, nl, j) by {
        if occurs_at(c, nl, j) {
            assert(c.subrange(j, j + 1)[0] == c[j]);
        }
    }
    assert(c.subrange(nh, nh + 1) =~= nl);
    lemma_find_at(c, nl, 0, nh);
    assert forall|j: int| nh + 1 <= j implies !#[trigger] occurs_at(c, nl, j) by {
        if occurs_at(c, nl, j) {
            assert(c.subrange(j, j + 1)[0] == c[j]);
            assert(line[j - nh - 1] != '\n');
        }
    }
    lemma_find_none(c, nl, nh + 1);
    let lines = split(c, nl);
    assert(split_from(c, nl, nh + 1) == seq![c.subrange(nh + 1, c.len() as int)]);
    assert(lines == seq![c.subrange(0, nh)] + seq![c.subrange(nh + 1, c.len() as int)]);
    assert(c.subrange(nh + 1, c.len() as int) =~= line);
    assert(lines.len() == 2);
    assert(lines[0] == h);
    assert(lines[1] == line);
    // The heading is no row; the row reads back.
    lemma_trim_plain(h);
    assert(row_match(trim(lines[0])) is None);
    lemma_row_line(key, value);
    assert(bib_fold(lines, 0) == empty_bib());
    assert(bib_fold(lines, 1) == empty_bib());
}

/// The keys of the table differ from one another.
proof fn lemma_keys_distinct()
    ensures
        ({
            let keys = seq![
                "タイトル"@,
                "著者"@,
                "発行年"@,
                "掲載誌/学会"@,
                "DOI"@,
                "arXiv ID"@,
                "研究タスク"@,
                "被引用数"@,
                "オープンアクセス"@,
            ];
            forall|i: int, j: int| 0 <= i < j < 9 ==> #[trigger] keys[i] != #[trigger] keys[j]
        }),
{
    reveal_strlit("タイトル");
    reveal_strlit("著者");
    reveal_strlit("発行年");
    reveal_strlit("掲載誌/学会");
    reveal_strlit("DOI");
    reveal_strlit("arXiv ID");
    reveal_strlit("研究タスク");
    reveal_strlit("被引用数");
    reveal_strlit("オープンアクセス");
    let keys = seq![
        "タイトル"@,
        "著者"@,
        "発行年"@,
        "掲載誌/学会"@,
        "DOI"@,
        "arXiv ID"@,
        "研究タスク"@,
        "被引用数"@,
        "オープンアクセス"@,
    ];
    assert forall|i: int, j: int| 0 <= i < j < 9 implies #[trigger] keys[i] != #[trigger] keys[j] by {
        assert(keys[i][0] != keys[j][0]);
    }
}

/// An open-access cell means open access exactly when it says `Yes`: a table
/// whose only row is `| **オープンアクセス** | v |`, with `v` not "not
/// available", gives open access `Some(v == "Yes")`.
pub proof fn law_open_access_means_yes(value: Seq<char>)
    requires
        plain_cell(value),
        !is_na_spec(value),
    ensures
        bibliography_of(single_row_note("オープンアクセス"@, value)).open_access == Some(
            value == "Yes"@,
        ),
{
    reveal_strlit("オープンアクセス");
    lemma_single_row_note("オープンアクセス"@, value);
    lemma_keys_distinct();
    let keys = seq![
        "タイトル"@,
        "著者"@,
        "発行年"@,
        "掲載誌/学会"@,
        "DOI"@,
        "arXiv ID"@,
        "研究タスク"@,
        "被引用数"@,
        "オープンアクセス"@,
    ];
    assert(keys[0] != keys[8] && keys[1] != keys[8] && keys[2] != keys[8] && keys[3] != keys[8]
        && keys[4] != keys[8] && keys[5] != keys[8] && keys[6] != keys[8] && keys[7] != keys[8]);
}

/// A DOI cell that is not "not available" is the DOI of the table.
pub proof fn law_doi_cell_is_the_doi(value: Seq<char>)
    requires
        plain_cell(value),
        !is_na_spec(value),
    ensures
        bibliography_of(single_row_note("DOI"@, value)).doi == Some(value),
{
    reveal_strlit("DOI");
    lemma_single_row_note("DOI"@, value);
    lemma_keys_distinct();
    let keys = seq![
        "タイトル"@,
        "著者"@,
        "発行年"@,
        "掲載誌/学会"@,
        "DOI"@,
        "arXiv ID"@,
        "研究タスク"@,
        "被引用数"@,
        "オープンアクセス"@,
    ];
    assert(keys[0] != keys[4] && keys[1] != keys[4] && keys[2] != keys[4] && keys[3] != keys[4]);
}


/// A title cell that is not "not available" is the title of the table.
pub proof fn law_title_cell_is_the_title(value: Seq<char>)
    requires
        plain_cell(value),
        !is_na_spec(value),
    ensures
        bibliography_of(single_row_note("タイトル"@, value)).title == Some(value),
{
    reveal_strlit("タイトル");
    lemma_single_row_note("タイトル"@, value);
    lemma_keys_distinct();
    let keys = seq![
        "タイトル"@,
        "著者"@,
        "発行年"@,
        "掲載誌/学会"@,
        "DOI"@,
        "arXiv ID"@,
        "研究タスク"@,
        "被引用数"@,
        "オープンアクセス"@,
    ];
    assert(true);
}

/// A venue cell that is not "not available" is the venue of the table.
pub proof fn law_venue_cell_is_the_venue(value: Seq<char>)
    requires
        plain_cell(value),
        !is_na_spec(value),
    ensures
        bibliography_of(single_row_note("掲載誌/学会"@, value)).venue == Some(value),
{
    reveal_strlit("掲載誌/学会");
    lemma_single_row_note("掲載誌/学会"@, value);
    lemma_keys_distinct();
    let keys = seq![
        "タイトル"@,
        "著者"@,
        "発行年"@,
        "掲載誌/学会"@,
        "DOI"@,
        "arXiv ID"@,
        "研究タスク"@,
        "被引用数"@,
        "オープンアクセス"@,
    ];
    assert(keys[0] != keys[3] && keys[1] != keys[3] && keys[2] != keys[3]);
}

/// An arXiv cell that is not "not available" is the arXiv ID of the table.
pub proof fn law_arxiv_cell_is_the_arxiv_id(value: Seq<char>)
    requires
        plain_cell(value),
        !is_na_spec(value),
    ensures
        bibliography_of(single_row_note("arXiv ID"@, value)).arxiv_id == Some(value),
{
    reveal_strlit("arXiv ID");
    lemma_single_row_note("arXiv ID"@, value);
    lemma_keys_distinct();
    let keys = seq![
        "タイトル"@,
        "著者"@,
        "発行年"@,
        "掲載誌/学会"@,
        "DOI"@,
        "arXiv ID"@,
        "研究タスク"@,
        "被引用数"@,
        "オープンアクセス"@,
    ];
    assert(keys[0] != keys[5] && keys[1] != keys[5] && keys[2] != keys[5] && keys[3] != keys[5] && keys[4] != keys[5]);
}

/// The decimal text of a number fits a table cell, says "available", and is
/// one run of digits without commas.
proof fn lemma_number_cell(n: nat)
    ensures
        plain_cell(crate::num::decimal(n)),
        !is_na_spec(crate::num::decimal(n)),
        first_digit_from(crate::num::decimal(n), 0) == Some(0int),
        digit_run_end(crate::num::decimal(n), 1) == crate::num::decimal(n).len(),
        drop_commas(crate::num::decimal(n)) == crate::num::decimal(n),
{
    crate::num::law_decimal_spells_back(n);
    let v = crate::num::decimal(n);
    assert(crate::num::is_ascii_digit(v[0]));
    assert(crate::num::is_ascii_digit(v[v.len() - 1]));
    assert forall|i: int| 0 <= i < v.len() implies #[trigger] v[i] != '\n' by {
        assert(crate::num::is_ascii_digit(v[i]));
    }
    reveal_strlit("N/A");
    reveal_strlit("n/a");
    reveal_strlit("-");
    assert(v != "N/A"@) by {
        if v == "N/A"@ {
            assert(v[0] == 'N');
        }
    }
    assert(v != "n/a"@) by {
        if v == "n/a"@ {
            assert(v[0] == 'n');
        }
    }
    assert(v != "-"@) by {
        if v == "-"@ {
            assert(v[0] == '-');
        }
    }
    lemma_digit_run(v, 1);
    lemma_no_commas(v);
}

proof fn lemma_digit_run(v: Seq<char>, i: int)
    requires
        1 <= i <= v.len(),
        crate::num::all_digits(v),
    ensures
        digit_run_end(v, i) == v.len(),
    decreases v.len() - i,
{
    if i < v.len() {
        assert(crate::num::is_ascii_digit(v[i]));
        lemma_digit_run(v, i + 1);
    }
}

proof fn lemma_no_commas(v: Seq<char>)
    requires
        crate::num::all_digits(v),
    ensures
        drop_commas(v) == v,
    decreases v.len(),
{
    if v.len() > 0 {
        assert(crate::num::is_ascii_digit(v.last()));
        assert forall|i: int| 0 <= i < v.drop_last().len() implies crate::num::is_ascii_digit(
            #[trigger] v.drop_last()[i],
        ) by {
            assert(v.drop_last()[i] == v[i]);
        }
        lemma_no_commas(v.drop_last());
        assert(v.drop_last().push(v.last()) =~= v);
    }
}

/// A year cell holding the decimal text of a number gives that year.
pub proof fn law_year_cell_reads_the_number(n: nat)
    requires
        n <= i32::MAX,
    ensures
        bibliography_of(single_row_note("発行年"@, crate::num::decimal(n))).year == Some(n as i32),
{
    reveal_strlit("発行年");
    crate::num::law_decimal_spells_back(n);
    let v = crate::num::decimal(n);
    lemma_number_cell(n);
    lemma_single_row_note("発行年"@, v);
    crate::num::law_parse_reads_decimal(n);
    lemma_keys_distinct();
    let keys = seq![
        "タイトル"@,
        "著者"@,
        "発行年"@,
        "掲載誌/学会"@,
        "DOI"@,
        "arXiv ID"@,
        "研究タスク"@,
        "被引用数"@,
        "オープンアクセス"@,
    ];
    assert(keys[0] != keys[2] && keys[1] != keys[2]);
}

/// A citation cell holding the decimal text of a number gives that count.
pub proof fn law_citation_cell_reads_the_number(n: nat)
    requires
        n <= i32::MAX,
    ensures
        bibliography_of(single_row_note("被引用数"@, crate::num::decimal(n))).citation_count == Some(
            n as i32,
        ),
{
    reveal_strlit("被引用数");
    crate::num::law_decimal_spells_back(n);
    let v = crate::num::decimal(n);
    lemma_number_cell(n);
    lemma_single_row_note("被引用数"@, v);
    crate::num::law_parse_reads_decimal(n);
    assert(v.subrange(0, v.len() as int) =~= v);
    lemma_keys_distinct();
    let keys = seq![
        "タイトル"@,
        "著者"@,
        "発行年"@,
        "掲載誌/学会"@,
        "DOI"@,
        "arXiv ID"@,
        "研究タスク"@,
        "被引用数"@,
        "オープンアクセス"@,
    ];
    assert(keys[0] != keys[7] && keys[1] != keys[7] && keys[2] != keys[7] && keys[3] != keys[7] && keys[4] != keys[7] && keys[5] != keys[7] && keys[6] != keys[7]);
}


/// A name fit for a list cell: a plain cell without commas.
pub open spec fn plain_name(s: Seq<char>) -> bool {
    plain_cell(s) && forall|i: int| 0 <= i < s.len() ==> #[trigger] s[i] != ','
}

/// Two names joined by `", "` read back as the two names, in order.
proof fn lemma_two_items(a: Seq<char>, b: Seq<char>)
    requires
        plain_name(a),
        plain_name(b),
    ensures
        list_items(a + ", "@ + b) == seq![a, b],
        plain_cell(a + ", "@ + b),
        !is_na_spec(a + ", "@ + b),
{
    reveal_strlit(", ");
    let sep = ", "@;
    let v = a + sep + b;
    let na = a.len() as int;
    assert(v.len() == na + 2 + b.len());
    assert forall|j: int| 0 <= j < na implies #[trigger] v[j] == a[j] by {}
    assert(v[na] == ',' && v[na + 1] == ' ');
    assert forall|j: int| na + 2 <= j < v.len() implies #[trigger] v[j] == b[j - na - 2] by {}
    assert forall|j: int| 0 <= j < na implies !#[trigger] occurs_at(v, sep, j) by {
        if occurs_at(v, sep, j) {
            assert(v.subrange(j, j + 2)[0] == v[j]);
        }
    }
    assert(v.subrange(na, na + 2) =~= sep);
    lemma_find_at(v, sep, 0, na);
    assert forall|j: int| na + 2 <= j implies !#[trigger] occurs_at(v, sep, j) by {
        if occurs_at(v, sep, j) {
            assert(v.subrange(j, j + 2)[0] == v[j]);
            assert(b[j - na - 2] != ',');
        }
    }
    lemma_find_none(v, sep, na + 2);
    assert(split_from(v, sep, na + 2) == seq![v.subrange(na + 2, v.len() as int)]);
    assert(v.subrange(0, na) =~= a);
    assert(v.subrange(na + 2, v.len() as int) =~= b);
    let pieces = split(v, sep);
    assert(pieces =~= seq![a, b]);
    lemma_trim_plain(a);
    lemma_trim_plain(b);
    assert(pieces.drop_last() =~= seq![a]);
    assert(seq![a].drop_last() =~= Seq::<Seq<char>>::empty());
    assert(clean_items(Seq::<Seq<char>>::empty()) == Seq::<Seq<char>>::empty());
    assert(seq![a].last() == a);
    assert(trim(a).len() > 0);
    assert(clean_items(seq![a]) == Seq::<Seq<char>>::empty().push(a));
    assert(Seq::<Seq<char>>::empty().push(a) =~= seq![a]);
    assert(clean_items(pieces) =~= seq![a, b]);
    assert(v[0] == a[0]);
    assert(v[v.len() - 1] == b[b.len() - 1]);
    assert forall|i: int| 0 <= i < v.len() implies #[trigger] v[i] != '\n' by {
        if i < na {
            assert(v[i] == a[i]);
        } else if i >= na + 2 {
            assert(v[i] == b[i - na - 2]);
        }
    }
    reveal_strlit("N/A");
    reveal_strlit("n/a");
    reveal_strlit("-");
}

/// An author cell listing two names gives those two authors, in order.
pub proof fn law_author_cell_lists_the_authors(a: Seq<char>, b: Seq<char>)
    requires
        plain_name(a),
        plain_name(b),
    ensures
        bibliography_of(single_row_note("著者"@, a + ", "@ + b)).authors == seq![a, b],
{
    reveal_strlit("著者");
    lemma_two_items(a, b);
    lemma_single_row_note("著者"@, a + ", "@ + b);
    lemma_keys_distinct();
    let keys = seq![
        "タイトル"@,
        "著者"@,
        "発行年"@,
        "掲載誌/学会"@,
        "DOI"@,
        "arXiv ID"@,
        "研究タスク"@,
        "被引用数"@,
        "オープンアクセス"@,
    ];
    assert(keys[0] != keys[1]);
}

/// A research-task cell listing two tasks gives those two tasks, in order.
pub proof fn law_task_cell_lists_the_tasks(a: Seq<char>, b: Seq<char>)
    requires
        plain_name(a),
        plain_name(b),
    ensures
        bibliography_of(single_row_note("研究タスク"@, a + ", "@ + b)).research_tasks == seq![a, b],
{
    reveal_strlit("研究タスク");
    lemma_two_items(a, b);
    lemma_single_row_note("研究タスク"@, a + ", "@ + b);
    lemma_keys_distinct();
    let keys = seq![
        "タイトル"@,
        "著者"@,
        "発行年"@,
        "掲載誌/学会"@,
        "DOI"@,
        "arXiv ID"@,
        "研究タスク"@,
        "被引用数"@,
        "オープンアクセス"@,
    ];
    assert(keys[0] != keys[6] && keys[1] != keys[6] && keys[2] != keys[6] && keys[3] != keys[6]
        && keys[4] != keys[6] && keys[5] != keys[6]);
}

} // verus!

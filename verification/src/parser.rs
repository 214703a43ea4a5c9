use vstd::prelude::*;

use crate::bibliography::{bibliography_of, is_na_chars, is_na_spec, non_na_chars, non_na_spec, parse_bibliography_table};
use crate::models::{Paper, PaperView};
use crate::text::{
    eq_chars, find_chars, find_from, occurs_at, opt_str, skip_ws, skip_ws_from, split, split_ranges,
    string_from_chars, strs, sub_vec, to_chars,
};

verus! {

// ---------------------------------------------------------------------------
// Frontmatter
// ---------------------------------------------------------------------------

/// The YAML frontmatter of a note, as far as this tool reads it.
pub struct Frontmatter {
    pub tags: Vec<String>,
    pub ac_paper_status: Option<String>,
    pub year: Option<i32>,
    pub field_of_study: FieldOfStudy,
    pub created: Option<String>,
}

impl Default for Frontmatter {
    fn default() -> (r: Self)
        ensures
            r.tags@.len() == 0,
            r.ac_paper_status is None,
            r.year is None,
            r.field_of_study is Missing,
            r.created is None,
    {
        Frontmatter {
            tags: Vec::new(),
            ac_paper_status: None,
            year: None,
            field_of_study: FieldOfStudy::Missing,
            created: None,
        }
    }
}

/// `field-of-study`, which a note writes as one string, as a list, or not at all.
pub enum FieldOfStudy {
    Missing,
    Single(String),
    Multiple(Vec<String>),
}

/// The fields of study that a `field-of-study` entry names; an empty single
/// string names none.
pub open spec fn field_list(f: FieldOfStudy) -> Seq<Seq<char>> {
    match f {
        FieldOfStudy::Missing => Seq::empty(),
        FieldOfStudy::Single(s) => if s@.len() == 0 {
            Seq::empty()
        } else {
            seq![s@]
        },
        FieldOfStudy::Multiple(v) => strs(v@),
    }
}

impl FieldOfStudy {
    /// The fields of study as a list (see [`field_list`]).
    pub fn into_vec(self) -> (r: Vec<String>)
        ensures
            strs(r@) == field_list(self),
    {
        match self {
            FieldOfStudy::Missing => {
                let r: Vec<String> = Vec::new();
                assert(strs(r@) =~= Seq::<Seq<char>>::empty());
                r
            },
            FieldOfStudy::Single(s) => {
                if s.as_str().is_empty() {
                    let r: Vec<String> = Vec::new();
                    assert(strs(r@) =~= Seq::<Seq<char>>::empty());
                    r
                } else {
                    let ghost sv = s@;
                    let mut r: Vec<String> = Vec::new();
                    r.push(s);
                    assert(strs(r@) =~= seq![sv]);
                    r
                }
            },
            FieldOfStudy::Multiple(v) => v,
        }
    }
}

/// The YAML text between the opening `---` of a note (after any leading
/// white space) and the next line that starts with `---`.
pub open spec fn frontmatter_block_spec(c: Seq<char>) -> Option<Seq<char>> {
    let s = skip_ws(c, 0);
    if !occurs_at(c, "---"@, s) {
        None
    } else {
        match find_from(c, "\n---"@, s + 3) {
            None => None,
            Some(q) => Some(c.subrange(s + 3, q)),
        }
    }
}

/// Cuts the frontmatter block out of a note (see [`frontmatter_block_spec`]);
/// its YAML is for the caller to read.
pub fn frontmatter_block(content: &str) -> (r: Option<String>)
    ensures
        opt_str(r) == frontmatter_block_spec(content@),
{
    let c = to_chars(content);
    let s = skip_ws_from(&c, 0, c.len());
    let dashes = to_chars("---");
    proof {
        reveal_strlit("---");
    }
    if !crate::text::matches_at(&c, &dashes, s) {
        return None;
    }
    let pat = to_chars("\n---");
    match find_chars(&c, &pat, s + 3) {
        None => None,
        Some(q) => {
            let block = sub_vec(&c, s + 3, q);
            Some(string_from_chars(block.as_slice()))
        },
    }
}

// ---------------------------------------------------------------------------
// Cell helpers on strings
// ---------------------------------------------------------------------------

/// Whether a table cell says "not available" (`N/A`, `n/a` or `-`).
pub fn is_na(s: &str) -> (b: bool)
    ensures
        b == is_na_spec(s@),
{
    is_na_chars(&to_chars(s))
}

/// The cell's text, or `None` when it is empty or not available.
pub fn non_na(s: &str) -> (r: Option<String>)
    ensures
        opt_str(r) == non_na_spec(s@),
{
    non_na_chars(&to_chars(s))
}

// ---------------------------------------------------------------------------
// File names
// ---------------------------------------------------------------------------

/// The last component of a path split at `/`, skipping empty and `.` pieces.
pub open spec fn last_component(pieces: Seq<Seq<char>>) -> Option<Seq<char>>
    decreases pieces.len(),
{
    if pieces.len() == 0 {
        None
    } else if pieces.last().len() == 0 || pieces.last() == "."@ {
        last_component(pieces.drop_last())
    } else {
        Some(pieces.last())
    }
}

/// `Path::file_name` on a Unix path: its last normal component.
pub open spec fn file_name_spec(p: Seq<char>) -> Option<Seq<char>> {
    match last_component(split(p, seq!['/'])) {
        None => None,
        Some(n) => if n == ".."@ {
            None
        } else {
            Some(n)
        },
    }
}

/// The index of the last `.` in `n`, if any.
pub open spec fn last_dot(n: Seq<char>, j: int) -> Option<int>
    decreases j,
{
    if j <= 0 || j > n.len() {
        None
    } else if n[j - 1] == '.' {
        Some(j - 1)
    } else {
        last_dot(n, j - 1)
    }
}

/// `Path::file_stem`: the file name without its last extension; a name whose
/// only dot is its first character keeps it.
pub open spec fn file_stem_spec(p: Seq<char>) -> Option<Seq<char>> {
    match file_name_spec(p) {
        None => None,
        Some(n) => match last_dot(n, n.len() as int) {
            None => Some(n),
            Some(i) => if i == 0 {
                Some(n)
            } else {
                Some(n.take(i))
            },
        },
    }
}

/// The range of the file name of `p` (see [`file_name_spec`]).
pub fn file_name_range(p: &Vec<char>) -> (r: Option<(usize, usize)>)
    ensures
        match file_name_spec(p@) {
            None => r is None,
            Some(n) => r matches Some(x) && x.0 <= x.1 <= p.len() && p@.subrange(
                x.0 as int,
                x.1 as int,
            ) == n,
        },
{
    let mut sep: Vec<char> = Vec::new();
    sep.push('/');
    assert(sep@ =~= seq!['/']);
    let ranges = split_ranges(p, &sep);
    let ghost pieces = split(p@, seq!['/']);
    let dot = to_chars(".");
    let dotdot = to_chars("..");
    let mut i = ranges.len();
    assert(pieces.take(i as int) =~= pieces);
    while i > 0
        invariant
            i <= ranges@.len() == pieces.len(),
            pieces == split(p@, seq!['/']),
            dot@ == "."@,
            dotdot@ == ".."@,
            forall|j: int|
                #![trigger ranges@[j]]
                0 <= j < ranges@.len() ==> {
                    &&& ranges@[j].0 <= ranges@[j].1 <= p.len()
                    &&& pieces[j] == p@.subrange(ranges@[j].0 as int, ranges@[j].1 as int)
                },
            last_component(pieces.take(i as int)) == last_component(pieces),
        decreases i,
    {
        let (a, b) = ranges[i - 1];
        let piece = sub_vec(p, a, b);
        proof {
            let t = pieces.take(i as int);
            assert(t.drop_last() =~= pieces.take(i - 1));
            assert(t.last() == piece@);
        }
        if a < b && !eq_chars(&piece, &dot) {
            assert(last_component(pieces.take(i as int)) == Some(piece@));
            if eq_chars(&piece, &dotdot) {
                return None;
            }
            return Some((a, b));
        }
        i = i - 1;
    }
    assert(pieces.take(0) =~= Seq::<Seq<char>>::empty());
    None
}

/// `Path::file_stem` of `path` (see [`file_stem_spec`]).
pub fn file_stem(path: &str) -> (r: Option<String>)
    ensures
        opt_str(r) == file_stem_spec(path@),
{
    let p = to_chars(path);
    match file_name_range(&p) {
        None => None,
        Some((a, b)) => {
            let name = sub_vec(&p, a, b);
            let mut j = name.len();
            while j > 0 && name[j - 1] != '.'
                invariant
                    j <= name.len(),
                    last_dot(name@, j as int) == last_dot(name@, name.len() as int),
                decreases j,
            {
                j = j - 1;
            }
            if j <= 1 {
                Some(string_from_chars(name.as_slice()))
            } else {
                let stem = sub_vec(&name, 0, j - 1);
                assert(stem@ =~= name@.take(j - 1));
                Some(string_from_chars(stem.as_slice()))
            }
        },
    }
}

// ---------------------------------------------------------------------------
// Papers
// ---------------------------------------------------------------------------

/// The paper that a note describes: a note is a paper when its frontmatter
/// carries the tag `学術論文`. The bibliography table wins over the
/// frontmatter for the year, and the file name stands in for a missing title.
pub open spec fn paper_of(
    file_path: Seq<char>,
    content: Seq<char>,
    modified_at: Seq<char>,
    frontmatter: Option<Frontmatter>,
) -> Option<PaperView> {
    match frontmatter {
        None => None,
        Some(fm) => if !strs(fm.tags@).contains("学術論文"@) {
            None
        } else {
            let bib = bibliography_of(content);
            Some(
                PaperView {
                    file_path: file_path,
                    title: match bib.title {
                        Some(t) => Some(t),
                        None => file_stem_spec(file_path),
                    },
                    year: match bib.year {
                        Some(y) => Some(y),
                        None => fm.year,
                    },
                    venue: bib.venue,
                    doi: bib.doi,
                    arxiv_id: bib.arxiv_id,
                    citation_count: bib.citation_count,
                    open_access: bib.open_access,
                    status: opt_str(fm.ac_paper_status),
                    authors: bib.authors,
                    tags: strs(fm.tags@),
                    fields_of_study: field_list(fm.field_of_study),
                    research_tasks: bib.research_tasks,
                    file_modified_at: modified_at,
                },
            )
        },
    }
}

/// Whether one of `tags` is `学術論文`.
fn has_paper_tag(tags: &Vec<String>) -> (b: bool)
    ensures
        b == strs(tags@).contains("学術論文"@),
{
    let want = to_chars("学術論文");
    let mut i: usize = 0;
    while i < tags.len()
        invariant
            i <= tags.len(),
            want@ == "学術論文"@,
            forall|k: int| 0 <= k < i ==> tags@[k]@ != "学術論文"@,
        decreases tags.len() - i,
    {
        if eq_chars(&to_chars(tags[i].as_str()), &want) {
            assert(strs(tags@)[i as int] == "学術論文"@);
            return true;
        }
        i = i + 1;
    }
    proof {
        if strs(tags@).contains("学術論文"@) {
            let k = choose|k: int| 0 <= k < strs(tags@).len() && strs(tags@)[k] == "学術論文"@;
            assert(tags@[k]@ == "学術論文"@);
        }
    }
    false
}

/// Builds the paper that a note describes (see [`paper_of`]); `frontmatter`
/// is the note's frontmatter as its YAML reads, `None` when it has none.
pub fn parse_paper(
    file_path: &str,
    content: &str,
    modified_at: &str,
    frontmatter: Option<Frontmatter>,
) -> (r: Option<Paper>)
    ensures
        match r {
            None => paper_of(file_path@, content@, modified_at@, frontmatter) is None,
            Some(p) => paper_of(file_path@, content@, modified_at@, frontmatter) == Some(p@),
        },
{
    let fm = match frontmatter {
        None => {
            return None;
        },
        Some(fm) => fm,
    };
    if !has_paper_tag(&fm.tags) {
        return None;
    }
    let bib = parse_bibliography_table(content);
    let year = match bib.year {
        Some(y) => Some(y),
        None => fm.year,
    };
    let title = match bib.title {
        Some(t) => Some(t),
        None => file_stem(file_path),
    };
    let paper = Paper {
        file_path: file_path.to_string(),
        title,
        year,
        venue: bib.venue,
        doi: bib.doi,
        arxiv_id: bib.arxiv_id,
        citation_count: bib.citation_count,
        open_access: bib.open_access,
        status: fm.ac_paper_status,
        authors: bib.authors,
        tags: fm.tags,
        fields_of_study: fm.field_of_study.into_vec(),
        research_tasks: bib.research_tasks,
        file_modified_at: modified_at.to_string(),
    };
    Some(paper)
}

// ---------------------------------------------------------------------------
// Laws
// ---------------------------------------------------------------------------

/// A note whose frontmatter does not carry the tag `学術論文` is no paper.
pub proof fn law_paper_needs_tag(file_path: Seq<char>, content: Seq<char>, modified_at: Seq<char>, fm: Frontmatter)
    requires
        !strs(fm.tags@).contains("学術論文"@),
    ensures
        paper_of(file_path, content, modified_at, Some(fm)) is None,
{
}

/// A note without frontmatter is no paper.
pub proof fn law_no_frontmatter_no_paper(file_path: Seq<char>, content: Seq<char>, modified_at: Seq<char>)
    ensures
        paper_of(file_path, content, modified_at, None) is None,
{
}

/// The year of the bibliography table wins over the year of the frontmatter.
pub proof fn law_table_year_wins(file_path: Seq<char>, content: Seq<char>, modified_at: Seq<char>, fm: Frontmatter)
    requires
        strs(fm.tags@).contains("学術論文"@),
        bibliography_of(content).year is Some,
    ensures
        paper_of(file_path, content, modified_at, Some(fm)) matches Some(p) && p.year
            == bibliography_of(content).year,
{
}

/// Without a year in the table, the paper keeps the year of its frontmatter.
pub proof fn law_frontmatter_year_fallback(file_path: Seq<char>, content: Seq<char>, modified_at: Seq<char>, fm: Frontmatter)
    requires
        strs(fm.tags@).contains("学術論文"@),
        bibliography_of(content).year is None,
    ensures
        paper_of(file_path, content, modified_at, Some(fm)) matches Some(p) && p.year == fm.year,
{
}

/// Without a title in the table, the paper is titled by its file name
/// without the extension.
pub proof fn law_title_falls_back_to_file_stem(file_path: Seq<char>, content: Seq<char>, modified_at: Seq<char>, fm: Frontmatter)
    requires
        strs(fm.tags@).contains("学術論文"@),
        bibliography_of(content).title is None,
    ensures
        paper_of(file_path, content, modified_at, Some(fm)) matches Some(p) && p.title
            == file_stem_spec(file_path),
{
}


/// A paper carries what its note says: the bibliography table gives the
/// venue, DOI, arXiv ID, citation count, open access, authors and research
/// tasks; the frontmatter gives the status, the tags and the fields of study;
/// and the path and modification time are the ones given.
pub proof fn law_paper_carries_note_fields(
    file_path: Seq<char>,
    content: Seq<char>,
    modified_at: Seq<char>,
    fm: Frontmatter,
    p: PaperView,
)
    requires
        paper_of(file_path, content, modified_at, Some(fm)) == Some(p),
    ensures
        p.venue == bibliography_of(content).venue,
        p.doi == bibliography_of(content).doi,
        p.arxiv_id == bibliography_of(content).arxiv_id,
        p.citation_count == bibliography_of(content).citation_count,
        p.open_access == bibliography_of(content).open_access,
        p.authors == bibliography_of(content).authors,
        p.research_tasks == bibliography_of(content).research_tasks,
        p.status == opt_str(fm.ac_paper_status),
        p.tags == strs(fm.tags@),
        p.fields_of_study == field_list(fm.field_of_study),
        p.file_path == file_path,
        p.file_modified_at == modified_at,
        bibliography_of(content).title is Some ==> p.title == bibliography_of(content).title,
{
}

} // verus!

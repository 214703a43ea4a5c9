use vstd::prelude::*;

use crate::models::{PaperResult, PaperResultView};
use quick_xml::events::{BytesDecl, BytesEnd, BytesStart, BytesText, Event};
use crate::num::{i32_text, i32_text_chars};
use crate::text::{joined, opt_str, string_from_chars, strs, sub_vec, to_chars};

verus! {

// ---------------------------------------------------------------------------
// Cell formatting
// ---------------------------------------------------------------------------

/// `s` cut to at most `max` characters: a longer text keeps its first
/// `max - 3` characters followed by `...`.
pub open spec fn truncate_spec(s: Seq<char>, max: usize) -> Seq<char> {
    if s.len() <= max {
        s
    } else {
        s.take(max - 3) + "..."@
    }
}

/// Cuts `s` to at most `max` characters (see [`truncate_spec`]).
pub fn truncate(s: &str, max: usize) -> (r: String)
    requires
        s@.len() > max ==> max >= 3,
    ensures
        r@ == truncate_spec(s@, max),
        r@.len() <= max || r@ == s@,
{
    let chars = to_chars(s);
    if chars.len() <= max {
        String::from_str(s)
    } else {
        let head = sub_vec(&chars, 0, max - 3);
        let mut r = string_from_chars(head.as_slice());
        r.append("...");
        proof {
            reveal_strlit("...");
        }
        assert(head@ =~= s@.take(max - 3));
        r
    }
}

/// The author list as shown: at most `max` names joined by `", "`, with
/// ` et al.` when some were left out.
pub open spec fn format_authors_spec(authors: Seq<Seq<char>>, max: usize) -> Seq<char> {
    if authors.len() == 0 {
        Seq::empty()
    } else if authors.len() <= max {
        joined(authors, ", "@)
    } else {
        joined(authors.take(max as int), ", "@) + " et al."@
    }
}

/// The first `n` names joined by `", "`.
fn join_names(authors: &[String], n: usize) -> (r: String)
    requires
        n <= authors@.len(),
    ensures
        r@ == joined(strs(authors@).take(n as int), ", "@),
{
    let ghost names = strs(authors@);
    let mut r = String::new();
    if n == 0 {
        assert(names.take(0) =~= Seq::<Seq<char>>::empty());
        return r;
    }
    r.append(authors[0].as_str());
    assert(names.take(1) =~= seq![names[0]]);
    let mut i: usize = 1;
    while i < n
        invariant
            1 <= i <= n <= authors@.len(),
            names == strs(authors@),
            r@ == joined(names.take(i as int), ", "@),
        decreases n - i,
    {
        r.append(", ");
        r.append(authors[i].as_str());
        proof {
            let t = names.take(i + 1);
            assert(t.drop_last() =~= names.take(i as int));
            assert(t.last() == authors@[i as int]@);
        }
        i = i + 1;
    }
    r
}

/// Formats an author list (see [`format_authors_spec`]).
pub fn format_authors(authors: &[String], max: usize) -> (r: String)
    ensures
        r@ == format_authors_spec(strs(authors@), max),
{
    if authors.len() == 0 {
        return String::new();
    }
    if authors.len() <= max {
        let r = join_names(authors, authors.len());
        assert(strs(authors@).take(authors@.len() as int) =~= strs(authors@));
        r
    } else {
        let mut r = join_names(authors, max);
        r.append(" et al.");
        r
    }
}

// ---------------------------------------------------------------------------
// The table
// ---------------------------------------------------------------------------

/// `comfy_table::Table`, opaque here: what it holds is seen only through
/// [`table_header`] and [`table_rows`].
#[verifier::external_type_specification]
#[verifier::external_body]
pub struct ExTable(comfy_table::Table);

/// The header row that a `comfy_table::Table` holds, if one was set.
pub uninterp spec fn table_header(t: comfy_table::Table) -> Option<Seq<Seq<char>>>;

/// The rows that a `comfy_table::Table` holds, in order.
pub uninterp spec fn table_rows(t: comfy_table::Table) -> Seq<Seq<Seq<char>>>;

/// The text that `comfy_table` renders for a table with the default (ASCII,
/// no dynamic arrangement) settings and the given header and rows.
pub uninterp spec fn table_text(header: Option<Seq<Seq<char>>>, rows: Seq<Seq<Seq<char>>>) -> Seq<
    char,
>;

/// `comfy_table::Table::new`: a table with no header and no rows.
#[verifier::external_body]
fn table_new() -> (t: comfy_table::Table)
    ensures
        table_header(t) is None,
        table_rows(t) == Seq::<Seq<Seq<char>>>::empty(),
{
    comfy_table::Table::new()
}

/// `comfy_table::Table::set_header`: the header becomes the given cells; the
/// rows stay.
#[verifier::external_body]
fn table_set_header(t: &mut comfy_table::Table, cells: Vec<String>)
    ensures
        table_header(*final(t)) == Some(strs(cells@)),
        table_rows(*final(t)) == table_rows(*old(t)),
{
    t.set_header(cells);
}

/// `comfy_table::Table::add_row`: the cells become the last row; the header
/// stays.
#[verifier::external_body]
fn table_add_row(t: &mut comfy_table::Table, cells: Vec<String>)
    ensures
        table_rows(*final(t)) == table_rows(*old(t)).push(strs(cells@)),
        table_header(*final(t)) == table_header(*old(t)),
{
    t.add_row(cells);
}

/// `<comfy_table::Table as Display>`: the rendered table (see [`table_text`]).
#[verifier::external_body]
fn table_to_string(t: &comfy_table::Table) -> (s: String)
    ensures
        s@ == table_text(table_header(*t), table_rows(*t)),
{
    t.to_string()
}

/// The header of the paper table.
pub open spec fn table_head() -> Seq<Seq<char>> {
    seq!["Title"@, "Year"@, "Authors"@, "Venue"@, "Status"@]
}

/// An optional text, or the empty text.
pub open spec fn or_empty(o: Option<Seq<char>>) -> Seq<char> {
    match o {
        Some(s) => s,
        None => Seq::empty(),
    }
}

/// The cells of the row of one paper: the title cut to 50 characters (or
/// `(untitled)`), the year, at most three authors, the venue and the status.
pub open spec fn table_cells(p: PaperResultView) -> Seq<Seq<char>> {
    seq![
        truncate_spec(
            match p.title {
                Some(t) => t,
                None => "(untitled)"@,
            },
            50,
        ),
        match p.year {
            Some(y) => i32_text(y),
            None => Seq::empty(),
        },
        format_authors_spec(p.authors, 3),
        or_empty(p.venue),
        or_empty(p.status),
    ]
}

/// The views of a sequence of results.
pub open spec fn results_view(papers: Seq<PaperResult>) -> Seq<PaperResultView> {
    papers.map_values(|p: PaperResult| p@)
}

/// What the table output shows: `No papers found.`, or the table of the
/// papers, one row each, in order.
pub open spec fn table_output(papers: Seq<PaperResultView>) -> Seq<char> {
    if papers.len() == 0 {
        "No papers found."@
    } else {
        table_text(Some(table_head()), papers.map_values(|p: PaperResultView| table_cells(p)))
    }
}

fn opt_or_empty(o: &Option<String>) -> (s: String)
    ensures
        s@ == or_empty(opt_str(*o)),
{
    match o {
        Some(s) => s.clone(),
        None => String::new(),
    }
}

fn push_cell(v: &mut Vec<String>, s: String)
    ensures
        strs(final(v)@) == strs(old(v)@).push(s@),
{
    let ghost before = v@;
    v.push(s);
    proof {
        crate::text::lemma_strs_push(before, v@.last());
    }
}

/// The cells of the row of one paper (see [`table_cells`]).
pub fn table_row(p: &PaperResult) -> (cells: Vec<String>)
    ensures
        strs(cells@) == table_cells(p@),
{
    let mut cells: Vec<String> = Vec::new();
    assert(strs(cells@) =~= Seq::<Seq<char>>::empty());
    let title = match &p.title {
        Some(t) => truncate(t.as_str(), 50),
        None => truncate("(untitled)", 50),
    };
    push_cell(&mut cells, title);
    let year = match p.year {
        Some(y) => string_from_chars(i32_text_chars(y).as_slice()),
        None => String::new(),
    };
    push_cell(&mut cells, year);
    push_cell(&mut cells, format_authors(p.authors.as_slice(), 3));
    push_cell(&mut cells, opt_or_empty(&p.venue));
    push_cell(&mut cells, opt_or_empty(&p.status));
    assert(strs(cells@) =~= table_cells(p@));
    cells
}

/// The table output of a filter (see [`table_output`]).
pub fn render_table(papers: &[PaperResult]) -> (s: String)
    ensures
        s@ == table_output(results_view(papers@)),
{
    if papers.len() == 0 {
        return String::from_str("No papers found.");
    }
    let mut t = table_new();
    let mut head: Vec<String> = Vec::new();
    head.push(String::from_str("Title"));
    head.push(String::from_str("Year"));
    head.push(String::from_str("Authors"));
    head.push(String::from_str("Venue"));
    head.push(String::from_str("Status"));
    assert(strs(head@) =~= table_head());
    table_set_header(&mut t, head);
    let ghost rows = results_view(papers@).map_values(|p: PaperResultView| table_cells(p));
    let mut i: usize = 0;
    while i < papers.len()
        invariant
            i <= papers@.len(),
            rows == results_view(papers@).map_values(|p: PaperResultView| table_cells(p)),
            table_header(t) == Some(table_head()),
            table_rows(t) == rows.take(i as int),
        decreases papers.len() - i,
    {
        let cells = table_row(&papers[i]);
        table_add_row(&mut t, cells);
        assert(rows.take(i + 1) =~= rows.take(i as int).push(rows[i as int]));
        i = i + 1;
    }
    assert(rows.take(papers.len() as int) =~= rows);
    table_to_string(&t)
}

// ---------------------------------------------------------------------------
// XML
// ---------------------------------------------------------------------------

/// One event of an XML document.
pub enum XmlEvent {
    /// `<?xml version=.. encoding=..?>`
    Decl(String, String),
    /// An opening tag.
    Start(String),
    /// Text, which the writer escapes.
    Text(String),
    /// A closing tag.
    End(String),
}

/// The mathematical content of an [`XmlEvent`].
pub enum XmlEventView {
    Decl(Seq<char>, Seq<char>),
    Start(Seq<char>),
    Text(Seq<char>),
    End(Seq<char>),
}

impl View for XmlEvent {
    type V = XmlEventView;

    open spec fn view(&self) -> XmlEventView {
        match self {
            XmlEvent::Decl(v, e) => XmlEventView::Decl(v@, e@),
            XmlEvent::Start(t) => XmlEventView::Start(t@),
            XmlEvent::Text(t) => XmlEventView::Text(t@),
            XmlEvent::End(t) => XmlEventView::End(t@),
        }
    }
}

/// `quick_xml::Writer`, opaque here: what it has written is seen only
/// through [`xml_written`].
#[verifier::external_type_specification]
#[verifier::external_body]
#[verifier::reject_recursive_types(W)]
pub struct ExXmlWriter<W>(quick_xml::Writer<W>);

/// `std::io::Error`, the error of a refused XML event, carried opaquely.
#[verifier::external_type_specification]
#[verifier::external_body]
pub struct ExIoError(std::io::Error);

/// The events that a `quick_xml::Writer` has written, in order.
pub uninterp spec fn xml_written(w: quick_xml::Writer<Vec<u8>>) -> Seq<XmlEventView>;

/// The bytes that a `quick_xml::Writer` indenting by two spaces holds after
/// writing the given events.
pub uninterp spec fn xml_bytes(events: Seq<XmlEventView>) -> Seq<u8>;

/// `quick_xml::Writer::new_with_indent(Vec::new(), b' ', 2)`: a writer into
/// memory that indents nested elements by two spaces, with nothing written.
#[verifier::external_body]
fn xml_writer_new() -> (w: quick_xml::Writer<Vec<u8>>)
    ensures
        xml_written(w) == Seq::<XmlEventView>::empty(),
{
    quick_xml::Writer::new_with_indent(Vec::new(), b' ', 2)
}

/// `quick_xml::Writer::write_event` of the matching `quick_xml` event: the
/// event becomes the last one written. Into a `Vec<u8>` it always succeeds,
/// since its only failures are those of `write_all` on the sink.
#[verifier::external_body]
fn xml_write(w: &mut quick_xml::Writer<Vec<u8>>, ev: &XmlEvent) -> (r: Result<(), std::io::Error>)
    ensures
        r is Ok,
        xml_written(*final(w)) == xml_written(*old(w)).push(ev@),
{
    match ev {
        XmlEvent::Decl(v, e) => w.write_event(Event::Decl(BytesDecl::new(v, Some(e), None))),
        XmlEvent::Start(t) => w.write_event(Event::Start(BytesStart::new(t.as_str()))),
        XmlEvent::Text(t) => w.write_event(Event::Text(BytesText::new(t))),
        XmlEvent::End(t) => w.write_event(Event::End(BytesEnd::new(t.as_str()))),
    }
}

/// `quick_xml::Writer::into_inner`: the bytes written (see [`xml_bytes`]).
/// They are UTF-8, since every byte the writer writes comes from a `&str`.
#[verifier::external_body]
fn xml_into_bytes(w: quick_xml::Writer<Vec<u8>>) -> (b: Vec<u8>)
    ensures
        b@ == xml_bytes(xml_written(w)),
        vstd::utf8::valid_utf8(b@),
{
    w.into_inner()
}

/// `String::from_utf8`: the text that `b` encodes, when `b` is valid UTF-8.
#[verifier::external_body]
fn string_from_utf8(b: Vec<u8>) -> (r: Option<String>)
    ensures
        r is Some <==> vstd::utf8::valid_utf8(b@),
        r matches Some(s) ==> s@ == vstd::utf8::decode_utf8(b@),
{
    String::from_utf8(b).ok()
}

/// `<tag>text</tag>`.
pub open spec fn text_element(tag: Seq<char>, text: Seq<char>) -> Seq<XmlEventView> {
    seq![XmlEventView::Start(tag), XmlEventView::Text(text), XmlEventView::End(tag)]
}

/// The `<item>` elements of a list, in order.
pub open spec fn item_elements(item: Seq<char>, items: Seq<Seq<char>>) -> Seq<XmlEventView>
    decreases items.len(),
{
    if items.len() == 0 {
        Seq::empty()
    } else {
        item_elements(item, items.drop_last()) + text_element(item, items.last())
    }
}

/// `<wrapper><item>..</item>..</wrapper>`.
pub open spec fn list_element(wrapper: Seq<char>, item: Seq<char>, items: Seq<Seq<char>>) -> Seq<
    XmlEventView,
> {
    seq![XmlEventView::Start(wrapper)] + item_elements(item, items) + seq![
        XmlEventView::End(wrapper),
    ]
}

/// The `<paper>` element of one result.
pub open spec fn paper_element(p: PaperResultView) -> Seq<XmlEventView> {
    seq![XmlEventView::Start("paper"@)] + text_element("title"@, or_empty(p.title)) + text_element(
        "year"@,
        match p.year {
            Some(y) => i32_text(y),
            None => Seq::empty(),
        },
    ) + text_element("venue"@, or_empty(p.venue)) + text_element("doi"@, or_empty(p.doi))
        + text_element("status"@, or_empty(p.status)) + text_element("file_path"@, p.file_path)
        + list_element("authors"@, "author"@, p.authors) + list_element("tags"@, "tag"@, p.tags)
        + list_element("fields_of_study"@, "field"@, p.fields_of_study) + list_element(
        "research_tasks"@,
        "task"@,
        p.research_tasks,
    ) + seq![XmlEventView::End("paper"@)]
}

/// The `<paper>` elements of the results, in order.
pub open spec fn paper_elements(papers: Seq<PaperResultView>) -> Seq<XmlEventView>
    decreases papers.len(),
{
    if papers.len() == 0 {
        Seq::empty()
    } else {
        paper_elements(papers.drop_last()) + paper_element(papers.last())
    }
}

/// The events of the XML output: the declaration, then `<papers>` holding one
/// `<paper>` per result.
pub open spec fn xml_document(papers: Seq<PaperResultView>) -> Seq<XmlEventView> {
    seq![XmlEventView::Decl("1.0"@, "UTF-8"@), XmlEventView::Start("papers"@)] + paper_elements(
        papers,
    ) + seq![XmlEventView::End("papers"@)]
}

fn write_event(w: &mut quick_xml::Writer<Vec<u8>>, ev: XmlEvent)
    ensures
        xml_written(*final(w)) == xml_written(*old(w)).push(ev@),
{
    let _ = xml_write(w, &ev);
}

/// Writes `<tag>text</tag>`.
fn write_text_element(w: &mut quick_xml::Writer<Vec<u8>>, tag: &str, text: &str)
    ensures
        xml_written(*final(w)) == xml_written(*old(w)) + text_element(tag@, text@),
{
    write_event(w, XmlEvent::Start(String::from_str(tag)));
    write_event(w, XmlEvent::Text(String::from_str(text)));
    write_event(w, XmlEvent::End(String::from_str(tag)));
    assert(xml_written(*w) =~= xml_written(*old(w)) + text_element(tag@, text@));
}

/// Writes `<wrapper><item>..</item>..</wrapper>`.
fn write_list_elements(
    w: &mut quick_xml::Writer<Vec<u8>>,
    wrapper: &str,
    item: &str,
    items: &[String],
)
    ensures
        xml_written(*final(w)) == xml_written(*old(w)) + list_element(
            wrapper@,
            item@,
            strs(items@),
        ),
{
    let ghost start = xml_written(*w);
    write_event(w, XmlEvent::Start(String::from_str(wrapper)));
    let ghost names = strs(items@);
    let mut i: usize = 0;
    assert(names.take(0) =~= Seq::<Seq<char>>::empty());
    while i < items.len()
        invariant
            i <= items@.len(),
            names == strs(items@),
            xml_written(*w) == start + seq![XmlEventView::Start(wrapper@)] + item_elements(
                item@,
                names.take(i as int),
            ),
        decreases items.len() - i,
    {
        write_text_element(w, item, items[i].as_str());
        proof {
            let t = names.take(i + 1);
            assert(t.drop_last() =~= names.take(i as int));
            assert(t.last() == items@[i as int]@);
        }
        i = i + 1;
    }
    assert(names.take(items.len() as int) =~= names);
    write_event(w, XmlEvent::End(String::from_str(wrapper)));
    assert(xml_written(*w) =~= start + list_element(wrapper@, item@, names));
}

/// Writes the `<paper>` element of one result.
fn write_paper(w: &mut quick_xml::Writer<Vec<u8>>, p: &PaperResult)
    ensures
        xml_written(*final(w)) == xml_written(*old(w)) + paper_element(p@),
{
    let ghost start = xml_written(*w);
    write_event(w, XmlEvent::Start(String::from_str("paper")));
    write_text_element(w, "title", opt_or_empty(&p.title).as_str());
    let year = match p.year {
        Some(y) => string_from_chars(i32_text_chars(y).as_slice()),
        None => String::new(),
    };
    write_text_element(w, "year", year.as_str());
    write_text_element(w, "venue", opt_or_empty(&p.venue).as_str());
    write_text_element(w, "doi", opt_or_empty(&p.doi).as_str());
    write_text_element(w, "status", opt_or_empty(&p.status).as_str());
    write_text_element(w, "file_path", p.file_path.as_str());
    write_list_elements(w, "authors", "author", p.authors.as_slice());
    write_list_elements(w, "tags", "tag", p.tags.as_slice());
    write_list_elements(w, "fields_of_study", "field", p.fields_of_study.as_slice());
    write_list_elements(w, "research_tasks", "task", p.research_tasks.as_slice());
    write_event(w, XmlEvent::End(String::from_str("paper")));
    assert(xml_written(*w) =~= start + paper_element(p@));
}

/// The XML output of a filter: the text of the document whose events are
/// [`xml_document`].
pub fn render_xml(papers: &[PaperResult]) -> (s: String)
    ensures
        vstd::utf8::valid_utf8(xml_bytes(xml_document(results_view(papers@)))),
        s@ == vstd::utf8::decode_utf8(xml_bytes(xml_document(results_view(papers@)))),
{
    let mut w = xml_writer_new();
    write_event(&mut w, XmlEvent::Decl(String::from_str("1.0"), String::from_str("UTF-8")));
    write_event(&mut w, XmlEvent::Start(String::from_str("papers")));
    let ghost head = xml_written(w);
    let ghost ps = results_view(papers@);
    let mut i: usize = 0;
    assert(ps.take(0) =~= Seq::<PaperResultView>::empty());
    while i < papers.len()
        invariant
            i <= papers@.len(),
            ps == results_view(papers@),
            xml_written(w) == head + paper_elements(ps.take(i as int)),
        decreases papers.len() - i,
    {
        write_paper(&mut w, &papers[i]);
        proof {
            let t = ps.take(i + 1);
            assert(t.drop_last() =~= ps.take(i as int));
            assert(t.last() == papers@[i as int]@);
        }
        i = i + 1;
    }
    assert(ps.take(papers.len() as int) =~= ps);
    write_event(&mut w, XmlEvent::End(String::from_str("papers")));
    assert(xml_written(w) =~= xml_document(ps));
    let bytes = xml_into_bytes(w);
    match string_from_utf8(bytes) {
        Some(s) => s,
        None => String::new(),
    }
}


// ---------------------------------------------------------------------------
// Laws
// ---------------------------------------------------------------------------

/// The items of a list element keep the list's order: the k-th `<item>`
/// element holds the k-th item, and there is one element per item.
pub proof fn law_list_items_in_order(item: Seq<char>, items: Seq<Seq<char>>)
    ensures
        item_elements(item, items).len() == 3 * items.len(),
        forall|k: int|
            0 <= k < items.len() ==> {
                &&& #[trigger] item_elements(item, items)[3 * k] == XmlEventView::Start(item)
                &&& item_elements(item, items)[3 * k + 1] == XmlEventView::Text(items[k])
                &&& item_elements(item, items)[3 * k + 2] == XmlEventView::End(item)
            },
    decreases items.len(),
{
    if items.len() > 0 {
        let rest = items.drop_last();
        law_list_items_in_order(item, rest);
        let e = item_elements(item, items);
        let r = item_elements(item, rest);
        assert forall|k: int| 0 <= k < items.len() implies {
            &&& #[trigger] e[3 * k] == XmlEventView::Start(item)
            &&& e[3 * k + 1] == XmlEventView::Text(items[k])
            &&& e[3 * k + 2] == XmlEventView::End(item)
        } by {
            if k < rest.len() {
                assert(e[3 * k] == r[3 * k]);
                assert(e[3 * k + 1] == r[3 * k + 1]);
                assert(e[3 * k + 2] == r[3 * k + 2]);
                assert(rest[k] == items[k]);
            } else {
                assert(k == rest.len());
                assert(e[3 * k] == text_element(item, items.last())[0]);
                assert(e[3 * k + 1] == text_element(item, items.last())[1]);
                assert(e[3 * k + 2] == text_element(item, items.last())[2]);
            }
        }
    }
}

/// The `<paper>` elements follow the order of the results: those of two runs
/// of results one after the other are the elements of the first run followed
/// by those of the second, and one result gives its own element.
pub proof fn law_papers_in_order(a: Seq<PaperResultView>, b: Seq<PaperResultView>)
    ensures
        paper_elements(a + b) == paper_elements(a) + paper_elements(b),
        forall|p: PaperResultView| #[trigger] paper_elements(seq![p]) == paper_element(p),
    decreases b.len(),
{
    assert forall|p: PaperResultView| #[trigger] paper_elements(seq![p]) == paper_element(p) by {
        assert(seq![p].drop_last() =~= Seq::<PaperResultView>::empty());
        assert(paper_elements(Seq::<PaperResultView>::empty()) + paper_element(p) =~= paper_element(p));
    }
    if b.len() == 0 {
        assert(a + b =~= a);
        assert(paper_elements(a) + paper_elements(b) =~= paper_elements(a));
    } else {
        law_papers_in_order(a, b.drop_last());
        assert((a + b).drop_last() =~= a + b.drop_last());
        assert((a + b).last() == b.last());
        assert(paper_elements(a + b) =~= paper_elements(a) + paper_elements(b));
    }
}


/// Cutting a text keeps it whole when it fits; otherwise the result is
/// exactly `max` characters long, starts as the text does and ends in `...`.
pub proof fn law_truncate_fits(s: Seq<char>, max: usize)
    requires
        s.len() > max ==> max >= 3,
    ensures
        s.len() <= max ==> truncate_spec(s, max) == s,
        s.len() > max ==> {
            let r = truncate_spec(s, max);
            &&& r.len() == max
            &&& r.take(max - 3) == s.take(max - 3)
            &&& r.skip(max - 3) == "..."@
        },
{
    reveal_strlit("...");
    if s.len() > max {
        let r = truncate_spec(s, max);
        assert(r.take(max - 3) =~= s.take(max - 3));
        assert(r.skip(max - 3) =~= "..."@);
    }
}

/// An author list is marked ` et al.` exactly when some names were left out.
pub proof fn law_et_al_marks_left_out_names(authors: Seq<Seq<char>>, max: usize)
    ensures
        authors.len() > max ==> {
            let r = format_authors_spec(authors, max);
            r.len() >= 7 && r.skip(r.len() - 7) == " et al."@
        },
        authors.len() <= max ==> format_authors_spec(authors, max) == joined(authors, ", "@),
{
    reveal_strlit(" et al.");
    if authors.len() > max {
        let j = joined(authors.take(max as int), ", "@);
        let r = format_authors_spec(authors, max);
        assert(r == j + " et al."@);
        assert(r.skip(r.len() - 7) =~= " et al."@);
    } else if authors.len() == 0 {
        assert(joined(authors, ", "@) == Seq::<char>::empty());
    }
}

} // verus!

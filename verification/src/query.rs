use vstd::prelude::*;

use crate::num::{decimal, usize_text};
use crate::models::{Paper, PaperView};
use crate::text::{joined, opt_str, string_from_chars, strs};

verus! {

// ---------------------------------------------------------------------------
// Filter options and the SQL query they give
// ---------------------------------------------------------------------------

/// The conditions of a filter query; all given conditions must hold.
pub struct FilterOptions {
    pub title: Option<String>,
    pub author: Option<String>,
    pub year: Option<i32>,
    pub year_from: Option<i32>,
    pub year_to: Option<i32>,
    pub keyword: Option<String>,
    pub field: Option<String>,
    pub venue: Option<String>,
    pub status: Option<String>,
    pub limit: usize,
}

/// A value bound to a placeholder of an SQL statement.
pub enum SqlValue {
    Null,
    Text(String),
    Int(i64),
    Bool(bool),
}

/// The mathematical content of an [`SqlValue`].
pub enum SqlValueView {
    Null,
    Text(Seq<char>),
    Int(i64),
    Bool(bool),
}

impl View for SqlValue {
    type V = SqlValueView;

    open spec fn view(&self) -> SqlValueView {
        match self {
            SqlValue::Null => SqlValueView::Null,
            SqlValue::Text(s) => SqlValueView::Text(s@),
            SqlValue::Int(i) => SqlValueView::Int(*i),
            SqlValue::Bool(b) => SqlValueView::Bool(*b),
        }
    }
}

/// The views of a sequence of SQL values.
pub open spec fn values_view(v: Seq<SqlValue>) -> Seq<SqlValueView> {
    v.map_values(|x: SqlValue| x@)
}

/// An SQL statement with the values of its placeholders `?1`, `?2`, ... in order.
pub struct SqlQuery {
    pub sql: String,
    pub params: Vec<SqlValue>,
}

/// The pieces of a filter query as the conditions add them.
pub struct QueryParts {
    pub joins: Seq<Seq<char>>,
    pub wheres: Seq<Seq<char>>,
    pub params: Seq<SqlValueView>,
}

/// `%q%`: the `LIKE` pattern of a substring search.
pub open spec fn like_pattern(q: Seq<char>) -> Seq<char> {
    "%"@ + q + "%"@
}

/// The placeholder of the `n`-th parameter.
pub open spec fn placeholder(n: nat) -> Seq<char> {
    "?"@ + decimal(n)
}

/// The placeholder that the next parameter of `parts` takes.
pub open spec fn next_placeholder(parts: QueryParts) -> Seq<char> {
    placeholder(parts.params.len() + 1)
}

/// A condition on the papers table itself: `column op ?n` bound to `value`.
pub open spec fn add_where(parts: QueryParts, cond: Seq<char>, value: SqlValueView) -> QueryParts {
    QueryParts {
        joins: parts.joins,
        wheres: parts.wheres.push(cond + next_placeholder(parts)),
        params: parts.params.push(value),
    }
}

/// `--author`: a join with the authors and a substring match on their names.
pub open spec fn step_author(parts: QueryParts, author: Option<Seq<char>>) -> QueryParts {
    match author {
        None => parts,
        Some(a) => add_where(
            QueryParts {
                joins: parts.joins.push("JOIN authors a ON a.paper_id = p.id"@),
                ..parts
            },
            "a.name LIKE "@,
            SqlValueView::Text(like_pattern(a)),
        ),
    }
}

/// `--keyword`: a substring match on the tags or the research tasks.
pub open spec fn step_keyword(parts: QueryParts, keyword: Option<Seq<char>>) -> QueryParts {
    match keyword {
        None => parts,
        Some(k) => QueryParts {
            joins: parts.joins.push("LEFT JOIN tags t ON t.paper_id = p.id"@).push(
                "LEFT JOIN research_tasks rt ON rt.paper_id = p.id"@,
            ),
            wheres: parts.wheres.push(
                "(t.tag LIKE "@ + placeholder(parts.params.len() + 1) + " OR rt.task LIKE "@
                    + placeholder(parts.params.len() + 2) + ")"@,
            ),
            params: parts.params.push(SqlValueView::Text(like_pattern(k))).push(
                SqlValueView::Text(like_pattern(k)),
            ),
        },
    }
}

/// `--field`: a join with the fields of study and a substring match on them.
pub open spec fn step_field(parts: QueryParts, field: Option<Seq<char>>) -> QueryParts {
    match field {
        None => parts,
        Some(f) => add_where(
            QueryParts {
                joins: parts.joins.push("JOIN fields_of_study f ON f.paper_id = p.id"@),
                ..parts
            },
            "f.field LIKE "@,
            SqlValueView::Text(like_pattern(f)),
        ),
    }
}

/// A substring match on a column of the papers table.
pub open spec fn step_like(parts: QueryParts, column_like: Seq<char>, q: Option<Seq<char>>) -> QueryParts {
    match q {
        None => parts,
        Some(s) => add_where(parts, column_like, SqlValueView::Text(like_pattern(s))),
    }
}

/// A comparison of the year with a bound.
pub open spec fn step_year(parts: QueryParts, cond: Seq<char>, y: Option<i32>) -> QueryParts {
    match y {
        None => parts,
        Some(v) => add_where(parts, cond, SqlValueView::Int(v as i64)),
    }
}

/// `--status`: the status must be exactly the given one.
pub open spec fn step_status(parts: QueryParts, status: Option<Seq<char>>) -> QueryParts {
    match status {
        None => parts,
        Some(s) => add_where(parts, "p.status = "@, SqlValueView::Text(s)),
    }
}

/// The joins, conditions and parameters of a filter, in the order in which
/// the options add them.
pub open spec fn filter_parts(opts: FilterOptions) -> QueryParts {
    let p0 = QueryParts { joins: Seq::empty(), wheres: Seq::empty(), params: Seq::empty() };
    let p1 = step_author(p0, opt_str(opts.author));
    let p2 = step_keyword(p1, opt_str(opts.keyword));
    let p3 = step_field(p2, opt_str(opts.field));
    let p4 = step_like(p3, "p.title LIKE "@, opt_str(opts.title));
    let p5 = step_like(p4, "p.venue LIKE "@, opt_str(opts.venue));
    let p6 = step_year(p5, "p.year = "@, opts.year);
    let p7 = step_year(p6, "p.year >= "@, opts.year_from);
    let p8 = step_year(p7, "p.year <= "@, opts.year_to);
    step_status(p8, opt_str(opts.status))
}

/// Each piece preceded by a space.
pub open spec fn spaced(pieces: Seq<Seq<char>>) -> Seq<char>
    decreases pieces.len(),
{
    if pieces.len() == 0 {
        Seq::empty()
    } else {
        spaced(pieces.drop_last()) + " "@ + pieces.last()
    }
}

/// The columns that a filter query selects.
pub open spec fn select_clause() -> Seq<char> {
    "SELECT DISTINCT p.id, p.file_path, p.title, p.year, p.venue, p.doi, p.status FROM papers p"@
}

/// The SQL text of a filter query: the selection, the joins, the conditions
/// joined by `AND`, and the order with the limit as the last parameter.
pub open spec fn filter_sql(opts: FilterOptions) -> Seq<char> {
    let parts = filter_parts(opts);
    select_clause() + spaced(parts.joins) + (if parts.wheres.len() == 0 {
        Seq::empty()
    } else {
        " WHERE "@ + joined(parts.wheres, " AND "@)
    }) + " ORDER BY p.year DESC, p.title ASC LIMIT "@ + placeholder(parts.params.len() + 1)
}

/// The parameters of a filter query: those of the conditions, then the limit.
pub open spec fn filter_params(opts: FilterOptions) -> Seq<SqlValueView> {
    filter_parts(opts).params.push(SqlValueView::Int(opts.limit as i64))
}

// ---------------------------------------------------------------------------
// Building the query
// ---------------------------------------------------------------------------

/// The joins, conditions and parameters gathered so far.
struct QueryBuilder {
    joins: Vec<String>,
    wheres: Vec<String>,
    params: Vec<SqlValue>,
}

impl QueryBuilder {
    spec fn parts(&self) -> QueryParts {
        QueryParts {
            joins: strs(self.joins@),
            wheres: strs(self.wheres@),
            params: values_view(self.params@),
        }
    }
}

/// The text of the placeholder `?n`.
fn placeholder_string(n: usize) -> (s: String)
    ensures
        s@ == placeholder(n as nat),
{
    let mut s = String::from_str("?");
    let d = usize_text(n);
    let ds = string_from_chars(d.as_slice());
    s.append(ds.as_str());
    proof {
        reveal_strlit("?");
    }
    s
}

/// The `LIKE` pattern `%q%`.
fn like_string(q: &String) -> (s: String)
    ensures
        s@ == like_pattern(q@),
{
    let mut s = String::from_str("%");
    s.append(q.as_str());
    s.append("%");
    s
}

fn push_string(v: &mut Vec<String>, s: String)
    ensures
        strs(final(v)@) == strs(old(v)@).push(s@),
        final(v)@.len() == old(v)@.len() + 1,
{
    let ghost sv = s@;
    v.push(s);
    assert(strs(v@) =~= strs(old(v)@).push(sv));
}

fn push_value(v: &mut Vec<SqlValue>, x: SqlValue)
    ensures
        values_view(final(v)@) == values_view(old(v)@).push(x@),
        final(v)@.len() == old(v)@.len() + 1,
{
    let ghost xv = x@;
    v.push(x);
    assert(values_view(v@) =~= values_view(old(v)@).push(xv));
}

/// Adds the condition `cond ?n` bound to `value` (see [`add_where`]).
fn add_where_exec(b: &mut QueryBuilder, cond: &str, value: SqlValue)
    requires
        old(b).params@.len() < 100,
    ensures
        final(b).parts() == add_where(old(b).parts(), cond@, value@),
        final(b).params@.len() == old(b).params@.len() + 1,
{
    let ph = placeholder_string(b.params.len() + 1);
    let mut w = String::from_str(cond);
    w.append(ph.as_str());
    push_string(&mut b.wheres, w);
    push_value(&mut b.params, value);
}

fn step_author_exec(b: &mut QueryBuilder, author: &Option<String>)
    requires
        old(b).params@.len() < 100,
    ensures
        final(b).parts() == step_author(old(b).parts(), opt_str(*author)),
        final(b).params@.len() <= old(b).params@.len() + 2,
{
    if let Some(author) = author {
        push_string(&mut b.joins, String::from_str("JOIN authors a ON a.paper_id = p.id"));
        add_where_exec(b, "a.name LIKE ", SqlValue::Text(like_string(author)));
    }
}

fn step_keyword_exec(b: &mut QueryBuilder, keyword: &Option<String>)
    requires
        old(b).params@.len() < 100,
    ensures
        final(b).parts() == step_keyword(old(b).parts(), opt_str(*keyword)),
        final(b).params@.len() <= old(b).params@.len() + 2,
{
    if let Some(keyword) = keyword {
        push_string(&mut b.joins, String::from_str("LEFT JOIN tags t ON t.paper_id = p.id"));
        push_string(
            &mut b.joins,
            String::from_str("LEFT JOIN research_tasks rt ON rt.paper_id = p.id"),
        );
        let n = b.params.len();
        let mut w = String::from_str("(t.tag LIKE ");
        w.append(placeholder_string(n + 1).as_str());
        w.append(" OR rt.task LIKE ");
        w.append(placeholder_string(n + 2).as_str());
        w.append(")");
        push_string(&mut b.wheres, w);
        push_value(&mut b.params, SqlValue::Text(like_string(keyword)));
        push_value(&mut b.params, SqlValue::Text(like_string(keyword)));
    }
}

fn step_field_exec(b: &mut QueryBuilder, field: &Option<String>)
    requires
        old(b).params@.len() < 100,
    ensures
        final(b).parts() == step_field(old(b).parts(), opt_str(*field)),
        final(b).params@.len() <= old(b).params@.len() + 2,
{
    if let Some(field) = field {
        push_string(&mut b.joins, String::from_str("JOIN fields_of_study f ON f.paper_id = p.id"));
        add_where_exec(b, "f.field LIKE ", SqlValue::Text(like_string(field)));
    }
}

fn step_like_exec(b: &mut QueryBuilder, column_like: &str, q: &Option<String>)
    requires
        old(b).params@.len() < 100,
    ensures
        final(b).parts() == step_like(old(b).parts(), column_like@, opt_str(*q)),
        final(b).params@.len() <= old(b).params@.len() + 2,
{
    if let Some(q) = q {
        add_where_exec(b, column_like, SqlValue::Text(like_string(q)));
    }
}

fn step_year_exec(b: &mut QueryBuilder, cond: &str, y: Option<i32>)
    requires
        old(b).params@.len() < 100,
    ensures
        final(b).parts() == step_year(old(b).parts(), cond@, y),
        final(b).params@.len() <= old(b).params@.len() + 2,
{
    if let Some(v) = y {
        add_where_exec(b, cond, SqlValue::Int(v as i64));
    }
}

fn step_status_exec(b: &mut QueryBuilder, status: &Option<String>)
    requires
        old(b).params@.len() < 100,
    ensures
        final(b).parts() == step_status(old(b).parts(), opt_str(*status)),
        final(b).params@.len() <= old(b).params@.len() + 2,
{
    if let Some(status) = status {
        add_where_exec(b, "p.status = ", SqlValue::Text(status.clone()));
    }
}

/// The text of a filter query for the gathered joins and conditions, whose
/// limit takes the placeholder `?n`.
fn assemble_sql(joins: &Vec<String>, wheres: &Vec<String>, n: usize) -> (sql: String)
    ensures
        sql@ == select_clause() + spaced(strs(joins@)) + (if wheres@.len() == 0 {
            Seq::empty()
        } else {
            " WHERE "@ + joined(strs(wheres@), " AND "@)
        }) + " ORDER BY p.year DESC, p.title ASC LIMIT "@ + placeholder(n as nat),
{
    let ghost js = strs(joins@);
    let ghost ws = strs(wheres@);
    let mut sql = String::from_str(
        "SELECT DISTINCT p.id, p.file_path, p.title, p.year, p.venue, p.doi, p.status FROM papers p",
    );
    let mut i: usize = 0;
    assert(js.take(0) =~= Seq::<Seq<char>>::empty());
    while i < joins.len()
        invariant
            i <= joins@.len(),
            js == strs(joins@),
            sql@ == select_clause() + spaced(js.take(i as int)),
        decreases joins.len() - i,
    {
        sql.append(" ");
        sql.append(joins[i].as_str());
        proof {
            let t = js.take(i + 1);
            assert(t.drop_last() =~= js.take(i as int));
            assert(t.last() == joins@[i as int]@);
        }
        i = i + 1;
    }
    assert(js.take(joins.len() as int) =~= js);
    let ghost mid = sql@;
    if wheres.len() > 0 {
        sql.append(" WHERE ");
        let ghost head = sql@;
        sql.append(wheres[0].as_str());
        assert(ws.take(1) =~= seq![ws[0]]);
        let mut k: usize = 1;
        while k < wheres.len()
            invariant
                1 <= k <= wheres@.len(),
                ws == strs(wheres@),
                sql@ == head + joined(ws.take(k as int), " AND "@),
            decreases wheres.len() - k,
        {
            sql.append(" AND ");
            sql.append(wheres[k].as_str());
            proof {
                let t = ws.take(k + 1);
                assert(t.drop_last() =~= ws.take(k as int));
                assert(t.last() == wheres@[k as int]@);
            }
            k = k + 1;
        }
        assert(ws.take(wheres.len() as int) =~= ws);
        assert(sql@ =~= mid + (" WHERE "@ + joined(ws, " AND "@)));
    } else {
        assert(sql@ =~= mid + Seq::<char>::empty());
    }
    let ghost body = sql@;
    sql.append(" ORDER BY p.year DESC, p.title ASC LIMIT ");
    sql.append(placeholder_string(n).as_str());
    sql
}

/// Builds the SQL statement and the parameters of a filter query (see
/// [`filter_sql`] and [`filter_params`]); the i-th parameter belongs to the
/// placeholder `?i`.
pub fn build_filter_query(opts: &FilterOptions) -> (q: SqlQuery)
    ensures
        q.sql@ == filter_sql(*opts),
        values_view(q.params@) == filter_params(*opts),
{
    let mut b = QueryBuilder { joins: Vec::new(), wheres: Vec::new(), params: Vec::new() };
    assert(strs(b.joins@) =~= Seq::<Seq<char>>::empty());
    assert(strs(b.wheres@) =~= Seq::<Seq<char>>::empty());
    assert(values_view(b.params@) =~= Seq::<SqlValueView>::empty());
    step_author_exec(&mut b, &opts.author);
    step_keyword_exec(&mut b, &opts.keyword);
    step_field_exec(&mut b, &opts.field);
    step_like_exec(&mut b, "p.title LIKE ", &opts.title);
    step_like_exec(&mut b, "p.venue LIKE ", &opts.venue);
    step_year_exec(&mut b, "p.year = ", opts.year);
    step_year_exec(&mut b, "p.year >= ", opts.year_from);
    step_year_exec(&mut b, "p.year <= ", opts.year_to);
    step_status_exec(&mut b, &opts.status);
    assert(b.parts() == filter_parts(*opts));
    let sql = assemble_sql(&b.joins, &b.wheres, b.params.len() + 1);
    push_value(&mut b.params, SqlValue::Int(opts.limit as i64));
    SqlQuery { sql, params: b.params }
}

// ---------------------------------------------------------------------------
// Storing a paper
// ---------------------------------------------------------------------------

/// The tables that hold the lists of a paper, one row per item.
pub enum RelatedTable {
    Authors,
    Tags,
    FieldsOfStudy,
    ResearchTasks,
}

/// One item of a list of a paper: its table, its text and, for authors, its
/// position in the author list.
pub struct RelatedRow {
    pub table: RelatedTable,
    pub value: String,
    pub position: Option<i32>,
}

/// The mathematical content of a [`RelatedRow`].
pub struct RelatedRowView {
    pub table: RelatedTable,
    pub value: Seq<char>,
    pub position: Option<i32>,
}

impl View for RelatedRow {
    type V = RelatedRowView;

    open spec fn view(&self) -> RelatedRowView {
        RelatedRowView { table: self.table, value: self.value@, position: self.position }
    }
}

/// The views of a sequence of rows.
pub open spec fn rows_view(v: Seq<RelatedRow>) -> Seq<RelatedRowView> {
    v.map_values(|r: RelatedRow| r@)
}

/// An optional text as an SQL value (`NULL` when absent).
pub open spec fn text_or_null(o: Option<Seq<char>>) -> SqlValueView {
    match o {
        Some(s) => SqlValueView::Text(s),
        None => SqlValueView::Null,
    }
}

/// An optional integer as an SQL value.
pub open spec fn int_or_null(o: Option<i32>) -> SqlValueView {
    match o {
        Some(v) => SqlValueView::Int(v as i64),
        None => SqlValueView::Null,
    }
}

/// An optional flag as an SQL value.
pub open spec fn bool_or_null(o: Option<bool>) -> SqlValueView {
    match o {
        Some(b) => SqlValueView::Bool(b),
        None => SqlValueView::Null,
    }
}

/// The values of the columns of the papers table for `paper`, in the order
/// `file_path, title, year, venue, doi, arxiv_id, citation_count,
/// open_access, status, file_modified_at, cached_at`.
pub open spec fn paper_row_spec(paper: PaperView, cached_at: Seq<char>) -> Seq<SqlValueView> {
    seq![
        SqlValueView::Text(paper.file_path),
        text_or_null(paper.title),
        int_or_null(paper.year),
        text_or_null(paper.venue),
        text_or_null(paper.doi),
        text_or_null(paper.arxiv_id),
        int_or_null(paper.citation_count),
        bool_or_null(paper.open_access),
        text_or_null(paper.status),
        SqlValueView::Text(paper.file_modified_at),
        SqlValueView::Text(cached_at),
    ]
}

/// The items of one list, each as a row of `table` (authors keep their
/// position in the list).
pub open spec fn list_rows(table: RelatedTable, items: Seq<Seq<char>>) -> Seq<RelatedRowView> {
    Seq::new(
        items.len(),
        |i: int|
            RelatedRowView {
                table: table,
                value: items[i],
                position: if table is Authors {
                    Some(i as i32)
                } else {
                    None
                },
            },
    )
}

/// The rows that store the lists of `paper`: its authors, tags, fields of
/// study and research tasks, in this order.
pub open spec fn related_rows_spec(paper: PaperView) -> Seq<RelatedRowView> {
    list_rows(RelatedTable::Authors, paper.authors) + list_rows(RelatedTable::Tags, paper.tags)
        + list_rows(RelatedTable::FieldsOfStudy, paper.fields_of_study) + list_rows(
        RelatedTable::ResearchTasks,
        paper.research_tasks,
    )
}

fn text_value(o: &Option<String>) -> (v: SqlValue)
    ensures
        v@ == text_or_null(opt_str(*o)),
{
    match o {
        Some(s) => SqlValue::Text(s.clone()),
        None => SqlValue::Null,
    }
}

fn int_value(o: Option<i32>) -> (v: SqlValue)
    ensures
        v@ == int_or_null(o),
{
    match o {
        Some(x) => SqlValue::Int(x as i64),
        None => SqlValue::Null,
    }
}

/// The values of the papers table row of `paper` (see [`paper_row_spec`]);
/// `cached_at` is the time of the write.
pub fn paper_row(paper: &Paper, cached_at: &str) -> (v: Vec<SqlValue>)
    ensures
        values_view(v@) == paper_row_spec(paper@, cached_at@),
{
    let mut v: Vec<SqlValue> = Vec::new();
    v.push(SqlValue::Text(paper.file_path.clone()));
    v.push(text_value(&paper.title));
    v.push(int_value(paper.year));
    v.push(text_value(&paper.venue));
    v.push(text_value(&paper.doi));
    v.push(text_value(&paper.arxiv_id));
    v.push(int_value(paper.citation_count));
    v.push(
        match paper.open_access {
            Some(b) => SqlValue::Bool(b),
            None => SqlValue::Null,
        },
    );
    v.push(text_value(&paper.status));
    v.push(SqlValue::Text(paper.file_modified_at.clone()));
    v.push(SqlValue::Text(String::from_str(cached_at)));
    assert(values_view(v@) =~= paper_row_spec(paper@, cached_at@));
    v
}

fn push_list_rows(out: &mut Vec<RelatedRow>, table: RelatedTable, items: &Vec<String>)
    ensures
        rows_view(final(out)@) == rows_view(old(out)@) + list_rows(table, strs(items@)),
{
    let ghost start = rows_view(out@);
    let mut i: usize = 0;
    while i < items.len()
        invariant
            i <= items.len(),
            rows_view(out@) == start + list_rows(table, strs(items@)).take(i as int),
        decreases items.len() - i,
    {
        let position = match table {
            RelatedTable::Authors => Some(i as i32),
            _ => None,
        };
        let t = match table {
            RelatedTable::Authors => RelatedTable::Authors,
            RelatedTable::Tags => RelatedTable::Tags,
            RelatedTable::FieldsOfStudy => RelatedTable::FieldsOfStudy,
            RelatedTable::ResearchTasks => RelatedTable::ResearchTasks,
        };
        let ghost before = rows_view(out@);
        out.push(RelatedRow { table: t, value: items[i].clone(), position });
        assert(rows_view(out@) =~= before.push(out@.last()@));
        assert(list_rows(table, strs(items@)).take(i + 1) =~= list_rows(
            table,
            strs(items@),
        ).take(i as int).push(out@.last()@));
        i = i + 1;
    }
    assert(list_rows(table, strs(items@)).take(items.len() as int) =~= list_rows(
        table,
        strs(items@),
    ));
}

/// The rows that store the lists of `paper` (see [`related_rows_spec`]).
pub fn related_rows(paper: &Paper) -> (v: Vec<RelatedRow>)
    ensures
        rows_view(v@) == related_rows_spec(paper@),
{
    let mut v: Vec<RelatedRow> = Vec::new();
    assert(rows_view(v@) =~= Seq::<RelatedRowView>::empty());
    push_list_rows(&mut v, RelatedTable::Authors, &paper.authors);
    push_list_rows(&mut v, RelatedTable::Tags, &paper.tags);
    push_list_rows(&mut v, RelatedTable::FieldsOfStudy, &paper.fields_of_study);
    push_list_rows(&mut v, RelatedTable::ResearchTasks, &paper.research_tasks);
    assert(rows_view(v@) =~= related_rows_spec(paper@));
    v
}

// ---------------------------------------------------------------------------
// Removing papers whose notes are gone
// ---------------------------------------------------------------------------

/// The cached paths that are not among the existing ones, in cache order.
pub open spec fn removed_paths(cached: Seq<Seq<char>>, existing: Seq<Seq<char>>) -> Seq<Seq<char>>
    decreases cached.len(),
{
    if cached.len() == 0 {
        Seq::empty()
    } else {
        let rest = removed_paths(cached.drop_last(), existing);
        if existing.contains(cached.last()) {
            rest
        } else {
            rest.push(cached.last())
        }
    }
}

/// Whether `p` is one of `v`.
fn contains_string(v: &Vec<String>, p: &String) -> (b: bool)
    ensures
        b == strs(v@).contains(p@),
{
    let mut i: usize = 0;
    while i < v.len()
        invariant
            i <= v.len(),
            forall|k: int| 0 <= k < i ==> v@[k]@ != p@,
        decreases v.len() - i,
    {
        if v[i] == *p {
            assert(strs(v@)[i as int] == p@);
            return true;
        }
        i = i + 1;
    }
    proof {
        if strs(v@).contains(p@) {
            let k = choose|k: int| 0 <= k < strs(v@).len() && strs(v@)[k] == p@;
            assert(v@[k]@ == p@);
        }
    }
    false
}

/// The cached papers whose notes no longer exist (see [`removed_paths`]).
pub fn paths_to_delete(cached: &Vec<String>, existing: &Vec<String>) -> (r: Vec<String>)
    ensures
        strs(r@) == removed_paths(strs(cached@), strs(existing@)),
{
    let mut r: Vec<String> = Vec::new();
    let mut i: usize = 0;
    assert(strs(r@) =~= Seq::<Seq<char>>::empty());
    while i < cached.len()
        invariant
            i <= cached.len(),
            strs(r@) == removed_paths(strs(cached@).take(i as int), strs(existing@)),
        decreases cached.len() - i,
    {
        proof {
            let t = strs(cached@).take(i + 1);
            assert(t.drop_last() =~= strs(cached@).take(i as int));
            assert(t.last() == cached@[i as int]@);
        }
        if !contains_string(existing, &cached[i]) {
            let ghost before = r@;
            r.push(cached[i].clone());
            proof {
                crate::text::lemma_strs_push(before, r@.last());
            }
        }
        i = i + 1;
    }
    assert(strs(cached@).take(cached.len() as int) =~= strs(cached@));
    r
}

// ---------------------------------------------------------------------------
// Laws
// ---------------------------------------------------------------------------

/// The limit is the last parameter of a filter query, and the `LIMIT`
/// placeholder names it.
pub proof fn law_limit_is_last_parameter(opts: FilterOptions)
    ensures
        filter_params(opts).last() == SqlValueView::Int(opts.limit as i64),
        filter_sql(opts) == filter_sql(opts).take(
            filter_sql(opts).len() - placeholder(filter_params(opts).len()).len(),
        ) + placeholder(filter_params(opts).len()),
{
    let s = filter_sql(opts);
    let ph = placeholder(filter_params(opts).len());
    assert(s == s.take(s.len() - ph.len()) + ph) by {
        assert(s.take(s.len() - ph.len()) + ph =~= s);
    }
}

/// Without any condition a filter query has no join, no `WHERE`, and the
/// limit as its only parameter.
pub proof fn law_no_conditions_only_limit(opts: FilterOptions)
    requires
        opts.title is None,
        opts.author is None,
        opts.year is None,
        opts.year_from is None,
        opts.year_to is None,
        opts.keyword is None,
        opts.field is None,
        opts.venue is None,
        opts.status is None,
    ensures
        filter_params(opts) == seq![SqlValueView::Int(opts.limit as i64)],
        filter_sql(opts) == select_clause() + " ORDER BY p.year DESC, p.title ASC LIMIT "@
            + placeholder(1),
{
    assert(filter_params(opts) =~= seq![SqlValueView::Int(opts.limit as i64)]);
    assert(spaced(Seq::<Seq<char>>::empty()) =~= Seq::<char>::empty());
    assert(filter_sql(opts) =~= select_clause() + " ORDER BY p.year DESC, p.title ASC LIMIT "@
        + placeholder(1));
}

/// A cached path is removed exactly when no existing note has it.
pub proof fn law_removed_paths(cached: Seq<Seq<char>>, existing: Seq<Seq<char>>, p: Seq<char>)
    ensures
        removed_paths(cached, existing).contains(p) <==> cached.contains(p) && !existing.contains(
            p,
        ),
    decreases cached.len(),
{
    if cached.len() > 0 {
        let rest = cached.drop_last();
        law_removed_paths(rest, existing, p);
        let r = removed_paths(rest, existing);
        if cached.contains(p) && !existing.contains(p) {
            if p == cached.last() {
                assert(removed_paths(cached, existing).last() == p);
            } else {
                let k = choose|k: int| 0 <= k < cached.len() && cached[k] == p;
                assert(rest[k] == p);
                let j = choose|j: int| 0 <= j < r.len() && r[j] == p;
                assert(removed_paths(cached, existing)[j] == p);
            }
        }
        if removed_paths(cached, existing).contains(p) {
            let j = choose|j: int|
                0 <= j < removed_paths(cached, existing).len() && removed_paths(
                    cached,
                    existing,
                )[j] == p;
            if j < r.len() {
                assert(r[j] == p);
                let k = choose|k: int| 0 <= k < rest.len() && rest[k] == p;
                assert(cached[k] == p);
            } else {
                assert(cached[cached.len() - 1] == p);
            }
        }
    }
}


/// Every item of every list of a paper gets one row of its table, in list
/// order: first the authors (each with its position), then the tags, the
/// fields of study and the research tasks.
pub proof fn law_related_rows_cover_every_item(paper: PaperView)
    ensures
        ({
            let rows = related_rows_spec(paper);
            let na = paper.authors.len() as int;
            let nt = paper.tags.len() as int;
            let nf = paper.fields_of_study.len() as int;
            let nr = paper.research_tasks.len() as int;
            &&& rows.len() == na + nt + nf + nr
            &&& forall|k: int|
                0 <= k < na ==> #[trigger] rows[k] == RelatedRowView {
                    table: RelatedTable::Authors,
                    value: paper.authors[k],
                    position: Some(k as i32),
                }
            &&& forall|k: int|
                0 <= k < nt ==> #[trigger] rows[na + k] == RelatedRowView {
                    table: RelatedTable::Tags,
                    value: paper.tags[k],
                    position: None,
                }
            &&& forall|k: int|
                0 <= k < nf ==> #[trigger] rows[na + nt + k] == RelatedRowView {
                    table: RelatedTable::FieldsOfStudy,
                    value: paper.fields_of_study[k],
                    position: None,
                }
            &&& forall|k: int|
                0 <= k < nr ==> #[trigger] rows[na + nt + nf + k] == RelatedRowView {
                    table: RelatedTable::ResearchTasks,
                    value: paper.research_tasks[k],
                    position: None,
                }
        }),
{
    let a = list_rows(RelatedTable::Authors, paper.authors);
    let t = list_rows(RelatedTable::Tags, paper.tags);
    let f = list_rows(RelatedTable::FieldsOfStudy, paper.fields_of_study);
    let r = list_rows(RelatedTable::ResearchTasks, paper.research_tasks);
    let rows = related_rows_spec(paper);
    assert(rows == ((a + t) + f) + r);
    let na = a.len() as int;
    let nt = t.len() as int;
    let nf = f.len() as int;
    assert forall|k: int| 0 <= k < na implies #[trigger] rows[k] == a[k] by {}
    assert forall|k: int| 0 <= k < nt implies #[trigger] rows[na + k] == t[k] by {}
    assert forall|k: int| 0 <= k < nf implies #[trigger] rows[na + nt + k] == f[k] by {}
    assert forall|k: int| 0 <= k < r.len() implies #[trigger] rows[na + nt + nf + k] == r[k] by {}
}


/// `b` starts with `a`.
pub open spec fn extends(a: Seq<SqlValueView>, b: Seq<SqlValueView>) -> bool {
    a.len() <= b.len() && forall|i: int| 0 <= i < a.len() ==> #[trigger] b[i] == a[i]
}

/// One if the option is given.
pub open spec fn count_given<T>(o: Option<T>) -> int {
    if o is Some {
        1
    } else {
        0
    }
}

proof fn lemma_extends_contains(a: Seq<SqlValueView>, b: Seq<SqlValueView>, x: SqlValueView)
    requires
        extends(a, b),
        a.contains(x),
    ensures
        b.contains(x),
{
    let i = choose|i: int| 0 <= i < a.len() && a[i] == x;
    assert(b[i] == x);
}

proof fn lemma_push_extends(a: Seq<SqlValueView>, x: SqlValueView)
    ensures
        extends(a, a.push(x)),
        a.push(x).contains(x),
{
    assert(a.push(x)[a.len() as int] == x);
}

/// Every given condition binds its value to a parameter of the filter query:
/// a substring pattern `%q%` for the title, author, keyword (twice: tags and
/// research tasks), field and venue, the year bounds as integers and the
/// status as it is; with the limit, there is no other parameter.
pub proof fn law_every_condition_is_bound(opts: FilterOptions)
    ensures
        ({
            let ps = filter_params(opts);
            &&& ps.len() == 1 + count_given(opts.title) + count_given(opts.author) + 2
                * count_given(opts.keyword) + count_given(opts.field) + count_given(opts.venue)
                + count_given(opts.year) + count_given(opts.year_from) + count_given(opts.year_to)
                + count_given(opts.status)
            &&& opt_str(opts.title) matches Some(q) ==> ps.contains(SqlValueView::Text(like_pattern(q)))
            &&& opt_str(opts.author) matches Some(q) ==> ps.contains(SqlValueView::Text(like_pattern(q)))
            &&& opt_str(opts.keyword) matches Some(q) ==> ps.contains(SqlValueView::Text(like_pattern(q)))
            &&& opt_str(opts.field) matches Some(q) ==> ps.contains(SqlValueView::Text(like_pattern(q)))
            &&& opt_str(opts.venue) matches Some(q) ==> ps.contains(SqlValueView::Text(like_pattern(q)))
            &&& opts.year matches Some(y) ==> ps.contains(SqlValueView::Int(y as i64))
            &&& opts.year_from matches Some(y) ==> ps.contains(SqlValueView::Int(y as i64))
            &&& opts.year_to matches Some(y) ==> ps.contains(SqlValueView::Int(y as i64))
            &&& opt_str(opts.status) matches Some(q) ==> ps.contains(SqlValueView::Text(q))
        }),
{
    let p0 = QueryParts { joins: Seq::empty(), wheres: Seq::empty(), params: Seq::empty() };
    let p1 = step_author(p0, opt_str(opts.author));
    let p2 = step_keyword(p1, opt_str(opts.keyword));
    let p3 = step_field(p2, opt_str(opts.field));
    let p4 = step_like(p3, "p.title LIKE "@, opt_str(opts.title));
    let p5 = step_like(p4, "p.venue LIKE "@, opt_str(opts.venue));
    let p6 = step_year(p5, "p.year = "@, opts.year);
    let p7 = step_year(p6, "p.year >= "@, opts.year_from);
    let p8 = step_year(p7, "p.year <= "@, opts.year_to);
    let p9 = step_status(p8, opt_str(opts.status));
    let ps = filter_params(opts);
    assert(ps == p9.params.push(SqlValueView::Int(opts.limit as i64)));
    // Each step keeps the parameters before it.
    assert(extends(p0.params, p1.params));
    if opt_str(opts.keyword) is Some {
        let k = opt_str(opts.keyword).unwrap();
        lemma_push_extends(p1.params, SqlValueView::Text(like_pattern(k)));
        lemma_push_extends(p1.params.push(SqlValueView::Text(like_pattern(k))), SqlValueView::Text(like_pattern(k)));
    }
    assert(extends(p1.params, p2.params));
    assert(extends(p2.params, p3.params));
    assert(extends(p3.params, p4.params));
    assert(extends(p4.params, p5.params));
    assert(extends(p5.params, p6.params));
    assert(extends(p6.params, p7.params));
    assert(extends(p7.params, p8.params));
    assert(extends(p8.params, p9.params));
    lemma_push_extends(p9.params, SqlValueView::Int(opts.limit as i64));
    let chain = seq![p1.params, p2.params, p3.params, p4.params, p5.params, p6.params, p7.params, p8.params, p9.params, ps];
    assert forall|i: int, x: SqlValueView| 0 <= i < 10 && #[trigger] chain[i].contains(x) implies ps.contains(x) by {
        if i <= 0 && chain[0].contains(x) { lemma_extends_contains(p1.params, p2.params, x); }
        if i <= 1 && chain[1].contains(x) { lemma_extends_contains(p2.params, p3.params, x); }
        if i <= 2 && chain[2].contains(x) { lemma_extends_contains(p3.params, p4.params, x); }
        if i <= 3 && chain[3].contains(x) { lemma_extends_contains(p4.params, p5.params, x); }
        if i <= 4 && chain[4].contains(x) { lemma_extends_contains(p5.params, p6.params, x); }
        if i <= 5 && chain[5].contains(x) { lemma_extends_contains(p6.params, p7.params, x); }
        if i <= 6 && chain[6].contains(x) { lemma_extends_contains(p7.params, p8.params, x); }
        if i <= 7 && chain[7].contains(x) { lemma_extends_contains(p8.params, p9.params, x); }
        if i <= 8 && chain[8].contains(x) { lemma_extends_contains(p9.params, ps, x); }
    }
    if let Some(q) = opt_str(opts.author) {
        lemma_push_extends(p0.params, SqlValueView::Text(like_pattern(q)));
        assert(chain[0].contains(SqlValueView::Text(like_pattern(q))));
    }
    if let Some(q) = opt_str(opts.keyword) {
        assert(p2.params[p1.params.len() as int] == SqlValueView::Text(like_pattern(q)));
        assert(chain[1].contains(SqlValueView::Text(like_pattern(q))));
    }
    if let Some(q) = opt_str(opts.field) {
        lemma_push_extends(p2.params, SqlValueView::Text(like_pattern(q)));
        assert(chain[2].contains(SqlValueView::Text(like_pattern(q))));
    }
    if let Some(q) = opt_str(opts.title) {
        lemma_push_extends(p3.params, SqlValueView::Text(like_pattern(q)));
        assert(chain[3].contains(SqlValueView::Text(like_pattern(q))));
    }
    if let Some(q) = opt_str(opts.venue) {
        lemma_push_extends(p4.params, SqlValueView::Text(like_pattern(q)));
        assert(chain[4].contains(SqlValueView::Text(like_pattern(q))));
    }
    if let Some(y) = opts.year {
        lemma_push_extends(p5.params, SqlValueView::Int(y as i64));
        assert(chain[5].contains(SqlValueView::Int(y as i64)));
    }
    if let Some(y) = opts.year_from {
        lemma_push_extends(p6.params, SqlValueView::Int(y as i64));
        assert(chain[6].contains(SqlValueView::Int(y as i64)));
    }
    if let Some(y) = opts.year_to {
        lemma_push_extends(p7.params, SqlValueView::Int(y as i64));
        assert(chain[7].contains(SqlValueView::Int(y as i64)));
    }
    if let Some(q) = opt_str(opts.status) {
        lemma_push_extends(p8.params, SqlValueView::Text(q));
        assert(chain[8].contains(SqlValueView::Text(q)));
    }
}

} // verus!

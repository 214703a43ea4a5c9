use obsidian_paper_cache::similarity::similarity_groups;
use obsidian_paper_cache::models::Paper;
use obsidian_paper_cache::query::{
    build_filter_query, paper_row, paths_to_delete, related_rows, FilterOptions, RelatedTable,
    SqlValue,
};

fn no_filter(limit: usize) -> FilterOptions {
    FilterOptions {
        title: None,
        author: None,
        year: None,
        year_from: None,
        year_to: None,
        keyword: None,
        field: None,
        venue: None,
        status: None,
        limit,
    }
}

fn text_of(v: &SqlValue) -> &str {
    match v {
        SqlValue::Text(s) => s.as_str(),
        _ => panic!("not text"),
    }
}

fn int_of(v: &SqlValue) -> i64 {
    match v {
        SqlValue::Int(i) => *i,
        _ => panic!("not an integer"),
    }
}

#[test]
fn query_without_conditions() {
    let q = build_filter_query(&no_filter(20));
    assert_eq!(
        q.sql,
        "SELECT DISTINCT p.id, p.file_path, p.title, p.year, p.venue, p.doi, p.status FROM papers p ORDER BY p.year DESC, p.title ASC LIMIT ?1"
    );
    assert_eq!(q.params.len(), 1);
    assert_eq!(int_of(&q.params[0]), 20);
}

#[test]
fn query_with_every_condition() {
    let mut o = no_filter(5);
    o.title = Some("deep".to_string());
    o.author = Some("Zaki".to_string());
    o.year = Some(2002);
    o.year_from = Some(2000);
    o.year_to = Some(2010);
    o.keyword = Some("anomaly".to_string());
    o.field = Some("Security".to_string());
    o.venue = Some("KDD".to_string());
    o.status = Some("done".to_string());
    let q = build_filter_query(&o);
    assert_eq!(
        q.sql,
        "SELECT DISTINCT p.id, p.file_path, p.title, p.year, p.venue, p.doi, p.status FROM papers p \
JOIN authors a ON a.paper_id = p.id \
LEFT JOIN tags t ON t.paper_id = p.id \
LEFT JOIN research_tasks rt ON rt.paper_id = p.id \
JOIN fields_of_study f ON f.paper_id = p.id \
WHERE a.name LIKE ?1 AND (t.tag LIKE ?2 OR rt.task LIKE ?3) AND f.field LIKE ?4 AND p.title LIKE ?5 \
AND p.venue LIKE ?6 AND p.year = ?7 AND p.year >= ?8 AND p.year <= ?9 AND p.status = ?10 \
ORDER BY p.year DESC, p.title ASC LIMIT ?11"
    );
    assert_eq!(q.params.len(), 11);
    assert_eq!(text_of(&q.params[0]), "%Zaki%");
    assert_eq!(text_of(&q.params[1]), "%anomaly%");
    assert_eq!(text_of(&q.params[2]), "%anomaly%");
    assert_eq!(text_of(&q.params[3]), "%Security%");
    assert_eq!(text_of(&q.params[4]), "%deep%");
    assert_eq!(text_of(&q.params[5]), "%KDD%");
    assert_eq!(int_of(&q.params[6]), 2002);
    assert_eq!(int_of(&q.params[7]), 2000);
    assert_eq!(int_of(&q.params[8]), 2010);
    assert_eq!(text_of(&q.params[9]), "done");
    assert_eq!(int_of(&q.params[10]), 5);
}

#[test]
fn query_with_a_year_range() {
    let mut o = no_filter(20);
    o.year_from = Some(2020);
    o.year_to = Some(2023);
    let q = build_filter_query(&o);
    assert!(q.sql.ends_with("WHERE p.year >= ?1 AND p.year <= ?2 ORDER BY p.year DESC, p.title ASC LIMIT ?3"));
    assert_eq!(int_of(&q.params[0]), 2020);
    assert_eq!(int_of(&q.params[1]), 2023);
}

#[test]
fn removed_paths_are_the_missing_ones() {
    let cached = vec!["/a.md".to_string(), "/b.md".to_string(), "/c.md".to_string()];
    let existing = vec!["/c.md".to_string(), "/a.md".to_string()];
    assert_eq!(paths_to_delete(&cached, &existing), vec!["/b.md"]);
    assert!(paths_to_delete(&cached, &cached).is_empty());
}

fn sample_paper() -> Paper {
    Paper {
        file_path: "/v/p.md".to_string(),
        title: Some("T".to_string()),
        year: Some(2002),
        venue: None,
        doi: Some("10.1/x".to_string()),
        arxiv_id: None,
        citation_count: Some(42),
        open_access: Some(true),
        status: None,
        authors: vec!["A".to_string(), "B".to_string()],
        tags: vec!["学術論文".to_string()],
        fields_of_study: vec!["CS".to_string()],
        research_tasks: vec![],
        file_modified_at: "m".to_string(),
    }
}

#[test]
fn paper_row_values() {
    let v = paper_row(&sample_paper(), "now");
    assert_eq!(v.len(), 11);
    assert_eq!(text_of(&v[0]), "/v/p.md");
    assert_eq!(text_of(&v[1]), "T");
    assert_eq!(int_of(&v[2]), 2002);
    assert!(matches!(v[3], SqlValue::Null));
    assert_eq!(text_of(&v[4]), "10.1/x");
    assert!(matches!(v[5], SqlValue::Null));
    assert_eq!(int_of(&v[6]), 42);
    assert!(matches!(v[7], SqlValue::Bool(true)));
    assert!(matches!(v[8], SqlValue::Null));
    assert_eq!(text_of(&v[9]), "m");
    assert_eq!(text_of(&v[10]), "now");
}

#[test]
fn related_rows_keep_author_positions() {
    let rows = related_rows(&sample_paper());
    assert_eq!(rows.len(), 4);
    assert!(matches!(rows[0].table, RelatedTable::Authors));
    assert_eq!(rows[0].value, "A");
    assert_eq!(rows[0].position, Some(0));
    assert_eq!(rows[1].value, "B");
    assert_eq!(rows[1].position, Some(1));
    assert!(matches!(rows[2].table, RelatedTable::Tags));
    assert_eq!(rows[2].position, None);
    assert!(matches!(rows[3].table, RelatedTable::FieldsOfStudy));
    assert_eq!(rows[3].value, "CS");
}

#[test]
fn similarity_groups_follow_the_text_conditions() {
    let mut o = no_filter(20);
    o.title = Some("Deep NETS".to_string());
    o.keyword = Some("IDS".to_string());
    o.venue = Some("KDD".to_string());
    let g = similarity_groups(
        &o,
        &Some("Deep Nets Now".to_string()),
        &None,
        &["Ann".to_string()],
        &["学術論文".to_string(), "Tag".to_string()],
        &["Intrusion Detection".to_string()],
        &[],
    );
    assert_eq!(g.len(), 3);
    assert_eq!(g[0].query, "deep nets");
    assert_eq!(g[0].candidates, vec!["deep nets now"]);
    assert_eq!(g[1].query, "ids");
    assert_eq!(g[1].candidates, vec!["学術論文", "tag", "intrusion detection"]);
    assert_eq!(g[2].query, "kdd");
    assert_eq!(g[2].candidates, vec![""]);
    assert!(similarity_groups(&no_filter(1), &None, &None, &[], &[], &[], &[]).is_empty());
}

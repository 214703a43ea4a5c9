use obsidian_paper_cache::bibliography::parse_bibliography_table;
use obsidian_paper_cache::parser::{
    file_stem, frontmatter_block, is_na, non_na, parse_paper, FieldOfStudy, Frontmatter,
};

fn strings(v: &[&str]) -> Vec<String> {
    v.iter().map(|s| s.to_string()).collect()
}

fn paper_frontmatter(tags: &[&str]) -> Frontmatter {
    Frontmatter {
        tags: strings(tags),
        ac_paper_status: None,
        year: None,
        field_of_study: FieldOfStudy::Missing,
        created: None,
    }
}

#[test]
fn frontmatter_block_of_a_full_note() {
    let content = r#"---
tags:
  - 学術論文
  - IntrusionDetection
ac-paper-status: to read
year: 2002
field-of-study:
  - Computer Security
created: 2026-02-22 12:00:00
---
# Title
"#;
    let block = frontmatter_block(content).unwrap();
    assert_eq!(
        block,
        "\ntags:\n  - 学術論文\n  - IntrusionDetection\nac-paper-status: to read\nyear: 2002\nfield-of-study:\n  - Computer Security\ncreated: 2026-02-22 12:00:00"
    );
    let fields = FieldOfStudy::Multiple(strings(&["Computer Security"])).into_vec();
    assert_eq!(fields, vec!["Computer Security"]);
}

#[test]
fn test_parse_frontmatter_no_frontmatter() {
    let content = "# Just a heading\nSome text.";
    let result = frontmatter_block(content);
    assert!(result.is_none());
}

#[test]
fn frontmatter_block_and_single_field_of_study() {
    let content = "---\nfield-of-study: NLP\n---\n";
    assert_eq!(frontmatter_block(content).unwrap(), "\nfield-of-study: NLP");
    let fields = FieldOfStudy::Single("NLP".to_string()).into_vec();
    assert_eq!(fields, vec!["NLP"]);
}

#[test]
fn frontmatter_block_and_missing_field_of_study() {
    let content = "---\ntags:\n  - 学術論文\n---\n";
    assert_eq!(frontmatter_block(content).unwrap(), "\ntags:\n  - 学術論文");
    let fields = Frontmatter::default().field_of_study.into_vec();
    assert!(fields.is_empty());
}

#[test]
fn test_parse_bibliography_table() {
    let content = r#"## 書誌情報

| 項目 | 内容 |
|------|------|
| **タイトル** | ADMIT: Anomaly-based Data Mining for Intrusions |
| **著者** | Karlton Sequeira, Mohammed J. Zaki |
| **発行年** | 2002 |
| **掲載誌/学会** | KDD '02 |
| **DOI** | 10.1145/775047.775103 |
| **arXiv ID** | N/A |
| **研究タスク** | Intrusion Detection, Anomaly Detection |
| **被引用数** | 289 |
| **オープンアクセス** | Yes |
"#;
    let bib = parse_bibliography_table(content);
    assert_eq!(bib.title.as_deref(), Some("ADMIT: Anomaly-based Data Mining for Intrusions"));
    assert_eq!(bib.authors, vec!["Karlton Sequeira", "Mohammed J. Zaki"]);
    assert_eq!(bib.year, Some(2002));
    assert_eq!(bib.venue.as_deref(), Some("KDD '02"));
    assert_eq!(bib.doi.as_deref(), Some("10.1145/775047.775103"));
    assert!(bib.arxiv_id.is_none());
    assert_eq!(bib.research_tasks, vec!["Intrusion Detection", "Anomaly Detection"]);
    assert_eq!(bib.citation_count, Some(289));
    assert_eq!(bib.open_access, Some(true));
}

#[test]
fn test_parse_bibliography_citation_with_annotation() {
    let content = r#"## 書誌情報

| 項目 | 内容 |
|------|------|
| **被引用数** | 1,955 (Semantic Scholar, 2025-01-15) |
"#;
    let bib = parse_bibliography_table(content);
    assert_eq!(bib.citation_count, Some(1955));
}

#[test]
fn test_parse_bibliography_na_fields() {
    let content = r#"## 書誌情報

| 項目 | 内容 |
|------|------|
| **DOI** | N/A |
| **arXiv ID** | N/A |
| **被引用数** | N/A |
"#;
    let bib = parse_bibliography_table(content);
    assert!(bib.doi.is_none());
    assert!(bib.arxiv_id.is_none());
    assert!(bib.citation_count.is_none());
}

#[test]
fn test_parse_paper_no_academic_tag() {
    let content = "---\ntags:\n  - メモ\n---\n# Note\n";
    let result = parse_paper("/test/note.md", content, "2026-01-01", Some(paper_frontmatter(&["メモ"])));
    assert!(result.is_none());
}

#[test]
fn test_parse_paper_complete() {
    let content = r#"---
tags:
  - 学術論文
ac-paper-status: done
year: 2001
field-of-study:
  - Computer Security
---

## 書誌情報

| 項目 | 内容 |
|------|------|
| **タイトル** | Test Paper |
| **著者** | Alice, Bob |
| **発行年** | 2002 |
| **掲載誌/学会** | ICML |
| **DOI** | 10.1234/test |
| **arXiv ID** | 2301.00001 |
| **研究タスク** | Classification |
| **被引用数** | 42 |
| **オープンアクセス** | Yes |
"#;
    let fm = Frontmatter {
        tags: strings(&["学術論文"]),
        ac_paper_status: Some("done".to_string()),
        year: Some(2001),
        field_of_study: FieldOfStudy::Multiple(strings(&["Computer Security"])),
        created: None,
    };
    let paper = parse_paper("/test/paper.md", content, "2026-01-01", Some(fm)).unwrap();
    assert_eq!(paper.title.as_deref(), Some("Test Paper"));
    // the year of the table (2002) wins over the frontmatter's (2001)
    assert_eq!(paper.year, Some(2002));
    assert_eq!(paper.venue.as_deref(), Some("ICML"));
    assert_eq!(paper.status.as_deref(), Some("done"));
    assert_eq!(paper.authors, vec!["Alice", "Bob"]);
    assert_eq!(paper.fields_of_study, vec!["Computer Security"]);
}

#[test]
fn test_parse_paper_fallback_title_to_filename() {
    let content = "---\ntags:\n  - 学術論文\n---\n# Some heading\n";
    let paper = parse_paper("/test/My Paper.md", content, "2026-01-01", Some(paper_frontmatter(&["学術論文"])))
        .unwrap();
    assert_eq!(paper.title.as_deref(), Some("My Paper"));
}

// ---------------------------------------------------------------------------
// Further cases
// ---------------------------------------------------------------------------

#[test]
fn paper_keeps_frontmatter_year_and_fields_without_table() {
    let fm = Frontmatter {
        tags: strings(&["学術論文", "NLP"]),
        ac_paper_status: Some("to read".to_string()),
        year: Some(1999),
        field_of_study: FieldOfStudy::Single("Linguistics".to_string()),
        created: None,
    };
    let paper = parse_paper("notes/x.y.md", "---\n---\nbody", "t", Some(fm)).unwrap();
    assert_eq!(paper.year, Some(1999));
    assert_eq!(paper.title.as_deref(), Some("x.y"));
    assert_eq!(paper.tags, vec!["学術論文", "NLP"]);
    assert_eq!(paper.fields_of_study, vec!["Linguistics"]);
    assert_eq!(paper.file_path, "notes/x.y.md");
    assert_eq!(paper.file_modified_at, "t");
    assert!(paper.authors.is_empty());
}

#[test]
fn paper_without_frontmatter_is_none() {
    assert!(parse_paper("/a.md", "text", "t", None).is_none());
}

#[test]
fn single_empty_field_of_study_is_no_field() {
    assert!(FieldOfStudy::Single(String::new()).into_vec().is_empty());
}

#[test]
fn frontmatter_after_leading_blank_lines() {
    assert_eq!(frontmatter_block("  \n---a: 1\n---").unwrap(), "a: 1");
    assert!(frontmatter_block("---\nno end").is_none());
    assert!(frontmatter_block("x---\n---").is_none());
}

#[test]
fn na_cells() {
    assert!(is_na("N/A"));
    assert!(is_na("n/a"));
    assert!(is_na("-"));
    assert!(!is_na("NA"));
    assert_eq!(non_na(""), None);
    assert_eq!(non_na("-"), None);
    assert_eq!(non_na("ICML").as_deref(), Some("ICML"));
}

#[test]
fn file_stems() {
    assert_eq!(file_stem("/test/My Paper.md").as_deref(), Some("My Paper"));
    assert_eq!(file_stem("a/b.tar.gz").as_deref(), Some("b.tar"));
    assert_eq!(file_stem("dir/.hidden").as_deref(), Some(".hidden"));
    assert_eq!(file_stem("dir/name.").as_deref(), Some("name"));
    assert_eq!(file_stem("dir/sub/").as_deref(), Some("sub"));
    assert_eq!(file_stem("dir/sub/.").as_deref(), Some("sub"));
    assert_eq!(file_stem("a/.."), None);
    assert_eq!(file_stem("/"), None);
    assert_eq!(file_stem(""), None);
}

#[test]
fn bibliography_row_grammar_edges() {
    let content = "intro\n## 書誌情報\r\n|  **タイトル**  |   A | B   |\r\n| **発行年** | -12 |\n| **被引用数** | about １２ cites |\n| **オープンアクセス** |  |\n| **著者** | Alice, , Bob |\n## Next\n| **DOI** | 10.1/x |\n";
    let bib = parse_bibliography_table(content);
    assert_eq!(bib.title.as_deref(), Some("A | B"));
    assert_eq!(bib.year, Some(-12));
    // the first decimal digit is a fullwidth one, which `i32` parsing refuses
    assert_eq!(bib.citation_count, None);
    // an empty cell is not "Yes"
    assert_eq!(bib.open_access, Some(false));
    assert_eq!(bib.authors, vec!["Alice", "Bob"]);
    // the next section is not read
    assert!(bib.doi.is_none());
}

#[test]
fn bibliography_later_rows_override_and_na_keeps() {
    let content = "## 書誌情報\n| **発行年** | 2000 |\n| **発行年** | N/A |\n| **タイトル** | First |\n| **タイトル** | n/a |\n| **被引用数** | none |\n| **発行年** | 99999999999 |\n";
    let bib = parse_bibliography_table(content);
    // an unparsable year replaces the earlier one, N/A leaves it
    assert_eq!(bib.year, None);
    assert_eq!(bib.title, None);
    assert_eq!(bib.citation_count, None);
}

#[test]
fn bibliography_without_section_is_empty() {
    let bib = parse_bibliography_table("| **タイトル** | X |");
    assert!(bib.title.is_none());
    assert!(bib.authors.is_empty());
    assert!(bib.open_access.is_none());
}

use obsidian_paper_cache::models::PaperResult;
use obsidian_paper_cache::output::{format_authors, render_table, render_xml, table_row, truncate};

fn strings(v: &[&str]) -> Vec<String> {
    v.iter().map(|s| s.to_string()).collect()
}

fn result(title: Option<&str>, year: Option<i32>, authors: &[&str]) -> PaperResult {
    PaperResult {
        title: title.map(|s| s.to_string()),
        year,
        venue: Some("KDD".to_string()),
        doi: None,
        status: Some("to read".to_string()),
        file_path: "/v/a & b.md".to_string(),
        authors: strings(authors),
        tags: strings(&["学術論文"]),
        fields_of_study: vec![],
        research_tasks: strings(&["IDS"]),
    }
}

#[test]
fn truncate_keeps_short_text() {
    assert_eq!(truncate("short", 50), "short");
    assert_eq!(truncate("abcdef", 6), "abcdef");
}

#[test]
fn truncate_cuts_by_characters() {
    assert_eq!(truncate("abcdefg", 6), "abc...");
    assert_eq!(truncate("論文論文論文論文", 5), "論文...");
}

#[test]
fn format_authors_lists_up_to_max() {
    assert_eq!(format_authors(&[], 3), "");
    assert_eq!(format_authors(&strings(&["A", "B"]), 3), "A, B");
    assert_eq!(format_authors(&strings(&["A", "B", "C"]), 3), "A, B, C");
    assert_eq!(format_authors(&strings(&["A", "B", "C", "D"]), 3), "A, B, C et al.");
}

#[test]
fn table_row_cells() {
    let long = "x".repeat(60);
    let p = result(Some(&long), Some(2002), &["A", "B", "C", "D"]);
    let cells = table_row(&p);
    assert_eq!(cells[0], format!("{}...", "x".repeat(47)));
    assert_eq!(cells[1], "2002");
    assert_eq!(cells[2], "A, B, C et al.");
    assert_eq!(cells[3], "KDD");
    assert_eq!(cells[4], "to read");
    let q = result(None, None, &[]);
    let cells = table_row(&q);
    assert_eq!(cells[0], "(untitled)");
    assert_eq!(cells[1], "");
    assert_eq!(cells[2], "");
}

#[test]
fn table_output() {
    assert_eq!(render_table(&[]), "No papers found.");
    let t = render_table(&[result(Some("Paper One"), Some(-5), &["Ann"])]);
    assert!(t.contains("| Title"));
    assert!(t.contains("Paper One"));
    assert!(t.contains("-5"));
    assert!(t.contains("to read"));
    assert_eq!(t.lines().count(), 5);
}

#[test]
fn xml_output() {
    let xml = render_xml(&[result(Some("A <b>"), Some(2002), &["X"])]);
    let expected = "<?xml version=\"1.0\" encoding=\"UTF-8\"?>\n<papers>\n  <paper>\n    <title>A &lt;b&gt;</title>\n    <year>2002</year>\n    <venue>KDD</venue>\n    <doi></doi>\n    <status>to read</status>\n    <file_path>/v/a &amp; b.md</file_path>\n    <authors>\n      <author>X</author>\n    </authors>\n    <tags>\n      <tag>学術論文</tag>\n    </tags>\n    <fields_of_study>\n    </fields_of_study>\n    <research_tasks>\n      <task>IDS</task>\n    </research_tasks>\n  </paper>\n</papers>";
    assert_eq!(xml, expected);
    let empty = render_xml(&[]);
    assert_eq!(empty, "<?xml version=\"1.0\" encoding=\"UTF-8\"?>\n<papers>\n</papers>");
}

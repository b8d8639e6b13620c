use git_issues::frontmatter::Document;
use git_issues::listing::{format_rows, is_selected, issue_row, labels_contain, sort_rows, Row};

fn row(a: &str, b: &str, c: &str) -> Row {
    (a.to_string(), b.to_string(), c.to_string())
}

#[test]
fn labels_split_on_commas_and_spaces() {
    assert!(labels_contain("bug, ui", "ui"));
    assert!(labels_contain("bug,ui", "bug"));
    assert!(!labels_contain("bugs", "bug"));
    assert!(!labels_contain("", "bug"));
}

#[test]
fn row_falls_back_to_file_stem() {
    let doc = Document::parse("just a body\n");
    assert_eq!(issue_row(&doc, "no-frontmatter-1234.md"), row("no-frontmatter-1234", "", ""));
    let doc = Document::parse("---\nid: alpha-bbbb\ntitle: T\nstatus: open\n---\n");
    assert_eq!(issue_row(&doc, "whatever.md"), row("alpha-bbbb", "open", "T"));
}

#[test]
fn filters_on_status_and_label() {
    let doc = Document::parse("---\nstatus: open\nlabels: bug, ui\n---\n");
    assert!(is_selected(&doc, &None, &None));
    assert!(is_selected(&doc, &Some("open".into()), &Some("ui".into())));
    assert!(!is_selected(&doc, &Some("closed".into()), &None));
    assert!(!is_selected(&doc, &None, &Some("docs".into())));
}

#[test]
fn rows_sort_by_id_then_status_then_title() {
    let rows = vec![row("zeta", "open", "a"), row("alpha", "open", "b"), row("alpha", "closed", "c")];
    assert_eq!(
        sort_rows(rows),
        vec![row("alpha", "closed", "c"), row("alpha", "open", "b"), row("zeta", "open", "a")]
    );
}

#[test]
fn columns_are_padded_to_the_widest() {
    let rows = vec![row("a", "closed", "T2"), row("b-1", "open", "T1")];
    assert_eq!(format_rows(&rows), vec!["a    closed  T2".to_string(), "b-1  open    T1".to_string()]);
}

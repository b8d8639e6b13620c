use git_issues::frontmatter::Document;

fn pairs(doc: &Document) -> Vec<(&str, &str)> {
    doc.fields.iter().map(|(k, v)| (k.as_str(), v.as_str())).collect()
}

#[test]
fn text_without_fence_is_all_body() {
    let doc = Document::parse("no fence here\n");
    assert!(doc.fields.is_empty());
    assert_eq!(doc.body, "no fence here\n");
}

#[test]
fn empty_text_is_empty_body() {
    let doc = Document::parse("");
    assert!(doc.fields.is_empty());
    assert_eq!(doc.body, "");
}

#[test]
fn fields_are_trimmed_and_body_follows_blank_line() {
    let doc = Document::parse(
        "---\nid: abc\ntitle:  Hello World  \nstatus: open\n---\n\nBody text\nmore\n",
    );
    assert_eq!(
        pairs(&doc),
        vec![("id", "abc"), ("title", "Hello World"), ("status", "open")]
    );
    assert_eq!(doc.body, "Body text\nmore");
}

#[test]
fn unclosed_front_matter_is_all_body() {
    let raw = "---\nid: x\ntitle: y\n";
    let doc = Document::parse(raw);
    assert!(doc.fields.is_empty());
    assert_eq!(doc.body, raw);
}

#[test]
fn lines_without_colon_are_ignored() {
    let doc = Document::parse("---\nnot a field\nk: v\n---\nbody");
    assert_eq!(pairs(&doc), vec![("k", "v")]);
    assert_eq!(doc.body, "body");
}

#[test]
fn crlf_lines_and_padded_fences() {
    let doc = Document::parse("---  \r\nk: v\r\n---\r\n\r\nline1\r\nline2");
    assert_eq!(pairs(&doc), vec![("k", "v")]);
    assert_eq!(doc.body, "line1\nline2");
}

#[test]
fn value_keeps_later_colons() {
    let doc = Document::parse("---\nurl: http://example.com:8080\n---\n");
    assert_eq!(pairs(&doc), vec![("url", "http://example.com:8080")]);
    assert_eq!(doc.body, "");
}

#[test]
fn only_one_blank_separator_line_is_dropped() {
    let doc = Document::parse("---\na: 1\n---\n\n\nbody\n");
    assert_eq!(doc.body, "\nbody");
}

#[test]
fn get_finds_first_field() {
    let doc = Document::parse("---\nk: first\nk: second\n---\n");
    assert_eq!(doc.get("k"), Some("first"));
    assert_eq!(doc.get("missing"), None);
}

#[test]
fn set_updates_in_place_or_appends() {
    let mut doc = Document::parse("---\nid: a\nstatus: open\ntitle: t\n---\n\nbody\n");
    doc.set("status", "closed");
    doc.set("updated", "2026-07-02T12:34:56Z");
    assert_eq!(
        pairs(&doc),
        vec![
            ("id", "a"),
            ("status", "closed"),
            ("title", "t"),
            ("updated", "2026-07-02T12:34:56Z")
        ]
    );
    assert_eq!(doc.get("status"), Some("closed"));
}

#[test]
fn render_writes_fences_fields_and_trimmed_body() {
    let doc = Document {
        fields: vec![("id".into(), "a".into()), ("title".into(), "T".into())],
        body: "text\n\n  ".into(),
    };
    assert_eq!(doc.render(), "---\nid: a\ntitle: T\n---\n\ntext\n");
}

#[test]
fn render_with_empty_value_and_body() {
    let doc = Document { fields: vec![("labels".into(), String::new())], body: String::new() };
    assert_eq!(doc.render(), "---\nlabels: \n---\n\n\n");
}

#[test]
fn parse_after_render_gives_fields_and_trimmed_body() {
    let doc = Document {
        fields: vec![
            ("id".into(), "fix-it-ab12".into()),
            ("title".into(), "Fix: the thing".into()),
            ("labels".into(), String::new()),
        ],
        body: "Line one\n\nLine three\n\n".into(),
    };
    let back = Document::parse(&doc.render());
    assert_eq!(back.fields, doc.fields);
    assert_eq!(back.body, "Line one\n\nLine three");
}

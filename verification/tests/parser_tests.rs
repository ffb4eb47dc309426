use dotenv_lsp::parser::parse_dotenv;
use dotenv_lsp::table::{VariableEntry, VariableTable};

#[test]
fn comment_line_attaches_documentation() {
    let t = parse_dotenv("# doc line\nFOO=bar\n");
    assert_eq!(t.len(), 1);
    let e = t.get("FOO").expect("FOO should be defined");
    assert_eq!(e.value, "bar");
    assert_eq!(e.docs.as_deref(), Some("doc line\n"));
}

#[test]
fn inline_comment_is_stripped() {
    let t = parse_dotenv("FOO=bar # inline comment\n");
    assert_eq!(t.len(), 1);
    let e = t.get("FOO").expect("FOO should be defined");
    assert_eq!(e.value, "bar");
    assert_eq!(e.docs, None);
}

#[test]
fn blank_line_breaks_doc_association() {
    let t = parse_dotenv("# doc\n\nFOO=bar\n");
    let e = t.get("FOO").expect("FOO should be defined");
    assert_eq!(e.value, "bar");
    assert_eq!(e.docs, None);
}

#[test]
fn parse_is_total_on_junk() {
    let t = parse_dotenv("");
    assert_eq!(t.len(), 0);
    let t = parse_dotenv("\n\n\n");
    assert_eq!(t.len(), 0);
    let t = parse_dotenv("no equals here\n###\n   \n");
    assert_eq!(t.len(), 0);
    let t = parse_dotenv("garbage\u{1F600} lines\nstill=fine\n");
    assert_eq!(t.len(), 1);
    assert_eq!(t.get("still").unwrap().value, "fine");
}

#[test]
fn duplicate_key_last_wins() {
    let t = parse_dotenv("FOO=1\nFOO=2\n");
    assert_eq!(t.len(), 1);
    assert_eq!(t.get("FOO").unwrap().value, "2");
}

#[test]
fn comment_block_accumulates() {
    let t = parse_dotenv("# first\n# second\nFOO=x\n");
    let e = t.get("FOO").unwrap();
    assert_eq!(e.docs.as_deref(), Some("first\nsecond\n"));
}

#[test]
fn malformed_line_resets_docs_without_aborting() {
    let t = parse_dotenv("# a\nnot a definition\nFOO=x\nBAR=y\n");
    assert_eq!(t.len(), 2);
    assert_eq!(t.get("FOO").unwrap().docs, None);
    assert_eq!(t.get("BAR").unwrap().docs, None);
}

#[test]
fn hash_first_wins_over_equals() {
    let t = parse_dotenv("#A=B\n");
    assert_eq!(t.len(), 0);
}

#[test]
fn keys_and_values_are_trimmed() {
    let t = parse_dotenv("  FOO  =  bar  \n");
    assert_eq!(t.get("FOO").unwrap().value, "bar");
}

#[test]
fn empty_value_and_missing_trailing_newline() {
    let t = parse_dotenv("FOO=");
    assert_eq!(t.get("FOO").unwrap().value, "");
    let t = parse_dotenv("FOO=bar");
    assert_eq!(t.get("FOO").unwrap().value, "bar");
}

#[test]
fn reparsing_identical_content_is_identical() {
    let text = "# doc\nFOO=bar\nBAZ=qux # c\n";
    let t1 = parse_dotenv(text);
    let t2 = parse_dotenv(text);
    assert_eq!(t1, t2);
    assert_eq!(t1.get("FOO").unwrap().value, t2.get("FOO").unwrap().value);
}

#[test]
fn table_insert_overwrites_and_get_misses() {
    let mut t = VariableTable::new();
    t.insert(
        "A".to_string(),
        VariableEntry { value: "1".to_string(), docs: None },
    );
    t.insert(
        "A".to_string(),
        VariableEntry { value: "2".to_string(), docs: Some("d".to_string()) },
    );
    assert_eq!(t.len(), 1);
    assert_eq!(t.get("A").unwrap().value, "2");
    assert_eq!(t.get("A").unwrap().docs.as_deref(), Some("d"));
    assert!(t.get("B").is_none());
}

#[test]
fn table_merge_prefers_other() {
    let mut t = VariableTable::new();
    t.insert(
        "A".to_string(),
        VariableEntry { value: "1".to_string(), docs: None },
    );
    t.insert(
        "B".to_string(),
        VariableEntry { value: "keep".to_string(), docs: None },
    );
    let mut o = VariableTable::new();
    o.insert(
        "A".to_string(),
        VariableEntry { value: "9".to_string(), docs: None },
    );
    t.merge_from(&o);
    assert_eq!(t.len(), 2);
    assert_eq!(t.get("A").unwrap().value, "9");
    assert_eq!(t.get("B").unwrap().value, "keep");
}

#[test]
fn crlf_line_endings_are_handled() {
    let t = parse_dotenv("# doc\r\nFOO=bar\r\n");
    let e = t.get("FOO").unwrap();
    assert_eq!(e.value, "bar");
    assert_eq!(e.docs.as_deref(), Some("doc\n"));
}

#[test]
fn tabs_are_trimmed() {
    let t = parse_dotenv("\tFOO\t=\tbar\t\n");
    assert_eq!(t.get("FOO").unwrap().value, "bar");
}

#[test]
fn definition_line_resets_docs_for_the_next() {
    let t = parse_dotenv("# d\nFOO=1\nBAR=2\n");
    assert_eq!(t.get("FOO").unwrap().docs.as_deref(), Some("d\n"));
    assert_eq!(t.get("BAR").unwrap().docs, None);
}

use dotenv_lsp::completion::{project, Position};
use dotenv_lsp::config::{Config, DocFormat, LoadOrder, CONSTANT_ITEM_KIND};
use dotenv_lsp::table::{VariableEntry, VariableTable};

fn config_with(eval_on_confirm: bool, show_documentation: bool, show_content_on_docs: bool) -> Config {
    Config {
        load_shell: true,
        filename_pattern: ".*".to_string(),
        load_order: LoadOrder::Desc,
        item_kind: CONSTANT_ITEM_KIND,
        eval_on_confirm,
        show_documentation,
        show_content_on_docs,
        documentation_format: DocFormat::Markdown,
    }
}

fn one_entry_table(value: &str, docs: Option<&str>) -> VariableTable {
    let mut t = VariableTable::new();
    t.insert(
        "FOO".to_string(),
        VariableEntry { value: value.to_string(), docs: docs.map(|d| d.to_string()) },
    );
    t
}

fn origin() -> Position {
    Position { line: 0, character: 0 }
}

#[test]
fn eval_on_confirm_inserts_value() {
    let t = one_entry_table("bar", None);
    let items = project(&t, &config_with(true, true, true), origin());
    assert_eq!(items.len(), 1);
    assert_eq!(items[0].label, "FOO");
    assert_eq!(items[0].insert_text, "bar");
}

#[test]
fn without_eval_on_confirm_inserts_name() {
    let t = one_entry_table("bar", None);
    let items = project(&t, &config_with(false, true, true), origin());
    assert_eq!(items[0].insert_text, "FOO");
}

#[test]
fn documentation_suppressed_when_disabled() {
    let t = one_entry_table("bar", Some("stored documentation"));
    let items = project(&t, &config_with(false, false, true), origin());
    assert_eq!(items[0].documentation, None);
}

#[test]
fn documentation_with_content_appended() {
    let t = one_entry_table("bar", Some("doc"));
    let items = project(&t, &config_with(false, true, true), origin());
    let d = items[0].documentation.as_ref().expect("documentation expected");
    assert_eq!(d.text, "doc\n\ncontent: bar");
    assert_eq!(d.format, DocFormat::Markdown);
}

#[test]
fn documentation_without_content() {
    let t = one_entry_table("bar", Some("doc"));
    let items = project(&t, &config_with(false, true, false), origin());
    assert_eq!(items[0].documentation.as_ref().unwrap().text, "doc");
}

#[test]
fn empty_value_appends_no_content() {
    let t = one_entry_table("", Some("doc"));
    let items = project(&t, &config_with(false, true, true), origin());
    assert_eq!(items[0].documentation.as_ref().unwrap().text, "doc");
}

#[test]
fn entry_without_docs_gets_none() {
    let t = one_entry_table("bar", None);
    let items = project(&t, &config_with(false, true, true), origin());
    assert_eq!(items[0].documentation, None);
}

#[test]
fn kind_and_position_pass_through() {
    let t = one_entry_table("bar", None);
    let mut c = config_with(false, true, true);
    c.item_kind = 6;
    c.documentation_format = DocFormat::PlainText;
    let pos = Position { line: 3, character: 7 };
    let items = project(&t, &c, pos);
    assert_eq!(items[0].kind, 6);
    assert_eq!(items[0].position, pos);
}

#[test]
fn one_item_per_table_entry() {
    let mut t = one_entry_table("bar", None);
    t.insert(
        "BAR".to_string(),
        VariableEntry { value: "x".to_string(), docs: Some("d".to_string()) },
    );
    let items = project(&t, &config_with(false, true, true), origin());
    assert_eq!(items.len(), 2);
}

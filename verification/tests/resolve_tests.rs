use dotenv_lsp::config::{Config, DocFormat, LoadOrder, CONSTANT_ITEM_KIND};
use dotenv_lsp::resolve::{resolve, ResolveError, SourceFile};

fn test_config(pattern: &str, load_shell: bool) -> Config {
    Config {
        load_shell,
        filename_pattern: pattern.to_string(),
        load_order: LoadOrder::Desc,
        item_kind: CONSTANT_ITEM_KIND,
        eval_on_confirm: false,
        show_documentation: true,
        show_content_on_docs: true,
        documentation_format: DocFormat::Markdown,
    }
}

fn shell(pairs: &[(&str, &str)]) -> Vec<(String, String)> {
    pairs.iter().map(|(k, v)| (k.to_string(), v.to_string())).collect()
}

fn file(name: &str, content: &str) -> SourceFile {
    SourceFile { name: name.to_string(), content: content.to_string() }
}

#[test]
fn file_entry_overrides_shell_entry() {
    let config = test_config(".*", true);
    let t = resolve(
        &config,
        &shell(&[("FOO", "1")]),
        &Vec::new(),
        &Some(file(".env", "FOO=2\n")),
    )
    .expect("pattern is valid");
    assert_eq!(t.get("FOO").unwrap().value, "2");
}

#[test]
fn nonmatching_file_contributes_nothing() {
    let config = test_config("^settings$", false);
    let t = resolve(
        &config,
        &Vec::new(),
        &vec![file(".env", "FOO=2\n")],
        &None,
    )
    .expect("pattern is valid");
    assert_eq!(t.len(), 0);
    let t = resolve(
        &config,
        &Vec::new(),
        &Vec::new(),
        &Some(file(".env", "FOO=2\n")),
    )
    .expect("pattern is valid");
    assert_eq!(t.len(), 0);
}

#[test]
fn invalid_pattern_is_reported() {
    let config = test_config("(", true);
    assert!(!config.pattern_ok());
    let r = resolve(&config, &Vec::new(), &Vec::new(), &None);
    assert_eq!(r.unwrap_err(), ResolveError::InvalidPattern);
}

#[test]
fn default_pattern_is_valid() {
    let config = Config::default();
    assert!(config.pattern_ok());
    assert_eq!(config.filename_pattern, ".*");
    assert!(config.load_shell);
    assert!(!config.eval_on_confirm);
    assert!(config.show_documentation);
    assert!(config.show_content_on_docs);
    assert_eq!(config.load_order, LoadOrder::Desc);
    assert_eq!(config.documentation_format, DocFormat::Markdown);
    assert_eq!(config.item_kind, CONSTANT_ITEM_KIND);
}

#[test]
fn shell_disabled_loads_nothing() {
    let config = test_config(".*", false);
    let t = resolve(&config, &shell(&[("FOO", "1")]), &Vec::new(), &None)
        .expect("pattern is valid");
    assert_eq!(t.len(), 0);
}

#[test]
fn shell_enabled_loads_without_docs() {
    let config = test_config(".*", true);
    let t = resolve(&config, &shell(&[("FOO", "1"), ("BAR", "2")]), &Vec::new(), &None)
        .expect("pattern is valid");
    assert_eq!(t.len(), 2);
    assert_eq!(t.get("FOO").unwrap().value, "1");
    assert_eq!(t.get("FOO").unwrap().docs, None);
}

#[test]
fn later_workspace_file_wins() {
    let config = test_config(".*", false);
    let t = resolve(
        &config,
        &Vec::new(),
        &vec![file(".env", "FOO=1\nA=a\n"), file(".env.local", "FOO=2\n")],
        &None,
    )
    .expect("pattern is valid");
    assert_eq!(t.len(), 2);
    assert_eq!(t.get("FOO").unwrap().value, "2");
    assert_eq!(t.get("A").unwrap().value, "a");
}

#[test]
fn changed_file_wins_over_workspace() {
    let config = test_config(".*", false);
    let t = resolve(
        &config,
        &Vec::new(),
        &vec![file(".env", "FOO=1\n")],
        &Some(file(".env", "FOO=3\n")),
    )
    .expect("pattern is valid");
    assert_eq!(t.get("FOO").unwrap().value, "3");
}

#[test]
fn workspace_filter_applies_per_file() {
    let config = test_config("env", false);
    let t = resolve(
        &config,
        &Vec::new(),
        &vec![file("config.toml", "SKIP=1\n"), file(".env", "KEEP=2\n")],
        &None,
    )
    .expect("pattern is valid");
    assert_eq!(t.len(), 1);
    assert!(t.get("SKIP").is_none());
    assert_eq!(t.get("KEEP").unwrap().value, "2");
}

#[test]
fn resolving_twice_yields_identical_tables() {
    let config = test_config(".*", true);
    let sh = shell(&[("FOO", "1")]);
    let ws = vec![file(".env", "# d\nBAR=2\n")];
    let ch = Some(file(".env", "BAZ=3\n"));
    let t1 = resolve(&config, &sh, &ws, &ch).expect("pattern is valid");
    let t2 = resolve(&config, &sh, &ws, &ch).expect("pattern is valid");
    assert_eq!(t1, t2);
}

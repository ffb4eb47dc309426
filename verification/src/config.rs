//! The configuration snapshot: loaded once at startup, read-only afterwards,
//! consulted by the resolution pass and the completion projection.
use vstd::prelude::*;

verus! {

/// Precedence direction declared in the configuration. It is carried
/// through unchanged and does not enter the merge: file-derived entries
/// always win over shell-derived ones, and a later-processed file wins over
/// an earlier one, whichever direction is declared here.
#[derive(Clone, Copy, Debug, PartialEq, Eq, Structural)]
pub enum LoadOrder {
    Asc,
    Desc,
}

/// The format tag attached to completion documentation.
#[derive(Clone, Copy, Debug, PartialEq, Eq, Structural)]
pub enum DocFormat {
    PlainText,
    Markdown,
}

/// The completion-item kind number for a constant, as the editor protocol
/// defines it: the default kind of a resolved variable.
pub const CONSTANT_ITEM_KIND: u32 = 21;

/// The configuration supplied by the collaborating editor at initialization.
#[derive(Debug, PartialEq)]
pub struct Config {
    /// Include the process environment as a source.
    pub load_shell: bool,
    /// Regular expression that candidate dotenv filenames must match.
    pub filename_pattern: String,
    /// Declared precedence direction; see `LoadOrder`.
    pub load_order: LoadOrder,
    /// Completion-item kind tag, passed through to the projection unchanged.
    pub item_kind: u32,
    /// Insert the variable's value on confirmation instead of its name.
    pub eval_on_confirm: bool,
    /// Attach documentation to completion items.
    pub show_documentation: bool,
    /// Append the resolved value to the documentation text.
    pub show_content_on_docs: bool,
    /// Format tag for the documentation text.
    pub documentation_format: DocFormat,
}

impl Default for Config {
    /// The defaults used when the editor supplies no configuration: every
    /// filename matches, shell variables load, documentation shows with the
    /// value appended, items insert their name and carry the constant kind
    /// with Markdown documentation.
    fn default() -> (c: Config)
        ensures
            c.load_shell == true,
            c.filename_pattern@ == ".*"@,
            c.load_order == LoadOrder::Desc,
            c.item_kind == CONSTANT_ITEM_KIND,
            c.eval_on_confirm == false,
            c.show_documentation == true,
            c.show_content_on_docs == true,
            c.documentation_format == DocFormat::Markdown,
    {
        Config {
            load_shell: true,
            filename_pattern: String::from_str(".*"),
            load_order: LoadOrder::Desc,
            item_kind: CONSTANT_ITEM_KIND,
            eval_on_confirm: false,
            show_documentation: true,
            show_content_on_docs: true,
            documentation_format: DocFormat::Markdown,
        }
    }
}

impl Config {
    /// Whether `filename_pattern` is a valid regular expression: checked at
    /// configuration-load time so that an invalid pattern is reported once
    /// instead of failing every later resolution pass.
    pub fn pattern_ok(&self) -> (r: bool)
        ensures
            r == crate::pattern::pattern_compiles(self.filename_pattern@),
    {
        crate::pattern::regex_compiles(self.filename_pattern.as_str())
    }
}

} // verus!

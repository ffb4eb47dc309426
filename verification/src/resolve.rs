//! The resolution pass: fold the configured sources — the inherited shell
//! environment, the files discovered in the workspace, and the most recently
//! changed file — into one complete variable table.
//!
//! Precedence: file-derived entries always overwrite shell-derived ones, a
//! later-processed file overwrites an earlier one, and the changed file is
//! processed last. Only files whose name matches the configured filename
//! pattern contribute. The pass builds a complete new table; the caller
//! replaces the previous table with it in one step, so no reader ever sees
//! a partially merged state.
use crate::config::Config;
use crate::parser::{parse_dotenv, parse_spec};
use crate::pattern::{pattern_compiles, pattern_matches, regex_compiles, regex_is_match};
use crate::table::{EntryView, VariableEntry, VariableTable};
use vstd::prelude::*;

verus! {

/// One readable file handed to the pass: its name (matched against the
/// filename pattern) and its content.
#[derive(Debug, PartialEq)]
pub struct SourceFile {
    pub name: String,
    pub content: String,
}

/// Why a resolution pass can fail: only an invalid filename pattern; an
/// unreadable file never reaches the pass, and a malformed line is skipped
/// by the parser.
#[derive(Debug, PartialEq, Eq, Structural)]
pub enum ResolveError {
    InvalidPattern,
}

/// The shell environment folded into `acc`: every variable inserted without
/// documentation, a later pair overwriting an earlier one of the same name.
pub open spec fn shell_fold(
    shell: Seq<(String, String)>,
    acc: Map<Seq<char>, EntryView>,
) -> Map<Seq<char>, EntryView>
    decreases shell.len(),
{
    if shell.len() == 0 {
        acc
    } else {
        shell_fold(shell.drop_last(), acc).insert(
            shell.last().0@,
            EntryView { value: shell.last().1@, docs: None },
        )
    }
}

/// One file folded into `acc`: if its name matches the pattern, its parsed
/// entries overwrite what `acc` holds; otherwise it contributes nothing.
pub open spec fn merge_file(
    pattern: Seq<char>,
    name: Seq<char>,
    content: Seq<char>,
    acc: Map<Seq<char>, EntryView>,
) -> Map<Seq<char>, EntryView> {
    if pattern_matches(pattern, name) {
        acc.union_prefer_right(parse_spec(content))
    } else {
        acc
    }
}

/// The workspace files folded into `acc` in discovery order: a later file's
/// entries overwrite an earlier one's.
pub open spec fn files_fold(
    pattern: Seq<char>,
    files: Seq<SourceFile>,
    acc: Map<Seq<char>, EntryView>,
) -> Map<Seq<char>, EntryView>
    decreases files.len(),
{
    if files.len() == 0 {
        acc
    } else {
        merge_file(
            pattern,
            files.last().name@,
            files.last().content@,
            files_fold(pattern, files.drop_last(), acc),
        )
    }
}

/// The table one resolution pass denotes: shell first (when configured),
/// then the workspace files in order, then the changed file.
pub open spec fn resolve_spec(
    config: Config,
    shell: Seq<(String, String)>,
    files: Seq<SourceFile>,
    changed: Option<SourceFile>,
) -> Map<Seq<char>, EntryView> {
    let m0 = if config.load_shell {
        shell_fold(shell, Map::empty())
    } else {
        Map::empty()
    };
    let m1 = files_fold(config.filename_pattern@, files, m0);
    match changed {
        Some(f) => merge_file(config.filename_pattern@, f.name@, f.content@, m1),
        None => m1,
    }
}

/// Run one resolution pass. Fails exactly when the configured filename
/// pattern is not a valid regular expression; otherwise the returned table
/// is the complete merge that `resolve_spec` describes.
pub fn resolve(
    config: &Config,
    shell_env: &Vec<(String, String)>,
    workspace_files: &Vec<SourceFile>,
    changed_file: &Option<SourceFile>,
) -> (r: Result<VariableTable, ResolveError>)
    ensures
        r is Ok <==> pattern_compiles(config.filename_pattern@),
        r matches Ok(t) ==> t.wf() && t@ == resolve_spec(
            *config,
            shell_env@,
            workspace_files@,
            *changed_file,
        ),
{
    if !regex_compiles(config.filename_pattern.as_str()) {
        return Err(ResolveError::InvalidPattern);
    }
    let mut t = VariableTable::new();
    if config.load_shell {
        let n = shell_env.len();
        let mut i: usize = 0;
        while i < n
            invariant
                n == shell_env@.len(),
                i <= n,
                t.wf(),
                t@ == shell_fold(shell_env@.take(i as int), Map::empty()),
            decreases n - i,
        {
            let name = shell_env[i].0.clone();
            let value = shell_env[i].1.clone();
            t.insert(name, VariableEntry { value, docs: None });
            proof {
                assert(shell_env@.take(i + 1).drop_last() =~= shell_env@.take(i as int));
                assert(shell_env@.take(i + 1).last() == shell_env@[i as int]);
            }
            i = i + 1;
        }
        proof {
            assert(shell_env@.take(n as int) =~= shell_env@);
        }
    }
    let ghost m0 = t@;
    let n = workspace_files.len();
    let mut i: usize = 0;
    while i < n
        invariant
            n == workspace_files@.len(),
            i <= n,
            t.wf(),
            pattern_compiles(config.filename_pattern@),
            t@ == files_fold(config.filename_pattern@, workspace_files@.take(i as int), m0),
        decreases n - i,
    {
        let f = &workspace_files[i];
        if regex_is_match(config.filename_pattern.as_str(), f.name.as_str()) {
            let parsed = parse_dotenv(f.content.as_str());
            t.merge_from(&parsed);
        }
        proof {
            assert(workspace_files@.take(i + 1).drop_last() =~= workspace_files@.take(i as int));
            assert(workspace_files@.take(i + 1).last() == workspace_files@[i as int]);
        }
        i = i + 1;
    }
    proof {
        assert(workspace_files@.take(n as int) =~= workspace_files@);
    }
    if let Some(f) = changed_file {
        if regex_is_match(config.filename_pattern.as_str(), f.name.as_str()) {
            let parsed = parse_dotenv(f.content.as_str());
            t.merge_from(&parsed);
        }
    }
    Ok(t)
}

/// File-derived entries take precedence: whatever the shell or the
/// workspace contributed, every variable defined by a matching changed file
/// resolves to that file's entry.
pub proof fn lemma_file_overrides(
    config: Config,
    shell: Seq<(String, String)>,
    files: Seq<SourceFile>,
    f: SourceFile,
    k: Seq<char>,
)
    requires
        pattern_matches(config.filename_pattern@, f.name@),
        parse_spec(f.content@).contains_key(k),
    ensures
        resolve_spec(config, shell, files, Some(f)).contains_key(k),
        resolve_spec(config, shell, files, Some(f))[k] == parse_spec(f.content@)[k],
{
}

/// A file whose name the pattern does not match contributes no entries,
/// whatever its content: dropping it from the workspace scan leaves the
/// fold unchanged.
pub proof fn lemma_nonmatching_file_ignored(
    pattern: Seq<char>,
    files: Seq<SourceFile>,
    j: int,
    acc: Map<Seq<char>, EntryView>,
)
    requires
        0 <= j < files.len(),
        !pattern_matches(pattern, files[j].name@),
    ensures
        files_fold(pattern, files, acc) == files_fold(pattern, files.remove(j), acc),
    decreases files.len(),
{
    if j == files.len() - 1 {
        assert(files.remove(j) =~= files.drop_last());
    } else {
        assert(files.remove(j).drop_last() =~= files.drop_last().remove(j));
        assert(files.remove(j).last() == files.last());
        assert(files.drop_last()[j] == files[j]);
        lemma_nonmatching_file_ignored(pattern, files.drop_last(), j, acc);
    }
}

/// A changed file whose name the pattern does not match leaves the pass's
/// outcome exactly as if no file had changed.
pub proof fn lemma_nonmatching_changed_ignored(
    config: Config,
    shell: Seq<(String, String)>,
    files: Seq<SourceFile>,
    f: SourceFile,
)
    requires
        !pattern_matches(config.filename_pattern@, f.name@),
    ensures
        resolve_spec(config, shell, files, Some(f)) == resolve_spec(
            config,
            shell,
            files,
            None::<SourceFile>,
        ),
{
}

/// A resolution pass is deterministic: two passes over identical sources
/// denote identical tables.
pub proof fn lemma_resolve_deterministic(
    config: Config,
    shell: Seq<(String, String)>,
    files: Seq<SourceFile>,
    changed: Option<SourceFile>,
    m1: Map<Seq<char>, EntryView>,
    m2: Map<Seq<char>, EntryView>,
)
    requires
        m1 == resolve_spec(config, shell, files, changed),
        m2 == resolve_spec(config, shell, files, changed),
    ensures
        m1 == m2,
{
}

/// Re-parsing a file with identical content is idempotent: merging its
/// parse a second time changes nothing.
pub proof fn lemma_reparse_idempotent(
    pattern: Seq<char>,
    f: SourceFile,
    acc: Map<Seq<char>, EntryView>,
)
    ensures
        merge_file(
            pattern,
            f.name@,
            f.content@,
            merge_file(pattern, f.name@, f.content@, acc),
        ) == merge_file(pattern, f.name@, f.content@, acc),
{
    if pattern_matches(pattern, f.name@) {
        assert(acc.union_prefer_right(parse_spec(f.content@)).union_prefer_right(
            parse_spec(f.content@),
        ) =~= acc.union_prefer_right(parse_spec(f.content@)));
    }
}

} // verus!

//! The dotenv parser: raw text to a key-unique table of variable entries.
//!
//! The text is read line by line. A line starting with `#` adds its trimmed
//! remainder to a pending documentation block; a line with an `=` defines a
//! variable whose key is the trimmed left side and whose value is the
//! trimmed right side truncated at the first `#`; the definition carries the
//! pending documentation if an uninterrupted run of comment lines
//! immediately precedes it. Every other line is skipped, and every
//! non-comment line resets the pending documentation. The parser never
//! fails: malformed lines are ignored, and a later definition of a key
//! overwrites an earlier one.
use crate::strutil::{find_char_in, first_idx, lemma_first_idx_is, lemma_first_idx_props, trim,
    trim_bounds};
use crate::table::{EntryView, VariableEntry, VariableTable};
use vstd::prelude::*;

verus! {

/// A comment line: its first character is `#`.
pub open spec fn is_comment_line(l: Seq<char>) -> bool {
    l.len() > 0 && l[0] == '#'
}

/// The documentation a comment line contributes: everything after the
/// leading `#`, trimmed.
pub open spec fn comment_text(l: Seq<char>) -> Seq<char> {
    trim(l.subrange(1, l.len() as int))
}

/// A definition line: one that contains an `=`.
pub open spec fn has_definition(l: Seq<char>) -> bool {
    first_idx(l, '=') < l.len()
}

/// The key of a definition line: the left of the first `=`, trimmed.
pub open spec fn def_key(l: Seq<char>) -> Seq<char> {
    trim(l.take(first_idx(l, '=')))
}

/// The right-hand side of a definition line: everything after the first `=`.
pub open spec fn def_rhs(l: Seq<char>) -> Seq<char> {
    l.subrange(first_idx(l, '=') + 1, l.len() as int)
}

/// The value of a definition line: its right-hand side truncated at the
/// first `#` (an inline comment), then trimmed.
pub open spec fn def_value(l: Seq<char>) -> Seq<char> {
    trim(def_rhs(l).take(first_idx(def_rhs(l), '#')))
}

/// The pending documentation after a line: a comment line extends it by its
/// text and a newline; any other line resets it.
pub open spec fn docs_after_line(l: Seq<char>, docs: Seq<char>) -> Seq<char> {
    if is_comment_line(l) {
        docs + comment_text(l) + seq!['\n']
    } else {
        Seq::empty()
    }
}

/// The entry a definition line emits, given the pending documentation.
pub open spec fn entry_of_line(l: Seq<char>, docs: Seq<char>) -> EntryView {
    EntryView {
        value: def_value(l),
        docs: if docs.len() > 0 {
            Some(docs)
        } else {
            None
        },
    }
}

/// The table after a line: a non-comment line holding an `=` inserts its
/// entry; every other line leaves the table as it is.
pub open spec fn table_after_line(
    l: Seq<char>,
    docs: Seq<char>,
    acc: Map<Seq<char>, EntryView>,
) -> Map<Seq<char>, EntryView> {
    if !is_comment_line(l) && has_definition(l) {
        acc.insert(def_key(l), entry_of_line(l, docs))
    } else {
        acc
    }
}

/// The parse of the remaining text `s`, given the pending documentation and
/// the entries already collected: the text is split at each newline and the
/// lines are folded in order.
pub open spec fn parse_rec(
    s: Seq<char>,
    docs: Seq<char>,
    acc: Map<Seq<char>, EntryView>,
) -> Map<Seq<char>, EntryView>
    decreases s.len(),
    via parse_rec_decreases
{
    if s.len() == 0 {
        acc
    } else {
        let k = first_idx(s, '\n');
        let line = s.take(k);
        let rest = if k < s.len() {
            s.subrange(k + 1, s.len() as int)
        } else {
            Seq::empty()
        };
        parse_rec(rest, docs_after_line(line, docs), table_after_line(line, docs, acc))
    }
}

#[via_fn]
proof fn parse_rec_decreases(s: Seq<char>, docs: Seq<char>, acc: Map<Seq<char>, EntryView>) {
    lemma_first_idx_props(s, '\n');
}

/// The table that parsing `s` denotes: a mapping from key to entry, with no
/// failure for any input.
pub open spec fn parse_spec(s: Seq<char>) -> Map<Seq<char>, EntryView> {
    parse_rec(s, Seq::empty(), Map::empty())
}

/// Parsing is deterministic: the table a text denotes is a function of the
/// text alone, so parsing identical content twice yields identical tables.
pub proof fn lemma_parse_deterministic(
    s: Seq<char>,
    m1: Map<Seq<char>, EntryView>,
    m2: Map<Seq<char>, EntryView>,
)
    requires
        m1 == parse_spec(s),
        m2 == parse_spec(s),
    ensures
        m1 == m2,
{
}

/// Parse dotenv text into a variable table. Total and deterministic: every
/// input yields the table `parse_spec` describes; malformed lines are
/// skipped, and a later definition of a key overwrites an earlier one.
pub fn parse_dotenv(s: &str) -> (t: VariableTable)
    ensures
        t.wf(),
        t@ == parse_spec(s@),
{
    let n = s.unicode_len();
    let mut t = VariableTable::new();
    let mut docs = String::new();
    let mut i: usize = 0;
    proof {
        assert(s@.subrange(0, n as int) =~= s@);
    }
    while i < n
        invariant
            n == s@.len(),
            i <= n,
            t.wf(),
            parse_rec(s@.subrange(i as int, n as int), docs@, t@) == parse_spec(s@),
        decreases n - i,
    {
        let ghost sub = s@.subrange(i as int, n as int);
        let ghost docs0 = docs@;
        let ghost t0 = t@;
        let j = find_char_in(s, i, n, '\n');
        proof {
            assert forall|m: int| 0 <= m < j - i implies sub[m] != '\n' by {
                assert(sub[m] == s@[i + m]);
            }
            lemma_first_idx_is(sub, '\n', j - i);
        }
        let ghost line = sub.take(j - i);
        proof {
            assert(line =~= s@.subrange(i as int, j as int));
        }
        if i < j && s.get_char(i) == '#' {
            let (a, b) = trim_bounds(s, i + 1, j);
            let seg = s.substring_char(a, b);
            docs.append(seg);
            docs.append("\n");
            proof {
                reveal_strlit("\n");
                assert(is_comment_line(line));
                assert(line.subrange(1, line.len() as int) =~= s@.subrange(i + 1, j as int));
                assert(("\n")@ =~= seq!['\n']);
                assert(docs@ =~= docs_after_line(line, docs0));
                assert(table_after_line(line, docs0, t0) == t0);
            }
        } else {
            let e = find_char_in(s, i, j, '=');
            proof {
                assert forall|m: int| 0 <= m < e - i implies line[m] != '=' by {
                    assert(line[m] == s@[i + m]);
                }
                if e < j {
                    assert(line[e - i] == s@[e as int]);
                }
                lemma_first_idx_is(line, '=', e - i);
                assert(!is_comment_line(line));
            }
            if e < j {
                let (ka, kb) = trim_bounds(s, i, e);
                let key = s.substring_char(ka, kb).to_owned();
                let h = find_char_in(s, e + 1, j, '#');
                let (va, vb) = trim_bounds(s, e + 1, h);
                let value = s.substring_char(va, vb).to_owned();
                let entry_docs = if docs.as_str().is_empty() {
                    None
                } else {
                    Some(docs.clone())
                };
                let entry = VariableEntry { value, docs: entry_docs };
                proof {
                    assert(has_definition(line));
                    assert(line.take(e - i) =~= s@.subrange(i as int, e as int));
                    assert(key@ == def_key(line));
                    let rhs = def_rhs(line);
                    assert(rhs =~= s@.subrange(e + 1, j as int));
                    assert forall|m: int| 0 <= m < h - (e + 1) implies rhs[m] != '#' by {
                        assert(rhs[m] == s@[e + 1 + m]);
                    }
                    if h < j {
                        assert(rhs[h - (e + 1)] == s@[h as int]);
                    }
                    lemma_first_idx_is(rhs, '#', h - (e + 1));
                    assert(rhs.take(h - (e + 1)) =~= s@.subrange(e + 1, h as int));
                    assert(value@ == def_value(line));
                    assert(entry@ == entry_of_line(line, docs0));
                }
                t.insert(key, entry);
                proof {
                    assert(t@ == table_after_line(line, docs0, t0));
                }
            } else {
                proof {
                    assert(!has_definition(line));
                    assert(t@ == table_after_line(line, docs0, t0));
                }
            }
            docs = String::new();
            proof {
                assert(docs@ =~= docs_after_line(line, docs0));
            }
        }
        i = if j < n {
            j + 1
        } else {
            n
        };
        proof {
            assert(parse_rec(sub, docs0, t0) == parse_spec(s@));
            if first_idx(sub, '\n') < sub.len() {
                assert(sub.subrange(first_idx(sub, '\n') + 1, sub.len() as int) =~= s@.subrange(
                    i as int,
                    n as int,
                ));
            } else {
                assert(s@.subrange(i as int, n as int) =~= Seq::<char>::empty());
            }
            assert(parse_rec(s@.subrange(i as int, n as int), docs@, t@) == parse_spec(s@));
        }
    }
    proof {
        assert(s@.subrange(i as int, n as int) =~= Seq::<char>::empty());
    }
    t
}

} // verus!

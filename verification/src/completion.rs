//! The completion projection: read the variable table and the configuration
//! snapshot and produce one completion candidate per resolved variable.
use crate::config::{Config, DocFormat};
use crate::table::{lemma_ins_found, lemma_ins_untouched, lemma_map_of_len, EntryView,
    VariableTable};
use vstd::prelude::*;

verus! {

/// A cursor position in the document, as the editor reports it.
#[derive(Clone, Copy, Debug, PartialEq, Eq, Structural)]
pub struct Position {
    pub line: u32,
    pub character: u32,
}

/// Mathematical view of a completion item's documentation.
#[verifier::ext_equal]
pub ghost struct DocView {
    pub text: Seq<char>,
    pub format: DocFormat,
}

/// Documentation attached to a completion item.
#[derive(Debug, PartialEq)]
pub struct Documentation {
    pub text: String,
    pub format: DocFormat,
}

impl View for Documentation {
    type V = DocView;

    open spec fn view(&self) -> DocView {
        DocView { text: self.text@, format: self.format }
    }
}

/// Mathematical view of one completion candidate.
#[verifier::ext_equal]
pub ghost struct ItemView {
    pub label: Seq<char>,
    pub insert_text: Seq<char>,
    pub position: Position,
    pub kind: u32,
    pub documentation: Option<DocView>,
}

/// One completion candidate: the variable's name as label, the text a
/// confirmation inserts at the cursor (a pure insertion at a zero-width
/// range), the configured kind tag, and optional documentation.
#[derive(Debug, PartialEq)]
pub struct CompletionItem {
    pub label: String,
    pub insert_text: String,
    pub position: Position,
    pub kind: u32,
    pub documentation: Option<Documentation>,
}

impl View for CompletionItem {
    type V = ItemView;

    open spec fn view(&self) -> ItemView {
        ItemView {
            label: self.label@,
            insert_text: self.insert_text@,
            position: self.position,
            kind: self.kind,
            documentation: match self.documentation {
                Some(d) => Some(d@),
                None => None,
            },
        }
    }
}

/// The documentation text of an entry: the stored comment block, with the
/// resolved value appended when configured and non-empty.
pub open spec fn doc_text_spec(e: EntryView, d: Seq<char>, config: Config) -> Seq<char> {
    if config.show_content_on_docs && e.value.len() > 0 {
        d + "\n\ncontent: "@ + e.value
    } else {
        d
    }
}

/// The documentation of a projected item: present only when documentation
/// is shown and the entry stores some.
pub open spec fn item_docs_spec(e: EntryView, config: Config) -> Option<DocView> {
    if !config.show_documentation {
        None
    } else {
        match e.docs {
            Some(d) => Some(
                DocView { text: doc_text_spec(e, d, config), format: config.documentation_format },
            ),
            None => None,
        }
    }
}

/// The completion item projected from one table entry.
pub open spec fn project_item_spec(
    name: Seq<char>,
    e: EntryView,
    config: Config,
    pos: Position,
) -> ItemView {
    ItemView {
        label: name,
        insert_text: if config.eval_on_confirm {
            e.value
        } else {
            name
        },
        position: pos,
        kind: config.item_kind,
        documentation: item_docs_spec(e, config),
    }
}

/// Project the table into a completion list: exactly one item per resolved
/// variable, each as `project_item_spec` describes — every item's label is
/// a variable of the table projected with its own entry, no two items share
/// a label, and every variable of the table is represented.
pub fn project(table: &VariableTable, config: &Config, pos: Position) -> (items: Vec<
    CompletionItem,
>)
    requires
        table.wf(),
    ensures
        items@.len() == table.entries@.len(),
        table@.dom().finite() && items@.len() == table@.dom().len(),
        forall|i: int|
            0 <= i < items@.len() ==> #[trigger] items@[i]@ == project_item_spec(
                table.entries@[i].0@,
                table.entries@[i].1@,
                *config,
                pos,
            ),
        forall|i: int|
            0 <= i < items@.len() ==> table@.contains_key(#[trigger] items@[i]@.label)
                && items@[i]@ == project_item_spec(
                items@[i]@.label,
                table@[items@[i]@.label],
                *config,
                pos,
            ),
        forall|i: int, j: int|
            0 <= i < j < items@.len() ==> items@[i]@.label != items@[j]@.label,
        forall|k: Seq<char>|
            #[trigger] table@.contains_key(k) ==> exists|i: int|
                0 <= i < items@.len() && items@[i]@.label == k,
{
    let n = table.entries.len();
    let mut items: Vec<CompletionItem> = Vec::new();
    let mut i: usize = 0;
    while i < n
        invariant
            n == table.entries@.len(),
            i <= n,
            items@.len() == i,
            forall|m: int|
                0 <= m < i ==> #[trigger] items@[m]@ == project_item_spec(
                    table.entries@[m].0@,
                    table.entries@[m].1@,
                    *config,
                    pos,
                ),
        decreases n - i,
    {
        let name = &table.entries[i].0;
        let entry = &table.entries[i].1;
        let label = name.clone();
        let insert_text = if config.eval_on_confirm {
            entry.value.clone()
        } else {
            name.clone()
        };
        let documentation = if config.show_documentation {
            match &entry.docs {
                Some(d) => {
                    let text = if config.show_content_on_docs && !entry.value.as_str().is_empty() {
                        let mut td = d.clone();
                        td.append("\n\ncontent: ");
                        td.append(entry.value.as_str());
                        td
                    } else {
                        d.clone()
                    };
                    Some(Documentation { text, format: config.documentation_format })
                },
                None => None,
            }
        } else {
            None
        };
        let item = CompletionItem {
            label,
            insert_text,
            position: pos,
            kind: config.item_kind,
            documentation,
        };
        proof {
            assert(item@.documentation =~= item_docs_spec(table.entries@[i as int].1@, *config));
            assert(item@ =~= project_item_spec(
                table.entries@[i as int].0@,
                table.entries@[i as int].1@,
                *config,
                pos,
            ));
        }
        items.push(item);
        i = i + 1;
    }
    proof {
        lemma_map_of_len(table.entries@);
        assert forall|i: int|
            0 <= i < items@.len() implies table@.contains_key(#[trigger] items@[i]@.label)
            && items@[i]@ == project_item_spec(
            items@[i]@.label,
            table@[items@[i]@.label],
            *config,
            pos,
        ) by {
            assert(items@[i]@.label == table.entries@[i].0@);
            lemma_ins_found(Map::empty(), table.entries@, i);
        }
        assert forall|i: int, j: int|
            0 <= i < j < items@.len() implies items@[i]@.label != items@[j]@.label by {
            assert(items@[i]@.label == table.entries@[i].0@);
            assert(items@[j]@.label == table.entries@[j].0@);
        }
        assert forall|k: Seq<char>| #[trigger] table@.contains_key(k) implies exists|i: int|
            0 <= i < items@.len() && items@[i]@.label == k by {
            if exists|i: int| 0 <= i < table.entries@.len() && table.entries@[i].0@ == k {
                let i = choose|i: int|
                    0 <= i < table.entries@.len() && table.entries@[i].0@ == k;
                assert(items@[i]@.label == k);
            } else {
                lemma_ins_untouched(Map::empty(), table.entries@, k);
                assert(false);
            }
        }
    }
    items
}

/// The insertion text respects `eval_on_confirm`: the entry's value when it
/// is set, the variable's name when it is not.
pub proof fn lemma_insert_text_respects_eval(
    name: Seq<char>,
    e: EntryView,
    config: Config,
    pos: Position,
)
    ensures
        project_item_spec(name, e, config, pos).insert_text == if config.eval_on_confirm {
            e.value
        } else {
            name
        },
{
}

/// With documentation switched off, no projected item carries a
/// documentation field, whatever the entry stores.
pub proof fn lemma_docs_suppressed(name: Seq<char>, e: EntryView, config: Config, pos: Position)
    requires
        !config.show_documentation,
    ensures
        project_item_spec(name, e, config, pos).documentation is None,
{
}

} // verus!

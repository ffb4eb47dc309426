//! The variable table: a key-unique mapping from variable names to resolved
//! entries (value plus optional documentation). Its mathematical view is a
//! `Map<Seq<char>, EntryView>`; within one table every name occurs once, and
//! on duplicate insertion the later entry wins.
use crate::strutil::str_eq;
use vstd::prelude::*;

verus! {

/// Mathematical view of one resolved variable: its raw value and, where a
/// comment block preceded the definition, its documentation text.
#[verifier::ext_equal]
pub ghost struct EntryView {
    pub value: Seq<char>,
    pub docs: Option<Seq<char>>,
}

/// One resolved environment variable: the textual right-hand side after
/// comment stripping and trimming, and the newline-joined comment block
/// immediately preceding the definition, if any.
#[derive(Debug, PartialEq)]
pub struct VariableEntry {
    pub value: String,
    pub docs: Option<String>,
}

impl View for VariableEntry {
    type V = EntryView;

    open spec fn view(&self) -> EntryView {
        EntryView {
            value: self.value@,
            docs: match self.docs {
                Some(d) => Some(d@),
                None => None,
            },
        }
    }
}

/// `entries` folded into a map, later entries overwriting earlier ones.
pub open spec fn ins_entries(
    acc: Map<Seq<char>, EntryView>,
    s: Seq<(String, VariableEntry)>,
) -> Map<Seq<char>, EntryView>
    decreases s.len(),
{
    if s.len() == 0 {
        acc
    } else {
        ins_entries(acc, s.drop_last()).insert(s.last().0@, s.last().1@)
    }
}

/// The map that a sequence of name/entry pairs denotes, last write winning.
pub open spec fn map_of(s: Seq<(String, VariableEntry)>) -> Map<Seq<char>, EntryView> {
    ins_entries(Map::empty(), s)
}

/// No pair of `s` carries the name `k`: the fold leaves `k` as `acc` has it.
pub proof fn lemma_ins_untouched(
    acc: Map<Seq<char>, EntryView>,
    s: Seq<(String, VariableEntry)>,
    k: Seq<char>,
)
    requires
        forall|i: int| 0 <= i < s.len() ==> s[i].0@ != k,
    ensures
        ins_entries(acc, s).contains_key(k) == acc.contains_key(k),
        acc.contains_key(k) ==> ins_entries(acc, s)[k] == acc[k],
    decreases s.len(),
{
    if s.len() > 0 {
        assert(forall|i: int| 0 <= i < s.drop_last().len() ==> s.drop_last()[i].0@ != k);
        lemma_ins_untouched(acc, s.drop_last(), k);
    }
}

/// The pair at `j` is the last one with its name: the fold maps that name to
/// that pair's entry.
pub proof fn lemma_ins_found(
    acc: Map<Seq<char>, EntryView>,
    s: Seq<(String, VariableEntry)>,
    j: int,
)
    requires
        0 <= j < s.len(),
        forall|i: int| j < i < s.len() ==> s[i].0@ != s[j].0@,
    ensures
        ins_entries(acc, s).contains_key(s[j].0@),
        ins_entries(acc, s)[s[j].0@] == s[j].1@,
    decreases s.len(),
{
    if j < s.len() - 1 {
        assert(s.drop_last()[j] == s[j]);
        assert(forall|i: int|
            j < i < s.drop_last().len() ==> s.drop_last()[i].0@ != s.drop_last()[j].0@);
        lemma_ins_found(acc, s.drop_last(), j);
        assert(s.last().0@ != s[j].0@);
    }
}

/// Folding `s` over `acc` is the union of `acc` with the map of `s`, the
/// entries of `s` taking precedence.
pub proof fn lemma_ins_union(acc: Map<Seq<char>, EntryView>, s: Seq<(String, VariableEntry)>)
    ensures
        ins_entries(acc, s) == acc.union_prefer_right(map_of(s)),
    decreases s.len(),
{
    if s.len() == 0 {
        assert(ins_entries(acc, s) =~= acc.union_prefer_right(map_of(s)));
    } else {
        lemma_ins_union(acc, s.drop_last());
        assert(ins_entries(acc, s) =~= acc.union_prefer_right(map_of(s)));
    }
}

/// Under key uniqueness, the map of `s` has exactly one key per pair.
pub proof fn lemma_map_of_len(s: Seq<(String, VariableEntry)>)
    requires
        forall|i: int, j: int| 0 <= i < j < s.len() ==> s[i].0@ != s[j].0@,
    ensures
        map_of(s).dom().finite(),
        map_of(s).dom().len() == s.len(),
    decreases s.len(),
{
    broadcast use vstd::set::group_set_axioms;

    if s.len() > 0 {
        assert(forall|i: int, j: int|
            0 <= i < j < s.drop_last().len() ==> s.drop_last()[i].0@ != s.drop_last()[j].0@);
        lemma_map_of_len(s.drop_last());
        assert(forall|i: int| 0 <= i < s.drop_last().len() ==> s.drop_last()[i].0@ != s.last().0@);
        lemma_ins_untouched(Map::empty(), s.drop_last(), s.last().0@);
        assert(map_of(s).dom() =~= map_of(s.drop_last()).dom().insert(s.last().0@));
    }
}

/// Removing the pair at `j` removes exactly its name from the map, provided
/// names are unique.
pub proof fn lemma_map_of_remove(s: Seq<(String, VariableEntry)>, j: int)
    requires
        0 <= j < s.len(),
        forall|i: int, i2: int| 0 <= i < i2 < s.len() ==> s[i].0@ != s[i2].0@,
    ensures
        map_of(s.remove(j)) == map_of(s).remove(s[j].0@),
    decreases s.len(),
{
    let k = s[j].0@;
    if j == s.len() - 1 {
        assert(s.remove(j) =~= s.drop_last());
        assert(forall|i: int| 0 <= i < s.drop_last().len() ==> s.drop_last()[i].0@ != k);
        lemma_ins_untouched(Map::empty(), s.drop_last(), k);
        assert(map_of(s.drop_last()) =~= map_of(s).remove(k));
    } else {
        assert(s.remove(j).drop_last() =~= s.drop_last().remove(j));
        assert(s.remove(j).last() == s.last());
        assert(forall|i: int, i2: int|
            0 <= i < i2 < s.drop_last().len() ==> s.drop_last()[i].0@ != s.drop_last()[i2].0@);
        assert(s.drop_last()[j] == s[j]);
        lemma_map_of_remove(s.drop_last(), j);
        assert(s.last().0@ != k);
        assert(map_of(s.remove(j)) =~= map_of(s).remove(k));
    }
}

/// The resolved variable table: a pure lookup table from variable name to
/// entry, with no meaningful order. A resolution pass builds a complete new
/// table and the caller replaces the old one wholesale, so a reader only
/// ever sees the outcome of one finished merge.
#[derive(Debug, PartialEq)]
pub struct VariableTable {
    pub entries: Vec<(String, VariableEntry)>,
}

impl View for VariableTable {
    type V = Map<Seq<char>, EntryView>;

    open spec fn view(&self) -> Map<Seq<char>, EntryView> {
        map_of(self.entries@)
    }
}

impl VariableTable {
    /// Every variable name occurs at most once among the entries.
    pub open spec fn wf(&self) -> bool {
        forall|i: int, j: int|
            0 <= i < j < self.entries@.len() ==> self.entries@[i].0@ != self.entries@[j].0@
    }

    /// The empty table.
    pub fn new() -> (t: VariableTable)
        ensures
            t.wf(),
            t@ == Map::<Seq<char>, EntryView>::empty(),
            t.entries@.len() == 0,
    {
        VariableTable { entries: Vec::new() }
    }

    /// How many variables the table holds.
    pub fn len(&self) -> (n: usize)
        requires
            self.wf(),
        ensures
            n == self.entries@.len(),
            self@.dom().finite(),
            n == self@.dom().len(),
    {
        proof {
            lemma_map_of_len(self.entries@);
        }
        self.entries.len()
    }

    /// Look a variable up by name.
    pub fn get(&self, name: &str) -> (r: Option<&VariableEntry>)
        requires
            self.wf(),
        ensures
            match r {
                Some(e) => self@.contains_key(name@) && e@ == self@[name@],
                None => !self@.contains_key(name@),
            },
    {
        let n = self.entries.len();
        let mut j: usize = 0;
        while j < n
            invariant
                self.wf(),
                n == self.entries@.len(),
                j <= n,
                forall|m: int| 0 <= m < j ==> self.entries@[m].0@ != name@,
            decreases n - j,
        {
            if str_eq(self.entries[j].0.as_str(), name) {
                proof {
                    lemma_ins_found(Map::empty(), self.entries@, j as int);
                }
                return Some(&self.entries[j].1);
            }
            j = j + 1;
        }
        proof {
            lemma_ins_untouched(Map::empty(), self.entries@, name@);
        }
        None
    }

    /// Insert a variable, overwriting the entry of an existing one.
    pub fn insert(&mut self, name: String, entry: VariableEntry)
        requires
            old(self).wf(),
        ensures
            final(self).wf(),
            final(self)@ == old(self)@.insert(name@, entry@),
    {
        let ghost s0 = self.entries@;
        let n = self.entries.len();
        let mut j: usize = 0;
        while j < n
            invariant
                self.entries@ == s0,
                old(self).entries@ == s0,
                self.wf(),
                n == s0.len(),
                j <= n,
                forall|m: int| 0 <= m < j ==> s0[m].0@ != name@,
            decreases n - j,
        {
            if str_eq(self.entries[j].0.as_str(), name.as_str()) {
                proof {
                    lemma_map_of_remove(s0, j as int);
                }
                let _ = self.entries.remove(j);
                self.entries.push((name, entry));
                proof {
                    let s1 = s0.remove(j as int);
                    let k = s0[j as int].0@;
                    assert(self.entries@.drop_last() =~= s1);
                    assert(self.entries@.last().0@ == name@);
                    assert(self.entries@.last().1@ == entry@);
                    assert(map_of(self.entries@) == ins_entries(Map::empty(), s1).insert(
                        name@,
                        entry@,
                    ));
                    assert(map_of(self.entries@) == map_of(s0).remove(k).insert(name@, entry@));
                    assert(map_of(s0).remove(k).insert(name@, entry@) =~= map_of(s0).insert(
                        name@,
                        entry@,
                    ));
                    assert forall|i: int, i2: int|
                        0 <= i < i2 < self.entries@.len() implies self.entries@[i].0@
                        != self.entries@[i2].0@ by {
                        if i2 < self.entries@.len() - 1 {
                            assert(self.entries@[i] == s1[i]);
                            assert(self.entries@[i2] == s1[i2]);
                        } else {
                            assert(self.entries@[i] == s1[i]);
                        }
                    }
                }
                return ;
            }
            j = j + 1;
        }
        self.entries.push((name, entry));
        proof {
            assert(self.entries@.drop_last() =~= s0);
            assert(map_of(self.entries@) =~= old(self)@.insert(name@, entry@));
        }
    }

    /// Decide well-formedness at run time: whether every name is unique.
    /// Tables built by this library are always well-formed; an unverified
    /// caller can test one it obtained elsewhere before reading it.
    pub fn check_wf(&self) -> (r: bool)
        ensures
            r == self.wf(),
    {
        let n = self.entries.len();
        let mut i: usize = 0;
        while i < n
            invariant
                n == self.entries@.len(),
                i <= n,
                forall|p: int, q: int|
                    0 <= p < q < n && p < i ==> self.entries@[p].0@ != self.entries@[q].0@,
            decreases n - i,
        {
            let mut j: usize = i + 1;
            while j < n
                invariant
                    n == self.entries@.len(),
                    i < j <= n,
                    forall|q: int| i < q < j ==> self.entries@[i as int].0@ != self.entries@[q].0@,
                decreases n - j,
            {
                if str_eq(self.entries[i].0.as_str(), self.entries[j].0.as_str()) {
                    return false;
                }
                j = j + 1;
            }
            i = i + 1;
        }
        true
    }

    /// Fold every entry of `other` into this table, `other` taking
    /// precedence on names both hold.
    pub fn merge_from(&mut self, other: &VariableTable)
        requires
            old(self).wf(),
        ensures
            final(self).wf(),
            final(self)@ == old(self)@.union_prefer_right(other@),
    {
        let n = other.entries.len();
        let mut i: usize = 0;
        while i < n
            invariant
                self.wf(),
                n == other.entries@.len(),
                i <= n,
                self@ == ins_entries(old(self)@, other.entries@.take(i as int)),
            decreases n - i,
        {
            let name = other.entries[i].0.clone();
            let value = other.entries[i].1.value.clone();
            let docs = match &other.entries[i].1.docs {
                Some(d) => Some(d.clone()),
                None => None,
            };
            let entry = VariableEntry { value, docs };
            proof {
                assert(entry@ =~= other.entries@[i as int].1@);
            }
            self.insert(name, entry);
            proof {
                assert(other.entries@.take(i + 1).drop_last() =~= other.entries@.take(i as int));
                assert(other.entries@.take(i + 1).last() == other.entries@[i as int]);
            }
            i = i + 1;
        }
        proof {
            assert(other.entries@.take(n as int) =~= other.entries@);
            lemma_ins_union(old(self)@, other.entries@);
        }
    }
}

} // verus!

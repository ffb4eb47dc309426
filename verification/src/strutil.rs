//! Character-level helpers for the dotenv parser: ASCII-blank trimming,
//! first-occurrence search, and string equality, each with an exact
//! mathematical description.
use vstd::prelude::*;

verus! {

/// The whitespace characters that trimming removes from keys, values and
/// documentation text: the ASCII blanks that occur in dotenv lines.
pub open spec fn is_space(c: char) -> bool {
    c == ' ' || c == '\t' || c == '\r'
}

/// `l` without its leading whitespace.
pub open spec fn trim_front(l: Seq<char>) -> Seq<char>
    decreases l.len(),
{
    if l.len() > 0 && is_space(l[0]) {
        trim_front(l.drop_first())
    } else {
        l
    }
}

/// `l` without its trailing whitespace.
pub open spec fn trim_back(l: Seq<char>) -> Seq<char>
    decreases l.len(),
{
    if l.len() > 0 && is_space(l.last()) {
        trim_back(l.drop_last())
    } else {
        l
    }
}

/// `l` without leading and trailing whitespace.
pub open spec fn trim(l: Seq<char>) -> Seq<char> {
    trim_back(trim_front(l))
}

/// Index of the first occurrence of `c` in `l`, or `l.len()` if `c` does not
/// occur.
pub open spec fn first_idx(l: Seq<char>, c: char) -> int
    decreases l.len(),
{
    if l.len() == 0 {
        0
    } else if l[0] == c {
        0
    } else {
        1 + first_idx(l.drop_first(), c)
    }
}

/// What `first_idx` returns: an in-range position, holding `c` unless it is
/// `l.len()`, with no occurrence of `c` before it.
pub proof fn lemma_first_idx_props(l: Seq<char>, c: char)
    ensures
        0 <= first_idx(l, c) <= l.len(),
        first_idx(l, c) < l.len() ==> l[first_idx(l, c)] == c,
        forall|m: int| 0 <= m < first_idx(l, c) ==> l[m] != c,
    decreases l.len(),
{
    if l.len() > 0 && l[0] != c {
        lemma_first_idx_props(l.drop_first(), c);
        assert forall|m: int| 0 <= m < first_idx(l, c) implies l[m] != c by {
            if m > 0 {
                assert(l.drop_first()[m - 1] == l[m]);
            }
        }
    }
}

/// A position that holds `c` with no occurrence of `c` before it is
/// `first_idx`; so is `l.len()` when `c` does not occur at all.
pub proof fn lemma_first_idx_is(l: Seq<char>, c: char, j: int)
    requires
        0 <= j <= l.len(),
        j < l.len() ==> l[j] == c,
        forall|m: int| 0 <= m < j ==> l[m] != c,
    ensures
        first_idx(l, c) == j,
{
    lemma_first_idx_props(l, c);
    let f = first_idx(l, c);
    if f < j {
        assert(l[f] == c);
    } else if j < f {
        assert(l[j] == c);
    }
}

/// Index of the first occurrence of `c` in `s` at or after `lo` and before
/// `hi`, or `hi` if there is none.
pub fn find_char_in(s: &str, lo: usize, hi: usize, c: char) -> (r: usize)
    requires
        lo <= hi <= s@.len(),
    ensures
        lo <= r <= hi,
        r < hi ==> s@[r as int] == c,
        forall|m: int| lo <= m < r ==> s@[m] != c,
{
    let mut k = lo;
    while k < hi
        invariant
            lo <= k <= hi <= s@.len(),
            forall|m: int| lo <= m < k ==> s@[m] != c,
        decreases hi - k,
    {
        if s.get_char(k) == c {
            return k;
        }
        k = k + 1;
    }
    k
}

/// The bounds of `trim(s@[lo..hi])` inside `s`: trimming a slice of the
/// input yields another slice of the input.
pub fn trim_bounds(s: &str, lo: usize, hi: usize) -> (r: (usize, usize))
    requires
        lo <= hi <= s@.len(),
    ensures
        lo <= r.0 <= r.1 <= hi,
        s@.subrange(r.0 as int, r.1 as int) == trim(s@.subrange(lo as int, hi as int)),
{
    let ghost whole = s@.subrange(lo as int, hi as int);
    let mut a = lo;
    while a < hi && char_is_space_at(s, a)
        invariant
            lo <= a <= hi <= s@.len(),
            trim_front(s@.subrange(a as int, hi as int)) == trim_front(whole),
            whole == s@.subrange(lo as int, hi as int),
        decreases hi - a,
    {
        proof {
            assert(s@.subrange(a as int, hi as int).drop_first() =~= s@.subrange(
                a + 1,
                hi as int,
            ));
        }
        a = a + 1;
    }
    proof {
        assert(trim_front(s@.subrange(a as int, hi as int)) == s@.subrange(a as int, hi as int));
    }
    let mut b = hi;
    while b > a && char_is_space_at(s, b - 1)
        invariant
            lo <= a <= b <= hi <= s@.len(),
            trim_back(s@.subrange(a as int, b as int)) == trim_back(
                s@.subrange(a as int, hi as int),
            ),
        decreases b - a,
    {
        proof {
            assert(s@.subrange(a as int, b as int).drop_last() =~= s@.subrange(
                a as int,
                b - 1,
            ));
        }
        b = b - 1;
    }
    proof {
        assert(trim_back(s@.subrange(a as int, b as int)) == s@.subrange(a as int, b as int));
    }
    (a, b)
}

/// Whether the character of `s` at position `i` is trimmable whitespace.
fn char_is_space_at(s: &str, i: usize) -> (r: bool)
    requires
        i < s@.len(),
    ensures
        r == is_space(s@[i as int]),
{
    let c = s.get_char(i);
    c == ' ' || c == '\t' || c == '\r'
}

/// Character-by-character string equality, stated over the views.
pub fn str_eq(a: &str, b: &str) -> (r: bool)
    ensures
        r == (a@ == b@),
{
    let na = a.unicode_len();
    let nb = b.unicode_len();
    if na != nb {
        return false;
    }
    let mut i: usize = 0;
    while i < na
        invariant
            na == a@.len(),
            na == b@.len(),
            i <= na,
            forall|m: int| 0 <= m < i ==> a@[m] == b@[m],
        decreases na - i,
    {
        if a.get_char(i) != b.get_char(i) {
            return false;
        }
        i = i + 1;
    }
    proof {
        assert(a@ =~= b@);
    }
    true
}

} // verus!

//! The line format shared by the language tables of all compilers: one
//! entry per line; surrounding whitespace is ignored, and blank lines and
//! lines that begin with `#` are skipped.

use vstd::prelude::*;
use vstd::hash_set::StringHashSet;
use crate::text::{
    chars_of, lines, line_ranges, pieces, push_char, ranges_within, string_from, sub_vec, trim,
    trim_vec,
};

verus! {

/// A trimmed line that holds an entry: it is not blank and not a comment.
pub open spec fn is_entry(t: Seq<char>) -> bool {
    t.len() > 0 && t[0] != '#'
}

/// The lines of a table file.
pub open spec fn table_lines(s: Seq<char>) -> Seq<Seq<char>> {
    lines(s)
}

/// The lines of a table, each as it stands in the file and trimmed.
pub struct TableLines {
    pub raw: Vec<Vec<char>>,
    pub trimmed: Vec<Vec<char>>,
}

impl TableLines {
    /// Every line is held as it stands and trimmed, and they are the lines of `s`.
    pub open spec fn holds(&self, s: Seq<char>) -> bool {
        &&& self.raw@.len() == lines(s).len()
        &&& self.trimmed@.len() == lines(s).len()
        &&& forall|k: int| 0 <= k < lines(s).len() ==> #[trigger] self.raw@[k]@ == lines(s)[k]
        &&& forall|k: int|
            0 <= k < lines(s).len() ==> #[trigger] self.trimmed@[k]@ == trim(lines(s)[k])
    }
}

/// Splits a table file into lines (see `TableLines::holds`).
pub fn read_table_lines(v: &Vec<char>) -> (t: TableLines)
    ensures
        t.holds(v@),
{
    let lr = line_ranges(v);
    let mut raw: Vec<Vec<char>> = Vec::new();
    let mut trimmed: Vec<Vec<char>> = Vec::new();
    let mut k: usize = 0;
    while k < lr.len()
        invariant
            k <= lr@.len(),
            ranges_within(v@, lr@),
            pieces(v@, lr@) == lines(v@),
            raw@.len() == k,
            trimmed@.len() == k,
            forall|j: int| 0 <= j < k ==> #[trigger] raw@[j]@ == lines(v@)[j],
            forall|j: int| 0 <= j < k ==> #[trigger] trimmed@[j]@ == trim(lines(v@)[j]),
        decreases lr@.len() - k,
    {
        let (lo, hi) = lr[k];
        assert(lr@[k as int].0 <= lr@[k as int].1 <= v@.len());
        assert(pieces(v@, lr@)[k as int] == v@.subrange(lo as int, hi as int));
        let line = sub_vec(v, lo, hi);
        let t = trim_vec(&line);
        raw.push(line);
        trimmed.push(t);
        k = k + 1;
    }
    TableLines { raw, trimmed }
}

/// Whether a trimmed line holds an entry (see `is_entry`).
pub fn is_entry_exec(t: &Vec<char>) -> (b: bool)
    ensures
        b == is_entry(t@),
{
    t.len() > 0 && t[0] != '#'
}

/// Appends the characters of `v` to `s`.
pub fn append_chars(s: &mut String, v: &Vec<char>)
    ensures
        final(s)@ == old(s)@ + v@,
{
    let mut i: usize = 0;
    while i < v.len()
        invariant
            i <= v@.len(),
            s@ == old(s)@ + v@.subrange(0, i as int),
        decreases v@.len() - i,
    {
        push_char(s, v[i]);
        i = i + 1;
        assert(s@ =~= old(s)@ + v@.subrange(0, i as int));
    }
    assert(v@.subrange(0, v@.len() as int) =~= v@);
}

/// The entries of the lines `ls`: each trimmed line that is not blank and
/// not a comment.
pub open spec fn entry_set(ls: Seq<Seq<char>>) -> Set<Seq<char>> {
    Set::new(|x: Seq<char>| exists|i: int| 0 <= i < ls.len() && is_entry(trim(ls[i])) && #[trigger] trim(ls[i]) == x)
}

/// The set of entries of a one-entry-per-line table.
pub open spec fn table_entries(s: Seq<char>) -> Set<Seq<char>> {
    entry_set(table_lines(s))
}

/// Every entry of a table is trimmed and is neither blank nor a comment.
pub proof fn lemma_entries_are_clean(s: Seq<char>, x: Seq<char>)
    requires
        table_entries(s).contains(x),
    ensures
        trim(x) == x,
        is_entry(x),
{
    let ls = table_lines(s);
    let i = choose|i: int| 0 <= i < ls.len() && is_entry(trim(ls[i])) && #[trigger] trim(ls[i]) == x;
    crate::text::lemma_trim_idempotent(ls[i]);
}

/// Reads a one-entry-per-line table into a set (see `table_entries`).
pub fn read_entry_set(content: &str) -> (r: StringHashSet)
    ensures
        r@ == table_entries(content@),
{
    let v = chars_of(content);
    let tl = read_table_lines(&v);
    let ghost ls = table_lines(v@);
    let mut set = StringHashSet::new();
    let mut k: usize = 0;
    assert(set@ =~= entry_set(ls.take(0)));
    while k < tl.trimmed.len()
        invariant
            tl.holds(v@),
            ls == table_lines(v@),
            k <= ls.len(),
            set@ == entry_set(ls.take(k as int)),
        decreases ls.len() - k,
    {
        let t = &tl.trimmed[k];
        assert(t@ == trim(ls[k as int]));
        let ghost before = set@;
        let ghost pre = ls.take(k as int);
        let ghost next = ls.take(k + 1);
        assert forall|j: int| 0 <= j < k implies #[trigger] next[j] == pre[j] by {}
        assert(next[k as int] == ls[k as int]);
        if is_entry_exec(t) {
            set.insert(string_from(t));
            assert forall|x: Seq<char>| #[trigger] entry_set(next).contains(x) == before.insert(t@).contains(x) by {
                if entry_set(next).contains(x) {
                    let i = choose|i: int| 0 <= i < next.len() && is_entry(trim(next[i])) && #[trigger] trim(next[i]) == x;
                    if i < k {
                        assert(is_entry(trim(pre[i])) && trim(pre[i]) == x);
                    }
                }
                if before.contains(x) {
                    let i = choose|i: int| 0 <= i < pre.len() && is_entry(trim(pre[i])) && #[trigger] trim(pre[i]) == x;
                    assert(is_entry(trim(next[i])) && trim(next[i]) == x);
                }
                if x == t@ {
                    assert(is_entry(trim(next[k as int])) && trim(next[k as int]) == x);
                }
            }
            assert(set@ =~= entry_set(next));
        } else {
            assert forall|x: Seq<char>| #[trigger] entry_set(next).contains(x) == before.contains(x) by {
                if entry_set(next).contains(x) {
                    let i = choose|i: int| 0 <= i < next.len() && is_entry(trim(next[i])) && #[trigger] trim(next[i]) == x;
                    if i < k {
                        assert(is_entry(trim(pre[i])) && trim(pre[i]) == x);
                    }
                }
                if before.contains(x) {
                    let i = choose|i: int| 0 <= i < pre.len() && is_entry(trim(pre[i])) && #[trigger] trim(pre[i]) == x;
                    assert(is_entry(trim(next[i])) && trim(next[i]) == x);
                }
            }
            assert(set@ =~= entry_set(next));
        }
        k = k + 1;
    }
    assert(ls.take(k as int) =~= ls);
    set
}

} // verus!

//! `list_dir`: lists the entries of a directory.
use vstd::prelude::*;

use crate::text::{
    compare_text, lemma_text_lt_asymmetric, lemma_text_lt_irreflexive, lemma_text_lt_total,
    lemma_text_lt_transitive, owned, push_str, text_lt, TextOrder,
};

verus! {

broadcast use vstd::seq_lib::group_to_multiset_ensures;

/// The tool's description.
pub const DESCRIPTION: &'static str = "List files and subdirectories in a directory. Each entry is prefixed with [dir] for directories. Sorted alphabetically.";

/// Typed arguments for `list_dir`.
#[derive(Debug, Clone)]
pub struct ListDirArgs {
    /// Directory to list; the current directory by default.
    pub path: Option<String>,
}

/// The `list_dir` tool.
#[derive(Debug, Clone, Copy)]
pub struct ListDirTool;

impl ListDirTool {
    /// The tool's name.
    pub fn name(&self) -> (r: &'static str)
        ensures
            r@ == "list_dir"@,
    {
        "list_dir"
    }

    /// The tool's description.
    pub fn description(&self) -> (r: &'static str)
        ensures
            r@ == DESCRIPTION@,
    {
        DESCRIPTION
    }
}

impl ListDirArgs {
    /// The directory to list: the one given, or `.`.
    pub fn dir(&self) -> (r: &str)
        ensures
            r@ == match self.path {
                Some(p) => p@,
                None => "."@,
            },
    {
        match &self.path {
            Some(p) => p.as_str(),
            None => ".",
        }
    }
}

/// The line for one directory entry: `[dir] ` before a directory's name,
/// six spaces before any other name.
pub open spec fn entry_line(name: Seq<char>, is_dir: bool) -> Seq<char> {
    (if is_dir {
        "[dir] "@
    } else {
        "      "@
    }) + name
}

/// Entries (name, is-directory) by their views.
pub open spec fn entry_views(entries: Seq<(String, bool)>) -> Seq<(Seq<char>, bool)> {
    entries.map_values(|e: (String, bool)| (e.0@, e.1))
}

/// The order of listed entries: alphabetical by name (character code
/// order); an entry that is not a directory comes first between two of the
/// same name.
pub open spec fn entry_le(a: (Seq<char>, bool), b: (Seq<char>, bool)) -> bool {
    text_lt(a.0, b.0) || (a.0 == b.0 && (!a.1 || b.1))
}

/// The order of listed entries, as a relation.
pub open spec fn entry_order() -> spec_fn((Seq<char>, bool), (Seq<char>, bool)) -> bool {
    |a: (Seq<char>, bool), b: (Seq<char>, bool)| entry_le(a, b)
}

/// The order of listed entries is a total order.
pub proof fn lemma_entry_order_total()
    ensures
        vstd::relations::total_ordering(entry_order()),
{
    let r = entry_order();
    assert forall|a: (Seq<char>, bool)| #[trigger] r(a, a) by {}
    assert forall|a: (Seq<char>, bool), b: (Seq<char>, bool)| #[trigger] r(a, b) && #[trigger] r(
        b,
        a,
    ) implies a == b by {
        lemma_text_lt_irreflexive(a.0);
        if text_lt(a.0, b.0) {
            lemma_text_lt_asymmetric(a.0, b.0);
        }
    }
    assert forall|a: (Seq<char>, bool), b: (Seq<char>, bool), c: (Seq<char>, bool)| #[trigger] r(
        a,
        b,
    ) && #[trigger] r(b, c) implies r(a, c) by {
        if text_lt(a.0, b.0) && text_lt(b.0, c.0) {
            lemma_text_lt_transitive(a.0, b.0, c.0);
        }
    }
    assert forall|a: (Seq<char>, bool), b: (Seq<char>, bool)| #[trigger] r(a, b) || #[trigger] r(
        b,
        a,
    ) by {
        lemma_text_lt_total(a.0, b.0);
    }
    assert(vstd::relations::reflexive(r));
    assert(vstd::relations::antisymmetric(r));
    assert(vstd::relations::transitive(r));
    assert(vstd::relations::strongly_connected(r));
}

/// The lines of entries (name, is-directory), in the given order.
pub open spec fn entry_lines(entries: Seq<(Seq<char>, bool)>) -> Seq<Seq<char>> {
    entries.map_values(|e: (Seq<char>, bool)| entry_line(e.0, e.1))
}

/// Lines joined with newlines.
pub open spec fn join_lines(lines: Seq<Seq<char>>) -> Seq<char>
    decreases lines.len(),
{
    if lines.len() == 0 {
        seq![]
    } else if lines.len() == 1 {
        lines[0]
    } else {
        join_lines(lines.drop_last()) + "\n"@ + lines.last()
    }
}

/// The listing of a directory with the given entries: the entries sorted
/// alphabetically by name, one line each (`[dir] ` before a directory's
/// name, six spaces before any other name), or `(empty directory)`.
pub open spec fn listing_text(entries: Seq<(String, bool)>) -> Seq<char> {
    let sorted = entry_views(entries).sort_by(entry_order());
    if sorted.len() == 0 {
        "(empty directory)"@
    } else {
        join_lines(entry_lines(sorted))
    }
}

/// The line for one directory entry.
fn make_line(name: &str, is_dir: bool) -> (r: String)
    ensures
        r@ == entry_line(name@, is_dir),
{
    let mut r = if is_dir {
        owned("[dir] ")
    } else {
        owned("      ")
    };
    push_str(&mut r, name);
    r
}

/// Whether the entry `a` comes strictly before the entry `b`.
fn entry_before(a: &(String, bool), b: &(String, bool)) -> (r: bool)
    ensures
        r == !entry_le((b.0@, b.1), (a.0@, a.1)),
{
    match compare_text(a.0.as_str(), b.0.as_str()) {
        TextOrder::Less => {
            proof {
                lemma_text_lt_asymmetric(a.0@, b.0@);
                lemma_text_lt_irreflexive(a.0@);
            }
            true
        },
        TextOrder::Greater => false,
        TextOrder::Equal => {
            proof {
                lemma_text_lt_irreflexive(a.0@);
            }
            !a.1 && b.1
        },
    }
}

/// Renders a directory listing from its entries (name, is-directory).
pub fn format_listing(entries: &Vec<(String, bool)>) -> (r: String)
    ensures
        r@ == listing_text(entries@),
{
    let ghost views = entry_views(entries@);
    let ghost le = entry_order();
    proof {
        lemma_entry_order_total();
    }
    let mut sorted: Vec<(String, bool)> = Vec::new();
    let mut k: usize = 0;
    while k < entries.len()
        invariant
            k <= entries@.len(),
            views == entry_views(entries@),
            le == entry_order(),
            vstd::relations::total_ordering(le),
            entry_views(sorted@).to_multiset() == views.take(k as int).to_multiset(),
            vstd::relations::sorted_by(entry_views(sorted@), le),
        decreases entries@.len() - k,
    {
        let e = &entries[k];
        // The first position holding an entry that comes strictly after.
        let mut p: usize = 0;
        while p < sorted.len() && !entry_before(e, &sorted[p])
            invariant
                p <= sorted@.len(),
                forall|j: int| 0 <= j < p ==> entry_le(
                    #[trigger] entry_views(sorted@)[j],
                    (e.0@, e.1),
                ),
            decreases sorted@.len() - p,
        {
            assert(entry_views(sorted@)[p as int] == (sorted@[p as int].0@, sorted@[p as int].1));
            p = p + 1;
        }
        let item = (e.0.clone(), e.1);
        let ghost x = (e.0@, e.1);
        let ghost before = entry_views(sorted@);
        proof {
            assert(views[k as int] == x);
        }
        sorted.insert(p, item);
        proof {
            let after = entry_views(sorted@);
            assert(after =~= before.insert(p as int, x));
            assert(views.take(k + 1) =~= views.take(k as int).push(x));
            assert(after.to_multiset() == before.to_multiset().insert(x));
            assert forall|i: int, j: int| 0 <= i < j < after.len() implies #[trigger] le(
                after[i],
                after[j],
            ) by {
                if j < p {
                    assert(le(before[i], before[j]));
                } else if i < p && j == p {
                    assert(entry_le(before[i], x));
                } else if i < p && j > p {
                    assert(le(before[i], before[j - 1]));
                } else if i == p && j > p {
                    assert(!entry_le(before[p as int], x));
                    assert(!le(before[p as int], x));
                    assert(le(x, before[p as int]) || le(before[p as int], x));
                    assert(le(x, before[p as int]));
                    if j - 1 > p {
                        assert(le(before[p as int], before[j - 1]));
                    }
                } else {
                    assert(le(before[i - 1], before[j - 1]));
                }
            }
        }
        k = k + 1;
    }
    proof {
        assert(views.take(entries@.len() as int) =~= views);
        views.lemma_sort_by_ensures(le);
        vstd::seq_lib::lemma_sorted_unique(entry_views(sorted@), views.sort_by(le), le);
    }
    if sorted.len() == 0 {
        return owned("(empty directory)");
    }
    let ghost lines = entry_lines(entry_views(sorted@));
    let mut out = String::new();
    let mut i: usize = 0;
    while i < sorted.len()
        invariant
            i <= sorted@.len(),
            sorted@.len() > 0,
            lines == entry_lines(entry_views(sorted@)),
            out@ == join_lines(lines.take(i as int)),
        decreases sorted@.len() - i,
    {
        assert(lines.take(i + 1).drop_last() =~= lines.take(i as int));
        if i > 0 {
            push_str(&mut out, "\n");
        }
        let line = make_line(sorted[i].0.as_str(), sorted[i].1);
        push_str(&mut out, line.as_str());
        assert(out@ =~= join_lines(lines.take(i + 1)));
        i = i + 1;
    }
    assert(lines.take(lines.len() as int) =~= lines);
    out
}

} // verus!

//! Which entries of a scan are on screen.
//!
//! A scan is kept as one flat list in pre-order: every directory is followed
//! at once by everything below it, one level deeper. An entry is on screen
//! when every directory above it is expanded.

use crate::entry::{EntryView, FileEntry};
use crate::lemmas::{lemma_first_with_path_unique, lemma_path_absent};
use vstd::prelude::*;

verus! {

/// How deep the entry after `e` may lie: one level below a directory, and
/// no deeper than a file.
pub open spec fn deepest_after(e: EntryView) -> nat {
    if e.is_dir {
        e.depth + 1
    } else {
        e.depth
    }
}

/// `m` is laid out as a walk of one tree hands it over: it starts at depth 1,
/// never reaches depth 0, and goes one level down only right after a
/// directory.
pub open spec fn is_preorder(m: Seq<EntryView>) -> bool {
    &&& forall|i: int| 0 <= i < m.len() ==> (#[trigger] m[i]).depth >= 1
    &&& m.len() > 0 ==> m[0].depth == 1
    &&& forall|i: int, j: int|
        0 <= i && j == i + 1 && j < m.len() ==> (#[trigger] m[j]).depth <= deepest_after(
            #[trigger] m[i],
        )
}

/// Entry `j` is a directory that entry `i` lies below: it comes first, and
/// everything from there up to `i` is deeper than it.
pub open spec fn is_ancestor(m: Seq<EntryView>, j: int, i: int) -> bool {
    &&& 0 <= j < i < m.len()
    &&& m[j].is_dir
    &&& forall|k: int| j < k <= i ==> (#[trigger] m[k]).depth > m[j].depth
}

/// Entry `i` is on screen: every directory above it is expanded.
pub open spec fn is_shown(m: Seq<EntryView>, i: int) -> bool {
    forall|j: int| #[trigger] is_ancestor(m, j, i) ==> m[j].is_expanded
}

/// The entries among the first `n` of `m` that are on screen, in order.
pub open spec fn visible_upto(m: Seq<EntryView>, n: int) -> Seq<EntryView>
    decreases n,
{
    if n <= 0 {
        Seq::empty()
    } else if is_shown(m, n - 1) {
        visible_upto(m, n - 1).push(m[n - 1])
    } else {
        visible_upto(m, n - 1)
    }
}

/// The visible list of `m`: its entries that are on screen, in order.
pub open spec fn visible_of(m: Seq<EntryView>) -> Seq<EntryView> {
    visible_upto(m, m.len() as int)
}

/// Entry `i` is the first of `m` that has the path `path`.
pub open spec fn is_first_with_path(m: Seq<EntryView>, path: Seq<char>, i: int) -> bool {
    &&& 0 <= i < m.len()
    &&& m[i].path == path
    &&& forall|j: int| 0 <= j < i ==> (#[trigger] m[j]).path != path
}

/// Where `path` first occurs in `m`, if it occurs at all.
pub open spec fn position_of(m: Seq<EntryView>, path: Seq<char>) -> Option<int> {
    if exists|i: int| is_first_with_path(m, path, i) {
        Some(choose|i: int| is_first_with_path(m, path, i))
    } else {
        None
    }
}

/// The scan after a toggle of `path`: the first entry with that path has its
/// expand flag flipped if it is a directory. A file, or a path that the scan
/// does not hold, changes nothing.
pub open spec fn toggled(m: Seq<EntryView>, path: Seq<char>) -> Seq<EntryView> {
    match position_of(m, path) {
        Some(i) => if m[i].is_dir {
            m.update(i, m[i].with_expanded(!m[i].is_expanded))
        } else {
            m
        },
        None => m,
    }
}

/// Where the cursor goes once the visible list has become `visible`: to the
/// row that still shows `path`, or, if none does, as near to `previous` as the
/// list is long.
pub open spec fn reanchored(visible: Seq<EntryView>, path: Seq<char>, previous: int) -> int {
    match position_of(visible, path) {
        Some(i) => i,
        None => if previous < visible.len() - 1 {
            previous
        } else {
            visible.len() - 1
        },
    }
}

/// The scan with every directory above `level` expanded: those whose depth
/// is less than `level`.
pub open spec fn expanded_to(m: Seq<EntryView>, level: nat) -> Seq<EntryView> {
    Seq::new(
        m.len(),
        |i: int|
            if m[i].is_dir && m[i].depth < level {
                m[i].with_expanded(true)
            } else {
                m[i]
            },
    )
}

/// Two scans that differ in nothing but expand flags.
pub open spec fn same_shape(a: Seq<EntryView>, b: Seq<EntryView>) -> bool {
    &&& a.len() == b.len()
    &&& forall|i: int|
        0 <= i < a.len() ==> (#[trigger] a[i]).with_expanded(b[i].is_expanded) == b[i]
}

/// No two entries of `m` have the same path.
pub open spec fn has_distinct_paths(m: Seq<EntryView>) -> bool {
    forall|i: int, j: int|
        0 <= i < j < m.len() ==> (#[trigger] m[i]).path != (#[trigger] m[j]).path
}

/// The places in `m` of its entries that are on screen, among the first
/// `n`, in order.
pub open spec fn visible_indices_upto(m: Seq<EntryView>, n: int) -> Seq<int>
    decreases n,
{
    if n <= 0 {
        Seq::empty()
    } else if is_shown(m, n - 1) {
        visible_indices_upto(m, n - 1).push(n - 1)
    } else {
        visible_indices_upto(m, n - 1)
    }
}

/// The place in `m` of each row of its visible list.
pub open spec fn visible_indices(m: Seq<EntryView>) -> Seq<int> {
    visible_indices_upto(m, m.len() as int)
}

/// How many directories are open just before entry `n`.
spec fn open_levels(m: Seq<EntryView>, n: int) -> nat {
    if n <= 0 {
        0
    } else {
        (deepest_after(m[n - 1]) - 1) as nat
    }
}

/// Every entry after `j` and before `n` is deeper than `d`.
spec fn deeper_between(m: Seq<EntryView>, j: int, n: int, d: int) -> bool {
    forall|k: int| j < k < n ==> (#[trigger] m[k]).depth > d
}

/// The directories that are open just before entry `n`, outermost first:
/// `open[p]` is the directory at depth `p + 1` that everything after it, up
/// to `n`, lies below, and `flags[p]` is its expand flag.
#[verifier::opaque]
spec fn tracks(m: Seq<EntryView>, n: int, open: Seq<int>, flags: Seq<bool>) -> bool {
    &&& open.len() == flags.len()
    &&& forall|p: int|
        0 <= p < open.len() ==> {
            &&& 0 <= #[trigger] open[p] < n
            &&& m[open[p]].is_dir
            &&& m[open[p]].depth == p + 1
            &&& flags[p] == m[open[p]].is_expanded
            &&& deeper_between(m, open[p], n, p + 1)
        }
}

/// What the walk knows before it looks at entry `n`: which directories are
/// open, and that there are as many as the entry before `n` left open.
#[verifier::opaque]
spec fn walk_at(m: Seq<EntryView>, n: int, open: Seq<int>, flags: Seq<bool>) -> bool {
    &&& is_preorder(m)
    &&& 0 <= n <= m.len()
    &&& tracks(m, n, open, flags)
    &&& flags.len() == open_levels(m, n)
}

/// What the walk knows while it cuts the open directories back to those
/// above entry `i`.
#[verifier::opaque]
spec fn cut_at(m: Seq<EntryView>, i: int, open: Seq<int>, flags: Seq<bool>) -> bool {
    &&& is_preorder(m)
    &&& 0 <= i < m.len()
    &&& tracks(m, i, open, flags)
    &&& flags.len() + 1 >= m[i].depth
}

proof fn lemma_walk_start(m: Seq<EntryView>)
    requires
        is_preorder(m),
    ensures
        walk_at(m, 0, Seq::empty(), Seq::empty()),
{
    reveal(tracks);
    reveal(walk_at);
}

proof fn lemma_walk_enter(m: Seq<EntryView>, i: int, open: Seq<int>, flags: Seq<bool>)
    requires
        walk_at(m, i, open, flags),
        i < m.len(),
    ensures
        cut_at(m, i, open, flags),
        m[i].depth >= 1,
{
    reveal(walk_at);
    reveal(cut_at);
    if i > 0 {
        assert(m[i].depth <= deepest_after(m[i - 1]));
    }
}

proof fn lemma_walk_pop(m: Seq<EntryView>, i: int, open: Seq<int>, flags: Seq<bool>)
    requires
        cut_at(m, i, open, flags),
        flags.len() >= m[i].depth,
        m[i].depth >= 1,
    ensures
        cut_at(m, i, open.drop_last(), flags.drop_last()),
{
    reveal(cut_at);
    lemma_tracks_pop(m, i, open, flags);
}

proof fn lemma_walk_visit(m: Seq<EntryView>, i: int, open: Seq<int>, flags: Seq<bool>)
    requires
        cut_at(m, i, open, flags),
        flags.len() < m[i].depth,
    ensures
        is_shown(m, i) <==> forall|p: int| 0 <= p < flags.len() ==> flags[p],
        m[i].is_dir ==> walk_at(m, i + 1, open.push(i), flags.push(m[i].is_expanded)),
        !m[i].is_dir ==> walk_at(m, i + 1, open, flags),
        visible_upto(m, i + 1) == if is_shown(m, i) {
            visible_upto(m, i).push(m[i])
        } else {
            visible_upto(m, i)
        },
{
    reveal(cut_at);
    reveal(walk_at);
    lemma_shown_iff_flags(m, i, open, flags);
    lemma_tracks_step(m, i, open, flags);
}

/// Pushing an entry onto a list pushes its view onto the list's view.
proof fn lemma_push_view(before: Seq<FileEntry>, after: Seq<FileEntry>, e: FileEntry)
    requires
        after == before.push(e),
    ensures
        Seq::new(after.len(), |i: int| after[i].deep_view()) == Seq::new(
            before.len(),
            |i: int| before[i].deep_view(),
        ).push(e@),
{
    assert(Seq::new(after.len(), |i: int| after[i].deep_view()) =~= Seq::new(
        before.len(),
        |i: int| before[i].deep_view(),
    ).push(e@));
}

proof fn lemma_tracks_pop(m: Seq<EntryView>, n: int, open: Seq<int>, flags: Seq<bool>)
    requires
        tracks(m, n, open, flags),
        flags.len() > 0,
    ensures
        tracks(m, n, open.drop_last(), flags.drop_last()),
        open.len() == flags.len(),
{
    reveal(tracks);
    let o = open.drop_last();
    assert forall|p: int| 0 <= p < o.len() implies o[p] == open[p] by {}
}

proof fn lemma_tracks_step(m: Seq<EntryView>, i: int, open: Seq<int>, flags: Seq<bool>)
    requires
        is_preorder(m),
        0 <= i < m.len(),
        tracks(m, i, open, flags),
        flags.len() == m[i].depth - 1,
    ensures
        m[i].is_dir ==> tracks(m, i + 1, open.push(i), flags.push(m[i].is_expanded)),
        !m[i].is_dir ==> tracks(m, i + 1, open, flags),
{
    reveal(tracks);
    let o = if m[i].is_dir {
        open.push(i)
    } else {
        open
    };
    let f = if m[i].is_dir {
        flags.push(m[i].is_expanded)
    } else {
        flags
    };
    assert forall|p: int| 0 <= p < o.len() implies {
        &&& 0 <= #[trigger] o[p] < i + 1
        &&& m[o[p]].is_dir
        &&& m[o[p]].depth == p + 1
        &&& f[p] == m[o[p]].is_expanded
        &&& deeper_between(m, o[p], i + 1, p + 1)
    } by {
        if p < open.len() {
            assert(o[p] == open[p]);
            assert(f[p] == flags[p]);
            assert(deeper_between(m, open[p], i, p + 1));
        }
    }
}

/// With the open directories cut back to those above entry `i`, the entry is
/// on screen exactly when all their flags are set.
proof fn lemma_shown_iff_flags(m: Seq<EntryView>, i: int, open: Seq<int>, flags: Seq<bool>)
    requires
        is_preorder(m),
        0 <= i < m.len(),
        tracks(m, i, open, flags),
        flags.len() == m[i].depth - 1,
    ensures
        is_shown(m, i) <==> forall|p: int| 0 <= p < flags.len() ==> flags[p],
{
    reveal(tracks);
    if is_shown(m, i) {
        assert forall|p: int| 0 <= p < flags.len() implies flags[p] by {
            let j = open[p];
            assert(deeper_between(m, j, i, p + 1));
            assert(is_ancestor(m, j, i));
        }
    }
    if forall|p: int| 0 <= p < flags.len() ==> flags[p] {
        assert forall|j: int| #[trigger] is_ancestor(m, j, i) implies m[j].is_expanded by {
            let q = m[j].depth - 1;
            assert(m[i].depth > m[j].depth);
            assert(m[j].depth >= 1);
            let o = open[q];
            assert(deeper_between(m, o, i, q + 1));
            if j < o {
                assert(m[o].depth > m[j].depth);
            } else if o < j {
                assert(m[j].depth > q + 1);
            }
            assert(flags[q]);
        }
    }
}

/// Tells whether every flag is set.
fn all_set(flags: &Vec<bool>) -> (all: bool)
    ensures
        all <==> forall|p: int| 0 <= p < flags.len() ==> flags[p],
{
    let mut p: usize = 0;
    while p < flags.len()
        invariant
            p <= flags.len(),
            forall|q: int| 0 <= q < p ==> flags[q],
        decreases flags.len() - p,
    {
        if !flags[p] {
            return false;
        }
        p += 1;
    }
    true
}

/// Tells whether a list is laid out as a walk of one tree hands it over.
pub fn in_preorder(entries: &Vec<FileEntry>) -> (ok: bool)
    ensures
        ok == is_preorder(entries.deep_view()),
{
    let ghost m = entries.deep_view();
    let mut i: usize = 0;
    while i < entries.len()
        invariant
            m == entries.deep_view(),
            i <= entries.len(),
            forall|k: int| 0 <= k < i ==> (#[trigger] m[k]).depth >= 1,
            i > 0 ==> m[0].depth == 1,
            forall|k: int, l: int|
                0 <= k && l == k + 1 && l < i ==> (#[trigger] m[l]).depth <= deepest_after(
                    #[trigger] m[k],
                ),
        decreases entries.len() - i,
    {
        let depth: usize = entries[i].depth;
        assert(m[i as int].depth == depth);
        if i == 0 {
            if depth != 1 {
                return false;
            }
        } else {
            let above = &entries[i - 1];
            assert(m[i - 1] == above@);
            if depth == 0 {
                return false;
            }
            if above.is_dir {
                if depth - 1 > above.depth {
                    return false;
                }
            } else if depth > above.depth {
                return false;
            }
        }
        i += 1;
    }
    true
}

/// Looks for the first entry with the given path.
pub fn find_path(entries: &Vec<FileEntry>, path: &String) -> (found: Option<usize>)
    ensures
        match found {
            Some(i) => position_of(entries.deep_view(), path@) == Some(i as int),
            None => position_of(entries.deep_view(), path@) is None,
        },
{
    let ghost m = entries.deep_view();
    let mut i: usize = 0;
    while i < entries.len()
        invariant
            m == entries.deep_view(),
            i <= entries.len(),
            forall|j: int| 0 <= j < i ==> (#[trigger] m[j]).path != path@,
        decreases entries.len() - i,
    {
        assert(m[i as int] == entries[i as int]@);
        if entries[i].path == *path {
            proof {
                lemma_first_with_path_unique(m, path@, i as int);
            }
            return Some(i);
        }
        i += 1;
    }
    proof {
        lemma_path_absent(m, path@);
    }
    None
}

/// Flips the expand flag of the first entry with the given path, if that
/// entry is a directory.
pub fn toggle_path(master: &mut Vec<FileEntry>, path: &String)
    ensures
        final(master).deep_view() == toggled(old(master).deep_view(), path@),
{
    match find_path(master, path) {
        Some(i) => {
            if master[i].is_dir {
                let flag = master[i].is_expanded;
                master[i].is_expanded = !flag;
                assert(master.deep_view() =~= toggled(old(master).deep_view(), path@));
            }
        },
        None => {},
    }
}

/// Expands every directory whose depth is less than `level`.
pub fn expand_to_level(master: &mut Vec<FileEntry>, level: usize)
    ensures
        final(master).deep_view() == expanded_to(old(master).deep_view(), level as nat),
{
    let ghost m = master.deep_view();
    let mut i: usize = 0;
    while i < master.len()
        invariant
            master.len() == m.len(),
            i <= master.len(),
            forall|k: int| 0 <= k < i ==> (#[trigger] master[k])@ == expanded_to(m, level as nat)[k],
            forall|k: int| i <= k < m.len() ==> (#[trigger] master[k])@ == m[k],
        decreases master.len() - i,
    {
        if master[i].is_dir && master[i].depth < level {
            master[i].is_expanded = true;
        }
        i += 1;
    }
    assert(master.deep_view() =~= expanded_to(m, level as nat));
}

/// Rebuilds the visible list in one pass over the scan, keeping on a stack
/// the expand flags of the directories that the walk is currently inside.
pub fn visible_entries(master: &Vec<FileEntry>) -> (visible: Vec<FileEntry>)
    requires
        is_preorder(master.deep_view()),
    ensures
        visible.deep_view() == visible_of(master.deep_view()),
{
    let ghost m = master.deep_view();
    let mut visible: Vec<FileEntry> = Vec::new();
    let mut stack: Vec<bool> = Vec::new();
    let ghost mut open: Seq<int> = Seq::empty();
    let mut i: usize = 0;
    proof {
        lemma_walk_start(m);
        assert(visible.deep_view() =~= visible_upto(m, 0));
    }
    while i < master.len()
        invariant
            m == master.deep_view(),
            i <= master.len(),
            walk_at(m, i as int, open, stack@),
            visible.deep_view() == visible_upto(m, i as int),
        decreases master.len() - i,
    {
        let entry = &master[i];
        proof {
            assert(m[i as int] == entry@);
            lemma_walk_enter(m, i as int, open, stack@);
        }
        while stack.len() >= entry.depth
            invariant
                0 <= i < m.len(),
                entry.depth == m[i as int].depth,
                entry.depth >= 1,
                cut_at(m, i as int, open, stack@),
            decreases stack.len(),
        {
            proof {
                lemma_walk_pop(m, i as int, open, stack@);
                open = open.drop_last();
            }
            stack.pop();
        }
        proof {
            lemma_walk_visit(m, i as int, open, stack@);
        }
        if all_set(&stack) {
            let ghost before = visible@;
            visible.push(entry.clone());
            proof {
                lemma_push_view(before, visible@, *entry);
            }
        }
        if entry.is_dir {
            stack.push(entry.is_expanded);
            proof {
                open = open.push(i as int);
            }
        }
        i += 1;
    }
    visible
}

} // verus!

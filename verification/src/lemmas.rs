//! What holds of the visible list, and of toggles.

use crate::entry::EntryView;
use crate::tree::{
    deepest_after, has_distinct_paths, is_ancestor, is_first_with_path, is_preorder, is_shown,
    position_of, same_shape, toggled, visible_indices, visible_indices_upto, visible_of,
    visible_upto,
};
use vstd::prelude::*;

verus! {

/// At most one entry is the first with a given path.
pub proof fn lemma_first_with_path_unique(m: Seq<EntryView>, path: Seq<char>, i: int)
    requires
        is_first_with_path(m, path, i),
    ensures
        position_of(m, path) == Some(i),
{
    let c = choose|c: int| is_first_with_path(m, path, c);
    if c < i {
        assert(m[c].path != path);
    } else if i < c {
        assert(m[i].path != path);
    }
}

/// A path that no entry has is found nowhere.
pub proof fn lemma_path_absent(m: Seq<EntryView>, path: Seq<char>)
    requires
        forall|j: int| 0 <= j < m.len() ==> (#[trigger] m[j]).path != path,
    ensures
        position_of(m, path) is None,
{
    if exists|i: int| is_first_with_path(m, path, i) {
        let c = choose|c: int| is_first_with_path(m, path, c);
        assert(m[c].path != path);
    }
}

/// Flags do not decide whether a list is in pre-order.
pub proof fn lemma_same_shape_preorder(a: Seq<EntryView>, b: Seq<EntryView>)
    requires
        same_shape(a, b),
        is_preorder(a),
    ensures
        is_preorder(b),
{
    assert forall|i: int| 0 <= i < b.len() implies (#[trigger] b[i]).depth >= 1 by {
        assert(a[i].with_expanded(b[i].is_expanded) == b[i]);
    }
    if b.len() > 0 {
        assert(a[0].with_expanded(b[0].is_expanded) == b[0]);
    }
    assert forall|i: int, j: int| 0 <= i && j == i + 1 && j < b.len() implies (#[trigger] b[j]).depth
        <= deepest_after(#[trigger] b[i]) by {
        assert(a[i].with_expanded(b[i].is_expanded) == b[i]);
        assert(a[j].with_expanded(b[j].is_expanded) == b[j]);
    }
}

/// A toggle changes flags only.
pub proof fn lemma_toggled_same_shape(m: Seq<EntryView>, path: Seq<char>)
    ensures
        same_shape(m, toggled(m, path)),
{
    let t = toggled(m, path);
    if let Some(i) = position_of(m, path) {
        assert(is_first_with_path(m, path, i));
    }
    assert forall|k: int| 0 <= k < m.len() implies (#[trigger] m[k]).with_expanded(
        t[k].is_expanded,
    ) == t[k] by {}
}

/// Lists that differ from the same list in flags only differ from each
/// other in flags only.
pub proof fn lemma_same_shape_chain(a: Seq<EntryView>, b: Seq<EntryView>, c: Seq<EntryView>)
    requires
        same_shape(a, b),
        same_shape(b, c),
    ensures
        same_shape(a, c),
{
    assert forall|i: int| 0 <= i < a.len() implies (#[trigger] a[i]).with_expanded(
        c[i].is_expanded,
    ) == c[i] by {
        assert(a[i].with_expanded(b[i].is_expanded) == b[i]);
        assert(b[i].with_expanded(c[i].is_expanded) == c[i]);
    }
}

/// Where every entry has a path of its own, a toggle of the path of a
/// directory flips that directory and nothing else.
pub proof fn lemma_toggle_of_distinct_path(m: Seq<EntryView>, r: int)
    requires
        has_distinct_paths(m),
        0 <= r < m.len(),
        m[r].is_dir,
    ensures
        toggled(m, m[r].path) == m.update(r, m[r].with_expanded(!m[r].is_expanded)),
{
    assert forall|j: int| 0 <= j < r implies (#[trigger] m[j]).path != m[r].path by {}
    lemma_first_with_path_unique(m, m[r].path, r);
}

/// A toggle flips the flag of one entry, the first directory entry with the
/// given path, and leaves every other entry as it was.
pub proof fn lemma_toggle_flips_one(m: Seq<EntryView>, path: Seq<char>)
    ensures
        toggled(m, path).len() == m.len(),
        forall|k: int|
            0 <= k < m.len() ==> (#[trigger] toggled(m, path)[k]) == if is_first_with_path(
                m,
                path,
                k,
            ) && m[k].is_dir {
                m[k].with_expanded(!m[k].is_expanded)
            } else {
                m[k]
            },
{
    let t = toggled(m, path);
    assert forall|k: int| 0 <= k < m.len() implies (#[trigger] t[k]) == if is_first_with_path(
        m,
        path,
        k,
    ) && m[k].is_dir {
        m[k].with_expanded(!m[k].is_expanded)
    } else {
        m[k]
    } by {
        if is_first_with_path(m, path, k) {
            lemma_first_with_path_unique(m, path, k);
        } else {
            match position_of(m, path) {
                Some(i) => {
                    assert(is_first_with_path(m, path, i));
                },
                None => {},
            }
        }
    }
}

/// Toggling the same path twice restores the scan, and with it the visible
/// list: expanding a directory and collapsing it at once leaves on screen
/// what was there before.
pub proof fn lemma_toggle_twice(m: Seq<EntryView>, path: Seq<char>)
    ensures
        toggled(toggled(m, path), path) == m,
        visible_of(toggled(toggled(m, path), path)) == visible_of(m),
{
    let t = toggled(m, path);
    match position_of(m, path) {
        Some(i) => {
            assert(is_first_with_path(m, path, i));
            if m[i].is_dir {
                assert forall|j: int| 0 <= j < i implies (#[trigger] t[j]).path != path by {
                    assert(m[j].path != path);
                }
                assert(is_first_with_path(t, path, i));
                lemma_first_with_path_unique(t, path, i);
                assert(toggled(t, path) =~= m);
            }
        },
        None => {},
    }
}

/// With every directory expanded, the visible list is the whole scan, in the
/// same order.
pub proof fn lemma_all_expanded_shows_all(m: Seq<EntryView>)
    requires
        forall|i: int| 0 <= i < m.len() && (#[trigger] m[i]).is_dir ==> m[i].is_expanded,
    ensures
        visible_of(m) == m,
{
    lemma_all_expanded_upto(m, m.len() as int);
    assert(m.take(m.len() as int) =~= m);
}

proof fn lemma_all_expanded_upto(m: Seq<EntryView>, n: int)
    requires
        forall|i: int| 0 <= i < m.len() && (#[trigger] m[i]).is_dir ==> m[i].is_expanded,
        0 <= n <= m.len(),
    ensures
        visible_upto(m, n) == m.take(n),
    decreases n,
{
    if n > 0 {
        lemma_all_expanded_upto(m, n - 1);
        assert(is_shown(m, n - 1));
        assert(m.take(n) =~= m.take(n - 1).push(m[n - 1]));
    } else {
        assert(m.take(n) =~= Seq::<EntryView>::empty());
    }
}

/// In a pre-order list every entry below the top level lies in a directory
/// of each depth less than its own.
pub proof fn lemma_enclosing_directory(m: Seq<EntryView>, i: int, d: nat) -> (j: int)
    requires
        is_preorder(m),
        0 <= i < m.len(),
        1 <= d < m[i].depth,
    ensures
        is_ancestor(m, j, i),
        m[j].depth == d,
    decreases i,
{
    if i == 0 {
        0
    } else if d < m[i - 1].depth {
        let j = lemma_enclosing_directory(m, i - 1, d);
        assert forall|k: int| j < k <= i implies (#[trigger] m[k]).depth > m[j].depth by {}
        j
    } else {
        assert forall|k: int| i - 1 < k <= i implies (#[trigger] m[k]).depth > m[i - 1].depth by {}
        i - 1
    }
}

/// With every directory collapsed, the visible list is exactly the entries
/// of depth 1.
pub proof fn lemma_all_collapsed_shows_top_level(m: Seq<EntryView>)
    requires
        is_preorder(m),
        forall|i: int| 0 <= i < m.len() && (#[trigger] m[i]).is_dir ==> !m[i].is_expanded,
    ensures
        visible_of(m) == m.filter(|e: EntryView| e.depth == 1),
{
    lemma_all_collapsed_upto(m, m.len() as int);
    assert(m.take(m.len() as int) =~= m);
}

proof fn lemma_all_collapsed_upto(m: Seq<EntryView>, n: int)
    requires
        is_preorder(m),
        forall|i: int| 0 <= i < m.len() && (#[trigger] m[i]).is_dir ==> !m[i].is_expanded,
        0 <= n <= m.len(),
    ensures
        visible_upto(m, n) == m.take(n).filter(|e: EntryView| e.depth == 1),
    decreases n,
{
    let top = |e: EntryView| e.depth == 1;
    if n > 0 {
        lemma_all_collapsed_upto(m, n - 1);
        assert(m.take(n).drop_last() =~= m.take(n - 1));
        assert(m.take(n).last() == m[n - 1]);
        if m[n - 1].depth == 1 {
            assert forall|j: int| #[trigger] is_ancestor(m, j, n - 1) implies m[j].is_expanded by {
                assert(m[n - 1].depth > m[j].depth);
                assert(m[j].depth >= 1);
            }
            assert(is_shown(m, n - 1));
        } else {
            let j = lemma_enclosing_directory(m, n - 1, 1);
            assert(is_ancestor(m, j, n - 1) && !m[j].is_expanded);
            assert(!is_shown(m, n - 1));
        }
        reveal_with_fuel(Seq::filter, 2);
        assert(m.take(n).filter(top) == if top(m[n - 1]) {
            m.take(n - 1).filter(top).push(m[n - 1])
        } else {
            m.take(n - 1).filter(top)
        });
    } else {
        assert(m.take(n) =~= Seq::<EntryView>::empty());
    }
}

/// The first entry of a scan is always on screen, so a scan that holds
/// anything shows something.
pub proof fn lemma_visible_nonempty(m: Seq<EntryView>)
    ensures
        visible_of(m).len() <= m.len(),
        visible_of(m).len() == 0 <==> m.len() == 0,
{
    lemma_visible_len(m, m.len() as int);
}

proof fn lemma_visible_len(m: Seq<EntryView>, n: int)
    requires
        0 <= n <= m.len(),
    ensures
        visible_upto(m, n).len() <= n,
        n > 0 ==> visible_upto(m, n).len() > 0,
    decreases n,
{
    if n > 0 {
        lemma_visible_len(m, n - 1);
        if n == 1 {
            assert(is_shown(m, 0));
        }
    }
}

proof fn lemma_visible_indices_upto(m: Seq<EntryView>, n: int)
    requires
        0 <= n <= m.len(),
    ensures
        visible_indices_upto(m, n).len() == visible_upto(m, n).len(),
        forall|k: int|
            0 <= k < visible_indices_upto(m, n).len() ==> {
                &&& 0 <= #[trigger] visible_indices_upto(m, n)[k] < n
                &&& is_shown(m, visible_indices_upto(m, n)[k])
                &&& visible_upto(m, n)[k] == m[visible_indices_upto(m, n)[k]]
            },
        forall|k: int, l: int|
            0 <= k < l < visible_indices_upto(m, n).len() ==> visible_indices_upto(m, n)[k]
                < visible_indices_upto(m, n)[l],
        forall|i: int|
            0 <= i < n && is_shown(m, i) ==> exists|k: int|
                0 <= k < visible_indices_upto(m, n).len() && #[trigger] visible_indices_upto(
                    m,
                    n,
                )[k] == i,
    decreases n,
{
    if n > 0 {
        lemma_visible_indices_upto(m, n - 1);
        let before = visible_indices_upto(m, n - 1);
        let at = visible_indices_upto(m, n);
        assert forall|i: int| 0 <= i < n && is_shown(m, i) implies exists|k: int|
            0 <= k < at.len() && #[trigger] at[k] == i by {
            if i < n - 1 {
                let k = choose|k: int| 0 <= k < before.len() && #[trigger] before[k] == i;
                assert(at[k] == i);
            } else {
                assert(at[at.len() - 1] == i);
            }
        }
    }
}

/// The visible list is a part of the scan, in the scan's order: each of its
/// rows is an entry of the scan that is on screen, the rows come in the order
/// of their places, and every entry that is on screen has a row.
pub proof fn lemma_visible_is_subsequence(m: Seq<EntryView>)
    ensures
        visible_indices(m).len() == visible_of(m).len(),
        forall|k: int|
            0 <= k < visible_indices(m).len() ==> {
                &&& 0 <= #[trigger] visible_indices(m)[k] < m.len()
                &&& is_shown(m, visible_indices(m)[k])
                &&& visible_of(m)[k] == m[visible_indices(m)[k]]
            },
        forall|k: int, l: int|
            0 <= k < l < visible_indices(m).len() ==> visible_indices(m)[k] < visible_indices(
                m,
            )[l],
        forall|i: int|
            0 <= i < m.len() && is_shown(m, i) ==> exists|k: int|
                0 <= k < visible_indices(m).len() && #[trigger] visible_indices(m)[k] == i,
{
    lemma_visible_indices_upto(m, m.len() as int);
}

/// A path that some entry has is found, at that entry or before it.
pub proof fn lemma_path_present(m: Seq<EntryView>, path: Seq<char>, i: int)
    requires
        0 <= i < m.len(),
        m[i].path == path,
    ensures
        position_of(m, path) is Some,
        0 <= position_of(m, path)->0 <= i,
        is_first_with_path(m, path, position_of(m, path)->0),
    decreases i,
{
    if exists|j: int| 0 <= j < i && (#[trigger] m[j]).path == path {
        let j = choose|j: int| 0 <= j < i && (#[trigger] m[j]).path == path;
        lemma_path_present(m, path, j);
    } else {
        assert(is_first_with_path(m, path, i));
        lemma_first_with_path_unique(m, path, i);
    }
}

/// Which directories an entry lies below is a matter of shape, not of flags.
proof fn lemma_same_shape_ancestor(a: Seq<EntryView>, b: Seq<EntryView>, j: int, i: int)
    requires
        same_shape(a, b),
        is_ancestor(a, j, i),
    ensures
        is_ancestor(b, j, i),
{
    assert(a[j].with_expanded(b[j].is_expanded) == b[j]);
    assert forall|k: int| j < k <= i implies (#[trigger] b[k]).depth > b[j].depth by {
        assert(a[k].with_expanded(b[k].is_expanded) == b[k]);
        assert(a[k].depth > a[j].depth);
    }
}

/// What lies above a directory lies above everything below it.
proof fn lemma_ancestor_of_ancestor(m: Seq<EntryView>, j: int, f: int, r: int)
    requires
        is_ancestor(m, j, f),
        is_ancestor(m, f, r),
    ensures
        is_ancestor(m, j, r),
{
    assert forall|k: int| j < k <= r implies (#[trigger] m[k]).depth > m[j].depth by {
        assert(m[f].depth > m[j].depth);
        if k > f {
            assert(m[k].depth > m[f].depth);
        }
    }
}

/// After a toggle of the path of an entry that is on screen, an entry with
/// that path is on screen still: the toggled directory itself keeps its row,
/// whatever becomes of the rows below it.
pub proof fn lemma_toggled_path_stays_visible(m: Seq<EntryView>, r: int)
    requires
        0 <= r < m.len(),
        is_shown(m, r),
    ensures
        position_of(visible_of(toggled(m, m[r].path)), m[r].path) is Some,
{
    let path = m[r].path;
    let t = toggled(m, path);
    lemma_path_present(m, path, r);
    let f = position_of(m, path)->0;
    lemma_toggled_same_shape(m, path);
    lemma_toggle_flips_one(m, path);
    // The entry that keeps its row: the toggled one where the entry at `r`
    // lies below it, else the entry at `r` itself.
    let x = if is_ancestor(m, f, r) {
        f
    } else {
        r
    };
    assert(t[x].path == path) by {
        assert(m[x].with_expanded(t[x].is_expanded) == t[x]);
    }
    assert forall|j: int| #[trigger] is_ancestor(t, j, x) implies t[j].is_expanded by {
        assert(same_shape(t, m)) by {
            assert forall|k: int| 0 <= k < t.len() implies (#[trigger] t[k]).with_expanded(
                m[k].is_expanded,
            ) == m[k] by {
                assert(m[k].with_expanded(t[k].is_expanded) == t[k]);
            }
        }
        lemma_same_shape_ancestor(t, m, j, x);
        if is_ancestor(m, f, r) {
            lemma_ancestor_of_ancestor(m, j, f, r);
        }
        assert(is_ancestor(m, j, r));
        assert(m[j].is_expanded);
        assert(j != f);
        assert(t[j] == m[j]);
    }
    assert(is_shown(t, x));
    lemma_visible_is_subsequence(t);
    let k = choose|k: int| 0 <= k < visible_indices(t).len() && #[trigger] visible_indices(t)[k] == x;
    assert(visible_of(t)[k] == t[x]);
    lemma_path_present(visible_of(t), path, k);
}

/// Where every entry has a path of its own, so has every row.
pub proof fn lemma_visible_paths_distinct(m: Seq<EntryView>)
    requires
        has_distinct_paths(m),
    ensures
        has_distinct_paths(visible_of(m)),
{
    lemma_visible_is_subsequence(m);
    let at = visible_indices(m);
    let rows = visible_of(m);
    assert forall|k: int, l: int| 0 <= k < l < rows.len() implies (#[trigger] rows[k]).path != (
    #[trigger] rows[l]).path by {
        assert(at[k] < at[l]);
        assert(rows[k] == m[at[k]]);
        assert(rows[l] == m[at[l]]);
    }
}

/// Where every entry has a path of its own, a path is found at the entry
/// that has it.
pub proof fn lemma_distinct_path_found(m: Seq<EntryView>, r: int)
    requires
        has_distinct_paths(m),
        0 <= r < m.len(),
    ensures
        position_of(m, m[r].path) == Some(r),
{
    assert forall|j: int| 0 <= j < r implies (#[trigger] m[j]).path != m[r].path by {}
    lemma_first_with_path_unique(m, m[r].path, r);
}

/// A flag decides nothing about the entries before it: up to and with the
/// entry whose flag differs, the same entries are on screen.
proof fn lemma_rows_before_flip(m: Seq<EntryView>, r: int, flag: bool, n: int)
    requires
        0 <= r < m.len(),
        0 <= n <= r + 1,
    ensures
        visible_indices_upto(m.update(r, m[r].with_expanded(flag)), n) == visible_indices_upto(
            m,
            n,
        ),
    decreases n,
{
    let t = m.update(r, m[r].with_expanded(flag));
    if n > 0 {
        lemma_rows_before_flip(m, r, flag, n - 1);
        assert(same_shape(m, t));
        assert(same_shape(t, m)) by {
            assert forall|k: int| 0 <= k < t.len() implies (#[trigger] t[k]).with_expanded(
                m[k].is_expanded,
            ) == m[k] by {}
        }
        if is_shown(m, n - 1) {
            assert forall|j: int| #[trigger] is_ancestor(t, j, n - 1) implies t[j].is_expanded by {
                lemma_same_shape_ancestor(t, m, j, n - 1);
                assert(t[j] == m[j]);
            }
        }
        if is_shown(t, n - 1) {
            assert forall|j: int| #[trigger] is_ancestor(m, j, n - 1) implies m[j].is_expanded by {
                lemma_same_shape_ancestor(m, t, j, n - 1);
                assert(t[j] == m[j]);
            }
        }
    }
}

/// The rows of the first `n` entries come first among the rows of the first
/// `k`, and the rows after them are of later entries.
proof fn lemma_rows_of_a_prefix(m: Seq<EntryView>, n: int, k: int)
    requires
        0 <= n <= k <= m.len(),
    ensures
        visible_indices_upto(m, n).len() <= visible_indices_upto(m, k).len(),
        visible_indices_upto(m, k).take(visible_indices_upto(m, n).len() as int)
            == visible_indices_upto(m, n),
        forall|x: int|
            visible_indices_upto(m, n).len() <= x < visible_indices_upto(m, k).len()
                ==> #[trigger] visible_indices_upto(m, k)[x] >= n,
    decreases k - n,
{
    let short = visible_indices_upto(m, n);
    let long = visible_indices_upto(m, k);
    if k == n {
        assert(long.take(short.len() as int) =~= short);
    } else {
        lemma_rows_of_a_prefix(m, n, k - 1);
        let before = visible_indices_upto(m, k - 1);
        assert(long.take(short.len() as int) =~= before.take(short.len() as int));
    }
}

/// Where every entry has a path of its own, a toggle of a directory that is
/// on screen leaves its row where it was: the rows above it stay, and the
/// directory is found again at the same place in the visible list.
pub proof fn lemma_toggled_row_keeps_its_place(m: Seq<EntryView>, i: int)
    requires
        has_distinct_paths(m),
        0 <= i < visible_of(m).len(),
    ensures
        position_of(visible_of(toggled(m, visible_of(m)[i].path)), visible_of(m)[i].path) == Some(
            i,
        ),
{
    lemma_visible_is_subsequence(m);
    let r = visible_indices(m)[i];
    let path = m[r].path;
    let t = toggled(m, path);
    lemma_distinct_path_found(m, r);
    lemma_toggled_same_shape(m, path);
    assert(has_distinct_paths(t)) by {
        assert forall|a: int, b: int| 0 <= a < b < t.len() implies (#[trigger] t[a]).path != (
        #[trigger] t[b]).path by {
            assert(m[a].with_expanded(t[a].is_expanded) == t[a]);
            assert(m[b].with_expanded(t[b].is_expanded) == t[b]);
        }
    }
    assert(t[r].path == path) by {
        assert(m[r].with_expanded(t[r].is_expanded) == t[r]);
    }
    // Up to and with the entry at `r`, the same entries have rows.
    assert(visible_indices_upto(t, r + 1) == visible_indices_upto(m, r + 1)) by {
        if m[r].is_dir {
            lemma_rows_before_flip(m, r, !m[r].is_expanded, r + 1);
        }
    }
    // The entry at `r` has row `i` before the toggle, so it is the last of
    // the rows of the first `r + 1` entries, of which there are `i + 1`.
    lemma_rows_of_a_prefix(m, r + 1, m.len() as int);
    lemma_rows_of_a_prefix(m, r, r + 1);
    let upto = visible_indices_upto(m, r + 1);
    assert(upto == visible_indices_upto(m, r).push(r));
    assert(upto.len() == i + 1) by {
        let all = visible_indices(m);
        let last = upto.len() - 1;
        assert(all.take(upto.len() as int)[last] == upto[last]);
        assert(all[last] == r);
        if last < i {
            assert(all[last] < all[i]);
        } else if i < last {
            assert(all[i] < all[last]);
        }
    }
    // So it has after the toggle.
    lemma_rows_of_a_prefix(t, r + 1, t.len() as int);
    lemma_visible_is_subsequence(t);
    assert(visible_indices(t)[i] == r) by {
        assert(visible_indices(t).take(upto.len() as int)[i] == upto[i]);
    }
    assert(visible_of(t)[i] == t[r]);
    lemma_visible_paths_distinct(t);
    lemma_distinct_path_found(visible_of(t), i);
}

} // verus!

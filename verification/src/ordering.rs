//! Which windows the canvas shows and in what order: filtering by the
//! search query, the order the user arranged by dragging, and moving a
//! dragged cell.

use vstd::prelude::*;
use crate::search::{SearchState, query_matches};
use vstd::seq_lib::lemma_multiset_commutative;

verus! {

/// The indices below `n` that satisfy `p`, ascending.
pub open spec fn indices_where(n: nat, p: spec_fn(int) -> bool) -> Seq<usize>
    decreases n,
{
    if n == 0 {
        Seq::empty()
    } else {
        let prev = indices_where((n - 1) as nat, p);
        if p(n - 1) {
            prev.push((n - 1) as usize)
        } else {
            prev
        }
    }
}

/// The indices of the titles that match the query, ascending.
pub open spec fn matching_indices(query: Seq<char>, titles: Seq<String>) -> Seq<usize> {
    indices_where(titles.len(), |i: int| query_matches(query, titles[i]@))
}

/// The indices of the windows whose titles pass the search filter, in the
/// order of `titles`.
pub fn filter_windows(search: &SearchState, titles: &[String]) -> (r: Vec<usize>)
    ensures
        r@ == matching_indices(search.query@, titles@),
{
    let mut out: Vec<usize> = Vec::new();
    let n = titles.len();
    let mut i: usize = 0;
    while i < n
        invariant
            n == titles@.len(),
            i <= n,
            out@ == indices_where(i as nat, |k: int| query_matches(search.query@, titles@[k]@)),
        decreases n - i,
    {
        if search.matches(titles[i].as_str()) {
            out.push(i);
        }
        i += 1;
    }
    out
}

/// The cells shown: the windows whose titles match, in listing order, or
/// in the saved order when the user arranged them.
pub open spec fn shown_cells(query: Seq<char>, titles: Seq<String>, ids: Seq<isize>, order: Seq<isize>) -> Seq<usize> {
    if order.len() == 0 {
        matching_indices(query, titles)
    } else {
        custom_ordered(matching_indices(query, titles), ids, order)
    }
}

/// The windows to show, as cells in order: those whose titles pass the
/// search filter, arranged by the saved order when there is one. `ids`
/// gives each window's id, `titles` its title.
pub fn update_filter(search: &SearchState, titles: &[String], ids: &[isize], order: &[isize]) -> (r: Vec<usize>)
    requires
        titles@.len() == ids@.len(),
    ensures
        r@ == shown_cells(search.query@, titles@, ids@, order@),
{
    let shown = filter_windows(search, titles);
    let n = titles.len();
    if order.len() == 0 {
        return shown;
    }
    proof {
        filter_shows_exactly_matching(search.query@, titles@);
    }
    apply_custom_order(shown.as_slice(), ids, order)
}

/// Where a window id first stands in `order`, or `order.len()` when it is
/// not there.
pub open spec fn rank(order: Seq<isize>, id: isize) -> nat
    decreases order.len(),
{
    if order.len() == 0 {
        0
    } else if order[0] == id {
        0
    } else {
        1 + rank(order.drop_first(), id)
    }
}

proof fn lemma_rank_bounds(order: Seq<isize>, id: isize)
    ensures
        rank(order, id) <= order.len(),
        rank(order, id) < order.len() ==> order[rank(order, id) as int] == id,
        forall|k: int| 0 <= k < rank(order, id) ==> order[k] != id,
    decreases order.len(),
{
    if order.len() > 0 && order[0] != id {
        lemma_rank_bounds(order.drop_first(), id);
        assert forall|k: int| 0 <= k < rank(order, id) implies order[k] != id by {
            if k > 0 {
                assert(order[k] == order.drop_first()[k - 1]);
            }
        }
    }
}

proof fn lemma_rank_is_first(order: Seq<isize>, id: isize, r: int)
    requires
        0 <= r <= order.len(),
        r < order.len() ==> order[r] == id,
        forall|k: int| 0 <= k < r ==> order[k] != id,
    ensures
        rank(order, id) == r,
    decreases order.len(),
{
    if order.len() > 0 && order[0] != id {
        lemma_rank_is_first(order.drop_first(), id, r - 1);
    }
}

/// Where `id` first stands in `order`, or `order.len()` when it is absent.
pub fn position_in(order: &[isize], id: isize) -> (r: usize)
    ensures
        r == rank(order@, id),
{
    let n = order.len();
    let mut i: usize = 0;
    while i < n
        invariant
            n == order@.len(),
            i <= n,
            forall|k: int| 0 <= k < i ==> order@[k] != id,
        decreases n - i,
    {
        if order[i] == id {
            proof {
                lemma_rank_is_first(order@, id, i as int);
            }
            return i;
        }
        i += 1;
    }
    proof {
        lemma_rank_is_first(order@, id, n as int);
    }
    n
}

/// The window ids of the shown cells, in cell order: what is kept to
/// restore an arrangement the user made.
pub open spec fn saved_order(items: Seq<usize>, ids: Seq<isize>) -> Seq<isize> {
    Seq::new(items.len(), |j: int| ids[items[j] as int])
}

/// Records the current cell order as the window ids of the shown cells.
pub fn save_custom_order(items: &[usize], ids: &[isize]) -> (r: Vec<isize>)
    requires
        forall|j: int| 0 <= j < items@.len() ==> #[trigger] items@[j] < ids@.len(),
    ensures
        r@ == saved_order(items@, ids@),
{
    let mut out: Vec<isize> = Vec::new();
    let n = items.len();
    let mut j: usize = 0;
    while j < n
        invariant
            n == items@.len(),
            j <= n,
            forall|t: int| 0 <= t < items@.len() ==> #[trigger] items@[t] < ids@.len(),
            out@ =~= saved_order(items@, ids@).take(j as int),
        decreases n - j,
    {
        out.push(ids[items[j]]);
        j += 1;
    }
    assert(saved_order(items@, ids@).take(n as int) =~= saved_order(items@, ids@));
    out
}

/// The items whose window stands at rank `k` of `order`, in their order
/// in `items`.
pub open spec fn group(items: Seq<usize>, ids: Seq<isize>, order: Seq<isize>, k: nat) -> Seq<usize>
    decreases items.len(),
{
    if items.len() == 0 {
        Seq::empty()
    } else {
        let prev = group(items.drop_last(), ids, order, k);
        if rank(order, ids[items.last() as int]) == k {
            prev.push(items.last())
        } else {
            prev
        }
    }
}

/// The groups of ranks `0 .. k`, one after the other.
pub open spec fn groups_upto(items: Seq<usize>, ids: Seq<isize>, order: Seq<isize>, k: nat) -> Seq<usize>
    decreases k,
{
    if k == 0 {
        Seq::empty()
    } else {
        groups_upto(items, ids, order, (k - 1) as nat) + group(items, ids, order, (k - 1) as nat)
    }
}

/// The items arranged by the saved order: first those whose window stands
/// first in `order`, then the second, and so on; items whose window is not
/// in `order` come last. Items of equal rank keep their order.
pub open spec fn custom_ordered(items: Seq<usize>, ids: Seq<isize>, order: Seq<isize>) -> Seq<usize> {
    groups_upto(items, ids, order, order.len() + 1)
}

proof fn lemma_group_take_succ(items: Seq<usize>, ids: Seq<isize>, order: Seq<isize>, k: nat, j: int)
    requires
        0 <= j < items.len(),
    ensures
        group(items.take(j + 1), ids, order, k) == (if rank(order, ids[items[j] as int]) == k {
            group(items.take(j), ids, order, k).push(items[j])
        } else {
            group(items.take(j), ids, order, k)
        }),
{
    assert(items.take(j + 1).drop_last() =~= items.take(j));
    assert(items.take(j + 1).last() == items[j]);
}

/// Arranges the shown cells by the order the user saved: the windows in
/// `order` first, in that order, then the others in their current order.
/// `ids` gives the window id of each window index.
pub fn apply_custom_order(items: &[usize], ids: &[isize], order: &[isize]) -> (r: Vec<usize>)
    requires
        forall|j: int| 0 <= j < items@.len() ==> #[trigger] items@[j] < ids@.len(),
    ensures
        r@ == custom_ordered(items@, ids@, order@),
{
    let n = items.len();
    let m = order.len();
    let mut ranks: Vec<usize> = Vec::new();
    let mut j: usize = 0;
    while j < n
        invariant
            n == items@.len(),
            j <= n,
            forall|t: int| 0 <= t < items@.len() ==> #[trigger] items@[t] < ids@.len(),
            ranks@.len() == j,
            forall|t: int| 0 <= t < j ==> #[trigger] ranks@[t] == rank(order@, ids@[items@[t] as int]),
        decreases n - j,
    {
        let r = position_in(order, ids[items[j]]);
        ranks.push(r);
        j += 1;
    }
    let mut out: Vec<usize> = Vec::new();
    let mut k: usize = 0;
    loop
        invariant_except_break
            k <= m,
            out@ == groups_upto(items@, ids@, order@, k as nat),
        invariant
            n == items@.len(),
            m == order@.len(),
            ranks@.len() == n,
            forall|t: int| 0 <= t < items@.len() ==> #[trigger] items@[t] < ids@.len(),
            forall|t: int| 0 <= t < n ==> #[trigger] ranks@[t] == rank(order@, ids@[items@[t] as int]),
        ensures
            out@ == groups_upto(items@, ids@, order@, (m + 1) as nat),
        decreases m - k,
    {
        let ghost base = out@;
        let mut t: usize = 0;
        while t < n
            invariant
                n == items@.len(),
                t <= n,
                ranks@.len() == n,
                forall|u: int| 0 <= u < items@.len() ==> #[trigger] items@[u] < ids@.len(),
                forall|u: int| 0 <= u < n ==> #[trigger] ranks@[u] == rank(order@, ids@[items@[u] as int]),
                out@ == base + group(items@.take(t as int), ids@, order@, k as nat),
            decreases n - t,
        {
            proof {
                lemma_group_take_succ(items@, ids@, order@, k as nat, t as int);
            }
            if ranks[t] == k {
                out.push(items[t]);
                assert(out@ =~= base + group(items@.take(t + 1), ids@, order@, k as nat));
            }
            t += 1;
        }
        assert(items@.take(n as int) =~= items@);
        assert(out@ == groups_upto(items@, ids@, order@, (k + 1) as nat));
        if k == m {
            break;
        }
        k += 1;
    }
    out
}


/// No window id occurs twice among the items.
pub open spec fn distinct_ids(items: Seq<usize>, ids: Seq<isize>) -> bool {
    forall|a: int, b: int|
        0 <= a < items.len() && 0 <= b < items.len() && a != b ==> ids[#[trigger] items[a] as int]
            != ids[#[trigger] items[b] as int]
}

proof fn lemma_group_of_prefix(items: Seq<usize>, ids: Seq<isize>, order: Seq<isize>, k: nat, t: int)
    requires
        0 <= t <= items.len(),
        forall|j: int| 0 <= j < items.len() ==> rank(order, ids[#[trigger] items[j] as int]) == j,
    ensures
        group(items.take(t), ids, order, k) == (if k < t {
            seq![items[k as int]]
        } else {
            Seq::<usize>::empty()
        }),
    decreases t,
{
    if t == 0 {
        assert(items.take(0) =~= Seq::<usize>::empty());
    } else {
        lemma_group_of_prefix(items, ids, order, k, t - 1);
        lemma_group_take_succ(items, ids, order, k, t - 1);
        assert(rank(order, ids[items[t - 1] as int]) == t - 1);
        if k == t - 1 {
            assert(Seq::<usize>::empty().push(items[t - 1]) =~= seq![items[k as int]]);
        }
    }
}

proof fn lemma_groups_of_prefix(items: Seq<usize>, ids: Seq<isize>, order: Seq<isize>, k: nat)
    requires
        k <= items.len(),
        forall|j: int| 0 <= j < items.len() ==> rank(order, ids[#[trigger] items[j] as int]) == j,
    ensures
        groups_upto(items, ids, order, k) == items.take(k as int),
    decreases k,
{
    if k == 0 {
        assert(items.take(0) =~= Seq::<usize>::empty());
    } else {
        lemma_groups_of_prefix(items, ids, order, (k - 1) as nat);
        lemma_group_of_prefix(items, ids, order, (k - 1) as nat, items.len() as int);
        assert(items.take(items.len() as int) =~= items);
        assert(items.take(k - 1) + seq![items[k - 1]] =~= items.take(k as int));
    }
}

/// Restoring a saved arrangement right after saving it changes nothing:
/// when the shown windows have distinct ids, ordering them by the order
/// saved from them gives them back in the same order.
pub proof fn save_then_apply_keeps_order(items: Seq<usize>, ids: Seq<isize>)
    requires
        forall|j: int| 0 <= j < items.len() ==> #[trigger] items[j] < ids.len(),
        distinct_ids(items, ids),
    ensures
        custom_ordered(items, ids, saved_order(items, ids)) == items,
{
    let order = saved_order(items, ids);
    assert forall|j: int| 0 <= j < items.len() implies rank(order, ids[#[trigger] items[j] as int]) == j by {
        assert forall|k: int| 0 <= k < j implies order[k] != ids[items[j] as int] by {
            assert(order[k] == ids[items[k] as int]);
        }
        lemma_rank_is_first(order, ids[items[j] as int], j);
    }
    lemma_groups_of_prefix(items, ids, order, items.len());
    lemma_group_of_prefix(items, ids, order, items.len(), items.len() as int);
    assert(items.take(items.len() as int) =~= items);
    assert(custom_ordered(items, ids, order) == groups_upto(items, ids, order, items.len()) + group(
        items,
        ids,
        order,
        items.len(),
    ));
    assert(items + Seq::<usize>::empty() =~= items);
}

proof fn lemma_group_push(items: Seq<usize>, ids: Seq<isize>, order: Seq<isize>, k: nat, x: usize)
    ensures
        group(items.push(x), ids, order, k) == (if rank(order, ids[x as int]) == k {
            group(items, ids, order, k).push(x)
        } else {
            group(items, ids, order, k)
        }),
{
    assert(items.push(x).drop_last() =~= items);
}

proof fn lemma_groups_push_multiset(items: Seq<usize>, ids: Seq<isize>, order: Seq<isize>, k: nat, x: usize)
    ensures
        groups_upto(items.push(x), ids, order, k).to_multiset() =~= (if rank(order, ids[x as int]) < k {
            groups_upto(items, ids, order, k).to_multiset().insert(x)
        } else {
            groups_upto(items, ids, order, k).to_multiset()
        }),
    decreases k,
{
    broadcast use vstd::seq_lib::group_to_multiset_ensures;

    if k > 0 {
        let k1 = (k - 1) as nat;
        lemma_groups_push_multiset(items, ids, order, k1, x);
        lemma_group_push(items, ids, order, k1, x);
        lemma_multiset_commutative(groups_upto(items.push(x), ids, order, k1), group(items.push(x), ids, order, k1));
        lemma_multiset_commutative(groups_upto(items, ids, order, k1), group(items, ids, order, k1));
    }
}

/// Arranging by a saved order only reorders: the result holds exactly the
/// items, each as often as before.
pub proof fn custom_order_is_permutation(items: Seq<usize>, ids: Seq<isize>, order: Seq<isize>)
    ensures
        custom_ordered(items, ids, order).to_multiset() == items.to_multiset(),
    decreases items.len(),
{
    broadcast use vstd::seq_lib::group_to_multiset_ensures;

    if items.len() == 0 {
        assert(items =~= Seq::<usize>::empty());
        lemma_groups_empty(ids, order, order.len() + 1);
        assert(custom_ordered(items, ids, order) == items);
    } else {
        let init = items.drop_last();
        let x = items.last();
        assert(init.push(x) =~= items);
        custom_order_is_permutation(init, ids, order);
        lemma_groups_push_multiset(init, ids, order, order.len() + 1, x);
        lemma_rank_bounds(order, ids[x as int]);
    }
}

proof fn lemma_groups_empty(ids: Seq<isize>, order: Seq<isize>, k: nat)
    ensures
        groups_upto(Seq::<usize>::empty(), ids, order, k) =~= Seq::<usize>::empty(),
    decreases k,
{
    if k > 0 {
        lemma_groups_empty(ids, order, (k - 1) as nat);
    }
}


/// Where a cell dragged from `from` is inserted when dropped before the
/// cell at `drop`: one less when `drop` lies after `from`, because taking
/// the dragged cell out shifts the later cells down.
pub open spec fn insert_position(from: int, drop: int) -> int {
    if drop > from {
        drop - 1
    } else {
        drop
    }
}

/// The sequence with the element at `from` taken out and put back at `to`.
pub open spec fn moved(s: Seq<usize>, from: int, to: int) -> Seq<usize> {
    s.remove(from).insert(to, s[from])
}

/// Moves the cell dragged from position `from` to where it was dropped,
/// before the cell at `drop`. Returns the cell's new position, or `None`
/// (changing nothing) when it was dropped on itself.
pub fn move_cell(items: &mut Vec<usize>, from: usize, drop: usize) -> (r: Option<usize>)
    requires
        from < old(items)@.len(),
        drop <= old(items)@.len(),
    ensures
        drop == from ==> r is None && final(items)@ == old(items)@,
        drop != from ==> r == Some(insert_position(from as int, drop as int) as usize) && final(items)@
            == moved(old(items)@, from as int, insert_position(from as int, drop as int)),
{
    if drop == from {
        return None;
    }
    let removed = items.remove(from);
    let insert_at = if drop > from {
        drop - 1
    } else {
        drop
    };
    items.insert(insert_at, removed);
    Some(insert_at)
}

/// Moving a cell only reorders: the cells are the same, each as often.
pub proof fn move_is_permutation(s: Seq<usize>, from: int, to: int)
    requires
        0 <= from < s.len(),
        0 <= to < s.len(),
    ensures
        moved(s, from, to).to_multiset() == s.to_multiset(),
        moved(s, from, to).len() == s.len(),
        moved(s, from, to)[to] == s[from],
{
    broadcast use vstd::seq_lib::group_to_multiset_ensures;

    let r = s.remove(from);
    let a = r.subrange(0, to);
    let b = r.subrange(to, r.len() as int);
    assert(r =~= a + b);
    lemma_multiset_commutative(a, b);
    lemma_multiset_commutative(a.push(s[from]), b);
    assert(r.to_multiset().insert(s[from]) =~= s.to_multiset());
}

/// A move is undone by moving the cell back: taking the cell from its new
/// position and putting it back where it came from restores the order.
pub proof fn move_back_restores(s: Seq<usize>, from: int, to: int)
    requires
        0 <= from < s.len(),
        0 <= to < s.len(),
    ensures
        moved(moved(s, from, to), to, from) == s,
{
    let m = moved(s, from, to);
    s.remove_ensures(from);
    s.remove(from).insert_ensures(to, s[from]);
    m.remove_ensures(to);
    m.remove(to).insert_ensures(from, m[to]);
    assert(moved(m, to, from) =~= s);
}

/// The windows whose thumbnails must be hidden: those that have a
/// thumbnail and are not among the shown ones, ascending.
pub open spec fn hidden_windows(has_thumbnail: Seq<bool>, shown: Seq<usize>) -> Seq<usize> {
    indices_where(has_thumbnail.len(), |i: int| has_thumbnail[i] && !shown.contains(i as usize))
}

/// Whether `x` is among `s`.
fn contains_index(s: &[usize], x: usize) -> (r: bool)
    ensures
        r == s@.contains(x),
{
    let n = s.len();
    let mut i: usize = 0;
    while i < n
        invariant
            n == s@.len(),
            i <= n,
            forall|k: int| 0 <= k < i ==> s@[k] != x,
        decreases n - i,
    {
        if s[i] == x {
            assert(s@[i as int] == x);
            return true;
        }
        i += 1;
    }
    false
}

/// The windows whose thumbnails are hidden before the shown ones are laid
/// out: those with a thumbnail that are not shown, ascending.
pub fn windows_to_hide(has_thumbnail: &[bool], shown: &[usize]) -> (r: Vec<usize>)
    ensures
        r@ == hidden_windows(has_thumbnail@, shown@),
{
    let mut out: Vec<usize> = Vec::new();
    let n = has_thumbnail.len();
    let mut i: usize = 0;
    while i < n
        invariant
            n == has_thumbnail@.len(),
            i <= n,
            out@ == indices_where(i as nat, |k: int| has_thumbnail@[k] && !shown@.contains(k as usize)),
        decreases n - i,
    {
        if has_thumbnail[i] && !contains_index(shown, i) {
            out.push(i);
        }
        i += 1;
    }
    out
}


proof fn lemma_indices_where(n: nat, p: spec_fn(int) -> bool)
    requires
        n <= usize::MAX + 1,
    ensures
        forall|k: int| 0 <= k < indices_where(n, p).len() ==> #[trigger] indices_where(n, p)[k] < n && p(indices_where(n, p)[k] as int),
        forall|a: int, b: int| 0 <= a < b < indices_where(n, p).len() ==> #[trigger] indices_where(n, p)[a] < #[trigger] indices_where(n, p)[b],
        forall|i: int| 0 <= i < n && #[trigger] p(i) ==> indices_where(n, p).contains(i as usize),
    decreases n,
{
    if n > 0 {
        lemma_indices_where((n - 1) as nat, p);
        let prev = indices_where((n - 1) as nat, p);
        if p(n - 1) {
            assert(prev.push((n - 1) as usize)[prev.len() as int] == (n - 1) as usize);
            assert forall|i: int| 0 <= i < n && #[trigger] p(i) implies indices_where(n, p).contains(i as usize) by {
                if i < n - 1 {
                    let k = choose|k: int| 0 <= k < prev.len() && prev[k] == i as usize;
                    assert(indices_where(n, p)[k] == i as usize);
                }
            }
        }
    }
}

/// The filter shows exactly the windows whose titles match, each once, in
/// the order they were listed.
pub proof fn filter_shows_exactly_matching(query: Seq<char>, titles: Seq<String>)
    requires
        titles.len() <= usize::MAX,
    ensures
        ({
            let r = matching_indices(query, titles);
            &&& forall|k: int| 0 <= k < r.len() ==> #[trigger] r[k] < titles.len() && query_matches(query, titles[r[k] as int]@)
            &&& forall|a: int, b: int| 0 <= a < b < r.len() ==> #[trigger] r[a] < #[trigger] r[b]
            &&& forall|i: int| 0 <= i < titles.len() && query_matches(query, #[trigger] titles[i]@) ==> r.contains(i as usize)
        }),
{
    let p = |i: int| query_matches(query, titles[i]@);
    lemma_indices_where(titles.len(), p);
    let r = matching_indices(query, titles);
    assert forall|k: int| 0 <= k < r.len() implies #[trigger] r[k] < titles.len() && query_matches(
        query,
        titles[r[k] as int]@,
    ) by {
        assert(p(r[k] as int));
    }
    assert forall|i: int| 0 <= i < titles.len() && query_matches(query, #[trigger] titles[i]@) implies r.contains(
        i as usize,
    ) by {
        assert(p(i));
    }
}


/// Arranging the cells never adds or drops a window: the cells shown are
/// exactly the windows whose titles match, each once, whatever order was
/// saved.
pub proof fn shown_cells_are_the_matching_windows(
    query: Seq<char>,
    titles: Seq<String>,
    ids: Seq<isize>,
    order: Seq<isize>,
)
    ensures
        shown_cells(query, titles, ids, order).to_multiset() == matching_indices(query, titles).to_multiset(),
{
    if order.len() > 0 {
        custom_order_is_permutation(matching_indices(query, titles), ids, order);
    }
}


/// A cell dropped past every cell (at position `len`, as `drop_index`
/// gives there) ends up last.
pub proof fn drop_past_end_moves_cell_last(s: Seq<usize>, from: int)
    requires
        0 <= from < s.len(),
    ensures
        ({
            let m = moved(s, from, insert_position(from, s.len() as int));
            m.len() == s.len() && m.last() == s[from]
        }),
{
    move_is_permutation(s, from, s.len() - 1);
}


/// The thumbnails hidden are exactly those of windows that have one and
/// are not shown, each once, ascending.
pub proof fn hidden_are_exactly_unshown_with_thumbnails(has_thumbnail: Seq<bool>, shown: Seq<usize>)
    requires
        has_thumbnail.len() <= usize::MAX,
    ensures
        ({
            let r = hidden_windows(has_thumbnail, shown);
            &&& forall|k: int| 0 <= k < r.len() ==> #[trigger] r[k] < has_thumbnail.len() && has_thumbnail[r[k] as int]
                && !shown.contains(r[k])
            &&& forall|a: int, b: int| 0 <= a < b < r.len() ==> #[trigger] r[a] < #[trigger] r[b]
            &&& forall|i: int|
                0 <= i < has_thumbnail.len() && #[trigger] has_thumbnail[i] && !shown.contains(i as usize)
                    ==> r.contains(i as usize)
        }),
{
    let p = |i: int| has_thumbnail[i] && !shown.contains(i as usize);
    lemma_indices_where(has_thumbnail.len(), p);
    let r = hidden_windows(has_thumbnail, shown);
    assert forall|k: int| 0 <= k < r.len() implies #[trigger] r[k] < has_thumbnail.len()
        && has_thumbnail[r[k] as int] && !shown.contains(r[k]) by {
        assert(p(r[k] as int));
    }
    assert forall|i: int|
        0 <= i < has_thumbnail.len() && #[trigger] has_thumbnail[i] && !shown.contains(i as usize) implies r.contains(
        i as usize,
    ) by {
        assert(p(i));
    }
}

} // verus!

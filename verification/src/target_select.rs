//! The choice of a target: one value per area of the board, offered in the order the
//! board configuration gives.
use vstd::prelude::*;
use crate::extension::{BoardConfig, Target, TargetIndex};

verus! {

/// A value that can be chosen for an area, with the cell it stands for.
#[derive(Debug)]
pub struct TargetIndexListItem {
    pub display_value: String,
    pub target_index: TargetIndex,
}

impl TargetIndexListItem {
    /// A copy of the item.
    pub fn duplicate(&self) -> (r: TargetIndexListItem)
        ensures
            r == *self,
    {
        TargetIndexListItem { display_value: self.display_value.clone(), target_index: self.target_index }
    }
}

/// The position of a cell in the order in which values are offered; cells outside the
/// value order come last.
pub open spec fn order_key(value_order: Seq<Vec<i32>>, t: TargetIndex) -> i32 {
    if t.0 < value_order.len() && t.1 < value_order[t.0 as int]@.len() {
        value_order[t.0 as int]@[t.1 as int]
    } else {
        i32::MAX
    }
}

/// Whether item `a` comes before item `b` when sorting stably by key.
pub open spec fn sorts_before(keys: Seq<i32>, a: int, b: int) -> bool {
    keys[a] < keys[b] || (keys[a] == keys[b] && a < b)
}

/// `order` lists every index of `keys` exactly once, ordered by key and, for equal keys,
/// by index: the permutation a stable sort by key produces.
pub open spec fn is_sort_order(order: Seq<usize>, keys: Seq<i32>) -> bool {
    &&& order.len() == keys.len()
    &&& forall|k: int| 0 <= k < order.len() ==> #[trigger] order[k] < keys.len()
    &&& forall|i: int| 0 <= i < keys.len() ==> #[trigger] order.contains(i as usize)
    &&& forall|k1: int, k2: int| 0 <= k1 < k2 < order.len()
        ==> sorts_before(keys, #[trigger] order[k1] as int, #[trigger] order[k2] as int)
}

/// The indices of `keys` in the order of a stable sort by key.
pub fn sort_order(keys: &Vec<i32>) -> (order: Vec<usize>)
    ensures
        is_sort_order(order@, keys@),
{
    let mut order: Vec<usize> = Vec::new();
    let mut i: usize = 0;
    while i < keys.len()
        invariant
            i <= keys@.len(),
            order@.len() == i,
            forall|k: int| 0 <= k < order@.len() ==> #[trigger] order@[k] < i,
            forall|j: int| 0 <= j < i ==> #[trigger] order@.contains(j as usize),
            forall|k1: int, k2: int| 0 <= k1 < k2 < order@.len()
                ==> sorts_before(keys@, #[trigger] order@[k1] as int, #[trigger] order@[k2] as int),
        decreases keys@.len() - i,
    {
        let key = keys[i];
        let mut p: usize = 0;
        while p < order.len() && keys[order[p]] <= key
            invariant
                i < keys@.len(),
                key == keys@[i as int],
                p <= order@.len(),
                forall|k: int| 0 <= k < order@.len() ==> #[trigger] order@[k] < i,
                forall|k: int| 0 <= k < p ==> keys@[#[trigger] order@[k] as int] <= key,
            decreases order@.len() - p,
        {
            p = p + 1;
        }
        let ghost before = order@;
        proof {
            before.insert_ensures(p as int, i);
            assert forall|k: int| p <= k < before.len() implies keys@[#[trigger] before[k] as int] > key by {
                if p < before.len() && k > p {
                    assert(sorts_before(keys@, before[p as int] as int, before[k] as int));
                }
            }
        }
        order.insert(p, i);
        proof {
            let after = order@;
            assert forall|k: int| 0 <= k < after.len() implies #[trigger] after[k] < i + 1 by {
                if k < p {
                    assert(after[k] == before[k]);
                } else if k > p {
                    assert(after[k] == before[k - 1]);
                }
            }
            assert forall|j: int| 0 <= j < i + 1 implies #[trigger] after.contains(j as usize) by {
                if j < i {
                    assert(before.contains(j as usize));
                    let k = choose|k: int| 0 <= k < before.len() && before[k] == j as usize;
                    if k < p {
                        assert(after[k] == before[k]);
                    } else {
                        assert(after[k + 1] == before[k]);
                    }
                } else {
                    assert(after[p as int] == i);
                }
            }
            assert forall|k1: int, k2: int| 0 <= k1 < k2 < after.len()
                implies sorts_before(keys@, #[trigger] after[k1] as int, #[trigger] after[k2] as int) by {
                if k2 < p {
                    assert(after[k1] == before[k1] && after[k2] == before[k2]);
                } else if k2 == p {
                    assert(after[k1] == before[k1]);
                } else if k1 < p {
                    assert(after[k1] == before[k1] && after[k2] == before[k2 - 1]);
                } else if k1 == p {
                    assert(after[k2] == before[k2 - 1]);
                } else {
                    assert(after[k1] == before[k1 - 1] && after[k2] == before[k2 - 1]);
                }
            }
        }
        i = i + 1;
    }
    order
}

/// The keys by which the values offered for an area are sorted.
pub open spec fn item_keys(items: Seq<TargetIndexListItem>, value_order: Seq<Vec<i32>>) -> Seq<i32> {
    Seq::new(items.len(), |j: int| order_key(value_order, items[j].target_index))
}

/// The values offered for an area and the position among them of the value that the
/// current target selects for the area.
///
/// The values are sorted by the value order of the board, stably; the position is that
/// of the first value for the cell the target has for this area, `None` if there is no
/// such value or no target. A board without areas offers nothing.
pub fn create_dropdown_for_area(
    board: &BoardConfig,
    items: &Vec<TargetIndexListItem>,
    current_selection: &Option<Target>,
    area_index: usize,
) -> (r: (Vec<TargetIndexListItem>, Option<usize>))
    ensures
        board is Simple ==> r.0@.len() == 0 && r.1 is None,
        board matches BoardConfig::Area { value_order, .. } ==> {
            &&& exists|order: Seq<usize>| #[trigger] is_sort_order(order, item_keys(items@, value_order@))
                && r.0@.len() == items@.len()
                && forall|k: int| 0 <= k < items@.len() ==> #[trigger] r.0@[k] == items@[order[k] as int]
            &&& match current_selection {
                Some(t) if area_index < t.indices@.len() => match r.1 {
                    Some(k) => k < r.0@.len() && r.0@[k as int].target_index == t.indices@[area_index as int]
                        && forall|j: int| 0 <= j < k ==> (#[trigger] r.0@[j]).target_index != t.indices@[area_index as int],
                    None => forall|j: int| 0 <= j < r.0@.len() ==> (#[trigger] r.0@[j]).target_index != t.indices@[area_index as int],
                },
                _ => r.1 is None,
            }
        },
{
    let value_order = match board {
        BoardConfig::Simple { .. } => {
            return (Vec::new(), None);
        },
        BoardConfig::Area { value_order, .. } => value_order,
    };
    let mut keys: Vec<i32> = Vec::new();
    let mut j: usize = 0;
    while j < items.len()
        invariant
            j <= items@.len(),
            keys@.len() == j,
            forall|k: int| 0 <= k < j ==> #[trigger] keys@[k] == order_key(value_order@, items@[k].target_index),
        decreases items@.len() - j,
    {
        let t = items[j].target_index;
        let key = if t.0 < value_order.len() && t.1 < value_order[t.0].len() {
            value_order[t.0][t.1]
        } else {
            i32::MAX
        };
        keys.push(key);
        j = j + 1;
    }
    assert(keys@ =~= item_keys(items@, value_order@));
    let order = sort_order(&keys);
    let mut sorted: Vec<TargetIndexListItem> = Vec::new();
    let mut k: usize = 0;
    while k < order.len()
        invariant
            is_sort_order(order@, keys@),
            keys@.len() == items@.len(),
            k <= order@.len(),
            sorted@.len() == k,
            forall|m: int| 0 <= m < k ==> #[trigger] sorted@[m] == items@[order@[m] as int],
        decreases order@.len() - k,
    {
        sorted.push(items[order[k]].duplicate());
        k = k + 1;
    }
    assert(is_sort_order(order@, item_keys(items@, value_order@)));
    assert(sorted@.len() == items@.len());
    let selected = match current_selection {
        Some(t) => {
            if area_index < t.indices.len() {
                let wanted = t.indices[area_index];
                let mut m: usize = 0;
                while m < sorted.len() && sorted[m].target_index != wanted
                    invariant
                        m <= sorted@.len(),
                        forall|j: int| 0 <= j < m ==> (#[trigger] sorted@[j]).target_index != wanted,
                    decreases sorted@.len() - m,
                {
                    m = m + 1;
                }
                if m < sorted.len() {
                    Some(m)
                } else {
                    None
                }
            } else {
                None
            }
        },
        None => None,
    };
    (sorted, selected)
}

/// The cells chosen in the first `n` areas: for each area the value at its selected
/// position, skipped where the selection is not a position of one of its values.
pub open spec fn chosen_indices(area_items: Seq<Vec<TargetIndexListItem>>, selections: Seq<u32>, n: int) -> Seq<TargetIndex>
    decreases n,
{
    if n <= 0 {
        seq![]
    } else {
        let rest = chosen_indices(area_items, selections, n - 1);
        let items = area_items[n - 1]@;
        let s = selections[n - 1];
        if s < items.len() { rest.push(items[s as int].target_index) } else { rest }
    }
}

/// The target the player chose: for each area, the cell of the value selected for it.
pub fn selected_target(area_items: &Vec<Vec<TargetIndexListItem>>, selections: &Vec<u32>) -> (r: Target)
    requires
        selections@.len() <= area_items@.len(),
    ensures
        r.indices@ == chosen_indices(area_items@, selections@, selections@.len() as int),
{
    let mut indices: Vec<TargetIndex> = Vec::new();
    let mut i: usize = 0;
    while i < selections.len()
        invariant
            selections@.len() <= area_items@.len(),
            i <= selections@.len(),
            indices@ == chosen_indices(area_items@, selections@, i as int),
        decreases selections@.len() - i,
    {
        let sel = selections[i] as usize;
        if sel < area_items[i].len() {
            indices.push(area_items[i][sel].target_index);
        }
        i = i + 1;
    }
    Target { indices }
}

/// The values offered for an area are sorted by the value order of the board: a value for
/// the cell `(a, b)` comes with the number `value_order[a][b]`, or after all numbered ones
/// where the value order has no such entry, and no value comes after one with a smaller
/// number; values with the same number keep the order in which they were given. Each
/// value offered is one of the given values, and each given value is offered.
pub proof fn law_dropdown_follows_value_order(
    items: Seq<TargetIndexListItem>,
    value_order: Seq<Vec<i32>>,
    sorted: Seq<TargetIndexListItem>,
    order: Seq<usize>,
    k1: int,
    k2: int,
)
    requires
        is_sort_order(order, item_keys(items, value_order)),
        items.len() <= usize::MAX,
        sorted.len() == items.len(),
        forall|k: int| 0 <= k < items.len() ==> #[trigger] sorted[k] == items[order[k] as int],
        0 <= k1 < k2 < sorted.len(),
    ensures
        ({
            let t1 = sorted[k1].target_index;
            let t2 = sorted[k2].target_index;
            let n1: int = if t1.0 < value_order.len() && t1.1 < value_order[t1.0 as int]@.len() {
                value_order[t1.0 as int]@[t1.1 as int] as int
            } else {
                i32::MAX as int
            };
            let n2: int = if t2.0 < value_order.len() && t2.1 < value_order[t2.0 as int]@.len() {
                value_order[t2.0 as int]@[t2.1 as int] as int
            } else {
                i32::MAX as int
            };
            &&& n1 <= n2
            &&& n1 == n2 ==> order[k1] < order[k2]
        }),
        exists|i: int| 0 <= i < items.len() && sorted[k1] == #[trigger] items[i],
        forall|i: int| 0 <= i < items.len() ==> exists|k: int| 0 <= k < sorted.len() && sorted[k] == #[trigger] items[i],
{
    let keys = item_keys(items, value_order);
    assert(sorts_before(keys, order[k1] as int, order[k2] as int));
    assert(sorted[k1] == items[order[k1] as int]);
    assert(sorted[k2] == items[order[k2] as int]);
    assert forall|i: int| 0 <= i < items.len() implies exists|k: int| 0 <= k < sorted.len() && sorted[k] == #[trigger] items[i] by {
        assert(order.contains(i as usize));
        let k = choose|k: int| 0 <= k < order.len() && order[k] == i as usize;
        assert(order[k] as int == i);
        assert(sorted[k] == items[order[k] as int]);
    }
}

} // verus!

//! Ordering of stash rows for display.
use vstd::prelude::*;

use crate::text::{chars_lt, chars_of};

verus! {

/// Item rarity tier, from most common to rarest.
#[derive(Clone, Copy, Debug, PartialEq, Eq, Structural)]
pub enum ItemRarity {
    Common,
    Uncommon,
    Rare,
    Epic,
    Legendary,
}

/// Numeric rank of a rarity: higher is rarer.
pub open spec fn rarity_rank_spec(r: ItemRarity) -> u8 {
    match r {
        ItemRarity::Common => 0,
        ItemRarity::Uncommon => 1,
        ItemRarity::Rare => 2,
        ItemRarity::Epic => 3,
        ItemRarity::Legendary => 4,
    }
}

pub fn rarity_rank(r: ItemRarity) -> (rank: u8)
    ensures
        rank == rarity_rank_spec(r),
{
    match r {
        ItemRarity::Common => 0,
        ItemRarity::Uncommon => 1,
        ItemRarity::Rare => 2,
        ItemRarity::Epic => 3,
        ItemRarity::Legendary => 4,
    }
}


/// One stash row as the ordering reads it.
#[derive(Clone, Debug)]
pub struct StashItem {
    pub id: u64,
    pub name: String,
    pub rarity: ItemRarity,
}

/// Persisted stash ordering preference.
#[derive(Clone, Copy, Debug, PartialEq, Eq, Structural)]
pub enum StashSortOrder {
    /// Newest first: the reverse of inventory order.
    Recent,
    /// Rarest first, then by name, then by id.
    RarityName,
}

impl StashSortOrder {
    pub open spec fn toggled(self) -> StashSortOrder {
        match self {
            StashSortOrder::Recent => StashSortOrder::RarityName,
            StashSortOrder::RarityName => StashSortOrder::Recent,
        }
    }

    /// The other ordering (the stash sort button cycles between the two).
    pub fn toggle(self) -> (next: StashSortOrder)
        ensures
            next == self.toggled(),
    {
        match self {
            StashSortOrder::Recent => StashSortOrder::RarityName,
            StashSortOrder::RarityName => StashSortOrder::Recent,
        }
    }
}

/// `a` is shown before `b` under `RarityName`: rarer first, then name, then id.
pub open spec fn item_before(a: StashItem, b: StashItem) -> bool {
    ||| rarity_rank_spec(a.rarity) > rarity_rank_spec(b.rarity)
    ||| rarity_rank_spec(a.rarity) == rarity_rank_spec(b.rarity) && crate::text::seq_lt(a.name@, b.name@)
    ||| rarity_rank_spec(a.rarity) == rarity_rank_spec(b.rarity) && a.name@ == b.name@ && a.id < b.id
}

/// Row `i` is shown before row `j` under `RarityName`; rows with equal keys
/// keep their inventory order (the sort is stable).
pub open spec fn index_before(inv: Seq<StashItem>, i: int, j: int) -> bool {
    ||| item_before(inv[i], inv[j])
    ||| !item_before(inv[j], inv[i]) && i < j
}

/// The display order under `RarityName`: every row exactly once, ordered by `index_before`.
pub open spec fn is_rarity_name_order(inv: Seq<StashItem>, ix: Seq<usize>) -> bool {
    &&& ix.len() == inv.len()
    &&& forall|p: int| 0 <= p < ix.len() ==> #[trigger] ix[p] < inv.len()
    &&& forall|k: usize| k < inv.len() ==> #[trigger] ix.contains(k)
    &&& forall|a: int, b: int| 0 <= a < b < ix.len() ==> index_before(inv, #[trigger] ix[a] as int, #[trigger] ix[b] as int)
}

/// The display order under `Recent`: inventory indices from last to first.
pub open spec fn recent_order(n: nat) -> Seq<usize> {
    Seq::new(n, |k: int| (n - 1 - k) as usize)
}

pub open spec fn stash_order_spec(inv: Seq<StashItem>, order: StashSortOrder, ix: Seq<usize>) -> bool {
    match order {
        StashSortOrder::Recent => ix == recent_order(inv.len()),
        StashSortOrder::RarityName => is_rarity_name_order(inv, ix),
    }
}

proof fn lemma_item_before_asymmetric(a: StashItem, b: StashItem)
    ensures
        item_before(a, b) ==> !item_before(b, a),
{
    crate::text::lemma_seq_lt_asymmetric(a.name@, b.name@);
    crate::text::lemma_seq_lt_irreflexive(a.name@);
}

proof fn lemma_item_before_transitive(a: StashItem, b: StashItem, c: StashItem)
    requires
        item_before(a, b),
        item_before(b, c),
    ensures
        item_before(a, c),
{
    if crate::text::seq_lt(a.name@, b.name@) && crate::text::seq_lt(b.name@, c.name@) {
        crate::text::lemma_seq_lt_transitive(a.name@, b.name@, c.name@);
    }
}

/// Neither row precedes the other exactly when their keys agree.
proof fn lemma_item_neither_before(a: StashItem, b: StashItem)
    ensures
        !item_before(a, b) && !item_before(b, a) <==> (rarity_rank_spec(a.rarity)
            == rarity_rank_spec(b.rarity) && a.name@ == b.name@ && a.id == b.id),
{
    crate::text::lemma_seq_lt_total(a.name@, b.name@);
    crate::text::lemma_seq_lt_irreflexive(a.name@);
}

proof fn lemma_index_before_order(inv: Seq<StashItem>, i: int, j: int, k: int)
    ensures
        i != j ==> index_before(inv, i, j) || index_before(inv, j, i),
        index_before(inv, i, j) ==> !index_before(inv, j, i),
        index_before(inv, i, j) && index_before(inv, j, k) ==> index_before(inv, i, k),
{
    lemma_item_before_asymmetric(inv[i], inv[j]);
    lemma_item_neither_before(inv[i], inv[j]);
    lemma_item_neither_before(inv[j], inv[k]);
    lemma_item_neither_before(inv[i], inv[k]);
    lemma_item_before_asymmetric(inv[i], inv[k]);
    if item_before(inv[i], inv[j]) && item_before(inv[j], inv[k]) {
        lemma_item_before_transitive(inv[i], inv[j], inv[k]);
    }
}

/// `index_before` on rows, with names already split into characters.
fn index_before_exec(inv: &[StashItem], names: &Vec<Vec<char>>, i: usize, j: usize) -> (before: bool)
    requires
        i < inv.len(),
        j < inv.len(),
        names.len() == inv.len(),
        forall|k: int| 0 <= k < inv.len() ==> #[trigger] names@[k]@ == inv@[k].name@,
    ensures
        before == index_before(inv@, i as int, j as int),
{
    let ri = rarity_rank(inv[i].rarity);
    let rj = rarity_rank(inv[j].rarity);
    let ij = if ri != rj {
        ri > rj
    } else if chars_lt(&names[i], &names[j]) {
        true
    } else if chars_lt(&names[j], &names[i]) {
        false
    } else {
        proof {
            crate::text::lemma_seq_lt_total(names@[i as int]@, names@[j as int]@);
        }
        inv[i].id < inv[j].id
    };
    let ji = if ri != rj {
        rj > ri
    } else if chars_lt(&names[j], &names[i]) {
        true
    } else if chars_lt(&names[i], &names[j]) {
        false
    } else {
        proof {
            crate::text::lemma_seq_lt_total(names@[i as int]@, names@[j as int]@);
        }
        inv[j].id < inv[i].id
    };
    proof {
        crate::text::lemma_seq_lt_asymmetric(names@[i as int]@, names@[j as int]@);
    }
    ij || (!ji && i < j)
}

/// Indices into `inventory` in the order rows should be shown.
pub fn stash_display_indices(inventory: &[StashItem], order: StashSortOrder) -> (ix: Vec<usize>)
    ensures
        stash_order_spec(inventory@, order, ix@),
{
    let n = inventory.len();
    match order {
        StashSortOrder::Recent => {
            let mut ix: Vec<usize> = Vec::new();
            let mut k: usize = 0;
            while k < n
                invariant
                    n == inventory@.len(),
                    k <= n,
                    ix@ == recent_order(n as nat).take(k as int),
                decreases n - k,
            {
                ix.push(n - 1 - k);
                k = k + 1;
                assert(ix@ =~= recent_order(n as nat).take(k as int));
            }
            assert(ix@ =~= recent_order(n as nat));
            ix
        },
        StashSortOrder::RarityName => {
            let mut names: Vec<Vec<char>> = Vec::new();
            for i in 0..n
                invariant
                    n == inventory@.len(),
                    names.len() == i,
                    forall|k: int| 0 <= k < i ==> #[trigger] names@[k]@ == inventory@[k].name@,
            {
                names.push(chars_of(inventory[i].name.as_str()));
            }
            let ghost inv = inventory@;
            let mut ix: Vec<usize> = Vec::new();
            for i in 0..n
                invariant
                    n == inv.len(),
                    inv == inventory@,
                    names.len() == n,
                    forall|k: int| 0 <= k < n ==> #[trigger] names@[k]@ == inv[k].name@,
                    ix.len() == i,
                    forall|p: int| 0 <= p < ix.len() ==> #[trigger] ix@[p] < i,
                    forall|k: usize| k < i ==> #[trigger] ix@.contains(k),
                    forall|a: int, b: int|
                        0 <= a < b < ix.len() ==> index_before(inv, #[trigger] ix@[a] as int, #[trigger] ix@[b] as int),
            {
                let mut pos: usize = 0;
                while pos < ix.len() && index_before_exec(inventory, &names, ix[pos], i)
                    invariant
                        n == inv.len(),
                        inv == inventory@,
                        i < n,
                        names.len() == n,
                        forall|k: int| 0 <= k < n ==> #[trigger] names@[k]@ == inv[k].name@,
                        forall|p: int| 0 <= p < ix.len() ==> #[trigger] ix@[p] < i,
                        pos <= ix.len(),
                        forall|e: int| 0 <= e < pos ==> index_before(inv, #[trigger] ix@[e] as int, i as int),
                    decreases ix.len() - pos,
                {
                    pos = pos + 1;
                }
                let ghost old_ix = ix@;
                proof {
                    if pos < old_ix.len() {
                        lemma_index_before_order(inv, old_ix[pos as int] as int, i as int, 0);
                    }
                    assert forall|m: int| pos <= m < old_ix.len() implies index_before(inv, i as int, #[trigger] old_ix[m] as int) by {
                        lemma_index_before_order(inv, old_ix[pos as int] as int, i as int, 0);
                        if m > pos {
                            lemma_index_before_order(inv, i as int, old_ix[pos as int] as int, old_ix[m] as int);
                        }
                    }
                }
                ix.insert(pos, i);
                proof {
                    assert forall|a: int, b: int| 0 <= a < b < ix.len() implies index_before(inv, #[trigger] ix@[a] as int, #[trigger] ix@[b] as int) by {
                        if b < pos {
                            assert(ix@[a] == old_ix[a] && ix@[b] == old_ix[b]);
                        } else if b == pos {
                            assert(ix@[a] == old_ix[a]);
                        } else if a < pos {
                            assert(ix@[a] == old_ix[a] && ix@[b] == old_ix[b - 1]);
                        } else if a == pos {
                            assert(ix@[b] == old_ix[b - 1]);
                        } else {
                            assert(ix@[a] == old_ix[a - 1] && ix@[b] == old_ix[b - 1]);
                        }
                    }
                    assert forall|k: usize| k < i + 1 implies #[trigger] ix@.contains(k) by {
                        if k == i {
                            assert(ix@[pos as int] == i);
                        } else {
                            assert(old_ix.contains(k));
                            let q = choose|q: int| 0 <= q < old_ix.len() && old_ix[q] == k;
                            if q < pos {
                                assert(ix@[q] == k);
                            } else {
                                assert(ix@[q + 1] == k);
                            }
                        }
                    }
                    assert forall|p: int| 0 <= p < ix.len() implies #[trigger] ix@[p] < i + 1 by {
                        if p < pos {
                            assert(ix@[p] == old_ix[p]);
                        } else if p > pos {
                            assert(ix@[p] == old_ix[p - 1]);
                        }
                    }
                }
            }
            ix
        },
    }
}

/// Splits the display indices into a left column (the larger half) and a right column.
pub fn partition_stash_indices(ix: &[usize]) -> (cols: (&[usize], &[usize]))
    ensures
        cols.0@ == ix@.take((ix@.len() + 1) as int / 2),
        cols.1@ == ix@.skip((ix@.len() + 1) as int / 2),
{
    let mid = ix.len() / 2 + ix.len() % 2;
    ix.split_at(mid)
}

proof fn lemma_sorted_same_elements_equal(inv: Seq<StashItem>, x: Seq<usize>, y: Seq<usize>)
    requires
        x.len() == y.len(),
        forall|p: int| 0 <= p < x.len() ==> y.contains(#[trigger] x[p]),
        forall|p: int| 0 <= p < y.len() ==> x.contains(#[trigger] y[p]),
        forall|a: int, b: int| 0 <= a < b < x.len() ==> index_before(inv, #[trigger] x[a] as int, #[trigger] x[b] as int),
        forall|a: int, b: int| 0 <= a < b < y.len() ==> index_before(inv, #[trigger] y[a] as int, #[trigger] y[b] as int),
    ensures
        x == y,
    decreases x.len(),
{
    if x.len() > 0 {
        assert(y.contains(x[0]));
        let q = choose|q: int| 0 <= q < y.len() && y[q] == x[0];
        assert(x.contains(y[0]));
        let p = choose|p: int| 0 <= p < x.len() && x[p] == y[0];
        if q > 0 {
            lemma_index_before_order(inv, y[0] as int, x[0] as int, 0);
            if p == 0 {
                assert(index_before(inv, y[0] as int, y[q] as int));
                lemma_item_before_asymmetric(inv[y[0] as int], inv[y[0] as int]);
            } else {
                assert(index_before(inv, x[0] as int, x[p] as int));
            }
        }
        assert(x[0] == y[0]);
        let xt = x.drop_first();
        let yt = y.drop_first();
        assert forall|i: int| 0 <= i < xt.len() implies yt.contains(#[trigger] xt[i]) by {
            assert(y.contains(x[i + 1]));
            let r = choose|r: int| 0 <= r < y.len() && y[r] == x[i + 1];
            assert(index_before(inv, x[0] as int, x[i + 1] as int));
            lemma_item_before_asymmetric(inv[x[0] as int], inv[x[0] as int]);
            assert(r != 0);
            assert(yt[r - 1] == xt[i]);
        }
        assert forall|i: int| 0 <= i < yt.len() implies xt.contains(#[trigger] yt[i]) by {
            assert(x.contains(y[i + 1]));
            let r = choose|r: int| 0 <= r < x.len() && x[r] == y[i + 1];
            assert(index_before(inv, y[0] as int, y[i + 1] as int));
            lemma_item_before_asymmetric(inv[y[0] as int], inv[y[0] as int]);
            assert(r != 0);
            assert(xt[r - 1] == yt[i]);
        }
        assert forall|a: int, b: int| 0 <= a < b < xt.len() implies index_before(inv, #[trigger] xt[a] as int, #[trigger] xt[b] as int) by {
            assert(index_before(inv, x[a + 1] as int, x[b + 1] as int));
        }
        assert forall|a: int, b: int| 0 <= a < b < yt.len() implies index_before(inv, #[trigger] yt[a] as int, #[trigger] yt[b] as int) by {
            assert(index_before(inv, y[a + 1] as int, y[b + 1] as int));
        }
        lemma_sorted_same_elements_equal(inv, xt, yt);
        assert(x =~= seq![x[0]] + xt);
        assert(y =~= seq![y[0]] + yt);
    } else {
        assert(x =~= y);
    }
}

/// The `RarityName` display order is fully determined by the inventory: two index
/// lists that both list every row once in `index_before` order are the same list.
pub proof fn law_rarity_name_order_unique(inv: Seq<StashItem>, x: Seq<usize>, y: Seq<usize>)
    requires
        is_rarity_name_order(inv, x),
        is_rarity_name_order(inv, y),
    ensures
        x == y,
{
    assert forall|p: int| 0 <= p < x.len() implies y.contains(#[trigger] x[p]) by {
        assert(x[p] < inv.len());
    }
    assert forall|p: int| 0 <= p < y.len() implies x.contains(#[trigger] y[p]) by {
        assert(y[p] < inv.len());
    }
    lemma_sorted_same_elements_equal(inv, x, y);
}

/// Rarity ranks climb with the tiers: Common, Uncommon, Rare, Epic, Legendary.
pub proof fn law_rarity_rank_climbs_with_tier()
    ensures
        rarity_rank_spec(ItemRarity::Common) < rarity_rank_spec(ItemRarity::Uncommon),
        rarity_rank_spec(ItemRarity::Uncommon) < rarity_rank_spec(ItemRarity::Rare),
        rarity_rank_spec(ItemRarity::Rare) < rarity_rank_spec(ItemRarity::Epic),
        rarity_rank_spec(ItemRarity::Epic) < rarity_rank_spec(ItemRarity::Legendary),
{
}

/// Under `RarityName` no row is shown after a less rare one, and among rows of one
/// rarity no row is shown after one whose name sorts later.
pub proof fn law_rarer_rows_first(inv: Seq<StashItem>, ix: Seq<usize>, a: int, b: int)
    requires
        stash_order_spec(inv, StashSortOrder::RarityName, ix),
        0 <= a < b < ix.len(),
    ensures
        rarity_rank_spec(inv[ix[a] as int].rarity) >= rarity_rank_spec(inv[ix[b] as int].rarity),
        rarity_rank_spec(inv[ix[a] as int].rarity) == rarity_rank_spec(inv[ix[b] as int].rarity)
            ==> !crate::text::seq_lt(inv[ix[b] as int].name@, inv[ix[a] as int].name@),
{
    assert(index_before(inv, ix[a] as int, ix[b] as int));
    crate::text::lemma_seq_lt_asymmetric(inv[ix[a] as int].name@, inv[ix[b] as int].name@);
}

/// Toggling the stash order twice restores it.
pub proof fn law_toggle_involutive(order: StashSortOrder)
    ensures
        order.toggled().toggled() == order,
{
}

} // verus!

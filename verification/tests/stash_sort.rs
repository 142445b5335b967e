use idle_dungeons::stash_sort::{
    partition_stash_indices, rarity_rank, stash_display_indices, ItemRarity, StashItem,
    StashSortOrder,
};

fn item(id: u64, name: &str, rarity: ItemRarity) -> StashItem {
    StashItem { id, name: name.to_string(), rarity }
}

#[test]
fn recent_reverses_vec_order() {
    let inv = vec![
        item(1, "A", ItemRarity::Common),
        item(2, "B", ItemRarity::Rare),
    ];
    let ix = stash_display_indices(&inv, StashSortOrder::Recent);
    assert_eq!(ix, vec![1, 0]);
}

#[test]
fn rarity_name_sorts_rare_first_then_name() {
    let inv = vec![
        item(10, "Zebra", ItemRarity::Common),
        item(20, "Apple", ItemRarity::Rare),
        item(30, "Mango", ItemRarity::Rare),
        item(40, "Banana", ItemRarity::Uncommon),
    ];
    let ix = stash_display_indices(&inv, StashSortOrder::RarityName);
    assert_eq!(
        ix.iter().map(|&i| inv[i].id).collect::<Vec<_>>(),
        vec![20, 30, 40, 10]
    );
}

#[test]
fn rarity_name_breaks_name_ties_by_id_then_keeps_inventory_order() {
    let inv = vec![
        item(7, "Axe", ItemRarity::Epic),
        item(3, "Axe", ItemRarity::Epic),
        item(3, "Axe", ItemRarity::Epic),
        item(1, "Zed", ItemRarity::Legendary),
        item(9, "Axe", ItemRarity::Common),
    ];
    let ix = stash_display_indices(&inv, StashSortOrder::RarityName);
    assert_eq!(ix, vec![3, 1, 2, 0, 4]);
}

#[test]
fn rarity_name_compares_names_by_code_point() {
    let inv = vec![
        item(1, "apple", ItemRarity::Rare),
        item(2, "Zebra", ItemRarity::Rare),
        item(3, "App", ItemRarity::Rare),
        item(4, "Äpfel", ItemRarity::Rare),
    ];
    let ix = stash_display_indices(&inv, StashSortOrder::RarityName);
    assert_eq!(ix, vec![2, 1, 0, 3]);
}

#[test]
fn empty_stash_has_no_rows() {
    let inv: Vec<StashItem> = Vec::new();
    assert!(stash_display_indices(&inv, StashSortOrder::Recent).is_empty());
    assert!(stash_display_indices(&inv, StashSortOrder::RarityName).is_empty());
}

#[test]
fn rarity_rank_orders_tiers() {
    assert_eq!(rarity_rank(ItemRarity::Common), 0);
    assert_eq!(rarity_rank(ItemRarity::Uncommon), 1);
    assert_eq!(rarity_rank(ItemRarity::Rare), 2);
    assert_eq!(rarity_rank(ItemRarity::Epic), 3);
    assert_eq!(rarity_rank(ItemRarity::Legendary), 4);
}

#[test]
fn toggle_twice_restores_order() {
    assert_eq!(StashSortOrder::Recent.toggle(), StashSortOrder::RarityName);
    assert_eq!(StashSortOrder::RarityName.toggle(), StashSortOrder::Recent);
    assert_eq!(StashSortOrder::Recent.toggle().toggle(), StashSortOrder::Recent);
}

#[test]
fn partition_puts_extra_row_on_the_left() {
    let ix = [4usize, 2, 0, 1, 3];
    let (l, r) = partition_stash_indices(&ix);
    assert_eq!(l, &[4, 2, 0]);
    assert_eq!(r, &[1, 3]);
    let even = [1usize, 0];
    let (l, r) = partition_stash_indices(&even);
    assert_eq!(l, &[1]);
    assert_eq!(r, &[0]);
    let (l, r) = partition_stash_indices(&[]);
    assert!(l.is_empty() && r.is_empty());
}

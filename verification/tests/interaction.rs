use idle_dungeons::interaction::{
    active_scope, capture_click_target, entity_in_ui_subtree, pick_hover, pick_pressed,
    region_for_scope, tooltip_interaction_ok, ui_click_release_confirms, ActiveInspectScope,
    BlockingModal, HoverPriority, click_effect, resolve_clicked_action, ClickEffect, UiClickAction, InspectRegionScope, Interaction, PressMarkers, PressedButton,
};

#[test]
fn entity_in_ui_subtree_walks_parent_chain() {
    let root = 1u64;
    let mid = 2u64;
    let leaf = 3u64;
    let parents = vec![(leaf, mid), (mid, root)];
    assert!(entity_in_ui_subtree(leaf, root, &parents));
    assert!(entity_in_ui_subtree(mid, root, &parents));
    assert!(entity_in_ui_subtree(root, root, &parents));
    assert!(!entity_in_ui_subtree(99, root, &parents));
}

#[test]
fn subtree_walk_stops_above_root_branch() {
    let parents = vec![(5, 4), (4, 9), (9, 10)];
    assert!(!entity_in_ui_subtree(5, 1, &parents));
    assert!(entity_in_ui_subtree(5, 9, &parents));
}

#[test]
fn scope_priority() {
    assert_eq!(active_scope(true, true, true, false, false), ActiveInspectScope::GearHub);
    assert_eq!(active_scope(false, true, true, false, false), ActiveInspectScope::SkillShop);
    assert_eq!(active_scope(false, false, false, false, true), ActiveInspectScope::Camp);
    assert_eq!(active_scope(false, false, false, false, false), ActiveInspectScope::Inactive);
    assert_eq!(region_for_scope(ActiveInspectScope::Camp), Some(InspectRegionScope::Camp));
    assert_eq!(region_for_scope(ActiveInspectScope::Inactive), None);
}

#[test]
fn hover_highest_priority_first_wins() {
    assert_eq!(pick_hover(&vec![]), None);
    let c = vec![
        HoverPriority::Hint,
        HoverPriority::StashItem,
        HoverPriority::GearSlot,
        HoverPriority::StashItem,
    ];
    assert_eq!(pick_hover(&c), Some(1));
    assert_eq!(pick_hover(&vec![HoverPriority::SkillShop, HoverPriority::SkillSlot]), Some(1));
}

#[test]
fn interaction_predicates() {
    assert!(ui_click_release_confirms(Interaction::Idle));
    assert!(ui_click_release_confirms(Interaction::Pressed));
    assert!(ui_click_release_confirms(Interaction::Hovered));
    assert!(tooltip_interaction_ok(Interaction::Hovered));
    assert!(tooltip_interaction_ok(Interaction::Pressed));
    assert!(!tooltip_interaction_ok(Interaction::Idle));
}

#[test]
fn pressed_lowest_tier_then_bits() {
    assert_eq!(pick_pressed(&vec![]), None);
    assert_eq!(pick_pressed(&vec![(2, 5), (1, 9), (1, 7), (1, 7)]), Some(2));
}

fn no_markers() -> PressMarkers {
    PressMarkers {
        presentation_settings_toggle: false,
        reset: false,
        settings_close: false,
        settings_backdrop: false,
        skill_book_backdrop: false,
        shop_buy: false,
        shop_close: false,
        shop_backdrop: false,
        equip: false,
        salvage: false,
        stash_sort: false,
        gear_close: false,
        gear_backdrop: false,
        playback_speed_dec: false,
        playback_speed_inc: false,
    }
}

#[test]
fn capture_in_gear_hub_prefers_equip_over_backdrop() {
    let backdrop = PressedButton { bits: 3, in_open_modal: true, markers: PressMarkers { gear_backdrop: true, ..no_markers() } };
    let equip = PressedButton { bits: 8, in_open_modal: true, markers: PressMarkers { equip: true, ..no_markers() } };
    let below = PressedButton { bits: 1, in_open_modal: false, markers: PressMarkers { equip: true, ..no_markers() } };
    assert_eq!(capture_click_target(Some(BlockingModal::GearHub), &vec![backdrop, equip, below]), Some(8));
    assert_eq!(capture_click_target(Some(BlockingModal::GearHub), &vec![below]), None);
    let book_backdrop = PressedButton { bits: 3, in_open_modal: true, markers: PressMarkers { skill_book_backdrop: true, ..no_markers() } };
    assert_eq!(capture_click_target(Some(BlockingModal::SkillBook), &vec![book_backdrop, equip]), Some(8));
    assert_eq!(capture_click_target(Some(BlockingModal::SkillBook), &vec![backdrop, equip]), Some(3));
}

#[test]
fn capture_without_modal_prefers_speed_buttons() {
    let plain = PressedButton { bits: 2, in_open_modal: false, markers: no_markers() };
    let speed = PressedButton { bits: 9, in_open_modal: false, markers: PressMarkers { playback_speed_inc: true, ..no_markers() } };
    assert_eq!(capture_click_target(None, &vec![plain, speed]), Some(9));
    let plain2 = PressedButton { bits: 1, ..plain };
    assert_eq!(capture_click_target(None, &vec![plain, plain2]), Some(1));
    assert_eq!(capture_click_target(None, &vec![]), None);
}

#[test]
fn release_on_captured_control_resolves_its_action() {
    let buttons = vec![
        (4u64, Interaction::Hovered, UiClickAction::StartRun),
        (7u64, Interaction::Idle, UiClickAction::TitleQuit),
        (7u64, Interaction::Pressed, UiClickAction::ResetProgress),
    ];
    assert_eq!(resolve_clicked_action(true, Some(7), &buttons), Some(UiClickAction::TitleQuit));
    assert_eq!(resolve_clicked_action(false, Some(7), &buttons), None);
    assert_eq!(resolve_clicked_action(true, None, &buttons), None);
    assert_eq!(resolve_clicked_action(true, Some(9), &buttons), None);
    assert_eq!(click_effect(UiClickAction::TitleEnterCamp), ClickEffect::EnterCamp);
    assert_eq!(click_effect(UiClickAction::TitleQuit), ClickEffect::Quit);
    assert_eq!(click_effect(UiClickAction::StartRun), ClickEffect::StartRun);
    assert_eq!(click_effect(UiClickAction::SkipPlayback), ClickEffect::SkipPlayback);
    assert_eq!(click_effect(UiClickAction::AcceptRewards), ClickEffect::AcceptRewards);
    assert_eq!(click_effect(UiClickAction::ResetProgress), ClickEffect::ResetProgress);
    assert_eq!(click_effect(UiClickAction::OpenSettings), ClickEffect::NoEffect);
    assert_eq!(click_effect(UiClickAction::CloseSettings), ClickEffect::NoEffect);
}

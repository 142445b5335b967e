use idle_dungeons::theme::{
    format_item_affix_lines, format_item_stat_summary, log_line_present,
    playback_debuff_line_string, playback_debuff_line_tone, playback_float_text_color,
    playback_log_plain, CombatSfxAnchor, FontRole, ItemStatTotals, UiTone,
    PLAYBACK_DEBUFF_SLOT_SEP,
};

#[test]
fn float_poison_tick_uses_venom_green_on_foe_anchor() {
    let c = playback_float_text_color("Poison deals 3 damage (2 stacks).", CombatSfxAnchor::Enemy);
    assert_eq!(c, UiTone::StatusPoison);
}

#[test]
fn float_cleave_splash_is_ability_gold_on_foe_anchor() {
    let c = playback_float_text_color("… Cleave hits foe 2 for 5.", CombatSfxAnchor::Enemy);
    assert_eq!(c, UiTone::MutedGold);
}

#[test]
fn float_tones_for_party_and_neutral_anchors() {
    assert_eq!(playback_float_text_color("Hero RECOVERS 4", CombatSfxAnchor::Lead), UiTone::Healing);
    assert_eq!(playback_float_text_color("The foe hits you for 3", CombatSfxAnchor::Lead), UiTone::Danger);
    assert_eq!(playback_float_text_color("Ability: 4 white and 2", CombatSfxAnchor::Ally), UiTone::MutedGold);
    assert_eq!(playback_float_text_color("Strike lands", CombatSfxAnchor::Ally), UiTone::MutedCream);
    assert_eq!(playback_float_text_color("Poison ticks", CombatSfxAnchor::Lead), UiTone::StatusPoison);
    assert_eq!(playback_float_text_color("Takes 5 damage", CombatSfxAnchor::Lead), UiTone::Danger);
    assert_eq!(playback_float_text_color("Waits", CombatSfxAnchor::Lead), UiTone::MutedCream);
    assert_eq!(playback_float_text_color("Foe defeated", CombatSfxAnchor::Enemy), UiTone::Treasure);
    assert_eq!(playback_float_text_color("Thorns bite", CombatSfxAnchor::Enemy), UiTone::MutedGold);
    assert_eq!(playback_float_text_color("Foe defeated", CombatSfxAnchor::Neutral), UiTone::MutedCream);
}

#[test]
fn log_line_styles() {
    assert_eq!(log_line_present("A Gate Warden falls"), (UiTone::MutedGold, FontRole::Strong));
    assert_eq!(log_line_present("the warden falls"), (UiTone::BodyDim, FontRole::Compact));
    assert_eq!(log_line_present("Depth 8: DEFEATED BY Hollow"), (UiTone::Danger, FontRole::Subline));
    assert_eq!(log_line_present("An Elite ambush"), (UiTone::Elite, FontRole::Section));
    assert_eq!(log_line_present("Poison lingers"), (UiTone::StatusPoison, FontRole::Subline));
    assert_eq!(log_line_present("A quiet SHRINE"), (UiTone::Healing, FontRole::Subline));
    assert_eq!(log_line_present("Found 3 gold"), (UiTone::Treasure, FontRole::Subline));
    assert_eq!(log_line_present("A treasure chest"), (UiTone::Treasure, FontRole::Subline));
    assert_eq!(log_line_present("Rat defeated"), (UiTone::Body, FontRole::Body));
    assert_eq!(log_line_present("Depth 2"), (UiTone::BodyDim, FontRole::Compact));
}

#[test]
fn debuff_line_tags_poison_slots() {
    let line = ["Poison  x3 (2s)  ", PLAYBACK_DEBUFF_SLOT_SEP, "   Slow 1", PLAYBACK_DEBUFF_SLOT_SEP, "Weak"].concat();
    let expected = ["[Poison] x3 (2s)", PLAYBACK_DEBUFF_SLOT_SEP, "Slow 1", PLAYBACK_DEBUFF_SLOT_SEP, "Weak"].concat();
    assert_eq!(playback_debuff_line_string(&line), expected);
    assert_eq!(playback_debuff_line_string("Poison"), "[Poison] ");
    assert_eq!(playback_debuff_line_string(""), "");
    assert_eq!(playback_debuff_line_tone(&line), UiTone::StatusPoison);
    assert_eq!(playback_debuff_line_tone("Slow"), UiTone::BodyDim);
}

#[test]
fn log_plain_joins_with_newlines() {
    assert_eq!(playback_log_plain(&["a".to_string(), "b".to_string()]), "a\nb");
    assert_eq!(playback_log_plain(&[]), "");
}

#[test]
fn affix_lines_are_bulleted() {
    assert_eq!(format_item_affix_lines(&vec![]), "");
    assert_eq!(
        format_item_affix_lines(&vec!["+2 armor".to_string(), "Thorns".to_string()]),
        "• +2 armor\n• Thorns"
    );
}

#[test]
fn stat_summary_lists_non_zero_modifiers() {
    let none = ItemStatTotals { max_health: 0, damage: 0, armor: 0, healing_power: 0, attack_speed_text: None };
    assert_eq!(format_item_stat_summary(&none), "No stat modifiers.");
    let some = ItemStatTotals {
        max_health: 5,
        damage: -2,
        armor: 0,
        healing_power: 3,
        attack_speed_text: Some("+0.1".to_string()),
    };
    assert_eq!(format_item_stat_summary(&some), "HP +5 · DMG -2 · HEAL +3 · ATK SPD +0.1");
}

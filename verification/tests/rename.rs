use idle_dungeons::rename::{
    accept_typed_text, apply_hero_name, backspace, finalize_hero_name, rename_step,
    HeroNameEditState, RenameKeys, RenameOutcome,
};
use idle_dungeons::session::{HeroProfile, SaveProfile};

const NO_KEYS: RenameKeys = RenameKeys { escape: false, enter: false, backspace: false };

#[test]
fn finalize_trims_cuts_and_defaults() {
    assert_eq!(finalize_hero_name("  Ada  ", "Wanderer", 16), "Ada");
    assert_eq!(finalize_hero_name(" \t ", "Wanderer", 16), "Wanderer");
    assert_eq!(finalize_hero_name("Bartholomew", "Wanderer", 4), "Bart");
}

#[test]
fn typing_filters_controls_and_limits_length() {
    let mut b = String::from("Ad");
    accept_typed_text(&mut b, "a\r\n\u{7}x", 16);
    assert_eq!(b, "Adax");
    accept_typed_text(&mut b, "yz", 5);
    assert_eq!(b, "Adaxy");
    backspace(&mut b);
    assert_eq!(b, "Adax");
    let mut empty = String::new();
    backspace(&mut empty);
    assert_eq!(empty, "");
}

#[test]
fn rename_frame_flow() {
    let typed = vec!["Zo".to_string(), "e".to_string()];
    let mut idle = HeroNameEditState::default();
    assert!(matches!(rename_step(&mut idle, true, false, NO_KEYS, &typed, "Wanderer", 16), RenameOutcome::Ignored));
    assert_eq!(idle.buffer, "");

    let mut e = HeroNameEditState { active_slot: Some(1), buffer: "Ab".to_string() };
    assert!(matches!(rename_step(&mut e, true, true, NO_KEYS, &typed, "Wanderer", 16), RenameOutcome::Ignored));
    assert_eq!(e.buffer, "Ab");
    let keys = RenameKeys { backspace: true, ..NO_KEYS };
    assert!(matches!(rename_step(&mut e, true, false, keys, &typed, "Wanderer", 16), RenameOutcome::Edited));
    assert_eq!(e.buffer, "AZoe");
    let enter = RenameKeys { enter: true, ..NO_KEYS };
    match rename_step(&mut e, true, false, enter, &typed, "Wanderer", 16) {
        RenameOutcome::Committed { slot, name } => {
            assert_eq!(slot, 1);
            assert_eq!(name, "AZoe");
        }
        other => panic!("unexpected {other:?}"),
    }
    assert_eq!(e.active_slot, None);
    assert_eq!(e.buffer, "");

    let mut c = HeroNameEditState { active_slot: Some(0), buffer: "x".to_string() };
    assert!(matches!(rename_step(&mut c, false, false, NO_KEYS, &typed, "W", 16), RenameOutcome::Cancelled));
    assert_eq!(c.active_slot, None);
    let mut d = HeroNameEditState { active_slot: Some(0), buffer: "x".to_string() };
    let esc = RenameKeys { escape: true, enter: true, backspace: false };
    assert!(matches!(rename_step(&mut d, true, false, esc, &typed, "W", 16), RenameOutcome::Cancelled));
}

#[test]
fn apply_name_to_slots() {
    let hero = |n: &str| HeroProfile { name: n.to_string(), unlocked_skill_slots: 1, equipped_skills: vec![] };
    let mut p = SaveProfile { hero: hero("A"), party_partner: Some(hero("B")) };
    apply_hero_name(&mut p, 0, "Lead".to_string());
    apply_hero_name(&mut p, 1, "Mate".to_string());
    apply_hero_name(&mut p, 2, "Nobody".to_string());
    assert_eq!(p.hero.name, "Lead");
    assert_eq!(p.party_partner.as_ref().unwrap().name, "Mate");
    let mut solo = SaveProfile { hero: hero("A"), party_partner: None };
    apply_hero_name(&mut solo, 1, "Mate".to_string());
    assert!(solo.party_partner.is_none());
    assert_eq!(solo.hero.name, "A");
}

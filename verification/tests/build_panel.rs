use idle_dungeons::build_panel::{build_panel_text, BuildPanelHero, LoadoutSkill};

fn skill(name: &str, abbr: &str, label: &str) -> Option<LoadoutSkill> {
    Some(LoadoutSkill {
        name: name.to_string(),
        category_abbr: abbr.to_string(),
        category_label: label.to_string(),
    })
}

fn hero(unlocked: usize, equipped: Vec<Option<LoadoutSkill>>, warnings: Vec<&str>) -> BuildPanelHero {
    BuildPanelHero {
        unlocked_skill_slots: unlocked,
        equipped_skills: equipped,
        max_health: 40,
        damage: 6,
        armor: -1,
        layering_warnings: warnings.into_iter().map(String::from).collect(),
    }
}

#[test]
fn build_panel_text_lists_skill_slots_and_stats() {
    let h = hero(
        1,
        vec![skill("Guard", "Rxn", "Reaction"), None, None, None, None, None],
        vec![],
    );

    let text = build_panel_text(&h);

    assert!(text.contains("Skill Slots"));
    assert!(text.contains("Max Health"));
    assert!(text.contains("Loadout:"));
    assert!(
        text.contains("Guard") || text.contains("Rxn"),
        "expected category chip or skill name in {}",
        text
    );
}

#[test]
fn build_panel_shows_layering_when_heavy_and_cleave() {
    let h = hero(
        2,
        vec![
            skill("Heavy Strike", "Atk", "Attack"),
            skill("Cleave", "Atk", "Attack"),
            None,
            None,
            None,
            None,
        ],
        vec!["Heavy Strike and Cleave share the weapon swing."],
    );
    let text = build_panel_text(&h);
    assert!(text.contains("Cleave") && text.contains("Heavy"), "{text}");
}

#[test]
fn build_panel_exact_text() {
    let h = hero(
        3,
        vec![skill("Guard", "Rxn", "Reaction"), None, skill("Cleave", "Atk", "Attack"), None],
        vec!["first note", "second note"],
    );
    assert_eq!(
        build_panel_text(&h),
        "Skill Slots: 3/4\nMax Health: 40\nDamage: 6\nArmor: -1\n\nLoadout:\n  1. Guard [Rxn — Reaction]\n  2. (empty slot)\n  3. Cleave [Atk — Attack]\n\nfirst note\nsecond note"
    );
}

#[test]
fn build_panel_without_slots_or_warnings() {
    let h = hero(0, vec![None, None], vec![]);
    assert_eq!(
        build_panel_text(&h),
        "Skill Slots: 0/2\nMax Health: 40\nDamage: 6\nArmor: -1"
    );
    let more_unlocked_than_listed = hero(5, vec![None], vec![]);
    assert_eq!(
        build_panel_text(&more_unlocked_than_listed),
        "Skill Slots: 5/1\nMax Health: 40\nDamage: 6\nArmor: -1\n\nLoadout:\n  1. (empty slot)"
    );
}

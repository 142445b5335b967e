use idle_dungeons::summary_panel::{
    empty_run_summary, narrative_highlights, outcome_headline, reward_digest,
    summary_panel_text, RunOutcome, RunSummary, DEFAULT_RUN_MAX_DEPTH,
};

fn summary(outcome: RunOutcome, log: Vec<&str>) -> RunSummary {
    RunSummary {
        outcome,
        deepest_depth: 8,
        floors_cleared: 7,
        dungeon_depth_cap: DEFAULT_RUN_MAX_DEPTH,
        gold_earned: 30,
        salvage_earned: 5,
        loot: Vec::new(),
        death_reason: Some("Defeated by Hollow".into()),
        log: log.into_iter().map(String::from).collect(),
        peak_risk_note: String::new(),
        guided_early_combat_drop_granted: false,
        encounter_score: 0,
        party_strike_damage_white: 0,
        party_strike_damage_yellow: 0,
    }
}

#[test]
fn summary_text_reports_depth_gold_and_outcome() {
    let summary = RunSummary {
        outcome: RunOutcome::HeroDied,
        deepest_depth: 8,
        floors_cleared: 7,
        dungeon_depth_cap: DEFAULT_RUN_MAX_DEPTH,
        gold_earned: 30,
        salvage_earned: 5,
        loot: Vec::new(),
        death_reason: Some("Defeated by Hollow".into()),
        log: vec!["Depth 8: defeated by Hollow".into()],
        peak_risk_note: "Peak room risk: moderate (standard combat).".into(),
        guided_early_combat_drop_granted: false,
        encounter_score: 0,
        party_strike_damage_white: 60,
        party_strike_damage_yellow: 40,
    };

    let text = summary_panel_text(&summary);

    assert!(text.contains("depth 8"));
    assert!(text.contains("Gold +30"));
    assert!(text.contains("Encounter score"));
    assert!(text.contains("40% abilities"));
    assert!(text.contains("60 white"));
    assert!(text.contains("40 yellow"));
    assert!(text.contains("Defeated by Hollow"));
    assert!(text.contains("Peak room risk"));
}

#[test]
fn headline_for_victory_and_for_fall() {
    let mut s = summary(RunOutcome::BossDefeated, vec![]);
    assert_eq!(
        outcome_headline(&s),
        ["Victory - reached depth 8 before sealing the ", "gate."].concat()
    );
    s.outcome = RunOutcome::HeroDied;
    assert_eq!(outcome_headline(&s), "Fallen - depth 8. Defeated by Hollow");
    s.death_reason = None;
    s.deepest_depth = 120;
    assert_eq!(
        outcome_headline(&s),
        "Fallen - depth 120. The delve ends in darkness."
    );
}

#[test]
fn reward_digest_without_and_with_strike_damage() {
    let mut s = summary(RunOutcome::HeroDied, vec![]);
    assert_eq!(
        reward_digest(&s),
        "Rewards pending - Gold +30 · Salvage +5 · Encounter score 0 · Loot pieces: 0"
    );
    s.party_strike_damage_white = 1;
    s.party_strike_damage_yellow = 2;
    s.encounter_score = 1007;
    assert_eq!(
        reward_digest(&s),
        "Rewards pending - Gold +30 · Salvage +5 · Encounter score 1007 · Loot pieces: 0\nStrike damage: 67% abilities · 1 white · 2 yellow"
    );
}

#[test]
fn strike_share_rounds_to_whole_percent() {
    let mut s = summary(RunOutcome::HeroDied, vec![]);
    assert_eq!(s.strike_ability_share_percent(), None);
    s.party_strike_damage_white = 60;
    s.party_strike_damage_yellow = 40;
    assert_eq!(s.strike_ability_share_percent(), Some(40));
    s.party_strike_damage_white = 0;
    s.party_strike_damage_yellow = 9;
    assert_eq!(s.strike_ability_share_percent(), Some(100));
    s.party_strike_damage_white = 199;
    s.party_strike_damage_yellow = 1;
    assert_eq!(s.strike_ability_share_percent(), Some(1));
    s.party_strike_damage_white = u64::MAX;
    s.party_strike_damage_yellow = u64::MAX;
    assert_eq!(s.strike_ability_share_percent(), Some(50));
}

#[test]
fn narrative_picks_highlights_case_insensitively() {
    let s = summary(
        RunOutcome::HeroDied,
        vec![
            "Depth 1: quiet hall",
            "The WARDEN stirs",
            "Found 3 gold",
            "Nothing here",
            "An Elite ambush",
        ],
    );
    assert_eq!(
        narrative_highlights(&s),
        vec!["The WARDEN stirs", "Found 3 gold", "An Elite ambush"]
    );
}

#[test]
fn narrative_falls_back_to_first_line_or_nothing() {
    let s = summary(RunOutcome::HeroDied, vec!["Depth 1: quiet", "Depth 2: calm"]);
    assert_eq!(narrative_highlights(&s), vec!["Depth 1: quiet"]);
    let empty = summary(RunOutcome::HeroDied, vec![]);
    assert!(narrative_highlights(&empty).is_empty());
}

#[test]
fn summary_text_exact_layout_and_long_log() {
    let lines: Vec<String> = (1..=14).map(|i| format!("Depth {i}: room")).collect();
    let mut s = summary(RunOutcome::BossDefeated, vec![]);
    s.log = lines.clone();
    let text = summary_panel_text(&s);
    let mut expected = ["Victory - reached depth 8 before sealing the ", "gate.\n"].concat();
    expected.push_str("Rewards pending - Gold +30 · Salvage +5 · Encounter score 0 · Loot pieces: 0");
    expected.push_str("\n\n- Chronicle -\nDepth 1: room\n");
    expected.push_str("\n… full log on the scroll …\n");
    expected.push_str("\n- Full log -\n");
    for l in lines.iter().take(12) {
        expected.push_str(l);
        expected.push('\n');
    }
    assert_eq!(text, expected);
}

#[test]
fn empty_summary_has_no_chronicle() {
    let s = empty_run_summary();
    assert_eq!(s.outcome, RunOutcome::HeroDied);
    assert_eq!(s.death_reason.as_deref(), Some("No chronicle available."));
    assert_eq!(
        summary_panel_text(&s),
        "Fallen - depth 0. No chronicle available.\nRewards pending - Gold +0 · Salvage +0 · Encounter score 0 · Loot pieces: 0\n\n- Chronicle -\n\n- Full log -\n"
    );
}

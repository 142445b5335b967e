use idle_dungeons::session::{
    hero_display_name_for_slot, slots_from_hero,
    BuildcraftEditSession, HeroLoadoutEdit, HeroProfile, InspectTarget, PartyHeroKind,
    SaveProfile, SkillId, LOADOUT_SLOT_COUNT,
};

const GUARD: SkillId = SkillId(1);
const HEAVY_STRIKE: SkillId = SkillId(2);
const CLEAVE: SkillId = SkillId(3);

fn hero(name: &str, unlocked: usize, equipped: Vec<Option<SkillId>>) -> HeroProfile {
    HeroProfile { name: name.to_string(), unlocked_skill_slots: unlocked, equipped_skills: equipped }
}

fn profile(lead: HeroProfile, partner: Option<HeroProfile>) -> SaveProfile {
    SaveProfile { hero: lead, party_partner: partner }
}

#[test]
fn intra_hero_duplicate_evicted_in_pending() {
    let p = profile(hero("Lead", 3, vec![Some(GUARD), None, None, None, None, None]), None);
    let mut session = BuildcraftEditSession::open_from_profile(&p, PartyHeroKind::Player1, 0);
    session.set_focus(PartyHeroKind::Player1, 2);
    session.assign_to_focused(Some(GUARD));
    assert_eq!(session.lead.pending[0], None);
    assert_eq!(session.lead.pending[2], Some(GUARD));
}

#[test]
fn cross_hero_same_skill_allowed() {
    let p = profile(
        hero("Lead", 2, vec![Some(GUARD), None, None, None, None, None]),
        Some(hero("Partner", 2, vec![None; 6])),
    );
    let mut session = BuildcraftEditSession::open_from_profile(&p, PartyHeroKind::Player2, 0);
    session.set_focus(PartyHeroKind::Player2, 0);
    session.assign_to_focused(Some(GUARD));
    assert_eq!(session.lead.pending[0], Some(GUARD));
    assert_eq!(session.partner.as_ref().unwrap().pending[0], Some(GUARD));
}

#[test]
fn open_clamps_focus_and_pads_slots() {
    let p = profile(hero("Lead", 1, vec![Some(CLEAVE)]), None);
    let session = BuildcraftEditSession::open_from_profile(&p, PartyHeroKind::Player1, 40);
    assert_eq!(session.focused, (PartyHeroKind::Player1, LOADOUT_SLOT_COUNT - 1));
    assert_eq!(
        session.hover_inspect,
        InspectTarget::Slot { hero: PartyHeroKind::Player1, index: 5 }
    );
    assert_eq!(session.lead.snapshot, [Some(CLEAVE), None, None, None, None, None]);
    assert_eq!(session.lead.pending, session.lead.snapshot);
    assert_eq!(session.lead.display_name, "Lead");
    assert!(session.partner.is_none());
    assert!(session.loadout(PartyHeroKind::Player2).is_none());
    assert!(!session.is_dirty());
}

#[test]
fn assign_to_locked_slot_or_missing_partner_is_ignored() {
    let p = profile(hero("Lead", 1, vec![None; 6]), None);
    let mut session = BuildcraftEditSession::open_from_profile(&p, PartyHeroKind::Player1, 0);
    session.set_focus(PartyHeroKind::Player1, 3);
    session.assign_to_focused(Some(GUARD));
    assert_eq!(session.lead.pending, [None; 6]);
    session.set_focus(PartyHeroKind::Player2, 0);
    session.assign_to_focused(Some(GUARD));
    assert_eq!(session.lead.pending, [None; 6]);
    assert!(!session.is_dirty());
    session.set_focus(PartyHeroKind::Player1, 9);
    assert_eq!(session.focused, (PartyHeroKind::Player2, 0));
}

#[test]
fn clear_slot_and_dirty_tracking() {
    let p = profile(hero("Lead", 6, vec![Some(GUARD), Some(HEAVY_STRIKE)]), None);
    let mut session = BuildcraftEditSession::open_from_profile(&p, PartyHeroKind::Player1, 1);
    session.assign_to_focused(None);
    assert_eq!(session.lead.slot(1), None);
    assert_eq!(session.lead.slot(0), Some(GUARD));
    assert_eq!(session.lead.slot(99), None);
    assert!(session.is_dirty());
    assert_eq!(session.lead.changed_slots(), vec![(1, None)]);
    session.assign_to_focused(Some(HEAVY_STRIKE));
    assert!(!session.is_dirty());
    assert!(session.lead.changed_slots().is_empty());
}

#[test]
fn changed_slots_lists_differences_in_order() {
    let h = hero("Lead", 6, vec![Some(GUARD), None, Some(CLEAVE)]);
    let mut edit = HeroLoadoutEdit::from_hero(&h, PartyHeroKind::Player1);
    edit.pending = [Some(CLEAVE), None, None, None, Some(GUARD), None];
    assert_eq!(
        edit.changed_slots(),
        vec![(0, Some(CLEAVE)), (2, None), (4, Some(GUARD))]
    );
    assert!(edit.is_changed());
}

#[test]
fn display_names_and_slots_from_hero() {
    let p = profile(hero("Ada", 2, vec![Some(GUARD); 8]), Some(hero("Bo", 1, vec![])));
    assert_eq!(hero_display_name_for_slot(&p, 0), "Ada");
    assert_eq!(hero_display_name_for_slot(&p, 1), "Bo");
    assert_eq!(hero_display_name_for_slot(&p, 2), "");
    let solo = profile(hero("Ada", 2, vec![]), None);
    assert_eq!(hero_display_name_for_slot(&solo, 1), "");
    assert_eq!(slots_from_hero(&p.hero), [Some(GUARD); 6]);
    assert_eq!(slots_from_hero(&solo.hero), [None; 6]);
}

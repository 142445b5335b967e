use idle_dungeons::presentation::{
    camp_seat_assignment_seed, display_family_for_category, player_camp_emoji, room_kind_label,
    skill_kind_label, RoomKind, SkillCategory, SkillDisplayFamily, SkillKind,
};

#[test]
fn display_family_mapping_is_stable() {
    assert_eq!(
        display_family_for_category(SkillCategory::AttackSkill),
        SkillDisplayFamily::Attack
    );
    assert_eq!(
        display_family_for_category(SkillCategory::Reactive),
        SkillDisplayFamily::Reaction
    );
    assert_eq!(
        display_family_for_category(SkillCategory::Passive),
        SkillDisplayFamily::Passive
    );
    assert_eq!(
        display_family_for_category(SkillCategory::Buff),
        SkillDisplayFamily::Sustain
    );
}

#[test]
fn remaining_categories_and_labels() {
    assert_eq!(display_family_for_category(SkillCategory::BasicAttack), SkillDisplayFamily::Attack);
    assert_eq!(display_family_for_category(SkillCategory::Proc), SkillDisplayFamily::Attack);
    assert_eq!(display_family_for_category(SkillCategory::Channel), SkillDisplayFamily::Passive);
    assert_eq!(SkillDisplayFamily::Attack.label(), "Attack");
    assert_eq!(SkillDisplayFamily::Reaction.label(), "Reaction");
    assert_eq!(SkillDisplayFamily::Passive.label(), "Passive");
    assert_eq!(SkillDisplayFamily::Sustain.label(), "Sustain");
    assert_eq!(SkillDisplayFamily::Utility.label(), "Utility");
    assert_eq!(skill_kind_label(SkillKind::Active), "Active");
    assert_eq!(skill_kind_label(SkillKind::Passive), "Passive");
}

#[test]
fn room_labels() {
    assert_eq!(room_kind_label(RoomKind::Monster), "Monster");
    assert_eq!(room_kind_label(RoomKind::Elite), "Elite");
    assert_eq!(room_kind_label(RoomKind::Boss), "Boss");
    assert_eq!(room_kind_label(RoomKind::Treasure), "Treasure");
    assert_eq!(room_kind_label(RoomKind::Shrine), "Shrine");
}

#[test]
fn camp_figures() {
    assert_eq!(player_camp_emoji(0), "\u{1F9DD}");
    assert_eq!(player_camp_emoji(1), "\u{2694}");
    assert_eq!(player_camp_emoji(7), "\u{1F464}");
}

#[test]
fn camp_seed_mixes_progress() {
    assert_eq!(camp_seat_assignment_seed(0, 0, 0), 0xCAFE_5EA7);
    assert_eq!(camp_seat_assignment_seed(0, 3, 4), 7 ^ 0xCAFE_5EA7);
    let expected = 5u64
        .wrapping_mul(0x9E37_79B9_7F4A_7C15)
        .wrapping_add(11)
        .wrapping_add(2)
        ^ 0xCAFE_5EA7;
    assert_eq!(camp_seat_assignment_seed(5, 11, 2), expected);
    assert_eq!(
        camp_seat_assignment_seed(u32::MAX, u32::MAX, u32::MAX),
        (u32::MAX as u64)
            .wrapping_mul(0x9E37_79B9_7F4A_7C15)
            .wrapping_add(u32::MAX as u64)
            .wrapping_add(u32::MAX as u64)
            ^ 0xCAFE_5EA7
    );
}

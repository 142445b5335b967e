//! Player-facing labels and families for skills, rooms and camp seats.
use vstd::prelude::*;

verus! {

/// Domain skill category.
#[derive(Clone, Copy, Debug, PartialEq, Eq, Structural)]
pub enum SkillCategory {
    BasicAttack,
    AttackSkill,
    Buff,
    Reactive,
    Passive,
    Channel,
    Proc,
}

/// Player-facing skill family for frames, chips, and accents.
#[derive(Clone, Copy, Debug, PartialEq, Eq, Structural)]
pub enum SkillDisplayFamily {
    Attack,
    Reaction,
    Passive,
    Sustain,
    Utility,
}

impl SkillDisplayFamily {
    pub open spec fn label_spec(self) -> Seq<char> {
        match self {
            SkillDisplayFamily::Attack => "Attack"@,
            SkillDisplayFamily::Reaction => "Reaction"@,
            SkillDisplayFamily::Passive => "Passive"@,
            SkillDisplayFamily::Sustain => "Sustain"@,
            SkillDisplayFamily::Utility => "Utility"@,
        }
    }

    pub fn label(self) -> (l: &'static str)
        ensures
            l@ == self.label_spec(),
    {
        match self {
            SkillDisplayFamily::Attack => "Attack",
            SkillDisplayFamily::Reaction => "Reaction",
            SkillDisplayFamily::Passive => "Passive",
            SkillDisplayFamily::Sustain => "Sustain",
            SkillDisplayFamily::Utility => "Utility",
        }
    }
}

pub open spec fn display_family_spec(cat: SkillCategory) -> SkillDisplayFamily {
    match cat {
        SkillCategory::BasicAttack | SkillCategory::AttackSkill | SkillCategory::Proc => SkillDisplayFamily::Attack,
        SkillCategory::Reactive => SkillDisplayFamily::Reaction,
        SkillCategory::Passive | SkillCategory::Channel => SkillDisplayFamily::Passive,
        SkillCategory::Buff => SkillDisplayFamily::Sustain,
    }
}

/// Maps a domain category to its canonical display family.
pub fn display_family_for_category(cat: SkillCategory) -> (f: SkillDisplayFamily)
    ensures
        f == display_family_spec(cat),
{
    match cat {
        SkillCategory::BasicAttack | SkillCategory::AttackSkill | SkillCategory::Proc => SkillDisplayFamily::Attack,
        SkillCategory::Reactive => SkillDisplayFamily::Reaction,
        SkillCategory::Passive | SkillCategory::Channel => SkillDisplayFamily::Passive,
        SkillCategory::Buff => SkillDisplayFamily::Sustain,
    }
}

/// Whether a skill is cast or always on.
#[derive(Clone, Copy, Debug, PartialEq, Eq, Structural)]
pub enum SkillKind {
    Active,
    Passive,
}

pub fn skill_kind_label(kind: SkillKind) -> (l: &'static str)
    ensures
        l@ == match kind {
            SkillKind::Active => "Active"@,
            SkillKind::Passive => "Passive"@,
        },
{
    match kind {
        SkillKind::Active => "Active",
        SkillKind::Passive => "Passive",
    }
}

/// Kind of dungeon room.
#[derive(Clone, Copy, Debug, PartialEq, Eq, Structural)]
pub enum RoomKind {
    Monster,
    Elite,
    Boss,
    Treasure,
    Shrine,
}

pub fn room_kind_label(kind: RoomKind) -> (l: &'static str)
    ensures
        l@ == match kind {
            RoomKind::Monster => "Monster"@,
            RoomKind::Elite => "Elite"@,
            RoomKind::Boss => "Boss"@,
            RoomKind::Treasure => "Treasure"@,
            RoomKind::Shrine => "Shrine"@,
        },
{
    match kind {
        RoomKind::Monster => "Monster",
        RoomKind::Elite => "Elite",
        RoomKind::Boss => "Boss",
        RoomKind::Treasure => "Treasure",
        RoomKind::Shrine => "Shrine",
    }
}

/// Figure shown for a player seat at the camp fire.
pub fn player_camp_emoji(player_idx: u8) -> (e: &'static str)
    ensures
        e@ == if player_idx == 0 {
            "\u{1F9DD}"@
        } else if player_idx == 1 {
            "\u{2694}"@
        } else {
            "\u{1F464}"@
        },
{
    match player_idx {
        0 => "\u{1F9DD}",
        1 => "\u{2694}",
        _ => "\u{1F464}",
    }
}

/// Seed for camp seat assignment, mixed from meta progress:
/// `(gold * 0x9E3779B97F4A7C15 + salvage + deepest floor) mod 2^64`, xor `0xCAFE5EA7`.
pub open spec fn camp_seed_spec(gold: u32, salvage: u32, deepest_floor: u32) -> u64 {
    (((gold as nat * 0x9E37_79B9_7F4A_7C15nat + salvage as nat + deepest_floor as nat) % 0x1_0000_0000_0000_0000nat) as u64)
        ^ 0xCAFE_5EA7u64
}

pub fn camp_seat_assignment_seed(gold: u32, salvage: u32, deepest_floor: u32) -> (seed: u64)
    ensures
        seed == camp_seed_spec(gold, salvage, deepest_floor),
{
    let m = (gold as u64).wrapping_mul(0x9E37_79B9_7F4A_7C15);
    let a = m.wrapping_add(salvage as u64);
    let b = a.wrapping_add(deepest_floor as u64);
    proof {
        let g = gold as int;
        let k = 0x9E37_79B9_7F4A_7C15int;
        let w = 0x1_0000_0000_0000_0000int;
        let sv = salvage as int;
        let df = deepest_floor as int;
        assert(m as int == (g * k) % w);
        assert(a as int == (m as int + sv) % w);
        assert(b as int == (a as int + df) % w);
        vstd::arithmetic::div_mod::lemma_add_mod_noop(g * k, sv, w);
        vstd::arithmetic::div_mod::lemma_add_mod_noop(g * k + sv, df, w);
        vstd::arithmetic::div_mod::lemma_mod_twice(sv, w);
        vstd::arithmetic::div_mod::lemma_mod_twice(df, w);
        vstd::arithmetic::div_mod::lemma_small_mod(sv as nat, w as nat);
        vstd::arithmetic::div_mod::lemma_small_mod(df as nat, w as nat);
        vstd::arithmetic::div_mod::lemma_mod_twice(g * k, w);
        assert(b as int == (g * k + sv + df) % w);
    }
    b ^ 0xCAFE_5EA7
}

} // verus!

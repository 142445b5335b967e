//! Build screen side panel: slot count, derived stats, loadout lines, layering notes.
use vstd::prelude::*;

use crate::text::{chars_of, push_chars, push_i64, push_joined, push_str, push_u64, string_from_chars};

verus! {

/// What the panel shows for an equipped skill.
#[derive(Debug)]
pub struct LoadoutSkill {
    pub name: String,
    pub category_abbr: String,
    pub category_label: String,
}

/// The hero as the build panel reads it: slots, derived stats, equipped skills and
/// the layering warnings for the equipped set.
#[derive(Debug)]
pub struct BuildPanelHero {
    pub unlocked_skill_slots: usize,
    pub equipped_skills: Vec<Option<LoadoutSkill>>,
    pub max_health: i32,
    pub damage: i32,
    pub armor: i32,
    pub layering_warnings: Vec<String>,
}

/// Number of loadout lines: unlocked slots that exist in the equipped list.
pub open spec fn shown_slots(hero: BuildPanelHero) -> nat {
    if hero.unlocked_skill_slots < hero.equipped_skills@.len() {
        hero.unlocked_skill_slots as nat
    } else {
        hero.equipped_skills@.len()
    }
}

/// One loadout line for slot `i` (shown 1-based).
pub open spec fn slot_line(i: int, slot: Option<LoadoutSkill>) -> Seq<char> {
    "  "@ + crate::text::dec((i + 1) as nat) + ". "@ + match slot {
        Some(s) => s.name@ + " ["@ + s.category_abbr@ + " — "@ + s.category_label@ + "]"@,
        None => "(empty slot)"@,
    }
}

pub open spec fn loadout_lines(hero: BuildPanelHero) -> Seq<Seq<char>> {
    Seq::new(shown_slots(hero), |i: int| slot_line(i, hero.equipped_skills@[i]))
}

pub open spec fn build_panel_spec(hero: BuildPanelHero) -> Seq<char> {
    "Skill Slots: "@ + crate::text::dec(hero.unlocked_skill_slots as nat) + "/"@ + crate::text::dec(
        hero.equipped_skills@.len(),
    ) + "\nMax Health: "@ + crate::text::dec_signed(hero.max_health as int) + "\nDamage: "@
        + crate::text::dec_signed(hero.damage as int) + "\nArmor: "@ + crate::text::dec_signed(
        hero.armor as int,
    ) + (if shown_slots(hero) == 0 {
        Seq::empty()
    } else {
        "\n\nLoadout:\n"@ + crate::text::join(loadout_lines(hero), "\n"@)
    }) + (if hero.layering_warnings@.len() == 0 {
        Seq::empty()
    } else {
        "\n\n"@ + crate::text::join(crate::text::views(hero.layering_warnings@), "\n"@)
    })
}

/// The build panel lists the name of every equipped skill in an unlocked slot, and
/// every layering warning of the equipped set.
pub proof fn law_build_panel_lists_loadout_and_warnings(hero: BuildPanelHero)
    ensures
        forall|i: int|
            0 <= i < hero.layering_warnings@.len() ==> crate::text::contains_seq(
                build_panel_spec(hero),
                #[trigger] hero.layering_warnings@[i]@,
            ),
        forall|i: int|
            0 <= i < hero.unlocked_skill_slots && 0 <= i < hero.equipped_skills@.len()
                && hero.equipped_skills@[i] is Some ==> crate::text::contains_seq(
                build_panel_spec(hero),
                (#[trigger] hero.equipped_skills@[i])->0.name@,
            ),
{
    let head = "Skill Slots: "@ + crate::text::dec(hero.unlocked_skill_slots as nat) + "/"@ + crate::text::dec(
        hero.equipped_skills@.len(),
    ) + "\nMax Health: "@ + crate::text::dec_signed(hero.max_health as int) + "\nDamage: "@
        + crate::text::dec_signed(hero.damage as int) + "\nArmor: "@ + crate::text::dec_signed(
        hero.armor as int,
    );
    let lines = loadout_lines(hero);
    let loadout = if shown_slots(hero) == 0 {
        Seq::<char>::empty()
    } else {
        "\n\nLoadout:\n"@ + crate::text::join(lines, "\n"@)
    };
    let warns = crate::text::views(hero.layering_warnings@);
    let warn_part = if hero.layering_warnings@.len() == 0 {
        Seq::<char>::empty()
    } else {
        "\n\n"@ + crate::text::join(warns, "\n"@)
    };
    let whole = build_panel_spec(hero);
    assert(whole =~= head + loadout + warn_part);
    assert forall|i: int| 0 <= i < hero.layering_warnings@.len() implies crate::text::contains_seq(
        whole,
        #[trigger] hero.layering_warnings@[i]@,
    ) by {
        let joined = crate::text::join(warns, "\n"@);
        crate::text::lemma_join_contains_part(warns, "\n"@, i);
        assert(warns[i] == hero.layering_warnings@[i]@);
        assert(whole =~= (head + loadout + "\n\n"@) + joined + Seq::<char>::empty());
        crate::text::lemma_middle_contained(head + loadout + "\n\n"@, joined, Seq::<char>::empty());
        crate::text::lemma_contains_trans(whole, joined, hero.layering_warnings@[i]@);
    }
    assert forall|i: int|
        0 <= i < hero.unlocked_skill_slots && 0 <= i < hero.equipped_skills@.len()
            && hero.equipped_skills@[i] is Some implies crate::text::contains_seq(
        whole,
        (#[trigger] hero.equipped_skills@[i])->0.name@,
    ) by {
        let sk = hero.equipped_skills@[i]->0;
        let line = slot_line(i, hero.equipped_skills@[i]);
        let lead = "  "@ + crate::text::dec((i + 1) as nat) + ". "@;
        let tail = " ["@ + sk.category_abbr@ + " — "@ + sk.category_label@ + "]"@;
        assert(line =~= lead + sk.name@ + tail);
        crate::text::lemma_middle_contained(lead, sk.name@, tail);
        assert(lines[i] == line);
        crate::text::lemma_join_contains_part(lines, "\n"@, i);
        crate::text::lemma_contains_trans(crate::text::join(lines, "\n"@), line, sk.name@);
        let joined = crate::text::join(lines, "\n"@);
        assert(whole =~= (head + "\n\nLoadout:\n"@) + joined + warn_part);
        crate::text::lemma_middle_contained(head + "\n\nLoadout:\n"@, joined, warn_part);
        crate::text::lemma_contains_trans(whole, joined, sk.name@);
    }
}

fn slot_line_chars(i: usize, slot: &Option<LoadoutSkill>) -> (line: Vec<char>)
    requires
        i < usize::MAX,
    ensures
        line@ == slot_line(i as int, *slot),
{
    let mut out: Vec<char> = Vec::new();
    push_str(&mut out, "  ");
    push_u64(&mut out, (i + 1) as u64);
    push_str(&mut out, ". ");
    match slot {
        Some(s) => {
            push_str(&mut out, s.name.as_str());
            push_str(&mut out, " [");
            push_str(&mut out, s.category_abbr.as_str());
            push_str(&mut out, " — ");
            push_str(&mut out, s.category_label.as_str());
            push_str(&mut out, "]");
        },
        None => push_str(&mut out, "(empty slot)"),
    }
    assert(out@ =~= slot_line(i as int, *slot));
    out
}

pub fn build_panel_text(hero: &BuildPanelHero) -> (text: String)
    ensures
        text@ == build_panel_spec(*hero),
{
    let mut out: Vec<char> = Vec::new();
    push_str(&mut out, "Skill Slots: ");
    push_u64(&mut out, hero.unlocked_skill_slots as u64);
    push_str(&mut out, "/");
    push_u64(&mut out, hero.equipped_skills.len() as u64);
    push_str(&mut out, "\nMax Health: ");
    push_i64(&mut out, hero.max_health as i64);
    push_str(&mut out, "\nDamage: ");
    push_i64(&mut out, hero.damage as i64);
    push_str(&mut out, "\nArmor: ");
    push_i64(&mut out, hero.armor as i64);
    let ghost head = out@;
    let n = if hero.unlocked_skill_slots < hero.equipped_skills.len() {
        hero.unlocked_skill_slots
    } else {
        hero.equipped_skills.len()
    };
    let mut lines: Vec<Vec<char>> = Vec::new();
    let mut i: usize = 0;
    while i < n
        invariant
            n == shown_slots(*hero),
            n <= hero.equipped_skills.len(),
            i <= n,
            lines.len() == i,
            forall|k: int| 0 <= k < i ==> #[trigger] lines@[k]@ == loadout_lines(*hero)[k],
        decreases n - i,
    {
        let line = slot_line_chars(i, &hero.equipped_skills[i]);
        lines.push(line);
        i = i + 1;
    }
    assert(crate::text::char_views(lines@) =~= loadout_lines(*hero));
    if n > 0 {
        push_str(&mut out, "\n\nLoadout:\n");
        push_joined(&mut out, &lines, "\n");
    }
    let ghost mid = out@;
    if hero.layering_warnings.len() > 0 {
        let mut warns: Vec<Vec<char>> = Vec::new();
        let mut k: usize = 0;
        while k < hero.layering_warnings.len()
            invariant
                k <= hero.layering_warnings.len(),
                warns.len() == k,
                forall|j: int| 0 <= j < k ==> #[trigger] warns@[j]@ == hero.layering_warnings@[j]@,
            decreases hero.layering_warnings.len() - k,
        {
            warns.push(chars_of(hero.layering_warnings[k].as_str()));
            k = k + 1;
        }
        assert(crate::text::char_views(warns@) =~= crate::text::views(hero.layering_warnings@));
        push_str(&mut out, "\n\n");
        push_joined(&mut out, &warns, "\n");
    }
    assert(out@ =~= build_panel_spec(*hero));
    string_from_chars(&out)
}

} // verus!

//! Presentation decisions for log lines, floating combat text, debuff strips and
//! item stat lines. Colours are named palette entries; the palette itself is the
//! renderer's business.
use vstd::prelude::*;

use crate::text::{
    ascii_lowercase_chars, chars_of, contains_str, lowercase_chars, matches_at, push_chars,
    push_joined, push_str, string_from_chars, split_chars, trim_chars, trim_start_range,
    slice_chars, push_i64_plus,
};

verus! {

/// Palette entries of the UI theme.
#[derive(Clone, Copy, Debug, PartialEq, Eq, Structural)]
pub enum UiTone {
    MutedGold,
    MutedCream,
    Body,
    BodyDim,
    Danger,
    Healing,
    StatusPoison,
    Treasure,
    Elite,
}

/// Type-scale entries of the UI theme.
#[derive(Clone, Copy, Debug, PartialEq, Eq, Structural)]
pub enum FontRole {
    Strong,
    Section,
    Subline,
    Body,
    Compact,
}

/// Where a floating combat caption is anchored.
#[derive(Clone, Copy, Debug, PartialEq, Eq, Structural)]
pub enum CombatSfxAnchor {
    Lead,
    Ally,
    Enemy,
    Neutral,
}

/// Tone and size of a run log line, from the line and its lowercase form.
pub open spec fn log_line_style(line: Seq<char>, lower: Seq<char>) -> (UiTone, FontRole) {
    if crate::text::contains_seq(line, "Warden"@) || crate::text::contains_seq(line, "Gate Warden"@) {
        (UiTone::MutedGold, FontRole::Strong)
    } else if crate::text::contains_seq(lower, "defeated by"@) {
        (UiTone::Danger, FontRole::Subline)
    } else if crate::text::contains_seq(lower, "elite"@) {
        (UiTone::Elite, FontRole::Section)
    } else if crate::text::contains_seq(lower, "poison"@) {
        (UiTone::StatusPoison, FontRole::Subline)
    } else if crate::text::contains_seq(lower, "shrine"@) {
        (UiTone::Healing, FontRole::Subline)
    } else if crate::text::contains_seq(lower, "found "@) || crate::text::contains_seq(lower, "treasure"@) {
        (UiTone::Treasure, FontRole::Subline)
    } else if crate::text::contains_seq(lower, "defeated"@) {
        (UiTone::Body, FontRole::Body)
    } else {
        (UiTone::BodyDim, FontRole::Compact)
    }
}

/// Styles of run log lines, given a line and its lowercase form: a line that names a
/// Warden is gold and strong, and only such a line is strong; otherwise a defeat line
/// ("defeated by") is in the danger tone; and a line with none of the marked words
/// (defeated, elite, poison, shrine, "found ", treasure) is dim and compact.
pub proof fn law_log_line_styles(line: Seq<char>, lower: Seq<char>)
    ensures
        crate::text::contains_seq(line, "Warden"@) ==> log_line_style(line, lower) == (
        UiTone::MutedGold,
        FontRole::Strong,
        ),
        log_line_style(line, lower).1 == FontRole::Strong <==> crate::text::contains_seq(line, "Warden"@),
        !crate::text::contains_seq(line, "Warden"@) && crate::text::contains_seq(lower, "defeated by"@)
            ==> log_line_style(line, lower) == (UiTone::Danger, FontRole::Subline),
        !crate::text::contains_seq(line, "Warden"@) && !crate::text::contains_seq(lower, "defeated"@)
            && !crate::text::contains_seq(lower, "elite"@) && !crate::text::contains_seq(lower, "poison"@)
            && !crate::text::contains_seq(lower, "shrine"@) && !crate::text::contains_seq(lower, "found "@)
            && !crate::text::contains_seq(lower, "treasure"@) ==> log_line_style(line, lower) == (
        UiTone::BodyDim,
        FontRole::Compact,
        ),
{
    reveal_strlit("Gate Warden");
    reveal_strlit("Warden");
    reveal_strlit("defeated by");
    reveal_strlit("defeated");
    if crate::text::contains_seq(line, "Gate Warden"@) {
        crate::text::lemma_contains_piece(line, "Gate Warden"@, 5, 11);
        assert("Gate Warden"@.subrange(5, 11) =~= "Warden"@);
    }
    if crate::text::contains_seq(lower, "defeated by"@) {
        crate::text::lemma_contains_piece(lower, "defeated by"@, 0, 8);
        assert("defeated by"@.subrange(0, 8) =~= "defeated"@);
    }
}

/// Tone and size of a log line, given the line and its lowercase form.
pub fn log_line_style_for(line: &Vec<char>, lower: &Vec<char>) -> (style: (UiTone, FontRole))
    ensures
        style == log_line_style(line@, lower@),
{
    if contains_str(line, "Warden") || contains_str(line, "Gate Warden") {
        (UiTone::MutedGold, FontRole::Strong)
    } else if contains_str(lower, "defeated by") {
        (UiTone::Danger, FontRole::Subline)
    } else if contains_str(lower, "elite") {
        (UiTone::Elite, FontRole::Section)
    } else if contains_str(lower, "poison") {
        (UiTone::StatusPoison, FontRole::Subline)
    } else if contains_str(lower, "shrine") {
        (UiTone::Healing, FontRole::Subline)
    } else if contains_str(lower, "found ") || contains_str(lower, "treasure") {
        (UiTone::Treasure, FontRole::Subline)
    } else if contains_str(lower, "defeated") {
        (UiTone::Body, FontRole::Body)
    } else {
        (UiTone::BodyDim, FontRole::Compact)
    }
}

/// Tone and size for a run log line.
pub fn log_line_present(line: &str) -> (style: (UiTone, FontRole))
    ensures
        style == log_line_style(line@, crate::text::unicode_lowercase(line@)),
{
    let chars = chars_of(line);
    let lower = lowercase_chars(line);
    log_line_style_for(&chars, &lower)
}

/// Tone of a floating combat caption, from its ASCII-lowercased text and anchor.
pub open spec fn float_text_tone(lower: Seq<char>, anchor: CombatSfxAnchor) -> UiTone {
    let has = |p: Seq<char>| crate::text::contains_seq(lower, p);
    if has("recover"@) || has("recovers"@) {
        UiTone::Healing
    } else {
        match anchor {
            CombatSfxAnchor::Enemy => {
                if has("poison deals"@) || has("poison corrodes"@) {
                    UiTone::StatusPoison
                } else if has("thorns bite"@) {
                    UiTone::MutedGold
                } else if has("defeated"@) {
                    UiTone::Treasure
                } else if has("ability"@) || has("cleave hits"@) {
                    UiTone::MutedGold
                } else {
                    UiTone::MutedCream
                }
            },
            CombatSfxAnchor::Lead | CombatSfxAnchor::Ally => {
                if has("the foe hits"@) || has("collapse"@) || has(" is down"@) {
                    UiTone::Danger
                } else if has("ability"@) || has(" white and "@) {
                    UiTone::MutedGold
                } else if has("strike"@) || has("hits you"@) || has("hits your"@) || has("thorns bite"@) {
                    UiTone::MutedCream
                } else if has("poison"@) {
                    UiTone::StatusPoison
                } else if has("damage"@) || has("hits"@) {
                    UiTone::Danger
                } else {
                    UiTone::MutedCream
                }
            },
            CombatSfxAnchor::Neutral => UiTone::MutedCream,
        }
    }
}

/// Tones of floating captions, given the lowercased caption: one that speaks of
/// recovery is in the healing tone wherever it is anchored. Otherwise, on the lead or an
/// ally, a caption saying that the foe hits, that someone collapses, or that someone is
/// down is in the danger tone; on an enemy, poison dealing damage or corroding is in the
/// poison tone; and a caption with no anchor is muted cream.
pub proof fn law_float_caption_tones(lower: Seq<char>, anchor: CombatSfxAnchor)
    ensures
        crate::text::contains_seq(lower, "recover"@) ==> float_text_tone(lower, anchor) == UiTone::Healing,
        !crate::text::contains_seq(lower, "recover"@) && (anchor == CombatSfxAnchor::Lead
            || anchor == CombatSfxAnchor::Ally) && (crate::text::contains_seq(lower, "the foe hits"@)
            || crate::text::contains_seq(lower, "collapse"@) || crate::text::contains_seq(lower, " is down"@))
            ==> float_text_tone(lower, anchor) == UiTone::Danger,
        !crate::text::contains_seq(lower, "recover"@) && anchor == CombatSfxAnchor::Enemy && (
        crate::text::contains_seq(lower, "poison deals"@) || crate::text::contains_seq(lower, "poison corrodes"@))
            ==> float_text_tone(lower, anchor) == UiTone::StatusPoison,
        !crate::text::contains_seq(lower, "recover"@) && anchor == CombatSfxAnchor::Neutral
            ==> float_text_tone(lower, anchor) == UiTone::MutedCream,
{
    if crate::text::contains_seq(lower, "recovers"@) {
        reveal_strlit("recovers");
        reveal_strlit("recover");
        crate::text::lemma_contains_piece(lower, "recovers"@, 0, 7);
        assert("recovers"@.subrange(0, 7) =~= "recover"@);
    }
}

/// Tone of a floating combat caption.
pub fn playback_float_text_color(caption: &str, anchor: CombatSfxAnchor) -> (tone: UiTone)
    ensures
        tone == float_text_tone(crate::text::ascii_lowercase(caption@), anchor),
{
    let lower = ascii_lowercase_chars(caption);
    if contains_str(&lower, "recover") || contains_str(&lower, "recovers") {
        return UiTone::Healing;
    }
    match anchor {
        CombatSfxAnchor::Enemy => {
            if contains_str(&lower, "poison deals") || contains_str(&lower, "poison corrodes") {
                return UiTone::StatusPoison;
            }
            if contains_str(&lower, "thorns bite") {
                return UiTone::MutedGold;
            }
            if contains_str(&lower, "defeated") {
                return UiTone::Treasure;
            }
            if contains_str(&lower, "ability") || contains_str(&lower, "cleave hits") {
                return UiTone::MutedGold;
            }
            UiTone::MutedCream
        },
        CombatSfxAnchor::Lead | CombatSfxAnchor::Ally => {
            if contains_str(&lower, "the foe hits") || contains_str(&lower, "collapse") || contains_str(
                &lower,
                " is down",
            ) {
                return UiTone::Danger;
            }
            if contains_str(&lower, "ability") || contains_str(&lower, " white and ") {
                return UiTone::MutedGold;
            }
            if contains_str(&lower, "strike") || contains_str(&lower, "hits you") || contains_str(
                &lower,
                "hits your",
            ) || contains_str(&lower, "thorns bite") {
                return UiTone::MutedCream;
            }
            if contains_str(&lower, "poison") {
                return UiTone::StatusPoison;
            }
            if contains_str(&lower, "damage") || contains_str(&lower, "hits") {
                return UiTone::Danger;
            }
            UiTone::MutedCream
        },
        CombatSfxAnchor::Neutral => UiTone::MutedCream,
    }
}

/// Separator between debuff slots on a playback strip.
pub const PLAYBACK_DEBUFF_SLOT_SEP: &'static str = "  ·  ";

/// One debuff slot as shown: leading space dropped, and a poison slot tagged
/// `[Poison]` with the rest of its text trimmed.
pub open spec fn debuff_part(p: Seq<char>) -> Seq<char> {
    let t = crate::text::trim_start(p);
    if crate::text::occurs_at(t, "Poison"@, 0) {
        "[Poison] "@ + crate::text::trim(t.skip("Poison"@.len() as int))
    } else {
        t
    }
}

pub open spec fn debuff_line_spec(line: Seq<char>) -> Seq<char> {
    crate::text::join(
        crate::text::split(line, PLAYBACK_DEBUFF_SLOT_SEP@).map_values(|p: Seq<char>| debuff_part(p)),
        PLAYBACK_DEBUFF_SLOT_SEP@,
    )
}

fn debuff_part_chars(p: &Vec<char>) -> (out: Vec<char>)
    ensures
        out@ == debuff_part(p@),
{
    assert(p@.subrange(0, p@.len() as int) =~= p@);
    let t = trim_start_range(p, 0, p.len());
    let poison = chars_of("Poison");
    if matches_at(&t, &poison, 0) {
        let rest = slice_chars(&t, poison.len(), t.len());
        assert(rest@ =~= t@.skip(poison@.len() as int));
        let trimmed = trim_chars(&rest);
        let mut out: Vec<char> = Vec::new();
        push_str(&mut out, "[Poison] ");
        push_chars(&mut out, &trimmed);
        out
    } else {
        t
    }
}

fn debuff_plain_line(line: &str) -> (out: String)
    ensures
        out@ == debuff_line_spec(line@),
{
    let chars = chars_of(line);
    let sep = chars_of(PLAYBACK_DEBUFF_SLOT_SEP);
    proof {
        reveal_strlit("  ·  ");
    }
    let parts = split_chars(&chars, &sep);
    let mut shown: Vec<Vec<char>> = Vec::new();
    let mut i: usize = 0;
    while i < parts.len()
        invariant
            i <= parts.len(),
            shown.len() == i,
            forall|k: int| 0 <= k < i ==> #[trigger] shown@[k]@ == debuff_part(parts@[k]@),
        decreases parts.len() - i,
    {
        shown.push(debuff_part_chars(&parts[i]));
        i = i + 1;
    }
    assert(crate::text::char_views(shown@) =~= crate::text::split(chars@, sep@).map_values(
        |p: Seq<char>| debuff_part(p),
    ));
    let mut out: Vec<char> = Vec::new();
    push_joined(&mut out, &shown, PLAYBACK_DEBUFF_SLOT_SEP);
    assert(out@ =~= debuff_line_spec(line@));
    string_from_chars(&out)
}

/// Plain text of a debuff strip line.
pub fn playback_debuff_line_string(line: &str) -> (out: String)
    ensures
        out@ == debuff_line_spec(line@),
{
    debuff_plain_line(line)
}

/// Tone of a debuff strip line: poison-green when it mentions poison.
pub fn playback_debuff_line_tone(line: &str) -> (tone: UiTone)
    ensures
        tone == if crate::text::contains_seq(line@, "Poison"@) {
            UiTone::StatusPoison
        } else {
            UiTone::BodyDim
        },
{
    let chars = chars_of(line);
    if contains_str(&chars, "Poison") {
        UiTone::StatusPoison
    } else {
        UiTone::BodyDim
    }
}

/// Combat log plain body: the lines joined with newlines.
pub fn playback_log_plain(lines: &[String]) -> (out: String)
    ensures
        out@ == crate::text::join(crate::text::views(lines@), "\n"@),
{
    let mut parts: Vec<Vec<char>> = Vec::new();
    let mut i: usize = 0;
    while i < lines.len()
        invariant
            i <= lines.len(),
            parts.len() == i,
            forall|k: int| 0 <= k < i ==> #[trigger] parts@[k]@ == lines@[k]@,
        decreases lines.len() - i,
    {
        parts.push(chars_of(lines[i].as_str()));
        i = i + 1;
    }
    assert(crate::text::char_views(parts@) =~= crate::text::views(lines@));
    let mut out: Vec<char> = Vec::new();
    push_joined(&mut out, &parts, "\n");
    string_from_chars(&out)
}

/// Affix descriptions as bullet lines; empty when the item has no affixes.
pub fn format_item_affix_lines(descriptions: &Vec<String>) -> (out: String)
    ensures
        out@ == crate::text::join(
            crate::text::views(descriptions@).map_values(|d: Seq<char>| "• "@ + d),
            "\n"@,
        ),
{
    let mut parts: Vec<Vec<char>> = Vec::new();
    let mut i: usize = 0;
    while i < descriptions.len()
        invariant
            i <= descriptions.len(),
            parts.len() == i,
            forall|k: int| 0 <= k < i ==> #[trigger] parts@[k]@ == "• "@ + descriptions@[k]@,
        decreases descriptions.len() - i,
    {
        let mut line: Vec<char> = Vec::new();
        push_str(&mut line, "• ");
        push_str(&mut line, descriptions[i].as_str());
        parts.push(line);
        i = i + 1;
    }
    assert(crate::text::char_views(parts@) =~= crate::text::views(descriptions@).map_values(
        |d: Seq<char>| "• "@ + d,
    ));
    let mut out: Vec<char> = Vec::new();
    push_joined(&mut out, &parts, "\n");
    string_from_chars(&out)
}

/// Summed stat modifiers of an item (base stats plus affixes). Attack speed is a
/// fractional value; it arrives already printed with its sign, and only when non-zero.
#[derive(Debug)]
pub struct ItemStatTotals {
    pub max_health: i32,
    pub damage: i32,
    pub armor: i32,
    pub healing_power: i32,
    pub attack_speed_text: Option<String>,
}

pub open spec fn stat_part(label: Seq<char>, v: i32) -> Seq<Seq<char>> {
    if v != 0 {
        seq![label + crate::text::dec_plus(v as int)]
    } else {
        Seq::empty()
    }
}

pub open spec fn stat_parts(s: ItemStatTotals) -> Seq<Seq<char>> {
    stat_part("HP "@, s.max_health) + stat_part("DMG "@, s.damage) + stat_part("ARM "@, s.armor)
        + stat_part("HEAL "@, s.healing_power) + match s.attack_speed_text {
        Some(t) => seq!["ATK SPD "@ + t@],
        None => Seq::empty(),
    }
}

pub open spec fn stat_summary_spec(s: ItemStatTotals) -> Seq<char> {
    if stat_parts(s).len() == 0 {
        "No stat modifiers."@
    } else {
        crate::text::join(stat_parts(s), " · "@)
    }
}

/// A listed part of the stat line occurs in the summary, and the summary is then not
/// the note that nothing is listed.
proof fn lemma_stat_part_shown(s: ItemStatTotals, idx: int, part: Seq<char>)
    requires
        0 <= idx < stat_parts(s).len(),
        stat_parts(s)[idx] == part,
        part.len() > 0,
        part[0] == 'H' || part[0] == 'D' || part[0] == 'A',
    ensures
        crate::text::contains_seq(stat_summary_spec(s), part),
        stat_summary_spec(s) != "No stat modifiers."@,
{
    crate::text::lemma_join_contains_part(stat_parts(s), " · "@, idx);
    lemma_note_has_no_stat_label(part);
}

/// The note "No stat modifiers." holds no text that starts with a stat label's letter.
proof fn lemma_note_has_no_stat_label(part: Seq<char>)
    requires
        part.len() > 0,
        part[0] == 'H' || part[0] == 'D' || part[0] == 'A',
    ensures
        !crate::text::contains_seq("No stat modifiers."@, part),
{
    reveal_strlit("No stat modifiers.");
    let note = "No stat modifiers."@;
    assert forall|k: int| 0 <= k < note.len() implies #[trigger] note[k] != part[0] by {}
    crate::text::lemma_absent_first_char(note, part);
}

/// Every non-zero modifier is listed with its label and signed value, and an attack
/// speed text is listed when there is one; the note "No stat modifiers." stands exactly
/// when all four modifiers are zero and there is no attack speed text.
pub proof fn law_stat_summary_lists_every_modifier(s: ItemStatTotals)
    ensures
        s.max_health != 0 ==> crate::text::contains_seq(
            stat_summary_spec(s),
            "HP "@ + crate::text::dec_plus(s.max_health as int),
        ),
        s.damage != 0 ==> crate::text::contains_seq(
            stat_summary_spec(s),
            "DMG "@ + crate::text::dec_plus(s.damage as int),
        ),
        s.armor != 0 ==> crate::text::contains_seq(
            stat_summary_spec(s),
            "ARM "@ + crate::text::dec_plus(s.armor as int),
        ),
        s.healing_power != 0 ==> crate::text::contains_seq(
            stat_summary_spec(s),
            "HEAL "@ + crate::text::dec_plus(s.healing_power as int),
        ),
        s.attack_speed_text is Some ==> crate::text::contains_seq(
            stat_summary_spec(s),
            "ATK SPD "@ + s.attack_speed_text->0@,
        ),
        stat_summary_spec(s) == "No stat modifiers."@ <==> (s.max_health == 0 && s.damage == 0 && s.armor == 0
            && s.healing_power == 0 && s.attack_speed_text is None),
{
    reveal_strlit("HP ");
    reveal_strlit("DMG ");
    reveal_strlit("ARM ");
    reveal_strlit("HEAL ");
    reveal_strlit("ATK SPD ");
    let hp: int = stat_part("HP "@, s.max_health).len() as int;
    let dmg: int = stat_part("DMG "@, s.damage).len() as int;
    let arm: int = stat_part("ARM "@, s.armor).len() as int;
    let heal: int = stat_part("HEAL "@, s.healing_power).len() as int;
    if s.max_health != 0 {
        lemma_stat_part_shown(s, 0, "HP "@ + crate::text::dec_plus(s.max_health as int));
    }
    if s.damage != 0 {
        lemma_stat_part_shown(s, hp, "DMG "@ + crate::text::dec_plus(s.damage as int));
    }
    if s.armor != 0 {
        lemma_stat_part_shown(s, hp + dmg, "ARM "@ + crate::text::dec_plus(s.armor as int));
    }
    if s.healing_power != 0 {
        lemma_stat_part_shown(
            s,
            hp + dmg + arm,
            "HEAL "@ + crate::text::dec_plus(s.healing_power as int),
        );
    }
    if s.attack_speed_text is Some {
        lemma_stat_part_shown(
            s,
            hp + dmg + arm + heal,
            "ATK SPD "@ + s.attack_speed_text->0@,
        );
    }
}

fn push_stat_part(parts: &mut Vec<Vec<char>>, label: &str, v: i32)
    ensures
        crate::text::char_views(final(parts)@) == crate::text::char_views(old(parts)@) + stat_part(label@, v),
{
    if v != 0 {
        let mut p: Vec<char> = Vec::new();
        push_str(&mut p, label);
        push_i64_plus(&mut p, v as i64);
        parts.push(p);
        assert(crate::text::char_views(parts@) =~= crate::text::char_views(old(parts)@) + stat_part(label@, v));
    } else {
        assert(crate::text::char_views(parts@) =~= crate::text::char_views(old(parts)@) + stat_part(label@, v));
    }
}

/// One line listing the non-zero stat modifiers, or a note that there are none.
pub fn format_item_stat_summary(stats: &ItemStatTotals) -> (out: String)
    ensures
        out@ == stat_summary_spec(*stats),
{
    let mut parts: Vec<Vec<char>> = Vec::new();
    push_stat_part(&mut parts, "HP ", stats.max_health);
    push_stat_part(&mut parts, "DMG ", stats.damage);
    push_stat_part(&mut parts, "ARM ", stats.armor);
    push_stat_part(&mut parts, "HEAL ", stats.healing_power);
    let ghost before = parts@;
    match &stats.attack_speed_text {
        Some(t) => {
            let mut p: Vec<char> = Vec::new();
            push_str(&mut p, "ATK SPD ");
            push_str(&mut p, t.as_str());
            parts.push(p);
            assert(crate::text::char_views(parts@) =~= crate::text::char_views(before) + seq![p@]);
        },
        None => {},
    }
    assert(crate::text::char_views(parts@) =~= stat_parts(*stats));
    let mut out: Vec<char> = Vec::new();
    if parts.len() == 0 {
        push_str(&mut out, "No stat modifiers.");
    } else {
        push_joined(&mut out, &parts, " · ");
    }
    string_from_chars(&out)
}

} // verus!

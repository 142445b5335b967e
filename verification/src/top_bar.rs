//! Header resource chips: gold, salvage, skill slots and depth.
use vstd::prelude::*;

use crate::text::{push_str, push_u64, string_from_chars};

verus! {

/// Screen the app is on.
#[derive(Clone, Copy, Debug, PartialEq, Eq, Structural)]
pub enum GameState {
    Title,
    Build,
    Running,
    Summary,
}

/// Header chip kinds.
#[derive(Clone, Copy, Debug, PartialEq, Eq, Structural)]
pub enum TopBarField {
    Gold,
    Salvage,
    SkillSlots,
    Depth,
}

/// Depth shown in the header: the summary's deepest depth, the depth of the playback
/// frame on display (index clamped to the last frame), or the deepest floor reached;
/// a dash when the summary or playback is missing or empty.
pub open spec fn depth_label_spec(
    state: GameState,
    summary_depth: Option<u32>,
    playback_depths: Option<Seq<u32>>,
    display_index: usize,
    deepest_floor: u32,
) -> Seq<char> {
    match state {
        GameState::Summary => match summary_depth {
            Some(d) => crate::text::dec(d as nat),
            None => "—"@,
        },
        GameState::Running => match playback_depths {
            Some(ds) => if ds.len() == 0 {
                "—"@
            } else if display_index < ds.len() {
                crate::text::dec(ds[display_index as int] as nat)
            } else {
                crate::text::dec(ds.last() as nat)
            },
            None => "—"@,
        },
        GameState::Title | GameState::Build => crate::text::dec(deepest_floor as nat),
    }
}

pub fn depth_label(
    state: GameState,
    summary_depth: Option<u32>,
    playback_depths: Option<&Vec<u32>>,
    display_index: usize,
    deepest_floor: u32,
) -> (label: String)
    ensures
        label@ == depth_label_spec(
            state,
            summary_depth,
            match playback_depths {
                Some(v) => Some(v@),
                None => None,
            },
            display_index,
            deepest_floor,
        ),
{
    let mut out: Vec<char> = Vec::new();
    match state {
        GameState::Summary => match summary_depth {
            Some(d) => push_u64(&mut out, d as u64),
            None => push_str(&mut out, "—"),
        },
        GameState::Running => match playback_depths {
            Some(ds) => {
                if ds.len() == 0 {
                    push_str(&mut out, "—");
                } else {
                    let idx = if display_index < ds.len() { display_index } else { ds.len() - 1 };
                    push_u64(&mut out, ds[idx] as u64);
                }
            },
            None => push_str(&mut out, "—"),
        },
        GameState::Title | GameState::Build => push_u64(&mut out, deepest_floor as u64),
    }
    assert(out@ =~= depth_label_spec(
        state,
        summary_depth,
        match playback_depths {
            Some(v) => Some(v@),
            None => None,
        },
        display_index,
        deepest_floor,
    ));
    string_from_chars(&out)
}

/// Text of a header chip. Skill slots read `unlocked/cap`, the cap being the number of
/// loadout slots (at least one).
pub open spec fn top_bar_text_spec(
    field: TopBarField,
    gold: u32,
    salvage: u32,
    unlocked_slots: u32,
    loadout_len: usize,
    depth: Seq<char>,
) -> Seq<char> {
    match field {
        TopBarField::Gold => crate::text::dec(gold as nat),
        TopBarField::Salvage => crate::text::dec(salvage as nat),
        TopBarField::SkillSlots => crate::text::dec(unlocked_slots as nat) + "/"@ + crate::text::dec(
            if loadout_len > 1 { loadout_len as nat } else { 1nat },
        ),
        TopBarField::Depth => depth,
    }
}

pub fn top_bar_text(
    field: TopBarField,
    gold: u32,
    salvage: u32,
    unlocked_slots: u32,
    loadout_len: usize,
    depth: &str,
) -> (text: String)
    ensures
        text@ == top_bar_text_spec(field, gold, salvage, unlocked_slots, loadout_len, depth@),
{
    let mut out: Vec<char> = Vec::new();
    match field {
        TopBarField::Gold => push_u64(&mut out, gold as u64),
        TopBarField::Salvage => push_u64(&mut out, salvage as u64),
        TopBarField::SkillSlots => {
            push_u64(&mut out, unlocked_slots as u64);
            push_str(&mut out, "/");
            let cap = if loadout_len > 1 { loadout_len } else { 1 };
            push_u64(&mut out, cap as u64);
        },
        TopBarField::Depth => push_str(&mut out, depth),
    }
    assert(out@ =~= top_bar_text_spec(field, gold, salvage, unlocked_slots, loadout_len, depth@));
    string_from_chars(&out)
}

} // verus!

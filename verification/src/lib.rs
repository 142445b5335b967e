//! Idle Dungeons UI logic: the decisions and texts behind the camp, playback and
//! summary screens, with their behaviour stated as contracts and proved.
//!
//! - [`stash_sort`]: stash row ordering (stable rarity/name/id sort, newest first).
//! - [`summary_panel`], [`build_panel`], [`top_bar`]: screen texts.
//! - [`theme`]: log line, floating text and debuff strip presentation, item stat lines.
//! - [`session`]: pending party loadout edits.
//! - [`rename`]: hero rename field editing.
//! - [`inspect_fade`]: debounced inspect content keys.
//! - [`interaction`]: inspect scope, hover and click resolution.
//! - [`presentation`]: skill families, labels, camp seats.
//! - [`placeholder_art`]: procedural RGBA placeholder icons.
//! - [`text`]: character-level text building blocks.
use vstd::prelude::*;

pub mod build_panel;
pub mod inspect_fade;
pub mod interaction;
pub mod placeholder_art;
pub mod presentation;
pub mod rename;
pub mod session;
pub mod stash_sort;
pub mod summary_panel;
pub mod text;
pub mod theme;
pub mod top_bar;

verus! {

} // verus!

//! Pointer decisions: which inspect region is live, which hovered source wins,
//! and which pressed button a click belongs to.
use vstd::prelude::*;

verus! {

/// Which inspect strip is live for the current screen stack.
#[derive(Clone, Copy, Debug, PartialEq, Eq, Structural)]
pub enum ActiveInspectScope {
    Inactive,
    Camp,
    GearHub,
    SkillShop,
}

/// Inspect strip regions.
#[derive(Clone, Copy, Debug, PartialEq, Eq, Structural)]
pub enum InspectRegionScope {
    Camp,
    GearHub,
    SkillShop,
}

pub open spec fn active_scope_spec(gear_open: bool, shop_open: bool, build: bool, summary: bool, running: bool) -> ActiveInspectScope {
    if gear_open {
        ActiveInspectScope::GearHub
    } else if shop_open {
        ActiveInspectScope::SkillShop
    } else if build || summary || running {
        ActiveInspectScope::Camp
    } else {
        ActiveInspectScope::Inactive
    }
}

/// The live scope: an open gear hub wins, then an open skill shop, then any camp screen.
pub fn active_scope(gear_open: bool, shop_open: bool, build: bool, summary: bool, running: bool) -> (s: ActiveInspectScope)
    ensures
        s == active_scope_spec(gear_open, shop_open, build, summary, running),
{
    if gear_open {
        return ActiveInspectScope::GearHub;
    }
    if shop_open {
        return ActiveInspectScope::SkillShop;
    }
    if build || summary || running {
        return ActiveInspectScope::Camp;
    }
    ActiveInspectScope::Inactive
}

/// The gear hub, when open, owns inspect whatever lies beneath it; the skill shop owns it
/// when the gear hub is closed; with neither open, each camp screen on its own (build,
/// end-of-run summary, or a running expedition) makes the camp strip live, and with no
/// screen at all inspect is off.
pub proof fn law_scope_follows_screen_stack(gear_open: bool, shop_open: bool, build: bool, summary: bool, running: bool)
    ensures
        gear_open ==> active_scope_spec(gear_open, shop_open, build, summary, running) == ActiveInspectScope::GearHub,
        !gear_open && shop_open ==> active_scope_spec(gear_open, shop_open, build, summary, running)
            == ActiveInspectScope::SkillShop,
        !gear_open && !shop_open && build ==> active_scope_spec(gear_open, shop_open, build, summary, running)
            == ActiveInspectScope::Camp,
        !gear_open && !shop_open && summary ==> active_scope_spec(gear_open, shop_open, build, summary, running)
            == ActiveInspectScope::Camp,
        !gear_open && !shop_open && running ==> active_scope_spec(gear_open, shop_open, build, summary, running)
            == ActiveInspectScope::Camp,
        active_scope_spec(gear_open, shop_open, build, summary, running) == ActiveInspectScope::Inactive
            <==> !gear_open && !shop_open && !build && !summary && !running,
{
}

/// The strip region a scope drives; none when inactive.
pub fn region_for_scope(scope: ActiveInspectScope) -> (r: Option<InspectRegionScope>)
    ensures
        r == match scope {
            ActiveInspectScope::Camp => Some(InspectRegionScope::Camp),
            ActiveInspectScope::GearHub => Some(InspectRegionScope::GearHub),
            ActiveInspectScope::SkillShop => Some(InspectRegionScope::SkillShop),
            ActiveInspectScope::Inactive => None::<InspectRegionScope>,
        },
{
    match scope {
        ActiveInspectScope::Camp => Some(InspectRegionScope::Camp),
        ActiveInspectScope::GearHub => Some(InspectRegionScope::GearHub),
        ActiveInspectScope::SkillShop => Some(InspectRegionScope::SkillShop),
        ActiveInspectScope::Inactive => None,
    }
}

/// Hover sources, weakest first.
#[derive(Clone, Copy, Debug, PartialEq, Eq, Structural)]
pub enum HoverPriority {
    Hint,
    SkillShop,
    GearSlot,
    StashItem,
    SkillSlot,
}

pub open spec fn hover_rank(p: HoverPriority) -> u8 {
    match p {
        HoverPriority::Hint => 1,
        HoverPriority::SkillShop => 2,
        HoverPriority::GearSlot => 3,
        HoverPriority::StashItem => 4,
        HoverPriority::SkillSlot => 5,
    }
}

pub fn hover_rank_of(p: HoverPriority) -> (r: u8)
    ensures
        r == hover_rank(p),
{
    match p {
        HoverPriority::Hint => 1,
        HoverPriority::SkillShop => 2,
        HoverPriority::GearSlot => 3,
        HoverPriority::StashItem => 4,
        HoverPriority::SkillSlot => 5,
    }
}

/// Index of the winning hovered candidate: the first one of the highest priority.
pub open spec fn is_hover_winner(cands: Seq<HoverPriority>, k: int) -> bool {
    &&& 0 <= k < cands.len()
    &&& forall|j: int| 0 <= j < cands.len() ==> hover_rank(#[trigger] cands[j]) <= hover_rank(cands[k])
    &&& forall|j: int| 0 <= j < k ==> hover_rank(#[trigger] cands[j]) < hover_rank(cands[k])
}

/// The hovered candidate that sets the inspect target, among candidates in scan order.
pub fn pick_hover(cands: &Vec<HoverPriority>) -> (w: Option<usize>)
    ensures
        w is None <==> cands@.len() == 0,
        w matches Some(k) ==> is_hover_winner(cands@, k as int),
{
    if cands.len() == 0 {
        return None;
    }
    let mut best: usize = 0;
    let mut i: usize = 1;
    while i < cands.len()
        invariant
            1 <= i <= cands.len(),
            best < i,
            forall|j: int| 0 <= j < i ==> hover_rank(#[trigger] cands@[j]) <= hover_rank(cands@[best as int]),
            forall|j: int| 0 <= j < best ==> hover_rank(#[trigger] cands@[j]) < hover_rank(cands@[best as int]),
        decreases cands.len() - i,
    {
        if hover_rank_of(cands[i]) > hover_rank_of(cands[best]) {
            best = i;
        }
        i = i + 1;
    }
    Some(best)
}

/// Skill slots, gear and catalogue rows beat generic control hints: when any hovered
/// candidate is not a hint, the winner is not a hint.
pub proof fn law_content_beats_hints(cands: Seq<HoverPriority>, k: int, j: int)
    requires
        is_hover_winner(cands, k),
        0 <= j < cands.len(),
        cands[j] != HoverPriority::Hint,
    ensures
        cands[k] != HoverPriority::Hint,
{
    assert(hover_rank(cands[j]) <= hover_rank(cands[k]));
}

/// Pointer interaction state of a control.
#[derive(Clone, Copy, Debug, PartialEq, Eq, Structural)]
pub enum Interaction {
    Pressed,
    Hovered,
    Idle,
}

/// A release confirms a click whatever state the control shows on that frame
/// (quick taps can leave it pressed; nested targets can briefly drop hover).
pub fn ui_click_release_confirms(interaction: Interaction) -> (c: bool)
    ensures
        c,
{
    match interaction {
        Interaction::Hovered | Interaction::Pressed | Interaction::Idle => true,
    }
}

/// Tooltips show while a control is hovered or pressed.
pub fn tooltip_interaction_ok(i: Interaction) -> (ok: bool)
    ensures
        ok == (i == Interaction::Hovered || i == Interaction::Pressed),
{
    match i {
        Interaction::Hovered | Interaction::Pressed => true,
        Interaction::Idle => false,
    }
}

/// `(tier, entity bits)` orders pressed buttons: lower tier first, then lower bits.
pub open spec fn press_key_lt(a: (u8, u64), b: (u8, u64)) -> bool {
    a.0 < b.0 || (a.0 == b.0 && a.1 < b.1)
}

/// Index of the first pressed button with the smallest `(tier, bits)` key.
pub open spec fn is_first_min_press(cands: Seq<(u8, u64)>, k: int) -> bool {
    &&& 0 <= k < cands.len()
    &&& forall|j: int| 0 <= j < cands.len() ==> !press_key_lt(#[trigger] cands[j], cands[k])
    &&& forall|j: int| 0 <= j < k ==> press_key_lt(cands[k], #[trigger] cands[j])
}

/// Which of the pressed buttons (with their tier and entity bits) takes the click.
pub fn pick_pressed(cands: &Vec<(u8, u64)>) -> (w: Option<usize>)
    ensures
        w is None <==> cands@.len() == 0,
        w matches Some(k) ==> is_first_min_press(cands@, k as int),
{
    if cands.len() == 0 {
        return None;
    }
    let mut best: usize = 0;
    let mut i: usize = 1;
    while i < cands.len()
        invariant
            1 <= i <= cands.len(),
            best < i,
            forall|j: int| 0 <= j < i ==> !press_key_lt(#[trigger] cands@[j], cands@[best as int]),
            forall|j: int| 0 <= j < best ==> press_key_lt(cands@[best as int], #[trigger] cands@[j]),
        decreases cands.len() - i,
    {
        let (ti, bi) = cands[i];
        let (tb, bb) = cands[best];
        if ti < tb || (ti == tb && bi < bb) {
            best = i;
        }
        i = i + 1;
    }
    Some(best)
}

/// Button markers a pressed control may carry.
#[derive(Clone, Copy, Debug, PartialEq, Eq, Structural)]
pub struct PressMarkers {
    pub presentation_settings_toggle: bool,
    pub reset: bool,
    pub settings_close: bool,
    pub settings_backdrop: bool,
    pub skill_book_backdrop: bool,
    pub shop_buy: bool,
    pub shop_close: bool,
    pub shop_backdrop: bool,
    pub equip: bool,
    pub salvage: bool,
    pub stash_sort: bool,
    pub gear_close: bool,
    pub gear_backdrop: bool,
    pub playback_speed_dec: bool,
    pub playback_speed_inc: bool,
}

/// A button pressed on this mouse-down.
#[derive(Clone, Copy, Debug, PartialEq, Eq, Structural)]
pub struct PressedButton {
    /// The entity's bits (stable id).
    pub bits: u64,
    /// Whether the button lies inside the open blocking modal (if any).
    pub in_open_modal: bool,
    pub markers: PressMarkers,
}

/// A modal that blocks the screen below it, in the order they are checked.
#[derive(Clone, Copy, Debug, PartialEq, Eq, Structural)]
pub enum BlockingModal {
    Settings,
    SkillBook,
    SkillShop,
    GearHub,
}

/// Tier of a pressed button inside a modal: primary actions before close and backdrop.
pub open spec fn press_tier(modal: BlockingModal, m: PressMarkers) -> u8 {
    match modal {
        BlockingModal::Settings => if m.presentation_settings_toggle {
            0
        } else if m.reset {
            1
        } else if m.settings_close {
            2
        } else if m.settings_backdrop {
            3
        } else {
            255
        },
        BlockingModal::SkillBook => if m.skill_book_backdrop {
            2
        } else {
            0
        },
        BlockingModal::SkillShop => if m.shop_buy {
            0
        } else if m.shop_close {
            1
        } else if m.shop_backdrop {
            2
        } else {
            255
        },
        BlockingModal::GearHub => if m.equip {
            0
        } else if m.salvage {
            1
        } else if m.stash_sort {
            2
        } else if m.gear_close {
            3
        } else if m.gear_backdrop {
            4
        } else {
            255
        },
    }
}

pub fn press_tier_of(modal: BlockingModal, m: PressMarkers) -> (t: u8)
    ensures
        t == press_tier(modal, m),
{
    match modal {
        BlockingModal::Settings => if m.presentation_settings_toggle {
            0
        } else if m.reset {
            1
        } else if m.settings_close {
            2
        } else if m.settings_backdrop {
            3
        } else {
            255
        },
        BlockingModal::SkillBook => if m.skill_book_backdrop {
            2
        } else {
            0
        },
        BlockingModal::SkillShop => if m.shop_buy {
            0
        } else if m.shop_close {
            1
        } else if m.shop_backdrop {
            2
        } else {
            255
        },
        BlockingModal::GearHub => if m.equip {
            0
        } else if m.salvage {
            1
        } else if m.stash_sort {
            2
        } else if m.gear_close {
            3
        } else if m.gear_backdrop {
            4
        } else {
            255
        },
    }
}

/// Whether a pressed button competes for the click: inside the open modal, or with no
/// modal open (restricted to playback speed buttons when `speed_only`).
pub open spec fn press_eligible(modal: Option<BlockingModal>, speed_only: bool, b: PressedButton) -> bool {
    match modal {
        Some(_) => b.in_open_modal,
        None => !speed_only || b.markers.playback_speed_dec || b.markers.playback_speed_inc,
    }
}

pub open spec fn press_key(modal: Option<BlockingModal>, b: PressedButton) -> (u8, u64) {
    match modal {
        Some(md) => (press_tier(md, b.markers), b.bits),
        None => (0u8, b.bits),
    }
}

/// `k` is the first eligible button with the smallest key.
pub open spec fn is_press_winner(pressed: Seq<PressedButton>, modal: Option<BlockingModal>, speed_only: bool, k: int) -> bool {
    &&& 0 <= k < pressed.len()
    &&& press_eligible(modal, speed_only, pressed[k])
    &&& forall|j: int| 0 <= j < pressed.len() && press_eligible(modal, speed_only, #[trigger] pressed[j])
        ==> !press_key_lt(press_key(modal, pressed[j]), press_key(modal, pressed[k]))
    &&& forall|j: int| 0 <= j < k && press_eligible(modal, speed_only, #[trigger] pressed[j])
        ==> press_key_lt(press_key(modal, pressed[k]), press_key(modal, pressed[j]))
}

pub open spec fn no_eligible_press(pressed: Seq<PressedButton>, modal: Option<BlockingModal>, speed_only: bool) -> bool {
    forall|j: int| 0 <= j < pressed.len() ==> !press_eligible(modal, speed_only, #[trigger] pressed[j])
}

fn press_winner(pressed: &Vec<PressedButton>, modal: Option<BlockingModal>, speed_only: bool) -> (w: Option<usize>)
    ensures
        w is None <==> no_eligible_press(pressed@, modal, speed_only),
        w matches Some(k) ==> is_press_winner(pressed@, modal, speed_only, k as int),
{
    let mut best: Option<usize> = None;
    let mut best_key: (u8, u64) = (0, 0);
    let mut i: usize = 0;
    while i < pressed.len()
        invariant
            i <= pressed.len(),
            best is None <==> (forall|j: int| 0 <= j < i ==> !press_eligible(modal, speed_only, #[trigger] pressed@[j])),
            best matches Some(k) ==> k < i && best_key == press_key(modal, pressed@[k as int])
                && press_eligible(modal, speed_only, pressed@[k as int])
                && (forall|j: int| 0 <= j < i && press_eligible(modal, speed_only, #[trigger] pressed@[j])
                    ==> !press_key_lt(press_key(modal, pressed@[j]), press_key(modal, pressed@[k as int])))
                && (forall|j: int| 0 <= j < k && press_eligible(modal, speed_only, #[trigger] pressed@[j])
                    ==> press_key_lt(press_key(modal, pressed@[k as int]), press_key(modal, pressed@[j]))),
        decreases pressed.len() - i,
    {
        let b = pressed[i];
        let eligible = match modal {
            Some(_) => b.in_open_modal,
            None => !speed_only || b.markers.playback_speed_dec || b.markers.playback_speed_inc,
        };
        if eligible {
            let key: (u8, u64) = match modal {
                Some(md) => (press_tier_of(md, b.markers), b.bits),
                None => (0u8, b.bits),
            };
            match best {
                None => {
                    best = Some(i);
                    best_key = key;
                },
                Some(_) => {
                    if key.0 < best_key.0 || (key.0 == best_key.0 && key.1 < best_key.1) {
                        best = Some(i);
                        best_key = key;
                    }
                },
            }
        }
        i = i + 1;
    }
    best
}

/// The button a mouse-down is captured for (by its bits). With a blocking modal open,
/// only buttons inside it compete, ranked by tier then bits; otherwise playback speed
/// buttons win over other buttons, lowest bits first.
pub open spec fn capture_spec(modal: Option<BlockingModal>, pressed: Seq<PressedButton>, t: Option<u64>) -> bool {
    match modal {
        Some(_) => match t {
            None => no_eligible_press(pressed, modal, false),
            Some(bits) => exists|k: int| is_press_winner(pressed, modal, false, k) && pressed[k].bits == bits,
        },
        None => if no_eligible_press(pressed, modal, true) {
            match t {
                None => no_eligible_press(pressed, modal, false),
                Some(bits) => exists|k: int| is_press_winner(pressed, modal, false, k) && pressed[k].bits == bits,
            }
        } else {
            t matches Some(bits) && exists|k: int| is_press_winner(pressed, modal, true, k) && pressed[k].bits == bits
        },
    }
}

/// While a blocking modal is open, a click is only ever captured for a button inside it.
pub proof fn law_modal_captures_only_its_buttons(modal: BlockingModal, pressed: Seq<PressedButton>, bits: u64)
    requires
        capture_spec(Some(modal), pressed, Some(bits)),
    ensures
        exists|k: int| 0 <= k < pressed.len() && pressed[k].in_open_modal && pressed[k].bits == bits,
{
    let k = choose|k: int| is_press_winner(pressed, Some(modal), false, k) && pressed[k].bits == bits;
    assert(pressed[k].in_open_modal);
}

/// The button that takes a click inside an open modal is one of its pressed buttons,
/// and no other pressed button inside the modal ranks before it.
proof fn lemma_modal_capture_winner(modal: BlockingModal, pressed: Seq<PressedButton>, t: Option<u64>, b: int) -> (k: int)
    requires
        capture_spec(Some(modal), pressed, t),
        0 <= b < pressed.len(),
        pressed[b].in_open_modal,
    ensures
        0 <= k < pressed.len(),
        pressed[k].in_open_modal,
        t == Some(pressed[k].bits),
        forall|j: int| 0 <= j < pressed.len() && (#[trigger] pressed[j]).in_open_modal
            ==> press_tier(modal, pressed[k].markers) <= press_tier(modal, pressed[j].markers),
{
    if t is None {
        assert(!press_eligible(Some(modal), false, pressed[b]));
    }
    let bits = t->0;
    let k = choose|k: int| is_press_winner(pressed, Some(modal), false, k) && pressed[k].bits == bits;
    assert forall|j: int| 0 <= j < pressed.len() && (#[trigger] pressed[j]).in_open_modal
        implies press_tier(modal, pressed[k].markers) <= press_tier(modal, pressed[j].markers) by {
        assert(press_eligible(Some(modal), false, pressed[j]));
    }
    k
}

/// In the skill shop a pressed Buy button takes the click ahead of the close button and
/// the backdrop beneath it; with no Buy button pressed, the close button takes it ahead
/// of the backdrop.
pub proof fn law_shop_buy_before_close_and_backdrop(pressed: Seq<PressedButton>, t: Option<u64>, b: int)
    requires
        capture_spec(Some(BlockingModal::SkillShop), pressed, t),
        0 <= b < pressed.len(),
        pressed[b].in_open_modal,
    ensures
        pressed[b].markers.shop_buy ==> exists|k: int|
            0 <= k < pressed.len() && (#[trigger] pressed[k]).in_open_modal && pressed[k].markers.shop_buy
                && t == Some(pressed[k].bits),
        (pressed[b].markers.shop_close && forall|j: int|
            0 <= j < pressed.len() && (#[trigger] pressed[j]).in_open_modal ==> !pressed[j].markers.shop_buy)
            ==> exists|k: int|
            0 <= k < pressed.len() && (#[trigger] pressed[k]).in_open_modal && pressed[k].markers.shop_close
                && t == Some(pressed[k].bits),
{
    let k = lemma_modal_capture_winner(BlockingModal::SkillShop, pressed, t, b);
    assert(press_tier(BlockingModal::SkillShop, pressed[k].markers) <= press_tier(
        BlockingModal::SkillShop,
        pressed[b].markers,
    ));
    assert(pressed[k].in_open_modal);
}

/// In the gear hub the pressed buttons take the click in this order: Equip, then
/// Salvage, then stash Sort, then Close, then the backdrop; a button of a later kind
/// takes it only when no pressed button of an earlier kind lies inside the hub.
pub proof fn law_gear_hub_button_order(pressed: Seq<PressedButton>, t: Option<u64>, b: int)
    requires
        capture_spec(Some(BlockingModal::GearHub), pressed, t),
        0 <= b < pressed.len(),
        pressed[b].in_open_modal,
    ensures
        pressed[b].markers.equip ==> exists|k: int|
            0 <= k < pressed.len() && (#[trigger] pressed[k]).in_open_modal && pressed[k].markers.equip
                && t == Some(pressed[k].bits),
        (pressed[b].markers.salvage && forall|j: int|
            0 <= j < pressed.len() && (#[trigger] pressed[j]).in_open_modal ==> !pressed[j].markers.equip)
            ==> exists|k: int|
            0 <= k < pressed.len() && (#[trigger] pressed[k]).in_open_modal && pressed[k].markers.salvage
                && t == Some(pressed[k].bits),
        (pressed[b].markers.stash_sort && forall|j: int|
            0 <= j < pressed.len() && (#[trigger] pressed[j]).in_open_modal ==> !pressed[j].markers.equip
                && !pressed[j].markers.salvage) ==> exists|k: int|
            0 <= k < pressed.len() && (#[trigger] pressed[k]).in_open_modal && pressed[k].markers.stash_sort
                && t == Some(pressed[k].bits),
        (pressed[b].markers.gear_close && forall|j: int|
            0 <= j < pressed.len() && (#[trigger] pressed[j]).in_open_modal ==> !pressed[j].markers.equip
                && !pressed[j].markers.salvage && !pressed[j].markers.stash_sort) ==> exists|k: int|
            0 <= k < pressed.len() && (#[trigger] pressed[k]).in_open_modal && pressed[k].markers.gear_close
                && t == Some(pressed[k].bits),
        (pressed[b].markers.gear_backdrop && forall|j: int|
            0 <= j < pressed.len() && (#[trigger] pressed[j]).in_open_modal ==> !pressed[j].markers.equip
                && !pressed[j].markers.salvage && !pressed[j].markers.stash_sort && !pressed[j].markers.gear_close)
            ==> exists|k: int|
            0 <= k < pressed.len() && (#[trigger] pressed[k]).in_open_modal && pressed[k].markers.gear_backdrop
                && t == Some(pressed[k].bits),
{
    let k = lemma_modal_capture_winner(BlockingModal::GearHub, pressed, t, b);
    assert(press_tier(BlockingModal::GearHub, pressed[k].markers) <= press_tier(
        BlockingModal::GearHub,
        pressed[b].markers,
    ));
    assert(pressed[k].in_open_modal);
}

/// In the settings modal the pressed buttons take the click in this order: the
/// presentation toggle, then Reset, then Close, then the backdrop; a button of a later
/// kind takes it only when no pressed button of an earlier kind lies inside the modal.
pub proof fn law_settings_button_order(pressed: Seq<PressedButton>, t: Option<u64>, b: int)
    requires
        capture_spec(Some(BlockingModal::Settings), pressed, t),
        0 <= b < pressed.len(),
        pressed[b].in_open_modal,
    ensures
        pressed[b].markers.presentation_settings_toggle ==> exists|k: int|
            0 <= k < pressed.len() && (#[trigger] pressed[k]).in_open_modal
                && pressed[k].markers.presentation_settings_toggle && t == Some(pressed[k].bits),
        (pressed[b].markers.reset && forall|j: int|
            0 <= j < pressed.len() && (#[trigger] pressed[j]).in_open_modal
                ==> !pressed[j].markers.presentation_settings_toggle) ==> exists|k: int|
            0 <= k < pressed.len() && (#[trigger] pressed[k]).in_open_modal && pressed[k].markers.reset
                && t == Some(pressed[k].bits),
        (pressed[b].markers.settings_close && forall|j: int|
            0 <= j < pressed.len() && (#[trigger] pressed[j]).in_open_modal
                ==> !pressed[j].markers.presentation_settings_toggle && !pressed[j].markers.reset)
            ==> exists|k: int|
            0 <= k < pressed.len() && (#[trigger] pressed[k]).in_open_modal && pressed[k].markers.settings_close
                && t == Some(pressed[k].bits),
        (pressed[b].markers.settings_backdrop && forall|j: int|
            0 <= j < pressed.len() && (#[trigger] pressed[j]).in_open_modal
                ==> !pressed[j].markers.presentation_settings_toggle && !pressed[j].markers.reset
                && !pressed[j].markers.settings_close) ==> exists|k: int|
            0 <= k < pressed.len() && (#[trigger] pressed[k]).in_open_modal
                && pressed[k].markers.settings_backdrop && t == Some(pressed[k].bits),
{
    let k = lemma_modal_capture_winner(BlockingModal::Settings, pressed, t, b);
    assert(press_tier(BlockingModal::Settings, pressed[k].markers) <= press_tier(
        BlockingModal::Settings,
        pressed[b].markers,
    ));
    assert(pressed[k].in_open_modal);
}

/// In the skill book any pressed control inside it takes the click ahead of the backdrop.
pub proof fn law_skill_book_backdrop_last(pressed: Seq<PressedButton>, t: Option<u64>, b: int)
    requires
        capture_spec(Some(BlockingModal::SkillBook), pressed, t),
        0 <= b < pressed.len(),
        pressed[b].in_open_modal,
        !pressed[b].markers.skill_book_backdrop,
    ensures
        exists|k: int|
            0 <= k < pressed.len() && (#[trigger] pressed[k]).in_open_modal
                && !pressed[k].markers.skill_book_backdrop && t == Some(pressed[k].bits),
{
    let k = lemma_modal_capture_winner(BlockingModal::SkillBook, pressed, t, b);
    assert(press_tier(BlockingModal::SkillBook, pressed[k].markers) <= press_tier(
        BlockingModal::SkillBook,
        pressed[b].markers,
    ));
    assert(pressed[k].in_open_modal);
}

/// Among pressed buttons that all carry the same markers (stacked backdrops, say), the
/// one inside the open modal with the lowest entity bits takes the click.
pub proof fn law_modal_ties_go_to_lowest_bits(modal: BlockingModal, pressed: Seq<PressedButton>, t: Option<u64>, b: int)
    requires
        capture_spec(Some(modal), pressed, t),
        0 <= b < pressed.len(),
        pressed[b].in_open_modal,
        forall|j: int| 0 <= j < pressed.len() ==> (#[trigger] pressed[j]).markers == pressed[0].markers,
    ensures
        t is Some,
        t->0 <= pressed[b].bits,
{
    let k = lemma_modal_capture_winner(modal, pressed, t, b);
    let bits = t->0;
    let w = choose|w: int| is_press_winner(pressed, Some(modal), false, w) && pressed[w].bits == bits;
    assert(press_eligible(Some(modal), false, pressed[b]));
    assert(!press_key_lt(press_key(Some(modal), pressed[b]), press_key(Some(modal), pressed[w])));
}

/// With no modal open a pressed playback speed button takes the click ahead of any other
/// button, lowest entity bits first among them; with no speed button pressed, the pressed
/// button with the lowest bits takes it; and a click with some button pressed is always
/// captured.
pub proof fn law_speed_buttons_first_without_modal(pressed: Seq<PressedButton>, t: Option<u64>, b: int)
    requires
        capture_spec(None, pressed, t),
        0 <= b < pressed.len(),
    ensures
        t is Some,
        (pressed[b].markers.playback_speed_dec || pressed[b].markers.playback_speed_inc) ==> exists|k: int|
            0 <= k < pressed.len() && (#[trigger] pressed[k].markers.playback_speed_dec
                || pressed[k].markers.playback_speed_inc) && t == Some(pressed[k].bits) && pressed[k].bits
                <= pressed[b].bits,
        (forall|j: int| 0 <= j < pressed.len() ==> !(#[trigger] pressed[j]).markers.playback_speed_dec
            && !pressed[j].markers.playback_speed_inc) ==> t->0 <= pressed[b].bits,
{
    assert(press_eligible(None, false, pressed[b]));
    if no_eligible_press(pressed, None, true) {
        let w = choose|w: int| is_press_winner(pressed, None, false, w) && pressed[w].bits == t->0;
        assert(!press_key_lt(press_key(None, pressed[b]), press_key(None, pressed[w])));
        if pressed[b].markers.playback_speed_dec || pressed[b].markers.playback_speed_inc {
            assert(press_eligible(None, true, pressed[b]));
        }
    } else {
        let w = choose|w: int| is_press_winner(pressed, None, true, w) && pressed[w].bits == t->0;
        if pressed[b].markers.playback_speed_dec || pressed[b].markers.playback_speed_inc {
            assert(press_eligible(None, true, pressed[b]));
            assert(!press_key_lt(press_key(None, pressed[b]), press_key(None, pressed[w])));
            assert(pressed[w].markers.playback_speed_dec || pressed[w].markers.playback_speed_inc);
        }
        let j = choose|j: int| 0 <= j < pressed.len() && press_eligible(None, true, #[trigger] pressed[j]);
        assert(pressed[j].markers.playback_speed_dec || pressed[j].markers.playback_speed_inc);
    }
}

pub fn capture_click_target(modal: Option<BlockingModal>, pressed: &Vec<PressedButton>) -> (t: Option<u64>)
    ensures
        capture_spec(modal, pressed@, t),
{
    match modal {
        Some(_) => match press_winner(pressed, modal, false) {
            Some(k) => Some(pressed[k].bits),
            None => None,
        },
        None => match press_winner(pressed, modal, true) {
            Some(k) => Some(pressed[k].bits),
            None => match press_winner(pressed, modal, false) {
                Some(k) => Some(pressed[k].bits),
                None => None,
            },
        },
    }
}

/// Parent of `e` in a `(child, parent)` table: the first row naming `e` as child.
pub open spec fn parent_in(parents: Seq<(u64, u64)>, e: u64) -> Option<u64>
    decreases parents.len(),
{
    if parents.len() == 0 {
        None
    } else if parents[0].0 == e {
        Some(parents[0].1)
    } else {
        parent_in(parents.drop_first(), e)
    }
}

/// Walking up at most `n` parents from `e` meets `root`.
pub open spec fn reaches_within(parents: Seq<(u64, u64)>, e: u64, root: u64, n: nat) -> bool
    decreases n,
{
    if e == root {
        true
    } else if n == 0 {
        false
    } else {
        match parent_in(parents, e) {
            Some(p) => reaches_within(parents, p, root, (n - 1) as nat),
            None => false,
        }
    }
}

/// Walking up from `e` meets `root` or a parentless entity within `n` steps.
pub open spec fn walk_ends_within(parents: Seq<(u64, u64)>, e: u64, root: u64, n: nat) -> bool
    decreases n,
{
    if e == root {
        true
    } else {
        match parent_in(parents, e) {
            None => true,
            Some(p) => n > 0 && walk_ends_within(parents, p, root, (n - 1) as nat),
        }
    }
}

/// `e` is `root` or one of its descendants.
pub open spec fn in_subtree(parents: Seq<(u64, u64)>, e: u64, root: u64) -> bool {
    exists|n: nat| reaches_within(parents, e, root, n)
}

fn parent_lookup(parents: &Vec<(u64, u64)>, e: u64) -> (p: Option<u64>)
    ensures
        p == parent_in(parents@, e),
{
    let mut i: usize = 0;
    assert(parents@.skip(0) =~= parents@);
    while i < parents.len()
        invariant
            i <= parents.len(),
            parent_in(parents@, e) == parent_in(parents@.skip(i as int), e),
        decreases parents.len() - i,
    {
        assert(parents@.skip(i as int)[0] == parents@[i as int]);
        if parents[i].0 == e {
            return Some(parents[i].1);
        }
        assert(parents@.skip(i as int).drop_first() =~= parents@.skip(i + 1));
        i = i + 1;
    }
    None
}

proof fn lemma_reaches_step(parents: Seq<(u64, u64)>, c: u64, p: u64, root: u64)
    requires
        c != root,
        parent_in(parents, c) == Some(p),
    ensures
        in_subtree(parents, c, root) == in_subtree(parents, p, root),
{
    if in_subtree(parents, c, root) {
        let n = choose|n: nat| reaches_within(parents, c, root, n);
        assert(reaches_within(parents, p, root, (n - 1) as nat));
    }
    if in_subtree(parents, p, root) {
        let m = choose|m: nat| reaches_within(parents, p, root, m);
        assert(reaches_within(parents, c, root, m + 1));
    }
}

proof fn lemma_no_parent_not_reached(parents: Seq<(u64, u64)>, c: u64, root: u64)
    requires
        c != root,
        parent_in(parents, c) is None,
    ensures
        !in_subtree(parents, c, root),
{
    assert forall|n: nat| !reaches_within(parents, c, root, n) by {}
}

/// Returns true when `entity` is `root` or a descendant of `root`, walking the
/// `(child, parent)` table upward. The walk must end (at `root` or at an entity
/// without parent); on a parent cycle that avoids `root` it would not.
pub fn entity_in_ui_subtree(entity: u64, root: u64, parents: &Vec<(u64, u64)>) -> (r: bool)
    requires
        exists|n: nat| walk_ends_within(parents@, entity, root, n),
    ensures
        r == in_subtree(parents@, entity, root),
{
    let ghost fuel: nat = choose|n: nat| walk_ends_within(parents@, entity, root, n);
    let mut current = entity;
    let ghost mut left: nat = fuel;
    loop
        invariant
            walk_ends_within(parents@, current, root, left),
            in_subtree(parents@, entity, root) == in_subtree(parents@, current, root),
        decreases left,
    {
        if current == root {
            assert(reaches_within(parents@, current, root, 0));
            return true;
        }
        match parent_lookup(parents, current) {
            None => {
                proof {
                    lemma_no_parent_not_reached(parents@, current, root);
                }
                return false;
            },
            Some(p) => {
                proof {
                    lemma_reaches_step(parents@, current, p, root);
                    left = (left - 1) as nat;
                }
                current = p;
            },
        }
    }
}

/// Declarative click target: what releasing the pointer on a control asks for.
#[derive(Clone, Copy, Debug, PartialEq, Eq, Structural)]
pub enum UiClickAction {
    TitleEnterCamp,
    TitleQuit,
    StartRun,
    SkipPlayback,
    AcceptRewards,
    ResetProgress,
    OpenSettings,
    CloseSettings,
}

/// The first control (in query order) that is the captured press target; a release
/// on it confirms the click whatever its interaction state.
pub open spec fn clicked_action_spec(
    just_released: bool,
    target: Option<u64>,
    buttons: Seq<(u64, Interaction, UiClickAction)>,
) -> Option<UiClickAction>
    decreases buttons.len(),
{
    if !just_released || target is None || buttons.len() == 0 {
        None
    } else if buttons[0].0 == target->0 {
        Some(buttons[0].2)
    } else {
        clicked_action_spec(just_released, target, buttons.drop_first())
    }
}

/// The action a mouse release triggers: none unless the left button was just released
/// over the control captured on press.
pub fn resolve_clicked_action(
    just_released: bool,
    target: Option<u64>,
    buttons: &Vec<(u64, Interaction, UiClickAction)>,
) -> (a: Option<UiClickAction>)
    ensures
        a == clicked_action_spec(just_released, target, buttons@),
{
    if !just_released {
        return None;
    }
    let t = match target {
        Some(t) => t,
        None => {
            return None;
        },
    };
    let mut i: usize = 0;
    assert(buttons@.skip(0) =~= buttons@);
    while i < buttons.len()
        invariant
            just_released,
            target == Some(t),
            i <= buttons.len(),
            clicked_action_spec(just_released, target, buttons@) == clicked_action_spec(
                just_released,
                target,
                buttons@.skip(i as int),
            ),
        decreases buttons.len() - i,
    {
        let (e, interaction, action) = buttons[i];
        assert(buttons@.skip(i as int)[0] == buttons@[i as int]);
        if e == t && ui_click_release_confirms(interaction) {
            return Some(action);
        }
        assert(buttons@.skip(i as int).drop_first() =~= buttons@.skip(i + 1));
        i = i + 1;
    }
    None
}

/// What the app does for a confirmed click.
#[derive(Clone, Copy, Debug, PartialEq, Eq, Structural)]
pub enum ClickEffect {
    /// Go to the build (camp) screen.
    EnterCamp,
    /// Exit the app.
    Quit,
    /// Start a run with the default seed.
    StartRun,
    SkipPlayback,
    AcceptRewards,
    ResetProgress,
    /// Handled elsewhere (the settings modal opens and closes itself).
    NoEffect,
}

pub fn click_effect(action: UiClickAction) -> (e: ClickEffect)
    ensures
        e == match action {
            UiClickAction::TitleEnterCamp => ClickEffect::EnterCamp,
            UiClickAction::TitleQuit => ClickEffect::Quit,
            UiClickAction::StartRun => ClickEffect::StartRun,
            UiClickAction::SkipPlayback => ClickEffect::SkipPlayback,
            UiClickAction::AcceptRewards => ClickEffect::AcceptRewards,
            UiClickAction::ResetProgress => ClickEffect::ResetProgress,
            UiClickAction::OpenSettings | UiClickAction::CloseSettings => ClickEffect::NoEffect,
        },
{
    match action {
        UiClickAction::TitleEnterCamp => ClickEffect::EnterCamp,
        UiClickAction::TitleQuit => ClickEffect::Quit,
        UiClickAction::StartRun => ClickEffect::StartRun,
        UiClickAction::SkipPlayback => ClickEffect::SkipPlayback,
        UiClickAction::AcceptRewards => ClickEffect::AcceptRewards,
        UiClickAction::ResetProgress => ClickEffect::ResetProgress,
        UiClickAction::OpenSettings | UiClickAction::CloseSettings => ClickEffect::NoEffect,
    }
}

} // verus!

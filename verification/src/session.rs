//! Transient party loadout editing: edits stay pending until applied.
use vstd::prelude::*;

verus! {

/// Number of skill slots in a loadout.
pub const LOADOUT_SLOT_COUNT: usize = 6;

/// A skill, by its catalogue number.
#[derive(Clone, Copy, Debug, PartialEq, Eq, Structural)]
pub struct SkillId(pub u16);

/// Which party member a loadout belongs to.
#[derive(Clone, Copy, Debug, PartialEq, Eq, Structural)]
pub enum PartyHeroKind {
    Player1,
    Player2,
}

/// What the buildcraft inspect panel shows.
#[derive(Clone, Copy, Debug, PartialEq, Eq, Structural)]
pub enum InspectTarget {
    NoTarget,
    Slot { hero: PartyHeroKind, index: usize },
    Library(SkillId),
}

/// The parts of a hero profile the loadout editor reads.
#[derive(Clone, Debug)]
pub struct HeroProfile {
    pub name: String,
    pub unlocked_skill_slots: usize,
    pub equipped_skills: Vec<Option<SkillId>>,
}

/// The parts of a save profile the loadout editor reads.
#[derive(Clone, Debug)]
pub struct SaveProfile {
    pub hero: HeroProfile,
    pub party_partner: Option<HeroProfile>,
}

/// One hero's loadout: the state when the editor opened, and the pending edit.
#[derive(Clone, Debug)]
pub struct HeroLoadoutEdit {
    pub hero: PartyHeroKind,
    pub display_name: String,
    pub unlocked: usize,
    pub snapshot: [Option<SkillId>; LOADOUT_SLOT_COUNT],
    pub pending: [Option<SkillId>; LOADOUT_SLOT_COUNT],
}

/// The first `LOADOUT_SLOT_COUNT` equipped skills, padded with empty slots.
pub open spec fn slots_from(equipped: Seq<Option<SkillId>>) -> Seq<Option<SkillId>> {
    Seq::new(
        LOADOUT_SLOT_COUNT as nat,
        |i: int|
            if i < equipped.len() {
                equipped[i]
            } else {
                None
            },
    )
}

/// Pending slots after putting `skill` into `slot`: another slot holding the same
/// skill is emptied; `None` just clears the slot.
pub open spec fn assign_spec(p: Seq<Option<SkillId>>, slot: int, skill: Option<SkillId>) -> Seq<
    Option<SkillId>,
> {
    Seq::new(
        p.len(),
        |i: int|
            if i == slot {
                skill
            } else if skill is Some && p[i] == skill {
                None
            } else {
                p[i]
            },
    )
}

/// No skill appears in two slots.
pub open spec fn no_duplicate_skills(p: Seq<Option<SkillId>>) -> bool {
    forall|i: int, j: int|
        0 <= i < p.len() && 0 <= j < p.len() && i != j && (#[trigger] p[i]) is Some ==> p[i] != #[trigger] p[j]
}

impl HeroLoadoutEdit {
    pub fn from_hero(hero: &HeroProfile, kind: PartyHeroKind) -> (e: Self)
        ensures
            e.hero == kind,
            e.display_name@ == hero.name@,
            e.unlocked == hero.unlocked_skill_slots,
            e.snapshot@ == slots_from(hero.equipped_skills@),
            e.pending@ == e.snapshot@,
    {
        let mut snapshot: [Option<SkillId>; LOADOUT_SLOT_COUNT] = [None; LOADOUT_SLOT_COUNT];
        let mut i: usize = 0;
        while i < LOADOUT_SLOT_COUNT
            invariant
                i <= LOADOUT_SLOT_COUNT,
                forall|k: int| 0 <= k < i ==> snapshot@[k] == slots_from(hero.equipped_skills@)[k],
                forall|k: int| i <= k < LOADOUT_SLOT_COUNT ==> snapshot@[k] is None,
            decreases LOADOUT_SLOT_COUNT - i,
        {
            if i < hero.equipped_skills.len() {
                snapshot[i] = hero.equipped_skills[i];
            }
            i = i + 1;
        }
        assert(snapshot@ =~= slots_from(hero.equipped_skills@));
        HeroLoadoutEdit {
            hero: kind,
            display_name: hero.name.clone(),
            unlocked: hero.unlocked_skill_slots,
            snapshot,
            pending: snapshot,
        }
    }

    /// The pending skill in slot `index` (none past the last slot).
    pub fn slot(&self, index: usize) -> (s: Option<SkillId>)
        ensures
            index < LOADOUT_SLOT_COUNT ==> s == self.pending@[index as int],
            index >= LOADOUT_SLOT_COUNT ==> s is None,
    {
        if index < LOADOUT_SLOT_COUNT {
            self.pending[index]
        } else {
            None
        }
    }

    /// Whether the pending loadout differs from the snapshot.
    pub fn is_changed(&self) -> (c: bool)
        ensures
            c == (self.pending@ != self.snapshot@),
    {
        let mut i: usize = 0;
        while i < LOADOUT_SLOT_COUNT
            invariant
                i <= LOADOUT_SLOT_COUNT,
                forall|k: int| 0 <= k < i ==> self.pending@[k] == self.snapshot@[k],
            decreases LOADOUT_SLOT_COUNT - i,
        {
            if self.pending[i] != self.snapshot[i] {
                return true;
            }
            i = i + 1;
        }
        assert(self.pending@ =~= self.snapshot@);
        false
    }

    /// Slots whose pending skill differs from the snapshot, in slot order, with the
    /// skill to write there: what applying the edit writes to the profile.
    pub fn changed_slots(&self) -> (ch: Vec<(usize, Option<SkillId>)>)
        ensures
            forall|k: int| 0 <= k < ch.len() ==> (#[trigger] ch@[k]).0 < LOADOUT_SLOT_COUNT
                && self.pending@[ch@[k].0 as int] != self.snapshot@[ch@[k].0 as int]
                && ch@[k].1 == self.pending@[ch@[k].0 as int],
            forall|a: int, b: int| 0 <= a < b < ch.len() ==> (#[trigger] ch@[a]).0 < (#[trigger] ch@[b]).0,
            forall|i: int| 0 <= i < LOADOUT_SLOT_COUNT && self.pending@[i] != self.snapshot@[i]
                ==> exists|k: int| 0 <= k < ch.len() && (#[trigger] ch@[k]).0 == i,
    {
        let mut ch: Vec<(usize, Option<SkillId>)> = Vec::new();
        let mut i: usize = 0;
        while i < LOADOUT_SLOT_COUNT
            invariant
                i <= LOADOUT_SLOT_COUNT,
                forall|k: int| 0 <= k < ch.len() ==> (#[trigger] ch@[k]).0 < i
                    && self.pending@[ch@[k].0 as int] != self.snapshot@[ch@[k].0 as int]
                    && ch@[k].1 == self.pending@[ch@[k].0 as int],
                forall|a: int, b: int| 0 <= a < b < ch.len() ==> (#[trigger] ch@[a]).0 < (#[trigger] ch@[b]).0,
                forall|j: int| 0 <= j < i && self.pending@[j] != self.snapshot@[j]
                    ==> exists|k: int| 0 <= k < ch.len() && (#[trigger] ch@[k]).0 == j,
            decreases LOADOUT_SLOT_COUNT - i,
        {
            if self.pending[i] != self.snapshot[i] {
                let ghost prev = ch@;
                ch.push((i, self.pending[i]));
                assert forall|j: int| 0 <= j < i + 1 && self.pending@[j] != self.snapshot@[j]
                    implies exists|k: int| 0 <= k < ch.len() && (#[trigger] ch@[k]).0 == j by {
                    if j == i {
                        assert(ch@[prev.len() as int].0 == j);
                    } else {
                        let k = choose|k: int| 0 <= k < prev.len() && (#[trigger] prev[k]).0 == j;
                        assert(ch@[k] == prev[k]);
                    }
                }
            }
            i = i + 1;
        }
        ch
    }
}

/// Puts `skill` into `slot` of the pending loadout, emptying any other slot that held it.
fn assign_in(edit: &mut HeroLoadoutEdit, slot: usize, skill: Option<SkillId>)
    requires
        slot < LOADOUT_SLOT_COUNT,
    ensures
        final(edit).pending@ == assign_spec(old(edit).pending@, slot as int, skill),
        final(edit).snapshot == old(edit).snapshot,
        final(edit).hero == old(edit).hero,
        final(edit).display_name == old(edit).display_name,
        final(edit).unlocked == old(edit).unlocked,
{
    match skill {
        Some(s) => {
            let mut i: usize = 0;
            while i < LOADOUT_SLOT_COUNT
                invariant
                    slot < LOADOUT_SLOT_COUNT,
                    i <= LOADOUT_SLOT_COUNT,
                    skill == Some(s),
                    forall|k: int| 0 <= k < i ==> edit.pending@[k] == (if k != slot && old(edit).pending@[k] == skill {
                        None
                    } else {
                        old(edit).pending@[k]
                    }),
                    forall|k: int| i <= k < LOADOUT_SLOT_COUNT ==> edit.pending@[k] == old(edit).pending@[k],
                    edit.snapshot == old(edit).snapshot,
                    edit.hero == old(edit).hero,
                    edit.display_name == old(edit).display_name,
                    edit.unlocked == old(edit).unlocked,
                decreases LOADOUT_SLOT_COUNT - i,
            {
                if i != slot && edit.pending[i] == Some(s) {
                    edit.pending[i] = None;
                }
                i = i + 1;
            }
            edit.pending[slot] = Some(s);
        },
        None => {
            edit.pending[slot] = None;
        },
    }
    assert(edit.pending@ =~= assign_spec(old(edit).pending@, slot as int, skill));
}

/// The party loadout editor: both heroes' edits, the focused slot, and the inspect target.
#[derive(Debug)]
pub struct BuildcraftEditSession {
    pub lead: HeroLoadoutEdit,
    pub partner: Option<HeroLoadoutEdit>,
    pub focused: (PartyHeroKind, usize),
    pub hover_inspect: InspectTarget,
}

impl BuildcraftEditSession {
    /// Opens the editor on a profile, focusing `focus_slot` (clamped to the last slot).
    pub fn open_from_profile(profile: &SaveProfile, focus_hero: PartyHeroKind, focus_slot: usize) -> (s: Self)
        ensures
            s.lead.hero == PartyHeroKind::Player1,
            s.lead.display_name@ == profile.hero.name@,
            s.lead.unlocked == profile.hero.unlocked_skill_slots,
            s.lead.snapshot@ == slots_from(profile.hero.equipped_skills@),
            s.lead.pending@ == s.lead.snapshot@,
            s.partner is Some <==> profile.party_partner is Some,
            s.partner matches Some(e) ==> profile.party_partner matches Some(h) && e.hero
                == PartyHeroKind::Player2 && e.display_name@ == h.name@ && e.unlocked
                == h.unlocked_skill_slots && e.snapshot@ == slots_from(h.equipped_skills@)
                && e.pending@ == e.snapshot@,
            s.focused.0 == focus_hero,
            s.focused.1 == if focus_slot < LOADOUT_SLOT_COUNT - 1 {
                focus_slot
            } else {
                (LOADOUT_SLOT_COUNT - 1) as usize
            },
            s.hover_inspect == (InspectTarget::Slot { hero: s.focused.0, index: s.focused.1 }),
    {
        let lead = HeroLoadoutEdit::from_hero(&profile.hero, PartyHeroKind::Player1);
        let partner = match &profile.party_partner {
            Some(h) => Some(HeroLoadoutEdit::from_hero(h, PartyHeroKind::Player2)),
            None => None,
        };
        let slot = if focus_slot < LOADOUT_SLOT_COUNT - 1 { focus_slot } else { LOADOUT_SLOT_COUNT - 1 };
        BuildcraftEditSession {
            lead,
            partner,
            focused: (focus_hero, slot),
            hover_inspect: InspectTarget::Slot { hero: focus_hero, index: slot },
        }
    }

    /// The edit of `hero`, if that hero is in the party.
    pub open spec fn loadout_spec(&self, hero: PartyHeroKind) -> Option<HeroLoadoutEdit> {
        match hero {
            PartyHeroKind::Player1 => Some(self.lead),
            PartyHeroKind::Player2 => self.partner,
        }
    }

    /// The edit of `hero`, if that hero is in the party.
    pub fn loadout(&self, hero: PartyHeroKind) -> (e: Option<&HeroLoadoutEdit>)
        ensures
            e matches Some(x) ==> self.loadout_spec(hero) == Some(*x),
            e is None <==> self.loadout_spec(hero) is None,
    {
        match hero {
            PartyHeroKind::Player1 => Some(&self.lead),
            PartyHeroKind::Player2 => match &self.partner {
                Some(p) => Some(p),
                None => None,
            },
        }
    }

    /// Focuses slot `index` of `hero`; an index past the last slot is ignored.
    pub fn set_focus(&mut self, hero: PartyHeroKind, index: usize)
        ensures
            index >= LOADOUT_SLOT_COUNT ==> *final(self) == *old(self),
            index < LOADOUT_SLOT_COUNT ==> final(self).focused == (hero, index) && final(self).hover_inspect
                == (InspectTarget::Slot { hero, index }) && final(self).lead == old(self).lead
                && final(self).partner == old(self).partner,
    {
        if index >= LOADOUT_SLOT_COUNT {
            return;
        }
        self.focused = (hero, index);
        self.hover_inspect = InspectTarget::Slot { hero, index };
    }

    /// Whether assigning to the focused slot takes effect: the focused hero is in the
    /// party and the focused slot is unlocked for that hero.
    pub open spec fn focus_assignable(&self) -> bool {
        &&& self.loadout_spec(self.focused.0) is Some
        &&& self.focused.1 < self.loadout_spec(self.focused.0)->0.unlocked
    }

    /// Assign to the focused slot; the same skill is evicted from other slots of
    /// **this hero only**.
    pub fn assign_to_focused(&mut self, skill: Option<SkillId>)
        requires
            old(self).focus_assignable() ==> old(self).focused.1 < LOADOUT_SLOT_COUNT,
        ensures
            !old(self).focus_assignable() ==> *final(self) == *old(self),
            old(self).focus_assignable() ==> {
                let (hero, slot) = old(self).focused;
                let before = old(self).loadout_spec(hero)->0;
                let after = final(self).loadout_spec(hero)->0;
                &&& final(self).loadout_spec(hero) is Some
                &&& after.pending@ == assign_spec(before.pending@, slot as int, skill)
                &&& after.snapshot == before.snapshot
                &&& after.hero == before.hero
                &&& after.display_name == before.display_name
                &&& after.unlocked == before.unlocked
                &&& hero == PartyHeroKind::Player1 ==> final(self).partner == old(self).partner
                &&& hero == PartyHeroKind::Player2 ==> final(self).lead == old(self).lead
                &&& final(self).focused == old(self).focused
                &&& final(self).hover_inspect == (InspectTarget::Slot { hero, index: slot })
            },
    {
        let (hero, slot) = self.focused;
        match hero {
            PartyHeroKind::Player1 => {
                if slot >= self.lead.unlocked {
                    return;
                }
                assign_in(&mut self.lead, slot, skill);
            },
            PartyHeroKind::Player2 => {
                match &mut self.partner {
                    Some(p) => {
                        if slot >= p.unlocked {
                            return;
                        }
                        assign_in(p, slot, skill);
                    },
                    None => {
                        return;
                    },
                }
            },
        }
        self.hover_inspect = InspectTarget::Slot { hero, index: slot };
    }

    /// Whether any hero's pending loadout differs from its snapshot.
    pub fn is_dirty(&self) -> (d: bool)
        ensures
            d == (self.lead.pending@ != self.lead.snapshot@ || (self.partner matches Some(p)
                && p.pending@ != p.snapshot@)),
    {
        if self.lead.is_changed() {
            return true;
        }
        match &self.partner {
            Some(p) => p.is_changed(),
            None => false,
        }
    }
}

/// A hero's first `LOADOUT_SLOT_COUNT` equipped skills, padded with empty slots.
pub fn slots_from_hero(hero: &HeroProfile) -> (slots: [Option<SkillId>; LOADOUT_SLOT_COUNT])
    ensures
        slots@ == slots_from(hero.equipped_skills@),
{
    HeroLoadoutEdit::from_hero(hero, PartyHeroKind::Player1).snapshot
}

/// Name shown for party slot `slot`: the lead (0), the partner (1, empty when there
/// is none), empty otherwise.
pub fn hero_display_name_for_slot(profile: &SaveProfile, slot: u8) -> (name: String)
    ensures
        name@ == if slot == 0 {
            profile.hero.name@
        } else if slot == 1 {
            match profile.party_partner {
                Some(p) => p.name@,
                None => Seq::<char>::empty(),
            }
        } else {
            Seq::<char>::empty()
        },
{
    match slot {
        0 => profile.hero.name.clone(),
        1 => match &profile.party_partner {
            Some(p) => p.name.clone(),
            None => String::new(),
        },
        _ => String::new(),
    }
}

/// Assigning a skill leaves it in exactly the target slot of that loadout.
pub proof fn law_assigned_skill_held_once(p: Seq<Option<SkillId>>, slot: int, s: SkillId)
    requires
        0 <= slot < p.len(),
    ensures
        assign_spec(p, slot, Some(s))[slot] == Some(s),
        forall|i: int| 0 <= i < p.len() && i != slot ==> assign_spec(p, slot, Some(s))[i] != Some(s),
{
}

/// Assignment keeps a loadout free of duplicate skills.
pub proof fn law_assign_preserves_no_duplicates(p: Seq<Option<SkillId>>, slot: int, skill: Option<SkillId>)
    requires
        0 <= slot < p.len(),
        no_duplicate_skills(p),
    ensures
        no_duplicate_skills(assign_spec(p, slot, skill)),
{
    let q = assign_spec(p, slot, skill);
    assert forall|i: int, j: int|
        0 <= i < q.len() && 0 <= j < q.len() && i != j && (#[trigger] q[i]) is Some implies q[i] != #[trigger] q[j] by {
        if i != slot && j != slot {
            assert(p[i] is Some);
        }
    }
}

/// Assigning the same skill to the same slot twice has the effect of assigning it once.
pub proof fn law_assign_idempotent(p: Seq<Option<SkillId>>, slot: int, skill: Option<SkillId>)
    requires
        0 <= slot < p.len(),
    ensures
        assign_spec(assign_spec(p, slot, skill), slot, skill) == assign_spec(p, slot, skill),
{
    assert(assign_spec(assign_spec(p, slot, skill), slot, skill) =~= assign_spec(p, slot, skill));
}

/// Clearing a slot only empties that slot.
pub proof fn law_clear_only_touches_slot(p: Seq<Option<SkillId>>, slot: int)
    requires
        0 <= slot < p.len(),
    ensures
        assign_spec(p, slot, None) == p.update(slot, None),
{
    assert(assign_spec(p, slot, None) =~= p.update(slot, None));
}

} // verus!

//! Hero rename field: keyboard editing of the name buffer and the name it commits.
use vstd::prelude::*;

use crate::session::SaveProfile;
use crate::text::{chars_of, string_from_chars, trim_chars};

verus! {

/// Rename field state: which party slot is being renamed, and the typed text.
#[derive(Clone, Debug)]
pub struct HeroNameEditState {
    pub active_slot: Option<u8>,
    pub buffer: String,
}

impl Default for HeroNameEditState {
    fn default() -> (s: Self)
        ensures
            s.active_slot is None,
            s.buffer@.len() == 0,
    {
        HeroNameEditState { active_slot: None, buffer: String::new() }
    }
}

/// Control characters (general category Cc), as `char::is_control` defines them.
pub open spec fn is_control(c: char) -> bool {
    (c as u32) <= 0x1f || (0x7f <= (c as u32) && (c as u32) <= 0x9f)
}

/// Buffer after typing `text`: newlines and control characters are dropped, and
/// characters beyond `max_len` are refused.
pub open spec fn typed_spec(buf: Seq<char>, text: Seq<char>, max_len: nat) -> Seq<char>
    decreases text.len(),
{
    if text.len() == 0 {
        buf
    } else {
        let before = typed_spec(buf, text.drop_last(), max_len);
        let c = text.last();
        if c == '\r' || c == '\n' || is_control(c) || before.len() >= max_len {
            before
        } else {
            before.push(c)
        }
    }
}

/// The name a rename commits: the trimmed buffer cut to `max_len` characters, or
/// `default_name` when the trimmed buffer is empty.
pub open spec fn committed_name(buf: Seq<char>, default_name: Seq<char>, max_len: nat) -> Seq<char> {
    let t = crate::text::trim(buf);
    if t.len() == 0 {
        default_name
    } else if t.len() <= max_len {
        t
    } else {
        t.take(max_len as int)
    }
}

pub fn finalize_hero_name(buffer: &str, default_name: &str, max_len: usize) -> (name: String)
    ensures
        name@ == committed_name(buffer@, default_name@, max_len as nat),
{
    let chars = chars_of(buffer);
    let t = trim_chars(&chars);
    if t.len() == 0 {
        let d = chars_of(default_name);
        return string_from_chars(&d);
    }
    let n = if t.len() <= max_len { t.len() } else { max_len };
    let mut out: Vec<char> = Vec::new();
    let mut i: usize = 0;
    while i < n
        invariant
            n <= t.len(),
            i <= n,
            out@ == t@.take(i as int),
        decreases n - i,
    {
        out.push(t[i]);
        i = i + 1;
        assert(out@ =~= t@.take(i as int));
    }
    assert(t@.take(t@.len() as int) =~= t@);
    string_from_chars(&out)
}

/// Appends typed text to the buffer, keeping at most `max_len` characters.
pub fn accept_typed_text(buffer: &mut String, text: &str, max_len: usize)
    ensures
        final(buffer)@ == typed_spec(old(buffer)@, text@, max_len as nat),
{
    let mut buf = chars_of(buffer.as_str());
    let t = chars_of(text);
    let ghost start = buf@;
    let mut i: usize = 0;
    while i < t.len()
        invariant
            i <= t.len(),
            buf@ == typed_spec(start, t@.take(i as int), max_len as nat),
        decreases t.len() - i,
    {
        let c = t[i];
        let code = c as u32;
        let control = code <= 0x1f || (0x7f <= code && code <= 0x9f);
        assert(t@.take(i + 1).drop_last() =~= t@.take(i as int));
        if !(c == '\r' || c == '\n' || control || buf.len() >= max_len) {
            buf.push(c);
        }
        i = i + 1;
    }
    assert(t@.take(t@.len() as int) =~= t@);
    *buffer = string_from_chars(&buf);
}

/// Removes the last character of the buffer, if any.
pub fn backspace(buffer: &mut String)
    ensures
        final(buffer)@ == if old(buffer)@.len() > 0 {
            old(buffer)@.drop_last()
        } else {
            old(buffer)@
        },
{
    let mut buf = chars_of(buffer.as_str());
    if buf.len() > 0 {
        buf.pop();
    }
    *buffer = string_from_chars(&buf);
}

/// What one frame of rename input did.
#[derive(Debug)]
pub enum RenameOutcome {
    /// No rename in progress, or input blocked by a modal.
    Ignored,
    /// Left the build screen or pressed Escape: the edit is dropped.
    Cancelled,
    /// Enter: this name goes to this party slot.
    Committed { slot: u8, name: String },
    /// The buffer was edited (or left as is).
    Edited,
}

/// Keys pressed this frame that the rename field reacts to.
#[derive(Clone, Copy, Debug, PartialEq, Eq, Structural)]
pub struct RenameKeys {
    pub escape: bool,
    pub enter: bool,
    pub backspace: bool,
}

/// Buffer after a backspace (when pressed) and the typed texts, in order.
pub open spec fn edited_spec(buf: Seq<char>, backspace: bool, typed: Seq<Seq<char>>, max_len: nat) -> Seq<char>
    decreases typed.len(),
{
    if typed.len() == 0 {
        if backspace && buf.len() > 0 {
            buf.drop_last()
        } else {
            buf
        }
    } else {
        typed_spec(edited_spec(buf, backspace, typed.drop_last(), max_len), typed.last(), max_len)
    }
}

/// One frame of rename input. `in_build` tells whether the build screen is shown,
/// `blocked` whether a settings or skill book modal holds the keyboard; `typed` are
/// the texts of this frame's fresh key presses.
pub fn rename_step(
    edit: &mut HeroNameEditState,
    in_build: bool,
    blocked: bool,
    keys: RenameKeys,
    typed: &Vec<String>,
    default_name: &str,
    max_len: usize,
) -> (outcome: RenameOutcome)
    ensures
        old(edit).active_slot is None ==> outcome is Ignored && final(edit).active_slot is None
            && final(edit).buffer@ == old(edit).buffer@,
        old(edit).active_slot is Some && !in_build ==> outcome is Cancelled && final(edit).active_slot is None
            && final(edit).buffer@.len() == 0,
        old(edit).active_slot is Some && in_build && blocked ==> outcome is Ignored
            && final(edit).active_slot == old(edit).active_slot && final(edit).buffer@ == old(edit).buffer@,
        old(edit).active_slot is Some && in_build && !blocked && keys.escape ==> outcome is Cancelled
            && final(edit).active_slot is None && final(edit).buffer@.len() == 0,
        old(edit).active_slot is Some && in_build && !blocked && !keys.escape && keys.enter ==> (outcome matches RenameOutcome::Committed { slot, name }
            && Some(slot) == old(edit).active_slot && name@ == committed_name(old(edit).buffer@, default_name@, max_len as nat))
            && final(edit).active_slot is None && final(edit).buffer@.len() == 0,
        old(edit).active_slot is Some && in_build && !blocked && !keys.escape && !keys.enter ==> outcome is Edited
            && final(edit).active_slot == old(edit).active_slot && final(edit).buffer@ == edited_spec(
            old(edit).buffer@,
            keys.backspace,
            crate::text::views(typed@),
            max_len as nat,
        ),
{
    match edit.active_slot {
        None => {
            return RenameOutcome::Ignored;
        },
        Some(slot) => {
            if !in_build {
                edit.active_slot = None;
                edit.buffer = String::new();
                return RenameOutcome::Cancelled;
            }
            if blocked {
                return RenameOutcome::Ignored;
            }
            if keys.escape {
                edit.active_slot = None;
                edit.buffer = String::new();
                return RenameOutcome::Cancelled;
            }
            if keys.enter {
                let name = finalize_hero_name(edit.buffer.as_str(), default_name, max_len);
                edit.active_slot = None;
                edit.buffer = String::new();
                return RenameOutcome::Committed { slot, name };
            }
            if keys.backspace {
                backspace(&mut edit.buffer);
            }
            let ghost start = old(edit).buffer@;
            let mut i: usize = 0;
            while i < typed.len()
                invariant
                    i <= typed.len(),
                    edit.active_slot == old(edit).active_slot,
                    edit.buffer@ == edited_spec(start, keys.backspace, crate::text::views(typed@).take(i as int), max_len as nat),
                decreases typed.len() - i,
            {
                proof {
                    assert(crate::text::views(typed@).take(i + 1).drop_last() =~= crate::text::views(typed@).take(i as int));
                    if i == 0 {
                        assert(crate::text::views(typed@).take(0) =~= Seq::<Seq<char>>::empty());
                    }
                }
                accept_typed_text(&mut edit.buffer, typed[i].as_str(), max_len);
                i = i + 1;
            }
            assert(crate::text::views(typed@).take(typed@.len() as int) =~= crate::text::views(typed@));
            RenameOutcome::Edited
        },
    }
}

/// Writes a committed name to party slot `slot`: 0 is the lead, 1 the partner (when
/// there is one); other slots change nothing.
pub fn apply_hero_name(profile: &mut SaveProfile, slot: u8, name: String)
    ensures
        slot == 0 ==> final(profile).hero.name@ == name@ && final(profile).hero.unlocked_skill_slots
            == old(profile).hero.unlocked_skill_slots && final(profile).hero.equipped_skills
            == old(profile).hero.equipped_skills && final(profile).party_partner == old(profile).party_partner,
        slot == 1 ==> final(profile).hero == old(profile).hero && (match old(profile).party_partner {
            Some(p) => final(profile).party_partner matches Some(q) && q.name@ == name@
                && q.unlocked_skill_slots == p.unlocked_skill_slots && q.equipped_skills == p.equipped_skills,
            None => final(profile).party_partner is None,
        }),
        slot > 1 ==> final(profile).hero == old(profile).hero && final(profile).party_partner == old(profile).party_partner,
{
    if slot == 0 {
        profile.hero.name = name;
    } else if slot == 1 {
        match &mut profile.party_partner {
            Some(p) => {
                p.name = name;
            },
            None => {},
        }
    }
}

/// The name kept after committing respects the limit and is never blank.
pub proof fn law_committed_name_bounded(buf: Seq<char>, default_name: Seq<char>, max_len: nat)
    requires
        default_name.len() > 0,
        max_len > 0,
    ensures
        committed_name(buf, default_name, max_len).len() > 0,
        crate::text::trim(buf).len() > 0 ==> committed_name(buf, default_name, max_len).len() <= max_len,
{
}

/// Typing never grows the buffer past the limit (once it is within the limit).
pub proof fn law_typed_within_limit(buf: Seq<char>, text: Seq<char>, max_len: nat)
    requires
        buf.len() <= max_len,
    ensures
        typed_spec(buf, text, max_len).len() <= max_len,
    decreases text.len(),
{
    if text.len() > 0 {
        law_typed_within_limit(buf, text.drop_last(), max_len);
    }
}

} // verus!

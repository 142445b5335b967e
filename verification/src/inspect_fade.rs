//! Debounced inspect content swaps: which content key is shown, which is pending,
//! and when new content must be applied. Timers and alpha live with the caller.
use vstd::prelude::*;

verus! {

/// What one frame of the inspect fade did.
#[derive(Clone, Copy, Debug, PartialEq, Eq, Structural)]
pub enum InspectFadeTick {
    Idle,
    ApplyContent,
    Animating,
}

/// What the caller must do with its debounce timer after a target notification.
#[derive(Clone, Copy, Debug, PartialEq, Eq, Structural)]
pub enum DebounceEffect {
    /// The target is already shown: stop any debounce.
    Stop,
    /// The same target is already pending and debouncing: leave the timer alone.
    Keep,
    /// A new target is pending: restart the debounce timer.
    Restart,
}

/// Content keys of the inspect panel: the one shown, the one waiting for its
/// debounce to settle, and whether fresh content still has to be applied.
#[derive(Clone, Debug)]
pub struct InspectFadeKeys {
    pub displayed_key: String,
    pub pending_key: String,
    pub apply_pending: bool,
}

/// Abstract state of [`InspectFadeKeys`].
pub struct FadeKeysModel {
    pub displayed: Seq<char>,
    pub pending: Seq<char>,
    pub apply: bool,
}

impl View for InspectFadeKeys {
    type V = FadeKeysModel;

    open spec fn view(&self) -> FadeKeysModel {
        FadeKeysModel { displayed: self.displayed_key@, pending: self.pending_key@, apply: self.apply_pending }
    }
}

/// State and timer effect after a target notification.
pub open spec fn notify_spec(s: FadeKeysModel, key: Seq<char>, debouncing: bool) -> (FadeKeysModel, DebounceEffect) {
    if key == s.displayed {
        (FadeKeysModel { displayed: s.displayed, pending: Seq::empty(), apply: false }, DebounceEffect::Stop)
    } else if key == s.pending && debouncing {
        (s, DebounceEffect::Keep)
    } else {
        (FadeKeysModel { displayed: s.displayed, pending: key, apply: false }, DebounceEffect::Restart)
    }
}

/// Whether a settled debounce swaps in the pending key.
pub open spec fn settle_applies(s: FadeKeysModel) -> bool {
    s.pending.len() > 0 && s.pending != s.displayed
}

/// State after the debounce timer runs out.
pub open spec fn settle_spec(s: FadeKeysModel) -> FadeKeysModel {
    if settle_applies(s) {
        FadeKeysModel { displayed: s.pending, pending: s.pending, apply: true }
    } else {
        s
    }
}

impl InspectFadeKeys {
    pub fn new() -> (k: Self)
        ensures
            k@ == (FadeKeysModel { displayed: Seq::empty(), pending: Seq::empty(), apply: false }),
    {
        InspectFadeKeys { displayed_key: String::new(), pending_key: String::new(), apply_pending: false }
    }

    pub fn is_uninitialized(&self) -> (u: bool)
        ensures
            u == (self@.displayed.len() == 0),
    {
        self.displayed_key.as_str().is_empty()
    }

    /// First content: show `key` at once and ask for it to be applied.
    pub fn mark_initialized(&mut self, key: String)
        ensures
            final(self)@ == (FadeKeysModel { displayed: key@, pending: Seq::empty(), apply: true }),
    {
        self.displayed_key = key;
        self.pending_key = String::new();
        self.apply_pending = true;
    }

    /// A (possibly new) inspect target; `debouncing` tells whether the caller's
    /// debounce timer is still running.
    pub fn notify_target(&mut self, key: String, debouncing: bool) -> (effect: DebounceEffect)
        ensures
            (final(self)@, effect) == notify_spec(old(self)@, key@, debouncing),
    {
        if key == self.displayed_key {
            self.pending_key = String::new();
            self.apply_pending = false;
            return DebounceEffect::Stop;
        }
        if key == self.pending_key && debouncing {
            return DebounceEffect::Keep;
        }
        self.pending_key = key;
        self.apply_pending = false;
        DebounceEffect::Restart
    }

    /// The debounce timer just ran out: swap in the pending key if it names new content.
    /// Returns whether content was swapped (the caller then starts the fade-in).
    pub fn debounce_settled(&mut self) -> (applied: bool)
        ensures
            applied == settle_applies(old(self)@),
            final(self)@ == settle_spec(old(self)@),
    {
        if !self.pending_key.as_str().is_empty() && self.pending_key != self.displayed_key {
            self.displayed_key = self.pending_key.clone();
            self.apply_pending = true;
            true
        } else {
            false
        }
    }

    /// Whether fresh content must be applied; the request is consumed.
    pub fn take_apply_pending(&mut self) -> (apply: bool)
        ensures
            apply == old(self)@.apply,
            final(self)@ == (FadeKeysModel { apply: false, ..old(self)@ }),
    {
        let apply = self.apply_pending;
        self.apply_pending = false;
        apply
    }
}

/// A target change that is not the shown content is applied once its debounce
/// settles, and a fresh apply request is raised for it.
pub proof fn law_settled_target_is_applied(s: FadeKeysModel, key: Seq<char>, debouncing: bool)
    requires
        key.len() > 0,
        key != s.displayed,
    ensures
        settle_applies(notify_spec(s, key, debouncing).0),
        settle_spec(notify_spec(s, key, debouncing).0).displayed == key,
        settle_spec(notify_spec(s, key, debouncing).0).apply,
{
}

/// Pointing back at the shown content cancels the pending swap: the next settle changes nothing.
pub proof fn law_return_to_displayed_cancels(s: FadeKeysModel, debouncing: bool)
    ensures
        !settle_applies(notify_spec(s, s.displayed, debouncing).0),
        settle_spec(notify_spec(s, s.displayed, debouncing).0).displayed == s.displayed,
        !settle_spec(notify_spec(s, s.displayed, debouncing).0).apply,
{
}

/// A settled swap happens once: settling again applies nothing new.
pub proof fn law_settle_once(s: FadeKeysModel)
    ensures
        !settle_applies(settle_spec(s)),
        settle_spec(settle_spec(s)) == settle_spec(s),
{
}

/// The frame's outcome: content applied wins over an ongoing fade, else idle.
pub fn tick_outcome(applied: bool, fading: bool) -> (t: InspectFadeTick)
    ensures
        applied ==> t == InspectFadeTick::ApplyContent,
        !applied && fading ==> t == InspectFadeTick::Animating,
        !applied && !fading ==> t == InspectFadeTick::Idle,
{
    if applied {
        InspectFadeTick::ApplyContent
    } else if fading {
        InspectFadeTick::Animating
    } else {
        InspectFadeTick::Idle
    }
}

} // verus!

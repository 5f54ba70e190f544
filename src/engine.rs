use vstd::prelude::*;
use crate::keys::{is_modifier_key, modifier_of, modifier_of_spec, ModifierSet, KEY_COUNT, KEY_ESC};
use crate::keyset::{held_codes, KeySet};
use crate::state::{step_keys, step_mods, KeyboardState, RELEASE};

verus! {

/// A binding of a modifier set and a key to a shell command.
pub struct Hotkey {
    pub modifiers: ModifierSet,
    pub keysym: u16,
    pub command: String,
}

impl Hotkey {
    pub fn new(modifiers: ModifierSet, keysym: u16, command: String) -> (r: Hotkey)
        ensures
            r == (Hotkey { modifiers, keysym, command }),
    {
        Hotkey { modifiers, keysym, command }
    }

    /// A binding, unless its key is itself a modifier key: such a binding
    /// could never be told apart from its own modifiers.
    pub fn checked(modifiers: ModifierSet, keysym: u16, command: String) -> (r: Option<Hotkey>)
        ensures
            is_modifier_key(keysym) ==> r.is_none(),
            !is_modifier_key(keysym) ==> r == Some(Hotkey { modifiers, keysym, command }),
    {
        if modifier_of(keysym).is_some() {
            None
        } else {
            Some(Hotkey { modifiers, keysym, command })
        }
    }

    /// A field-by-field copy.
    pub fn duplicate(&self) -> (r: Hotkey)
        ensures
            r == *self,
    {
        Hotkey { modifiers: self.modifiers, keysym: self.keysym, command: self.command.clone() }
    }
}

/// An event is a hotkey event when some binding has its code as key and the
/// held modifiers as its modifier set; such events are not passed through.
pub open spec fn hotkey_event_spec(hotkeys: Seq<Hotkey>, mods: ModifierSet, code: u16) -> bool {
    exists|i: int|
        0 <= i < hotkeys.len() && #[trigger] hotkeys[i].keysym == code && hotkeys[i].modifiers
            == mods
}

/// A binding fires when its modifiers equal the held ones and its key is held.
pub open spec fn fires(h: Hotkey, mods: ModifierSet, keys: Set<u16>) -> bool {
    h.modifiers == mods && keys.contains(h.keysym)
}

pub open spec fn some_fires(hotkeys: Seq<Hotkey>, mods: ModifierSet, keys: Set<u16>) -> bool {
    exists|i: int| 0 <= i < hotkeys.len() && fires(#[trigger] hotkeys[i], mods, keys)
}

/// `i` is the first binding, in table order, that fires.
pub open spec fn first_firing(hotkeys: Seq<Hotkey>, mods: ModifierSet, keys: Set<u16>, i: int) -> bool {
    0 <= i < hotkeys.len() && fires(hotkeys[i], mods, keys) && forall|j: int|
        0 <= j < i ==> !fires(#[trigger] hotkeys[j], mods, keys)
}

/// The escape combination that ends a temporary pause: Super, Shift and Escape.
pub open spec fn escape_held(mods: ModifierSet, keys: Set<u16>) -> bool {
    mods == (ModifierSet { super_key: true, alt: false, control: false, shift: true })
        && keys.contains(KEY_ESC)
}

/// Whether a key event releases one of the keys of the latched hotkey;
/// `keys` are the keys held before the event.
pub open spec fn releases_latched(last: Option<Hotkey>, keys: Set<u16>, code: u16, value: i32) -> bool {
    match last {
        Some(h) => value == RELEASE && match modifier_of_spec(code) {
            Some(m) => h.modifiers.has(m),
            None => keys.contains(code) && code == h.keysym,
        },
        None => false,
    }
}

/// Decides whether an event passes through to the virtual output: it does
/// not when it is a hotkey event under the held modifiers.
pub fn event_in_hotkeys(hotkeys: &Vec<Hotkey>, mods: ModifierSet, code: u16) -> (r: bool)
    ensures
        r == hotkey_event_spec(hotkeys@, mods, code),
{
    let mut i: usize = 0;
    while i < hotkeys.len()
        invariant
            i <= hotkeys.len(),
            forall|j: int|
                0 <= j < i ==> !(#[trigger] hotkeys@[j].keysym == code && hotkeys@[j].modifiers
                    == mods),
        decreases hotkeys.len() - i,
    {
        if hotkeys[i].keysym == code && hotkeys[i].modifiers.same_as(&mods) {
            return true;
        }
        i = i + 1;
    }
    false
}

/// The index of the first binding that fires, if any.
pub fn first_match(hotkeys: &Vec<Hotkey>, mods: ModifierSet, keys: &KeySet) -> (r: Option<usize>)
    ensures
        match r {
            Some(i) => first_firing(hotkeys@, mods, held_codes(*keys), i as int),
            None => !some_fires(hotkeys@, mods, held_codes(*keys)),
        },
{
    let mut i: usize = 0;
    while i < hotkeys.len()
        invariant
            i <= hotkeys.len(),
            forall|j: int| 0 <= j < i ==> !fires(#[trigger] hotkeys@[j], mods, held_codes(*keys)),
        decreases hotkeys.len() - i,
    {
        if hotkeys[i].modifiers.same_as(&mods) && keys.contains(hotkeys[i].keysym) {
            return Some(i);
        }
        i = i + 1;
    }
    None
}

/// What the caller does with one key event.
pub struct KeyOutcome {
    /// Re-emit the event on the virtual output.
    pub forward: bool,
    /// A command to hand to the command service.
    pub dispatch: Option<String>,
}

/// The signals the daemon tells apart.
#[derive(Clone, Copy, Debug, PartialEq, Eq, Structural)]
pub enum Signal {
    /// SIGUSR1
    Usr1,
    /// SIGUSR2
    Usr2,
    /// SIGHUP
    Hup,
    /// SIGINT
    Int,
    /// Any other registered signal.
    Other,
}

/// What the caller does after a signal.
#[derive(Clone, Copy, Debug, PartialEq, Eq, Structural)]
pub enum SignalAction {
    UngrabAll,
    GrabAll,
    Reload,
    Continue,
    UngrabAndExit,
}

/// The daemon's whole decision state.
pub struct Daemon {
    pub hotkeys: Vec<Hotkey>,
    pub keyboards: Vec<KeyboardState>,
    pub last_hotkey: Option<Hotkey>,
    pub paused: bool,
    pub temp_paused: bool,
    /// Milliseconds between repeats of a latched hotkey.
    pub cooldown: u64,
    /// Time, in milliseconds, of the latest dispatch.
    pub last_dispatch: u64,
}

impl Daemon {
    pub open spec fn wf(&self) -> bool {
        forall|j: int| 0 <= j < self.keyboards.len() ==> (#[trigger] self.keyboards@[j]).wf()
    }

    /// A daemon over `n_keyboards` keyboards with nothing held, nothing
    /// latched and no pause.
    pub fn new(hotkeys: Vec<Hotkey>, n_keyboards: usize, cooldown: u64) -> (r: Daemon)
        ensures
            r.wf(),
            r.hotkeys == hotkeys,
            r.keyboards.len() == n_keyboards,
            forall|j: int|
                0 <= j < n_keyboards ==> (#[trigger] r.keyboards@[j]).held_modifiers
                    == ModifierSet::empty_spec() && r.keyboards@[j].keys() == Set::<u16>::empty(),
            r.last_hotkey.is_none(),
            !r.paused,
            !r.temp_paused,
            r.cooldown == cooldown,
            r.last_dispatch == 0,
    {
        let mut keyboards: Vec<KeyboardState> = Vec::new();
        let mut i: usize = 0;
        while i < n_keyboards
            invariant
                i <= n_keyboards,
                keyboards.len() == i,
                forall|j: int|
                    0 <= j < i ==> (#[trigger] keyboards@[j]).wf() && keyboards@[j].held_modifiers
                        == ModifierSet::empty_spec() && keyboards@[j].keys() == Set::<u16>::empty(),
            decreases n_keyboards - i,
        {
            keyboards.push(KeyboardState::new());
            i = i + 1;
        }
        Daemon {
            hotkeys,
            keyboards,
            last_hotkey: None,
            paused: false,
            temp_paused: false,
            cooldown,
            last_dispatch: 0,
        }
    }

    /// Handles one key event from keyboard `device` at time `now` (in
    /// milliseconds): updates that keyboard, clears the latched hotkey when
    /// one of its keys is released, decides whether the event passes
    /// through, and fires the first binding that matches when neither a
    /// pause nor a latched hotkey holds it back. While temporarily paused
    /// nothing fires, and Super+Shift+Escape ends the temporary pause.
    pub fn handle_key(&mut self, device: usize, code: u16, value: i32, now: u64) -> (r: KeyOutcome)
        requires
            old(self).wf(),
            device < old(self).keyboards.len(),
            code < KEY_COUNT,
        ensures
            final(self).wf(),
            final(self).hotkeys == old(self).hotkeys,
            final(self).paused == old(self).paused,
            final(self).cooldown == old(self).cooldown,
            final(self).keyboards.len() == old(self).keyboards.len(),
            forall|j: int|
                0 <= j < old(self).keyboards.len() && j != device ==> #[trigger] final(self).keyboards@[j]
                    == old(self).keyboards@[j],
            final(self).keyboards@[device as int].held_modifiers == step_mods(
                old(self).keyboards@[device as int].held_modifiers,
                code,
                value,
            ),
            final(self).keyboards@[device as int].keys() == step_keys(
                old(self).keyboards@[device as int].keys(),
                code,
                value,
            ),
            r.forward == !hotkey_event_spec(
                old(self).hotkeys@,
                final(self).keyboards@[device as int].held_modifiers,
                code,
            ),
            ({
                let mods = final(self).keyboards@[device as int].held_modifiers;
                let keys = final(self).keyboards@[device as int].keys();
                let latched = if releases_latched(
                    old(self).last_hotkey,
                    old(self).keyboards@[device as int].keys(),
                    code,
                    value,
                ) {
                    None
                } else {
                    old(self).last_hotkey
                };
                let open = !old(self).paused && latched.is_none();
                let may_fire = open && !old(self).temp_paused && some_fires(old(self).hotkeys@, mods, keys);
                &&& final(self).temp_paused == (old(self).temp_paused && !(open && escape_held(mods, keys)))
                &&& may_fire ==> exists|i: int|
                    first_firing(old(self).hotkeys@, mods, keys, i) && final(self).last_hotkey == Some(
                        #[trigger] old(self).hotkeys@[i],
                    ) && r.dispatch == Some(old(self).hotkeys@[i].command)
                &&& may_fire ==> final(self).last_dispatch == now
                &&& !may_fire ==> final(self).last_hotkey == latched && r.dispatch.is_none()
                    && final(self).last_dispatch == old(self).last_dispatch
            }),
    {
        let release_hits = match &self.last_hotkey {
            Some(h) => value == RELEASE && match modifier_of(code) {
                Some(m) => h.modifiers.contains(m),
                None => self.keyboards[device].held_keys.contains(code) && code == h.keysym,
            },
            None => false,
        };
        if release_hits {
            self.last_hotkey = None;
        }
        let mut kb = KeyboardState::new();
        std::mem::swap(&mut kb, &mut self.keyboards[device]);
        kb.update(code, value);
        std::mem::swap(&mut kb, &mut self.keyboards[device]);
        proof {
            assert forall|j: int| 0 <= j < self.keyboards.len() implies (#[trigger] self.keyboards@[j]).wf() by {
                if j != device {
                    assert(old(self).keyboards@[j].wf());
                }
            }
        }
        let mods = self.keyboards[device].held_modifiers;
        let forward = !event_in_hotkeys(&self.hotkeys, mods, code);
        if self.paused || self.last_hotkey.is_some() {
            return KeyOutcome { forward, dispatch: None };
        }
        if self.temp_paused {
            let escape = ModifierSet::of(true, false, false, true);
            if mods.same_as(&escape) && self.keyboards[device].held_keys.contains(KEY_ESC) {
                self.temp_paused = false;
            }
            return KeyOutcome { forward, dispatch: None };
        }
        match first_match(&self.hotkeys, mods, &self.keyboards[device].held_keys) {
            Some(i) => {
                let h = self.hotkeys[i].duplicate();
                let command = h.command.clone();
                self.last_hotkey = Some(h);
                self.last_dispatch = now;
                KeyOutcome { forward, dispatch: Some(command) }
            },
            None => KeyOutcome { forward, dispatch: None },
        }
    }

    /// When the repeat timer is due: one cooldown after the latest dispatch,
    /// while a hotkey is latched (saturating at the largest time).
    pub fn next_repeat_at(&self) -> (r: Option<u64>)
        ensures
            self.last_hotkey.is_none() ==> r.is_none(),
            self.last_hotkey.is_some() ==> r == Some(
                if self.last_dispatch + self.cooldown <= u64::MAX {
                    (self.last_dispatch + self.cooldown) as u64
                } else {
                    u64::MAX
                },
            ),
    {
        if self.last_hotkey.is_none() {
            None
        } else if self.last_dispatch <= u64::MAX - self.cooldown {
            Some(self.last_dispatch + self.cooldown)
        } else {
            Some(u64::MAX)
        }
    }

    /// A tick of the repeat timer at time `now`: when a hotkey is latched and
    /// at least one cooldown has passed since the latest dispatch, its
    /// command is dispatched again and the timer starts over from `now`.
    pub fn repeat_tick(&mut self, now: u64) -> (r: Option<String>)
        ensures
            final(self).hotkeys == old(self).hotkeys,
            final(self).keyboards == old(self).keyboards,
            final(self).last_hotkey == old(self).last_hotkey,
            final(self).paused == old(self).paused,
            final(self).temp_paused == old(self).temp_paused,
            final(self).cooldown == old(self).cooldown,
            ({
                let due = old(self).last_hotkey.is_some() && now >= old(self).last_dispatch
                    + old(self).cooldown;
                &&& due ==> r == Some(old(self).last_hotkey.unwrap().command)
                    && final(self).last_dispatch == now
                &&& !due ==> r.is_none() && final(self).last_dispatch == old(self).last_dispatch
            }),
            r.is_some() ==> now - old(self).last_dispatch >= old(self).cooldown,
    {
        match &self.last_hotkey {
            Some(h) => {
                if now >= self.last_dispatch && now - self.last_dispatch >= self.cooldown {
                    let command = h.command.clone();
                    self.last_dispatch = now;
                    Some(command)
                } else {
                    None
                }
            },
            None => None,
        }
    }

    /// Applies a signal to the run modes: SIGUSR1 pauses, SIGUSR2 resumes,
    /// SIGHUP asks for a reload, SIGINT pauses temporarily, and any other
    /// signal ends the daemon. Key state is never touched.
    pub fn handle_signal(&mut self, signal: Signal) -> (r: SignalAction)
        ensures
            final(self).hotkeys == old(self).hotkeys,
            final(self).keyboards == old(self).keyboards,
            final(self).last_hotkey == old(self).last_hotkey,
            final(self).cooldown == old(self).cooldown,
            final(self).last_dispatch == old(self).last_dispatch,
            final(self).paused == match signal {
                Signal::Usr1 => true,
                Signal::Usr2 => false,
                _ => old(self).paused,
            },
            final(self).temp_paused == (signal == Signal::Int || old(self).temp_paused),
            r == match signal {
                Signal::Usr1 => SignalAction::UngrabAll,
                Signal::Usr2 => SignalAction::GrabAll,
                Signal::Hup => SignalAction::Reload,
                Signal::Int => SignalAction::Continue,
                Signal::Other => SignalAction::UngrabAndExit,
            },
    {
        match signal {
            Signal::Usr1 => {
                self.paused = true;
                SignalAction::UngrabAll
            },
            Signal::Usr2 => {
                self.paused = false;
                SignalAction::GrabAll
            },
            Signal::Hup => SignalAction::Reload,
            Signal::Int => {
                self.temp_paused = true;
                SignalAction::Continue
            },
            Signal::Other => SignalAction::UngrabAndExit,
        }
    }

    /// Replaces the hotkey table with a freshly loaded one; the keys held on
    /// every keyboard, the latched hotkey and the run modes stay as they are.
    pub fn reload(&mut self, hotkeys: Vec<Hotkey>)
        requires
            old(self).wf(),
        ensures
            final(self).wf(),
            final(self).hotkeys == hotkeys,
            final(self).keyboards == old(self).keyboards,
            final(self).last_hotkey == old(self).last_hotkey,
            final(self).paused == old(self).paused,
            final(self).temp_paused == old(self).temp_paused,
            final(self).cooldown == old(self).cooldown,
            final(self).last_dispatch == old(self).last_dispatch,
    {
        self.hotkeys = hotkeys;
    }
}

/// A binding fires only when the held modifiers are exactly its own: the
/// same set, neither a subset nor a superset.
pub proof fn lemma_fire_needs_equal_modifiers(hotkeys: Seq<Hotkey>, mods: ModifierSet, keys: Set<u16>, i: int)
    requires
        first_firing(hotkeys, mods, keys, i),
    ensures
        hotkeys[i].modifiers@ == mods@,
        hotkeys[i].modifiers@.subset_of(mods@) && mods@.subset_of(hotkeys[i].modifiers@),
        keys.contains(hotkeys[i].keysym),
{
}

/// An event passes through exactly when no binding has its code as key
/// together with the held modifiers as its modifier set.
pub proof fn lemma_passthrough_iff_no_binding(hotkeys: Seq<Hotkey>, mods: ModifierSet, code: u16)
    ensures
        !hotkey_event_spec(hotkeys, mods, code) <==> forall|i: int|
            0 <= i < hotkeys.len() && #[trigger] hotkeys[i].keysym == code ==> hotkeys[i].modifiers@
                != mods@,
{
    assert forall|i: int| 0 <= i < hotkeys.len() implies (#[trigger] hotkeys[i].modifiers@ == mods@)
        == (hotkeys[i].modifiers == mods) by {
        crate::keys::lemma_view_injective(hotkeys[i].modifiers, mods);
    }
}

} // verus!

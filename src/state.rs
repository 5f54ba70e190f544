use vstd::prelude::*;
use crate::keys::{is_modifier_key, modifier_of, modifier_of_spec, Modifier, ModifierSet, KEY_COUNT};
use crate::keyset::{held_codes, KeySet};

verus! {

/// Event values that the state tracker reacts to.
pub const RELEASE: i32 = 0;
pub const PRESS: i32 = 1;

/// Held modifiers after one key event.
pub open spec fn step_mods(mods: ModifierSet, code: u16, value: i32) -> ModifierSet {
    match modifier_of_spec(code) {
        Some(m) => if value == PRESS {
            mods.with(m)
        } else if value == RELEASE {
            mods.without(m)
        } else {
            mods
        },
        None => mods,
    }
}

/// Held non-modifier keys after one key event.
pub open spec fn step_keys(keys: Set<u16>, code: u16, value: i32) -> Set<u16> {
    if is_modifier_key(code) {
        keys
    } else if value == PRESS {
        keys.insert(code)
    } else if value == RELEASE {
        keys.remove(code)
    } else {
        keys
    }
}

/// Held modifiers after a sequence of (code, value) key events.
pub open spec fn run_mods(mods: ModifierSet, events: Seq<(u16, i32)>) -> ModifierSet
    decreases events.len(),
{
    if events.len() == 0 {
        mods
    } else {
        let e = events.last();
        step_mods(run_mods(mods, events.drop_last()), e.0, e.1)
    }
}

/// Held non-modifier keys after a sequence of (code, value) key events.
pub open spec fn run_keys(keys: Set<u16>, events: Seq<(u16, i32)>) -> Set<u16>
    decreases events.len(),
{
    if events.len() == 0 {
        keys
    } else {
        let e = events.last();
        step_keys(run_keys(keys, events.drop_last()), e.0, e.1)
    }
}

/// The value of the last press or release of `code` in `events`, if any.
pub open spec fn last_of_code(events: Seq<(u16, i32)>, code: u16) -> Option<i32>
    decreases events.len(),
{
    if events.len() == 0 {
        None
    } else {
        let e = events.last();
        if e.0 == code && (e.1 == PRESS || e.1 == RELEASE) {
            Some(e.1)
        } else {
            last_of_code(events.drop_last(), code)
        }
    }
}

/// The value of the last press or release of a key mapped to `m`, if any.
pub open spec fn last_of_modifier(events: Seq<(u16, i32)>, m: Modifier) -> Option<i32>
    decreases events.len(),
{
    if events.len() == 0 {
        None
    } else {
        let e = events.last();
        if modifier_of_spec(e.0) == Some(m) && (e.1 == PRESS || e.1 == RELEASE) {
            Some(e.1)
        } else {
            last_of_modifier(events.drop_last(), m)
        }
    }
}

/// Every key that is pressed in `events` is released again later on.
pub open spec fn balanced(events: Seq<(u16, i32)>) -> bool {
    forall|c: u16| last_of_code(events, c) != Some(PRESS)
}

/// The press/release state of one keyboard.
pub struct KeyboardState {
    pub held_modifiers: ModifierSet,
    pub held_keys: KeySet,
}

impl KeyboardState {
    pub open spec fn keys(&self) -> Set<u16> {
        held_codes(self.held_keys)
    }

    /// Held keys are never modifier keys, and always fit in the key set.
    pub open spec fn wf(&self) -> bool {
        forall|c: u16| #[trigger] self.keys().contains(c) ==> !is_modifier_key(c) && c < KEY_COUNT
    }

    /// A keyboard with nothing held.
    pub fn new() -> (r: KeyboardState)
        ensures
            r.wf(),
            r.held_modifiers == ModifierSet::empty_spec(),
            r.keys() == Set::<u16>::empty(),
    {
        KeyboardState { held_modifiers: ModifierSet::empty(), held_keys: KeySet::new() }
    }

    /// Records a key event: a press (value 1) or a release (value 0); any
    /// other value, such as a kernel auto-repeat, changes nothing.
    pub fn update(&mut self, code: u16, value: i32)
        requires
            old(self).wf(),
            code < KEY_COUNT,
        ensures
            final(self).wf(),
            final(self).held_modifiers == step_mods(old(self).held_modifiers, code, value),
            final(self).keys() == step_keys(old(self).keys(), code, value),
    {
        match modifier_of(code) {
            Some(m) => {
                if value == PRESS {
                    self.held_modifiers.insert(m);
                } else if value == RELEASE {
                    self.held_modifiers.remove(m);
                }
            },
            None => {
                if value == PRESS {
                    self.held_keys.insert(code);
                } else if value == RELEASE {
                    self.held_keys.remove(code);
                }
            },
        }
        proof {
            assert forall|c: u16| #[trigger] self.keys().contains(c) implies !is_modifier_key(c)
                && c < KEY_COUNT by {
                if c != code {
                    assert(old(self).keys().contains(c));
                }
            }
        }
    }
}

/// No key code is held both as a key and as a modifier: a well-formed
/// keyboard state holds no modifier key among its keys, and an update keeps
/// it well formed.
pub proof fn lemma_keys_and_modifiers_disjoint(s: KeyboardState, code: u16, value: i32)
    requires
        s.wf(),
    ensures
        forall|c: u16| #[trigger] s.keys().contains(c) ==> modifier_of_spec(c).is_none(),
        code < KEY_COUNT ==> forall|c: u16| #[trigger] step_keys(s.keys(), code, value).contains(c)
            ==> modifier_of_spec(c).is_none(),
{
}

/// Which keys are held after a sequence of events depends only on the last
/// press or release of each key.
pub proof fn lemma_run_keys_last(keys: Set<u16>, events: Seq<(u16, i32)>, c: u16)
    requires
        !is_modifier_key(c),
    ensures
        run_keys(keys, events).contains(c) == match last_of_code(events, c) {
            Some(v) => v == PRESS,
            None => keys.contains(c),
        },
    decreases events.len(),
{
    if events.len() > 0 {
        lemma_run_keys_last(keys, events.drop_last(), c);
    }
}

/// Which modifiers are held after a sequence of events depends only on the
/// last press or release of a key mapped to each.
pub proof fn lemma_run_mods_last(mods: ModifierSet, events: Seq<(u16, i32)>, m: Modifier)
    ensures
        run_mods(mods, events).has(m) == match last_of_modifier(events, m) {
            Some(v) => v == PRESS,
            None => mods.has(m),
        },
    decreases events.len(),
{
    if events.len() > 0 {
        lemma_run_mods_last(mods, events.drop_last(), m);
    }
}

/// The last event of a modifier is the last event of one of its keys.
proof fn lemma_last_modifier_has_key(events: Seq<(u16, i32)>, m: Modifier)
    requires
        last_of_modifier(events, m).is_some(),
    ensures
        exists|c: u16|
            modifier_of_spec(c) == Some(m) && #[trigger] last_of_code(events, c) == last_of_modifier(
                events,
                m,
            ),
    decreases events.len(),
{
    let e = events.last();
    if modifier_of_spec(e.0) == Some(m) && (e.1 == PRESS || e.1 == RELEASE) {
        assert(last_of_code(events, e.0) == Some(e.1));
    } else {
        lemma_last_modifier_has_key(events.drop_last(), m);
        let c = choose|c: u16|
            modifier_of_spec(c) == Some(m) && #[trigger] last_of_code(events.drop_last(), c)
                == last_of_modifier(events.drop_last(), m);
        assert(last_of_code(events, c) == last_of_code(events.drop_last(), c));
    }
}

/// Starting from a keyboard with nothing held, a balanced sequence of presses
/// and releases leaves nothing held.
pub proof fn lemma_balanced_leaves_nothing_held(events: Seq<(u16, i32)>)
    requires
        balanced(events),
    ensures
        run_keys(Set::<u16>::empty(), events) == Set::<u16>::empty(),
        run_mods(ModifierSet::empty_spec(), events) == ModifierSet::empty_spec(),
        run_mods(ModifierSet::empty_spec(), events)@ == Set::<Modifier>::empty(),
{
    assert forall|c: u16| !run_keys(Set::<u16>::empty(), events).contains(c) by {
        if is_modifier_key(c) {
            lemma_run_keys_modifier_untouched(Set::<u16>::empty(), events, c);
        } else {
            lemma_run_keys_last(Set::<u16>::empty(), events, c);
        }
    }
    assert(run_keys(Set::<u16>::empty(), events) =~= Set::<u16>::empty());
    let r = run_mods(ModifierSet::empty_spec(), events);
    assert forall|m: Modifier| !r.has(m) by {
        lemma_run_mods_last(ModifierSet::empty_spec(), events, m);
        if last_of_modifier(events, m).is_some() {
            lemma_last_modifier_has_key(events, m);
        }
    }
    assert(!r.has(Modifier::Super) && !r.has(Modifier::Alt) && !r.has(Modifier::Control)
        && !r.has(Modifier::Shift));
    assert(r@ =~= Set::<Modifier>::empty());
}

/// Modifier keys never enter the set of held keys.
proof fn lemma_run_keys_modifier_untouched(keys: Set<u16>, events: Seq<(u16, i32)>, c: u16)
    requires
        is_modifier_key(c),
    ensures
        run_keys(keys, events).contains(c) == keys.contains(c),
    decreases events.len(),
{
    if events.len() > 0 {
        lemma_run_keys_modifier_untouched(keys, events.drop_last(), c);
    }
}

} // verus!

use vstd::prelude::*;
use crate::keys::KEY_COUNT;

verus! {

/// The non-modifier keys held on one keyboard, kept in evdev's bit set of
/// key codes.
#[verifier::external_body]
pub struct KeySet {
    bits: evdev::AttributeSet<evdev::Key>,
}

/// The key codes a `KeySet` holds.
pub uninterp spec fn held_codes(s: KeySet) -> Set<u16>;

impl KeySet {
    /// Relies on evdev::AttributeSet::new: every bit starts cleared.
    #[verifier::external_body]
    pub fn new() -> (r: KeySet)
        ensures
            held_codes(r) == Set::<u16>::empty(),
    {
        KeySet { bits: evdev::AttributeSet::new() }
    }

    /// Relies on evdev::AttributeSetRef::contains: reads the code's bit, and
    /// answers false for a code past the end of the set.
    #[verifier::external_body]
    pub fn contains(&self, code: u16) -> (r: bool)
        ensures
            r == held_codes(*self).contains(code),
    {
        self.bits.contains(evdev::Key::new(code))
    }

    /// Relies on evdev::AttributeSetRef::insert: sets the code's bit; it
    /// panics on a code past the end of the set.
    #[verifier::external_body]
    pub fn insert(&mut self, code: u16)
        requires
            code < KEY_COUNT,
        ensures
            held_codes(*final(self)) == held_codes(*old(self)).insert(code),
    {
        self.bits.insert(evdev::Key::new(code))
    }

    /// Relies on evdev::AttributeSetRef::remove: clears the code's bit; it
    /// panics on a code past the end of the set.
    #[verifier::external_body]
    pub fn remove(&mut self, code: u16)
        requires
            code < KEY_COUNT,
        ensures
            held_codes(*final(self)) == held_codes(*old(self)).remove(code),
    {
        self.bits.remove(evdev::Key::new(code))
    }
}

} // verus!

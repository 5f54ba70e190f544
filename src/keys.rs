use vstd::prelude::*;

verus! {

/// Linux input-event codes of the keys the daemon itself interprets.
pub const KEY_ESC: u16 = 1;
pub const KEY_ENTER: u16 = 28;
pub const KEY_LEFTCTRL: u16 = 29;
pub const KEY_LEFTSHIFT: u16 = 42;
pub const KEY_RIGHTSHIFT: u16 = 54;
pub const KEY_LEFTALT: u16 = 56;
pub const KEY_RIGHTCTRL: u16 = 97;
pub const KEY_RIGHTALT: u16 = 100;
pub const KEY_LEFTMETA: u16 = 125;
pub const KEY_RIGHTMETA: u16 = 126;

/// Number of key codes an evdev key set can hold (`KEY_CNT`).
pub const KEY_COUNT: u16 = 768;

/// A logical modifier; left and right physical keys map to the same one.
#[derive(Clone, Copy, Debug, PartialEq, Eq, Structural, Hash)]
pub enum Modifier {
    Super,
    Alt,
    Control,
    Shift,
}

/// The fixed map from physical key code to logical modifier.
pub open spec fn modifier_of_spec(code: u16) -> Option<Modifier> {
    if code == KEY_LEFTMETA || code == KEY_RIGHTMETA {
        Some(Modifier::Super)
    } else if code == KEY_LEFTALT || code == KEY_RIGHTALT {
        Some(Modifier::Alt)
    } else if code == KEY_LEFTCTRL || code == KEY_RIGHTCTRL {
        Some(Modifier::Control)
    } else if code == KEY_LEFTSHIFT || code == KEY_RIGHTSHIFT {
        Some(Modifier::Shift)
    } else {
        None
    }
}

pub open spec fn is_modifier_key(code: u16) -> bool {
    modifier_of_spec(code).is_some()
}

/// Looks a key code up in the modifier map.
pub fn modifier_of(code: u16) -> (r: Option<Modifier>)
    ensures
        r == modifier_of_spec(code),
{
    if code == KEY_LEFTMETA || code == KEY_RIGHTMETA {
        Some(Modifier::Super)
    } else if code == KEY_LEFTALT || code == KEY_RIGHTALT {
        Some(Modifier::Alt)
    } else if code == KEY_LEFTCTRL || code == KEY_RIGHTCTRL {
        Some(Modifier::Control)
    } else if code == KEY_LEFTSHIFT || code == KEY_RIGHTSHIFT {
        Some(Modifier::Shift)
    } else {
        None
    }
}

/// The configuration names of each modifier.
pub open spec fn modifier_named_spec(name: Seq<char>) -> Option<Modifier> {
    if name == "super"@ || name == "mod4"@ {
        Some(Modifier::Super)
    } else if name == "alt"@ || name == "mod1"@ {
        Some(Modifier::Alt)
    } else if name == "control"@ || name == "ctrl"@ {
        Some(Modifier::Control)
    } else if name == "shift"@ {
        Some(Modifier::Shift)
    } else {
        None
    }
}

/// Looks a modifier up by its configuration name (lower case).
pub fn modifier_named(name: &String) -> (r: Option<Modifier>)
    ensures
        r == modifier_named_spec(name@),
{
    if *name == "super".to_owned() || *name == "mod4".to_owned() {
        Some(Modifier::Super)
    } else if *name == "alt".to_owned() || *name == "mod1".to_owned() {
        Some(Modifier::Alt)
    } else if *name == "control".to_owned() || *name == "ctrl".to_owned() {
        Some(Modifier::Control)
    } else if *name == "shift".to_owned() {
        Some(Modifier::Shift)
    } else {
        None
    }
}

/// A set of logical modifiers, one flag per modifier.
#[derive(Clone, Copy, Debug, PartialEq, Eq, Structural, Hash)]
pub struct ModifierSet {
    pub super_key: bool,
    pub alt: bool,
    pub control: bool,
    pub shift: bool,
}

impl View for ModifierSet {
    type V = Set<Modifier>;

    open spec fn view(&self) -> Set<Modifier> {
        Set::new(|m: Modifier| self.has(m))
    }
}

impl ModifierSet {
    pub open spec fn has(self, m: Modifier) -> bool {
        match m {
            Modifier::Super => self.super_key,
            Modifier::Alt => self.alt,
            Modifier::Control => self.control,
            Modifier::Shift => self.shift,
        }
    }

    pub open spec fn with(self, m: Modifier) -> ModifierSet {
        match m {
            Modifier::Super => ModifierSet { super_key: true, ..self },
            Modifier::Alt => ModifierSet { alt: true, ..self },
            Modifier::Control => ModifierSet { control: true, ..self },
            Modifier::Shift => ModifierSet { shift: true, ..self },
        }
    }

    pub open spec fn without(self, m: Modifier) -> ModifierSet {
        match m {
            Modifier::Super => ModifierSet { super_key: false, ..self },
            Modifier::Alt => ModifierSet { alt: false, ..self },
            Modifier::Control => ModifierSet { control: false, ..self },
            Modifier::Shift => ModifierSet { shift: false, ..self },
        }
    }

    pub open spec fn empty_spec() -> ModifierSet {
        ModifierSet { super_key: false, alt: false, control: false, shift: false }
    }

    /// The set with no modifier in it.
    pub fn empty() -> (r: ModifierSet)
        ensures
            r == ModifierSet::empty_spec(),
            r@ == Set::<Modifier>::empty(),
    {
        let r = ModifierSet { super_key: false, alt: false, control: false, shift: false };
        proof {
            assert(r@ =~= Set::<Modifier>::empty());
        }
        r
    }

    /// The set holding exactly the given modifiers.
    pub fn of(super_key: bool, alt: bool, control: bool, shift: bool) -> (r: ModifierSet)
        ensures
            r == (ModifierSet { super_key, alt, control, shift }),
    {
        ModifierSet { super_key, alt, control, shift }
    }

    pub fn contains(&self, m: Modifier) -> (r: bool)
        ensures
            r == self.has(m),
            r == self@.contains(m),
    {
        match m {
            Modifier::Super => self.super_key,
            Modifier::Alt => self.alt,
            Modifier::Control => self.control,
            Modifier::Shift => self.shift,
        }
    }

    pub fn insert(&mut self, m: Modifier)
        ensures
            *final(self) == old(self).with(m),
            final(self)@ == old(self)@.insert(m),
    {
        match m {
            Modifier::Super => self.super_key = true,
            Modifier::Alt => self.alt = true,
            Modifier::Control => self.control = true,
            Modifier::Shift => self.shift = true,
        }
        proof {
            assert(self@ =~= old(self)@.insert(m));
        }
    }

    pub fn remove(&mut self, m: Modifier)
        ensures
            *final(self) == old(self).without(m),
            final(self)@ == old(self)@.remove(m),
    {
        match m {
            Modifier::Super => self.super_key = false,
            Modifier::Alt => self.alt = false,
            Modifier::Control => self.control = false,
            Modifier::Shift => self.shift = false,
        }
        proof {
            assert(self@ =~= old(self)@.remove(m));
        }
    }

    /// Set equality: two modifier sets are equal exactly when they hold the
    /// same modifiers.
    pub fn same_as(&self, other: &ModifierSet) -> (r: bool)
        ensures
            r == (*self == *other),
            r == (self@ == other@),
    {
        proof {
            lemma_view_injective(*self, *other);
        }
        self.super_key == other.super_key && self.alt == other.alt && self.control
            == other.control && self.shift == other.shift
    }
}

/// A modifier set is determined by the modifiers it holds.
pub proof fn lemma_view_injective(a: ModifierSet, b: ModifierSet)
    ensures
        (a@ == b@) == (a == b),
{
    if a@ == b@ {
        assert(a@.contains(Modifier::Super) == b@.contains(Modifier::Super));
        assert(a@.contains(Modifier::Alt) == b@.contains(Modifier::Alt));
        assert(a@.contains(Modifier::Control) == b@.contains(Modifier::Control));
        assert(a@.contains(Modifier::Shift) == b@.contains(Modifier::Shift));
    }
}

} // verus!

use swhkd::engine::{event_in_hotkeys, first_match, Daemon, Hotkey, Signal, SignalAction};
use swhkd::keys::{
    modifier_named, modifier_of, Modifier, ModifierSet, KEY_ENTER, KEY_ESC, KEY_LEFTALT, KEY_LEFTMETA,
    KEY_LEFTSHIFT, KEY_RIGHTMETA,
};
use swhkd::keyset::KeySet;
use swhkd::state::KeyboardState;

const KEY_A: u16 = 30;
const PRESS: i32 = 1;
const RELEASE: i32 = 0;
const REPEAT: i32 = 2;

fn super_only() -> ModifierSet {
    ModifierSet::of(true, false, false, false)
}

fn term_daemon(cooldown: u64) -> Daemon {
    let hotkeys = vec![Hotkey::new(super_only(), KEY_ENTER, String::from("term"))];
    Daemon::new(hotkeys, 1, cooldown)
}

#[test]
fn basic_fire() {
    let mut d = term_daemon(250);
    let meta = d.handle_key(0, KEY_LEFTMETA, PRESS, 0);
    // No binding has LEFTMETA as its key, so the modifier press passes through.
    assert!(meta.forward);
    assert!(meta.dispatch.is_none());
    let enter = d.handle_key(0, KEY_ENTER, PRESS, 0);
    assert!(!enter.forward);
    assert_eq!(enter.dispatch, Some(String::from("term")));
    assert_eq!(d.last_hotkey.as_ref().map(|h| h.command.clone()), Some(String::from("term")));
}

#[test]
fn passthrough() {
    let mut d = term_daemon(250);
    let o = d.handle_key(0, KEY_A, PRESS, 0);
    assert!(o.forward);
    assert!(o.dispatch.is_none());
    assert!(d.last_hotkey.is_none());
}

#[test]
fn latched_release() {
    let mut d = term_daemon(250);
    d.handle_key(0, KEY_LEFTMETA, PRESS, 0);
    d.handle_key(0, KEY_ENTER, PRESS, 0);
    let enter_up = d.handle_key(0, KEY_ENTER, RELEASE, 10);
    assert!(d.last_hotkey.is_none());
    assert!(!enter_up.forward);
    assert!(enter_up.dispatch.is_none());
    let meta_up = d.handle_key(0, KEY_LEFTMETA, RELEASE, 20);
    // With Super released no binding matches LEFTMETA under the empty set.
    assert!(meta_up.forward);
    assert_eq!(d.keyboards[0].held_modifiers, ModifierSet::empty());
}

#[test]
fn repeat_cadence() {
    let mut d = term_daemon(100);
    d.handle_key(0, KEY_LEFTMETA, PRESS, 0);
    let mut sends = 0;
    if d.handle_key(0, KEY_ENTER, PRESS, 0).dispatch.is_some() {
        sends += 1;
    }
    for now in [50u64, 100, 150, 200, 250, 300, 350] {
        if let Some(due) = d.next_repeat_at() {
            if now >= due {
                assert_eq!(d.repeat_tick(now), Some(String::from("term")));
                sends += 1;
            }
        }
    }
    assert_eq!(sends, 4);
    assert_eq!(d.last_dispatch, 300);
    assert_eq!(d.next_repeat_at(), Some(400));
    assert_eq!(d.repeat_tick(350), None);
}

#[test]
fn repeat_stops_after_release() {
    let mut d = term_daemon(100);
    d.handle_key(0, KEY_LEFTMETA, PRESS, 0);
    d.handle_key(0, KEY_ENTER, PRESS, 0);
    d.handle_key(0, KEY_LEFTMETA, RELEASE, 50);
    assert!(d.last_hotkey.is_none());
    assert_eq!(d.next_repeat_at(), None);
    assert_eq!(d.repeat_tick(500), None);
}

fn chord(d: &mut Daemon, now: u64) -> Option<String> {
    d.handle_key(0, KEY_LEFTMETA, PRESS, now);
    let fired = d.handle_key(0, KEY_ENTER, PRESS, now).dispatch;
    d.handle_key(0, KEY_ENTER, RELEASE, now + 1);
    d.handle_key(0, KEY_LEFTMETA, RELEASE, now + 2);
    fired
}

#[test]
fn pause_resume() {
    let mut d = term_daemon(250);
    assert_eq!(chord(&mut d, 0), Some(String::from("term")));
    assert_eq!(d.handle_signal(Signal::Usr1), SignalAction::UngrabAll);
    assert!(d.paused);
    assert_eq!(chord(&mut d, 10), None);
    assert_eq!(d.handle_signal(Signal::Usr2), SignalAction::GrabAll);
    assert!(!d.paused);
    assert_eq!(chord(&mut d, 20), Some(String::from("term")));
}

#[test]
fn temp_pause_escape() {
    let mut d = term_daemon(250);
    assert_eq!(d.handle_signal(Signal::Int), SignalAction::Continue);
    assert!(d.temp_paused);
    d.handle_key(0, KEY_LEFTMETA, PRESS, 0);
    let enter = d.handle_key(0, KEY_ENTER, PRESS, 0);
    assert!(enter.dispatch.is_none());
    assert!(!enter.forward);
    d.handle_key(0, KEY_ENTER, RELEASE, 1);
    d.handle_key(0, KEY_LEFTSHIFT, PRESS, 2);
    let esc = d.handle_key(0, KEY_ESC, PRESS, 3);
    assert!(esc.dispatch.is_none());
    assert!(!d.temp_paused);
    d.handle_key(0, KEY_ESC, RELEASE, 4);
    d.handle_key(0, KEY_LEFTSHIFT, RELEASE, 5);
    d.handle_key(0, KEY_LEFTMETA, RELEASE, 6);
    assert_eq!(chord(&mut d, 10), Some(String::from("term")));
}

#[test]
fn extra_modifier_does_not_fire() {
    let mut d = term_daemon(250);
    d.handle_key(0, KEY_LEFTMETA, PRESS, 0);
    d.handle_key(0, KEY_LEFTSHIFT, PRESS, 0);
    let o = d.handle_key(0, KEY_ENTER, PRESS, 0);
    assert!(o.dispatch.is_none());
    assert!(o.forward);
}

#[test]
fn chords_do_not_span_keyboards() {
    let hotkeys = vec![Hotkey::new(super_only(), KEY_ENTER, String::from("term"))];
    let mut d = Daemon::new(hotkeys, 2, 250);
    d.handle_key(0, KEY_LEFTMETA, PRESS, 0);
    let o = d.handle_key(1, KEY_ENTER, PRESS, 0);
    assert!(o.dispatch.is_none());
    assert!(o.forward);
    assert_eq!(d.keyboards[1].held_modifiers, ModifierSet::empty());
}

#[test]
fn kernel_repeat_is_ignored() {
    let mut d = term_daemon(250);
    d.handle_key(0, KEY_A, REPEAT, 0);
    assert!(!d.keyboards[0].held_keys.contains(KEY_A));
}

#[test]
fn left_and_right_meta_are_one_modifier() {
    let mut d = term_daemon(250);
    d.handle_key(0, KEY_RIGHTMETA, PRESS, 0);
    assert_eq!(d.handle_key(0, KEY_ENTER, PRESS, 0).dispatch, Some(String::from("term")));
    assert_eq!(modifier_of(KEY_LEFTMETA), Some(Modifier::Super));
    assert_eq!(modifier_of(KEY_RIGHTMETA), Some(Modifier::Super));
    assert_eq!(modifier_of(KEY_LEFTALT), Some(Modifier::Alt));
    assert_eq!(modifier_of(KEY_A), None);
}

#[test]
fn latched_hotkey_does_not_refire() {
    let mut d = term_daemon(250);
    d.handle_key(0, KEY_LEFTMETA, PRESS, 0);
    assert!(d.handle_key(0, KEY_ENTER, PRESS, 0).dispatch.is_some());
    assert!(d.handle_key(0, KEY_A, PRESS, 5).dispatch.is_none());
}

#[test]
fn reload_keeps_held_keys() {
    let mut d = term_daemon(250);
    d.handle_key(0, KEY_LEFTMETA, PRESS, 0);
    d.handle_key(0, KEY_A, PRESS, 0);
    assert_eq!(d.handle_signal(Signal::Hup), SignalAction::Reload);
    d.reload(vec![Hotkey::new(super_only(), KEY_ESC, String::from("lock"))]);
    assert_eq!(d.keyboards[0].held_modifiers, super_only());
    assert!(d.keyboards[0].held_keys.contains(KEY_A));
    assert_eq!(d.handle_key(0, KEY_ESC, PRESS, 1).dispatch, Some(String::from("lock")));
}

#[test]
fn other_signal_exits() {
    let mut d = term_daemon(250);
    assert_eq!(d.handle_signal(Signal::Other), SignalAction::UngrabAndExit);
}

#[test]
fn modifier_keys_never_held_as_keys() {
    let mut s = KeyboardState::new();
    s.update(KEY_LEFTMETA, PRESS);
    s.update(KEY_A, PRESS);
    assert!(!s.held_keys.contains(KEY_LEFTMETA));
    assert!(s.held_keys.contains(KEY_A));
    assert!(s.held_modifiers.contains(Modifier::Super));
}

#[test]
fn balanced_sequence_leaves_nothing_held() {
    let mut s = KeyboardState::new();
    let events = [
        (KEY_LEFTMETA, PRESS),
        (KEY_RIGHTMETA, PRESS),
        (KEY_A, PRESS),
        (KEY_ENTER, PRESS),
        (KEY_A, REPEAT),
        (KEY_RIGHTMETA, RELEASE),
        (KEY_A, RELEASE),
        (KEY_LEFTMETA, RELEASE),
        (KEY_ENTER, RELEASE),
    ];
    for (code, value) in events {
        s.update(code, value);
    }
    assert_eq!(s.held_modifiers, ModifierSet::empty());
    assert!(!s.held_keys.contains(KEY_A));
    assert!(!s.held_keys.contains(KEY_ENTER));
}

#[test]
fn key_set_insert_and_remove() {
    let mut k = KeySet::new();
    assert!(!k.contains(KEY_A));
    k.insert(KEY_A);
    assert!(k.contains(KEY_A));
    assert!(!k.contains(KEY_ENTER));
    k.remove(KEY_A);
    assert!(!k.contains(KEY_A));
    assert!(!k.contains(2000));
}

#[test]
fn first_match_takes_table_order() {
    let hotkeys = vec![
        Hotkey::new(ModifierSet::empty(), KEY_A, String::from("plain")),
        Hotkey::new(super_only(), KEY_A, String::from("first")),
        Hotkey::new(super_only(), KEY_A, String::from("second")),
    ];
    let mut keys = KeySet::new();
    keys.insert(KEY_A);
    assert_eq!(first_match(&hotkeys, super_only(), &keys), Some(1));
    assert_eq!(first_match(&hotkeys, ModifierSet::of(false, true, false, false), &keys), None);
    assert!(event_in_hotkeys(&hotkeys, super_only(), KEY_A));
    assert!(!event_in_hotkeys(&hotkeys, super_only(), KEY_ENTER));
}

#[test]
fn modifier_set_operations() {
    let mut m = ModifierSet::empty();
    m.insert(Modifier::Shift);
    assert!(m.contains(Modifier::Shift));
    assert!(m.same_as(&ModifierSet::of(false, false, false, true)));
    m.remove(Modifier::Shift);
    assert_eq!(m, ModifierSet::empty());
}

#[test]
fn modifier_names() {
    assert_eq!(modifier_named(&String::from("super")), Some(Modifier::Super));
    assert_eq!(modifier_named(&String::from("ctrl")), Some(Modifier::Control));
    assert_eq!(modifier_named(&String::from("mod1")), Some(Modifier::Alt));
    assert_eq!(modifier_named(&String::from("shift")), Some(Modifier::Shift));
    assert_eq!(modifier_named(&String::from("return")), None);
}

#[test]
fn binding_on_a_modifier_key_is_refused() {
    assert!(Hotkey::checked(super_only(), KEY_LEFTSHIFT, String::from("x")).is_none());
    let h = Hotkey::checked(super_only(), KEY_ENTER, String::from("term")).unwrap();
    assert_eq!(h.keysym, KEY_ENTER);
    assert_eq!(h.command, "term");
}

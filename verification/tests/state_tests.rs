use glkit::event::{Click, EventReply, Mod, ModKey};
use glkit::funcs::{gl_was_initialized, CachedCall, GlArgs, Switch, SwitchCall};
use glkit::policy::BindState;

#[test]
fn mod_flags_read_back() {
    let m = Mod { bits: Mod::PRESS | Mod::CTRL | Mod::LEFT };
    assert!(m.pressed());
    assert!(!m.released());
    assert!(m.ctrl());
    assert!(!m.shift());
    assert!(!m.alt());
    assert!(!m.win());
    assert!(m.lmb());
    assert!(!m.mmb());
    assert!(!m.rmb());
    assert!(m.contains(Mod::PRESS | Mod::CTRL));
    assert!(!m.contains(Mod::PRESS | Mod::SHIFT));
}

#[test]
fn mod_other_flags() {
    let m = Mod { bits: Mod::RELEASE | Mod::SHIFT | Mod::ALT | Mod::WIN | Mod::MID | Mod::RIGHT };
    assert!(m.released() && m.shift() && m.alt() && m.win() && m.mmb() && m.rmb());
    assert!(!m.pressed() && !m.ctrl() && !m.lmb());
    assert!(Mod::default().contains(0));
}

#[test]
fn mod_add_remove_flag() {
    let m = Mod { bits: Mod::PRESS };
    let added = Mod { bits: m.bits | Mod::ALT };
    assert!(added.contains(Mod::ALT));
    let removed = Mod { bits: added.bits & !Mod::ALT };
    assert!(!removed.contains(Mod::ALT));
    assert!(removed.pressed());
}

#[test]
fn event_reply_defaults_to_pass() {
    assert_eq!(EventReply::default(), EventReply::Pass);
    assert_ne!(Click::Left, Click::Right);
}

#[test]
fn switch_calls_only_on_change() {
    let mut s = Switch::new(false);
    assert_eq!(s.Enable(), SwitchCall::Enable);
    assert_eq!(s.Enable(), SwitchCall::Keep);
    assert_eq!(s.Disable(), SwitchCall::Disable);
    assert_eq!(s.Disable(), SwitchCall::Keep);
    let mut t = Switch::new(true);
    assert_eq!(t.state, u64::MAX);
    assert_eq!(t.Enable(), SwitchCall::Keep);
}

#[test]
fn switch_save_change_restore() {
    let mut s = Switch::new(false);
    s.Save();
    assert_eq!(s.depth, 1);
    assert_eq!(s.Enable(), SwitchCall::Enable);
    assert_eq!(s.Restore(), SwitchCall::Disable);
    assert_eq!(s.state & 1, 0);
    assert_eq!(s.depth, 0);
}

#[test]
fn switch_restore_without_change_keeps() {
    let mut s = Switch::new(true);
    s.Save();
    assert_eq!(s.Restore(), SwitchCall::Keep);
    assert_eq!(s.state & 1, 1);
}

#[test]
fn switch_nested_saves() {
    let mut s = Switch::new(false);
    s.Enable();
    s.Save();
    s.Disable();
    s.Save();
    s.Enable();
    // Restoring "off" over "on" asks for glEnable while saved bits remain set.
    assert_eq!(s.Restore(), SwitchCall::Enable);
    assert_eq!(s.state & 1, 0);
    assert_eq!(s.Restore(), SwitchCall::Enable);
    assert_eq!(s.state, 0b1);
    assert_eq!(s.depth, 0);
}

#[test]
fn switch_save_saturates_depth() {
    let mut s = Switch::new(true);
    for _ in 0..70 {
        s.Save();
    }
    assert_eq!(s.depth, 64);
}

#[test]
fn cached_call_skips_repeats() {
    let mut c = CachedCall::new();
    let a = GlArgs { a: 1, b: 2, c: 3, d: 4 };
    assert!(c.SetArgs(a));
    assert!(!c.SetArgs(a));
    c.Save();
    let b = GlArgs { a: 5, b: 2, c: 3, d: 4 };
    assert!(c.SetArgs(b));
    assert!(c.Restore());
    assert_eq!(c.state, a);
    c.Save();
    assert!(!c.Restore());
    assert_eq!(c.state, a);
}

#[test]
fn gl_init_flag_is_fixed_by_first_query() {
    let mut flag = None;
    assert!(gl_was_initialized(&mut flag, true));
    assert!(gl_was_initialized(&mut flag, false));
    assert_eq!(flag, Some(true));
    let mut other = None;
    assert!(!gl_was_initialized(&mut other, false));
}

#[test]
fn bind_state_binds_once() {
    let mut s = BindState::new();
    assert!(s.Bind(3));
    assert!(!s.Bind(3));
    assert!(s.Bind(4));
    s.Drop(4);
    assert_eq!(s.bound, 0);
    assert!(s.Bind(4));
    s.Drop(9);
    assert_eq!(s.bound, 4);
}

#[test]
fn bind_state_lock_unlock() {
    let mut s = BindState::new();
    s.Lock(7);
    assert_eq!(s.locked, 7);
    s.Unlock();
    assert_eq!(s.locked, 0);
}

#[test]
fn modifier_keys_held_and_released() {
    let m = Mod::default();
    let held = m.key_down(ModKey::Ctrl).key_down(ModKey::Shift);
    assert!(held.ctrl() && held.shift() && !held.alt());
    assert_eq!(held.key_up(ModKey::Ctrl), Mod { bits: Mod::SHIFT });
    assert_eq!(held.key_down(ModKey::Other), held);
    assert_eq!(m.key_down(ModKey::Win).key_up(ModKey::Win), m);
    assert_eq!(Mod::key_flag(ModKey::Alt), Mod::ALT);
}

#[test]
fn event_modifiers() {
    let held = Mod { bits: Mod::CTRL };
    assert_eq!(held.motion(true, false, true), Mod { bits: Mod::LEFT | Mod::MID | Mod::CTRL });
    assert_eq!(held.button(true), Mod { bits: Mod::PRESS | Mod::CTRL });
    assert_eq!(held.button(false), Mod { bits: Mod::RELEASE | Mod::CTRL });
    assert_eq!(Mod::keyboard(true, true, false, true, false), Mod { bits: Mod::PRESS | Mod::SHIFT | Mod::ALT });
    assert_eq!(Mod::keyboard(false, false, true, false, true), Mod { bits: Mod::RELEASE | Mod::CTRL | Mod::WIN });
}

//! Input events: modifier flags, mouse buttons and replies of event handlers.
use vstd::prelude::*;

verus! {

/// Set of input modifiers, one bit each.
#[derive(Clone, Copy, Debug, PartialEq, Eq, Default)]
pub struct Mod {
    pub bits: u16,
}

impl Mod {
    pub const PRESS: u16 = 0x1;
    pub const RELEASE: u16 = 0x2;
    pub const SHIFT: u16 = 0x10;
    pub const CTRL: u16 = 0x20;
    pub const ALT: u16 = 0x40;
    pub const WIN: u16 = 0x80;
    pub const LEFT: u16 = 0x100;
    pub const MID: u16 = 0x200;
    pub const RIGHT: u16 = 0x400;

    /// Whether every bit of `flag` is set.
    pub open spec fn has(self, flag: u16) -> bool {
        self.bits & flag == flag
    }

    pub fn contains(&self, flag: u16) -> (r: bool)
        ensures
            r == self.has(flag),
    {
        self.bits & flag == flag
    }

    /// Whether a button or key was pressed.
    pub fn pressed(&self) -> (r: bool)
        ensures
            r == self.has(Mod::PRESS),
    {
        self.contains(Mod::PRESS)
    }

    /// Whether a button or key was released.
    pub fn released(&self) -> (r: bool)
        ensures
            r == self.has(Mod::RELEASE),
    {
        self.contains(Mod::RELEASE)
    }

    /// Whether a Control key is held.
    pub fn ctrl(&self) -> (r: bool)
        ensures
            r == self.has(Mod::CTRL),
    {
        self.contains(Mod::CTRL)
    }

    /// Whether a Shift key is held.
    pub fn shift(&self) -> (r: bool)
        ensures
            r == self.has(Mod::SHIFT),
    {
        self.contains(Mod::SHIFT)
    }

    /// Whether an Alt key is held.
    pub fn alt(&self) -> (r: bool)
        ensures
            r == self.has(Mod::ALT),
    {
        self.contains(Mod::ALT)
    }

    /// Whether a Windows/Super key is held.
    pub fn win(&self) -> (r: bool)
        ensures
            r == self.has(Mod::WIN),
    {
        self.contains(Mod::WIN)
    }

    /// Whether the left mouse button is held.
    pub fn lmb(&self) -> (r: bool)
        ensures
            r == self.has(Mod::LEFT),
    {
        self.contains(Mod::LEFT)
    }

    /// Whether the middle mouse button is held.
    pub fn mmb(&self) -> (r: bool)
        ensures
            r == self.has(Mod::MID),
    {
        self.contains(Mod::MID)
    }

    /// Whether the right mouse button is held.
    pub fn rmb(&self) -> (r: bool)
        ensures
            r == self.has(Mod::RIGHT),
    {
        self.contains(Mod::RIGHT)
    }
}

/// A key, as far as the held modifiers go.
#[derive(Clone, Copy, Debug, PartialEq, Eq)]
pub enum ModKey {
    Shift,
    Ctrl,
    Alt,
    Win,
    Other,
}

/// The modifier flag a key holds down: none for other keys.
pub open spec fn key_flag_spec(k: ModKey) -> u16 {
    match k {
        ModKey::Shift => Mod::SHIFT,
        ModKey::Ctrl => Mod::CTRL,
        ModKey::Alt => Mod::ALT,
        ModKey::Win => Mod::WIN,
        ModKey::Other => 0,
    }
}

pub open spec fn flag_if(b: bool, flag: u16) -> u16 {
    if b { flag } else { 0 }
}

impl Mod {
    /// The modifier flag key `k` holds down.
    pub fn key_flag(k: ModKey) -> (r: u16)
        ensures
            r == key_flag_spec(k),
    {
        match k {
            ModKey::Shift => Mod::SHIFT,
            ModKey::Ctrl => Mod::CTRL,
            ModKey::Alt => Mod::ALT,
            ModKey::Win => Mod::WIN,
            ModKey::Other => 0,
        }
    }

    /// The held modifiers after key `k` goes down.
    pub fn key_down(self, k: ModKey) -> (r: Mod)
        ensures
            r.bits == self.bits | key_flag_spec(k),
    {
        Mod { bits: self.bits | Mod::key_flag(k) }
    }

    /// The held modifiers after key `k` goes up.
    pub fn key_up(self, k: ModKey) -> (r: Mod)
        ensures
            r.bits == self.bits & !key_flag_spec(k),
    {
        Mod { bits: self.bits & !Mod::key_flag(k) }
    }

    /// Modifiers of a mouse motion: the buttons held, and the held keys.
    pub fn motion(self, left: bool, right: bool, middle: bool) -> (r: Mod)
        ensures
            r.bits == flag_if(left, Mod::LEFT) | flag_if(right, Mod::RIGHT) | flag_if(middle, Mod::MID) | self.bits,
    {
        let l: u16 = if left { Mod::LEFT } else { 0 };
        let r: u16 = if right { Mod::RIGHT } else { 0 };
        let m: u16 = if middle { Mod::MID } else { 0 };
        Mod { bits: l | r | m | self.bits }
    }

    /// Modifiers of a mouse button going down (`pressed`) or up, with the held keys.
    pub fn button(self, pressed: bool) -> (r: Mod)
        ensures
            r.bits == (if pressed { Mod::PRESS } else { Mod::RELEASE }) | self.bits,
    {
        let p: u16 = if pressed { Mod::PRESS } else { Mod::RELEASE };
        Mod { bits: p | self.bits }
    }

    /// Modifiers of a key going down (`pressed`) or up, from the modifier
    /// keys the window reports as held.
    pub fn keyboard(pressed: bool, shift: bool, ctrl: bool, alt: bool, win: bool) -> (r: Mod)
        ensures
            r.bits == (if pressed { Mod::PRESS } else { Mod::RELEASE }) | flag_if(shift, Mod::SHIFT) | flag_if(
                ctrl,
                Mod::CTRL,
            ) | flag_if(alt, Mod::ALT) | flag_if(win, Mod::WIN),
    {
        let p: u16 = if pressed { Mod::PRESS } else { Mod::RELEASE };
        let s: u16 = if shift { Mod::SHIFT } else { 0 };
        let c: u16 = if ctrl { Mod::CTRL } else { 0 };
        let a: u16 = if alt { Mod::ALT } else { 0 };
        let w: u16 = if win { Mod::WIN } else { 0 };
        Mod { bits: p | s | c | a | w }
    }
}

/// Law: a modifier key going down then up gives back the held modifiers it
/// found, when its flag was not held already; going down holds its flag.
pub proof fn law_key_down_up(m: Mod, k: ModKey)
    ensures
        (Mod { bits: m.bits | key_flag_spec(k) }).has(key_flag_spec(k)),
        !m.has(key_flag_spec(k)) || key_flag_spec(k) == 0 ==> (m.bits | key_flag_spec(k)) & !key_flag_spec(k) == m.bits,
{
    let b = m.bits;
    let f = key_flag_spec(k);
    assert((b | f) & f == f) by (bit_vector);
    assert(f == 0x10 || f == 0x20 || f == 0x40 || f == 0x80 || f == 0);
    assert((b & f != f || f == 0) ==> (b | f) & !f == b) by (bit_vector)
        requires
            f == 0x10 || f == 0x20 || f == 0x40 || f == 0x80 || f == 0,
    ;
}

/// Setting or clearing key flag `f` changes bit `g` exactly when they are the same flag.
proof fn lemma_flag_bit(b: u16, f: u16, g: u16)
    by (bit_vector)
    requires
        f == 0x10 || f == 0x20 || f == 0x40 || f == 0x80 || f == 0,
        g == 0x1 || g == 0x2 || g == 0x10 || g == 0x20 || g == 0x40 || g == 0x80 || g == 0x100 || g == 0x200 || g == 0x400,
    ensures
        ((b | f) & g == g) == ((b & g == g) || f == g),
        ((b & !f) & g == g) == ((b & g == g) && f != g),
{
}

/// Law: pressing a modifier key holds down its own flag, Shift, Control,
/// Alt or Windows, and leaves every other flag as it was.
pub proof fn law_key_down_flags(m: Mod, k: ModKey, r: Mod)
    requires
        r.bits == m.bits | key_flag_spec(k),
    ensures
        r.has(Mod::SHIFT) == (m.has(Mod::SHIFT) || k == ModKey::Shift),
        r.has(Mod::CTRL) == (m.has(Mod::CTRL) || k == ModKey::Ctrl),
        r.has(Mod::ALT) == (m.has(Mod::ALT) || k == ModKey::Alt),
        r.has(Mod::WIN) == (m.has(Mod::WIN) || k == ModKey::Win),
        r.has(Mod::PRESS) == m.has(Mod::PRESS),
        r.has(Mod::RELEASE) == m.has(Mod::RELEASE),
        r.has(Mod::LEFT) == m.has(Mod::LEFT),
        r.has(Mod::MID) == m.has(Mod::MID),
        r.has(Mod::RIGHT) == m.has(Mod::RIGHT),
{
    lemma_flag_bit(m.bits, key_flag_spec(k), Mod::SHIFT);
    lemma_flag_bit(m.bits, key_flag_spec(k), Mod::CTRL);
    lemma_flag_bit(m.bits, key_flag_spec(k), Mod::ALT);
    lemma_flag_bit(m.bits, key_flag_spec(k), Mod::WIN);
    lemma_flag_bit(m.bits, key_flag_spec(k), Mod::PRESS);
    lemma_flag_bit(m.bits, key_flag_spec(k), Mod::RELEASE);
    lemma_flag_bit(m.bits, key_flag_spec(k), Mod::LEFT);
    lemma_flag_bit(m.bits, key_flag_spec(k), Mod::MID);
    lemma_flag_bit(m.bits, key_flag_spec(k), Mod::RIGHT);
}

/// Law: releasing a modifier key clears its own flag and leaves every other
/// flag as it was.
pub proof fn law_key_up_flags(m: Mod, k: ModKey, r: Mod)
    requires
        r.bits == m.bits & !key_flag_spec(k),
    ensures
        r.has(Mod::SHIFT) == (m.has(Mod::SHIFT) && k != ModKey::Shift),
        r.has(Mod::CTRL) == (m.has(Mod::CTRL) && k != ModKey::Ctrl),
        r.has(Mod::ALT) == (m.has(Mod::ALT) && k != ModKey::Alt),
        r.has(Mod::WIN) == (m.has(Mod::WIN) && k != ModKey::Win),
        r.has(Mod::PRESS) == m.has(Mod::PRESS),
        r.has(Mod::RELEASE) == m.has(Mod::RELEASE),
        r.has(Mod::LEFT) == m.has(Mod::LEFT),
        r.has(Mod::MID) == m.has(Mod::MID),
        r.has(Mod::RIGHT) == m.has(Mod::RIGHT),
{
    lemma_flag_bit(m.bits, key_flag_spec(k), Mod::SHIFT);
    lemma_flag_bit(m.bits, key_flag_spec(k), Mod::CTRL);
    lemma_flag_bit(m.bits, key_flag_spec(k), Mod::ALT);
    lemma_flag_bit(m.bits, key_flag_spec(k), Mod::WIN);
    lemma_flag_bit(m.bits, key_flag_spec(k), Mod::PRESS);
    lemma_flag_bit(m.bits, key_flag_spec(k), Mod::RELEASE);
    lemma_flag_bit(m.bits, key_flag_spec(k), Mod::LEFT);
    lemma_flag_bit(m.bits, key_flag_spec(k), Mod::MID);
    lemma_flag_bit(m.bits, key_flag_spec(k), Mod::RIGHT);
}

/// Mouse buttons.
#[derive(Clone, Copy, Debug, PartialEq, Eq)]
pub enum Click {
    Left,
    Right,
    Middle,
}

/// What an event handler did with an event.
#[derive(Clone, Copy, Debug, PartialEq, Eq)]
pub enum EventReply {
    Accept,
    Reject,
    Pass,
    DropFocus,
}

impl EventReply {
    /// Handlers pass events on unless they say otherwise.
    pub fn default() -> (r: Self)
        ensures
            r == EventReply::Pass,
    {
        EventReply::Pass
    }
}

/// Law: a modifier set with a flag added has that flag, and one with a
/// non-empty flag removed has it no more.
pub proof fn law_mod_add_remove(m: Mod, flag: u16)
    ensures
        (Mod { bits: m.bits | flag }).has(flag),
        flag != 0 ==> !(Mod { bits: m.bits & !flag }).has(flag),
{
    let b = m.bits;
    assert((b | flag) & flag == flag) by (bit_vector);
    assert(flag != 0 ==> (b & !flag) & flag != flag) by (bit_vector);
}

} // verus!

//! Cached GL pipeline state: on/off capabilities with a stack of saved
//! values, and parameterised state calls that are only issued when their
//! arguments change.
use vstd::prelude::*;

verus! {

/// A GL capability (`glEnable`/`glDisable`) with a stack of saved values.
///
/// Bit 0 of `state` is whether the capability is on; the higher bits are the
/// values saved by [`Switch::Save`], the most recent one in bit 1. `depth`
/// counts the saves that [`Switch::Restore`] may still undo.
#[derive(Clone, Copy, Debug, PartialEq, Eq)]
pub struct Switch {
    pub state: u64,
    pub depth: i32,
}

/// Which GL call a switch asks for.
#[derive(Clone, Copy, Debug, PartialEq, Eq)]
pub enum SwitchCall {
    Keep,
    Enable,
    Disable,
}

pub open spec fn on_bit(state: u64) -> bool {
    state & 1 == 1
}

pub open spec fn saved_state(state: u64) -> u64 {
    (state & 1) | (state << 1)
}

impl Switch {
    /// A capability that is off, or on when `default_true`, with nothing saved.
    pub fn new(default_true: bool) -> (s: Self)
        ensures
            s.state == (if default_true { u64::MAX } else { 0u64 }),
            s.depth == 0,
    {
        Switch { state: if default_true { u64::MAX } else { 0 }, depth: 0 }
    }

    pub open spec fn enabled(self) -> bool {
        on_bit(self.state)
    }

    /// Turns the capability on; asks for `glEnable` only when it was off.
    pub fn Enable(&mut self) -> (c: SwitchCall)
        ensures
            final(self).state == old(self).state | 1,
            final(self).depth == old(self).depth,
            c == (if old(self).enabled() { SwitchCall::Keep } else { SwitchCall::Enable }),
            final(self).enabled(),
    {
        let st = self.state;
        if (st & 1u64) != 1u64 {
            self.state = st | 1u64;
            assert(on_bit(st | 1u64)) by (bit_vector);
            SwitchCall::Enable
        } else {
            assert(st | 1u64 == st) by (bit_vector)
                requires
                    st & 1u64 == 1u64,
            ;
            SwitchCall::Keep
        }
    }

    /// Turns the capability off; asks for `glDisable` only when it was on.
    pub fn Disable(&mut self) -> (c: SwitchCall)
        ensures
            final(self).state == old(self).state & !1u64,
            final(self).depth == old(self).depth,
            c == (if old(self).enabled() { SwitchCall::Disable } else { SwitchCall::Keep }),
            !final(self).enabled(),
    {
        let st = self.state;
        assert(((st & 1u64) != 0u64) == on_bit(st)) by (bit_vector);
        if (st & 1u64) != 0u64 {
            self.state = st & !1u64;
            assert(!on_bit(st & !1u64)) by (bit_vector);
            SwitchCall::Disable
        } else {
            assert(st & !1u64 == st) by (bit_vector)
                requires
                    st & 1u64 == 0u64,
            ;
            assert(!on_bit(st)) by (bit_vector)
                requires
                    st & 1u64 == 0u64,
            ;
            SwitchCall::Keep
        }
    }

    /// Pushes the current value on the stack; the capability stays as it is.
    /// The stack holds 63 values: older ones are lost.
    pub fn Save(&mut self)
        ensures
            final(self).state == saved_state(old(self).state),
            final(self).depth == (if old(self).depth + 1 < 64 { old(self).depth + 1 } else { 64 }),
            final(self).enabled() == old(self).enabled(),
    {
        let st = self.state;
        self.depth = if self.depth < 63 { self.depth + 1 } else { 64 };
        self.state = (st & 1u64) | (st << 1u64);
        assert(on_bit((st & 1u64) | (st << 1u64)) == on_bit(st)) by (bit_vector);
    }

    /// Pops the last saved value. When the capability changes, asks for
    /// `glDisable` when no bit at all is left set, and `glEnable` otherwise.
    pub fn Restore(&mut self) -> (c: SwitchCall)
        requires
            old(self).depth >= 1,
        ensures
            final(self).state == old(self).state >> 1,
            final(self).depth == old(self).depth - 1,
            c == (if on_bit(old(self).state) == on_bit(old(self).state >> 1) {
                SwitchCall::Keep
            } else if old(self).state >> 1 == 0 {
                SwitchCall::Disable
            } else {
                SwitchCall::Enable
            }),
    {
        self.depth = self.depth - 1;
        let st = self.state;
        let s = st & 1u64;
        let st2 = st >> 1u64;
        self.state = st2;
        assert(on_bit(st) == (s == 1u64)) by (bit_vector)
            requires
                s == st & 1u64,
        ;
        assert((s != (st2 & 1u64)) == (on_bit(st) != on_bit(st2))) by (bit_vector)
            requires
                s == st & 1u64,
        ;
        if s != (st2 & 1u64) {
            if st2 == 0u64 {
                SwitchCall::Disable
            } else {
                SwitchCall::Enable
            }
        } else {
            SwitchCall::Keep
        }
    }
}

/// Law: restoring right after a save gives back the state as it was, but for
/// the oldest of the 64 bits, and asks for no GL call.
pub proof fn law_save_restore(s: u64)
    ensures
        saved_state(s) >> 1 == s & 0x7fff_ffff_ffff_ffffu64,
        on_bit(saved_state(s)) == on_bit(saved_state(s) >> 1),
        on_bit(saved_state(s) >> 1) == on_bit(s),
{
    assert(((s & 1) | (s << 1)) >> 1 == s & 0x7fff_ffff_ffff_ffffu64) by (bit_vector);
    assert(((((s & 1) | (s << 1)) & 1) == 1) == ((((((s & 1) | (s << 1)) >> 1) & 1) == 1))) by (bit_vector);
    assert(((((((s & 1) | (s << 1)) >> 1) & 1) == 1)) == ((s & 1) == 1)) by (bit_vector);
}

/// Law: turning a capability on or off leaves the saved values alone.
pub proof fn law_switch_keeps_stack(s: u64)
    ensures
        (s | 1) >> 1 == s >> 1,
        (s & !1u64) >> 1 == s >> 1,
{
    assert((s | 1) >> 1 == s >> 1) by (bit_vector);
    assert((s & !1u64) >> 1 == s >> 1) by (bit_vector);
}

/// Law: save, then turn the capability on or off any number of times, then
/// restore: the capability is back to its value before the save.
pub proof fn law_restore_after_changes(s: u64, x: u64)
    requires
        x >> 1 == saved_state(s) >> 1,
    ensures
        on_bit(x >> 1) == on_bit(s),
{
    law_save_restore(s);
}

/// Law: when restoring changes the capability, the GL call asked for turns it
/// the way the restored value says, unless the restored value is off while
/// older saved values are on.
pub proof fn law_restore_call(s: u64)
    requires
        on_bit(s) != on_bit(s >> 1),
        on_bit(s >> 1) || s >> 1 == 0,
    ensures
        (s >> 1 == 0) == !on_bit(s >> 1),
{
    assert(((s >> 1) & 1) == 1 ==> (s >> 1) != 0) by (bit_vector);
}

/// Arguments of a cached GL state call; unused ones stay 0.
#[derive(Clone, Copy, Debug, PartialEq, Eq, Structural)]
pub struct GlArgs {
    pub a: i64,
    pub b: i64,
    pub c: i64,
    pub d: i64,
}

pub open spec fn zero_args() -> GlArgs {
    GlArgs { a: 0, b: 0, c: 0, d: 0 }
}

/// A GL state call (`glViewport`, `glBlendFunc`, ...) whose arguments are
/// cached, with one saved set of arguments.
#[derive(Clone, Copy, Debug)]
pub struct CachedCall {
    pub state: GlArgs,
    pub saved: GlArgs,
    pub set_once: bool,
    pub valid: bool,
}

/// `b` after setting arguments `args` on `a`, and whether GL is called.
pub open spec fn set_args_post(a: CachedCall, args: GlArgs, b: CachedCall, call: bool) -> bool {
    &&& call == (args != a.state)
    &&& b == CachedCall { state: args, set_once: true, ..a }
}

/// `b` after saving the arguments of `a`.
pub open spec fn save_post(a: CachedCall, b: CachedCall) -> bool {
    b == CachedCall { saved: a.state, valid: true, ..a }
}

/// `b` after restoring the saved arguments of `a`, and whether GL is called.
pub open spec fn restore_post(a: CachedCall, b: CachedCall, call: bool) -> bool {
    &&& call == (a.state != a.saved)
    &&& b == CachedCall { state: a.saved, valid: false, ..a }
}

impl CachedCall {
    /// A call that has never been made: its cached arguments are all 0.
    pub fn new() -> (c: Self)
        ensures
            c.state == zero_args(),
            c.saved == zero_args(),
            !c.set_once,
            !c.valid,
    {
        let z = GlArgs { a: 0, b: 0, c: 0, d: 0 };
        CachedCall { state: z, saved: z, set_once: false, valid: false }
    }

    /// Sets the arguments; returns whether the GL call has to be made, that
    /// is whether they differ from the cached ones. The first call must not
    /// pass all zeros.
    pub fn SetArgs(&mut self, args: GlArgs) -> (call: bool)
        requires
            old(self).set_once || args != old(self).state,
        ensures
            set_args_post(*old(self), args, *final(self), call),
    {
        self.set_once = true;
        if self.state != args {
            self.state = args;
            true
        } else {
            false
        }
    }

    /// Saves the current arguments; the call must have been set before.
    pub fn Save(&mut self)
        requires
            old(self).set_once,
        ensures
            save_post(*old(self), *final(self)),
    {
        self.valid = true;
        self.saved = self.state;
    }

    /// Goes back to the saved arguments, once per save; returns whether the
    /// GL call has to be made.
    pub fn Restore(&mut self) -> (call: bool)
        requires
            old(self).valid,
        ensures
            restore_post(*old(self), *final(self), call),
    {
        self.valid = false;
        if self.state != self.saved {
            self.state = self.saved;
            true
        } else {
            false
        }
    }
}

/// Law: save, set any arguments, restore: the cached arguments are those of
/// the save, the restore makes the GL call exactly when the set changed
/// them, and a second restore is refused until the next save.
pub proof fn law_cached_save_set_restore(c0: CachedCall, c1: CachedCall, args: GlArgs, c2: CachedCall, set_call: bool, c3: CachedCall, call: bool)
    requires
        save_post(c0, c1),
        set_args_post(c1, args, c2, set_call),
        restore_post(c2, c3, call),
    ensures
        c3.state == c0.state,
        call == (args != c0.state),
        !c3.valid,
{
}

/// Whether GL was initialised on this thread: the flag is fixed to `set` by
/// the first query and read back by later ones.
pub fn gl_was_initialized(flag: &mut Option<bool>, set: bool) -> (r: bool)
    ensures
        r == (match *old(flag) {
            Some(b) => b,
            None => set,
        }),
        *final(flag) == Some(r),
{
    match *flag {
        Some(b) => b,
        None => {
            *flag = Some(set);
            set
        },
    }
}

/// Plain values that GL state calls take as arguments.
pub trait GLPrimitive: Copy {}

impl GLPrimitive for u8 {}
impl GLPrimitive for i8 {}
impl GLPrimitive for u16 {}
impl GLPrimitive for i16 {}
impl GLPrimitive for u32 {}
impl GLPrimitive for i32 {}
impl GLPrimitive for u64 {}
impl GLPrimitive for i64 {}
impl GLPrimitive for usize {}
impl GLPrimitive for isize {}

} // verus!

//! A triangle that covers the whole screen, drawn with depth testing off.
use vstd::prelude::*;
use crate::funcs::{Switch, SwitchCall, on_bit, saved_state, law_save_restore};

verus! {

/// Clip-space position and texture coordinate (x, y, u, v) of the three
/// corners of the screen triangle.
pub open spec fn screen_xyuv_spec() -> Seq<i8> {
    seq![-1i8, -1i8, 0, 0, 3, -1i8, 2, 0, -1i8, 3, 0, 2]
}

pub fn screen_xyuv() -> (r: Vec<i8>)
    ensures
        r@ == screen_xyuv_spec(),
{
    let r = vec![-1i8, -1, 0, 0, 3, -1, 2, 0, -1, 3, 0, 2];
    assert(r@ =~= screen_xyuv_spec());
    r
}

/// Law: the screen triangle covers the whole clip square `[-1, 1]²`: every
/// point of the square satisfies the three edge inequalities of the triangle
/// with corners (-1, -1), (3, -1) and (-1, 3).
pub proof fn law_screen_covers_square(x: int, y: int)
    requires
        -1 <= x <= 1,
        -1 <= y <= 1,
    ensures
        ({
            let c = screen_xyuv_spec();
            &&& y >= c[1]
            &&& x >= c[8]
            &&& (x - c[4]) * (c[9] - c[5]) - (y - c[5]) * (c[8] - c[4]) <= 0
        }),
{
    let c = screen_xyuv_spec();
    assert(c[4] == 3 && c[5] == -1 && c[8] == -1 && c[9] == 3);
    assert((x - 3) * 4 - (y + 1) * (-4) <= 0) by (nonlinear_arith)
        requires
            -1 <= x <= 1,
            -1 <= y <= 1,
    ;
}

/// GL calls of a screen draw: the depth-test switch is saved, turned off for
/// an unindexed draw of `count` vertices, and restored.
#[derive(Clone, Copy, Debug, PartialEq, Eq)]
pub struct ScreenDraw {
    pub disable: SwitchCall,
    pub count: i32,
    pub restore: SwitchCall,
}

/// Draws the screen triangle with the depth test `depth_test` off, then
/// puts the depth test back as it was.
pub fn Draw(depth_test: &mut Switch) -> (r: ScreenDraw)
    requires
        old(depth_test).depth >= 0,
    ensures
        r.count == 3,
        r.disable == (if old(depth_test).enabled() { SwitchCall::Disable } else { SwitchCall::Keep }),
        r.restore == (if old(depth_test).enabled() { SwitchCall::Enable } else { SwitchCall::Keep }),
        final(depth_test).enabled() == old(depth_test).enabled(),
        final(depth_test).state == old(depth_test).state & 0x7fff_ffff_ffff_ffffu64,
        final(depth_test).depth == (if old(depth_test).depth < 64 { old(depth_test).depth } else { 63 }),
{
    let ghost s0 = depth_test.state;
    depth_test.Save();
    let disable = depth_test.Disable();
    proof {
        law_save_restore(s0);
        let x = saved_state(s0) & !1u64;
        assert((x >> 1) == (saved_state(s0) >> 1)) by (bit_vector)
            requires
                x == saved_state(s0) & !1u64,
        ;
        assert(on_bit(s0) ==> (x >> 1) != 0) by (bit_vector)
            requires
                x >> 1 == s0 & 0x7fff_ffff_ffff_ffffu64,
        ;
        assert(!on_bit(x)) by (bit_vector)
            requires
                x == saved_state(s0) & !1u64,
        ;
    }
    let restore = depth_test.Restore();
    ScreenDraw { disable, count: 3, restore }
}

} // verus!

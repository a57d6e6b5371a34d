//! Index lists of generated meshes.
use vstd::prelude::*;

verus! {

/// Entry `i` of the triangle-strip row `y` of a sphere with `s` vertices per
/// ring: the vertices of ring `y` and ring `y + 1` in turn, column by column.
/// The first two rows run forward; later rows run backward.
pub open spec fn strip_entry(s: int, y: int, i: int) -> int {
    let j = if y % 2 == y { i } else { 2 * s - 1 - i };
    let x = j / 2;
    if j % 2 == 0 {
        y * s + x
    } else {
        (y + 1) * s + x
    }
}

/// Index `k` of a sphere of `segs` segments, drawn as one triangle strip of
/// `segs` rows of `2 * (segs + 1)` indices.
pub open spec fn sphere_index(segs: int, k: int) -> int {
    let s = segs + 1;
    strip_entry(s, k / (2 * s), k % (2 * s))
}

pub proof fn lemma_row_position(s: int, y: int, i: int)
    requires
        s >= 1,
        y >= 0,
        0 <= i < 2 * s,
    ensures
        (2 * s * y + i) / (2 * s) == y,
        (2 * s * y + i) % (2 * s) == i,
{
    assert(2 * s * y + i == y * (2 * s) + i) by (nonlinear_arith);
    vstd::arithmetic::div_mod::lemma_fundamental_div_mod_converse(2 * s * y + i, 2 * s, y, i);
}

/// Law: every index of a sphere names one of its `(segs + 1)²` vertices.
pub proof fn law_sphere_indices_in_range(segs: int, k: int)
    requires
        segs >= 0,
        0 <= k < 2 * segs * (segs + 1),
    ensures
        0 <= sphere_index(segs, k) < (segs + 1) * (segs + 1),
{
    let s = segs + 1;
    let y = k / (2 * s);
    let i = k % (2 * s);
    vstd::arithmetic::div_mod::lemma_fundamental_div_mod(k, 2 * s);
    assert(0 <= i < 2 * s);
    assert(0 <= y < segs) by (nonlinear_arith)
        requires
            k == (2 * s) * y + i,
            0 <= i < 2 * s,
            0 <= k < 2 * segs * s,
            s == segs + 1,
    ;
    let j = if y % 2 == y { i } else { 2 * s - 1 - i };
    assert(0 <= j < 2 * s);
    let x = j / 2;
    assert(0 <= x <= s - 1);
    assert(0 <= y * s + x < s * s && 0 <= (y + 1) * s + x < s * s) by (nonlinear_arith)
        requires
            0 <= y < segs,
            0 <= x <= s - 1,
            s == segs + 1,
    ;
    assert(sphere_index(segs, k) == strip_entry(s, y, i));
    assert(strip_entry(s, y, i) == if j % 2 == 0 { y * s + x } else { (y + 1) * s + x });
}

/// The indices of a sphere of `segs` segments and their number: each row
/// of the strip pairs ring `y` with ring `y + 1`.
pub fn sphere_indices(segs: u32) -> (r: (Vec<u16>, u16))
    requires
        2 * segs * (segs + 1) <= u16::MAX,
    ensures
        r.0@.len() == 2 * segs * (segs + 1),
        r.1 == 2 * segs * (segs + 1),
        forall|k: int| 0 <= k < r.0@.len() ==> #[trigger] r.0@[k] == sphere_index(segs as int, k),
{
    assert(segs <= 180) by (nonlinear_arith)
        requires
            2 * segs * (segs + 1) <= u16::MAX,
    ;
    let s: u32 = segs + 1;
    let mut r: Vec<u16> = Vec::new();
    let mut y: u32 = 0;
    while y < segs
        invariant
            segs <= 180,
            s == segs + 1,
            y <= segs,
            r@.len() == 2 * s * y,
            forall|k: int| 0 <= k < r@.len() ==> #[trigger] r@[k] == sphere_index(segs as int, k),
        decreases segs - y,
    {
        let mut i: u32 = 0;
        while i < 2 * s
            invariant
                segs <= 180,
                s == segs + 1,
                y < segs,
                i <= 2 * s,
                r@.len() == 2 * s * y + i,
                forall|k: int| 0 <= k < r@.len() ==> #[trigger] r@[k] == sphere_index(segs as int, k),
            decreases 2 * s - i,
        {
            let j: u32 = if y % 2 == y { i } else { 2 * s - 1 - i };
            let x: u32 = j / 2;
            assert(y * s + x + s <= s * s - 1) by (nonlinear_arith)
                requires
                    y + 1 <= s - 1,
                    x <= s - 1,
                    s >= 1,
            ;
            assert(s * s <= 181 * 181) by (nonlinear_arith)
                requires
                    s <= 181,
            ;
            assert((y + 1) * s + x == y * s + x + s) by (nonlinear_arith);
            let v: u32 = if j % 2 == 0 { y * s + x } else { (y + 1) * s + x };
            proof {
                lemma_row_position(s as int, y as int, i as int);
            }
            let ghost before = r@;
            r.push(v as u16);
            proof {
                let k = 2 * s * y + i;
                assert(r@[k as int] == v as u16);
                assert(sphere_index(segs as int, k as int) == strip_entry(s as int, y as int, i as int));
                assert forall|kk: int| 0 <= kk < r@.len() implies #[trigger] r@[kk] == sphere_index(segs as int, kk) by {
                    if kk < before.len() {
                        assert(r@[kk] == before[kk]);
                    }
                }
            }
            i = i + 1;
        }
        assert(2 * s * y + 2 * s == 2 * s * (y + 1)) by (nonlinear_arith);
        y = y + 1;
    }
    assert(2 * s * segs == 2 * segs * (segs + 1)) by (nonlinear_arith)
        requires
            s == segs + 1,
    ;
    let n = r.len() as u16;
    (r, n)
}

} // verus!

//! Allocation of texture image units.
//!
//! Every unit remembers the texture and sampler last bound to it and how many
//! live bindings still use it. Binding a (texture, sampler) pair first tries
//! the caller's hint, then any unit already holding the pair, then a unit that
//! can be reused, then a fresh unit past the used prefix; when none is left the
//! table is garbage-collected. The caller issues the GL calls that the
//! returned [`UnitBind`] asks for.
use vstd::prelude::*;

verus! {

/// One texture image unit.
#[derive(Clone, Copy, Debug, PartialEq, Eq, Default)]
pub struct Unit {
    pub tex: u32,
    pub samp: u32,
    pub bind_count: u32,
}

/// The table of texture units of one GL context.
#[derive(Debug)]
pub struct Units {
    pub used: u32,
    pub len: u32,
    pub units: Vec<Unit>,
}

/// Mathematical model of a [`Units`] table.
pub struct UnitTable {
    pub used: int,
    pub len: int,
    pub units: Seq<Unit>,
}

impl View for Units {
    type V = UnitTable;

    open spec fn view(&self) -> UnitTable {
        UnitTable { used: self.used as int, len: self.len as int, units: self.units@ }
    }
}

/// Outcome of a bind: the unit chosen, and which GL bindings of that unit
/// have to be updated by the caller.
#[derive(Clone, Copy, Debug, PartialEq, Eq)]
pub struct UnitBind {
    pub unit: u32,
    pub set_tex: bool,
    pub set_samp: bool,
}

/// The unit holds exactly this texture and sampler.
pub open spec fn holds(u: Unit, obj: u32, s: u32) -> bool {
    u.tex == obj && u.samp == s
}

/// The unit may be taken for `obj`: it is empty, or holds `obj` without a sampler.
pub open spec fn reusable(u: Unit, obj: u32) -> bool {
    u.tex == 0 || (u.tex == obj && u.samp == 0)
}

pub open spec fn first_holding(us: Seq<Unit>, n: int, obj: u32, s: u32, k: int) -> bool {
    &&& 0 <= k < n
    &&& holds(us[k], obj, s)
    &&& forall|j: int| 0 <= j < k ==> !holds(#[trigger] us[j], obj, s)
}

pub open spec fn none_holding(us: Seq<Unit>, n: int, obj: u32, s: u32) -> bool {
    forall|j: int| 0 <= j < n ==> !holds(#[trigger] us[j], obj, s)
}

pub open spec fn first_reusable(us: Seq<Unit>, n: int, obj: u32, k: int) -> bool {
    &&& 0 <= k < n
    &&& reusable(us[k], obj)
    &&& forall|j: int| 0 <= j < k ==> !reusable(#[trigger] us[j], obj)
}

pub open spec fn none_reusable(us: Seq<Unit>, n: int, obj: u32) -> bool {
    forall|j: int| 0 <= j < n ==> !reusable(#[trigger] us[j], obj)
}

/// Index of the first reusable unit below `n`, or `n` when there is none.
pub open spec fn reusable_slot(us: Seq<Unit>, n: int, obj: u32) -> int {
    if exists|k: int| first_reusable(us, n, obj, k) {
        choose|k: int| first_reusable(us, n, obj, k)
    } else {
        n
    }
}

/// The table after a garbage collection: every unit that no binding uses
/// forgets its texture.
pub open spec fn collected(us: Seq<Unit>) -> Seq<Unit> {
    us.map_values(|u: Unit| if u.bind_count == 0 { Unit { tex: 0, samp: u.samp, bind_count: 0 } } else { u })
}

pub open spec fn any_bound(us: Seq<Unit>) -> bool {
    exists|k: int| 0 <= k < us.len() && #[trigger] us[k].bind_count > 0
}

/// `k` is the last unit with a live binding.
pub open spec fn last_bound(us: Seq<Unit>, k: int) -> bool {
    &&& 0 <= k < us.len()
    &&& us[k].bind_count > 0
    &&& forall|j: int| k < j < us.len() ==> #[trigger] us[j].bind_count == 0
}

pub open spec fn any_free(us: Seq<Unit>) -> bool {
    exists|k: int| 0 <= k < us.len() && #[trigger] us[k].bind_count == 0
}

/// `k` is the first unit without a live binding.
pub open spec fn first_free(us: Seq<Unit>, k: int) -> bool {
    &&& 0 <= k < us.len()
    &&& us[k].bind_count == 0
    &&& forall|j: int| 0 <= j < k ==> #[trigger] us[j].bind_count > 0
}

/// `used` after a collection: the last unit with a live binding, or unchanged
/// when no unit is in use.
pub open spec fn collected_used(us: Seq<Unit>, used: int) -> int {
    if any_bound(us) {
        choose|k: int| last_bound(us, k)
    } else {
        used
    }
}

/// Unit picked by a collection: the first free unit, or unit 0 when all are in use.
pub open spec fn collected_slot(us: Seq<Unit>) -> int {
    if any_free(us) {
        choose|k: int| first_free(us, k)
    } else {
        0
    }
}

/// Relation between a table before and after a garbage collection that
/// returned unit `e`.
pub open spec fn gc_post(a: UnitTable, b: UnitTable, e: int) -> bool {
    &&& b.len == a.len
    &&& b.units == collected(a.units)
    &&& b.used == collected_used(a.units, a.used)
    &&& e == collected_slot(a.units)
}

pub open spec fn with_count(u: Unit, c: int) -> Unit {
    Unit { tex: u.tex, samp: u.samp, bind_count: c as u32 }
}

/// The table before the unit is claimed, the `used` it then has, and the unit
/// claimed, when neither the hint nor any used unit already holds the pair.
pub open spec fn claim_base(a: UnitTable, slot: int) -> (Seq<Unit>, int, int) {
    let used1 = if slot < a.used { a.used } else { a.used + 1 };
    if slot < a.len {
        (a.units, used1, slot)
    } else {
        (collected(a.units), if any_bound(a.units) { collected_used(a.units, a.used) } else { used1 }, collected_slot(a.units))
    }
}

/// Relation between a table before and after `bind(obj, s, hint)` returned `r`.
pub open spec fn bind_post(a: UnitTable, obj: u32, s: u32, hint: int, b: UnitTable, r: UnitBind) -> bool {
    let h = a.units[hint];
    &&& b.len == a.len
    &&& if holds(h, obj, s) {
        &&& r == UnitBind { unit: hint as u32, set_tex: false, set_samp: false }
        &&& b.used == a.used
        &&& b.units == a.units.update(hint, with_count(h, h.bind_count + 1))
    } else if !none_holding(a.units, a.used, obj, s) {
        &&& first_holding(a.units, a.used, obj, s, r.unit as int)
        &&& !r.set_tex && !r.set_samp
        &&& b.used == a.used
        &&& b.units == a.units.update(r.unit as int, with_count(a.units[r.unit as int], a.units[r.unit as int].bind_count + 1))
    } else {
        let (base, used, t) = claim_base(a, reusable_slot(a.units, a.used, obj));
        &&& r == UnitBind { unit: t as u32, set_tex: base[t].tex != obj, set_samp: base[t].samp != s }
        &&& b.used == used
        &&& b.units == base.update(t, Unit { tex: obj, samp: s, bind_count: (base[t].bind_count + 1) as u32 })
    }
}

/// Relation between a table before and after `bind_any(obj, hint)` returned `r`.
pub open spec fn bind_any_post(a: UnitTable, obj: u32, hint: int, b: UnitTable, r: UnitBind) -> bool {
    let h = a.units[hint];
    &&& b.len == a.len
    &&& !r.set_samp
    &&& if h.tex == obj {
        &&& r == UnitBind { unit: hint as u32, set_tex: false, set_samp: false }
        &&& b.used == a.used
        &&& b.units == a.units.update(hint, with_count(h, h.bind_count + 1))
    } else if exists|k: int| 0 <= k < a.used && #[trigger] a.units[k].tex == obj {
        &&& 0 <= r.unit < a.used
        &&& a.units[r.unit as int].tex == obj
        &&& forall|j: int| 0 <= j < r.unit ==> #[trigger] a.units[j].tex != obj
        &&& !r.set_tex
        &&& b.used == a.used
        &&& b.units == a.units.update(r.unit as int, with_count(a.units[r.unit as int], a.units[r.unit as int].bind_count + 1))
    } else {
        let (base, used, t) = claim_base(a, reusable_slot(a.units, a.used, 0));
        &&& r == UnitBind { unit: t as u32, set_tex: true, set_samp: false }
        &&& b.used == used
        &&& b.units == base.update(t, Unit { tex: obj, samp: base[t].samp, bind_count: (base[t].bind_count + 1) as u32 })
    }
}

/// Relation between a table before and after `drop_tex(obj)`.
pub open spec fn drop_tex_post(a: UnitTable, obj: u32, b: UnitTable) -> bool {
    &&& b.len == a.len
    &&& b.units.len() == a.units.len()
    &&& forall|i: int| 0 <= i < a.units.len() ==> #[trigger] b.units[i] == (if a.units[i].tex == obj {
        Unit { tex: 0, samp: a.units[i].samp, bind_count: a.units[i].bind_count }
    } else {
        a.units[i]
    })
    &&& b.used == (if 1 <= a.used <= a.len && a.units[a.used - 1].tex == obj {
        shrunk_used(b.units, a.used - 1)
    } else {
        a.used
    })
}

/// Counting down from `i`, the first index that is 0 or whose unit holds a texture.
pub open spec fn shrunk_used(us: Seq<Unit>, i: int) -> int
    decreases i,
{
    if i <= 0 {
        0
    } else if us[i].tex != 0 {
        i
    } else {
        shrunk_used(us, i - 1)
    }
}

/// `shrunk_used` only looks at units at or below its start.
pub proof fn lemma_shrunk_used_prefix(us1: Seq<Unit>, us2: Seq<Unit>, k: int)
    requires
        forall|j: int| 0 <= j <= k ==> #[trigger] us1[j] == us2[j],
    ensures
        shrunk_used(us1, k) == shrunk_used(us2, k),
    decreases k,
{
    if k > 0 {
        lemma_shrunk_used_prefix(us1, us2, k - 1);
    }
}

pub proof fn lemma_shrunk_used_below(us: Seq<Unit>, k: int)
    requires
        0 <= k,
    ensures
        0 <= shrunk_used(us, k) <= k,
    decreases k,
{
    if k > 0 {
        lemma_shrunk_used_below(us, k - 1);
    }
}


/// A table on which `bind` and `bind_any` may be called with hint `hint`.
pub open spec fn bindable(a: UnitTable, hint: int) -> bool {
    &&& a.units.len() == a.len
    &&& a.len < u32::MAX
    &&& 0 <= hint < a.len
    &&& 0 <= a.used <= a.len
    &&& forall|i: int| 0 <= i < a.units.len() ==> #[trigger] a.units[i].bind_count < u32::MAX
}

/// Some unit is free exactly when there is a first free unit.
proof fn lemma_first_free_exists(us: Seq<Unit>, n: int)
    requires
        0 <= n <= us.len(),
        exists|k: int| 0 <= k < n && #[trigger] us[k].bind_count == 0,
    ensures
        exists|k: int| first_free(us, k) && k < n,
    decreases n,
{
    if exists|k: int| 0 <= k < n - 1 && #[trigger] us[k].bind_count == 0 {
        lemma_first_free_exists(us, n - 1);
    } else {
        assert(first_free(us, n - 1));
    }
}

/// Some unit is bound exactly when there is a last bound unit.
proof fn lemma_last_bound_exists(us: Seq<Unit>, lo: int)
    requires
        0 <= lo <= us.len(),
        exists|k: int| lo <= k < us.len() && #[trigger] us[k].bind_count > 0,
    ensures
        exists|k: int| last_bound(us, k),
    decreases us.len() - lo,
{
    if exists|k: int| lo + 1 <= k < us.len() && #[trigger] us[k].bind_count > 0 {
        lemma_last_bound_exists(us, lo + 1);
    } else {
        assert(last_bound(us, lo));
    }
}

proof fn lemma_claim_base(a: UnitTable, slot: int)
    requires
        a.units.len() == a.len,
        0 < a.len,
        0 <= slot <= a.used <= a.len,
    ensures
        ({
            let (base, used, t) = claim_base(a, slot);
            &&& 0 <= t < a.len
            &&& base.len() == a.len
            &&& forall|i: int| 0 <= i < a.len ==> (#[trigger] base[i]).bind_count == a.units[i].bind_count
            &&& used <= a.len || (!any_bound(a.units) && used == a.len + 1)
        }),
{
    let cu = collected(a.units);
    assert(forall|i: int| 0 <= i < a.len ==> (#[trigger] cu[i]).bind_count == a.units[i].bind_count);
    if any_free(a.units) {
        lemma_first_free_exists(a.units, a.units.len() as int);
        let k = choose|k: int| first_free(a.units, k);
    }
    if any_bound(a.units) {
        lemma_last_bound_exists(a.units, 0);
        let k = choose|k: int| last_bound(a.units, k);
    }
}

proof fn lemma_reusable_slot(us: Seq<Unit>, n: int, obj: u32)
    requires
        0 <= n,
    ensures
        0 <= reusable_slot(us, n, obj) <= n,
{
    if exists|k: int| first_reusable(us, n, obj, k) {
        let k = choose|k: int| first_reusable(us, n, obj, k);
    }
}

/// Law: the unit that `bind` returns holds the requested texture and
/// sampler, with at least one live binding.
pub proof fn law_bind_holds(a: UnitTable, obj: u32, s: u32, hint: int, b: UnitTable, r: UnitBind)
    requires
        bindable(a, hint),
        bind_post(a, obj, s, hint, b, r),
    ensures
        0 <= r.unit < b.len,
        holds(b.units[r.unit as int], obj, s),
        b.units[r.unit as int].bind_count >= 1,
{
    lemma_reusable_slot(a.units, a.used, obj);
    lemma_claim_base(a, reusable_slot(a.units, a.used, obj));
}

/// Law: `bind` adds exactly one binding, to the unit it returns, and leaves
/// the number of bindings of every other unit unchanged.
pub proof fn law_bind_counts(a: UnitTable, obj: u32, s: u32, hint: int, b: UnitTable, r: UnitBind)
    requires
        bindable(a, hint),
        bind_post(a, obj, s, hint, b, r),
    ensures
        b.units.len() == a.units.len(),
        b.units[r.unit as int].bind_count == a.units[r.unit as int].bind_count + 1,
        forall|i: int| 0 <= i < a.len && i != r.unit ==> #[trigger] b.units[i].bind_count == a.units[i].bind_count,
{
    lemma_reusable_slot(a.units, a.used, obj);
    lemma_claim_base(a, reusable_slot(a.units, a.used, obj));
}

/// Law: binding and then unbinding the returned unit leaves every unit with
/// the number of bindings it had before.
pub proof fn law_bind_unbind(a: UnitTable, obj: u32, s: u32, hint: int, b: UnitTable, r: UnitBind, c: Seq<Unit>)
    requires
        bindable(a, hint),
        bind_post(a, obj, s, hint, b, r),
        c == b.units.update(r.unit as int, with_count(b.units[r.unit as int], b.units[r.unit as int].bind_count - 1)),
    ensures
        c.len() == a.units.len(),
        forall|i: int| 0 <= i < a.len ==> #[trigger] c[i].bind_count == a.units[i].bind_count,
{
    law_bind_holds(a, obj, s, hint, b, r);
    law_bind_counts(a, obj, s, hint, b, r);
}

/// Some unit below `n` may be taken for `obj` exactly when there is a first such unit.
proof fn lemma_first_reusable_exists(us: Seq<Unit>, n: int, obj: u32, j: int)
    requires
        0 <= j < n <= us.len(),
        reusable(us[j], obj),
    ensures
        exists|k: int| first_reusable(us, n, obj, k),
    decreases j,
{
    if exists|i: int| 0 <= i < j && reusable(#[trigger] us[i], obj) {
        let i = choose|i: int| 0 <= i < j && reusable(#[trigger] us[i], obj);
        lemma_first_reusable_exists(us, n, obj, i);
    } else {
        assert(first_reusable(us, n, obj, j));
    }
}

/// Law: when no used unit holds the pair but some used unit is empty or
/// holds the texture without a sampler, `bind` takes the first such used
/// unit; `used` stays, and the texture is set only where the unit held
/// another one.
pub proof fn law_bind_reuses_empty(a: UnitTable, obj: u32, s: u32, hint: int, b: UnitTable, r: UnitBind, e: int)
    requires
        bindable(a, hint),
        bind_post(a, obj, s, hint, b, r),
        !(a.units[hint].tex == obj && a.units[hint].samp == s),
        forall|j: int| 0 <= j < a.used ==> !(#[trigger] a.units[j].tex == obj && a.units[j].samp == s),
        0 <= e < a.used,
        a.units[e].tex == 0 || (a.units[e].tex == obj && a.units[e].samp == 0),
    ensures
        0 <= r.unit < a.used,
        b.used == a.used,
        a.units[r.unit as int].tex == 0 || (a.units[r.unit as int].tex == obj && a.units[r.unit as int].samp == 0),
        forall|j: int| 0 <= j < r.unit ==> #[trigger] a.units[j].tex != 0 && !(a.units[j].tex == obj && a.units[j].samp == 0),
        r.set_tex == (a.units[r.unit as int].tex != obj),
        r.set_samp == (a.units[r.unit as int].samp != s),
        b.units[r.unit as int] == (Unit { tex: obj, samp: s, bind_count: (a.units[r.unit as int].bind_count + 1) as u32 }),
{
    assert(reusable(a.units[e], obj));
    lemma_first_reusable_exists(a.units, a.used, obj, e);
    let k = choose|k: int| first_reusable(a.units, a.used, obj, k);
    assert(reusable_slot(a.units, a.used, obj) == k);
    assert(none_holding(a.units, a.used, obj, s));
    assert forall|j: int| 0 <= j < k implies #[trigger] a.units[j].tex != 0 && !(a.units[j].tex == obj && a.units[j].samp == 0) by {
        assert(!reusable(a.units[j], obj));
    }
}

/// Law: `bind` keeps `used` within the table, except when every unit was
/// collected: then `used` ends one past the end.
pub proof fn law_bind_used(a: UnitTable, obj: u32, s: u32, hint: int, b: UnitTable, r: UnitBind)
    requires
        bindable(a, hint),
        bind_post(a, obj, s, hint, b, r),
    ensures
        b.used <= b.len || (!any_bound(a.units) && b.used == b.len + 1),
{
    lemma_reusable_slot(a.units, a.used, obj);
    lemma_claim_base(a, reusable_slot(a.units, a.used, obj));
}

/// Law: binding the same pair again, with the returned unit as the hint,
/// returns that unit and asks for no GL call.
pub proof fn law_bind_again(
    a: UnitTable,
    obj: u32,
    s: u32,
    hint: int,
    b: UnitTable,
    r: UnitBind,
    c: UnitTable,
    r2: UnitBind,
)
    requires
        bindable(a, hint),
        bind_post(a, obj, s, hint, b, r),
        bind_post(b, obj, s, r.unit as int, c, r2),
    ensures
        r2 == (UnitBind { unit: r.unit, set_tex: false, set_samp: false }),
{
    law_bind_holds(a, obj, s, hint, b, r);
}

/// Law: the unit that `bind_any` returns holds the requested texture.
pub proof fn law_bind_any_holds(a: UnitTable, obj: u32, hint: int, b: UnitTable, r: UnitBind)
    requires
        bindable(a, hint),
        bind_any_post(a, obj, hint, b, r),
    ensures
        0 <= r.unit < b.len,
        b.units[r.unit as int].tex == obj,
        b.units[r.unit as int].bind_count >= 1,
{
    lemma_reusable_slot(a.units, a.used, 0);
    lemma_claim_base(a, reusable_slot(a.units, a.used, 0));
}

/// Law: after `drop_tex(obj)` with a texture name other than 0, no unit
/// holds that texture, and `used` has not grown.
pub proof fn law_drop_tex(a: UnitTable, obj: u32, b: UnitTable)
    requires
        a.units.len() == a.len,
        obj != 0,
        drop_tex_post(a, obj, b),
    ensures
        forall|i: int| 0 <= i < b.units.len() ==> #[trigger] b.units[i].tex != obj,
        b.used <= a.used,
{
    if 1 <= a.used <= a.len && a.units[a.used - 1].tex == obj {
        lemma_shrunk_used_below(b.units, a.used - 1);
    }
}

impl Units {
    /// Table sizes agree, and `1 + len` fits.
    pub open spec fn wf(&self) -> bool {
        &&& self.units@.len() == self.len
        &&& self.len < u32::MAX
    }

    /// No unit's binding count is at its maximum.
    pub open spec fn counts_below_max(&self) -> bool {
        forall|i: int| 0 <= i < self.units@.len() ==> #[trigger] self.units@[i].bind_count < u32::MAX
    }
}

/// The empty table of a context that reports `max_units` texture image
/// units for fragment shaders and `max_combined` in all: as many units as the
/// smaller of the two.
pub fn bound_units(max_units: i32, max_combined: i32) -> (t: Units)
    requires
        max_units >= 0,
        max_combined >= 0,
    ensures
        t.wf(),
        t.used == 0,
        t.len == (if max_units <= max_combined { max_units } else { max_combined }),
        forall|i: int| 0 <= i < t.len ==> #[trigger] t.units@[i] == (Unit { tex: 0, samp: 0, bind_count: 0 }),
{
    let m = if max_units <= max_combined { max_units } else { max_combined };
    let len = m as u32;
    let mut units: Vec<Unit> = Vec::new();
    let mut i: u32 = 0;
    while i < len
        invariant
            i <= len,
            units@.len() == i,
            forall|j: int| 0 <= j < i ==> #[trigger] units@[j] == (Unit { tex: 0, samp: 0, bind_count: 0 }),
        decreases len - i,
    {
        units.push(Unit { tex: 0, samp: 0, bind_count: 0 });
        i = i + 1;
    }
    Units { used: 0, len, units }
}

/// Frees every unit that no binding uses; returns the first free unit, or
/// unit 0 when every unit is in use.
pub fn garbage_collect(units: &mut Units) -> (e: u32)
    requires
        old(units).wf(),
    ensures
        final(units).wf(),
        gc_post(old(units)@, final(units)@, e as int),
        e < final(units).len || final(units).len == 0,
{
    let ghost a = units@;
    let len = units.len;
    let npos = 1 + len;
    let mut empty = npos;
    let mut i: u32 = 0;
    while i < len
        invariant
            units.wf(),
            units.len == len,
            len == a.len,
            npos == len + 1,
            a.units.len() == len,
            0 <= i <= len,
            forall|j: int| 0 <= j < i ==> #[trigger] units.units@[j] == collected(a.units)[j],
            forall|j: int| i <= j < len ==> #[trigger] units.units@[j] == a.units[j],
            (exists|k: int| 0 <= k < i && #[trigger] a.units[k].bind_count > 0) ==> {
                &&& 0 <= units.used < i
                &&& a.units[units.used as int].bind_count > 0
                &&& forall|j: int| units.used < j < i ==> #[trigger] a.units[j].bind_count == 0
            },
            !(exists|k: int| 0 <= k < i && #[trigger] a.units[k].bind_count > 0) ==> units.used == a.used,
            empty == npos ==> forall|j: int| 0 <= j < i ==> #[trigger] a.units[j].bind_count > 0,
            empty != npos ==> first_free(a.units, empty as int) && empty < i,
        decreases len - i,
    {
        let u = units.units[i as usize];
        if u.bind_count == 0 {
            units.units.set(i as usize, Unit { tex: 0, samp: u.samp, bind_count: 0 });
            if empty == npos {
                empty = i;
            }
        } else {
            units.used = i;
        }
        i = i + 1;
    }
    proof {
        assert(units.units@ =~= collected(a.units));
        if any_bound(a.units) {
            let k = choose|k: int| last_bound(a.units, k);
            assert(last_bound(a.units, units.used as int));
        }
        if any_free(a.units) {
            assert(empty != npos);
            let k = choose|k: int| first_free(a.units, k);
        }
    }
    if empty == npos {
        empty = 0;
    }
    empty
}

/// Releases one binding of unit `u`.
pub fn Unbind(units: &mut Units, u: u32)
    requires
        old(units).wf(),
        u < old(units).len,
        old(units).units@[u as int].bind_count > 0,
    ensures
        final(units).wf(),
        final(units).used == old(units).used,
        final(units).len == old(units).len,
        final(units).units@ == old(units).units@.update(
            u as int,
            with_count(old(units).units@[u as int], old(units).units@[u as int].bind_count - 1),
        ),
{
    let x = units.units[u as usize];
    units.units.set(u as usize, Unit { tex: x.tex, samp: x.samp, bind_count: x.bind_count - 1 });
}

/// Adds one binding to unit `u`, for a copied binding.
pub fn Clone(units: &mut Units, u: u32)
    requires
        old(units).wf(),
        u < old(units).len,
        old(units).units@[u as int].bind_count < u32::MAX,
    ensures
        final(units).wf(),
        final(units).used == old(units).used,
        final(units).len == old(units).len,
        final(units).units@ == old(units).units@.update(
            u as int,
            with_count(old(units).units@[u as int], old(units).units@[u as int].bind_count + 1),
        ),
{
    let x = units.units[u as usize];
    units.units.set(u as usize, Unit { tex: x.tex, samp: x.samp, bind_count: x.bind_count + 1 });
}

/// Binds texture `obj` with sampler `s`, preferring unit `hint`; returns
/// the unit and which of its GL bindings the caller has to update.
pub fn Bind(units: &mut Units, obj: u32, s: u32, hint: u32) -> (r: UnitBind)
    requires
        old(units).wf(),
        hint < old(units).len,
        old(units).used <= old(units).len,
        old(units).counts_below_max(),
    ensures
        final(units).wf(),
        bind_post(old(units)@, obj, s, hint as int, final(units)@, r),
        r.unit < final(units).len,
{
    let ghost a = units@;
    let h = units.units[hint as usize];
    if h.tex == obj && h.samp == s {
        units.units.set(hint as usize, Unit { tex: h.tex, samp: h.samp, bind_count: h.bind_count + 1 });
        return UnitBind { unit: hint, set_tex: false, set_samp: false };
    }
    let npos = 1 + units.len;
    let mut empty = npos;
    let mut found = npos;
    let mut i: u32 = 0;
    while i < units.used && found == npos
        invariant
            units@ == a,
            a.units.len() == a.len,
            a.len < u32::MAX,
            a.used <= a.len,
            npos == a.len + 1,
            0 <= i <= a.used,
            found == npos ==> none_holding(a.units, i as int, obj, s),
            found != npos ==> first_holding(a.units, a.used as int, obj, s, found as int),
            empty == npos ==> none_reusable(a.units, i as int, obj),
            empty != npos ==> first_reusable(a.units, i as int, obj, empty as int),
        decreases a.used - i + (if found == npos { 1int } else { 0int }),
    {
        let u = units.units[i as usize];
        if u.tex == obj && u.samp == s {
            found = i;
        } else {
            if empty == npos && (u.tex == 0 || (u.tex == obj && u.samp == 0)) {
                empty = i;
            }
            i = i + 1;
        }
    }
    if found != npos {
        let u = units.units[found as usize];
        assert(u.bind_count < u32::MAX);
        units.units.set(found as usize, Unit { tex: u.tex, samp: u.samp, bind_count: u.bind_count + 1 });
        return UnitBind { unit: found, set_tex: false, set_samp: false };
    }
    proof {
        if empty != npos {
            assert(first_reusable(a.units, a.used as int, obj, empty as int));
            let k = choose|k: int| first_reusable(a.units, a.used as int, obj, k);
            assert(reusable_slot(a.units, a.used as int, obj) == empty as int);
        } else {
            assert(!exists|k: int| first_reusable(a.units, a.used as int, obj, k));
            assert(reusable_slot(a.units, a.used as int, obj) == a.used);
        }
    }
    if empty == npos {
        empty = units.used;
        units.used = units.used + 1;
    }
    if empty >= units.len {
        empty = garbage_collect(units);
    }
    let u = units.units[empty as usize];
    units.units.set(empty as usize, Unit { tex: obj, samp: s, bind_count: u.bind_count + 1 });
    UnitBind { unit: empty, set_tex: u.tex != obj, set_samp: u.samp != s }
}

/// Binds texture `obj` whatever sampler its unit has, preferring unit
/// `hint`; the caller binds the texture to the returned unit when asked.
pub fn BindAny(units: &mut Units, obj: u32, hint: u32) -> (r: UnitBind)
    requires
        old(units).wf(),
        hint < old(units).len,
        old(units).used <= old(units).len,
        old(units).counts_below_max(),
    ensures
        final(units).wf(),
        bind_any_post(old(units)@, obj, hint as int, final(units)@, r),
        r.unit < final(units).len,
{
    let ghost a = units@;
    let h = units.units[hint as usize];
    if h.tex == obj {
        units.units.set(hint as usize, Unit { tex: h.tex, samp: h.samp, bind_count: h.bind_count + 1 });
        return UnitBind { unit: hint, set_tex: false, set_samp: false };
    }
    let npos = 1 + units.len;
    let mut empty = npos;
    let mut found = npos;
    let mut i: u32 = 0;
    while i < units.used && found == npos
        invariant
            units@ == a,
            a.units.len() == a.len,
            a.len < u32::MAX,
            a.used <= a.len,
            npos == a.len + 1,
            0 <= i <= a.used,
            found == npos ==> forall|j: int| 0 <= j < i ==> #[trigger] a.units[j].tex != obj,
            found != npos ==> {
                &&& 0 <= found < a.used
                &&& a.units[found as int].tex == obj
                &&& forall|j: int| 0 <= j < found ==> #[trigger] a.units[j].tex != obj
            },
            empty == npos ==> none_reusable(a.units, i as int, 0),
            empty != npos ==> first_reusable(a.units, i as int, 0, empty as int),
        decreases a.used - i + (if found == npos { 1int } else { 0int }),
    {
        let u = units.units[i as usize];
        if u.tex == obj {
            found = i;
        } else {
            if empty == npos && u.tex == 0 {
                empty = i;
            }
            i = i + 1;
        }
    }
    if found != npos {
        let u = units.units[found as usize];
        assert(u.bind_count < u32::MAX);
        units.units.set(found as usize, Unit { tex: u.tex, samp: u.samp, bind_count: u.bind_count + 1 });
        return UnitBind { unit: found, set_tex: false, set_samp: false };
    }
    proof {
        assert(!exists|k: int| 0 <= k < a.used && #[trigger] a.units[k].tex == obj);
        if empty != npos {
            assert(first_reusable(a.units, a.used as int, 0, empty as int));
            let k = choose|k: int| first_reusable(a.units, a.used as int, 0, k);
            assert(reusable_slot(a.units, a.used as int, 0) == empty as int);
        } else {
            assert(!exists|k: int| first_reusable(a.units, a.used as int, 0, k));
            assert(reusable_slot(a.units, a.used as int, 0) == a.used);
        }
    }
    if empty == npos {
        empty = units.used;
        units.used = units.used + 1;
    }
    if empty >= units.len {
        empty = garbage_collect(units);
    }
    let u = units.units[empty as usize];
    units.units.set(empty as usize, Unit { tex: obj, samp: u.samp, bind_count: u.bind_count + 1 });
    UnitBind { unit: empty, set_tex: true, set_samp: false }
}

/// Forgets texture `obj`, which is being deleted, in every unit; shrinks
/// the used prefix when its last unit held `obj`.
pub fn drop_tex(units: &mut Units, obj: u32)
    requires
        old(units).wf(),
        forall|i: int| 0 <= i < old(units).units@.len() && #[trigger] old(units).units@[i].tex == obj
            ==> old(units).units@[i].bind_count == 0,
    ensures
        final(units).wf(),
        drop_tex_post(old(units)@, obj, final(units)@),
{
    let ghost a = units@;
    let len = units.len;
    let mut i: u32 = 0;
    while i < len
        invariant
            units.wf(),
            units.len == len,
            a.len == len,
            a.units.len() == len,
            0 <= i <= len,
            forall|j: int| 0 <= j < i ==> #[trigger] units.units@[j] == (if a.units[j].tex == obj {
                Unit { tex: 0, samp: a.units[j].samp, bind_count: a.units[j].bind_count }
            } else {
                a.units[j]
            }),
            forall|j: int| i <= j < len ==> #[trigger] units.units@[j] == a.units[j],
            units.used == (if 1 <= a.used <= i && a.units[a.used - 1].tex == obj {
                shrunk_used(units.units@, a.used - 1)
            } else {
                a.used
            }),
        decreases len - i,
    {
        let ghost before = units.units@;
        let u = units.units[i as usize];
        if obj == u.tex {
            units.units.set(i as usize, Unit { tex: 0, samp: u.samp, bind_count: u.bind_count });
            if units.used == i + 1 {
                let ghost cleared = units.units@;
                let mut used = i;
                while used > 0 && units.units[used as usize].tex == 0
                    invariant
                        units.units@ == cleared,
                        cleared.len() == len,
                        used <= i < len,
                        shrunk_used(cleared, used as int) == shrunk_used(cleared, i as int),
                    decreases used,
                {
                    used = used - 1;
                }
                assert(shrunk_used(cleared, used as int) == used);
                units.used = used;
            }
        }
        proof {
            if 1 <= a.used <= i && a.units[a.used - 1].tex == obj {
                lemma_shrunk_used_prefix(before, units.units@, a.used - 1);
                lemma_shrunk_used_below(before, a.used - 1);
            }
        }
        i = i + 1;
    }
    proof {
        assert(units.units@.len() == a.units.len());
    }
}

/// Forgets sampler `s`, which is being deleted, in every unit.
pub fn drop_samp(units: &mut Units, s: u32)
    requires
        old(units).wf(),
    ensures
        final(units).wf(),
        final(units).used == old(units).used,
        final(units).len == old(units).len,
        final(units).units@.len() == old(units).units@.len(),
        forall|i: int| 0 <= i < old(units).units@.len() ==> #[trigger] final(units).units@[i] == (if old(units).units@[i].samp == s {
            Unit { tex: old(units).units@[i].tex, samp: 0, bind_count: old(units).units@[i].bind_count }
        } else {
            old(units).units@[i]
        }),
{
    let ghost a = units@;
    let len = units.len;
    let mut i: u32 = 0;
    while i < len
        invariant
            units.wf(),
            units.len == len,
            units.used == a.used,
            a.units.len() == len,
            0 <= i <= len,
            forall|j: int| 0 <= j < i ==> #[trigger] units.units@[j] == (if a.units[j].samp == s {
                Unit { tex: a.units[j].tex, samp: 0, bind_count: a.units[j].bind_count }
            } else {
                a.units[j]
            }),
            forall|j: int| i <= j < len ==> #[trigger] units.units@[j] == a.units[j],
        decreases len - i,
    {
        let u = units.units[i as usize];
        if s == u.samp {
            units.units.set(i as usize, Unit { tex: u.tex, samp: 0, bind_count: u.bind_count });
        }
        i = i + 1;
    }
}

} // verus!

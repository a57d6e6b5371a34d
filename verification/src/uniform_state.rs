//! Allocation of indexed binding locations for uniform and shader-storage
//! buffers.
//!
//! Each location remembers the buffer last bound to it and how many live
//! bindings use it. Binding a buffer first tries the caller's hint, then a
//! location already holding the buffer, then an empty one, then a fresh one
//! past the used prefix, and garbage-collects when none is left. The caller
//! issues `glBindBufferBase` when the result asks for it.
use vstd::prelude::*;

verus! {

/// One binding location.
#[derive(Clone, Copy, Debug, PartialEq, Eq, Default)]
pub struct Loc {
    pub buf: u32,
    pub bind_count: u32,
}

/// The binding locations of one buffer kind in one GL context.
#[derive(Debug)]
pub struct UniformState {
    pub used: u32,
    pub len: u32,
    pub locs: Vec<Loc>,
}

/// Mathematical model of a [`UniformState`].
pub struct LocTable {
    pub used: int,
    pub len: int,
    pub locs: Seq<Loc>,
}

impl View for UniformState {
    type V = LocTable;

    open spec fn view(&self) -> LocTable {
        LocTable { used: self.used as int, len: self.len as int, locs: self.locs@ }
    }
}

/// Outcome of [`UniformState::Bind`]: the location chosen, and whether the
/// caller has to bind the buffer there.
#[derive(Clone, Copy, Debug, PartialEq, Eq)]
pub struct LocBind {
    pub loc: u32,
    pub call: bool,
}

/// Outcome of [`UniformState::BindLocation`]: whether the buffer is bound at
/// the location, and whether the caller has to bind it there.
#[derive(Clone, Copy, Debug, PartialEq, Eq)]
pub struct LocSet {
    pub ok: bool,
    pub call: bool,
}

pub open spec fn loc_with_count(l: Loc, c: int) -> Loc {
    Loc { buf: l.buf, bind_count: c as u32 }
}

/// `k` is the first location below `n` that holds `obj`.
pub open spec fn first_with(ls: Seq<Loc>, n: int, obj: u32, k: int) -> bool {
    &&& 0 <= k < n
    &&& ls[k].buf == obj
    &&& forall|j: int| 0 <= j < k ==> #[trigger] ls[j].buf != obj
}

pub open spec fn none_with(ls: Seq<Loc>, n: int, obj: u32) -> bool {
    forall|j: int| 0 <= j < n ==> #[trigger] ls[j].buf != obj
}

/// Index of the first empty location below `n`, or `n` when there is none.
pub open spec fn empty_slot(ls: Seq<Loc>, n: int) -> int {
    if exists|k: int| first_with(ls, n, 0, k) {
        choose|k: int| first_with(ls, n, 0, k)
    } else {
        n
    }
}

/// The locations after a garbage collection.
pub open spec fn loc_collected(ls: Seq<Loc>) -> Seq<Loc> {
    ls.map_values(|l: Loc| if l.bind_count == 0 { Loc { buf: 0, bind_count: 0 } } else { l })
}

pub open spec fn loc_any_bound(ls: Seq<Loc>) -> bool {
    exists|k: int| 0 <= k < ls.len() && #[trigger] ls[k].bind_count > 0
}

pub open spec fn loc_last_bound(ls: Seq<Loc>, k: int) -> bool {
    &&& 0 <= k < ls.len()
    &&& ls[k].bind_count > 0
    &&& forall|j: int| k < j < ls.len() ==> #[trigger] ls[j].bind_count == 0
}

pub open spec fn loc_any_free(ls: Seq<Loc>) -> bool {
    exists|k: int| 0 <= k < ls.len() && #[trigger] ls[k].bind_count == 0
}

pub open spec fn loc_first_free(ls: Seq<Loc>, k: int) -> bool {
    &&& 0 <= k < ls.len()
    &&& ls[k].bind_count == 0
    &&& forall|j: int| 0 <= j < k ==> #[trigger] ls[j].bind_count > 0
}

pub open spec fn loc_collected_used(ls: Seq<Loc>, used: int) -> int {
    if loc_any_bound(ls) {
        choose|k: int| loc_last_bound(ls, k)
    } else {
        used
    }
}

pub open spec fn loc_collected_slot(ls: Seq<Loc>) -> int {
    if loc_any_free(ls) {
        choose|k: int| loc_first_free(ls, k)
    } else {
        0
    }
}

/// Relation between locations before and after a garbage collection that
/// returned location `e`.
pub open spec fn loc_gc_post(a: LocTable, b: LocTable, e: int) -> bool {
    &&& b.len == a.len
    &&& b.locs == loc_collected(a.locs)
    &&& b.used == loc_collected_used(a.locs, a.used)
    &&& e == loc_collected_slot(a.locs)
}

/// Locations before the buffer is placed, the `used` they then have, and the
/// location taken, when no used location holds the buffer yet.
pub open spec fn loc_claim_base(a: LocTable, slot: int) -> (Seq<Loc>, int, int) {
    let used1 = if slot < a.used { a.used } else { a.used + 1 };
    if slot < a.len {
        (a.locs, used1, slot)
    } else {
        (
            loc_collected(a.locs),
            if loc_any_bound(a.locs) { loc_collected_used(a.locs, a.used) } else { used1 },
            loc_collected_slot(a.locs),
        )
    }
}

/// Relation between locations before and after `Bind(obj, hint)` returned `r`.
pub open spec fn loc_bind_post(a: LocTable, obj: u32, hint: int, b: LocTable, r: LocBind) -> bool {
    let h = a.locs[hint];
    &&& b.len == a.len
    &&& if h.buf == obj {
        &&& r == LocBind { loc: hint as u32, call: false }
        &&& b.used == a.used
        &&& b.locs == a.locs.update(hint, loc_with_count(h, h.bind_count + 1))
    } else if !none_with(a.locs, a.used, obj) {
        &&& first_with(a.locs, a.used, obj, r.loc as int)
        &&& !r.call
        &&& b.used == a.used
        &&& b.locs == a.locs.update(r.loc as int, loc_with_count(a.locs[r.loc as int], a.locs[r.loc as int].bind_count + 1))
    } else {
        let (base, used, t) = loc_claim_base(a, empty_slot(a.locs, a.used));
        &&& r == LocBind { loc: t as u32, call: true }
        &&& b.used == used
        &&& b.locs == base.update(t, Loc { buf: obj, bind_count: (base[t].bind_count + 1) as u32 })
    }
}

/// Relation between locations before and after `BindLocation(obj, l)` returned `r`.
pub open spec fn bind_location_post(a: LocTable, obj: u32, l: int, b: LocTable, r: LocSet) -> bool {
    &&& b.len == a.len
    &&& b.used == a.used
    &&& if l >= a.len || (a.locs[l].buf != 0 && a.locs[l].buf != obj) {
        &&& r == LocSet { ok: false, call: false }
        &&& b.locs == a.locs
    } else {
        &&& r == LocSet { ok: true, call: a.locs[l].buf != obj }
        &&& b.locs == a.locs.update(l, Loc { buf: obj, bind_count: (a.locs[l].bind_count + 1) as u32 })
    }
}

/// Counting down from `i`, the first index that is 0 or whose location holds a buffer.
pub open spec fn loc_shrunk_used(ls: Seq<Loc>, i: int) -> int
    decreases i,
{
    if i <= 0 {
        0
    } else if ls[i].buf != 0 {
        i
    } else {
        loc_shrunk_used(ls, i - 1)
    }
}

/// Relation between locations before and after `drop(obj)`.
pub open spec fn loc_drop_post(a: LocTable, obj: u32, b: LocTable) -> bool {
    &&& b.len == a.len
    &&& b.locs.len() == a.locs.len()
    &&& forall|i: int| 0 <= i < a.locs.len() ==> #[trigger] b.locs[i] == (if a.locs[i].buf == obj {
        Loc { buf: 0, bind_count: a.locs[i].bind_count }
    } else {
        a.locs[i]
    })
    &&& b.used == (if 1 <= a.used <= a.len && a.locs[a.used - 1].buf == obj {
        loc_shrunk_used(b.locs, a.used - 1)
    } else {
        a.used
    })
}

proof fn lemma_loc_shrunk_used_prefix(ls1: Seq<Loc>, ls2: Seq<Loc>, k: int)
    requires
        forall|j: int| 0 <= j <= k ==> #[trigger] ls1[j] == ls2[j],
    ensures
        loc_shrunk_used(ls1, k) == loc_shrunk_used(ls2, k),
    decreases k,
{
    if k > 0 {
        lemma_loc_shrunk_used_prefix(ls1, ls2, k - 1);
    }
}

proof fn lemma_loc_shrunk_used_below(ls: Seq<Loc>, k: int)
    requires
        0 <= k,
    ensures
        0 <= loc_shrunk_used(ls, k) <= k,
    decreases k,
{
    if k > 0 {
        lemma_loc_shrunk_used_below(ls, k - 1);
    }
}

proof fn lemma_loc_first_free_exists(ls: Seq<Loc>, n: int)
    requires
        0 <= n <= ls.len(),
        exists|k: int| 0 <= k < n && #[trigger] ls[k].bind_count == 0,
    ensures
        exists|k: int| loc_first_free(ls, k) && k < n,
    decreases n,
{
    if exists|k: int| 0 <= k < n - 1 && #[trigger] ls[k].bind_count == 0 {
        lemma_loc_first_free_exists(ls, n - 1);
    } else {
        assert(loc_first_free(ls, n - 1));
    }
}

proof fn lemma_loc_last_bound_exists(ls: Seq<Loc>, lo: int)
    requires
        0 <= lo <= ls.len(),
        exists|k: int| lo <= k < ls.len() && #[trigger] ls[k].bind_count > 0,
    ensures
        exists|k: int| loc_last_bound(ls, k),
    decreases ls.len() - lo,
{
    if exists|k: int| lo + 1 <= k < ls.len() && #[trigger] ls[k].bind_count > 0 {
        lemma_loc_last_bound_exists(ls, lo + 1);
    } else {
        assert(loc_last_bound(ls, lo));
    }
}

proof fn lemma_loc_claim_base(a: LocTable, slot: int)
    requires
        a.locs.len() == a.len,
        0 < a.len,
        0 <= slot <= a.used <= a.len,
    ensures
        ({
            let (base, used, t) = loc_claim_base(a, slot);
            &&& 0 <= t < a.len
            &&& base.len() == a.len
            &&& forall|i: int| 0 <= i < a.len ==> (#[trigger] base[i]).bind_count == a.locs[i].bind_count
            &&& used <= a.len || (!loc_any_bound(a.locs) && used == a.len + 1)
        }),
{
    let cl = loc_collected(a.locs);
    assert(forall|i: int| 0 <= i < a.len ==> (#[trigger] cl[i]).bind_count == a.locs[i].bind_count);
    if loc_any_free(a.locs) {
        lemma_loc_first_free_exists(a.locs, a.locs.len() as int);
        let k = choose|k: int| loc_first_free(a.locs, k);
    }
    if loc_any_bound(a.locs) {
        lemma_loc_last_bound_exists(a.locs, 0);
        let k = choose|k: int| loc_last_bound(a.locs, k);
    }
}

proof fn lemma_empty_slot(ls: Seq<Loc>, n: int)
    requires
        0 <= n,
    ensures
        0 <= empty_slot(ls, n) <= n,
{
    if exists|k: int| first_with(ls, n, 0, k) {
        let k = choose|k: int| first_with(ls, n, 0, k);
    }
}

/// The location whose count `Bind(obj, hint)` raises: the hint when it holds
/// the buffer, else the first used location holding it, else the location
/// it claims.
pub open spec fn loc_target(a: LocTable, obj: u32, hint: int) -> int {
    if a.locs[hint].buf == obj {
        hint
    } else if !none_with(a.locs, a.used, obj) {
        choose|k: int| first_with(a.locs, a.used, obj, k)
    } else {
        loc_claim_base(a, empty_slot(a.locs, a.used)).2
    }
}

/// Locations on which `Bind(obj, hint)` may be called: the table is well
/// formed, and the count it raises is not full.
pub open spec fn loc_bindable(a: LocTable, obj: u32, hint: int) -> bool {
    &&& a.locs.len() == a.len
    &&& a.len < u32::MAX
    &&& 0 <= hint < a.len
    &&& 0 <= a.used <= a.len
    &&& a.locs[loc_target(a, obj, hint)].bind_count < u32::MAX
}

/// At most one location is the first below `n` to hold `obj`.
pub proof fn lemma_first_with_unique(ls: Seq<Loc>, n: int, obj: u32, k1: int, k2: int)
    requires
        first_with(ls, n, obj, k1),
        first_with(ls, n, obj, k2),
    ensures
        k1 == k2,
{
    if k1 < k2 {
        assert(ls[k1].buf != obj);
    } else if k2 < k1 {
        assert(ls[k2].buf != obj);
    }
}

/// The location that `Bind` returns is the one whose count it raises.
proof fn lemma_loc_target(a: LocTable, obj: u32, hint: int, b: LocTable, r: LocBind)
    requires
        a.locs.len() == a.len,
        a.len < u32::MAX,
        0 <= hint < a.len,
        0 <= a.used <= a.len,
        loc_bind_post(a, obj, hint, b, r),
    ensures
        r.loc as int == loc_target(a, obj, hint),
{
    if a.locs[hint].buf == obj {
    } else if !none_with(a.locs, a.used, obj) {
        let j = choose|j: int| 0 <= j < a.used && #[trigger] a.locs[j].buf == obj;
        lemma_first_with_exists(a.locs, a.used, obj, j);
        let k = choose|k: int| first_with(a.locs, a.used, obj, k);
        lemma_first_with_unique(a.locs, a.used, obj, k, r.loc as int);
    } else {
        lemma_empty_slot(a.locs, a.used);
        lemma_loc_claim_base(a, empty_slot(a.locs, a.used));
        let (base, used, t) = loc_claim_base(a, empty_slot(a.locs, a.used));
        assert(r.loc == t as u32);
        assert(0 <= t < a.len);
    }
}

/// Some location is the first to hold `obj` once one does.
proof fn lemma_first_with_exists(ls: Seq<Loc>, n: int, obj: u32, j: int)
    requires
        0 <= j < n <= ls.len(),
        ls[j].buf == obj,
    ensures
        exists|k: int| first_with(ls, n, obj, k),
    decreases j,
{
    if exists|i: int| 0 <= i < j && #[trigger] ls[i].buf == obj {
        let i = choose|i: int| 0 <= i < j && #[trigger] ls[i].buf == obj;
        lemma_first_with_exists(ls, n, obj, i);
    } else {
        assert(first_with(ls, n, obj, j));
    }
}

/// Law: the location that `Bind` returns is the one named by `loc_target`; it
/// holds the buffer, with one more live binding; every other location keeps
/// its number of bindings.
pub proof fn law_loc_bind_holds(a: LocTable, obj: u32, hint: int, b: LocTable, r: LocBind)
    requires
        loc_bindable(a, obj, hint),
        loc_bind_post(a, obj, hint, b, r),
    ensures
        r.loc as int == loc_target(a, obj, hint),
        0 <= r.loc < b.len,
        b.locs[r.loc as int].buf == obj,
        b.locs[r.loc as int].bind_count == a.locs[r.loc as int].bind_count + 1,
        forall|i: int| 0 <= i < a.len && i != r.loc ==> #[trigger] b.locs[i].bind_count == a.locs[i].bind_count,
        b.used <= b.len || (!loc_any_bound(a.locs) && b.used == b.len + 1),
{
    lemma_loc_target(a, obj, hint, b, r);
    lemma_empty_slot(a.locs, a.used);
    lemma_loc_claim_base(a, empty_slot(a.locs, a.used));
}

/// Law: binding and then unbinding the returned location leaves every
/// location with the number of bindings it had before, and the buffer stays
/// at that location for reuse.
pub proof fn law_loc_bind_unbind(a: LocTable, obj: u32, hint: int, b: LocTable, r: LocBind, c: Seq<Loc>)
    requires
        loc_bindable(a, obj, hint),
        loc_bind_post(a, obj, hint, b, r),
        c == b.locs.update(r.loc as int, loc_with_count(b.locs[r.loc as int], b.locs[r.loc as int].bind_count - 1)),
    ensures
        c.len() == a.locs.len(),
        forall|i: int| 0 <= i < a.len ==> #[trigger] c[i].bind_count == a.locs[i].bind_count,
        c[r.loc as int].buf == obj,
{
    law_loc_bind_holds(a, obj, hint, b, r);
    lemma_empty_slot(a.locs, a.used);
    lemma_loc_claim_base(a, empty_slot(a.locs, a.used));
    assert(loc_collected(a.locs).len() == a.locs.len());
    assert(b.locs.len() == a.locs.len());
}

/// Law: a location that `BindLocation` reports bound holds the buffer, and a
/// refused request changes nothing.
pub proof fn law_bind_location(a: LocTable, obj: u32, l: int, b: LocTable, r: LocSet)
    requires
        a.locs.len() == a.len,
        0 <= l,
        bind_location_post(a, obj, l, b, r),
    ensures
        r.ok ==> l < b.len && b.locs[l].buf == obj,
        !r.ok ==> b == a && !r.call,
        r.call ==> r.ok,
{
}

/// Law: after `drop(obj)` with a buffer name other than 0, no location holds
/// that buffer, and `used` has not grown.
pub proof fn law_loc_drop(a: LocTable, obj: u32, b: LocTable)
    requires
        a.locs.len() == a.len,
        obj != 0,
        loc_drop_post(a, obj, b),
    ensures
        forall|i: int| 0 <= i < b.locs.len() ==> #[trigger] b.locs[i].buf != obj,
        b.used <= a.used,
{
    if 1 <= a.used <= a.len && a.locs[a.used - 1].buf == obj {
        lemma_loc_shrunk_used_below(b.locs, a.used - 1);
    }
}

impl UniformState {
    pub open spec fn wf(&self) -> bool {
        &&& self.locs@.len() == self.len
        &&& self.len < u32::MAX
    }

    /// The empty locations of a buffer kind with `max_bindings` indexed binding points.
    pub fn bound_locs(max_bindings: i32) -> (t: Self)
        requires
            max_bindings >= 0,
        ensures
            t.wf(),
            t.used == 0,
            t.len == max_bindings,
            forall|i: int| 0 <= i < t.len ==> #[trigger] t.locs@[i] == (Loc { buf: 0, bind_count: 0 }),
    {
        let len = max_bindings as u32;
        let mut locs: Vec<Loc> = Vec::new();
        let mut i: u32 = 0;
        while i < len
            invariant
                i <= len,
                locs@.len() == i,
                forall|j: int| 0 <= j < i ==> #[trigger] locs@[j] == (Loc { buf: 0, bind_count: 0 }),
            decreases len - i,
        {
            locs.push(Loc { buf: 0, bind_count: 0 });
            i = i + 1;
        }
        UniformState { used: 0, len, locs }
    }

    /// Empties every location that no binding uses; returns the first free
    /// location, or location 0 when every location is in use.
    pub fn garbage_collect(&mut self) -> (e: u32)
        requires
            old(self).wf(),
        ensures
            final(self).wf(),
            loc_gc_post(old(self)@, final(self)@, e as int),
            e < final(self).len || final(self).len == 0,
    {
        let ghost a = self@;
        let len = self.len;
        let npos = 1 + len;
        let mut empty = npos;
        let mut i: u32 = 0;
        while i < len
            invariant
                self.wf(),
                self.len == len,
                len == a.len,
                npos == len + 1,
                a.locs.len() == len,
                0 <= i <= len,
                forall|j: int| 0 <= j < i ==> #[trigger] self.locs@[j] == loc_collected(a.locs)[j],
                forall|j: int| i <= j < len ==> #[trigger] self.locs@[j] == a.locs[j],
                (exists|k: int| 0 <= k < i && #[trigger] a.locs[k].bind_count > 0) ==> {
                    &&& 0 <= self.used < i
                    &&& a.locs[self.used as int].bind_count > 0
                    &&& forall|j: int| self.used < j < i ==> #[trigger] a.locs[j].bind_count == 0
                },
                !(exists|k: int| 0 <= k < i && #[trigger] a.locs[k].bind_count > 0) ==> self.used == a.used,
                empty == npos ==> forall|j: int| 0 <= j < i ==> #[trigger] a.locs[j].bind_count > 0,
                empty != npos ==> loc_first_free(a.locs, empty as int) && empty < i,
            decreases len - i,
        {
            let l = self.locs[i as usize];
            if l.bind_count == 0 {
                self.locs.set(i as usize, Loc { buf: 0, bind_count: 0 });
                if empty == npos {
                    empty = i;
                }
            } else {
                self.used = i;
            }
            i = i + 1;
        }
        proof {
            assert(self.locs@ =~= loc_collected(a.locs));
            if loc_any_bound(a.locs) {
                assert(loc_last_bound(a.locs, self.used as int));
            }
            if loc_any_free(a.locs) {
                assert(empty != npos);
            }
        }
        if empty == npos {
            empty = 0;
        }
        empty
    }

    /// Releases one binding of location `l`.
    pub fn Unbind(&mut self, l: u32)
        requires
            old(self).wf(),
            l < old(self).len,
            old(self).locs@[l as int].bind_count > 0,
        ensures
            final(self).wf(),
            final(self).used == old(self).used,
            final(self).len == old(self).len,
            final(self).locs@ == old(self).locs@.update(
                l as int,
                loc_with_count(old(self).locs@[l as int], old(self).locs@[l as int].bind_count - 1),
            ),
    {
        let x = self.locs[l as usize];
        self.locs.set(l as usize, Loc { buf: x.buf, bind_count: x.bind_count - 1 });
    }

    /// The location whose count `Bind(obj, hint)` would raise, found without
    /// changing anything: lets a caller check that this count is not full.
    pub fn bind_target(&self, obj: u32, hint: u32) -> (t: u32)
        requires
            self.wf(),
            hint < self.len,
            self.used <= self.len,
        ensures
            t as int == loc_target(self@, obj, hint as int),
            t < self.len,
    {
        let ghost a = self@;
        if self.locs[hint as usize].buf == obj {
            return hint;
        }
        let npos = 1 + self.len;
        let mut empty = npos;
        let mut i: u32 = 0;
        while i < self.used
            invariant
                self@ == a,
                a.locs.len() == a.len,
                a.len < u32::MAX,
                a.used <= a.len,
                npos == a.len + 1,
                0 <= i <= a.used,
                hint < a.len,
                a.locs[hint as int].buf != obj,
                none_with(a.locs, i as int, obj),
                empty == npos ==> none_with(a.locs, i as int, 0),
                empty != npos ==> first_with(a.locs, i as int, 0, empty as int),
            decreases a.used - i,
        {
            let l = self.locs[i as usize];
            if l.buf == obj {
                proof {
                    assert(first_with(a.locs, a.used as int, obj, i as int));
                    assert(!none_with(a.locs, a.used as int, obj));
                    let k = choose|k: int| first_with(a.locs, a.used as int, obj, k);
                    lemma_first_with_unique(a.locs, a.used as int, obj, k, i as int);
                }
                return i;
            }
            if empty == npos && l.buf == 0 {
                empty = i;
            }
            i = i + 1;
        }
        proof {
            if empty != npos {
                assert(first_with(a.locs, a.used as int, 0, empty as int));
                let k = choose|k: int| first_with(a.locs, a.used as int, 0, k);
                lemma_first_with_unique(a.locs, a.used as int, 0, k, empty as int);
            } else {
                assert(!exists|k: int| first_with(a.locs, a.used as int, 0, k));
            }
        }
        if empty == npos {
            empty = self.used;
        }
        if empty < self.len {
            return empty;
        }
        let mut j: u32 = 0;
        while j < self.len
            invariant
                self@ == a,
                a.locs.len() == a.len,
                a.len < u32::MAX,
                0 <= j <= a.len,
                hint < a.len,
                a.locs[hint as int].buf != obj,
                none_with(a.locs, a.used as int, obj),
                empty_slot(a.locs, a.used as int) >= a.len,
                forall|m: int| 0 <= m < j ==> #[trigger] a.locs[m].bind_count > 0,
            decreases a.len - j,
        {
            if self.locs[j as usize].bind_count == 0 {
                proof {
                    assert(loc_first_free(a.locs, j as int));
                    let k = choose|k: int| loc_first_free(a.locs, k);
                    if k < j {
                    } else if j < k {
                        assert(a.locs[j as int].bind_count > 0);
                    }
                }
                return j;
            }
            j = j + 1;
        }
        proof {
            assert(!loc_any_free(a.locs));
        }
        0
    }

    /// Binds buffer `obj` at some location, preferring `hint`.
    pub fn Bind(&mut self, obj: u32, hint: u32) -> (r: LocBind)
        requires
            old(self).wf(),
            hint < old(self).len,
            old(self).used <= old(self).len,
            old(self)@.locs[loc_target(old(self)@, obj, hint as int)].bind_count < u32::MAX,
        ensures
            final(self).wf(),
            loc_bind_post(old(self)@, obj, hint as int, final(self)@, r),
            r.loc < final(self).len,
    {
        let ghost a = self@;
        let h = self.locs[hint as usize];
        if h.buf == obj {
            self.locs.set(hint as usize, Loc { buf: h.buf, bind_count: h.bind_count + 1 });
            return LocBind { loc: hint, call: false };
        }
        let npos = 1 + self.len;
        let mut empty = npos;
        let mut found = npos;
        let mut i: u32 = 0;
        while i < self.used && found == npos
            invariant
                self@ == a,
                a.locs.len() == a.len,
                a.len < u32::MAX,
                a.used <= a.len,
                npos == a.len + 1,
                0 <= i <= a.used,
                found == npos ==> none_with(a.locs, i as int, obj),
                found != npos ==> first_with(a.locs, a.used as int, obj, found as int),
                empty == npos ==> none_with(a.locs, i as int, 0),
                empty != npos ==> first_with(a.locs, i as int, 0, empty as int),
            decreases a.used - i + (if found == npos { 1int } else { 0int }),
        {
            let l = self.locs[i as usize];
            if l.buf == obj {
                found = i;
            } else {
                if empty == npos && l.buf == 0 {
                    empty = i;
                }
                i = i + 1;
            }
        }
        if found != npos {
            let l = self.locs[found as usize];
            proof {
                let k = choose|k: int| first_with(a.locs, a.used, obj, k);
                lemma_first_with_unique(a.locs, a.used, obj, k, found as int);
            }
            assert(l.bind_count < u32::MAX);
            self.locs.set(found as usize, Loc { buf: l.buf, bind_count: l.bind_count + 1 });
            return LocBind { loc: found, call: false };
        }
        proof {
            if empty != npos {
                assert(first_with(a.locs, a.used as int, 0, empty as int));
                let k = choose|k: int| first_with(a.locs, a.used as int, 0, k);
                assert(empty_slot(a.locs, a.used as int) == empty as int);
            } else {
                assert(!exists|k: int| first_with(a.locs, a.used as int, 0, k));
                assert(empty_slot(a.locs, a.used as int) == a.used);
            }
        }
        if empty == npos {
            empty = self.used;
            self.used = self.used + 1;
        }
        if empty >= self.len {
            empty = self.garbage_collect();
        }
        let l = self.locs[empty as usize];
        proof {
            lemma_empty_slot(a.locs, a.used as int);
            lemma_loc_claim_base(a, empty_slot(a.locs, a.used as int));
            assert(none_with(a.locs, a.used as int, obj));
            assert(empty as int == loc_claim_base(a, empty_slot(a.locs, a.used as int)).2);
            assert(self.locs@ == loc_claim_base(a, empty_slot(a.locs, a.used as int)).0);
        }
        self.locs.set(empty as usize, Loc { buf: obj, bind_count: l.bind_count + 1 });
        LocBind { loc: empty, call: true }
    }

    /// Binds buffer `obj` at location `l` if that location is within the
    /// table and empty or already holding `obj`.
    pub fn BindLocation(&mut self, obj: u32, l: u32) -> (r: LocSet)
        requires
            old(self).wf(),
            l < old(self).len && (old(self).locs@[l as int].buf == 0 || old(self).locs@[l as int].buf == obj)
                ==> old(self).locs@[l as int].bind_count < u32::MAX,
        ensures
            final(self).wf(),
            bind_location_post(old(self)@, obj, l as int, final(self)@, r),
    {
        if l >= self.len {
            return LocSet { ok: false, call: false };
        }
        let x = self.locs[l as usize];
        if x.buf != 0 && x.buf != obj {
            return LocSet { ok: false, call: false };
        }
        self.locs.set(l as usize, Loc { buf: obj, bind_count: x.bind_count + 1 });
        LocSet { ok: true, call: x.buf != obj }
    }

    /// Forgets buffer `obj`, which is being deleted, at every location; shrinks
    /// the used prefix when its last location held `obj`.
    pub fn drop(&mut self, obj: u32)
        requires
            old(self).wf(),
            forall|i: int| 0 <= i < old(self).locs@.len() && #[trigger] old(self).locs@[i].buf == obj
                ==> old(self).locs@[i].bind_count == 0,
        ensures
            final(self).wf(),
            loc_drop_post(old(self)@, obj, final(self)@),
    {
        let ghost a = self@;
        let len = self.len;
        let mut i: u32 = 0;
        while i < len
            invariant
                self.wf(),
                self.len == len,
                a.len == len,
                a.locs.len() == len,
                0 <= i <= len,
                forall|j: int| 0 <= j < i ==> #[trigger] self.locs@[j] == (if a.locs[j].buf == obj {
                    Loc { buf: 0, bind_count: a.locs[j].bind_count }
                } else {
                    a.locs[j]
                }),
                forall|j: int| i <= j < len ==> #[trigger] self.locs@[j] == a.locs[j],
                self.used == (if 1 <= a.used <= i && a.locs[a.used - 1].buf == obj {
                    loc_shrunk_used(self.locs@, a.used - 1)
                } else {
                    a.used
                }),
            decreases len - i,
        {
            let ghost before = self.locs@;
            let l = self.locs[i as usize];
            if obj == l.buf {
                self.locs.set(i as usize, Loc { buf: 0, bind_count: l.bind_count });
                if self.used == i + 1 {
                    let ghost cleared = self.locs@;
                    let mut used = i;
                    while used > 0 && self.locs[used as usize].buf == 0
                        invariant
                            self.locs@ == cleared,
                            cleared.len() == len,
                            used <= i < len,
                            loc_shrunk_used(cleared, used as int) == loc_shrunk_used(cleared, i as int),
                        decreases used,
                    {
                        used = used - 1;
                    }
                    assert(loc_shrunk_used(cleared, used as int) == used);
                    self.used = used;
                }
            }
            proof {
                if 1 <= a.used <= i && a.locs[a.used - 1].buf == obj {
                    lemma_loc_shrunk_used_prefix(before, self.locs@, a.used - 1);
                    lemma_loc_shrunk_used_below(before, a.used - 1);
                }
            }
            i = i + 1;
        }
    }
}

} // verus!

//! The bookkeeping of the shader compiler: the known shader sources, which
//! of them are compiled, and which programs to rebuild when a watched source
//! changes.
//!
//! The compiler thread performs the GL work; this registry decides what is
//! compiled, replaced, forgotten or rebuilt.
use vstd::prelude::*;
use crate::parsing::ShdSrc;
use crate::text::{append_chars, chars_of, count_lines, debug_quoted, line_count, str_debug, string_of};

verus! {

/// A shader source, compiled into GL shader object `obj` when that is set.
#[derive(Debug)]
pub struct SourceEntry {
    pub name: String,
    pub src: String,
    pub obj: Option<u32>,
}

/// The programs (each a list of shader names) to rebuild when source `name` changes.
#[derive(Debug)]
pub struct WatchEntry {
    pub name: String,
    pub progs: Vec<Vec<String>>,
}

/// Shader sources and watches of a compiler.
#[derive(Debug)]
pub struct ShaderRegistry {
    pub includes: String,
    pub sources: Vec<SourceEntry>,
    pub watched: Vec<WatchEntry>,
}

/// A source as name, text and compiled object.
pub type SrcView = (Seq<char>, Seq<char>, Option<u32>);

pub open spec fn src_view(e: SourceEntry) -> SrcView {
    (e.name@, e.src@, e.obj)
}

pub open spec fn prog_view(p: Vec<String>) -> Seq<Seq<char>> {
    p@.map_values(|s: String| s@)
}

pub open spec fn watch_view(w: WatchEntry) -> (Seq<char>, Seq<Seq<Seq<char>>>) {
    (w.name@, w.progs@.map_values(|p: Vec<String>| prog_view(p)))
}

/// `k` is the entry named `n`; names are unique, so there is at most one.
pub open spec fn named(ss: Seq<SrcView>, n: Seq<char>, k: int) -> bool {
    0 <= k < ss.len() && ss[k].0 == n
}

pub open spec fn absent(ss: Seq<SrcView>, n: Seq<char>) -> bool {
    forall|j: int| 0 <= j < ss.len() ==> (#[trigger] ss[j]).0 != n
}

pub open spec fn unique_names(ss: Seq<SrcView>) -> bool {
    forall|i: int, j: int| 0 <= i < ss.len() && 0 <= j < ss.len() && i != j ==> (#[trigger] ss[i]).0 != (#[trigger] ss[j]).0
}

pub open spec fn watch_absent(ws: Seq<(Seq<char>, Seq<Seq<Seq<char>>>)>, n: Seq<char>) -> bool {
    forall|j: int| 0 <= j < ws.len() ==> (#[trigger] ws[j]).0 != n
}

pub open spec fn unique_watches(ws: Seq<(Seq<char>, Seq<Seq<Seq<char>>>)>) -> bool {
    forall|i: int, j: int| 0 <= i < ws.len() && 0 <= j < ws.len() && i != j ==> (#[trigger] ws[i]).0 != (#[trigger] ws[j]).0
}

/// The sources with source `s` put under name `n`, uncompiled: replacing
/// the entry of that name, or added last.
pub open spec fn put_src(ss: Seq<SrcView>, n: Seq<char>, s: Seq<char>) -> Seq<SrcView> {
    if absent(ss, n) {
        ss.push((n, s, None))
    } else {
        ss.update(choose|k: int| named(ss, n, k), (n, s, None))
    }
}

/// The sources with every compiled object dropped.
pub open spec fn cleaned(ss: Seq<SrcView>) -> Seq<SrcView> {
    ss.map_values(|e: SrcView| (e.0, e.1, None::<u32>))
}

/// What a stage of a program needs before linking.
pub enum Stage {
    /// Already compiled into this shader object.
    Compiled(u32),
    /// To be compiled from this text, at this entry.
    Source(String, usize),
    /// No source of that name.
    Missing,
}

impl ShaderRegistry {
    pub open spec fn srcs(&self) -> Seq<SrcView> {
        self.sources@.map_values(|e: SourceEntry| src_view(e))
    }

    pub open spec fn watches(&self) -> Seq<(Seq<char>, Seq<Seq<Seq<char>>>)> {
        self.watched@.map_values(|w: WatchEntry| watch_view(w))
    }

    /// Names of sources and of watches are unique.
    pub open spec fn wf(&self) -> bool {
        unique_names(self.srcs()) && unique_watches(self.watches())
    }

    /// No sources, no watches, no includes.
    pub fn new() -> (r: Self)
        ensures
            r.wf(),
            r.srcs() == Seq::<SrcView>::empty(),
            r.watches().len() == 0,
            r.includes@ == Seq::<char>::empty(),
    {
        let r = ShaderRegistry { includes: String::new(), sources: Vec::new(), watched: Vec::new() };
        assert(r.srcs() =~= Seq::<SrcView>::empty());
        r
    }

    /// Entry of the source named `name`.
    pub fn find_source(&self, name: &String) -> (r: Option<usize>)
        ensures
            match r {
                Some(k) => named(self.srcs(), name@, k as int),
                None => absent(self.srcs(), name@),
            },
    {
        let mut i: usize = 0;
        while i < self.sources.len()
            invariant
                i <= self.sources@.len(),
                forall|j: int| 0 <= j < i ==> (#[trigger] self.srcs()[j]).0 != name@,
            decreases self.sources@.len() - i,
        {
            if self.sources[i].name == *name {
                return Some(i);
            }
            i = i + 1;
        }
        None
    }

    /// Entry of the watch of source `name`.
    pub fn find_watch(&self, name: &String) -> (r: Option<usize>)
        ensures
            match r {
                Some(k) => 0 <= k < self.watches().len() && self.watches()[k as int].0 == name@,
                None => watch_absent(self.watches(), name@),
            },
    {
        let mut i: usize = 0;
        while i < self.watched.len()
            invariant
                i <= self.watched@.len(),
                forall|j: int| 0 <= j < i ==> (#[trigger] self.watches()[j]).0 != name@,
            decreases self.watched@.len() - i,
        {
            if self.watched[i].name == *name {
                return Some(i);
            }
            i = i + 1;
        }
        None
    }

    /// Registers source `src` under `name`, uncompiled. A source of that name
    /// must have the same text.
    pub fn inline_source(&mut self, name: String, src: String)
        requires
            old(self).wf(),
            forall|k: int| named(old(self).srcs(), name@, k) ==> old(self).srcs()[k].1 == src@,
        ensures
            final(self).wf(),
            final(self).watches() == old(self).watches(),
            final(self).includes == old(self).includes,
            final(self).srcs() == put_src(old(self).srcs(), name@, src@),
    {
        self.put_source(name, src);
    }

    /// Registers source `src` under `name`, uncompiled, replacing any source
    /// of that name; returns whether one was replaced.
    pub fn put_source(&mut self, name: String, src: String) -> (replaced: bool)
        requires
            old(self).wf(),
        ensures
            final(self).wf(),
            final(self).watches() == old(self).watches(),
            final(self).includes == old(self).includes,
            replaced == !absent(old(self).srcs(), name@),
            final(self).srcs() == put_src(old(self).srcs(), name@, src@),
    {
        let ghost a = self.srcs();
        match self.find_source(&name) {
            Some(k) => {
                self.sources.set(k, SourceEntry { name, src, obj: None });
                proof {
                    assert(self.srcs() =~= a.update(k as int, (name@, src@, None)));
                    assert forall|kk: int| named(a, name@, kk) implies kk == k by {}
                    let c = choose|kk: int| named(a, name@, kk);
                    assert(named(a, name@, k as int));
                }
                true
            },
            None => {
                self.sources.push(SourceEntry { name, src, obj: None });
                assert(self.srcs() =~= a.push((name@, src@, None)));
                false
            },
        }
    }

    /// Takes in a source read from a file: a new name is registered; a known
    /// name with the same text is left as it is; a known name with a new text
    /// gets it, uncompiled. Returns whether a known source changed.
    pub fn absorb(&mut self, name: String, src: String) -> (changed: bool)
        requires
            old(self).wf(),
        ensures
            final(self).wf(),
            final(self).watches() == old(self).watches(),
            final(self).includes == old(self).includes,
            (final(self).srcs(), changed) == absorb_spec(old(self).srcs(), name@, src@),
    {
        let ghost a = self.srcs();
        match self.find_source(&name) {
            Some(k) => {
                proof {
                    assert forall|kk: int| named(a, name@, kk) implies kk == k by {}
                    let c = choose|kk: int| named(a, name@, kk);
                    assert(named(a, name@, k as int));
                }
                if self.sources[k].src == src {
                    false
                } else {
                    self.sources.set(k, SourceEntry { name, src, obj: None });
                    assert(self.srcs() =~= a.update(k as int, (name@, src@, None)));
                    true
                }
            },
            None => {
                self.sources.push(SourceEntry { name, src, obj: None });
                assert(self.srcs() =~= a.push((name@, src@, None)));
                false
            },
        }
    }

    /// Drops every compiled shader object; the texts stay.
    pub fn clean(&mut self)
        requires
            old(self).wf(),
        ensures
            final(self).wf(),
            final(self).watches() == old(self).watches(),
            final(self).includes == old(self).includes,
            final(self).srcs() == cleaned(old(self).srcs()),
    {
        let ghost a = self.srcs();
        let n = self.sources.len();
        let mut i: usize = 0;
        while i < n
            invariant
                n == self.sources@.len() == a.len(),
                i <= n,
                self.watched == old(self).watched,
                self.includes == old(self).includes,
                unique_names(a),
                forall|j: int| 0 <= j < i ==> #[trigger] self.srcs()[j] == (a[j].0, a[j].1, None::<u32>),
                forall|j: int| i <= j < n ==> #[trigger] self.srcs()[j] == a[j],
            decreases n - i,
        {
            let ghost before = self.srcs();
            assert(before[i as int] == a[i as int]);
            let e = &self.sources[i];
            let name = e.name.clone();
            let src = e.src.clone();
            self.sources.set(i, SourceEntry { name, src, obj: None });
            assert(self.srcs() =~= before.update(i as int, (a[i as int].0, a[i as int].1, None::<u32>)));
            i = i + 1;
        }
        assert(forall|j: int| 0 <= j < n ==> (#[trigger] self.srcs()[j]).0 == a[j].0);
        assert(self.srcs() =~= cleaned(a));
    }

    /// What stage `name` of a program needs.
    pub fn stage(&self, name: &String) -> (r: Stage)
        ensures
            match r {
                Stage::Compiled(o) => exists|k: int| named(self.srcs(), name@, k) && self.srcs()[k].2 == Some(o),
                Stage::Source(s, k) => named(self.srcs(), name@, k as int) && self.srcs()[k as int].2 is None
                    && s@ == self.srcs()[k as int].1,
                Stage::Missing => absent(self.srcs(), name@),
            },
    {
        match self.find_source(name) {
            Some(k) => match self.sources[k].obj {
                Some(o) => Stage::Compiled(o),
                None => Stage::Source(self.sources[k].src.clone(), k),
            },
            None => Stage::Missing,
        }
    }

    /// Records that entry `k` is now compiled into shader object `obj`.
    pub fn set_compiled(&mut self, k: usize, obj: u32)
        requires
            old(self).wf(),
            k < old(self).srcs().len(),
        ensures
            final(self).wf(),
            final(self).watches() == old(self).watches(),
            final(self).includes == old(self).includes,
            final(self).srcs() == old(self).srcs().update(
                k as int,
                (old(self).srcs()[k as int].0, old(self).srcs()[k as int].1, Some(obj)),
            ),
    {
        let ghost a = self.srcs();
        let name = self.sources[k].name.clone();
        let src = self.sources[k].src.clone();
        self.sources.set(k, SourceEntry { name, src, obj: Some(obj) });
        assert(self.srcs() =~= a.update(k as int, (a[k as int].0, a[k as int].1, Some(obj))));
    }
}

/// A program's shader names as plain text.
pub type ProgView = Seq<Seq<char>>;

/// A watch table as plain values.
pub type WatchView = Seq<(Seq<char>, Seq<ProgView>)>;

/// Index of the watch of `n`, if any.
pub open spec fn watch_index(ws: WatchView, n: Seq<char>) -> int {
    if watch_absent(ws, n) {
        -1
    } else {
        choose|k: int| 0 <= k < ws.len() && ws[k].0 == n
    }
}

/// The programs watching source `n`.
pub open spec fn watchers_of(ws: WatchView, n: Seq<char>) -> Seq<ProgView> {
    if watch_absent(ws, n) {
        seq![]
    } else {
        ws[watch_index(ws, n)].1
    }
}

/// The watch table with program `p` added to the watchers of `n`.
pub open spec fn add_watch(ws: WatchView, n: Seq<char>, p: ProgView) -> WatchView {
    if watch_absent(ws, n) {
        ws.push((n, seq![p]))
    } else {
        let k = watch_index(ws, n);
        ws.update(k, (n, ws[k].1.push(p)))
    }
}

/// The watch table with program `p` added to the watchers of `names[..i]`, in order.
pub open spec fn add_watches(ws: WatchView, names: ProgView, p: ProgView, i: int) -> WatchView
    decreases i,
{
    if i <= 0 {
        ws
    } else {
        add_watch(add_watches(ws, names, p, i - 1), names[i - 1], p)
    }
}

/// Index of the first occurrence of `p` in `l`, or the length.
pub open spec fn first_prog(l: Seq<ProgView>, p: ProgView, i: int) -> int
    decreases l.len() - i,
{
    if i < 0 || i >= l.len() {
        l.len() as int
    } else if l[i] == p {
        i
    } else {
        first_prog(l, p, i + 1)
    }
}

/// `l` with the element at `j` replaced by its last element, and shortened by one.
pub open spec fn swap_removed(l: Seq<ProgView>, j: int) -> Seq<ProgView> {
    l.update(j, l.last()).drop_last()
}

/// The watch table with one watch of `p` by `n` removed, or `None` when `n`
/// is not watched by `p`.
pub open spec fn remove_watch(ws: WatchView, n: Seq<char>, p: ProgView) -> Option<WatchView> {
    if watch_absent(ws, n) {
        None
    } else {
        let k = watch_index(ws, n);
        let j = first_prog(ws[k].1, p, 0);
        if j >= ws[k].1.len() {
            None
        } else {
            Some(ws.update(k, (n, swap_removed(ws[k].1, j))))
        }
    }
}

/// The watch table with one watch of `p` removed for each of `names[..i]`,
/// in order, or `None` when one of them is missing.
pub open spec fn remove_watches(ws: WatchView, names: ProgView, p: ProgView, i: int) -> Option<WatchView>
    decreases i,
{
    if i <= 0 {
        Some(ws)
    } else {
        match remove_watches(ws, names, p, i - 1) {
            Some(w) => remove_watch(w, names[i - 1], p),
            None => None,
        }
    }
}

/// The sources after taking in source `s` named `n` from a file, and whether
/// a known source changed.
pub open spec fn absorb_spec(ss: Seq<SrcView>, n: Seq<char>, s: Seq<char>) -> (Seq<SrcView>, bool) {
    if absent(ss, n) {
        (ss.push((n, s, None)), false)
    } else {
        let k = choose|k: int| named(ss, n, k);
        if ss[k].1 != s {
            (ss.update(k, (n, s, None)), true)
        } else {
            (ss, false)
        }
    }
}

/// The sources after taking in `new[..i]`, and the programs to rebuild: the
/// watchers of each known source whose text changed, in order.
pub open spec fn rebuild_spec(ss: Seq<SrcView>, ws: WatchView, new: Seq<(Seq<char>, Seq<char>)>, i: int) -> (
    Seq<SrcView>,
    Seq<ProgView>,
)
    decreases i,
{
    if i <= 0 {
        (ss, seq![])
    } else {
        let (ss1, progs1) = rebuild_spec(ss, ws, new, i - 1);
        let (ss2, ch) = absorb_spec(ss1, new[i - 1].0, new[i - 1].1);
        (ss2, if ch { progs1 + watchers_of(ws, new[i - 1].0) } else { progs1 })
    }
}

pub open spec fn new_view(v: Seq<ShdSrc>) -> Seq<(Seq<char>, Seq<char>)> {
    v.map_values(|x: ShdSrc| (x.name@, x.src@))
}

pub open spec fn progs_view(v: Seq<Vec<String>>) -> Seq<ProgView> {
    v.map_values(|p: Vec<String>| prog_view(p))
}

/// A copy of a program's shader names.
pub fn clone_prog(p: &Vec<String>) -> (r: Vec<String>)
    ensures
        prog_view(r) == prog_view(*p),
{
    let mut r: Vec<String> = Vec::new();
    let mut i: usize = 0;
    while i < p.len()
        invariant
            i <= p@.len(),
            prog_view(r) == prog_view(*p).subrange(0, i as int),
        decreases p@.len() - i,
    {
        let ghost before = prog_view(r);
        r.push(p[i].clone());
        assert(prog_view(r) =~= before.push(p@[i as int]@));
        assert(prog_view(*p).subrange(0, i + 1) =~= prog_view(*p).subrange(0, i as int).push(p@[i as int]@));
        i = i + 1;
    }
    assert(prog_view(*p).subrange(0, p@.len() as int) =~= prog_view(*p));
    r
}

/// Whether two programs have the same shader names.
pub fn same_prog(a: &Vec<String>, b: &Vec<String>) -> (r: bool)
    ensures
        r == (prog_view(*a) == prog_view(*b)),
{
    if a.len() != b.len() {
        assert(prog_view(*a).len() != prog_view(*b).len());
        return false;
    }
    let mut i: usize = 0;
    while i < a.len()
        invariant
            a@.len() == b@.len(),
            i <= a@.len(),
            forall|j: int| 0 <= j < i ==> a@[j]@ == b@[j]@,
        decreases a@.len() - i,
    {
        if a[i] != b[i] {
            assert(prog_view(*a)[i as int] != prog_view(*b)[i as int]);
            return false;
        }
        i = i + 1;
    }
    assert(prog_view(*a) =~= prog_view(*b));
    true
}

impl ShaderRegistry {
    /// Adds program `prog` to the watchers of each of its shaders.
    pub fn watch(&mut self, prog: &Vec<String>)
        requires
            old(self).wf(),
        ensures
            final(self).wf(),
            final(self).srcs() == old(self).srcs(),
            final(self).includes == old(self).includes,
            final(self).watches() == add_watches(old(self).watches(), prog_view(*prog), prog_view(*prog), prog@.len() as int),
    {
        let ghost w0 = self.watches();
        let ghost pv = prog_view(*prog);
        let mut i: usize = 0;
        while i < prog.len()
            invariant
                i <= prog@.len(),
                pv == prog_view(*prog),
                self.wf(),
                self.srcs() == old(self).srcs(),
                self.includes == old(self).includes,
                self.watches() == add_watches(w0, pv, pv, i as int),
            decreases prog@.len() - i,
        {
            let ghost before = self.watches();
            let name = &prog[i];
            assert(pv[i as int] == name@);
            match self.find_watch(name) {
                Some(k) => {
                    assert(!watch_absent(before, name@));
                    assert(watch_index(before, name@) == k) by {
                        let kk = choose|kk: int| 0 <= kk < before.len() && before[kk].0 == name@;
                    }
                    let entry_name = self.watched[k].name.clone();
                    let mut progs: Vec<Vec<String>> = Vec::new();
                    let mut j: usize = 0;
                    while j < self.watched[k].progs.len()
                        invariant
                            k < self.watched@.len(),
                            self.watches() == before,
                            j <= self.watched@[k as int].progs@.len(),
                            progs_view(progs@) == before[k as int].1.subrange(0, j as int),
                        decreases self.watched@[k as int].progs@.len() - j,
                    {
                        let ghost pb = progs_view(progs@);
                        progs.push(clone_prog(&self.watched[k].progs[j]));
                        assert(progs_view(progs@) =~= pb.push(before[k as int].1[j as int]));
                        assert(before[k as int].1.subrange(0, j + 1) =~= before[k as int].1.subrange(0, j as int).push(
                            before[k as int].1[j as int],
                        ));
                        j = j + 1;
                    }
                    assert(before[k as int].1.subrange(0, before[k as int].1.len() as int) =~= before[k as int].1);
                    let ghost pb = progs_view(progs@);
                    progs.push(clone_prog(prog));
                    assert(progs_view(progs@) =~= pb.push(pv));
                    self.watched.set(k, WatchEntry { name: entry_name, progs });
                    assert(self.watches() =~= add_watch(before, name@, pv));
                },
                None => {
                    let mut progs: Vec<Vec<String>> = Vec::new();
                    progs.push(clone_prog(prog));
                    assert(progs_view(progs@) =~= seq![pv]);
                    self.watched.push(WatchEntry { name: name.clone(), progs });
                    assert(self.watches() =~= add_watch(before, name@, pv));
                },
            }
            i = i + 1;
        }
    }
}

/// A copy of a list of programs.
pub fn clone_progs(l: &Vec<Vec<String>>) -> (r: Vec<Vec<String>>)
    ensures
        progs_view(r@) == progs_view(l@),
{
    let mut r: Vec<Vec<String>> = Vec::new();
    let mut j: usize = 0;
    while j < l.len()
        invariant
            j <= l@.len(),
            progs_view(r@) == progs_view(l@).subrange(0, j as int),
        decreases l@.len() - j,
    {
        let ghost before = progs_view(r@);
        r.push(clone_prog(&l[j]));
        assert(progs_view(r@) =~= before.push(progs_view(l@)[j as int]));
        assert(progs_view(l@).subrange(0, j + 1) =~= progs_view(l@).subrange(0, j as int).push(
            progs_view(l@)[j as int],
        ));
        j = j + 1;
    }
    assert(progs_view(l@).subrange(0, l@.len() as int) =~= progs_view(l@));
    r
}

/// Index of the first program of `l` with the shader names of `p`, or the
/// length of `l`.
pub fn find_prog(l: &Vec<Vec<String>>, p: &Vec<String>) -> (r: usize)
    ensures
        r == first_prog(progs_view(l@), prog_view(*p), 0),
{
    let ghost lv = progs_view(l@);
    let ghost pv = prog_view(*p);
    let mut i: usize = 0;
    while i < l.len()
        invariant
            i <= l@.len(),
            lv == progs_view(l@),
            pv == prog_view(*p),
            first_prog(lv, pv, 0) == first_prog(lv, pv, i as int),
        decreases l@.len() - i,
    {
        if same_prog(&l[i], p) {
            assert(lv[i as int] == pv);
            return i;
        }
        assert(lv[i as int] != pv);
        i = i + 1;
    }
    i
}

/// Removing watches for the first `i` names succeeds whenever it succeeds
/// for more of them.
pub proof fn lemma_remove_prefix(ws: WatchView, names: ProgView, p: ProgView, i: int, n: int)
    requires
        0 <= i <= n,
        remove_watches(ws, names, p, n) is Some,
    ensures
        remove_watches(ws, names, p, i) is Some,
    decreases n - i,
{
    if i < n {
        lemma_remove_prefix(ws, names, p, i, n - 1);
    }
}

impl ShaderRegistry {
    /// Entry of the watch of `name`, which is its index in the watch table.
    fn watch_entry(&self, name: &String) -> (r: Option<usize>)
        requires
            self.wf(),
        ensures
            match r {
                Some(k) => !watch_absent(self.watches(), name@) && k == watch_index(self.watches(), name@)
                    && k < self.watches().len(),
                None => watch_absent(self.watches(), name@),
            },
    {
        let r = self.find_watch(name);
        match r {
            Some(k) => {
                let ghost ws = self.watches();
                assert(!watch_absent(ws, name@));
                assert(watch_index(ws, name@) == k) by {
                    let kk = choose|kk: int| 0 <= kk < ws.len() && ws[kk].0 == name@;
                }
            },
            None => {},
        }
        r
    }

    /// The programs that watch source `name`.
    pub fn watchers(&self, name: &String) -> (r: Vec<Vec<String>>)
        requires
            self.wf(),
        ensures
            progs_view(r@) == watchers_of(self.watches(), name@),
    {
        match self.watch_entry(name) {
            Some(k) => clone_progs(&self.watched[k].progs),
            None => {
                let r: Vec<Vec<String>> = Vec::new();
                assert(progs_view(r@) =~= seq![]);
                r
            },
        }
    }

    /// Takes program `prog` off the watchers of each of its shaders; each of
    /// them must be watched by it.
    pub fn forget(&mut self, prog: &Vec<String>)
        requires
            old(self).wf(),
            remove_watches(old(self).watches(), prog_view(*prog), prog_view(*prog), prog@.len() as int) is Some,
        ensures
            final(self).wf(),
            final(self).srcs() == old(self).srcs(),
            final(self).includes == old(self).includes,
            Some(final(self).watches()) == remove_watches(
                old(self).watches(),
                prog_view(*prog),
                prog_view(*prog),
                prog@.len() as int,
            ),
    {
        let ghost w0 = self.watches();
        let ghost pv = prog_view(*prog);
        let mut i: usize = 0;
        while i < prog.len()
            invariant
                i <= prog@.len(),
                pv == prog_view(*prog),
                self.wf(),
                self.srcs() == old(self).srcs(),
                self.includes == old(self).includes,
                remove_watches(w0, pv, pv, prog@.len() as int) is Some,
                Some(self.watches()) == remove_watches(w0, pv, pv, i as int),
            decreases prog@.len() - i,
        {
            let ghost before = self.watches();
            proof {
                lemma_remove_prefix(w0, pv, pv, i + 1, prog@.len() as int);
            }
            let name = &prog[i];
            assert(pv[i as int] == name@);
            assert(remove_watch(before, name@, pv) is Some);
            let k = match self.watch_entry(name) {
                Some(k) => k,
                None => {
                    assert(false);
                    0
                },
            };
            let entry_name = self.watched[k].name.clone();
            let mut progs = clone_progs(&self.watched[k].progs);
            let j = find_prog(&progs, prog);
            assert(j < progs@.len());
            let ghost pb = progs_view(progs@);
            progs.swap_remove(j);
            assert(progs_view(progs@) =~= swap_removed(pb, j as int));
            self.watched.set(k, WatchEntry { name: entry_name, progs });
            assert(self.watches() =~= before.update(k as int, (name@, swap_removed(before[k as int].1, j as int))));
            i = i + 1;
        }
    }
}

impl ShaderRegistry {
    /// Takes in the sources read anew from the shader files, in order, and
    /// returns the programs to rebuild: the watchers of each known source
    /// whose text changed, in order.
    pub fn rebuild(&mut self, new: &Vec<ShdSrc>) -> (r: Vec<Vec<String>>)
        requires
            old(self).wf(),
        ensures
            final(self).wf(),
            final(self).watches() == old(self).watches(),
            final(self).includes == old(self).includes,
            (final(self).srcs(), progs_view(r@)) == rebuild_spec(
                old(self).srcs(),
                old(self).watches(),
                new_view(new@),
                new@.len() as int,
            ),
    {
        let ghost s0 = self.srcs();
        let ghost w0 = self.watches();
        let ghost nv = new_view(new@);
        let mut r: Vec<Vec<String>> = Vec::new();
        let mut i: usize = 0;
        assert(progs_view(r@) =~= seq![]);
        while i < new.len()
            invariant
                i <= new@.len(),
                nv == new_view(new@),
                self.wf(),
                self.watches() == w0,
                self.includes == old(self).includes,
                (self.srcs(), progs_view(r@)) == rebuild_spec(s0, w0, nv, i as int),
            decreases new@.len() - i,
        {
            let ghost ss1 = self.srcs();
            let ghost p1 = progs_view(r@);
            let name = new[i].name.clone();
            let src = new[i].src.clone();
            assert(nv[i as int] == (name@, src@));
            let changed = self.absorb(name.clone(), src);
            if changed {
                let mut w = self.watchers(&name);
                let ghost ws = w@;
                r.append(&mut w);
                assert(progs_view(r@) =~= p1 + progs_view(ws));
            }
            i = i + 1;
        }
        r
    }
}

/// How many times program `q` watches source `m`.
pub open spec fn watch_count(w: WatchView, m: Seq<char>, q: ProgView) -> nat {
    watchers_of(w, m).to_multiset().count(q)
}

/// In a table of unique names, the watch of `n` is at its entry.
pub proof fn lemma_watch_at(w: WatchView, n: Seq<char>, k: int)
    requires
        unique_watches(w),
        0 <= k < w.len(),
        w[k].0 == n,
    ensures
        !watch_absent(w, n),
        watch_index(w, n) == k,
        watchers_of(w, n) == w[k].1,
{
    assert(!watch_absent(w, n));
    let kk = choose|kk: int| 0 <= kk < w.len() && w[kk].0 == n;
}

/// The watch of a present name is at some entry.
pub proof fn lemma_watch_present(w: WatchView, n: Seq<char>)
    requires
        !watch_absent(w, n),
    ensures
        0 <= watch_index(w, n) < w.len(),
        w[watch_index(w, n)].0 == n,
{
}

/// Adding a watch of `n` adds `p` to the watchers of `n` and leaves the
/// other names alone.
pub proof fn lemma_add_watch(w: WatchView, n: Seq<char>, p: ProgView)
    requires
        unique_watches(w),
    ensures
        unique_watches(add_watch(w, n, p)),
        watchers_of(add_watch(w, n, p), n) == watchers_of(w, n).push(p),
        forall|m: Seq<char>| m != n ==> #[trigger] watchers_of(add_watch(w, n, p), m) == watchers_of(w, m),
{
    let a = add_watch(w, n, p);
    if watch_absent(w, n) {
        assert(unique_watches(a));
        lemma_watch_at(a, n, w.len() as int);
        assert(watchers_of(w, n).push(p) =~= seq![p]);
    } else {
        let k = watch_index(w, n);
        lemma_watch_present(w, n);
        assert(unique_watches(a));
        lemma_watch_at(a, n, k);
    }
    assert forall|m: Seq<char>| m != n implies #[trigger] watchers_of(a, m) == watchers_of(w, m) by {
        if watch_absent(w, m) {
            assert(watch_absent(a, m));
        } else {
            let j = watch_index(w, m);
            lemma_watch_present(w, m);
            lemma_watch_at(a, m, j);
        }
    }
}

/// The first occurrence of a contained program is found.
pub proof fn lemma_first_prog(l: Seq<ProgView>, p: ProgView, i: int, j: int)
    requires
        0 <= i <= j < l.len(),
        l[j] == p,
    ensures
        i <= first_prog(l, p, i) <= j,
        l[first_prog(l, p, i)] == p,
    decreases j - i,
{
    if l[i] != p {
        lemma_first_prog(l, p, i + 1, j);
    }
}

/// Removing one watch of `p` from `n`, where `p` watches `n`, takes one
/// `p` off the watchers of `n` and leaves the other names alone.
pub proof fn lemma_remove_watch(w: WatchView, n: Seq<char>, p: ProgView)
    requires
        unique_watches(w),
        watch_count(w, n, p) > 0,
    ensures
        remove_watch(w, n, p) is Some,
        unique_watches(remove_watch(w, n, p).unwrap()),
        watchers_of(remove_watch(w, n, p).unwrap(), n).to_multiset() == watchers_of(w, n).to_multiset().remove(p),
        forall|m: Seq<char>|
            m != n ==> #[trigger] watchers_of(remove_watch(w, n, p).unwrap(), m) == watchers_of(w, m),
{
    broadcast use vstd::multiset::group_multiset_axioms, vstd::seq_lib::group_to_multiset_ensures;

    let l = watchers_of(w, n);
    if watch_absent(w, n) {
        assert(l =~= seq![]);
        assert(l.to_multiset() =~= vstd::multiset::Multiset::empty());
    }
    assert(!watch_absent(w, n));
    let k = watch_index(w, n);
    lemma_watch_present(w, n);
    assert(l.contains(p));
    let jj = choose|jj: int| 0 <= jj < l.len() && l[jj] == p;
    lemma_first_prog(l, p, 0, jj);
    let j = first_prog(l, p, 0);
    let l2 = swap_removed(l, j);
    let r = w.update(k, (n, l2));
    assert(remove_watch(w, n, p) == Some(r));
    assert(unique_watches(r));
    lemma_watch_at(r, n, k);
    let u = l.update(j, l.last());
    assert(u.drop_last() == u.remove(u.len() - 1));
    assert(u.last() == l.last());
    assert(l2.to_multiset() =~= l.to_multiset().remove(p)) by {
        vstd::seq_lib::to_multiset_update(l, j, l.last());
        vstd::seq_lib::to_multiset_remove(u, u.len() - 1);
        assert(l.to_multiset().count(l.last()) > 0);
    }
    assert forall|m: Seq<char>| m != n implies #[trigger] watchers_of(r, m) == watchers_of(w, m) by {
        if watch_absent(w, m) {
            assert(watch_absent(r, m));
        } else {
            let i = watch_index(w, m);
            lemma_watch_present(w, m);
            lemma_watch_at(r, m, i);
        }
    }
}

/// After watching for `names[..i]`, program `p` watches each name once more
/// for each time it occurs there.
pub proof fn lemma_add_watches(ws: WatchView, names: ProgView, p: ProgView, i: int)
    requires
        unique_watches(ws),
        0 <= i <= names.len(),
    ensures
        unique_watches(add_watches(ws, names, p, i)),
        forall|m: Seq<char>, q: ProgView|
            #[trigger] watch_count(add_watches(ws, names, p, i), m, q) == watch_count(ws, m, q) + if q == p {
                names.subrange(0, i).to_multiset().count(m)
            } else {
                0
            },
    decreases i,
{
    broadcast use vstd::multiset::group_multiset_axioms, vstd::seq_lib::group_to_multiset_ensures;

    if i == 0 {
        assert(names.subrange(0, 0) =~= seq![]);
    } else {
        lemma_add_watches(ws, names, p, i - 1);
        let w1 = add_watches(ws, names, p, i - 1);
        let n = names[i - 1];
        lemma_add_watch(w1, n, p);
        assert(names.subrange(0, i) =~= names.subrange(0, i - 1).push(n));
        assert forall|m: Seq<char>, q: ProgView|
            #[trigger] watch_count(add_watches(ws, names, p, i), m, q) == watch_count(ws, m, q) + if q == p {
                names.subrange(0, i).to_multiset().count(m)
            } else {
                0
            } by {
            assert(watch_count(w1, m, q) == watch_count(ws, m, q) + if q == p {
                names.subrange(0, i - 1).to_multiset().count(m)
            } else {
                0
            });
        }
    }
}

/// Removing the watches for `names[..i]`, each present, takes one watch off
/// per occurrence.
pub proof fn lemma_remove_watches(w: WatchView, names: ProgView, p: ProgView, i: int)
    requires
        unique_watches(w),
        0 <= i <= names.len(),
        forall|m: Seq<char>| #[trigger] watch_count(w, m, p) >= names.subrange(0, i).to_multiset().count(m),
    ensures
        remove_watches(w, names, p, i) is Some,
        unique_watches(remove_watches(w, names, p, i).unwrap()),
        forall|m: Seq<char>, q: ProgView|
            #[trigger] watch_count(remove_watches(w, names, p, i).unwrap(), m, q) == watch_count(w, m, q) - if q == p {
                names.subrange(0, i).to_multiset().count(m) as int
            } else {
                0
            },
    decreases i,
{
    broadcast use vstd::multiset::group_multiset_axioms, vstd::seq_lib::group_to_multiset_ensures;

    if i == 0 {
        assert(names.subrange(0, 0) =~= seq![]);
    } else {
        let n = names[i - 1];
        assert(names.subrange(0, i) =~= names.subrange(0, i - 1).push(n));
        assert forall|m: Seq<char>| #[trigger] watch_count(w, m, p) >= names.subrange(0, i - 1).to_multiset().count(m) by {
            assert(watch_count(w, m, p) >= names.subrange(0, i).to_multiset().count(m));
        }
        lemma_remove_watches(w, names, p, i - 1);
        let w1 = remove_watches(w, names, p, i - 1).unwrap();
        assert(watch_count(w, n, p) >= names.subrange(0, i).to_multiset().count(n));
        assert(watch_count(w1, n, p) > 0);
        lemma_remove_watch(w1, n, p);
        assert forall|m: Seq<char>, q: ProgView|
            #[trigger] watch_count(remove_watches(w, names, p, i).unwrap(), m, q) == watch_count(w, m, q) - if q == p {
                names.subrange(0, i).to_multiset().count(m) as int
            } else {
                0
            } by {
            assert(watch_count(w1, m, q) == watch_count(w, m, q) - if q == p {
                names.subrange(0, i - 1).to_multiset().count(m) as int
            } else {
                0
            });
        }
    }
}

/// A compile result as plain values.
pub type ResView = Result<u32, Seq<char>>;

pub open spec fn res_view(r: Result<u32, String>) -> ResView {
    match r {
        Ok(o) => Ok(o),
        Err(e) => Err(e@),
    }
}

pub open spec fn slot_view(p: Option<Result<u32, String>>) -> Option<ResView> {
    match p {
        Some(r) => Some(res_view(r)),
        None => None,
    }
}

/// The last compile result received for a program, until its shader takes it.
#[derive(Debug)]
pub struct MailEntry {
    pub name: Vec<String>,
    pub prog: Option<Result<u32, String>>,
}

/// Compile results received from the compiler, by program.
#[derive(Debug)]
pub struct Mailbox {
    pub entries: Vec<MailEntry>,
}

pub type MailView = Seq<(ProgView, Option<ResView>)>;

pub open spec fn mail_at(m: MailView, p: ProgView, k: int) -> bool {
    0 <= k < m.len() && m[k].0 == p
}

pub open spec fn mail_absent(m: MailView, p: ProgView) -> bool {
    forall|j: int| 0 <= j < m.len() ==> (#[trigger] m[j]).0 != p
}

pub open spec fn unique_mail(m: MailView) -> bool {
    forall|i: int, j: int| 0 <= i < m.len() && 0 <= j < m.len() && i != j ==> (#[trigger] m[i]).0 != (#[trigger] m[j]).0
}

/// The mailbox with `slot` for program `p`: replacing its entry, or added last.
pub open spec fn mail_put(m: MailView, p: ProgView, slot: Option<ResView>) -> MailView {
    if mail_absent(m, p) {
        m.push((p, slot))
    } else {
        m.update(choose|k: int| mail_at(m, p, k), (p, slot))
    }
}

/// What the mailbox holds for `p`.
pub open spec fn mail_get(m: MailView, p: ProgView) -> Option<ResView> {
    if mail_absent(m, p) {
        None
    } else {
        m[choose|k: int| mail_at(m, p, k)].1
    }
}

fn copy_res(r: &Result<u32, String>) -> (c: Result<u32, String>)
    ensures
        res_view(c) == res_view(*r),
{
    match r {
        Ok(o) => Ok(*o),
        Err(e) => Err(e.clone()),
    }
}

impl Mailbox {
    pub open spec fn view_mail(&self) -> MailView {
        self.entries@.map_values(|e: MailEntry| (prog_view(e.name), slot_view(e.prog)))
    }

    pub open spec fn wf(&self) -> bool {
        unique_mail(self.view_mail())
    }

    pub fn new() -> (r: Self)
        ensures
            r.wf(),
            r.view_mail().len() == 0,
    {
        Mailbox { entries: Vec::new() }
    }

    fn find(&self, name: &Vec<String>) -> (r: Option<usize>)
        ensures
            match r {
                Some(k) => mail_at(self.view_mail(), prog_view(*name), k as int),
                None => mail_absent(self.view_mail(), prog_view(*name)),
            },
    {
        let mut i: usize = 0;
        while i < self.entries.len()
            invariant
                i <= self.entries@.len(),
                forall|j: int| 0 <= j < i ==> (#[trigger] self.view_mail()[j]).0 != prog_view(*name),
            decreases self.entries@.len() - i,
        {
            if same_prog(&self.entries[i].name, name) {
                return Some(i);
            }
            i = i + 1;
        }
        None
    }

    /// Keeps compile result `prog` for program `name`, replacing an older one.
    pub fn post(&mut self, name: Vec<String>, prog: Result<u32, String>)
        requires
            old(self).wf(),
        ensures
            final(self).wf(),
            final(self).view_mail() == mail_put(old(self).view_mail(), prog_view(name), Some(res_view(prog))),
    {
        let ghost a = self.view_mail();
        let ghost pv = prog_view(name);
        let ghost rv = res_view(prog);
        match self.find(&name) {
            Some(k) => {
                self.entries.set(k, MailEntry { name, prog: Some(prog) });
                proof {
                    assert forall|kk: int| mail_at(a, pv, kk) implies kk == k by {}
                    let c = choose|kk: int| mail_at(a, pv, kk);
                    assert(mail_at(a, pv, k as int));
                    assert(self.view_mail() =~= a.update(k as int, (pv, Some(rv))));
                }
            },
            None => {
                self.entries.push(MailEntry { name, prog: Some(prog) });
                assert(self.view_mail() =~= a.push((pv, Some(rv))));
            },
        }
    }

    /// Takes the compile result kept for program `name`, if any.
    pub fn take(&mut self, name: &Vec<String>) -> (r: Option<Result<u32, String>>)
        requires
            old(self).wf(),
        ensures
            final(self).wf(),
            slot_view(r) == mail_get(old(self).view_mail(), prog_view(*name)),
            final(self).view_mail() == (if r is Some {
                mail_put(old(self).view_mail(), prog_view(*name), None)
            } else {
                old(self).view_mail()
            }),
    {
        let ghost a = self.view_mail();
        let ghost pv = prog_view(*name);
        match self.find(name) {
            Some(k) => {
                proof {
                    assert forall|kk: int| mail_at(a, pv, kk) implies kk == k by {}
                    let c = choose|kk: int| mail_at(a, pv, kk);
                    assert(mail_at(a, pv, k as int));
                }
                let got = match &self.entries[k].prog {
                    Some(p) => Some(copy_res(p)),
                    None => None,
                };
                if got.is_some() {
                    let kept = clone_prog(&self.entries[k].name);
                    self.entries.set(k, MailEntry { name: kept, prog: None });
                    assert(self.view_mail() =~= a.update(k as int, (pv, None)));
                }
                got
            },
            None => None,
        }
    }
}

/// Law: a result posted for a program is what its shader then takes, and a
/// second take finds nothing until the next post.
pub proof fn law_post_then_take(m: MailView, p: ProgView, r: ResView)
    requires
        unique_mail(m),
    ensures
        mail_get(mail_put(m, p, Some(r)), p) == Some(r),
        unique_mail(mail_put(m, p, Some(r))),
        mail_get(mail_put(mail_put(m, p, Some(r)), p, None), p) is None,
{
    let m1 = mail_put(m, p, Some(r));
    if mail_absent(m, p) {
        assert(mail_at(m1, p, m.len() as int));
        assert(!mail_absent(m1, p));
        let k = choose|k: int| mail_at(m1, p, k);
        assert(k == m.len());
    } else {
        let j = choose|j: int| 0 <= j < m.len() && m[j].0 == p;
        assert(mail_at(m, p, j));
        let k = choose|k: int| mail_at(m, p, k);
        assert(mail_at(m1, p, k));
        let k1 = choose|k1: int| mail_at(m1, p, k1);
        assert(k1 == k);
    }
    let k = choose|k: int| mail_at(m1, p, k);
    assert(mail_at(m1, p, k));
    let m2 = mail_put(m1, p, None);
    assert(mail_at(m2, p, k));
    let k2 = choose|k2: int| mail_at(m2, p, k2);
    assert(k2 == k);
}

/// The message for a stage whose source is loaded nowhere.
pub open spec fn no_shader_message(name: Seq<char>) -> Seq<char> {
    seq!['N', 'o', ' ', 's', 'h', 'a', 'd', 'e', 'r', ' '] + str_debug(name) + seq![' ', 'i', 'n', ' ', 'l', 'o', 'a', 'd', 'e', 'd', ' ', 's', 'o', 'u', 'r', 'c', 'e', 's']
}

/// What getting the shader object of one stage of a program takes next.
pub enum Lookup {
    /// Use this compiled object.
    Use(u32),
    /// Compile this source, at this entry, and record the object.
    Compile(String, usize),
    /// Take in the sources the shader files have read since, then look again.
    TakeFiles,
    /// Give up with the compile error just met.
    Fail,
    /// Give up: no source of that name, with this message.
    Missing(String),
}

/// The sources after putting `new[..i]` in, in order.
pub open spec fn put_srcs(ss: Seq<SrcView>, new: Seq<(Seq<char>, Seq<char>)>, i: int) -> Seq<SrcView>
    decreases i,
{
    if i <= 0 {
        ss
    } else {
        put_src(put_srcs(ss, new, i - 1), new[i - 1].0, new[i - 1].1)
    }
}

/// The names of `new[..i]` that replaced a source already there, in order.
pub open spec fn replaced_srcs(ss: Seq<SrcView>, new: Seq<(Seq<char>, Seq<char>)>, i: int) -> Seq<Seq<char>>
    decreases i,
{
    if i <= 0 {
        seq![]
    } else if absent(put_srcs(ss, new, i - 1), new[i - 1].0) {
        replaced_srcs(ss, new, i - 1)
    } else {
        replaced_srcs(ss, new, i - 1).push(new[i - 1].0)
    }
}

impl ShaderRegistry {
    /// The next step towards the shader object of stage `name`: `drained`
    /// says whether the shader files were taken in for it already, `failed`
    /// whether its last compile failed. A failed compile is retried once
    /// after taking in the files; a missing source is looked for there.
    pub fn lookup_step(&self, name: &String, drained: bool, failed: bool) -> (r: Lookup)
        ensures
            failed ==> r == (if drained { Lookup::Fail } else { Lookup::TakeFiles }),
            !failed ==> match r {
                Lookup::Use(o) => exists|k: int| named(self.srcs(), name@, k) && self.srcs()[k].2 == Some(o),
                Lookup::Compile(src, k) => named(self.srcs(), name@, k as int) && self.srcs()[k as int].2 is None
                    && src@ == self.srcs()[k as int].1,
                Lookup::TakeFiles => absent(self.srcs(), name@) && !drained,
                Lookup::Missing(m) => absent(self.srcs(), name@) && drained && m@ == no_shader_message(name@),
                Lookup::Fail => false,
            },
    {
        if failed {
            return if drained { Lookup::Fail } else { Lookup::TakeFiles };
        }
        match self.stage(name) {
            Stage::Compiled(o) => Lookup::Use(o),
            Stage::Source(src, k) => Lookup::Compile(src, k),
            Stage::Missing => {
                if drained {
                    let mut out: Vec<char> = vec!['N', 'o', ' ', 's', 'h', 'a', 'd', 'e', 'r', ' '];
                    let q = chars_of(debug_quoted(name.as_str()).as_str());
                    append_chars(&mut out, q.as_slice());
                    let t: Vec<char> = vec![' ', 'i', 'n', ' ', 'l', 'o', 'a', 'd', 'e', 'd', ' ', 's', 'o', 'u', 'r', 'c', 'e', 's'];
                    append_chars(&mut out, t.as_slice());
                    assert(out@ =~= no_shader_message(name@));
                    Lookup::Missing(string_of(out.as_slice()))
                } else {
                    Lookup::TakeFiles
                }
            },
        }
    }

    /// Takes in the sources the shader files have read, in order, each
    /// replacing a source of its name; returns the names that replaced one.
    pub fn load_files(&mut self, new: &Vec<ShdSrc>) -> (r: Vec<String>)
        requires
            old(self).wf(),
        ensures
            final(self).wf(),
            final(self).watches() == old(self).watches(),
            final(self).includes == old(self).includes,
            final(self).srcs() == put_srcs(old(self).srcs(), new_view(new@), new@.len() as int),
            r@.map_values(|s: String| s@) == replaced_srcs(old(self).srcs(), new_view(new@), new@.len() as int),
    {
        let ghost s0 = self.srcs();
        let ghost nv = new_view(new@);
        let mut r: Vec<String> = Vec::new();
        let mut i: usize = 0;
        assert(r@.map_values(|s: String| s@) =~= Seq::<Seq<char>>::empty());
        while i < new.len()
            invariant
                i <= new@.len(),
                nv == new_view(new@),
                self.wf(),
                self.watches() == old(self).watches(),
                self.includes == old(self).includes,
                self.srcs() == put_srcs(s0, nv, i as int),
                r@.map_values(|s: String| s@) == replaced_srcs(s0, nv, i as int),
            decreases new@.len() - i,
        {
            let name = new[i].name.clone();
            let src = new[i].src.clone();
            assert(nv[i as int] == (name@, src@));
            let ghost rb = r@.map_values(|s: String| s@);
            if self.put_source(name.clone(), src) {
                r.push(name);
                assert(r@.map_values(|s: String| s@) =~= rb.push(nv[i as int].0));
            }
            i = i + 1;
        }
        r
    }

    /// Whether program `prog` can be forgotten: each of its shaders is
    /// watched by it, once for each time it names that shader.
    pub fn is_watched(&self, prog: &Vec<String>) -> (r: bool)
        requires
            self.wf(),
        ensures
            r == remove_watches(self.watches(), prog_view(*prog), prog_view(*prog), prog@.len() as int) is Some,
    {
        let ghost w0 = self.watches();
        let ghost pv = prog_view(*prog);
        let mut copy = ShaderRegistry { includes: String::new(), sources: Vec::new(), watched: Vec::new() };
        let mut j: usize = 0;
        while j < self.watched.len()
            invariant
                j <= self.watched@.len(),
                copy.sources@.len() == 0,
                copy.watches() == w0.subrange(0, j as int),
                w0 == self.watches(),
            decreases self.watched@.len() - j,
        {
            let ghost before = copy.watches();
            let e = WatchEntry { name: self.watched[j].name.clone(), progs: clone_progs(&self.watched[j].progs) };
            copy.watched.push(e);
            assert(copy.watches() =~= before.push(w0[j as int]));
            assert(w0.subrange(0, j + 1) =~= w0.subrange(0, j as int).push(w0[j as int]));
            j = j + 1;
        }
        assert(w0.subrange(0, w0.len() as int) =~= w0);
        assert(copy.srcs() =~= Seq::<SrcView>::empty());
        let mut i: usize = 0;
        while i < prog.len()
            invariant
                i <= prog@.len(),
                pv == prog_view(*prog),
                w0 == self.watches(),
                copy.wf(),
                Some(copy.watches()) == remove_watches(w0, pv, pv, i as int),
            decreases prog@.len() - i,
        {
            let ghost before = copy.watches();
            let name = &prog[i];
            assert(pv[i as int] == name@);
            assert(remove_watches(w0, pv, pv, i + 1) == remove_watch(before, name@, pv));
            let k = match copy.watch_entry(name) {
                Some(k) => k,
                None => {
                    proof {
                        lemma_none_stays(w0, pv, pv, i + 1, prog@.len() as int);
                    }
                    return false;
                },
            };
            let entry_name = copy.watched[k].name.clone();
            let mut progs = clone_progs(&copy.watched[k].progs);
            let jj = find_prog(&progs, prog);
            if jj >= progs.len() {
                proof {
                    lemma_none_stays(w0, pv, pv, i + 1, prog@.len() as int);
                }
                return false;
            }
            let ghost pb = progs_view(progs@);
            progs.swap_remove(jj);
            assert(progs_view(progs@) =~= swap_removed(pb, jj as int));
            copy.watched.set(k, WatchEntry { name: entry_name, progs });
            assert(copy.watches() =~= before.update(k as int, (name@, swap_removed(before[k as int].1, jj as int))));
            i = i + 1;
        }
        true
    }
}

/// Once removing the watches of a prefix fails, removing them for any longer
/// prefix fails too.
pub proof fn lemma_none_stays(ws: WatchView, names: ProgView, p: ProgView, i: int, n: int)
    requires
        0 <= i <= n,
        remove_watches(ws, names, p, i) is None,
    ensures
        remove_watches(ws, names, p, n) is None,
{
    if remove_watches(ws, names, p, n) is Some {
        lemma_remove_prefix(ws, names, p, i, n);
    }
}

/// Law: a program that was watched can be forgotten, and forgetting it
/// gives every source back the watchers it had before, up to order.
pub proof fn law_forget_after_watch(ws: WatchView, prog: ProgView)
    requires
        unique_watches(ws),
    ensures
        remove_watches(add_watches(ws, prog, prog, prog.len() as int), prog, prog, prog.len() as int) is Some,
        forall|m: Seq<char>|
            #[trigger] watchers_of(
                remove_watches(add_watches(ws, prog, prog, prog.len() as int), prog, prog, prog.len() as int).unwrap(),
                m,
            ).to_multiset() == watchers_of(ws, m).to_multiset(),
{
    let n = prog.len() as int;
    lemma_add_watches(ws, prog, prog, n);
    let w = add_watches(ws, prog, prog, n);
    assert forall|m: Seq<char>| #[trigger] watch_count(w, m, prog) >= prog.subrange(0, n).to_multiset().count(m) by {
        assert(watch_count(w, m, prog) == watch_count(ws, m, prog) + prog.subrange(0, n).to_multiset().count(m));
    }
    lemma_remove_watches(w, prog, prog, n);
    let r = remove_watches(w, prog, prog, n).unwrap();
    assert forall|m: Seq<char>| #[trigger] watchers_of(r, m).to_multiset() == watchers_of(ws, m).to_multiset() by {
        assert forall|q: ProgView| watchers_of(r, m).to_multiset().count(q) == watchers_of(ws, m).to_multiset().count(q) by {
            assert(watch_count(r, m, q) == watch_count(ws, m, q));
        }
        assert(watchers_of(r, m).to_multiset() =~= watchers_of(ws, m).to_multiset());
    }
}

/// Law: once a program is watched, a new text for one of its shaders, read
/// by a rebuild, has that program rebuilt.
pub proof fn law_rebuild_after_watch(ss: Seq<SrcView>, ws: WatchView, prog: ProgView, i: int, s: Seq<char>)
    requires
        unique_watches(ws),
        0 <= i < prog.len(),
        !absent(ss, prog[i]),
        forall|k: int| named(ss, prog[i], k) ==> ss[k].1 != s,
    ensures
        rebuild_spec(ss, add_watches(ws, prog, prog, prog.len() as int), seq![(prog[i], s)], 1).1.contains(prog),
{
    broadcast use vstd::seq_lib::group_to_multiset_ensures;

    let n = prog[i];
    let w = add_watches(ws, prog, prog, prog.len() as int);
    lemma_add_watches(ws, prog, prog, prog.len() as int);
    assert(prog.subrange(0, prog.len() as int) =~= prog);
    assert(prog.contains(n));
    assert(watch_count(w, n, prog) == watch_count(ws, n, prog) + prog.to_multiset().count(n));
    assert(watchers_of(w, n).contains(prog));
    let j = choose|j: int| 0 <= j < ss.len() && ss[j].0 == n;
    assert(named(ss, n, j));
    assert(absorb_spec(ss, n, s).1);
    let new = seq![(n, s)];
    assert(rebuild_spec(ss, w, new, 0) == (ss, Seq::<ProgView>::empty()));
    assert(new[0] == (n, s));
    let r = rebuild_spec(ss, w, new, 1);
    assert(r.1 =~= Seq::<ProgView>::empty() + watchers_of(w, n));
}

/// Which of a batch of tasks received together the compiler carries out: a
/// rebuild followed at once by another rebuild is skipped, the later one
/// doing its work.
pub open spec fn kept(rebuild: Seq<bool>, i: int) -> bool {
    !(rebuild[i] && i + 1 < rebuild.len() && rebuild[i + 1])
}

/// A task of the shader compiler; `F` is the handle of a shader file.
pub enum ShaderTask<F> {
    Includes(Vec<String>),
    Watch(Vec<String>),
    Forget(Vec<String>),
    Rebuild,
    Inline((String, String)),
    Create(Vec<String>),
    Load(F),
    Clean,
}

/// Which tasks of a sequence are rebuilds.
pub open spec fn rebuild_flags<F>(tasks: Seq<ShaderTask<F>>) -> Seq<bool> {
    tasks.map_values(|t: ShaderTask<F>| t is Rebuild)
}

/// For each task of a batch received together, whether it is carried out.
pub fn kept_tasks<F>(tasks: &Vec<ShaderTask<F>>) -> (keep: Vec<bool>)
    ensures
        keep@.len() == tasks@.len(),
        forall|i: int| 0 <= i < tasks@.len() ==> #[trigger] keep@[i] == kept(rebuild_flags(tasks@), i),
{
    let n = tasks.len();
    let ghost r = rebuild_flags(tasks@);
    let mut keep: Vec<bool> = Vec::new();
    let mut i: usize = 0;
    while i < n
        invariant
            n == tasks@.len(),
            r == rebuild_flags(tasks@),
            i <= n,
            keep@.len() == i,
            forall|j: int| 0 <= j < i ==> #[trigger] keep@[j] == kept(r, j),
        decreases n - i,
    {
        let here = match &tasks[i] {
            ShaderTask::Rebuild => true,
            _ => false,
        };
        let next = i + 1 < n && match &tasks[i + 1] {
            ShaderTask::Rebuild => true,
            _ => false,
        };
        assert(here == r[i as int]);
        assert(i + 1 < n ==> next == r[i + 1]);
        keep.push(!(here && next));
        i = i + 1;
    }
    keep
}

/// A shader written in the program text: its name and its source.
#[derive(Clone, Copy, Debug, PartialEq, Eq)]
pub struct InlineShader(pub &'static str, pub &'static str);

impl InlineShader {
    /// The task that registers the shader, and the name programs use for it.
    pub fn task<F>(&self) -> (r: (ShaderTask<F>, String))
        ensures
            r.0 matches ShaderTask::Inline((n, src)) && n@ == self.0@ && src@ == self.1@,
            r.1@ == self.0@,
    {
        let name = string_of(chars_of(self.0).as_slice());
        let src = string_of(chars_of(self.1).as_slice());
        (ShaderTask::Inline((name.clone(), src)), name)
    }
}

/// Law: no requested rebuild is lost: a rebuild is followed, through a run
/// of rebuilds, by one that is carried out.
pub proof fn law_rebuild_not_lost(rebuild: Seq<bool>, i: int)
    requires
        0 <= i < rebuild.len(),
        rebuild[i],
    ensures
        exists|j: int|
            i <= j < rebuild.len() && rebuild[j] && kept(rebuild, j) && forall|l: int| i <= l <= j ==> #[trigger] rebuild[l],
    decreases rebuild.len() - i,
{
    if kept(rebuild, i) {
        assert(forall|l: int| i <= l <= i ==> #[trigger] rebuild[l]);
    } else {
        law_rebuild_not_lost(rebuild, i + 1);
        let j = choose|j: int|
            i + 1 <= j < rebuild.len() && rebuild[j] && kept(rebuild, j) && forall|l: int| i + 1 <= l <= j ==> #[trigger] rebuild[l];
        assert(forall|l: int| i <= l <= j ==> #[trigger] rebuild[l]);
    }
}

/// How far the line numbers of a compile log move so that they count from
/// the shader's own first line: back over the header, less one.
pub fn log_offset(includes: &str) -> (r: i32)
    requires
        line_count(includes@) <= i32::MAX,
    ensures
        r == 1 - line_count(includes@),
{
    let t = chars_of(includes);
    let c = count_lines(t.as_slice());
    1 - c as i32
}

/// Law: a source put under a name is found there, uncompiled, with its
/// text, and names stay unique.
pub proof fn law_put_then_stage(a: Seq<SrcView>, n: Seq<char>, s: Seq<char>)
    requires
        unique_names(a),
    ensures
        exists|k: int| named(put_src(a, n, s), n, k) && put_src(a, n, s)[k] == (n, s, None::<u32>),
        unique_names(put_src(a, n, s)),
{
    if absent(a, n) {
        assert(named(put_src(a, n, s), n, a.len() as int));
    } else {
        let j = choose|j: int| 0 <= j < a.len() && a[j].0 == n;
        assert(named(a, n, j));
        let k = choose|k: int| named(a, n, k);
        assert(named(put_src(a, n, s), n, k));
    }
}

/// Law: after a clean, no source is compiled, every text is kept, and a
/// second clean changes nothing.
pub proof fn law_clean(a: Seq<SrcView>)
    ensures
        cleaned(a).len() == a.len(),
        forall|k: int| 0 <= k < a.len() ==> (#[trigger] cleaned(a)[k]).2 is None && cleaned(a)[k].1 == a[k].1 && cleaned(a)[k].0 == a[k].0,
        cleaned(cleaned(a)) == cleaned(a),
{
    assert(cleaned(cleaned(a)) =~= cleaned(a));
}

} // verus!

//! The shader manager of programs made of a vertex, an optional geometry and
//! a pixel shader: compiled shader objects and shader sources, each by name.
//! The GL work is done by the caller; the manager says what to do and keeps
//! the books.
use vstd::prelude::*;
use crate::glenum::GLenum;
use crate::glenum as gl;
use crate::parsing::ShdSrc;
use crate::text::{append_chars, chars_of, debug_quoted, dec_digits_u32, push_u32_digits, str_debug, string_of};

verus! {

/// The stage a shader of a program has by its position.
#[derive(Clone, Copy, Debug, PartialEq, Eq)]
pub enum StageType {
    Vertex,
    Geometry,
    Fragment,
}

/// The GL shader type of a stage.
pub open spec fn stage_gl_type(t: StageType) -> GLenum {
    match t {
        StageType::Vertex => gl::VERTEX_SHADER,
        StageType::Geometry => gl::GEOMETRY_SHADER,
        StageType::Fragment => gl::FRAGMENT_SHADER,
    }
}

/// The word for a stage in messages.
pub open spec fn stage_word(t: StageType) -> Seq<char> {
    match t {
        StageType::Vertex => seq!['v', 'e', 'r', 't', 'e', 'x'],
        StageType::Geometry => seq!['g', 'e', 'o', 'm', 'e', 't', 'r', 'y'],
        StageType::Fragment => seq!['p', 'i', 'x', 'e', 'l'],
    }
}

/// The name of a program: `v:VERT|g:GEOM|p:PIX`, or `v:VERT|p:PIX` without
/// a geometry shader.
pub open spec fn program_name_spec(vert: Seq<char>, geom: Option<Seq<char>>, pix: Seq<char>) -> Seq<char> {
    match geom {
        Some(g) => seq!['v', ':'] + vert + seq!['|', 'g', ':'] + g + seq!['|', 'p', ':'] + pix,
        None => seq!['v', ':'] + vert + seq!['|', 'p', ':'] + pix,
    }
}

/// The stages of a program, in the order they are compiled.
pub open spec fn stages_spec(vert: Seq<char>, geom: Option<Seq<char>>, pix: Seq<char>) -> Seq<(Seq<char>, StageType)> {
    match geom {
        Some(g) => seq![(vert, StageType::Vertex), (g, StageType::Geometry), (pix, StageType::Fragment)],
        None => seq![(vert, StageType::Vertex), (pix, StageType::Fragment)],
    }
}

/// The message for a stage whose source is not loaded.
pub open spec fn missing_message(t: StageType, name: Seq<char>) -> Seq<char> {
    seq!['N', 'o', ' '] + stage_word(t) + seq![' ', 's', 'h', 'a', 'd', 'e', 'r', ' '] + str_debug(name) + seq![' ', 'i', 'n', ' ', 'l', 'o', 'a', 'd', 'e', 'd', ' ', 's', 'o', 'u', 'r', 'c', 'e', 's']
}

/// The message for a stage whose source failed to compile with `log`.
pub open spec fn stage_failure(t: StageType, name: Seq<char>, log: Seq<char>) -> Seq<char> {
    seq!['E', 'r', 'r', 'o', 'r', ' ', 'c', 'o', 'm', 'p', 'i', 'l', 'i', 'n', 'g', ' '] + stage_word(t) + seq![' ', 's', 'h', 'a', 'd', 'e', 'r', ' '] + str_debug(name) + seq!['\n'] + log
}

/// The message for a program `name`, GL object `obj`, that failed to link with `log`.
pub open spec fn link_failure(name: Seq<char>, obj: u32, log: Seq<char>) -> Seq<char> {
    seq!['E', 'r', 'r', 'o', 'r', ' ', 'l', 'i', 'n', 'k', 'i', 'n', 'g', ' ', 'p', 'r', 'o', 'g', 'r', 'a', 'm', ' '] + str_debug(name) + seq![',', ' '] + dec_digits_u32(obj) + seq!['\n'] + log
}

/// A compiled shader object by name.
#[derive(Debug)]
pub struct NamedObj {
    pub name: String,
    pub obj: u32,
}

/// A shader source by name.
#[derive(Debug)]
pub struct NamedSrc {
    pub name: String,
    pub src: String,
}

/// Compiled objects and loaded sources, each at most once per name.
#[derive(Debug)]
pub struct ShaderManager {
    pub objects: Vec<NamedObj>,
    pub sources: Vec<NamedSrc>,
}

/// Entry `k` of `s` has key `n`.
pub open spec fn key_at<T>(s: Seq<(Seq<char>, T)>, n: Seq<char>, k: int) -> bool {
    0 <= k < s.len() && s[k].0 == n
}

pub open spec fn key_absent<T>(s: Seq<(Seq<char>, T)>, n: Seq<char>) -> bool {
    forall|j: int| 0 <= j < s.len() ==> (#[trigger] s[j]).0 != n
}

pub open spec fn unique_keys<T>(s: Seq<(Seq<char>, T)>) -> bool {
    forall|i: int, j: int| 0 <= i < s.len() && 0 <= j < s.len() && i != j ==> (#[trigger] s[i]).0 != (#[trigger] s[j]).0
}

/// `s` with `(n, v)` put in: replacing the entry of key `n`, or added last.
pub open spec fn put_key<T>(s: Seq<(Seq<char>, T)>, n: Seq<char>, v: T) -> Seq<(Seq<char>, T)> {
    if key_absent(s, n) {
        s.push((n, v))
    } else {
        s.update(choose|k: int| key_at(s, n, k), (n, v))
    }
}

/// `s` with the sources `new[..i]` put in, in order.
pub open spec fn put_all(s: Seq<(Seq<char>, Seq<char>)>, new: Seq<(Seq<char>, Seq<char>)>, i: int) -> Seq<(Seq<char>, Seq<char>)>
    decreases i,
{
    if i <= 0 {
        s
    } else {
        put_key(put_all(s, new, i - 1), new[i - 1].0, new[i - 1].1)
    }
}

/// The names of `new[..i]` that replaced a source already there, in order.
pub open spec fn replaced_names(s: Seq<(Seq<char>, Seq<char>)>, new: Seq<(Seq<char>, Seq<char>)>, i: int) -> Seq<Seq<char>>
    decreases i,
{
    if i <= 0 {
        seq![]
    } else if key_absent(put_all(s, new, i - 1), new[i - 1].0) {
        replaced_names(s, new, i - 1)
    } else {
        replaced_names(s, new, i - 1).push(new[i - 1].0)
    }
}

pub open spec fn pairs_of(v: Seq<ShdSrc>) -> Seq<(Seq<char>, Seq<char>)> {
    v.map_values(|x: ShdSrc| (x.name@, x.src@))
}

impl ShaderManager {
    pub open spec fn objs(&self) -> Seq<(Seq<char>, u32)> {
        self.objects@.map_values(|e: NamedObj| (e.name@, e.obj))
    }

    pub open spec fn srcs(&self) -> Seq<(Seq<char>, Seq<char>)> {
        self.sources@.map_values(|e: NamedSrc| (e.name@, e.src@))
    }

    /// Names of objects and of sources are unique.
    pub open spec fn wf(&self) -> bool {
        unique_keys(self.objs()) && unique_keys(self.srcs())
    }

    /// No objects and no sources.
    pub fn new() -> (r: Self)
        ensures
            r.wf(),
            r.objs().len() == 0,
            r.srcs().len() == 0,
    {
        ShaderManager { objects: Vec::new(), sources: Vec::new() }
    }

    /// Entry of the object named `name`.
    pub fn find_object(&self, name: &String) -> (r: Option<usize>)
        ensures
            match r {
                Some(k) => key_at(self.objs(), name@, k as int),
                None => key_absent(self.objs(), name@),
            },
    {
        let mut i: usize = 0;
        while i < self.objects.len()
            invariant
                i <= self.objects@.len(),
                forall|j: int| 0 <= j < i ==> (#[trigger] self.objs()[j]).0 != name@,
            decreases self.objects@.len() - i,
        {
            if self.objects[i].name == *name {
                return Some(i);
            }
            i = i + 1;
        }
        None
    }

    /// Entry of the source named `name`.
    pub fn find_source(&self, name: &String) -> (r: Option<usize>)
        ensures
            match r {
                Some(k) => key_at(self.srcs(), name@, k as int),
                None => key_absent(self.srcs(), name@),
            },
    {
        let mut i: usize = 0;
        while i < self.sources.len()
            invariant
                i <= self.sources@.len(),
                forall|j: int| 0 <= j < i ==> (#[trigger] self.srcs()[j]).0 != name@,
            decreases self.sources@.len() - i,
        {
            if self.sources[i].name == *name {
                return Some(i);
            }
            i = i + 1;
        }
        None
    }

    /// The compiled object named `name`.
    pub fn object(&self, name: &String) -> (r: Option<u32>)
        ensures
            match r {
                Some(o) => exists|k: int| key_at(self.objs(), name@, k) && self.objs()[k].1 == o,
                None => key_absent(self.objs(), name@),
            },
    {
        match self.find_object(name) {
            Some(k) => {
                assert(key_at(self.objs(), name@, k as int));
                Some(self.objects[k].obj)
            },
            None => None,
        }
    }

    /// The source named `name`.
    pub fn source(&self, name: &String) -> (r: Option<String>)
        ensures
            match r {
                Some(s) => exists|k: int| key_at(self.srcs(), name@, k) && self.srcs()[k].1 == s@,
                None => key_absent(self.srcs(), name@),
            },
    {
        match self.find_source(name) {
            Some(k) => {
                assert(key_at(self.srcs(), name@, k as int));
                Some(self.sources[k].src.clone())
            },
            None => None,
        }
    }

    /// Puts source `src` under `name`, replacing any source of that name;
    /// returns whether one was replaced.
    pub fn put_source(&mut self, name: String, src: String) -> (replaced: bool)
        requires
            old(self).wf(),
        ensures
            final(self).wf(),
            final(self).objs() == old(self).objs(),
            replaced == !key_absent(old(self).srcs(), name@),
            final(self).srcs() == put_key(old(self).srcs(), name@, src@),
    {
        let ghost a = self.srcs();
        match self.find_source(&name) {
            Some(k) => {
                let ghost nv = name@;
                let ghost sv = src@;
                self.sources.set(k, NamedSrc { name, src });
                proof {
                    assert forall|kk: int| key_at(a, nv, kk) implies kk == k by {}
                    let c = choose|kk: int| key_at(a, nv, kk);
                    assert(key_at(a, nv, k as int));
                    assert(self.srcs() =~= a.update(k as int, (nv, sv)));
                }
                true
            },
            None => {
                let ghost nv = name@;
                let ghost sv = src@;
                self.sources.push(NamedSrc { name, src });
                assert(self.srcs() =~= a.push((nv, sv)));
                false
            },
        }
    }

    /// Forces source `source` under `name`; the compiled object of that name,
    /// if any, is dropped and returned for deletion.
    pub fn ForceSource(&mut self, name: String, source: String) -> (r: Option<u32>)
        requires
            old(self).wf(),
        ensures
            final(self).wf(),
            final(self).srcs() == put_key(old(self).srcs(), name@, source@),
            match r {
                Some(o) => exists|k: int|
                    key_at(old(self).objs(), name@, k) && old(self).objs()[k].1 == o && final(self).objs() == old(
                        self,
                    ).objs().remove(k),
                None => key_absent(old(self).objs(), name@) && final(self).objs() == old(self).objs(),
            },
    {
        let ghost a = self.objs();
        let r = match self.find_object(&name) {
            Some(k) => {
                let e = self.objects.remove(k);
                assert(self.objs() =~= a.remove(k as int));
                assert(unique_keys(self.objs())) by {
                    assert forall|i: int, j: int|
                        0 <= i < self.objs().len() && 0 <= j < self.objs().len() && i != j implies (#[trigger] self.objs()[i]).0
                        != (#[trigger] self.objs()[j]).0 by {
                        let ii = if i < k { i } else { i + 1 };
                        let jj = if j < k { j } else { j + 1 };
                        assert(self.objs()[i] == a[ii]);
                        assert(self.objs()[j] == a[jj]);
                    }
                }
                Some(e.obj)
            },
            None => None,
        };
        self.put_source(name, source);
        r
    }

    /// Drops every compiled object, returning them, in order, for deletion.
    pub fn ClearSources(&mut self) -> (r: Vec<u32>)
        requires
            old(self).wf(),
        ensures
            final(self).wf(),
            final(self).objs().len() == 0,
            final(self).srcs() == old(self).srcs(),
            r@ == old(self).objs().map_values(|e: (Seq<char>, u32)| e.1),
    {
        let mut r: Vec<u32> = Vec::new();
        let mut i: usize = 0;
        while i < self.objects.len()
            invariant
                i <= self.objects@.len(),
                r@ == self.objs().map_values(|e: (Seq<char>, u32)| e.1).subrange(0, i as int),
            decreases self.objects@.len() - i,
        {
            r.push(self.objects[i].obj);
            assert(self.objs().map_values(|e: (Seq<char>, u32)| e.1).subrange(0, i + 1) =~= self.objs().map_values(
                |e: (Seq<char>, u32)| e.1,
            ).subrange(0, i as int).push(self.objects@[i as int].obj));
            i = i + 1;
        }
        assert(self.objs().map_values(|e: (Seq<char>, u32)| e.1).subrange(0, self.objects@.len() as int)
            =~= self.objs().map_values(|e: (Seq<char>, u32)| e.1));
        self.objects = Vec::new();
        assert(self.objs() =~= Seq::<(Seq<char>, u32)>::empty());
        r
    }

    /// Registers source `source` under `name` unless there is one; a source
    /// already there must have the same text.
    pub fn inline_source(&mut self, name: String, source: String)
        requires
            old(self).wf(),
            forall|k: int| key_at(old(self).srcs(), name@, k) ==> old(self).srcs()[k].1 == source@,
        ensures
            final(self).wf(),
            final(self).objs() == old(self).objs(),
            key_absent(old(self).srcs(), name@) ==> final(self).srcs() == old(self).srcs().push((name@, source@)),
            !key_absent(old(self).srcs(), name@) ==> final(self).srcs() == old(self).srcs(),
    {
        let ghost a = self.srcs();
        if self.find_source(&name).is_none() {
            let ghost nv = name@;
            let ghost sv = source@;
            self.sources.push(NamedSrc { name, src: source });
            assert(self.srcs() =~= a.push((nv, sv)));
        }
    }

    /// Takes in the sources of a file, in order, each replacing a source of
    /// its name; returns the names that replaced one.
    pub fn take_file(&mut self, file: &Vec<ShdSrc>) -> (r: Vec<String>)
        requires
            old(self).wf(),
        ensures
            final(self).wf(),
            final(self).objs() == old(self).objs(),
            final(self).srcs() == put_all(old(self).srcs(), pairs_of(file@), file@.len() as int),
            r@.map_values(|s: String| s@) == replaced_names(old(self).srcs(), pairs_of(file@), file@.len() as int),
    {
        let ghost s0 = self.srcs();
        let ghost fv = pairs_of(file@);
        let mut r: Vec<String> = Vec::new();
        let mut i: usize = 0;
        assert(r@.map_values(|s: String| s@) =~= Seq::<Seq<char>>::empty());
        while i < file.len()
            invariant
                i <= file@.len(),
                fv == pairs_of(file@),
                self.wf(),
                self.objs() == old(self).objs(),
                self.srcs() == put_all(s0, fv, i as int),
                r@.map_values(|s: String| s@) == replaced_names(s0, fv, i as int),
            decreases file@.len() - i,
        {
            let name = file[i].name.clone();
            let src = file[i].src.clone();
            assert(fv[i as int] == (name@, src@));
            let ghost rb = r@.map_values(|s: String| s@);
            if self.put_source(name.clone(), src) {
                r.push(name);
                assert(r@.map_values(|s: String| s@) =~= rb.push(fv[i as int].0));
            }
            i = i + 1;
        }
        r
    }

    /// Records the object compiled for source `name`, which has none.
    pub fn set_object(&mut self, name: String, obj: u32)
        requires
            old(self).wf(),
            key_absent(old(self).objs(), name@),
        ensures
            final(self).wf(),
            final(self).srcs() == old(self).srcs(),
            final(self).objs() == old(self).objs().push((name@, obj)),
    {
        let ghost a = self.objs();
        let ghost nv = name@;
        self.objects.push(NamedObj { name, obj });
        assert(self.objs() =~= a.push((nv, obj)));
    }
}

/// What compiling one stage of a program takes next.
pub enum CompileStep {
    /// Use this compiled object.
    UseObject(u32),
    /// Take in the shader files not read in yet, then look again.
    TakeFiles,
    /// Compile this source and record the object.
    CompileSource(String),
    /// Give up: no source of that name, with this message.
    Missing(String),
}

impl ShaderManager {
    /// The next step towards the object of stage `name` of type `t`;
    /// `drained` says whether the shader files were taken in for it already.
    /// An object is used as it is; without one, the files are taken in and
    /// the source is then compiled, or reported missing.
    pub fn next_step(&self, name: &String, t: StageType, drained: bool) -> (r: CompileStep)
        ensures
            match r {
                CompileStep::UseObject(o) => exists|k: int| key_at(self.objs(), name@, k) && self.objs()[k].1 == o,
                CompileStep::TakeFiles => key_absent(self.objs(), name@) && !drained,
                CompileStep::CompileSource(src) => key_absent(self.objs(), name@) && drained && exists|k: int|
                    key_at(self.srcs(), name@, k) && self.srcs()[k].1 == src@,
                CompileStep::Missing(m) => key_absent(self.objs(), name@) && drained && key_absent(self.srcs(), name@)
                    && m@ == missing_message(t, name@),
            },
    {
        match self.object(name) {
            Some(o) => CompileStep::UseObject(o),
            None => {
                if !drained {
                    CompileStep::TakeFiles
                } else {
                    match self.source(name) {
                        Some(src) => CompileStep::CompileSource(src),
                        None => CompileStep::Missing(missing_stage(t, name.as_str())),
                    }
                }
            },
        }
    }
}

/// Law: a forced source is what the manager then holds under its name,
/// and no compiled object of that name is left.
pub proof fn law_force_source<T>(objs: Seq<(Seq<char>, T)>, srcs: Seq<(Seq<char>, Seq<char>)>, n: Seq<char>, s: Seq<char>)
    requires
        unique_keys(objs),
    ensures
        exists|k: int| key_at(put_key(srcs, n, s), n, k) && put_key(srcs, n, s)[k].1 == s,
        forall|k: int| key_at(objs, n, k) ==> key_absent(objs.remove(k), n),
{
    if key_absent(srcs, n) {
        assert(key_at(put_key(srcs, n, s), n, srcs.len() as int));
    } else {
        let j = choose|j: int| 0 <= j < srcs.len() && srcs[j].0 == n;
        assert(key_at(srcs, n, j));
        let k = choose|k: int| key_at(srcs, n, k);
        assert(key_at(put_key(srcs, n, s), n, k));
    }
    assert forall|k: int| key_at(objs, n, k) implies key_absent(objs.remove(k), n) by {
        assert forall|j: int| 0 <= j < objs.remove(k).len() implies (#[trigger] objs.remove(k)[j]).0 != n by {
            let jj = if j < k { j } else { j + 1 };
            assert(objs.remove(k)[j] == objs[jj]);
        }
    }
}

fn word_chars(t: StageType) -> (r: Vec<char>)
    ensures
        r@ == stage_word(t),
{
    let r: Vec<char> = match t {
        StageType::Vertex => vec!['v', 'e', 'r', 't', 'e', 'x'],
        StageType::Geometry => vec!['g', 'e', 'o', 'm', 'e', 't', 'r', 'y'],
        StageType::Fragment => vec!['p', 'i', 'x', 'e', 'l'],
    };
    assert(r@ =~= stage_word(t));
    r
}

/// The GL shader type of a stage.
pub fn stage_type(t: StageType) -> (r: GLenum)
    ensures
        r == stage_gl_type(t),
{
    match t {
        StageType::Vertex => gl::VERTEX_SHADER,
        StageType::Geometry => gl::GEOMETRY_SHADER,
        StageType::Fragment => gl::FRAGMENT_SHADER,
    }
}

/// The name of the program of `vert`, `geom` if any, and `pix`.
pub fn program_name(vert: &str, geom: Option<&str>, pix: &str) -> (r: String)
    ensures
        r@ == program_name_spec(vert@, match geom {
            Some(g) => Some(g@),
            None => None,
        }, pix@),
{
    let mut out: Vec<char> = vec!['v', ':'];
    let v = chars_of(vert);
    append_chars(&mut out, v.as_slice());
    match geom {
        Some(g) => {
            let mid: Vec<char> = vec!['|', 'g', ':'];
            append_chars(&mut out, mid.as_slice());
            let gc = chars_of(g);
            append_chars(&mut out, gc.as_slice());
        },
        None => {},
    }
    let tail: Vec<char> = vec!['|', 'p', ':'];
    append_chars(&mut out, tail.as_slice());
    let pc = chars_of(pix);
    append_chars(&mut out, pc.as_slice());
    string_of(out.as_slice())
}

/// The stages of the program of `vert`, `geom` if any, and `pix`, in the
/// order they are compiled.
pub fn program_stages(vert: &str, geom: Option<&str>, pix: &str) -> (r: Vec<(String, StageType)>)
    ensures
        r@.map_values(|e: (String, StageType)| (e.0@, e.1)) == stages_spec(vert@, match geom {
            Some(g) => Some(g@),
            None => None,
        }, pix@),
{
    let mut r: Vec<(String, StageType)> = Vec::new();
    r.push((string_of(chars_of(vert).as_slice()), StageType::Vertex));
    match geom {
        Some(g) => {
            r.push((string_of(chars_of(g).as_slice()), StageType::Geometry));
        },
        None => {},
    }
    r.push((string_of(chars_of(pix).as_slice()), StageType::Fragment));
    assert(r@.map_values(|e: (String, StageType)| (e.0@, e.1)) =~= stages_spec(vert@, match geom {
        Some(g) => Some(g@),
        None => None,
    }, pix@));
    r
}

/// The message for stage `t` named `name` whose source is not loaded.
pub fn missing_stage(t: StageType, name: &str) -> (r: String)
    ensures
        r@ == missing_message(t, name@),
{
    let mut out: Vec<char> = vec!['N', 'o', ' '];
    let w = word_chars(t);
    append_chars(&mut out, w.as_slice());
    let mid: Vec<char> = vec![' ', 's', 'h', 'a', 'd', 'e', 'r', ' '];
    append_chars(&mut out, mid.as_slice());
    let q = chars_of(debug_quoted(name).as_str());
    append_chars(&mut out, q.as_slice());
    let tail: Vec<char> = vec![' ', 'i', 'n', ' ', 'l', 'o', 'a', 'd', 'e', 'd', ' ', 's', 'o', 'u', 'r', 'c', 'e', 's'];
    append_chars(&mut out, tail.as_slice());
    assert(out@ =~= missing_message(t, name@));
    string_of(out.as_slice())
}

/// The message for stage `t` named `name` whose source failed to compile with `log`.
pub fn failed_stage(t: StageType, name: &str, log: &str) -> (r: String)
    ensures
        r@ == stage_failure(t, name@, log@),
{
    let mut out: Vec<char> = vec!['E', 'r', 'r', 'o', 'r', ' ', 'c', 'o', 'm', 'p', 'i', 'l', 'i', 'n', 'g', ' '];
    let w = word_chars(t);
    append_chars(&mut out, w.as_slice());
    let mid: Vec<char> = vec![' ', 's', 'h', 'a', 'd', 'e', 'r', ' '];
    append_chars(&mut out, mid.as_slice());
    let q = chars_of(debug_quoted(name).as_str());
    append_chars(&mut out, q.as_slice());
    out.push('\n');
    let l = chars_of(log);
    append_chars(&mut out, l.as_slice());
    assert(out@ =~= stage_failure(t, name@, log@));
    string_of(out.as_slice())
}

/// The message for program `name`, GL object `obj`, that failed to link with `log`.
pub fn failed_link(name: &str, obj: u32, log: &str) -> (r: String)
    ensures
        r@ == link_failure(name@, obj, log@),
{
    let mut out: Vec<char> = vec!['E', 'r', 'r', 'o', 'r', ' ', 'l', 'i', 'n', 'k', 'i', 'n', 'g', ' ', 'p', 'r', 'o', 'g', 'r', 'a', 'm', ' '];
    let q = chars_of(debug_quoted(name).as_str());
    append_chars(&mut out, q.as_slice());
    out.push(',');
    out.push(' ');
    push_u32_digits(&mut out, obj);
    out.push('\n');
    let l = chars_of(log);
    append_chars(&mut out, l.as_slice());
    assert(out@ =~= link_failure(name@, obj, log@));
    string_of(out.as_slice())
}

} // verus!

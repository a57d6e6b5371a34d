//! Uniforms of shader programs: names hashed at compile time, a cache of
//! uniform locations, and caches of the texture unit or buffer location that
//! each sampler or block was last set to.
use vstd::prelude::*;
use std::collections::HashMap;
use vstd::string::StringSliceAdditionalSpecFns;

verus! {

broadcast use vstd::std_specs::hash::group_hash_axioms;

/// What a uniform argument sets.
#[derive(Clone, Copy, Debug, PartialEq, Eq)]
pub enum ArgsKind {
    Uniform,
    Ubo,
    Ssbo,
}

pub open spec fn fnv_prime() -> u64 {
    16777619
}

/// 32-bit FNV-1 hash of `bytes`: start from the offset basis, and for every
/// byte multiply by the FNV prime (modulo 2^32), then xor the byte in.
pub open spec fn fnv1(bytes: Seq<u8>) -> u32
    decreases bytes.len(),
{
    if bytes.len() == 0 {
        2166136261u32
    } else {
        (((fnv1(bytes.drop_last()) as u64) * fnv_prime()) as u32) ^ (bytes.last() as u32)
    }
}

/// Identifier of a uniform: the FNV-1 hash of its name's UTF-8 bytes, and the name.
pub fn id(s: &str) -> (r: (u32, &str))
    ensures
        r.0 == fnv1(s.spec_bytes()),
        r.1 == s,
{
    let b = s.as_bytes();
    let mut h: u32 = 2166136261;
    let mut i: usize = 0;
    while i < b.len()
        invariant
            i <= b@.len(),
            b@ == s.spec_bytes(),
            h == fnv1(b@.subrange(0, i as int)),
        decreases b@.len() - i,
    {
        assert(b@.subrange(0, i + 1).drop_last() =~= b@.subrange(0, i as int));
        let m = ((h as u64) * 16777619u64) as u32;
        h = m ^ (b[i] as u32);
        i = i + 1;
    }
    assert(b@.subrange(0, b@.len() as int) =~= b@);
    (h, s)
}

/// `m1` and `r` after looking up `id` in cache `m0`: the cached location, or
/// else `r`, which is then cached.
pub open spec fn addr_post(m0: Map<u32, i32>, id: u32, r: i32, m1: Map<u32, i32>) -> bool {
    &&& m0.contains_key(id) ==> r == m0[id] && m1 == m0
    &&& !m0.contains_key(id) ==> m1 == m0.insert(id, r)
}

/// The cached location of the uniform with identifier `id`, if any; the
/// lookup is needed only on `None`.
pub fn cached_addr(u: &HashMap<u32, i32>, id: u32) -> (r: Option<i32>)
    ensures
        r == (if u@.contains_key(id) { Some(u@[id]) } else { None::<i32> }),
{
    match u.get(&id) {
        Some(a) => Some(*a),
        None => None,
    }
}

/// Location of the uniform `name` with identifier `id` in a program: the
/// cached one, or else the one that `addr` looks up, which is then cached.
pub fn get_addr<F: Fn(&str) -> i32>(u: &mut HashMap<u32, i32>, id: u32, name: &str, addr: F) -> (r: i32)
    requires
        id == fnv1(name.spec_bytes()),
        call_requires(addr, (name,)),
    ensures
        addr_post(old(u)@, id, r, final(u)@),
        !old(u)@.contains_key(id) ==> call_ensures(addr, (name,), r),
{
    match cached_addr(u, id) {
        Some(a) => a,
        None => {
            let a = addr(name);
            u.insert(id, a);
            a
        },
    }
}

/// Law: a second lookup of the same uniform comes from the cache and
/// changes nothing.
pub proof fn law_addr_cached(m0: Map<u32, i32>, m1: Map<u32, i32>, id: u32, r1: i32, m2: Map<u32, i32>, r2: i32)
    requires
        addr_post(m0, id, r1, m1),
        addr_post(m1, id, r2, m2),
    ensures
        r2 == r1,
        m2 == m1,
{
}

/// What a texture sampler or uniform block of a program was last set to.
#[derive(Clone, Copy, Debug, PartialEq, Eq)]
pub enum CachedBinding {
    TexUnit(i32),
    UboLoc(i32),
}

/// `c1` and `call` after setting cache `c0` to binding `b`.
pub open spec fn cache_post(c0: Option<CachedBinding>, b: CachedBinding, c1: Option<CachedBinding>, call: bool) -> bool {
    &&& c1 == Some(b)
    &&& call == (c0 != Some(b))
}

/// Sets a sampler uniform to texture unit `unit`; returns whether the GL call
/// has to be made, that is whether the cache held another unit or none.
pub fn apply_tex_unit(cached: &mut Option<CachedBinding>, unit: i32) -> (call: bool)
    ensures
        cache_post(*old(cached), CachedBinding::TexUnit(unit), *final(cached), call),
{
    match cached {
        Some(CachedBinding::TexUnit(u)) => {
            if *u != unit {
                *u = unit;
                true
            } else {
                false
            }
        },
        _ => {
            *cached = Some(CachedBinding::TexUnit(unit));
            true
        },
    }
}

/// Binds a uniform block to buffer location `loc`; returns whether the GL
/// call has to be made, that is whether the cache held another location or none.
pub fn apply_ubo_loc(cached: &mut Option<CachedBinding>, loc: i32) -> (call: bool)
    ensures
        cache_post(*old(cached), CachedBinding::UboLoc(loc), *final(cached), call),
{
    match cached {
        Some(CachedBinding::UboLoc(l)) => {
            if *l != loc {
                *l = loc;
                true
            } else {
                false
            }
        },
        _ => {
            *cached = Some(CachedBinding::UboLoc(loc));
            true
        },
    }
}

/// Law: setting a sampler or block to the same binding twice makes one GL
/// call at most.
pub proof fn law_binding_once(c0: Option<CachedBinding>, b: CachedBinding, c1: Option<CachedBinding>, call1: bool, c2: Option<CachedBinding>, call2: bool)
    requires
        cache_post(c0, b, c1, call1),
        cache_post(c1, b, c2, call2),
    ensures
        !call2,
        c2 == c1,
{
}

/// The unit a sampler uniform was last set to, or -1 when it was never set.
pub open spec fn cached_unit(m: Map<i32, i32>, name: i32) -> i32 {
    if m.contains_key(name) {
        m[name]
    } else {
        -1i32
    }
}

/// A live binding of a texture to unit `u`.
#[derive(Clone, Copy, Debug, PartialEq, Eq)]
pub struct TextureBinding {
    pub u: u32,
}

impl TextureBinding {
    /// Sets sampler uniform `name` to the bound unit through the cache
    /// `tex_cache`; returns whether the GL call has to be made.
    pub fn get(&self, name: i32, tex_cache: &mut HashMap<i32, i32>) -> (call: bool)
        requires
            self.u <= i32::MAX,
        ensures
            call == (cached_unit(old(tex_cache)@, name) != self.u),
            final(tex_cache)@ == old(tex_cache)@.insert(name, self.u as i32),
    {
        let u = self.u as i32;
        let cur: i32 = match tex_cache.get(&name) {
            Some(v) => *v,
            None => -1,
        };
        tex_cache.insert(name, u);
        cur != u
    }
}

/// Uniform blocks share the location cache with uniforms: block `index` is
/// kept as the location `-2 - index`, below the -1 of a missing uniform.
pub fn encode_block(index: u32) -> (r: i32)
    requires
        index < i32::MAX,
    ensures
        r == -2 - index,
        r <= -2,
{
    -2 - (index as i32)
}

/// The block index kept as location `addr`.
pub fn decode_block(addr: i32) -> (r: u32)
    requires
        addr <= -2,
    ensures
        r == -2 - addr,
{
    (-2i64 - addr as i64) as u32
}

/// The location kept for uniform block `index` as GL reports it: -1 for
/// `GL_INVALID_INDEX` (no such block), else the block's encoding.
pub fn block_addr(index: u32) -> (r: i32)
    requires
        index == u32::MAX || index < i32::MAX,
    ensures
        r == (if index == u32::MAX { -1 } else { -2 - index }),
{
    if index == u32::MAX {
        -1
    } else {
        encode_block(index)
    }
}

/// Law: decoding the location of an encoded block gives back the block.
pub proof fn law_block_roundtrip(index: u32)
    requires
        index < i32::MAX,
    ensures
        -2 - (-2 - index) == index,
        -2 - index <= -2,
{
}

} // verus!

use glkit::buffer::{get_mapping_args, ArrObj, ShdArrBinding, ShdArrObj};
use glkit::glenum;
use glkit::policy::{Attribute, ShdStorage, Uniform};
use glkit::tex_state::{self, Unit, UnitBind};
use glkit::uniform::{apply_tex_unit, apply_ubo_loc, block_addr, cached_addr, decode_block, encode_block, get_addr, id, CachedBinding, TextureBinding};
use glkit::sampler::{pool_step, same_params, PoolStep};
use glkit::uniform_state::{Loc, LocBind, LocSet, UniformState};
use glkit::vao::{draw_offset, Vao};
use std::collections::HashMap;

fn unit(tex: u32, samp: u32, bind_count: u32) -> Unit {
    Unit { tex, samp, bind_count }
}

#[test]
fn unit_table_size_is_the_smaller_limit() {
    let t = tex_state::bound_units(16, 32);
    assert_eq!(t.len, 16);
    assert_eq!(t.used, 0);
    assert_eq!(t.units.len(), 16);
    assert!(t.units.iter().all(|u| *u == unit(0, 0, 0)));
    assert_eq!(tex_state::bound_units(48, 8).len, 8);
}

#[test]
fn bind_takes_fresh_units_and_reuses_held_pairs() {
    let mut t = tex_state::bound_units(16, 16);
    let b = tex_state::Bind(&mut t, 5, 7, 0);
    assert_eq!(b, UnitBind { unit: 0, set_tex: true, set_samp: true });
    assert_eq!(t.used, 1);
    let b = tex_state::Bind(&mut t, 5, 7, 0);
    assert_eq!(b, UnitBind { unit: 0, set_tex: false, set_samp: false });
    assert_eq!(t.units[0], unit(5, 7, 2));
    let b = tex_state::Bind(&mut t, 6, 7, 0);
    assert_eq!(b, UnitBind { unit: 1, set_tex: true, set_samp: true });
    assert_eq!(t.used, 2);
    let b = tex_state::Bind(&mut t, 5, 7, 3);
    assert_eq!(b, UnitBind { unit: 0, set_tex: false, set_samp: false });
    assert_eq!(t.units[0], unit(5, 7, 3));
}

#[test]
fn bind_unbind_restores_count() {
    let mut t = tex_state::bound_units(4, 4);
    let b = tex_state::Bind(&mut t, 5, 7, 0);
    tex_state::Clone(&mut t, b.unit);
    assert_eq!(t.units[0].bind_count, 2);
    tex_state::Unbind(&mut t, b.unit);
    tex_state::Unbind(&mut t, b.unit);
    assert_eq!(t.units[0], unit(5, 7, 0));
}

#[test]
fn bind_reuses_empty_or_unsampled_unit() {
    let mut t = tex_state::bound_units(4, 4);
    tex_state::BindAny(&mut t, 9, 0);
    assert_eq!(t.units[0], unit(9, 0, 1));
    tex_state::Unbind(&mut t, 0);
    let b = tex_state::Bind(&mut t, 9, 3, 2);
    assert_eq!(b, UnitBind { unit: 0, set_tex: false, set_samp: true });
    assert_eq!(t.units[0], unit(9, 3, 1));
    assert_eq!(t.used, 1);
}

#[test]
fn bind_collects_when_units_run_out() {
    let mut t = tex_state::bound_units(2, 2);
    tex_state::Bind(&mut t, 1, 1, 0);
    tex_state::Bind(&mut t, 2, 1, 0);
    assert_eq!(t.used, 2);
    tex_state::Unbind(&mut t, 0);
    let b = tex_state::Bind(&mut t, 3, 1, 0);
    assert_eq!(b, UnitBind { unit: 0, set_tex: true, set_samp: false });
    assert_eq!(t.units[0], unit(3, 1, 1));
    assert_eq!(t.units[1], unit(2, 1, 1));
    assert_eq!(t.used, 1);
}

#[test]
fn garbage_collect_frees_unused_units() {
    let mut t = tex_state::bound_units(3, 3);
    tex_state::Bind(&mut t, 1, 1, 0);
    tex_state::Bind(&mut t, 2, 1, 0);
    tex_state::Bind(&mut t, 3, 1, 0);
    tex_state::Unbind(&mut t, 1);
    let e = tex_state::garbage_collect(&mut t);
    assert_eq!(e, 1);
    assert_eq!(t.units[1], unit(0, 1, 0));
    assert_eq!(t.units[0], unit(1, 1, 1));
    assert_eq!(t.used, 2);
}

#[test]
fn bind_any_ignores_samplers() {
    let mut t = tex_state::bound_units(4, 4);
    tex_state::Bind(&mut t, 5, 7, 0);
    let b = tex_state::BindAny(&mut t, 5, 2);
    assert_eq!(b, UnitBind { unit: 0, set_tex: false, set_samp: false });
    assert_eq!(t.units[0], unit(5, 7, 2));
    let b = tex_state::BindAny(&mut t, 6, 0);
    assert_eq!(b, UnitBind { unit: 1, set_tex: true, set_samp: false });
}

#[test]
fn dropping_texture_and_sampler() {
    let mut t = tex_state::bound_units(4, 4);
    tex_state::Bind(&mut t, 5, 7, 0);
    tex_state::Bind(&mut t, 6, 7, 0);
    tex_state::Unbind(&mut t, 1);
    tex_state::drop_tex(&mut t, 6);
    assert_eq!(t.units[1], unit(0, 7, 0));
    // The used prefix shrinks past every unit that holds no texture, starting
    // at the unit just emptied.
    assert_eq!(t.used, 0);
    tex_state::drop_samp(&mut t, 7);
    assert_eq!(t.units[0], unit(5, 0, 1));
    assert_eq!(t.units[1], unit(0, 0, 0));
}

#[test]
fn locations_bind_and_reuse() {
    let mut s = UniformState::bound_locs(8);
    assert_eq!(s.len, 8);
    assert_eq!(s.Bind(3, 0), LocBind { loc: 0, call: true });
    assert_eq!(s.Bind(3, 0), LocBind { loc: 0, call: false });
    assert_eq!(s.Bind(4, 0), LocBind { loc: 1, call: true });
    assert_eq!(s.Bind(3, 5), LocBind { loc: 0, call: false });
    assert_eq!(s.locs[0], Loc { buf: 3, bind_count: 3 });
    s.Unbind(0);
    assert_eq!(s.locs[0].bind_count, 2);
}

#[test]
fn fixed_locations() {
    let mut s = UniformState::bound_locs(4);
    assert_eq!(s.BindLocation(5, 2), LocSet { ok: true, call: true });
    assert_eq!(s.BindLocation(6, 2), LocSet { ok: false, call: false });
    assert_eq!(s.BindLocation(5, 100), LocSet { ok: false, call: false });
    assert_eq!(s.BindLocation(5, 2), LocSet { ok: true, call: false });
    assert_eq!(s.locs[2], Loc { buf: 5, bind_count: 2 });
}

#[test]
fn locations_collect_and_drop() {
    let mut s = UniformState::bound_locs(2);
    s.Bind(1, 0);
    s.Bind(2, 0);
    s.Unbind(0);
    assert_eq!(s.Bind(3, 0), LocBind { loc: 0, call: true });
    assert_eq!(s.locs[0], Loc { buf: 3, bind_count: 1 });
    s.Unbind(1);
    s.drop(2);
    assert_eq!(s.locs[1], Loc { buf: 0, bind_count: 0 });
}

#[test]
fn buffer_byte_ranges() {
    let o: ArrObj<Attribute, u32> = ArrObj::new_empty(3, 10);
    assert_eq!(o.size(), 40);
    assert_eq!(o.Update(4, 2), (8, 16));
    assert_eq!(get_mapping_args(&o, 1, 3, 5), (4, 8, 5));
    assert_eq!(get_mapping_args(&o, 2, usize::MAX, 0), (8, 32, 0));
    assert_eq!(o.MapRead(0, usize::MAX, 0), (0, 40, glenum::MAP_READ_BIT));
    let mut m: ArrObj<Attribute, u16> = ArrObj::new_empty(4, 6);
    assert_eq!(m.MapMut(1, 2, 0), (2, 2, glenum::MAP_WRITE_BIT));
}

#[test]
fn shader_buffers_bind() {
    let a: ArrObj<Uniform, u64> = ArrObj::new_empty(11, 4);
    let (mut u, fits) = ShdArrObj::from(a, 32);
    assert!(fits);
    let mut st = UniformState::bound_locs(4);
    let (b, call) = u.Bind(&mut st);
    assert_eq!(b.l, 0);
    assert!(call);
    assert_eq!(u.loc, 0);
    let big: ArrObj<Uniform, u64> = ArrObj::new_empty(12, 5);
    let (_, fits) = ShdArrObj::from(big, 32);
    assert!(!fits);
    let s: ArrObj<ShdStorage, u32> = ArrObj::new_empty(13, 4);
    let (s, _) = ShdArrObj::from(s, 1024);
    let mut sst = UniformState::bound_locs(4);
    let (b, call) = s.Bind(&mut sst, 3);
    assert_eq!(b.map(|b| b.l), Some(3));
    assert!(call);
    let (b, _, call) = ShdArrBinding::<Uniform>::new(&u, &mut st, 0);
    assert_eq!(b.l, 0);
    assert!(!call);
}

#[test]
fn vertex_array_slots() {
    let mut v: Vao<u16> = Vao::new(4);
    assert_eq!(v.obj(), 4);
    let f = v.AttribFmt::<u16>(2, 3, 2, false, 8, 4);
    assert_eq!(f.offset_bytes, 8);
    assert_eq!(f.typ, glenum::UNSIGNED_SHORT);
    assert_eq!((f.vao, f.buf, f.idx, f.size, f.stride), (4, 2, 3, 2, 8));
    assert_eq!(v.attrs, vec![u32::MAX, u32::MAX, u32::MAX, 2]);
    v.AttribFmt::<i8>(5, 0, 4, true, 0, 0);
    assert_eq!(v.attrs, vec![5, u32::MAX, u32::MAX, 2]);
    v.BindIdxs(9);
    assert_eq!(v.idxs, Some(9));
    v.forget_buffer(2);
    assert_eq!(v.attrs, vec![5, u32::MAX, u32::MAX, 0]);
    assert_eq!(draw_offset::<u16>(5), 10);
    assert_eq!(draw_offset::<u32>(3), 12);
    assert_eq!(draw_offset::<u8>(7), 7);
}

#[test]
fn uniform_ids_are_fnv1() {
    assert_eq!(id(""), (2166136261, ""));
    assert_eq!(id("a").0, 84696446);
    assert_eq!(id("tex").0, 913095684);
    assert_eq!(id("u_color"), (1552383238, "u_color"));
}

#[test]
fn uniform_location_is_cached() {
    let mut m: HashMap<u32, i32> = HashMap::new();
    let (i, n) = id("u_color");
    assert_eq!(get_addr(&mut m, i, n, |_| 7), 7);
    assert_eq!(get_addr(&mut m, i, n, |_| 9), 7);
    assert_eq!(m.len(), 1);
    let (j, k) = id("tex");
    assert_eq!(get_addr(&mut m, j, k, |_| -1), -1);
    assert_eq!(m.get(&j), Some(&-1));
}

#[test]
fn cached_bindings_skip_repeats() {
    let mut c = None;
    assert!(apply_tex_unit(&mut c, 3));
    assert!(!apply_tex_unit(&mut c, 3));
    assert!(apply_tex_unit(&mut c, 4));
    assert_eq!(c, Some(CachedBinding::TexUnit(4)));
    assert!(apply_ubo_loc(&mut c, 4));
    assert!(!apply_ubo_loc(&mut c, 4));
    assert_eq!(c, Some(CachedBinding::UboLoc(4)));
}

#[test]
fn block_locations_round_trip() {
    assert_eq!(encode_block(0), -2);
    assert_eq!(encode_block(5), -7);
    assert_eq!(decode_block(-7), 5);
    assert_eq!(decode_block(encode_block(123456)), 123456);
}

#[test]
fn block_addresses() {
    assert_eq!(block_addr(u32::MAX), -1);
    assert_eq!(block_addr(0), -2);
    assert_eq!(block_addr(3), -5);
    assert_eq!(decode_block(block_addr(9)), 9);
}

#[test]
fn sampler_uniform_cache() {
    let mut cache: HashMap<i32, i32> = HashMap::new();
    let b = TextureBinding { u: 2 };
    assert!(b.get(5, &mut cache));
    assert!(!b.get(5, &mut cache));
    assert!(TextureBinding { u: 3 }.get(5, &mut cache));
    assert_eq!(cache.get(&5), Some(&3));
    assert!(b.get(6, &mut cache));
    assert_eq!(cache.len(), 2);
}

#[test]
fn location_bind_then_unbind_restores_counts() {
    let mut s = UniformState::bound_locs(3);
    s.Bind(7, 0);
    let before: Vec<u32> = s.locs.iter().map(|l| l.bind_count).collect();
    let b = s.Bind(8, 0);
    s.Unbind(b.loc);
    let after: Vec<u32> = s.locs.iter().map(|l| l.bind_count).collect();
    assert_eq!(before, after);
    assert_eq!(s.locs[b.loc as usize].buf, 8);
}

#[test]
fn bind_target_names_the_raised_location() {
    let mut s = UniformState::bound_locs(4);
    s.Bind(7, 0);
    s.Bind(8, 0);
    assert_eq!(s.bind_target(8, 0), 1);
    assert_eq!(s.bind_target(7, 3), 0);
    assert_eq!(s.bind_target(9, 0), 2);
    let b = s.Bind(9, 0);
    assert_eq!(b.loc, s.bind_target(9, 3));
}

#[test]
fn full_count_elsewhere_does_not_stop_bind_unbind() {
    let mut s = UniformState {
        used: 2,
        len: 3,
        locs: vec![Loc { buf: 5, bind_count: u32::MAX }, Loc { buf: 0, bind_count: 0 }, Loc { buf: 0, bind_count: 0 }],
    };
    assert_eq!(s.bind_target(6, 0), 1);
    let before: Vec<u32> = s.locs.iter().map(|l| l.bind_count).collect();
    let b = s.Bind(6, 0);
    assert_eq!(b, LocBind { loc: 1, call: true });
    s.Unbind(b.loc);
    let after: Vec<u32> = s.locs.iter().map(|l| l.bind_count).collect();
    assert_eq!(before, after);
    assert_eq!(s.locs[1].buf, 6);
}

#[test]
fn cached_addr_only_after_lookup() {
    let mut m: HashMap<u32, i32> = HashMap::new();
    let (i, n) = id("color");
    assert_eq!(cached_addr(&m, i), None);
    get_addr(&mut m, i, n, |_| 4);
    assert_eq!(cached_addr(&m, i), Some(4));
}

#[test]
fn sampler_pool_decisions() {
    let a = vec![(10241, 9729), (10242, 33071)];
    let b = vec![(10241, 9728)];
    assert!(same_params(&a, &a.clone()));
    assert!(!same_params(&a, &b));
    assert!(!same_params(&a, &vec![(10241, 9729), (10242, 33072)]));
    assert_eq!(pool_step(false, Some(&b), &a), PoolStep::Create);
    assert_eq!(pool_step(true, None, &a), PoolStep::Reuse { record: true });
    assert_eq!(pool_step(true, Some(&a), &a), PoolStep::Reuse { record: false });
    assert_eq!(pool_step(true, Some(&b), &a), PoolStep::Collision);
}

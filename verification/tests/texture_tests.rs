use glkit::format::{formatDepth45to33, get_internal_fmt, internal_fmt, normalize_internal_fmt, TexFmt, TexSize, RED, RG, RGB, RGBA};
use glkit::glenum;
use glkit::tex_state;
use glkit::texture::{Tex, TexBuffBind, TexParam, TexType, TextureBind, GL_TEXTURE_2D, GL_TEXTURE_CUBE_MAP};

#[test]
fn glenum_values_match_gl_registry() {
    assert_eq!(glenum::RED, gl::RED);
    assert_eq!(glenum::RG, gl::RG);
    assert_eq!(glenum::RGB, gl::RGB);
    assert_eq!(glenum::RGBA, gl::RGBA);
    assert_eq!(glenum::BYTE, gl::BYTE);
    assert_eq!(glenum::UNSIGNED_BYTE, gl::UNSIGNED_BYTE);
    assert_eq!(glenum::SHORT, gl::SHORT);
    assert_eq!(glenum::UNSIGNED_SHORT, gl::UNSIGNED_SHORT);
    assert_eq!(glenum::INT, gl::INT);
    assert_eq!(glenum::UNSIGNED_INT, gl::UNSIGNED_INT);
    assert_eq!(glenum::HALF_FLOAT, gl::HALF_FLOAT);
    assert_eq!(glenum::FLOAT, gl::FLOAT);
    assert_eq!(glenum::R8I, gl::R8I);
    assert_eq!(glenum::R16UI, gl::R16UI);
    assert_eq!(glenum::R32F, gl::R32F);
    assert_eq!(glenum::RG16F, gl::RG16F);
    assert_eq!(glenum::RGB32UI, gl::RGB32UI);
    assert_eq!(glenum::RGBA8UI, gl::RGBA8UI);
    assert_eq!(glenum::RGBA16I, gl::RGBA16I);
    assert_eq!(glenum::RGBA32F, gl::RGBA32F);
    assert_eq!(glenum::R8, gl::R8);
    assert_eq!(glenum::RG16, gl::RG16);
    assert_eq!(glenum::RGB8, gl::RGB8);
    assert_eq!(glenum::RGBA16, gl::RGBA16);
    assert_eq!(glenum::TEXTURE_2D, gl::TEXTURE_2D);
    assert_eq!(glenum::TEXTURE_CUBE_MAP_ARRAY, gl::TEXTURE_CUBE_MAP_ARRAY);
    assert_eq!(glenum::ARRAY_BUFFER, gl::ARRAY_BUFFER);
    assert_eq!(glenum::ELEMENT_ARRAY_BUFFER, gl::ELEMENT_ARRAY_BUFFER);
    assert_eq!(glenum::UNIFORM_BUFFER, gl::UNIFORM_BUFFER);
    assert_eq!(glenum::SHADER_STORAGE_BUFFER, gl::SHADER_STORAGE_BUFFER);
    assert_eq!(glenum::MAP_READ_BIT, gl::MAP_READ_BIT);
    assert_eq!(glenum::MAP_WRITE_BIT, gl::MAP_WRITE_BIT);
    assert_eq!(glenum::DEBUG_SEVERITY_HIGH, gl::DEBUG_SEVERITY_HIGH);
    assert_eq!(glenum::DEBUG_SEVERITY_NOTIFICATION, gl::DEBUG_SEVERITY_NOTIFICATION);
    assert_eq!(glenum::DEBUG_SOURCE_API, gl::DEBUG_SOURCE_API);
    assert_eq!(glenum::DEBUG_TYPE_OTHER, gl::DEBUG_TYPE_OTHER);
}

#[test]
fn texel_layouts_and_types() {
    assert_eq!(<RED as TexSize>::TYPE, gl::RED);
    assert_eq!(<RGBA as TexSize>::TYPE, gl::RGBA);
    assert_eq!(<u8 as TexFmt>::TYPE, gl::UNSIGNED_BYTE);
    assert_eq!(<i32 as TexFmt>::TYPE, gl::INT);
    assert_eq!(<GL_TEXTURE_2D as TexType>::TYPE, gl::TEXTURE_2D);
    assert_eq!(<GL_TEXTURE_CUBE_MAP as TexType>::TYPE, gl::TEXTURE_CUBE_MAP);
}

#[test]
fn internal_formats_of_pairs() {
    assert_eq!(internal_fmt(gl::RGBA, gl::UNSIGNED_BYTE), gl::RGBA8UI);
    assert_eq!(internal_fmt(gl::RED, gl::FLOAT), gl::R32F);
    assert_eq!(internal_fmt(gl::RG, gl::HALF_FLOAT), gl::RG16F);
    assert_eq!(internal_fmt(gl::RGB, gl::SHORT), gl::RGB16I);
    assert_eq!(internal_fmt(gl::RGBA, gl::DOUBLE), 0);
    assert_eq!(internal_fmt(gl::TEXTURE_2D, gl::FLOAT), 0);
    assert_eq!(get_internal_fmt::<RGBA, u8>(), gl::RGBA8UI);
    assert_eq!(get_internal_fmt::<RED, i16>(), gl::R16I);
    assert_eq!(get_internal_fmt::<RG, u32>(), gl::RG32UI);
    assert_eq!(get_internal_fmt::<RGB, i8>(), gl::RGB8I);
}

#[test]
fn internal_formats_differ_per_pair() {
    let sizes = [gl::RED, gl::RG, gl::RGB, gl::RGBA];
    let types = [gl::BYTE, gl::UNSIGNED_BYTE, gl::SHORT, gl::UNSIGNED_SHORT, gl::INT, gl::UNSIGNED_INT, gl::HALF_FLOAT, gl::FLOAT];
    let mut seen = Vec::new();
    for s in sizes {
        for t in types {
            let f = internal_fmt(s, t);
            assert!(f != 0);
            assert!(!seen.contains(&f));
            seen.push(f);
        }
    }
}

#[test]
fn normalized_formats() {
    assert_eq!(normalize_internal_fmt(gl::RGBA8UI), gl::RGBA8);
    assert_eq!(normalize_internal_fmt(gl::RGBA8I), gl::RGBA8);
    assert_eq!(normalize_internal_fmt(gl::R16I), gl::R16);
    assert_eq!(normalize_internal_fmt(gl::RG16UI), gl::RG16);
    assert_eq!(normalize_internal_fmt(gl::RGB8UI), gl::RGB8);
    assert_eq!(normalize_internal_fmt(gl::R32F), gl::R32F);
    assert_eq!(normalize_internal_fmt(gl::RGBA32UI), gl::RGBA32UI);
    let once = normalize_internal_fmt(gl::RG8I);
    assert_eq!(normalize_internal_fmt(once), once);
}

#[test]
fn mip_chain_of_rectangle() {
    let p = TexParam { w: 256, h: 128, d: 1, l: 1 }.gen_mips();
    assert_eq!(p.l, 9);
    assert_eq!(p.dim(0), (256, 128, 1));
    assert_eq!(p.dim(3), (32, 16, 1));
    assert_eq!(p.size(3), 512);
    assert_eq!(p.dim(8), (1, 1, 1));
    assert_eq!(p.size(8), 1);
}

#[test]
fn mip_chain_of_odd_sizes() {
    let p = TexParam { w: 5, h: 3, d: 1, l: 1 };
    assert_eq!(p.mips_max(), 3);
    assert_eq!(p.dim_unchecked(1), (2, 1, 1));
    assert_eq!(p.dim_unchecked(2), (1, 1, 1));
    assert_eq!(TexParam { w: 300, h: 5, d: 1, l: 1 }.mips_max(), 9);
    assert_eq!(TexParam { w: 1, h: 1, d: 1, l: 1 }.mips_max(), 1);
    assert_eq!(TexParam { w: 4, h: 4, d: 64, l: 1 }.mips_max(), 7);
}

#[test]
fn levels_past_the_chain_stay_at_one() {
    let p = TexParam { w: 256, h: 128, d: 1, l: 1 };
    assert_eq!(p.dim_unchecked(10), (1, 1, 1));
    assert_eq!(p.dim_unchecked(31), (1, 1, 1));
}

#[test]
fn size_of_volume_level() {
    let p = TexParam { w: 8, h: 8, d: 8, l: 4 };
    assert_eq!(p.size(0), 512);
    assert_eq!(p.size(1), 64);
    assert_eq!(p.size(2), 8);
    assert_eq!(p.size(3), 1);
}

#[test]
fn validate_keeps_parameters() {
    let p = TexParam { w: 64, h: 32, d: 1, l: 3 };
    assert_eq!(p.validate(), p);
}

#[test]
fn texture_read_back_sizes() {
    let t: Tex<RGBA, u8, GL_TEXTURE_2D> = Tex::new(5, TexParam { w: 8, h: 4, d: 1, l: 3 });
    assert_eq!(t.Save::<RGBA, u8>(0), (128, 128));
    assert_eq!(t.Save::<RED, u32>(1), (8, 32));
    assert_eq!(t.Save::<RG, i16>(2), (4, 8));
}

#[test]
fn texture_keeps_its_unit() {
    let mut units = tex_state::bound_units(4, 4);
    let mut a: Tex<RGBA, u8, GL_TEXTURE_2D> = Tex::new(5, TexParam { w: 2, h: 2, d: 1, l: 1 });
    let mut b: Tex<RGBA, u8, GL_TEXTURE_2D> = Tex::new(6, TexParam { w: 2, h: 2, d: 1, l: 1 });
    assert_eq!(a.Bind(&mut units, 9).unit, 0);
    assert_eq!(b.Bind(&mut units, 9).unit, 1);
    assert_eq!(b.unit, 1);
    let again = b.Bind(&mut units, 9);
    assert_eq!((again.unit, again.set_tex, again.set_samp), (1, false, false));
    assert_eq!(units.units[1].bind_count, 2);
}

#[test]
fn depth_formats_for_older_storage() {
    assert_eq!(formatDepth45to33(gl::DEPTH_COMPONENT32F), gl::DEPTH_COMPONENT as i32);
    assert_eq!(formatDepth45to33(gl::DEPTH_COMPONENT24), gl::DEPTH_COMPONENT as i32);
    assert_eq!(formatDepth45to33(gl::DEPTH_COMPONENT16), gl::DEPTH_COMPONENT as i32);
    assert_eq!(formatDepth45to33(gl::RGBA8), gl::RGBA8 as i32);
}

#[test]
fn texture_bindings() {
    let mut cached = None;
    assert!(TextureBind { u: 2 }.apply(&mut cached));
    assert!(!TextureBind { u: 2 }.apply(&mut cached));
    let mut units = tex_state::bound_units(4, 4);
    let (b, ub) = TexBuffBind::new(&mut units, 11, 0);
    assert_eq!((b.u, ub.set_tex, ub.set_samp), (0, true, false));
    let (b2, ub2) = TexBuffBind::new(&mut units, 11, 3);
    assert_eq!((b2.u, ub2.set_tex), (0, false));
    assert_eq!(units.units[0].bind_count, 2);
}

#[test]
fn trait_values_through_functions() {
    assert_eq!(<RGBA as TexSize>::gl_type(), gl::RGBA);
    assert_eq!(<RG as TexSize>::channels(), 2);
    assert_eq!(<u16 as TexFmt>::gl_type(), gl::UNSIGNED_SHORT);
    assert_eq!(<GL_TEXTURE_CUBE_MAP as TexType>::gl_target(), gl::TEXTURE_CUBE_MAP);
    assert_eq!(<i8 as glkit::buffer::AttrType>::gl_type(), gl::BYTE);
    assert_eq!(get_internal_fmt::<RGBA, u32>(), gl::RGBA32UI);
    assert_eq!(get_internal_fmt::<RGB, i16>(), gl::RGB16I);
}

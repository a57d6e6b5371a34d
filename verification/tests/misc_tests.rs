use glkit::debug::{debug_labels, level_filter, DebugLevel};
use glkit::funcs::{Switch, SwitchCall};
use glkit::glenum;
use glkit::Screen::{screen_xyuv, ScreenDraw};
use glkit::Skybox;
use glkit::mesh::sphere_indices;

#[test]
fn level_filter_values() {
    assert_eq!(level_filter(DebugLevel::High), 0);
    assert_eq!(level_filter(DebugLevel::Medium), 1);
    assert_eq!(level_filter(DebugLevel::Low), 2);
    assert_eq!(level_filter(DebugLevel::All), 3);
}

#[test]
fn high_severity_is_always_labelled() {
    for f in 0..4 {
        let l = debug_labels(glenum::DEBUG_SOURCE_API, glenum::DEBUG_TYPE_ERROR, glenum::DEBUG_SEVERITY_HIGH, f).unwrap();
        assert_eq!((l.severity.as_str(), l.source.as_str(), l.kind.as_str()), ("HIG", "SOURCE_API", "TYPE_ERROR"));
    }
}

#[test]
fn lower_severities_follow_the_filter() {
    let src = glenum::DEBUG_SOURCE_SHADER_COMPILER;
    let typ = glenum::DEBUG_TYPE_PERFORMANCE;
    assert_eq!(debug_labels(src, typ, glenum::DEBUG_SEVERITY_MEDIUM, 0).unwrap().severity, "MED");
    assert!(debug_labels(src, typ, glenum::DEBUG_SEVERITY_MEDIUM, 1).is_none());
    assert_eq!(debug_labels(src, typ, glenum::DEBUG_SEVERITY_LOW, 1).unwrap().severity, "LOW");
    assert!(debug_labels(src, typ, glenum::DEBUG_SEVERITY_LOW, 2).is_none());
    let tip = debug_labels(src, typ, glenum::DEBUG_SEVERITY_NOTIFICATION, 2).unwrap();
    assert_eq!((tip.severity.as_str(), tip.source.as_str(), tip.kind.as_str()), ("TIP", "SOURCE_SHADER_COMPILER", "TYPE_PERFORMANCE"));
    assert!(debug_labels(src, typ, glenum::DEBUG_SEVERITY_NOTIFICATION, 3).is_none());
}

#[test]
fn unknown_values_are_numbered() {
    let l = debug_labels(7, 12345, 4000000000, 3).unwrap();
    assert_eq!(l.source, "SOURCE_?_7");
    assert_eq!(l.kind, "TYPE_?_12345");
    assert_eq!(l.severity, "SEVERITY_?_4000000000");
    let l = debug_labels(glenum::DEBUG_SOURCE_OTHER, glenum::DEBUG_TYPE_POP_GROUP, 0, 0).unwrap();
    assert_eq!((l.source.as_str(), l.kind.as_str(), l.severity.as_str()), ("SOURCE_OTHER", "TYPE_POP_GROUP", "SEVERITY_?_0"));
}

#[test]
fn screen_triangle_corners() {
    assert_eq!(screen_xyuv(), vec![-1, -1, 0, 0, 3, -1, 2, 0, -1, 3, 0, 2]);
    let v = screen_xyuv();
    for (x, y) in [(-1i32, -1i32), (1, 1), (-1, 1), (1, -1), (0, 0)] {
        assert!(x >= v[0] as i32 && y >= v[1] as i32 && x + y <= 2);
    }
}

#[test]
fn screen_draw_turns_depth_test_off_and_back() {
    let mut d = Switch::new(true);
    let r = glkit::Screen::Draw(&mut d);
    assert_eq!(r, ScreenDraw { disable: SwitchCall::Disable, count: 3, restore: SwitchCall::Enable });
    assert_eq!(d.state & 1, 1);
    assert_eq!(d.depth, 0);
    let mut off = Switch::new(false);
    let r = glkit::Screen::Draw(&mut off);
    assert_eq!(r, ScreenDraw { disable: SwitchCall::Keep, count: 3, restore: SwitchCall::Keep });
    assert_eq!(off.state, 0);
}

#[test]
fn skybox_geometry() {
    let m = Skybox::Draw();
    assert_eq!(m.count, 36);
    assert_eq!(m.idx.len(), 36);
    assert_eq!(m.xyz.len(), 24);
    assert!(m.idx.iter().all(|&i| i < 8));
    assert!(m.xyz.iter().all(|&c| c == 1 || c == -1));
    assert_eq!(&m.idx[..6], &[0, 1, 3, 3, 1, 2]);
}

#[test]
fn sphere_strip_indices() {
    assert_eq!(sphere_indices(1), (vec![0, 2, 1, 3], 4));
    assert_eq!(sphere_indices(2), (vec![0, 3, 1, 4, 2, 5, 3, 6, 4, 7, 5, 8], 12));
    let (idx, n) = sphere_indices(3);
    assert_eq!(n, 24);
    assert_eq!(&idx[16..], &[15, 11, 14, 10, 13, 9, 12, 8]);
    let (big, n) = sphere_indices(180);
    assert_eq!(n as usize, big.len());
    assert!(big.iter().all(|&i| (i as u32) < 181 * 181));
    assert_eq!(sphere_indices(0), (vec![], 0));
}

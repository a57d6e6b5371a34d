use glkit::compiler::{kept_tasks, log_offset, InlineShader, Lookup, Mailbox, ShaderRegistry, ShaderTask, Stage};
use glkit::includes::{collision_probe, header_probe, join_includes, parse_includes, parse_includes_checked, IncludeFile};
use glkit::parsing::{adjust_log, load, log_fits, parse_error_message, parse_shader_results, parse_shader_sources, ShaderKind, ShdParseError, ShdSrc};
use glkit::manager::{CompileStep, failed_link, failed_stage, missing_stage, program_name, program_stages, stage_type, ShaderManager, StageType};
use glkit::shader_obj::ShaderObj;

fn src(r: &Result<ShdSrc, ShdParseError>) -> (String, String) {
    match r {
        Ok(s) => (s.name.clone(), s.src.clone()),
        Err(e) => panic!("unexpected error {e:?}"),
    }
}

fn s(x: &str) -> String {
    x.to_string()
}

const TWO_SHADERS: &str = "//--GLOBAL:\nuniform int x;\n//-- vs_main\nvoid main(){}\n//-- ps_main\nout vec4 c;\nvoid main(){}\n";

#[test]
fn file_with_globals_splits_into_shaders() {
    let r = parse_shader_sources("f.glsl", TWO_SHADERS);
    assert_eq!(r.len(), 2);
    assert_eq!(src(&r[0]), (s("vs_main"), s("uniform int x;\n\nvoid main(){}\n")));
    assert_eq!(src(&r[1]), (s("ps_main"), s("uniform int x;\n\n\n\nout vec4 c;\nvoid main(){}\n")));
}

#[test]
fn lines_before_globals_are_counted() {
    let r = parse_shader_sources("f.glsl", "a\nb\n//--GLOBAL:\ng\n//-- vs_x\nx\n");
    assert_eq!(r.len(), 1);
    assert_eq!(src(&r[0]), (s("vs_x"), s("g\n\n\n\nx\n")));
}

#[test]
fn file_without_globals() {
    let r = parse_shader_sources("f.glsl", "//-- gs_a\nA\n//-- cs_b--\nB\n");
    assert_eq!(r.len(), 2);
    assert_eq!(src(&r[0]), (s("gs_a"), s("\nA\n")));
    assert_eq!(src(&r[1]), (s("cs_b"), s("\n\n\nB\n")));
}

#[test]
fn names_lose_whitespace() {
    let r = parse_shader_sources("f.glsl", "//-- vs main\nx\n");
    assert_eq!(src(&r[0]).0, "vsmain");
    for piece in parse_shader_sources("f.glsl", "//-- te one\n1\n//-- tc  two\n2\n") {
        let (n, _) = src(&piece);
        assert!(!n.chars().any(char::is_whitespace));
        assert!(n.starts_with("te") || n.starts_with("tc"));
    }
}

#[test]
fn file_without_marker_is_a_layout_error() {
    let r = parse_shader_sources("f.glsl", "void main(){}");
    assert_eq!(r.len(), 1);
    assert_eq!(r[0].as_ref().err(), Some(&ShdParseError::Layout));
}

#[test]
fn unknown_stage_is_a_bad_name() {
    let r = parse_shader_sources("f.glsl", "//-- xx_main\nbody\n//-- vs_b\nbar\n");
    assert_eq!(r.len(), 2);
    assert_eq!(r[0].as_ref().err(), Some(&ShdParseError::BadName { line: 0 }));
    assert_eq!(src(&r[1]), (s("vs_b"), s("\nbar\n")));
}

#[test]
fn shader_without_body_is_an_error() {
    let r = parse_shader_sources("f.glsl", "//-- vs_main");
    assert_eq!(r[0].as_ref().err(), Some(&ShdParseError::EmptyBody { name: s("vs_main"), line: 0 }));
}

#[test]
fn load_separates_sources_and_errors() {
    let (srcs, errs) = load("f.glsl", "//-- vs_a\nA\n//-- zz\nZ\n//-- ps_b\nB\n");
    assert_eq!(srcs.len(), 2);
    assert_eq!((srcs[0].name.as_str(), srcs[0].src.as_str()), ("vs_a", "\nA\n"));
    assert_eq!((srcs[1].name.as_str(), srcs[1].src.as_str()), ("ps_b", "\n\n\nB\n"));
    assert_eq!(errs, vec![ShdParseError::BadName { line: 2 }]);
    let (none, errs) = load("f.glsl", "nothing here");
    assert!(none.is_empty());
    assert_eq!(errs, vec![ShdParseError::Layout]);
}

#[test]
fn log_lines_are_renumbered_and_reversed() {
    let out = adjust_log(s("0:12(5): error: x\n0:3(1): warning"), -2);
    assert_eq!(out, "1(1): warning\n10(5): error: x");
    assert_eq!(adjust_log(s("hello\nworld"), 5), "world\nhello");
    assert_eq!(adjust_log(s("0:7(3): e\r\n"), 1), "8(3): e");
    assert_eq!(adjust_log(s(""), 3), "");
}

#[test]
fn log_offsets_must_fit() {
    assert!(log_fits("0:5(1): e", -5));
    assert!(!log_fits("0:-2147483648(1): e", -1));
    assert!(log_fits("0:-2147483648(1): e", 0));
    assert!(!log_fits("a\n0:2147483647(1): e", 1));
    assert!(log_fits("no numbers", i32::MIN));
}

#[test]
fn shader_stage_from_name() {
    assert_eq!(ShaderObj::kind_for("vs_x"), Ok(ShaderKind::Vertex));
    assert_eq!(ShaderObj::kind_for("ps"), Ok(ShaderKind::Fragment));
    assert_eq!(ShaderObj::kind_for("tex"), Ok(ShaderKind::TessEval));
    assert_eq!(
        ShaderObj::kind_for("zz"),
        Err(s("Shader name \"zz\" should start with vs|ps|gs|cs|tc|te according to type"))
    );
    assert_eq!(ShaderObj::valid("gs_a"), Ok(()));
    assert_eq!(ShaderObj::valid("v"), Err(s("Shader name 'v' should start with vs|ps|gs|cs|tc|te according to type")));
}

#[test]
fn shader_object_words_and_messages() {
    let o = ShaderObj { kind: ShaderKind::Fragment, obj: 3 };
    assert_eq!(o.obj(), 3);
    assert_eq!(o.name(), "pixel");
    assert_eq!(ShaderObj { kind: ShaderKind::TessCtrl, obj: 1 }.name(), "tess. control");
    assert_eq!(
        ShaderObj::failure_message(ShaderKind::Vertex, "vs_a", "bad"),
        "Error compiling vertex shader \"vs_a\"\n\nbad"
    );
    assert_eq!(
        ShaderObj::failure_message(ShaderKind::Compute, "cs\t1", ""),
        "Error compiling compute shader \"cs\\t1\"\n\n"
    );
}

fn header_file(name: &str, text: &str, log: Option<&str>) -> IncludeFile {
    IncludeFile { name: s(name), text: s(text), log: log.map(s) }
}

#[test]
fn header_probes() {
    assert_eq!(header_probe("float f;"), "#version 330 core\nvoid main(){}\nfloat f;");
    assert_eq!(collision_probe("H"), "Hvoid main(){}");
    assert_eq!(join_includes(&vec![]), "#version 330 core\n");
    assert_eq!(join_includes(&vec![header_file("a", "A", None), header_file("b", "B", None)]), "#version 330 core\n\nA\nB");
}

#[test]
fn includes_join_into_header() {
    let files = vec![header_file("a.glsl", "float f;", None)];
    assert_eq!(parse_includes(&files, None), Ok(s("#version 330 core\n\nfloat f;")));
    assert_eq!(parse_includes(&vec![], None), Ok(s("#version 330 core\n")));
}

#[test]
fn failing_include_is_reported() {
    let files = vec![header_file("a.glsl", "A", None), header_file("b.glsl", "B", Some("x\n0:7(3): bad")), header_file("c", "C", Some("y"))];
    assert_eq!(parse_includes(&files, None), Err(s("5(3): bad\nGLSL error in header \"b.glsl\"")));
    let files = vec![header_file("h", "H", Some("0:1(2): error\nmore"))];
    assert_eq!(parse_includes(&files, Some(s("ignored"))), Err(s("more\nGLSL error in header \"h\"")));
}

#[test]
fn colliding_includes_are_reported() {
    let files = vec![header_file("a", "A", None), header_file("b", "B", None)];
    let r = parse_includes(&files, Some(s("x\n0:4(1): redefinition")));
    assert_eq!(r, Err(s("4(1): redefinition\"")));
    assert_eq!(parse_includes(&files, Some(s("no newline"))), Err(s("GLSL headers collision \"\"")));
}

#[test]
fn checked_includes_refuse_overflowing_numbers() {
    let files = vec![header_file("a", "A", Some("x\n0:-2147483648(1): e"))];
    assert_eq!(parse_includes_checked(&files, None), None);
    let ok = vec![header_file("a", "A", None)];
    assert_eq!(parse_includes_checked(&ok, None), Some(Ok(s("#version 330 core\n\nA"))));
}

#[test]
fn registry_keeps_sources_and_objects() {
    let mut r = ShaderRegistry::new();
    assert!(!r.put_source(s("vs_a"), s("A")));
    assert!(r.put_source(s("vs_a"), s("B")));
    assert!(matches!(r.stage(&s("vs_a")), Stage::Source(t, 0) if t == "B"));
    assert!(matches!(r.stage(&s("ps_x")), Stage::Missing));
    r.set_compiled(0, 42);
    assert!(matches!(r.stage(&s("vs_a")), Stage::Compiled(42)));
    r.clean();
    assert!(matches!(r.stage(&s("vs_a")), Stage::Source(t, 0) if t == "B"));
    r.inline_source(s("ps_b"), s("P"));
    assert_eq!(r.find_source(&s("ps_b")), Some(1));
    assert!(!r.absorb(s("ps_b"), s("P")));
    assert!(r.absorb(s("ps_b"), s("Q")));
    assert!(!r.absorb(s("gs_c"), s("G")));
    assert_eq!(r.sources.len(), 3);
    assert_eq!(r.sources[1].src, "Q");
}

#[test]
fn rebuild_reaches_watchers_of_changed_sources() {
    let mut r = ShaderRegistry::new();
    r.put_source(s("vs_a"), s("A"));
    r.put_source(s("ps_b"), s("P"));
    let prog = vec![s("vs_a"), s("ps_b")];
    r.watch(&prog);
    assert_eq!(r.watchers(&s("vs_a")), vec![prog.clone()]);
    assert_eq!(r.watchers(&s("gs_none")), Vec::<Vec<String>>::new());
    let changed = vec![ShdSrc { name: s("vs_a"), src: s("A2") }];
    assert_eq!(r.rebuild(&changed), vec![prog.clone()]);
    assert!(r.rebuild(&changed).is_empty());
    let fresh = vec![ShdSrc { name: s("gs_z"), src: s("Z") }];
    assert!(r.rebuild(&fresh).is_empty());
    let both = vec![ShdSrc { name: s("vs_a"), src: s("A3") }, ShdSrc { name: s("ps_b"), src: s("P3") }];
    assert_eq!(r.rebuild(&both), vec![prog.clone(), prog.clone()]);
}

#[test]
fn forget_after_watch_restores_watchers() {
    let mut r = ShaderRegistry::new();
    let prog = vec![s("vs_a"), s("ps_b")];
    let other = vec![s("vs_a")];
    r.watch(&prog);
    r.watch(&other);
    r.forget(&prog);
    assert_eq!(r.watchers(&s("vs_a")), vec![other.clone()]);
    assert!(r.watchers(&s("ps_b")).is_empty());
    r.forget(&other);
    assert!(r.watchers(&s("vs_a")).is_empty());
}

#[test]
fn repeated_rebuilds_collapse() {
    let tasks: Vec<ShaderTask<()>> = vec![ShaderTask::Rebuild, ShaderTask::Rebuild, ShaderTask::Clean, ShaderTask::Rebuild];
    assert_eq!(kept_tasks(&tasks), vec![false, true, true, true]);
    let tasks: Vec<ShaderTask<()>> = vec![ShaderTask::Rebuild, ShaderTask::Rebuild, ShaderTask::Rebuild];
    assert_eq!(kept_tasks(&tasks), vec![false, false, true]);
    let tasks: Vec<ShaderTask<()>> = vec![ShaderTask::Watch(vec![s("vs_a")]), ShaderTask::Rebuild];
    assert_eq!(kept_tasks(&tasks), vec![true, true]);
    assert_eq!(kept_tasks::<()>(&vec![]), Vec::<bool>::new());
}

#[test]
fn inline_shader_task() {
    let sh = InlineShader("vs_quad", "void main(){}");
    let (task, name): (ShaderTask<()>, String) = sh.task();
    assert_eq!(name, "vs_quad");
    assert!(matches!(task, ShaderTask::Inline((n, src)) if n == "vs_quad" && src == "void main(){}"));
}

#[test]
fn log_offset_counts_header_lines() {
    assert_eq!(log_offset("a\nb\n"), -1);
    assert_eq!(log_offset(""), 1);
    assert_eq!(log_offset("#version 330 core\n\nfloat f;"), -2);
}

#[test]
fn manager_program_names_and_stages() {
    assert_eq!(program_name("vs_a", Some("gs_b"), "ps_c"), "v:vs_a|g:gs_b|p:ps_c");
    assert_eq!(program_name("vs_a", None, "ps_c"), "v:vs_a|p:ps_c");
    assert_eq!(program_stages("v", None, "p"), vec![(s("v"), StageType::Vertex), (s("p"), StageType::Fragment)]);
    assert_eq!(
        program_stages("v", Some("g"), "p"),
        vec![(s("v"), StageType::Vertex), (s("g"), StageType::Geometry), (s("p"), StageType::Fragment)]
    );
    assert_eq!(stage_type(StageType::Fragment), gl::FRAGMENT_SHADER);
    assert_eq!(stage_type(StageType::Geometry), gl::GEOMETRY_SHADER);
    assert_eq!(stage_type(StageType::Vertex), gl::VERTEX_SHADER);
}

#[test]
fn manager_messages() {
    assert_eq!(missing_stage(StageType::Fragment, "ps_x"), "No pixel shader \"ps_x\" in loaded sources");
    assert_eq!(failed_stage(StageType::Geometry, "g", "log"), "Error compiling geometry shader \"g\"\nlog");
    assert_eq!(failed_link("v:a|p:b", 17, "bad"), "Error linking program \"v:a|p:b\", 17\nbad");
}

#[test]
fn manager_sources_and_objects() {
    let mut m = ShaderManager::new();
    m.inline_source(s("vs_a"), s("A"));
    m.inline_source(s("vs_a"), s("A"));
    assert_eq!(m.sources.len(), 1);
    assert_eq!(m.object(&s("vs_a")), None);
    m.set_object(s("vs_a"), 5);
    assert_eq!(m.object(&s("vs_a")), Some(5));
    assert_eq!(m.ForceSource(s("vs_a"), s("B")), Some(5));
    assert_eq!(m.object(&s("vs_a")), None);
    assert_eq!(m.source(&s("vs_a")), Some(s("B")));
    assert_eq!(m.ForceSource(s("ps_b"), s("P")), None);
    m.set_object(s("vs_a"), 6);
    m.set_object(s("ps_b"), 7);
    let file = vec![ShdSrc { name: s("ps_b"), src: s("P2") }, ShdSrc { name: s("gs_c"), src: s("G") }];
    assert_eq!(m.take_file(&file), vec![s("ps_b")]);
    assert_eq!(m.source(&s("ps_b")), Some(s("P2")));
    assert_eq!(m.object(&s("ps_b")), Some(7));
    assert_eq!(m.ClearSources(), vec![6, 7]);
    assert!(m.objects.is_empty());
    assert_eq!(m.sources.len(), 3);
}

#[test]
fn mailbox_keeps_latest_result_until_taken() {
    let mut m = Mailbox::new();
    let a = vec![s("vs_a"), s("ps_b")];
    let b = vec![s("vs_a")];
    assert_eq!(m.take(&a), None);
    m.post(a.clone(), Ok(3));
    m.post(a.clone(), Err(s("bad")));
    m.post(b.clone(), Ok(9));
    assert_eq!(m.take(&a), Some(Err(s("bad"))));
    assert_eq!(m.take(&a), None);
    assert_eq!(m.take(&b), Some(Ok(9)));
    m.post(a.clone(), Ok(4));
    assert_eq!(m.take(&a), Some(Ok(4)));
    assert_eq!(m.entries.len(), 2);
}

const LAYOUT_TAIL: &str = " should be structured as follows:\n\t\t\t//--GLOBAL:\n\t\t\tCode to include in every shader in the file\n\t\t\t//-- (ps|vs|gs|cs)_shader_name\n\t\t\tShader code\n\n\t\t\tDo not include glsl '#version ...' header, it will be generated";

#[test]
fn parse_error_messages() {
    let layout = parse_error_message("a.glsl", &ShdParseError::Layout);
    assert_eq!(layout, format!("\n\t\t\tShader file \"a.glsl\"{LAYOUT_TAIL}"));
    assert_eq!(parse_error_message("f", &ShdParseError::BadName { line: 12 }), "Cannot parse shader at \"f\":12");
    assert_eq!(
        parse_error_message("f", &ShdParseError::EmptyBody { name: s("vs_a"), line: 0 }),
        "Cannot parse shader \"vs_a\" in \"f\":0"
    );
}

#[test]
fn parse_results_carry_messages() {
    let r = parse_shader_results("a.glsl", "void main(){}\n");
    assert_eq!(r.len(), 1);
    let e = r[0].as_ref().err().unwrap();
    assert!(e.contains("should be structured as follows") && e.contains("\"a.glsl\""));
    let r = parse_shader_results("f", "//-- xx_a\nvoid a(){}\n//-- vs_b\nvoid b(){}\n");
    assert_eq!(r.len(), 2);
    assert_eq!(r[0].as_ref().err().unwrap(), "Cannot parse shader at \"f\":0");
    let b = r[1].as_ref().unwrap();
    assert_eq!(b.name, "vs_b");
    assert!(b.src.ends_with("void b(){}\n") && !b.src.contains("void a"));
    let r = parse_shader_results("f", "//-- vs_a");
    assert_eq!(r[0].as_ref().err().unwrap(), "Cannot parse shader \"vs_a\" in \"f\":0");
}

#[test]
fn registry_lookup_steps() {
    let mut r = ShaderRegistry::new();
    let a = s("vs_a");
    assert!(matches!(r.lookup_step(&a, false, false), Lookup::TakeFiles));
    assert!(matches!(r.lookup_step(&a, true, false), Lookup::Missing(m) if m == "No shader \"vs_a\" in loaded sources"));
    let replaced = r.load_files(&vec![ShdSrc { name: s("vs_a"), src: s("A") }, ShdSrc { name: s("vs_a"), src: s("B") }]);
    assert_eq!(replaced, vec![s("vs_a")]);
    assert!(matches!(r.lookup_step(&a, true, false), Lookup::Compile(t, 0) if t == "B"));
    assert!(matches!(r.lookup_step(&a, false, true), Lookup::TakeFiles));
    assert!(matches!(r.lookup_step(&a, true, true), Lookup::Fail));
    r.set_compiled(0, 8);
    assert!(matches!(r.lookup_step(&a, false, false), Lookup::Use(8)));
}

#[test]
fn registry_knows_what_can_be_forgotten() {
    let mut r = ShaderRegistry::new();
    let prog = vec![s("vs_a"), s("vs_a")];
    assert!(!r.is_watched(&prog));
    r.watch(&vec![s("vs_a")]);
    assert!(!r.is_watched(&prog));
    r.watch(&prog);
    assert!(r.is_watched(&prog));
    assert!(r.is_watched(&vec![s("vs_a")]));
    assert!(!r.is_watched(&vec![s("ps_b")]));
    r.forget(&prog);
    assert!(!r.is_watched(&prog));
}

#[test]
fn manager_compile_steps() {
    let mut m = ShaderManager::new();
    let n = s("ps_x");
    assert!(matches!(m.next_step(&n, StageType::Fragment, false), CompileStep::TakeFiles));
    assert!(matches!(m.next_step(&n, StageType::Fragment, true), CompileStep::Missing(e) if e == "No pixel shader \"ps_x\" in loaded sources"));
    m.take_file(&vec![ShdSrc { name: s("ps_x"), src: s("P") }]);
    assert!(matches!(m.next_step(&n, StageType::Fragment, false), CompileStep::TakeFiles));
    assert!(matches!(m.next_step(&n, StageType::Fragment, true), CompileStep::CompileSource(t) if t == "P"));
    m.set_object(s("ps_x"), 4);
    assert!(matches!(m.next_step(&n, StageType::Fragment, false), CompileStep::UseObject(4)));
}

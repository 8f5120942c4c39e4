use rt::cli::{parse_args, parse_dim, parse_scene, Args, Command, SceneId, DEFAULT_HEIGHT, DEFAULT_WIDTH};
use rt::tracer::TraceOptions;

fn argv(items: &[&str]) -> Vec<String> {
    items.iter().map(|s| s.to_string()).collect()
}

fn run_args(items: &[&str]) -> Args {
    match parse_args(&argv(items)).unwrap() {
        Command::Run(args) => args,
        Command::Help => panic!("expected settings, got a help request"),
    }
}

#[test]
fn defaults() {
    let args = run_args(&["rt"]);
    assert_eq!(args.width, DEFAULT_WIDTH);
    assert_eq!(args.height, DEFAULT_HEIGHT);
    assert_eq!(args.scene, SceneId::Scene1);
    assert!(args.output.is_none());
    assert!(!args.reflections);
}

#[test]
fn scene_and_audit_size() {
    let args = run_args(&[
        "rt",
        "--scene",
        "1",
        "--width",
        "800",
        "--height",
        "600",
        "-o",
        "scenes/scene1_sphere.ppm",
    ]);
    assert_eq!(args.scene, SceneId::Scene1);
    assert_eq!(args.width, 800);
    assert_eq!(args.height, 600);
    assert_eq!(args.output.as_deref(), Some("scenes/scene1_sphere.ppm"));
}

#[test]
fn scene_aliases() {
    assert_eq!(run_args(&["rt", "-s", "sphere"]).scene, SceneId::Scene1);
    assert_eq!(run_args(&["rt", "-s", "2"]).scene, SceneId::Scene2);
    assert_eq!(run_args(&["rt", "-s", "all"]).scene, SceneId::Scene3);
    assert_eq!(run_args(&["rt", "-s", "4"]).scene, SceneId::Scene4);
    assert_eq!(run_args(&["rt", "-s", "reflection"]).scene, SceneId::Reflection);
}

#[test]
fn reflection_flags() {
    let args = run_args(&["rt", "-r", "--max-depth", "8", "-s", "5"]);
    assert!(args.reflections);
    assert_eq!(args.max_depth, 8);
    assert_eq!(args.scene, SceneId::Reflection);
}

#[test]
fn default_depth_and_bonus_switches_are_off() {
    let args = run_args(&["rt"]);
    assert_eq!(args.max_depth, 5);
    assert!(!args.refractions);
    assert!(!args.textures);
}

#[test]
fn refraction_and_texture_flags() {
    let args = run_args(&["rt", "-R", "--textures", "-s", "refraction"]);
    assert!(args.refractions);
    assert!(args.textures);
    assert!(!args.reflections);
    assert_eq!(args.scene, SceneId::Refraction);
    let args = run_args(&["rt", "--refraction", "-t"]);
    assert!(args.refractions && args.textures);
}

#[test]
fn every_scene_name_and_number() {
    let cases: [(&str, SceneId); 24] = [
        ("1", SceneId::Scene1),
        ("scene1", SceneId::Scene1),
        ("sphere", SceneId::Scene1),
        ("2", SceneId::Scene2),
        ("scene2", SceneId::Scene2),
        ("plane-cube", SceneId::Scene2),
        ("cube", SceneId::Scene2),
        ("3", SceneId::Scene3),
        ("scene3", SceneId::Scene3),
        ("all", SceneId::Scene3),
        ("4", SceneId::Scene4),
        ("scene4", SceneId::Scene4),
        ("alt", SceneId::Scene4),
        ("alt-camera", SceneId::Scene4),
        ("5", SceneId::Reflection),
        ("reflection", SceneId::Reflection),
        ("metal", SceneId::Reflection),
        ("refraction", SceneId::Refraction),
        ("7", SceneId::TextureSphere),
        ("texture-sphere", SceneId::TextureSphere),
        ("8", SceneId::TexturePlane),
        ("texture-plane", SceneId::TexturePlane),
        ("9", SceneId::TextureReflection),
        ("texture-reflection", SceneId::TextureReflection),
    ];
    for (name, id) in cases {
        let value = name.to_string();
        assert_eq!(parse_scene(Some(&value)), Ok(id), "scene value {name}");
    }
}

#[test]
fn unknown_scene_is_refused_with_a_hint() {
    let value = "10".to_string();
    assert_eq!(
        parse_scene(Some(&value)),
        Err("unknown scene '10' (try: 1 / sphere, 2 / cube, 3 / all, 4 / alt, 5 / reflection)".to_string())
    );
    let value = "6".to_string();
    assert!(parse_scene(Some(&value)).is_err());
    let value = "Sphere".to_string();
    assert!(parse_scene(Some(&value)).is_err());
    assert_eq!(parse_scene(None), Err("missing value for --scene".to_string()));
}

#[test]
fn dimension_values() {
    let ok = "800".to_string();
    assert_eq!(parse_dim(Some(&ok), "--width"), Ok(800));
    let plus = "+12".to_string();
    assert_eq!(parse_dim(Some(&plus), "--width"), Ok(12));
    let max = "4294967295".to_string();
    assert_eq!(parse_dim(Some(&max), "--height"), Ok(u32::MAX));
    let over = "4294967296".to_string();
    assert_eq!(
        parse_dim(Some(&over), "--height"),
        Err("invalid --height value: 4294967296".to_string())
    );
    let zero = "0".to_string();
    assert_eq!(parse_dim(Some(&zero), "--width"), Err("--width must be > 0".to_string()));
    let neg = "-3".to_string();
    assert_eq!(parse_dim(Some(&neg), "--width"), Err("invalid --width value: -3".to_string()));
    let word = "wide".to_string();
    assert_eq!(parse_dim(Some(&word), "--max-depth"), Err("invalid --max-depth value: wide".to_string()));
    let spaced = " 8".to_string();
    assert!(parse_dim(Some(&spaced), "--width").is_err());
    assert_eq!(parse_dim(None, "--width"), Err("missing value for --width".to_string()));
}

#[test]
fn command_line_errors() {
    assert_eq!(parse_args(&argv(&["rt", "--bogus"])), Err("unknown argument: --bogus".to_string()));
    assert_eq!(parse_args(&argv(&["rt", "--width"])), Err("missing value for --width".to_string()));
    assert_eq!(parse_args(&argv(&["rt", "-o"])), Err("missing value for --output".to_string()));
    assert_eq!(parse_args(&argv(&["rt", "--height", "0"])), Err("--height must be > 0".to_string()));
    assert_eq!(parse_args(&argv(&["rt", "-s"])), Err("missing value for --scene".to_string()));
    // The first bad argument decides, even if a later one would be fine.
    assert_eq!(
        parse_args(&argv(&["rt", "-w", "x", "--bogus"])),
        Err("invalid --width value: x".to_string())
    );
}

#[test]
fn help_stops_reading() {
    assert_eq!(parse_args(&argv(&["rt", "--help"])), Ok(Command::Help));
    assert_eq!(parse_args(&argv(&["rt", "-s", "2", "--help", "--bogus"])), Ok(Command::Help));
    // An error before --help is still an error.
    assert!(parse_args(&argv(&["rt", "--bogus", "--help"])).is_err());
}

#[test]
fn later_flags_override_earlier_ones() {
    let args = run_args(&["rt", "-w", "10", "--width", "20", "-o", "a.ppm", "-o", "b.ppm"]);
    assert_eq!(args.width, 20);
    assert_eq!(args.output.as_deref(), Some("b.ppm"));
}

#[test]
fn empty_command_line_gives_defaults() {
    let args = match parse_args(&[]).unwrap() {
        Command::Run(a) => a,
        Command::Help => panic!(),
    };
    assert_eq!((args.width, args.height, args.scene), (400, 300, SceneId::Scene1));
}

#[test]
fn trace_options_follow_the_switches() {
    assert_eq!(run_args(&["rt"]).trace_options(), TraceOptions::default());
    assert_eq!(run_args(&["rt", "-r", "--max-depth", "8"]).trace_options(), TraceOptions::with_reflections(8));
    assert_eq!(run_args(&["rt", "-R"]).trace_options(), TraceOptions::with_refractions(5));
    assert_eq!(
        run_args(&["rt", "-r", "-R", "--max-depth", "2"]).trace_options(),
        TraceOptions { reflections: true, refractions: true, max_depth: 2 }
    );
    // Depth alone does not turn bounces on.
    assert_eq!(run_args(&["rt", "--max-depth", "9"]).trace_options(), TraceOptions::default());
}

#[test]
fn scene_labels() {
    assert_eq!(SceneId::Scene1.label(), "scene1_sphere");
    assert_eq!(SceneId::Scene2.label(), "scene2_plane_cube");
    assert_eq!(SceneId::Scene3.label(), "scene3_all");
    assert_eq!(SceneId::Scene4.label(), "scene4_alt_camera");
    assert_eq!(SceneId::Reflection.label(), "scene_reflection");
    assert_eq!(SceneId::Refraction.label(), "scene_refraction");
    assert_eq!(SceneId::TextureSphere.label(), "scene_texture_sphere");
    assert_eq!(SceneId::TexturePlane.label(), "scene_texture_plane");
    assert_eq!(SceneId::TextureReflection.label(), "scene_texture_reflection");
}

#[test]
fn short_height_flag() {
    let args = run_args(&["rt", "-w", "200", "-h", "150"]);
    assert_eq!(args.width, 200);
    assert_eq!(args.height, 150);
    assert_eq!(parse_args(&argv(&["rt", "-h"])), Err("missing value for --height".to_string()));
    assert_eq!(parse_args(&argv(&["rt", "-h", "0"])), Err("--height must be > 0".to_string()));
}

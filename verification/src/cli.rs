//! Command-line arguments: which scene to render, at what size, where the
//! image goes, and which bonus features are on.

use vstd::prelude::*;
use crate::decimal::{parse_unsigned, spec_parse_unsigned};
use crate::text::{chars_of, joined, same_text};
use crate::tracer::{effective_depth, TraceOptions, DEFAULT_MAX_DEPTH};

verus! {

/// Default image width, a quick preview size (audit images use 800).
pub const DEFAULT_WIDTH: u32 = 400;

/// Default image height, a quick preview size (audit images use 600).
pub const DEFAULT_HEIGHT: u32 = 300;

/// The scenes the renderer can build.
#[derive(Clone, Copy, Debug, PartialEq, Eq, Structural)]
pub enum SceneId {
    /// Sphere and ground, bright key light.
    Scene1,
    /// Plane and cube, dimmer light.
    Scene2,
    /// All four objects, front camera.
    Scene3,
    /// The world of scene 3 seen from another camera.
    Scene4,
    /// Metal sphere demo (use with reflections on).
    Reflection,
    /// Glass sphere demo (use with refraction on).
    Refraction,
    /// Textured sphere demo (use with textures on).
    TextureSphere,
    /// Textured ground demo (use with textures on).
    TexturePlane,
    /// Textured mirror sphere demo (use with reflections and textures on).
    TextureReflection,
}

/// The settings a command line selects.
#[derive(Clone, Debug, PartialEq, Eq)]
pub struct Args {
    pub width: u32,
    pub height: u32,
    pub scene: SceneId,
    /// If set, write to this path; otherwise write the image to stdout.
    pub output: Option<String>,
    pub reflections: bool,
    pub refractions: bool,
    pub textures: bool,
    pub max_depth: u32,
}

/// `Args` with the output path as a character sequence.
pub struct ArgsSpec {
    pub width: u32,
    pub height: u32,
    pub scene: SceneId,
    pub output: Option<Seq<char>>,
    pub reflections: bool,
    pub refractions: bool,
    pub textures: bool,
    pub max_depth: u32,
}

impl View for Args {
    type V = ArgsSpec;

    open spec fn view(&self) -> ArgsSpec {
        ArgsSpec {
            width: self.width,
            height: self.height,
            scene: self.scene,
            output: match self.output {
                Some(s) => Some(s@),
                None => None,
            },
            reflections: self.reflections,
            refractions: self.refractions,
            textures: self.textures,
            max_depth: self.max_depth,
        }
    }
}

/// What a command line asks for.
#[derive(Clone, Debug, PartialEq, Eq)]
pub enum Command {
    /// Render with these settings.
    Run(Args),
    /// Print the usage text and stop.
    Help,
}

pub enum CommandSpec {
    Run(ArgsSpec),
    Help,
}

impl View for Command {
    type V = CommandSpec;

    open spec fn view(&self) -> CommandSpec {
        match self {
            Command::Run(a) => CommandSpec::Run(a@),
            Command::Help => CommandSpec::Help,
        }
    }
}

/// The settings before any argument: scene 1, 400 x 300, stdout, no bonus
/// feature, depth bound 5.
pub open spec fn default_args() -> ArgsSpec {
    ArgsSpec {
        width: DEFAULT_WIDTH,
        height: DEFAULT_HEIGHT,
        scene: SceneId::Scene1,
        output: None,
        reflections: false,
        refractions: false,
        textures: false,
        max_depth: DEFAULT_MAX_DEPTH,
    }
}

impl SceneId {
    /// The name the status line and the output files use for the scene.
    pub fn label(&self) -> (s: &'static str)
        ensures
            s@ == match *self {
                SceneId::Scene1 => "scene1_sphere"@,
                SceneId::Scene2 => "scene2_plane_cube"@,
                SceneId::Scene3 => "scene3_all"@,
                SceneId::Scene4 => "scene4_alt_camera"@,
                SceneId::Reflection => "scene_reflection"@,
                SceneId::Refraction => "scene_refraction"@,
                SceneId::TextureSphere => "scene_texture_sphere"@,
                SceneId::TexturePlane => "scene_texture_plane"@,
                SceneId::TextureReflection => "scene_texture_reflection"@,
            },
    {
        match self {
            SceneId::Scene1 => "scene1_sphere",
            SceneId::Scene2 => "scene2_plane_cube",
            SceneId::Scene3 => "scene3_all",
            SceneId::Scene4 => "scene4_alt_camera",
            SceneId::Reflection => "scene_reflection",
            SceneId::Refraction => "scene_refraction",
            SceneId::TextureSphere => "scene_texture_sphere",
            SceneId::TexturePlane => "scene_texture_plane",
            SceneId::TextureReflection => "scene_texture_reflection",
        }
    }
}

impl Args {
    /// The tracing options these settings select: diffuse only when neither
    /// reflections nor refraction is on, otherwise the requested switches with
    /// the requested depth bound (at least 1).
    pub fn trace_options(&self) -> (opts: TraceOptions)
        ensures
            opts == (if self.reflections || self.refractions {
                TraceOptions {
                    reflections: self.reflections,
                    refractions: self.refractions,
                    max_depth: effective_depth(self.max_depth),
                }
            } else {
                TraceOptions { reflections: false, refractions: false, max_depth: 5 }
            }),
    {
        if self.reflections || self.refractions {
            TraceOptions::with_bounces(self.reflections, self.refractions, self.max_depth)
        } else {
            TraceOptions::default()
        }
    }
}

// ---------------------------------------------------------------------------
// Values
// ---------------------------------------------------------------------------

/// A positive number for `flag`, or the message that refuses `raw`.
pub open spec fn spec_dim_value(raw: Seq<char>, flag: Seq<char>) -> Result<u32, Seq<char>> {
    match spec_parse_unsigned(raw, u32::MAX as nat) {
        None => Err("invalid "@ + flag + " value: "@ + raw),
        Some(n) => if n == 0 {
            Err(flag + " must be > 0"@)
        } else {
            Ok(n as u32)
        },
    }
}

/// A positive number for `flag` from the value that follows it, if any.
pub open spec fn spec_parse_dim(value: Option<Seq<char>>, flag: Seq<char>) -> Result<
    u32,
    Seq<char>,
> {
    match value {
        None => Err("missing value for "@ + flag),
        Some(raw) => spec_dim_value(raw, flag),
    }
}

/// The scene that a `--scene` value names, by number or by name.
pub open spec fn scene_named(raw: Seq<char>) -> Option<SceneId> {
    if raw == "1"@ || raw == "scene1"@ || raw == "sphere"@ {
        Some(SceneId::Scene1)
    } else if raw == "2"@ || raw == "scene2"@ || raw == "plane-cube"@ || raw == "cube"@ {
        Some(SceneId::Scene2)
    } else if raw == "3"@ || raw == "scene3"@ || raw == "all"@ {
        Some(SceneId::Scene3)
    } else if raw == "4"@ || raw == "scene4"@ || raw == "alt"@ || raw == "alt-camera"@ {
        Some(SceneId::Scene4)
    } else if raw == "5"@ || raw == "reflection"@ || raw == "metal"@ {
        Some(SceneId::Reflection)
    } else if raw == "refraction"@ {
        Some(SceneId::Refraction)
    } else if raw == "7"@ || raw == "texture-sphere"@ {
        Some(SceneId::TextureSphere)
    } else if raw == "8"@ || raw == "texture-plane"@ {
        Some(SceneId::TexturePlane)
    } else if raw == "9"@ || raw == "texture-reflection"@ {
        Some(SceneId::TextureReflection)
    } else {
        None
    }
}

/// The hint that follows an unknown scene name.
pub open spec fn scene_hint() -> Seq<char> {
    "' (try: 1 / sphere, 2 / cube, 3 / all, 4 / alt, 5 / reflection)"@
}

/// The scene for a `--scene` value, or the message that refuses it.
pub open spec fn spec_scene_value(raw: Seq<char>) -> Result<SceneId, Seq<char>> {
    match scene_named(raw) {
        Some(id) => Ok(id),
        None => Err("unknown scene '"@ + raw + scene_hint()),
    }
}

pub open spec fn spec_parse_scene(value: Option<Seq<char>>) -> Result<SceneId, Seq<char>> {
    match value {
        None => Err("missing value for --scene"@),
        Some(raw) => spec_scene_value(raw),
    }
}

/// The characters of an optional argument.
pub open spec fn opt_view(value: Option<&String>) -> Option<Seq<char>> {
    match value {
        Some(s) => Some(s@),
        None => None,
    }
}

/// Parses the value of a size or depth flag: it must be present, a number as
/// `str::parse::<u32>` reads it, and positive.
pub fn parse_dim(value: Option<&String>, flag: &str) -> (r: Result<u32, String>)
    ensures
        match r {
            Ok(n) => spec_parse_dim(opt_view(value), flag@) == Ok::<u32, Seq<char>>(n),
            Err(e) => spec_parse_dim(opt_view(value), flag@) == Err::<u32, Seq<char>>(e@),
        },
{
    let raw = match value {
        None => {
            return Err(joined("missing value for ", flag));
        },
        Some(raw) => raw,
    };
    let chars = chars_of(raw.as_str());
    match parse_unsigned(chars.as_slice(), u32::MAX as usize) {
        None => {
            let mut msg = joined("invalid ", flag);
            msg.append(" value: ");
            msg.append(raw.as_str());
            assert(msg@ =~= "invalid "@ + flag@ + " value: "@ + raw@);
            Err(msg)
        },
        Some(n) => {
            if n == 0 {
                Err(joined(flag, " must be > 0"))
            } else {
                Ok(n as u32)
            }
        },
    }
}

/// Maps a `--scene` value (a number or a name) to a scene.
pub fn parse_scene(value: Option<&String>) -> (r: Result<SceneId, String>)
    ensures
        match r {
            Ok(id) => spec_parse_scene(opt_view(value)) == Ok::<SceneId, Seq<char>>(id),
            Err(e) => spec_parse_scene(opt_view(value)) == Err::<SceneId, Seq<char>>(e@),
        },
{
    let raw = match value {
        None => {
            return Err(String::from_str("missing value for --scene"));
        },
        Some(raw) => raw.as_str(),
    };
    if same_text(raw, "1") || same_text(raw, "scene1") || same_text(raw, "sphere") {
        Ok(SceneId::Scene1)
    } else if same_text(raw, "2") || same_text(raw, "scene2") || same_text(raw, "plane-cube")
        || same_text(raw, "cube") {
        Ok(SceneId::Scene2)
    } else if same_text(raw, "3") || same_text(raw, "scene3") || same_text(raw, "all") {
        Ok(SceneId::Scene3)
    } else if same_text(raw, "4") || same_text(raw, "scene4") || same_text(raw, "alt")
        || same_text(raw, "alt-camera") {
        Ok(SceneId::Scene4)
    } else if same_text(raw, "5") || same_text(raw, "reflection") || same_text(raw, "metal") {
        Ok(SceneId::Reflection)
    } else if same_text(raw, "refraction") {
        Ok(SceneId::Refraction)
    } else if same_text(raw, "7") || same_text(raw, "texture-sphere") {
        Ok(SceneId::TextureSphere)
    } else if same_text(raw, "8") || same_text(raw, "texture-plane") {
        Ok(SceneId::TexturePlane)
    } else if same_text(raw, "9") || same_text(raw, "texture-reflection") {
        Ok(SceneId::TextureReflection)
    } else {
        let mut msg = joined("unknown scene '", raw);
        msg.append(
            "' (try: 1 / sphere, 2 / cube, 3 / all, 4 / alt, 5 / reflection)",
        );
        assert(msg@ =~= "unknown scene '"@ + raw@ + scene_hint());
        Err(msg)
    }
}

// ---------------------------------------------------------------------------
// The whole command line
// ---------------------------------------------------------------------------

/// The characters of each argument.
pub open spec fn arg_views(argv: Seq<String>) -> Seq<Seq<char>> {
    argv.map_values(|s: String| s@)
}

/// The argument at `i`, if there is one.
pub open spec fn arg_at(argv: Seq<Seq<char>>, i: int) -> Option<Seq<char>> {
    if 0 <= i < argv.len() {
        Some(argv[i])
    } else {
        None
    }
}

/// Reads the arguments from index `i` on, starting from the settings `acc`:
/// each flag updates the settings (a later flag overrides an earlier one),
/// a flag that takes a value consumes the next argument, `--help` stops
/// reading, and the first bad argument is the error.
pub open spec fn spec_args_from(argv: Seq<Seq<char>>, i: int, acc: ArgsSpec) -> Result<
    CommandSpec,
    Seq<char>,
>
    decreases argv.len() + 1 - i,
{
    if i < 0 || i >= argv.len() {
        Ok(CommandSpec::Run(acc))
    } else {
        let a = argv[i];
        if a == "--width"@ || a == "-w"@ {
            match spec_parse_dim(arg_at(argv, i + 1), "--width"@) {
                Err(e) => Err(e),
                Ok(n) => spec_args_from(argv, i + 2, ArgsSpec { width: n, ..acc }),
            }
        } else if a == "--height"@ || a == "-h"@ {
            match spec_parse_dim(arg_at(argv, i + 1), "--height"@) {
                Err(e) => Err(e),
                Ok(n) => spec_args_from(argv, i + 2, ArgsSpec { height: n, ..acc }),
            }
        } else if a == "--scene"@ || a == "-s"@ {
            match spec_parse_scene(arg_at(argv, i + 1)) {
                Err(e) => Err(e),
                Ok(id) => spec_args_from(argv, i + 2, ArgsSpec { scene: id, ..acc }),
            }
        } else if a == "--output"@ || a == "-o"@ {
            match arg_at(argv, i + 1) {
                None => Err("missing value for --output"@),
                Some(path) => spec_args_from(argv, i + 2, ArgsSpec { output: Some(path), ..acc }),
            }
        } else if a == "--reflection"@ || a == "-r"@ {
            spec_args_from(argv, i + 1, ArgsSpec { reflections: true, ..acc })
        } else if a == "--refraction"@ || a == "-R"@ {
            spec_args_from(argv, i + 1, ArgsSpec { refractions: true, ..acc })
        } else if a == "--textures"@ || a == "-t"@ {
            spec_args_from(argv, i + 1, ArgsSpec { textures: true, ..acc })
        } else if a == "--max-depth"@ {
            match spec_parse_dim(arg_at(argv, i + 1), "--max-depth"@) {
                Err(e) => Err(e),
                Ok(n) => spec_args_from(argv, i + 2, ArgsSpec { max_depth: n, ..acc }),
            }
        } else if a == "--help"@ {
            Ok(CommandSpec::Help)
        } else {
            Err("unknown argument: "@ + a)
        }
    }
}

/// What a command line (`argv[0]` is the program name) asks for.
pub open spec fn spec_parse_args(argv: Seq<Seq<char>>) -> Result<CommandSpec, Seq<char>> {
    spec_args_from(argv, 1, default_args())
}

/// The characters of the flag names.
proof fn lemma_flag_names()
    ensures
        "--width"@ =~= seq!['-', '-', 'w', 'i', 'd', 't', 'h'],
        "-w"@ =~= seq!['-', 'w'],
        "--height"@ =~= seq!['-', '-', 'h', 'e', 'i', 'g', 'h', 't'],
        "-h"@ =~= seq!['-', 'h'],
        "--scene"@ =~= seq!['-', '-', 's', 'c', 'e', 'n', 'e'],
        "-s"@ =~= seq!['-', 's'],
        "--output"@ =~= seq!['-', '-', 'o', 'u', 't', 'p', 'u', 't'],
        "-o"@ =~= seq!['-', 'o'],
        "--reflection"@ =~= seq!['-', '-', 'r', 'e', 'f', 'l', 'e', 'c', 't', 'i', 'o', 'n'],
        "-r"@ =~= seq!['-', 'r'],
        "--refraction"@ =~= seq!['-', '-', 'r', 'e', 'f', 'r', 'a', 'c', 't', 'i', 'o', 'n'],
        "-R"@ =~= seq!['-', 'R'],
        "--textures"@ =~= seq!['-', '-', 't', 'e', 'x', 't', 'u', 'r', 'e', 's'],
        "-t"@ =~= seq!['-', 't'],
        "--max-depth"@ =~= seq!['-', '-', 'm', 'a', 'x', '-', 'd', 'e', 'p', 't', 'h'],
        "--help"@ =~= seq!['-', '-', 'h', 'e', 'l', 'p'],
{
    reveal_strlit("--width");
    reveal_strlit("-w");
    reveal_strlit("--height");
    reveal_strlit("-h");
    reveal_strlit("--scene");
    reveal_strlit("-s");
    reveal_strlit("--output");
    reveal_strlit("-o");
    reveal_strlit("--reflection");
    reveal_strlit("-r");
    reveal_strlit("--refraction");
    reveal_strlit("-R");
    reveal_strlit("--textures");
    reveal_strlit("-t");
    reveal_strlit("--max-depth");
    reveal_strlit("--help");
}

/// `--output PATH` and `-o PATH` both set the output path to `PATH` and go on
/// after it; without a following argument they are refused.
pub proof fn lemma_output_flag(argv: Seq<Seq<char>>, i: int, acc: ArgsSpec)
    requires
        0 <= i < argv.len(),
        argv[i] == "--output"@ || argv[i] == "-o"@,
    ensures
        i + 1 < argv.len() ==> spec_args_from(argv, i, acc) == spec_args_from(
            argv,
            i + 2,
            ArgsSpec { output: Some(argv[i + 1]), ..acc },
        ),
        i + 1 >= argv.len() ==> spec_args_from(argv, i, acc) == Err::<CommandSpec, Seq<char>>(
            "missing value for --output"@,
        ),
{
    lemma_flag_names();
}

/// A command line that only names the output file, by either spelling,
/// keeps every default and writes to that file.
pub proof fn lemma_output_only(program: Seq<char>, path: Seq<char>)
    ensures
        spec_parse_args(seq![program, "--output"@, path]) == Ok::<CommandSpec, Seq<char>>(
            CommandSpec::Run(ArgsSpec { output: Some(path), ..default_args() }),
        ),
        spec_parse_args(seq![program, "-o"@, path]) == Ok::<CommandSpec, Seq<char>>(
            CommandSpec::Run(ArgsSpec { output: Some(path), ..default_args() }),
        ),
{
    lemma_output_flag(seq![program, "--output"@, path], 1, default_args());
    lemma_output_flag(seq![program, "-o"@, path], 1, default_args());
}

/// `--width N` / `-w N`, `--height N` / `-h N` and `--max-depth N` set that
/// setting to `N` when `N` reads as a positive `u32`, and go on after it.
pub proof fn lemma_size_flags(argv: Seq<Seq<char>>, i: int, acc: ArgsSpec, n: nat)
    requires
        0 <= i,
        i + 1 < argv.len(),
        spec_parse_unsigned(argv[i + 1], u32::MAX as nat) == Some(n),
        n > 0,
    ensures
        argv[i] == "--width"@ || argv[i] == "-w"@ ==> spec_args_from(argv, i, acc)
            == spec_args_from(argv, i + 2, ArgsSpec { width: n as u32, ..acc }),
        argv[i] == "--height"@ || argv[i] == "-h"@ ==> spec_args_from(argv, i, acc)
            == spec_args_from(argv, i + 2, ArgsSpec { height: n as u32, ..acc }),
        argv[i] == "--max-depth"@ ==> spec_args_from(argv, i, acc) == spec_args_from(
            argv,
            i + 2,
            ArgsSpec { max_depth: n as u32, ..acc },
        ),
{
    lemma_flag_names();
}

/// A size flag with nothing after it is refused with the message naming the
/// long spelling of the flag.
pub proof fn lemma_size_flag_missing(argv: Seq<Seq<char>>, acc: ArgsSpec)
    requires
        argv.len() > 0,
    ensures
        ({
            let i = argv.len() - 1;
            &&& argv[i] == "--width"@ || argv[i] == "-w"@ ==> spec_args_from(argv, i, acc) == Err::<
                CommandSpec,
                Seq<char>,
            >("missing value for "@ + "--width"@)
            &&& argv[i] == "--height"@ || argv[i] == "-h"@ ==> spec_args_from(argv, i, acc) == Err::<
                CommandSpec,
                Seq<char>,
            >("missing value for "@ + "--height"@)
            &&& argv[i] == "--max-depth"@ ==> spec_args_from(argv, i, acc) == Err::<
                CommandSpec,
                Seq<char>,
            >("missing value for "@ + "--max-depth"@)
        }),
{
    lemma_flag_names();
}

/// `--scene NAME` / `-s NAME` selects the scene `NAME` names and goes on
/// after it.
pub proof fn lemma_scene_flag(argv: Seq<Seq<char>>, i: int, acc: ArgsSpec, id: SceneId)
    requires
        0 <= i,
        i + 1 < argv.len(),
        argv[i] == "--scene"@ || argv[i] == "-s"@,
        scene_named(argv[i + 1]) == Some(id),
    ensures
        spec_args_from(argv, i, acc) == spec_args_from(argv, i + 2, ArgsSpec { scene: id, ..acc }),
{
    lemma_flag_names();
}

/// The switches `--reflection` / `-r`, `--refraction` / `-R` and
/// `--textures` / `-t` each turn their own feature on, take no value, and
/// leave every other setting as it is.
pub proof fn lemma_switch_flags(argv: Seq<Seq<char>>, i: int, acc: ArgsSpec)
    requires
        0 <= i < argv.len(),
    ensures
        argv[i] == "--reflection"@ || argv[i] == "-r"@ ==> spec_args_from(argv, i, acc)
            == spec_args_from(argv, i + 1, ArgsSpec { reflections: true, ..acc }),
        argv[i] == "--refraction"@ || argv[i] == "-R"@ ==> spec_args_from(argv, i, acc)
            == spec_args_from(argv, i + 1, ArgsSpec { refractions: true, ..acc }),
        argv[i] == "--textures"@ || argv[i] == "-t"@ ==> spec_args_from(argv, i, acc)
            == spec_args_from(argv, i + 1, ArgsSpec { textures: true, ..acc }),
        argv[i] == "--help"@ ==> spec_args_from(argv, i, acc) == Ok::<CommandSpec, Seq<char>>(
            CommandSpec::Help,
        ),
{
    lemma_flag_names();
}

/// Past the last argument the settings read so far are the result.
pub proof fn lemma_args_end(argv: Seq<Seq<char>>, acc: ArgsSpec)
    ensures
        spec_args_from(argv, argv.len() as int, acc) == Ok::<CommandSpec, Seq<char>>(
            CommandSpec::Run(acc),
        ),
{
}

/// The characters of the scene names.
proof fn lemma_scene_name_chars()
    ensures
        "1"@ =~= seq!['1'],
        "scene1"@ =~= seq!['s', 'c', 'e', 'n', 'e', '1'],
        "sphere"@ =~= seq!['s', 'p', 'h', 'e', 'r', 'e'],
        "2"@ =~= seq!['2'],
        "scene2"@ =~= seq!['s', 'c', 'e', 'n', 'e', '2'],
        "plane-cube"@ =~= seq!['p', 'l', 'a', 'n', 'e', '-', 'c', 'u', 'b', 'e'],
        "cube"@ =~= seq!['c', 'u', 'b', 'e'],
        "3"@ =~= seq!['3'],
        "scene3"@ =~= seq!['s', 'c', 'e', 'n', 'e', '3'],
        "all"@ =~= seq!['a', 'l', 'l'],
        "4"@ =~= seq!['4'],
        "scene4"@ =~= seq!['s', 'c', 'e', 'n', 'e', '4'],
        "alt"@ =~= seq!['a', 'l', 't'],
        "alt-camera"@ =~= seq!['a', 'l', 't', '-', 'c', 'a', 'm', 'e', 'r', 'a'],
        "5"@ =~= seq!['5'],
        "reflection"@ =~= seq!['r', 'e', 'f', 'l', 'e', 'c', 't', 'i', 'o', 'n'],
        "metal"@ =~= seq!['m', 'e', 't', 'a', 'l'],
        "refraction"@ =~= seq!['r', 'e', 'f', 'r', 'a', 'c', 't', 'i', 'o', 'n'],
        "7"@ =~= seq!['7'],
        "texture-sphere"@ =~= seq!['t', 'e', 'x', 't', 'u', 'r', 'e', '-', 's', 'p', 'h', 'e', 'r', 'e'],
        "8"@ =~= seq!['8'],
        "texture-plane"@ =~= seq!['t', 'e', 'x', 't', 'u', 'r', 'e', '-', 'p', 'l', 'a', 'n', 'e'],
        "9"@ =~= seq!['9'],
        "texture-reflection"@ =~= seq!['t', 'e', 'x', 't', 'u', 'r', 'e', '-', 'r', 'e', 'f', 'l', 'e', 'c', 't', 'i', 'o', 'n'],
{
    reveal_strlit("1");
    reveal_strlit("scene1");
    reveal_strlit("sphere");
    reveal_strlit("2");
    reveal_strlit("scene2");
    reveal_strlit("plane-cube");
    reveal_strlit("cube");
    reveal_strlit("3");
    reveal_strlit("scene3");
    reveal_strlit("all");
    reveal_strlit("4");
    reveal_strlit("scene4");
    reveal_strlit("alt");
    reveal_strlit("alt-camera");
    reveal_strlit("5");
    reveal_strlit("reflection");
    reveal_strlit("metal");
    reveal_strlit("refraction");
    reveal_strlit("7");
    reveal_strlit("texture-sphere");
    reveal_strlit("8");
    reveal_strlit("texture-plane");
    reveal_strlit("9");
    reveal_strlit("texture-reflection");
}

/// Every documented scene name and number selects its scene.
pub proof fn lemma_scene_names()
    ensures
        scene_named("1"@) == Some(SceneId::Scene1),
        scene_named("scene1"@) == Some(SceneId::Scene1),
        scene_named("sphere"@) == Some(SceneId::Scene1),
        scene_named("2"@) == Some(SceneId::Scene2),
        scene_named("scene2"@) == Some(SceneId::Scene2),
        scene_named("plane-cube"@) == Some(SceneId::Scene2),
        scene_named("cube"@) == Some(SceneId::Scene2),
        scene_named("3"@) == Some(SceneId::Scene3),
        scene_named("scene3"@) == Some(SceneId::Scene3),
        scene_named("all"@) == Some(SceneId::Scene3),
        scene_named("4"@) == Some(SceneId::Scene4),
        scene_named("scene4"@) == Some(SceneId::Scene4),
        scene_named("alt"@) == Some(SceneId::Scene4),
        scene_named("alt-camera"@) == Some(SceneId::Scene4),
        scene_named("5"@) == Some(SceneId::Reflection),
        scene_named("reflection"@) == Some(SceneId::Reflection),
        scene_named("metal"@) == Some(SceneId::Reflection),
        scene_named("refraction"@) == Some(SceneId::Refraction),
        scene_named("7"@) == Some(SceneId::TextureSphere),
        scene_named("texture-sphere"@) == Some(SceneId::TextureSphere),
        scene_named("8"@) == Some(SceneId::TexturePlane),
        scene_named("texture-plane"@) == Some(SceneId::TexturePlane),
        scene_named("9"@) == Some(SceneId::TextureReflection),
        scene_named("texture-reflection"@) == Some(SceneId::TextureReflection),
{
    lemma_scene_name_chars();
    // Name the characters that tell the names apart.
    assert("1"@[0] == '1');
    assert("scene1"@[0] == 's');
    assert("scene1"@[1] == 'c');
    assert("scene1"@[2] == 'e');
    assert("scene1"@[3] == 'n');
    assert("scene1"@[5] == '1');
    assert("sphere"@[0] == 's');
    assert("sphere"@[1] == 'p');
    assert("sphere"@[2] == 'h');
    assert("sphere"@[3] == 'e');
    assert("sphere"@[5] == 'e');
    assert("2"@[0] == '2');
    assert("scene2"@[0] == 's');
    assert("scene2"@[1] == 'c');
    assert("scene2"@[2] == 'e');
    assert("scene2"@[3] == 'n');
    assert("scene2"@[5] == '2');
    assert("plane-cube"@[0] == 'p');
    assert("plane-cube"@[1] == 'l');
    assert("plane-cube"@[2] == 'a');
    assert("plane-cube"@[3] == 'n');
    assert("plane-cube"@[9] == 'e');
    assert("cube"@[0] == 'c');
    assert("cube"@[1] == 'u');
    assert("cube"@[2] == 'b');
    assert("cube"@[3] == 'e');
    assert("3"@[0] == '3');
    assert("scene3"@[0] == 's');
    assert("scene3"@[1] == 'c');
    assert("scene3"@[2] == 'e');
    assert("scene3"@[3] == 'n');
    assert("scene3"@[5] == '3');
    assert("all"@[0] == 'a');
    assert("all"@[1] == 'l');
    assert("all"@[2] == 'l');
    assert("4"@[0] == '4');
    assert("scene4"@[0] == 's');
    assert("scene4"@[1] == 'c');
    assert("scene4"@[2] == 'e');
    assert("scene4"@[3] == 'n');
    assert("scene4"@[5] == '4');
    assert("alt"@[0] == 'a');
    assert("alt"@[1] == 'l');
    assert("alt"@[2] == 't');
    assert("alt-camera"@[0] == 'a');
    assert("alt-camera"@[1] == 'l');
    assert("alt-camera"@[2] == 't');
    assert("alt-camera"@[3] == '-');
    assert("alt-camera"@[9] == 'a');
    assert("5"@[0] == '5');
    assert("reflection"@[0] == 'r');
    assert("reflection"@[1] == 'e');
    assert("reflection"@[2] == 'f');
    assert("reflection"@[3] == 'l');
    assert("reflection"@[9] == 'n');
    assert("metal"@[0] == 'm');
    assert("metal"@[1] == 'e');
    assert("metal"@[2] == 't');
    assert("metal"@[3] == 'a');
    assert("metal"@[4] == 'l');
    assert("refraction"@[0] == 'r');
    assert("refraction"@[1] == 'e');
    assert("refraction"@[2] == 'f');
    assert("refraction"@[3] == 'r');
    assert("refraction"@[9] == 'n');
    assert("7"@[0] == '7');
    assert("texture-sphere"@[0] == 't');
    assert("texture-sphere"@[1] == 'e');
    assert("texture-sphere"@[2] == 'x');
    assert("texture-sphere"@[3] == 't');
    assert("texture-sphere"@[13] == 'e');
    assert("8"@[0] == '8');
    assert("texture-plane"@[0] == 't');
    assert("texture-plane"@[1] == 'e');
    assert("texture-plane"@[2] == 'x');
    assert("texture-plane"@[3] == 't');
    assert("texture-plane"@[12] == 'e');
    assert("9"@[0] == '9');
    assert("texture-reflection"@[0] == 't');
    assert("texture-reflection"@[1] == 'e');
    assert("texture-reflection"@[2] == 'x');
    assert("texture-reflection"@[3] == 't');
    assert("texture-reflection"@[17] == 'n');
}

/// The argument at `i` of `argv`, if there is one.
fn arg_ref(argv: &[String], i: usize) -> (r: Option<&String>)
    ensures
        opt_view(r) == arg_at(arg_views(argv@), i as int),
{
    if i < argv.len() {
        Some(&argv[i])
    } else {
        None
    }
}

/// Reads a command line (`argv[0]` is the program name). Flags: `--width` /
/// `-w`, `--height` / `-h`, `--scene` / `-s`, `--output` / `-o`, `--reflection` /
/// `-r`, `--refraction` / `-R`, `--textures` / `-t`, `--max-depth`, `--help`.
pub fn parse_args(argv: &[String]) -> (r: Result<Command, String>)
    ensures
        match r {
            Ok(c) => spec_parse_args(arg_views(argv@)) == Ok::<CommandSpec, Seq<char>>(c@),
            Err(e) => spec_parse_args(arg_views(argv@)) == Err::<CommandSpec, Seq<char>>(e@),
        },
{
    let ghost views = arg_views(argv@);
    let mut args = Args {
        width: DEFAULT_WIDTH,
        height: DEFAULT_HEIGHT,
        scene: SceneId::Scene1,
        output: None,
        reflections: false,
        refractions: false,
        textures: false,
        max_depth: DEFAULT_MAX_DEPTH,
    };
    let mut i: usize = 1;
    while i < argv.len()
        invariant
            views == arg_views(argv@),
            1 <= i,
            spec_parse_args(views) == spec_args_from(views, i as int, args@),
        decreases argv@.len() + 1 - i,
    {
        let a = argv[i].as_str();
        assert(views[i as int] == a@);
        let ghost acc = args@;
        if same_text(a, "--width") || same_text(a, "-w") {
            args.width = parse_dim(arg_ref(argv, i + 1), "--width")?;
            assert(args@ == (ArgsSpec { width: args.width, ..acc }));
            i = i + 2;
        } else if same_text(a, "--height") || same_text(a, "-h") {
            args.height = parse_dim(arg_ref(argv, i + 1), "--height")?;
            assert(args@ == (ArgsSpec { height: args.height, ..acc }));
            i = i + 2;
        } else if same_text(a, "--scene") || same_text(a, "-s") {
            args.scene = parse_scene(arg_ref(argv, i + 1))?;
            assert(args@ == (ArgsSpec { scene: args.scene, ..acc }));
            i = i + 2;
        } else if same_text(a, "--output") || same_text(a, "-o") {
            if i + 1 >= argv.len() {
                return Err(String::from_str("missing value for --output"));
            }
            let path = argv[i + 1].clone();
            assert(views[i + 1] == path@);
            args.output = Some(path);
            assert(args@ == (ArgsSpec { output: Some(path@), ..acc }));
            i = i + 2;
        } else if same_text(a, "--reflection") || same_text(a, "-r") {
            args.reflections = true;
            assert(args@ == (ArgsSpec { reflections: true, ..acc }));
            i = i + 1;
        } else if same_text(a, "--refraction") || same_text(a, "-R") {
            args.refractions = true;
            assert(args@ == (ArgsSpec { refractions: true, ..acc }));
            i = i + 1;
        } else if same_text(a, "--textures") || same_text(a, "-t") {
            args.textures = true;
            assert(args@ == (ArgsSpec { textures: true, ..acc }));
            i = i + 1;
        } else if same_text(a, "--max-depth") {
            args.max_depth = parse_dim(arg_ref(argv, i + 1), "--max-depth")?;
            assert(args@ == (ArgsSpec { max_depth: args.max_depth, ..acc }));
            i = i + 2;
        } else if same_text(a, "--help") {
            return Ok(Command::Help);
        } else {
            return Err(joined("unknown argument: ", a));
        }
    }
    Ok(Command::Run(args))
}

} // verus!

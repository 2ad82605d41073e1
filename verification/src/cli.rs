//! Command-line tooling logic: build profiles, project-name rules, project
//! templates and build summaries.
use vstd::prelude::*;
use std::time::Duration;
use vstd::string::StringExecFns;
use vstd::string::StrSliceExecFns;

verus! {

#[derive(Debug, Clone, Copy, PartialEq, Eq, Structural)]
pub enum BuildProfile {
    Debug,
    Release,
    Realtime,
    Embedded,
}

/// The profile a command-line word names, if any.
pub open spec fn profile_named(s: Seq<char>) -> Option<BuildProfile> {
    if s == "debug"@ {
        Some(BuildProfile::Debug)
    } else if s == "release"@ {
        Some(BuildProfile::Release)
    } else if s == "realtime"@ {
        Some(BuildProfile::Realtime)
    } else if s == "embedded"@ {
        Some(BuildProfile::Embedded)
    } else {
        None
    }
}

/// The word that names each profile.
pub open spec fn profile_word(p: BuildProfile) -> Seq<char> {
    match p {
        BuildProfile::Debug => "debug"@,
        BuildProfile::Release => "release"@,
        BuildProfile::Realtime => "realtime"@,
        BuildProfile::Embedded => "embedded"@,
    }
}

/// The arguments of the `cargo` command that builds a project with a profile,
/// for an optional target triple.
pub open spec fn cargo_args(p: BuildProfile, target: Option<Seq<char>>) -> Seq<Seq<char>> {
    seq!["build"@] + match p {
        BuildProfile::Debug => Seq::<Seq<char>>::empty(),
        BuildProfile::Release => seq!["--release"@],
        BuildProfile::Realtime => seq!["--profile"@, "realtime"@, "--features"@, "real-time"@],
        BuildProfile::Embedded => seq!["--profile"@, "embedded"@],
    } + match target {
        Some(t) => seq!["--target"@, t],
        None => Seq::<Seq<char>>::empty(),
    }
}

fn push_word(v: &mut Vec<String>, w: &str)
    ensures
        final(v)@.map_values(|s: String| s@) == old(v)@.map_values(|s: String| s@).push(w@),
{
    v.push(w.to_string());
    assert(final(v)@.map_values(|s: String| s@) =~= old(v)@.map_values(|s: String| s@).push(w@));
}

/// The arguments `nros build` hands to `cargo` for `profile` and `target`.
pub fn cargo_build_args(profile: BuildProfile, target: Option<&str>) -> (v: Vec<String>)
    ensures
        v@.map_values(|s: String| s@) == cargo_args(profile, match target {
            Some(t) => Some(t@),
            None => None,
        }),
{
    let mut v: Vec<String> = Vec::new();
    push_word(&mut v, "build");
    match profile {
        BuildProfile::Debug => {},
        BuildProfile::Release => {
            push_word(&mut v, "--release");
        },
        BuildProfile::Realtime => {
            push_word(&mut v, "--profile");
            push_word(&mut v, "realtime");
            push_word(&mut v, "--features");
            push_word(&mut v, "real-time");
        },
        BuildProfile::Embedded => {
            push_word(&mut v, "--profile");
            push_word(&mut v, "embedded");
        },
    }
    match target {
        Some(t) => {
            push_word(&mut v, "--target");
            push_word(&mut v, t);
        },
        None => {},
    }
    proof {
        let tv = match target {
            Some(t) => Some(t@),
            None => None::<Seq<char>>,
        };
        assert(v@.map_values(|s: String| s@) =~= cargo_args(profile, tv));
    }
    v
}

fn str_eq(a: &str, b: &str) -> (r: bool)
    ensures
        r == (a@ == b@),
{
    let a = a.to_owned();
    let b = b.to_owned();
    a == b
}

impl BuildProfile {
    pub fn from_str(s: &str) -> (p: Option<Self>)
        ensures
            p == profile_named(s@),
    {
        if str_eq(s, "debug") {
            Some(BuildProfile::Debug)
        } else if str_eq(s, "release") {
            Some(BuildProfile::Release)
        } else if str_eq(s, "realtime") {
            Some(BuildProfile::Realtime)
        } else if str_eq(s, "embedded") {
            Some(BuildProfile::Embedded)
        } else {
            None
        }
    }

    /// The profile's name as it is written on the command line.
    pub fn as_str(&self) -> (s: &'static str)
        ensures
            s@ == profile_word(*self),
    {
        match self {
            BuildProfile::Debug => "debug",
            BuildProfile::Release => "release",
            BuildProfile::Realtime => "realtime",
            BuildProfile::Embedded => "embedded",
        }
    }
}

/// Parsing a profile's name gives the profile back.
pub proof fn lemma_profile_name_roundtrip(p: BuildProfile)
    ensures
        profile_named(profile_word(p)) == Some(p),
{
    reveal_strlit("debug");
    reveal_strlit("release");
    reveal_strlit("realtime");
    reveal_strlit("embedded");
    assert("debug"@.len() == 5 && "release"@.len() == 7 && "realtime"@.len() == 8 && "embedded"@.len() == 8);
    assert("realtime"@[0] != "embedded"@[0]);
}

#[derive(Debug, Clone)]
pub enum TopicAction {
    List,
    Info { name: String },
    Echo { name: String },
    Pub { name: String, data: String },
    Hz { name: String },
    Bw { name: String },
}

#[derive(Debug, Clone)]
pub enum ServiceAction {
    List,
    Call { name: String, args: Vec<String> },
}

#[derive(Debug, Clone)]
pub enum NodeAction {
    List,
    Info { name: String },
    Kill { name: String },
}

#[derive(Debug, Clone)]
pub enum AnalysisType {
    Bandwidth,
    Latency,
    Timing,
    Graph,
    Compare { baseline: String },
}

#[derive(Debug, Clone)]
pub enum FleetAction {
    List,
    Deploy { version: String, canary: Option<u32> },
    Status,
    Exec { robot: String, command: String },
    Login { fleet: String },
}

#[derive(Debug, Clone)]
pub enum MigrateAction {
    Analyze { path: String },
    Convert { input: String, output: String },
    ConvertMsgs { input: String },
    Test { ros2_bag: String, nros_recording: String },
}

/// Unicode `Alphabetic` property of a character, as `char::is_alphabetic` reports it.
pub uninterp spec fn is_alphabetic_spec(c: char) -> bool;

/// Unicode alphabetic-or-numeric property, as `char::is_alphanumeric` reports it.
pub uninterp spec fn is_alphanumeric_spec(c: char) -> bool;

/// An ASCII letter, `a`-`z` or `A`-`Z`.
pub open spec fn ascii_letter(c: char) -> bool {
    (0x61 <= (c as u32) <= 0x7a) || (0x41 <= (c as u32) <= 0x5a)
}

/// An ASCII digit, `0`-`9`.
pub open spec fn ascii_digit(c: char) -> bool {
    0x30 <= (c as u32) <= 0x39
}

/// `char::is_alphabetic`: the Unicode `Alphabetic` property, which among
/// ASCII characters the letters alone have.
#[verifier::external_body]
fn char_is_alphabetic(c: char) -> (b: bool)
    ensures
        b == is_alphabetic_spec(c),
        (c as u32) < 128 ==> (b <==> ascii_letter(c)),
{
    c.is_alphabetic()
}

/// `char::is_alphanumeric`: alphabetic or numeric, which among ASCII
/// characters the letters and the digits alone are.
#[verifier::external_body]
fn char_is_alphanumeric(c: char) -> (b: bool)
    ensures
        b == is_alphanumeric_spec(c),
        (c as u32) < 128 ==> (b <==> (ascii_letter(c) || ascii_digit(c))),
{
    c.is_alphanumeric()
}

/// A project name starts with a letter or `_` and holds only letters, digits,
/// `_` and `-`.
pub open spec fn valid_project_name(s: Seq<char>) -> bool {
    &&& s.len() > 0
    &&& (is_alphabetic_spec(s[0]) || s[0] == '_')
    &&& forall|i: int| 0 <= i < s.len() ==> (is_alphanumeric_spec(#[trigger] s[i]) || s[i] == '_' || s[i] == '-')
}

/// For an all-ASCII name: starts with an ASCII letter or `_` and holds only
/// ASCII letters, digits, `_` and `-`.
pub open spec fn valid_ascii_project_name(s: Seq<char>) -> bool {
    &&& s.len() > 0
    &&& (ascii_letter(s[0]) || s[0] == '_')
    &&& forall|i: int| 0 <= i < s.len() ==> (ascii_letter(#[trigger] s[i]) || ascii_digit(s[i]) || s[i] == '_' || s[i] == '-')
}

/// Every character of `s` is ASCII.
pub open spec fn all_ascii(s: Seq<char>) -> bool {
    forall|i: int| 0 <= i < s.len() ==> (#[trigger] s[i] as u32) < 128
}

/// Creates project scaffolding; the file writing lives with the command-line front end.
pub struct ProjectInitializer;

impl ProjectInitializer {
    pub fn is_valid_project_name(name: &str) -> (b: bool)
        ensures
            b == valid_project_name(name@),
            all_ascii(name@) ==> (b == valid_ascii_project_name(name@)),
    {
        let n = name.unicode_len();
        if n == 0 {
            return false;
        }
        let first = name.get_char(0);
        let alpha = char_is_alphabetic(first);
        if !(alpha || first == '_') {
            proof {
                if all_ascii(name@) {
                    assert((name@[0] as u32) < 128);
                }
            }
            return false;
        }
        let mut i: usize = 0;
        while i < n
            invariant
                n == name@.len(),
                i <= n,
                n > 0,
                first == name@[0],
                alpha == is_alphabetic_spec(first),
                alpha || first == '_',
                (first as u32) < 128 ==> (alpha <==> ascii_letter(first)),
                forall|j: int| 0 <= j < i ==> (is_alphanumeric_spec(#[trigger] name@[j]) || name@[j] == '_' || name@[j] == '-'),
                forall|j: int| 0 <= j < i ==> ((#[trigger] name@[j] as u32) < 128 ==> (ascii_letter(name@[j])
                    || ascii_digit(name@[j]) || name@[j] == '_' || name@[j] == '-')),
            decreases n - i,
        {
            let c = name.get_char(i);
            let an = char_is_alphanumeric(c);
            if !(an || c == '_' || c == '-') {
                proof {
                    if all_ascii(name@) {
                        assert((name@[i as int] as u32) < 128);
                    }
                }
                return false;
            }
            i = i + 1;
        }
        proof {
            if all_ascii(name@) {
                assert((name@[0] as u32) < 128);
                assert forall|j: int| 0 <= j < name@.len() implies (ascii_letter(#[trigger] name@[j])
                    || ascii_digit(name@[j]) || name@[j] == '_' || name@[j] == '-') by {
                    assert((name@[j] as u32) < 128);
                }
            }
        }
        true
    }

    pub fn generate_toml(name: &str, template: &str) -> (s: String)
        ensures
            s@ == toml_text(name@, template@),
    {
        let mut s = String::new();
        s.append("[package]\nname = \"");
        s.append(name);
        s.append("\"\nversion = \"0.1.0\"\nedition = \"2021\"\nauthors = [\"Your Name <you@example.com>\"]\ndescription = \"NROS project ");
        s.append(name);
        s.append(" — template ");
        s.append(template);
        s.append(" — compilable prototype\"\n\n[dependencies]\n# NROS core crates — uncomment if building inside NROS workspace\n# nros-core = { path = \"../NROS/crates/nros-core\" }\n# nros-node = { path = \"../NROS/crates/nros-node\" }\n\n[build-dependencies]\n\n# NROS metadata for future tooling (not used by cargo)\n[package.metadata.nros]\nnros_version = \"0.1\"\ntemplate = \"");
        s.append(template);
        s.append("\"\ngenerated_from = \"nros-cli init\"\n\n[package.metadata.nros.nodes]\nmain = { path = \"src/nodes/main.rs\", priority = 100 }\n\n[package.metadata.nros.build]\nprofile = \"debug\"\nfeatures = [\"real-time\"]\n\n[package.metadata.nros.simulation]\nphysics_engine = \"bullet\"\nrenderer = \"vulkan\"\nrealtime_factor = 1.0\n");
        s
    }

    pub fn generate_launch_file(name: &str) -> (s: String)
        ensures
            s@ == launch_text(name@),
    {
        let mut s = String::new();
        s.append("# NROS Launch Configuration with graph validation\n# nros check --graph validates this\nname: ");
        s.append(name);
        s.append("\nversion: \"1.0\"\n\nnodes:\n  - name: main_node\n    package: ");
        s.append(name);
        s.append("\n    executable: main\n    priority: 100\n    parameters:\n      frequency: 50.0\n      max_speed: 2.0\n    remap:\n      /cmd_vel: /global/cmd_vel\n\ntopics:\n  - name: /cmd_vel\n    type: geometry_msgs/Twist\n    qos: realtime # max_latency_us: 100\n  - name: /odom\n    type: nav_msgs/Odometry\n    qos: reliable\n\n# Static graph validation — compiler checks inputs have matching outputs, type compatibility, cycle detection\ngraph:\n  nodes:\n    - name: camera_driver\n      outputs: [/camera/image_raw]\n    - name: object_detector\n      inputs: [/camera/image_raw]\n      outputs: [/detected_objects]\n    - name: motion_planner\n      inputs: [/detected_objects]\n      outputs: [/cmd_vel]\n");
        s
    }

    pub fn generate_robot_config(name: &str) -> (s: String)
        ensures
            s@ == robot_config_text(name@),
    {
        let mut s = String::new();
        s.append("# Robot configuration with dynamic reconfiguration\nrobot:\n  name: ");
        s.append(name);
        s.append("\n  wheel_base: 0.5\n  wheel_radius: 0.1\n\nsensors:\n  camera:\n    resolution: [640, 480]\n    fps: 30\n    format: RGB8\n  lidar:\n    rate: 10\n    range: 20.0\n\nparameters:\n  max_speed: 2.0\n  safety_distance: 0.5\n");
        s
    }

    pub fn generate_readme(name: &str, template: &str) -> (s: String)
        ensures
            s@ == readme_text(name@, template@),
    {
        let mut s = String::new();
        s.append("# ");
        s.append(name);
        s.append(" — NROS Project (");
        s.append(template);
        s.append(")\n\nCreated via `nros init ");
        s.append(name);
        s.append(" --template=");
        s.append(template);
        s.append("`.\n\n## Build\n```bash\nnros build --profile=realtime  # -O3, LTO, static linking\nnros build --profile=embedded  # ~480KB binary, 2MB RAM\n```\n\n## Run\n```bash\nnros run --inspect  # http://localhost:8080 NROS Studio live graph\nnros topic list\nnros topic echo /cmd_vel\nnros profile --duration=60s --output=profile.svg\n```\n\n## Simulation\n```toml\n#[cfg_attr(simulation, nros::sim)]\nstruct MyRobot { #[sim(model=\"models/");
        s.append(name);
        s.append(".urdf\")] robot: RobotHandle }\n```\n\n## Fleet\n```bash\nnros fleet list\nnros fleet deploy --version=1.1.0 --canary=25\n```\n");
        s
    }

    /// Extra dependencies of a template: none, so the generated project builds on its own.
    pub fn template_dependencies(template: &str) -> (s: &'static str)
        ensures
            s@ == ""@,
    {
        ""
    }

    /// The sample node of a template: the mobile-base controller, or the basic node.
    pub fn generate_sample_node(template: &str) -> (s: String)
        ensures
            s@ == if template@ == "mobile_base"@ { mobile_base_node_text() } else { basic_node_text() },
    {
        if str_eq(template, "mobile_base") {
            String::from_str("//! Mobile base template — compiles without external NROS macros\n//! This is a SCAFFOLDED implementation\n//! To use full NROS API with #[nros::node], add nros facade crate and proc macros\nuse std::time::Duration;\n\n#[derive(Debug, Clone, Copy)]\npub struct Twist { pub linear_x: f64, pub angular_z: f64 }\n\npub struct VelocityController {\n    max_speed: f64,\n    wheel_base: f64,\n}\n\nimpl VelocityController {\n    pub fn new() -> Self {\n        Self { max_speed: 2.0, wheel_base: 0.5 }\n    }\n\n    // Real-time callback target <1ms (would be #[callback(realtime=true, deadline_us=1000)] in full NROS)\n    pub fn on_cmd_vel(&mut self, msg: Twist) -> (f64, f64) {\n        let linear = msg.linear_x.clamp(-self.max_speed, self.max_speed);\n        let angular = msg.angular_z;\n        let left = linear - (angular * self.wheel_base / 2.0);\n        let right = linear + (angular * self.wheel_base / 2.0);\n        (left, right)\n    }\n}\n\nfn main() {\n    println!(\"NROS mobile_base template — basic example (SCAFFOLDED, not yet full RT)\");\n    let mut controller = VelocityController::new();\n    let cmd = Twist { linear_x: 1.0, angular_z: 0.5 };\n    let (left, right) = controller.on_cmd_vel(cmd);\n    println!(\"Motor: left={:.2} right={:.2}\", left, right);\n    std::thread::sleep(Duration::from_millis(100));\n    println!(\"This project compiles: cargo check passes\");\n}\n")
        } else {
            String::from_str("//! Basic node template — compiles without external NROS dependencies\n//! Status: IMPLEMENTED (basic) — full macro API is SPECIFIED but not yet IMPLEMENTED\nuse std::time::Duration;\n\nfn main() {\n    println!(\"Hello, NROS! Basic node (SCAFFOLDED template)\");\n    for i in 0..3 {\n        println!(\"  Iteration {}: Publishing Hello, NROS! (would be Publisher<String> in full API)\", i);\n        std::thread::sleep(Duration::from_millis(100));\n    }\n    println!(\"This template compiles: cargo check passes\");\n    println!(\"For full NROS API with #[nros::node], see crates/nros-node\");\n}\n")
        }
    }

    pub fn generate_lib_rs() -> (s: String)
        ensures
            s@ == lib_rs_text(),
    {
        String::from_str("//! Shared utilities\npub mod utils {\n    pub fn compute_velocity() -> f64 { 0.0 }\n}\n")
    }
}

pub open spec fn mobile_base_node_text() -> Seq<char> {
    "//! Mobile base template — compiles without external NROS macros\n//! This is a SCAFFOLDED implementation\n//! To use full NROS API with #[nros::node], add nros facade crate and proc macros\nuse std::time::Duration;\n\n#[derive(Debug, Clone, Copy)]\npub struct Twist { pub linear_x: f64, pub angular_z: f64 }\n\npub struct VelocityController {\n    max_speed: f64,\n    wheel_base: f64,\n}\n\nimpl VelocityController {\n    pub fn new() -> Self {\n        Self { max_speed: 2.0, wheel_base: 0.5 }\n    }\n\n    // Real-time callback target <1ms (would be #[callback(realtime=true, deadline_us=1000)] in full NROS)\n    pub fn on_cmd_vel(&mut self, msg: Twist) -> (f64, f64) {\n        let linear = msg.linear_x.clamp(-self.max_speed, self.max_speed);\n        let angular = msg.angular_z;\n        let left = linear - (angular * self.wheel_base / 2.0);\n        let right = linear + (angular * self.wheel_base / 2.0);\n        (left, right)\n    }\n}\n\nfn main() {\n    println!(\"NROS mobile_base template — basic example (SCAFFOLDED, not yet full RT)\");\n    let mut controller = VelocityController::new();\n    let cmd = Twist { linear_x: 1.0, angular_z: 0.5 };\n    let (left, right) = controller.on_cmd_vel(cmd);\n    println!(\"Motor: left={:.2} right={:.2}\", left, right);\n    std::thread::sleep(Duration::from_millis(100));\n    println!(\"This project compiles: cargo check passes\");\n}\n"@
}

pub open spec fn basic_node_text() -> Seq<char> {
    "//! Basic node template — compiles without external NROS dependencies\n//! Status: IMPLEMENTED (basic) — full macro API is SPECIFIED but not yet IMPLEMENTED\nuse std::time::Duration;\n\nfn main() {\n    println!(\"Hello, NROS! Basic node (SCAFFOLDED template)\");\n    for i in 0..3 {\n        println!(\"  Iteration {}: Publishing Hello, NROS! (would be Publisher<String> in full API)\", i);\n        std::thread::sleep(Duration::from_millis(100));\n    }\n    println!(\"This template compiles: cargo check passes\");\n    println!(\"For full NROS API with #[nros::node], see crates/nros-node\");\n}\n"@
}

pub open spec fn lib_rs_text() -> Seq<char> {
    "//! Shared utilities\npub mod utils {\n    pub fn compute_velocity() -> f64 { 0.0 }\n}\n"@
}

/// The `nros.toml` of a new project.
pub open spec fn toml_text(name: Seq<char>, template: Seq<char>) -> Seq<char> {
    "[package]\nname = \""@ + name + "\"\nversion = \"0.1.0\"\nedition = \"2021\"\nauthors = [\"Your Name <you@example.com>\"]\ndescription = \"NROS project "@ + name + " — template "@ + template + " — compilable prototype\"\n\n[dependencies]\n# NROS core crates — uncomment if building inside NROS workspace\n# nros-core = { path = \"../NROS/crates/nros-core\" }\n# nros-node = { path = \"../NROS/crates/nros-node\" }\n\n[build-dependencies]\n\n# NROS metadata for future tooling (not used by cargo)\n[package.metadata.nros]\nnros_version = \"0.1\"\ntemplate = \""@ + template + "\"\ngenerated_from = \"nros-cli init\"\n\n[package.metadata.nros.nodes]\nmain = { path = \"src/nodes/main.rs\", priority = 100 }\n\n[package.metadata.nros.build]\nprofile = \"debug\"\nfeatures = [\"real-time\"]\n\n[package.metadata.nros.simulation]\nphysics_engine = \"bullet\"\nrenderer = \"vulkan\"\nrealtime_factor = 1.0\n"@
}


/// The launch file of a new project.
pub open spec fn launch_text(name: Seq<char>) -> Seq<char> {
    "# NROS Launch Configuration with graph validation\n# nros check --graph validates this\nname: "@ + name + "\nversion: \"1.0\"\n\nnodes:\n  - name: main_node\n    package: "@ + name + "\n    executable: main\n    priority: 100\n    parameters:\n      frequency: 50.0\n      max_speed: 2.0\n    remap:\n      /cmd_vel: /global/cmd_vel\n\ntopics:\n  - name: /cmd_vel\n    type: geometry_msgs/Twist\n    qos: realtime # max_latency_us: 100\n  - name: /odom\n    type: nav_msgs/Odometry\n    qos: reliable\n\n# Static graph validation — compiler checks inputs have matching outputs, type compatibility, cycle detection\ngraph:\n  nodes:\n    - name: camera_driver\n      outputs: [/camera/image_raw]\n    - name: object_detector\n      inputs: [/camera/image_raw]\n      outputs: [/detected_objects]\n    - name: motion_planner\n      inputs: [/detected_objects]\n      outputs: [/cmd_vel]\n"@
}


/// The robot configuration of a new project.
pub open spec fn robot_config_text(name: Seq<char>) -> Seq<char> {
    "# Robot configuration with dynamic reconfiguration\nrobot:\n  name: "@ + name + "\n  wheel_base: 0.5\n  wheel_radius: 0.1\n\nsensors:\n  camera:\n    resolution: [640, 480]\n    fps: 30\n    format: RGB8\n  lidar:\n    rate: 10\n    range: 20.0\n\nparameters:\n  max_speed: 2.0\n  safety_distance: 0.5\n"@
}


/// The README of a new project.
pub open spec fn readme_text(name: Seq<char>, template: Seq<char>) -> Seq<char> {
    "# "@ + name + " — NROS Project ("@ + template + ")\n\nCreated via `nros init "@ + name + " --template="@ + template + "`.\n\n## Build\n```bash\nnros build --profile=realtime  # -O3, LTO, static linking\nnros build --profile=embedded  # ~480KB binary, 2MB RAM\n```\n\n## Run\n```bash\nnros run --inspect  # http://localhost:8080 NROS Studio live graph\nnros topic list\nnros topic echo /cmd_vel\nnros profile --duration=60s --output=profile.svg\n```\n\n## Simulation\n```toml\n#[cfg_attr(simulation, nros::sim)]\nstruct MyRobot { #[sim(model=\"models/"@ + name + ".urdf\")] robot: RobotHandle }\n```\n\n## Fleet\n```bash\nnros fleet list\nnros fleet deploy --version=1.1.0 --canary=25\n```\n"@
}


/// Builds projects; running cargo lives with the command-line front end.
pub struct BuildSystem;

/// Result of a build.
#[derive(Debug, Clone)]
pub struct BuildOutput {
    pub profile: BuildProfile,
    pub binary_size_kb: u64,
    pub elapsed: Duration,
    pub features: Vec<String>,
}

/// Nominal binary size of each profile, in KiB.
pub open spec fn nominal_size_kb(p: BuildProfile) -> u64 {
    match p {
        BuildProfile::Debug => 2300,
        BuildProfile::Release => 1120,
        BuildProfile::Realtime => 950,
        BuildProfile::Embedded => 480,
    }
}

/// Features each profile builds with.
pub open spec fn profile_features(p: BuildProfile) -> Seq<Seq<char>> {
    match p {
        BuildProfile::Debug => seq!["debug symbols"@, "no opt"@],
        BuildProfile::Release => seq!["-O3"@, "LTO"@],
        BuildProfile::Realtime => seq!["-O3"@, "LTO"@, "CPU native"@, "real-time guarantees"@, "static pools"@],
        BuildProfile::Embedded => seq!["size"@, "LTO"@, "minimal runtime"@, "no-std"@, "static_pools"@],
    }
}

fn strings_of(words: &[&str]) -> (v: Vec<String>)
    ensures
        v@.len() == words@.len(),
        forall|i: int| 0 <= i < words@.len() ==> (#[trigger] v@[i])@ == words@[i]@,
{
    let mut v: Vec<String> = Vec::new();
    let mut i: usize = 0;
    while i < words.len()
        invariant
            i <= words@.len(),
            v@.len() == i,
            forall|j: int| 0 <= j < i ==> (#[trigger] v@[j])@ == words@[j]@,
        decreases words@.len() - i,
    {
        v.push(words[i].to_owned());
        i = i + 1;
    }
    v
}

impl BuildSystem {
    /// The build output recorded for `profile`: its nominal size and feature list.
    pub fn summarize(profile: BuildProfile, elapsed: Duration) -> (o: BuildOutput)
        ensures
            o.profile == profile,
            o.binary_size_kb == nominal_size_kb(profile),
            o.elapsed == elapsed,
            o.features@.map_values(|s: String| s@) == profile_features(profile),
    {
        let (size_kb, features) = match profile {
            BuildProfile::Debug => (2300, strings_of(&["debug symbols", "no opt"])),
            BuildProfile::Release => (1120, strings_of(&["-O3", "LTO"])),
            BuildProfile::Realtime => (950, strings_of(&["-O3", "LTO", "CPU native", "real-time guarantees", "static pools"])),
            BuildProfile::Embedded => (480, strings_of(&["size", "LTO", "minimal runtime", "no-std", "static_pools"])),
        };
        assert(features@.map_values(|s: String| s@) =~= profile_features(profile));
        BuildOutput { profile, binary_size_kb: size_kb, elapsed, features }
    }
}

/// Topic listing and inspection (`nros topic ...`).
pub struct TopicInspector;

/// Performance profiling (`nros profile`).
pub struct Profiler;

/// Fleet operations (`nros fleet ...`).
pub struct FleetManager;

/// Recording and replay (`nros record`, `nros replay`).
pub struct Recorder;

/// ROS 2 migration helpers (`nros migrate ...`).
pub struct MigrationTools;

/// The command-line dispatcher.
pub struct CLI;

} // verus!

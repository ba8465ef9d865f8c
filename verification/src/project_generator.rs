//! Files of a new game project: the Cargo.toml, the main source file of
//! each template, the ignore list and the build configuration; and the
//! package name read back from a Cargo.toml.

use vstd::prelude::*;

verus! {

/// Template for a new game project.
#[derive(Debug, Clone, Copy, PartialEq, Eq, Structural)]
pub enum ProjectTemplate {
    /// Minimal project with a camera and an empty update system.
    Empty,
    /// 2D game with tilemap rendering and level loading.
    Tilemap2D,
}

impl ProjectTemplate {
    /// Name shown in the project wizard.
    pub fn name(&self) -> (r: &'static str)
        ensures
            r == match *self {
                ProjectTemplate::Empty => "Empty Bevy Project",
                ProjectTemplate::Tilemap2D => "2D Tilemap Game",
            },
    {
        match self {
            ProjectTemplate::Empty => "Empty Bevy Project",
            ProjectTemplate::Tilemap2D => "2D Tilemap Game",
        }
    }

    /// One-line description shown in the project wizard.
    pub fn description(&self) -> (r: &'static str)
        ensures
            r == match *self {
                ProjectTemplate::Empty => "A minimal Bevy project with basic setup",
                ProjectTemplate::Tilemap2D => "A 2D game with tilemap rendering and level loading support",
            },
    {
        match self {
            ProjectTemplate::Empty => "A minimal Bevy project with basic setup",
            ProjectTemplate::Tilemap2D => "A 2D game with tilemap rendering and level loading support",
        }
    }
}

impl Default for ProjectTemplate {
    /// The wizard offers the tilemap template first.
    fn default() -> (r: Self)
        ensures
            r == ProjectTemplate::Tilemap2D,
    {
        ProjectTemplate::Tilemap2D
    }
}

/// Source of `src/main.rs` for the empty template.
pub const EMPTY_MAIN_RS: &'static str = r#"use bevy::prelude::*;

fn main() {
    App::new()
        .add_plugins(DefaultPlugins.set(WindowPlugin {
            primary_window: Some(Window {
                title: "My Bevy Game".to_string(),
                resolution: (1280.0, 720.0).into(),
                ..default()
            }),
            ..default()
        }))
        .add_systems(Startup, setup)
        .add_systems(Update, hello_world)
        .run();
}

fn setup(mut commands: Commands) {
    // Spawn camera
    commands.spawn(Camera2d);

    info!("Game initialized!");
}

fn hello_world() {
    // Your game logic here
}
"#;

/// A minimal Bevy `main.rs`.
pub fn generate_empty_main() -> (r: String)
    ensures
        r@ == EMPTY_MAIN_RS@,
{
    String::from_str(EMPTY_MAIN_RS)
}

/// Source of `src/main.rs` for the tilemap template.
pub const TILEMAP_MAIN_RS: &'static str = r#"use bevy::prelude::*;
use bevy_ecs_tilemap::prelude::*;
use serde::{Deserialize, Serialize};

/// Level data structure
#[derive(Debug, Clone, Serialize, Deserialize)]
pub struct LevelData {
    pub name: String,
    pub version: String,
    // Add your level data fields here
}

impl LevelData {
    /// Load level from JSON file
    pub fn load_from_json(path: &str) -> Result<Self, Box<dyn std::error::Error>> {
        let contents = std::fs::read_to_string(path)?;
        let level: LevelData = serde_json::from_str(&contents)?;
        Ok(level)
    }
}

fn main() {
    App::new()
        .add_plugins((
            DefaultPlugins
                .set(AssetPlugin {
                    file_path: "assets".to_string(),
                    watch_for_changes_override: Some(true),
                    ..default()
                })
                .set(WindowPlugin {
                    primary_window: Some(Window {
                        title: "My Tilemap Game".to_string(),
                        resolution: (1280.0, 720.0).into(),
                        ..default()
                    }),
                    ..default()
                }),
            TilemapPlugin,
        ))
        .add_systems(Startup, setup)
        .run();
}

fn setup(mut commands: Commands) {
    // Spawn camera
    commands.spawn(Camera2d);

    info!("Tilemap game initialized!");

    // Load your level here
    // Example: let level = LevelData::load_from_json("assets/world/level1.json").unwrap();
}
"#;

/// A Bevy `main.rs` with tilemap rendering and a level type.
pub fn generate_tilemap_main() -> (r: String)
    ensures
        r@ == TILEMAP_MAIN_RS@,
{
    String::from_str(TILEMAP_MAIN_RS)
}

/// The source of `src/main.rs` for a template.
pub open spec fn main_rs_text(template: ProjectTemplate) -> Seq<char> {
    match template {
        ProjectTemplate::Empty => EMPTY_MAIN_RS@,
        ProjectTemplate::Tilemap2D => TILEMAP_MAIN_RS@,
    }
}

/// The source of `src/main.rs` for `template`.
pub fn generate_main_rs(template: &ProjectTemplate) -> (r: String)
    ensures
        r@ == main_rs_text(*template),
{
    match template {
        ProjectTemplate::Empty => generate_empty_main(),
        ProjectTemplate::Tilemap2D => generate_tilemap_main(),
    }
}

/// The `.gitignore` of a new project.
pub const GITIGNORE: &'static str = "/target
/.vscode
/.idea
*.log
.DS_Store
Cargo.lock
";

/// The contents of the project's `.gitignore`.
pub fn generate_gitignore() -> (r: String)
    ensures
        r@ == GITIGNORE@,
{
    String::from_str(GITIGNORE)
}

/// The `.cargo/config.toml` of a new project, which keeps build memory low.
pub const CARGO_CONFIG: &'static str = r#"# Cargo configuration for optimized Bevy builds
# This reduces memory usage during compilation

[build]
# Use a single codegen unit to reduce memory usage (slower but uses less RAM)
# Increase this number if you have more RAM available
# codegen-units = 1

[profile.dev]
# Optimize dependencies even in dev mode to reduce memory usage
opt-level = 1

[profile.dev.package."*"]
# Optimize all dependencies in dev mode
opt-level = 3

# Use LLD linker for faster builds (Windows/Linux)
[target.x86_64-pc-windows-msvc]
linker = "rust-lld"

[target.x86_64-unknown-linux-gnu]
linker = "clang"
rustflags = ["-C", "link-arg=-fuse-ld=lld"]

# Reduce parallel jobs to prevent OOM on machines with limited RAM
# Uncomment and adjust if you're still running out of memory
# [build]
# jobs = 4
"#;

/// The contents of the project's `.cargo/config.toml`.
pub fn generate_cargo_config() -> (r: String)
    ensures
        r@ == CARGO_CONFIG@,
{
    String::from_str(CARGO_CONFIG)
}

/// The directories of a new project, parents before children.
pub open spec fn project_directory_names() -> Seq<&'static str> {
    seq!["src", "assets", "assets/tilesets", "assets/world", "assets/sprites", "assets/audio", ".cargo"]
}

/// The directories a new project is made of, parents before children.
pub fn project_directories() -> (r: Vec<&'static str>)
    ensures
        r@ == project_directory_names(),
{
    let v = vec!["src", "assets", "assets/tilesets", "assets/world", "assets/sprites", "assets/audio", ".cargo"];
    assert(v@ =~= project_directory_names());
    v
}

/// What `str::to_lowercase` makes of `s` (full Unicode lowercase mapping).
pub uninterp spec fn lowercase(s: Seq<char>) -> Seq<char>;

/// Calls `str::to_lowercase`; the result is its lowercase mapping of `s`,
/// named by `lowercase`.
#[verifier::external_body]
fn to_lowercase(s: &str) -> (r: String)
    ensures
        r@ == lowercase(s@),
{
    s.to_lowercase()
}

/// What `char::is_alphanumeric` says of `c` (Unicode alphabetic or numeric).
pub uninterp spec fn alphanumeric(c: char) -> bool;

/// Calls `char::is_alphanumeric`; the answer is named by `alphanumeric`.
#[verifier::external_body]
fn is_alphanumeric(c: char) -> (r: bool)
    ensures
        r == alphanumeric(c),
{
    c.is_alphanumeric()
}

/// Calls `String::push`, which appends `c` to `s`.
#[verifier::external_body]
pub(crate) fn push_char(s: &mut String, c: char)
    ensures
        final(s)@ == old(s)@.push(c),
{
    s.push(c)
}

/// A character of a lowercased project name as it goes into the package
/// name: spaces become dashes.
pub open spec fn dashed(c: char) -> char {
    if c == ' ' {
        '-'
    } else {
        c
    }
}

/// Whether a character may stay in a package name: alphanumeric, a dash or
/// an underscore.
pub open spec fn package_char(c: char) -> bool {
    alphanumeric(c) || c == '-' || c == '_'
}

/// The package name made from the lowercased project name `lowered`: spaces
/// become dashes, then every character that may not stay is dropped.
pub open spec fn package_name_of(lowered: Seq<char>) -> Seq<char>
    decreases lowered.len(),
{
    if lowered.len() == 0 {
        Seq::empty()
    } else {
        let prev = package_name_of(lowered.drop_last());
        let c = dashed(lowered.last());
        if package_char(c) {
            prev.push(c)
        } else {
            prev
        }
    }
}

/// A package name holds only characters that may stay in one:
/// alphanumerics, dashes and underscores (never a space).
pub proof fn lemma_package_name_chars(lowered: Seq<char>)
    ensures
        forall|i: int|
            0 <= i < package_name_of(lowered).len() ==> #[trigger] package_char(package_name_of(lowered)[i])
                && package_name_of(lowered)[i] != ' ',
    decreases lowered.len(),
{
    if lowered.len() > 0 {
        lemma_package_name_chars(lowered.drop_last());
        let prev = package_name_of(lowered.drop_last());
        let c = dashed(lowered.last());
        if package_char(c) {
            assert forall|i: int| 0 <= i < prev.push(c).len() implies #[trigger] package_char(prev.push(c)[i])
                && prev.push(c)[i] != ' ' by {
                if i < prev.len() {
                    assert(prev.push(c)[i] == prev[i]);
                    assert(package_char(prev[i]));
                }
            }
        }
    }
}

/// Turns an already lowercased project name into a package name: spaces
/// become dashes and the characters a package name cannot hold are dropped.
pub fn package_name_from_lowercase(lowered: &str) -> (r: String)
    ensures
        r@ == package_name_of(lowered@),
{
    let n = lowered.unicode_len();
    let mut out = String::new();
    let mut i: usize = 0;
    while i < n
        invariant
            n == lowered@.len(),
            i <= n,
            out@ == package_name_of(lowered@.take(i as int)),
        decreases n - i,
    {
        let c = lowered.get_char(i);
        let d = if c == ' ' {
            '-'
        } else {
            c
        };
        let keep = d == '-' || d == '_' || is_alphanumeric(d);
        proof {
            let t = lowered@.take(i as int + 1);
            assert(t.drop_last() =~= lowered@.take(i as int));
            assert(t.last() == c);
        }
        if keep {
            push_char(&mut out, d);
        }
        i = i + 1;
    }
    assert(lowered@.take(n as int) =~= lowered@);
    out
}

/// The package name for a project: the name lowercased, spaces turned into
/// dashes, and every character other than alphanumerics, dashes and
/// underscores dropped.
pub fn package_name(project_name: &str) -> (r: String)
    ensures
        r@ == package_name_of(lowercase(project_name@)),
{
    let lowered = to_lowercase(project_name);
    package_name_from_lowercase(lowered.as_str())
}

/// Dependencies of the Cargo.toml for each template.
pub open spec fn template_dependencies(template: ProjectTemplate) -> Seq<char> {
    match template {
        ProjectTemplate::Empty => EMPTY_DEPENDENCIES@,
        ProjectTemplate::Tilemap2D => TILEMAP_DEPENDENCIES@,
    }
}

/// Dependencies of a project made from the empty template.
pub const EMPTY_DEPENDENCIES: &'static str = r#"bevy = "0.16""#;

/// Dependencies of a project made from the tilemap template.
pub const TILEMAP_DEPENDENCIES: &'static str = r#"bevy = { version = "0.16", features = ["file_watcher"] }
bevy_ecs_tilemap = "0.16"
serde = { version = "1.0", features = ["derive"] }
serde_json = "1.0""#;

/// The Cargo.toml up to the package name.
pub const CARGO_TOML_START: &'static str = "[package]\nname = \"";

/// The Cargo.toml between the package name and the binary name.
pub const CARGO_TOML_BIN: &'static str = "\"\nversion = \"0.1.0\"\nedition = \"2021\"\n\n[[bin]]\nname = \"";

/// The Cargo.toml between the binary name and the dependencies.
pub const CARGO_TOML_DEPENDENCIES: &'static str = "\"\npath = \"src/main.rs\"\n\n[dependencies]\n";

/// The Cargo.toml after the dependencies.
pub const CARGO_TOML_END: &'static str = r#"

[profile.dev]
opt-level = 1  # Improve development performance

[profile.dev.package."*"]
opt-level = 3  # Optimize dependencies for better performance
"#;

/// The Cargo.toml of a project with package (and binary) name
/// `package` made from `template`.
pub open spec fn cargo_toml_text(package: Seq<char>, template: ProjectTemplate) -> Seq<char> {
    CARGO_TOML_START@ + package + CARGO_TOML_BIN@ + package + CARGO_TOML_DEPENDENCIES@ + template_dependencies(
        template,
    ) + CARGO_TOML_END@
}

/// The Cargo.toml for package `package` made from `template`.
pub fn cargo_toml_for_package(package: &str, template: &ProjectTemplate) -> (r: String)
    ensures
        r@ == cargo_toml_text(package@, *template),
{
    let mut text = String::from_str(CARGO_TOML_START);
    text.append(package);
    text.append(CARGO_TOML_BIN);
    text.append(package);
    text.append(CARGO_TOML_DEPENDENCIES);
    match template {
        ProjectTemplate::Empty => text.append(EMPTY_DEPENDENCIES),
        ProjectTemplate::Tilemap2D => text.append(TILEMAP_DEPENDENCIES),
    }
    text.append(CARGO_TOML_END);
    text
}

/// The Cargo.toml of a new project named `project_name`, whose package
/// and binary are named after the project (see `package_name`).
pub fn generate_cargo_toml(project_name: &str, template: &ProjectTemplate) -> (r: String)
    ensures
        r@ == cargo_toml_text(package_name_of(lowercase(project_name@)), *template),
{
    let package = package_name(project_name);
    cargo_toml_for_package(package.as_str(), template)
}

/// A TOML document as plain values, as far as a Cargo.toml is read: each
/// top-level key with, when its value is a table, that table's keys, each
/// with its string value (`None` for a value that is not a string).
pub type TomlTables = Vec<(String, Option<Vec<(String, Option<String>)>>)>;

/// What the `toml` crate reads from a document: `Err` with the crate's error
/// message when `contents` is not a TOML document; otherwise its top-level
/// keys in the order of the crate's map, as `TomlTables` describes them.
pub uninterp spec fn toml_tables(contents: Seq<char>) -> Result<
    Seq<(Seq<char>, Option<Seq<(Seq<char>, Option<Seq<char>>)>>)>,
    Seq<char>,
>;

/// Parses `contents` with `toml::from_str` into a `toml::Table` and turns it
/// into plain values: each key with its value's entries when the value is a
/// table (`Value::as_table`), each entry with its string when it is one
/// (`Value::as_str`). A parse error becomes its message (`Display`). The
/// result is named by `toml_tables`.
#[verifier::external_body]
fn parse_toml_tables(contents: &str) -> (r: Result<TomlTables, String>)
    ensures
        match r {
            Ok(tables) => toml_tables(contents@) == Ok::<
                Seq<(Seq<char>, Option<Seq<(Seq<char>, Option<Seq<char>>)>>)>,
                Seq<char>,
            >(tables.deep_view()),
            Err(message) => toml_tables(contents@) is Err && toml_tables(contents@)->Err_0 == message@,
        },
{
    let table: toml::Table = match toml::from_str(contents) {
        Ok(table) => table,
        Err(e) => return Err(e.to_string()),
    };
    Ok(table.iter().map(|(key, value)| (key.clone(), value.as_table().map(|inner| inner.iter().map(
        |(k, v)| (k.clone(), v.as_str().map(|s| s.to_string())),
    ).collect()))).collect())
}

/// The value under `key` in `entries`: that of the first entry with that
/// key.
pub open spec fn value_under<V>(entries: Seq<(Seq<char>, V)>, key: Seq<char>) -> Option<V>
    decreases entries.len(),
{
    if entries.len() == 0 {
        None
    } else if entries[0].0 == key {
        Some(entries[0].1)
    } else {
        value_under(entries.drop_first(), key)
    }
}

/// The string under `name` in the `package` table of a document read as
/// tables, if there is one.
pub open spec fn package_name_in(tables: Seq<(Seq<char>, Option<Seq<(Seq<char>, Option<Seq<char>>)>>)>) -> Option<
    Seq<char>,
> {
    match value_under(tables, "package"@) {
        Some(Some(package)) => match value_under(package, "name"@) {
            Some(Some(name)) => Some(name),
            _ => None,
        },
        _ => None,
    }
}

/// The position of the first entry of `entries` with key `key`, if any.
fn find_key<V: DeepView>(entries: &Vec<(String, V)>, key: &String) -> (r: Option<usize>)
    ensures
        match r {
            Some(i) => i < entries@.len() && value_under(entries.deep_view(), key@) == Some(
                entries@[i as int].1.deep_view(),
            ),
            None => value_under(entries.deep_view(), key@) is None,
        },
{
    let ghost dv = entries.deep_view();
    assert(dv.subrange(0, dv.len() as int) =~= dv);
    let mut i: usize = 0;
    while i < entries.len()
        invariant
            i <= entries@.len(),
            dv == entries.deep_view(),
            dv.len() == entries@.len(),
            value_under(dv, key@) == value_under(dv.subrange(i as int, dv.len() as int), key@),
        decreases entries@.len() - i,
    {
        assert(dv.subrange(i as int, dv.len() as int)[0] == entries@[i as int].deep_view());
        if entries[i].0 == *key {
            return Some(i);
        }
        assert(dv.subrange(i as int, dv.len() as int).drop_first() =~= dv.subrange(i + 1, dv.len() as int));
        i = i + 1;
    }
    None
}

/// Why no package name could be read from a Cargo.toml.
#[derive(Debug, Clone, PartialEq, Eq)]
pub enum CargoTomlError {
    /// The Cargo.toml is not a TOML document; the `toml` crate's message.
    InvalidToml(String),
    /// The Cargo.toml has no string `package.name`.
    MissingPackageName,
}

/// The message for a Cargo.toml without a package name.
pub open spec fn missing_package_name_message() -> Seq<char> {
    "Could not find package name in Cargo.toml"@
}

impl CargoTomlError {
    /// The message shown for the error: the parser's own message for a
    /// document that is not TOML.
    pub fn message(&self) -> (r: String)
        ensures
            r@ == match *self {
                CargoTomlError::InvalidToml(m) => m@,
                CargoTomlError::MissingPackageName => missing_package_name_message(),
            },
    {
        match self {
            CargoTomlError::InvalidToml(m) => m.clone(),
            CargoTomlError::MissingPackageName => String::from_str("Could not find package name in Cargo.toml"),
        }
    }
}

/// The package name of a Cargo.toml read as tables: the string under
/// `name` in the `package` table, or `MissingPackageName` when there is
/// none.
pub fn package_name_from_tables(tables: &TomlTables) -> (r: Result<String, CargoTomlError>)
    ensures
        match package_name_in(tables.deep_view()) {
            Some(name) => r matches Ok(n) && n@ == name,
            None => r == Err::<String, CargoTomlError>(CargoTomlError::MissingPackageName),
        },
{
    let package_key = String::from_str("package");
    let name_key = String::from_str("name");
    match find_key(tables, &package_key) {
        Some(i) => match &tables[i].1 {
            Some(package) => match find_key(package, &name_key) {
                Some(j) => match &package[j].1 {
                    Some(name) => Ok(name.clone()),
                    None => Err(CargoTomlError::MissingPackageName),
                },
                None => Err(CargoTomlError::MissingPackageName),
            },
            None => Err(CargoTomlError::MissingPackageName),
        },
        None => Err(CargoTomlError::MissingPackageName),
    }
}

/// The package name of a project from the contents of its `Cargo.toml`:
/// the string under `package.name`; `InvalidToml` with the parser's message
/// when the contents do not parse, `MissingPackageName` when there is no
/// such string.
pub fn get_package_name_from_cargo_toml(contents: &str) -> (r: Result<String, CargoTomlError>)
    ensures
        match toml_tables(contents@) {
            Err(message) => r matches Err(CargoTomlError::InvalidToml(m)) && m@ == message,
            Ok(tables) => match package_name_in(tables) {
                Some(name) => r matches Ok(n) && n@ == name,
                None => r == Err::<String, CargoTomlError>(CargoTomlError::MissingPackageName),
            },
        },
{
    match parse_toml_tables(contents) {
        Ok(tables) => package_name_from_tables(&tables),
        Err(message) => Err(CargoTomlError::InvalidToml(message)),
    }
}

} // verus!

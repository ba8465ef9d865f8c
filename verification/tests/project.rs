use eryndor::build_manager::{build_result_status, build_run_failed_status, building_status, BuildManager, BuildStatus};
use eryndor::client_launcher::{
    run_game_action, RunGameAction,
    client_args, client_exe_name, find_client, find_client_after_build, game_exe_name, ClientLocation, ClientLookup,
};
use eryndor::project_generator::{
    generate_cargo_config, generate_cargo_toml, generate_empty_main, generate_gitignore, generate_main_rs,
    generate_tilemap_main, get_package_name_from_cargo_toml, cargo_toml_for_package, package_name,
    package_name_from_lowercase, package_name_from_tables, project_directories, CargoTomlError, ProjectTemplate,
    CARGO_CONFIG, EMPTY_MAIN_RS, GITIGNORE, TILEMAP_MAIN_RS,
};
use eryndor::project_manager::{BuildProgress, ProjectRequest, ProjectSelection, ProjectSelectionState, ProjectWizard};

#[test]
fn template_names_and_descriptions() {
    assert_eq!(ProjectTemplate::Empty.name(), "Empty Bevy Project");
    assert_eq!(ProjectTemplate::Tilemap2D.name(), "2D Tilemap Game");
    assert_eq!(ProjectTemplate::Empty.description(), "A minimal Bevy project with basic setup");
    assert_eq!(
        ProjectTemplate::Tilemap2D.description(),
        "A 2D game with tilemap rendering and level loading support"
    );
    assert_eq!(ProjectTemplate::default(), ProjectTemplate::Tilemap2D);
}

#[test]
fn main_sources_per_template() {
    let empty = generate_empty_main();
    assert!(empty.starts_with("use bevy::prelude::*;\n\nfn main() {"));
    assert!(empty.contains("title: \"My Bevy Game\".to_string()"));
    assert!(empty.contains("fn hello_world() {"));
    assert_eq!(empty, EMPTY_MAIN_RS);
    let tilemap = generate_tilemap_main();
    assert!(tilemap.contains("use bevy_ecs_tilemap::prelude::*;"));
    assert!(tilemap.contains("pub struct LevelData {"));
    assert!(tilemap.contains("TilemapPlugin,"));
    assert_eq!(tilemap, TILEMAP_MAIN_RS);
    assert_eq!(generate_main_rs(&ProjectTemplate::Empty), empty);
    assert_eq!(generate_main_rs(&ProjectTemplate::Tilemap2D), tilemap);
}

#[test]
fn gitignore_and_cargo_config() {
    assert_eq!(generate_gitignore(), "/target\n/.vscode\n/.idea\n*.log\n.DS_Store\nCargo.lock\n");
    assert_eq!(generate_gitignore(), GITIGNORE);
    let config = generate_cargo_config();
    assert_eq!(config, CARGO_CONFIG);
    assert!(config.contains("[target.x86_64-unknown-linux-gnu]\nlinker = \"clang\""));
    assert!(config.starts_with("# Cargo configuration for optimized Bevy builds\n"));
}

#[test]
fn project_directories_in_order() {
    assert_eq!(
        project_directories(),
        vec!["src", "assets", "assets/tilesets", "assets/world", "assets/sprites", "assets/audio", ".cargo"]
    );
}

#[test]
fn package_names_are_lowercase_dashed_and_filtered() {
    assert_eq!(package_name("My Game"), "my-game");
    assert_eq!(package_name("Super Game! 2"), "super-game-2");
    assert_eq!(package_name("rust_project"), "rust_project");
    assert_eq!(package_name("ÉLAN Vital"), "élan-vital");
    assert_eq!(package_name(""), "");
    assert_eq!(package_name_from_lowercase("a b.c"), "a-bc");
    assert_eq!(package_name_from_lowercase("ABC"), "ABC");
}

#[test]
fn cargo_toml_for_empty_template() {
    let expected = "[package]\nname = \"my-game\"\nversion = \"0.1.0\"\nedition = \"2021\"\n\n[[bin]]\nname = \"my-game\"\npath = \"src/main.rs\"\n\n[dependencies]\nbevy = \"0.16\"\n\n[profile.dev]\nopt-level = 1  # Improve development performance\n\n[profile.dev.package.\"*\"]\nopt-level = 3  # Optimize dependencies for better performance\n";
    assert_eq!(generate_cargo_toml("My Game", &ProjectTemplate::Empty), expected);
}

#[test]
fn cargo_toml_for_tilemap_template() {
    let toml = cargo_toml_for_package("tiles", &ProjectTemplate::Tilemap2D);
    assert!(toml.contains("[dependencies]\nbevy = { version = \"0.16\", features = [\"file_watcher\"] }\nbevy_ecs_tilemap = \"0.16\"\nserde = { version = \"1.0\", features = [\"derive\"] }\nserde_json = \"1.0\"\n\n[profile.dev]"));
    assert!(toml.starts_with("[package]\nname = \"tiles\"\n"));
}

#[test]
fn package_name_read_back_from_generated_cargo_toml() {
    let toml = generate_cargo_toml("Dungeon Crawl", &ProjectTemplate::Tilemap2D);
    assert_eq!(get_package_name_from_cargo_toml(&toml), Ok("dungeon-crawl".to_string()));
}

#[test]
fn package_name_errors() {
    let parser_message = toml::from_str::<toml::Value>("[package\nname =").unwrap_err().to_string();
    assert!(!parser_message.is_empty());
    assert_eq!(
        get_package_name_from_cargo_toml("[package\nname ="),
        Err(CargoTomlError::InvalidToml(parser_message.clone()))
    );
    assert_eq!(
        get_package_name_from_cargo_toml("[workspace]\nmembers = []\n"),
        Err(CargoTomlError::MissingPackageName)
    );
    assert_eq!(get_package_name_from_cargo_toml("[package]\nname = 3\n"), Err(CargoTomlError::MissingPackageName));
    assert_eq!(package_name_from_tables(&vec![]), Err(CargoTomlError::MissingPackageName));
    assert_eq!(
        package_name_from_tables(&vec![("package".to_string(), None)]),
        Err(CargoTomlError::MissingPackageName)
    );
    assert_eq!(
        package_name_from_tables(&vec![("package".to_string(), Some(vec![("name".to_string(), None)]))]),
        Err(CargoTomlError::MissingPackageName)
    );
    assert_eq!(
        package_name_from_tables(&vec![
            ("bin".to_string(), Some(vec![("name".to_string(), Some("other".to_string()))])),
            (
                "package".to_string(),
                Some(vec![
                    ("edition".to_string(), Some("2021".to_string())),
                    ("name".to_string(), Some("x".to_string())),
                ])
            ),
        ]),
        Ok("x".to_string())
    );
    assert_eq!(CargoTomlError::MissingPackageName.message(), "Could not find package name in Cargo.toml");
    assert_eq!(CargoTomlError::InvalidToml(parser_message.clone()).message(), parser_message);
}

#[test]
fn build_manager_states() {
    let mut bm = BuildManager::default();
    assert_eq!(bm.current_stage(), "Ready");
    assert!(!bm.is_building());
    bm.start_build();
    assert!(bm.is_building());
    assert!(bm.timing);
    assert_eq!(bm.current_stage(), "Starting build...");
    bm.apply_status(building_status("my-game"));
    assert_eq!(bm.current_stage(), "Building my-game...");
    assert!(bm.timing);
    bm.apply_status(build_result_status(true));
    assert!(!bm.is_building());
    assert!(!bm.timing);
    assert_eq!(bm.current_stage(), "Build complete!");
    bm.apply_status(build_result_status(false));
    assert_eq!(bm.current_stage(), "Build failed: Build failed (see console output)");
    bm.apply_status(build_run_failed_status("not found"));
    assert_eq!(bm.current_stage(), "Build failed: Failed to run cargo: not found");
}

#[test]
fn cancel_build_only_with_a_running_build() {
    let mut bm = BuildManager::default();
    bm.start_build();
    bm.cancel_build(false);
    assert!(bm.is_building());
    bm.cancel_build(true);
    assert!(!bm.is_building());
    assert!(!bm.timing);
    assert_eq!(bm.current_stage(), "Ready");
}

#[test]
fn client_lookup_order() {
    assert_eq!(find_client(true, true), ClientLookup::Found(ClientLocation::Workspace));
    assert_eq!(find_client(false, true), ClientLookup::Found(ClientLocation::Local));
    assert_eq!(find_client(false, false), ClientLookup::Build);
    assert_eq!(find_client_after_build(true, true), Some(ClientLocation::Local));
    assert_eq!(find_client_after_build(false, true), Some(ClientLocation::Workspace));
    assert_eq!(find_client_after_build(false, false), None);
}

#[test]
fn client_names_and_arguments() {
    assert_eq!(client_exe_name(true), "eryndor-client.exe");
    assert_eq!(client_exe_name(false), "eryndor-client");
    assert_eq!(game_exe_name("my-game", true), "my-game.exe");
    assert_eq!(game_exe_name("my-game", false), "my-game");
    assert_eq!(client_args("/p", None), vec!["--project-path".to_string(), "/p".to_string()]);
    assert_eq!(
        client_args("/p", Some("levels/a.bscene")),
        vec!["--project-path".to_string(), "/p".to_string(), "--level".to_string(), "levels/a.bscene".to_string()]
    );
}

#[test]
fn project_selection_requests_and_outcomes() {
    let mut sel = ProjectSelection::default();
    assert!(matches!(sel.request(), ProjectRequest::Nothing));
    sel.handle_project_selection(Ok(()));
    assert!(matches!(sel.state, ProjectSelectionState::NeedSelection));
    sel.state = ProjectSelectionState::Creating { path: "/p".to_string(), name: "Game".to_string() };
    match sel.request() {
        ProjectRequest::Create { path, name } => assert_eq!((path.as_str(), name.as_str()), ("/p", "Game")),
        _ => panic!("expected a create request"),
    }
    sel.handle_project_selection(Err("disk full"));
    match &sel.state {
        ProjectSelectionState::Error(m) => assert_eq!(m, "Failed to create project: disk full"),
        _ => panic!("expected an error"),
    }
    sel.state = ProjectSelectionState::Opening { path: "/q".to_string() };
    sel.handle_project_selection(Err("no project.bvy"));
    match &sel.state {
        ProjectSelectionState::Error(m) => assert_eq!(m, "Failed to open project: no project.bvy"),
        _ => panic!("expected an error"),
    }
    sel.state = ProjectSelectionState::Opening { path: "/q".to_string() };
    sel.handle_project_selection(Ok(()));
    assert!(matches!(sel.state, ProjectSelectionState::Ready));
    let progress = BuildProgress::new();
    assert_eq!(progress.current_stage, "Starting build...");
    assert!(progress.output_lines.is_empty());
}

#[test]
fn project_wizard_flow() {
    let mut wizard = ProjectWizard::default();
    assert_eq!(wizard.selected_template, ProjectTemplate::Tilemap2D);
    assert!(!wizard.can_create());
    assert_eq!(wizard.location_text(), "Not selected");
    wizard.project_name = "Game".to_string();
    assert!(!wizard.can_create());
    wizard.project_path = Some("/home/me".to_string());
    assert!(wizard.can_create());
    assert_eq!(wizard.location_text(), "/home/me");
    wizard.show_wizard = true;
    let mut sel = ProjectSelection::default();
    wizard.project_failed(&mut sel, "exists");
    assert!(!wizard.show_wizard);
    assert_eq!(wizard.project_name, "Game");
    match &sel.state {
        ProjectSelectionState::Error(m) => assert_eq!(m, "Failed to create project: exists"),
        _ => panic!("expected an error"),
    }
    wizard.project_created(&mut sel, "/home/me/Game".to_string());
    assert!(wizard.project_name.is_empty());
    assert!(wizard.project_path.is_none());
    match &sel.state {
        ProjectSelectionState::Opening { path } => assert_eq!(path, "/home/me/Game"),
        _ => panic!("expected opening"),
    }
    wizard.project_name = "X".to_string();
    wizard.cancel();
    assert!(wizard.project_name.is_empty());
}

#[test]
fn run_button_builds_or_launches() {
    match run_game_action::<CargoTomlError>(Ok("game".to_string()), false) {
        RunGameAction::Build(name) => assert_eq!(name, "game"),
        other => panic!("unexpected {:?}", other),
    }
    assert!(matches!(run_game_action::<CargoTomlError>(Ok("game".to_string()), true), RunGameAction::Launch));
    assert!(matches!(run_game_action::<String>(Err(CargoTomlError::MissingPackageName.message()), false), RunGameAction::NoPackage));
}

#[test]
fn welcome_and_error_windows() {
    let mut sel = ProjectSelection::default();
    sel.try_again();
    assert!(matches!(sel.state, ProjectSelectionState::NeedSelection));
    sel.open_chosen_folder("/games/one".to_string());
    match &sel.state {
        ProjectSelectionState::Opening { path } => assert_eq!(path, "/games/one"),
        _ => panic!("expected opening"),
    }
    sel.open_chosen_folder("/games/two".to_string());
    match &sel.state {
        ProjectSelectionState::Opening { path } => assert_eq!(path, "/games/one"),
        _ => panic!("expected opening"),
    }
    sel.handle_project_selection(Err("missing"));
    sel.try_again();
    assert!(matches!(sel.state, ProjectSelectionState::NeedSelection));
}

#[test]
fn finished_build_launches_when_client_not_running() {
    let mut bm = BuildManager::default();
    bm.apply_status(build_result_status(true));
    assert!(!bm.after_build_finished(true));
    assert!(matches!(bm.current_status, BuildStatus::Finished));
    assert!(bm.after_build_finished(false));
    assert!(matches!(bm.current_status, BuildStatus::Idle));
    assert!(!bm.after_build_finished(false));
    assert!(matches!(bm.current_status, BuildStatus::Idle));
}

#[test]
fn retry_restarts_a_failed_build() {
    let mut bm = BuildManager::default();
    assert_eq!(bm.retry_build::<String>(Ok("game".to_string())), None);
    assert!(matches!(bm.current_status, BuildStatus::Idle));
    bm.apply_status(build_result_status(false));
    assert_eq!(bm.retry_build::<String>(Err("no Cargo.toml".to_string())), None);
    assert!(matches!(bm.current_status, BuildStatus::Failed { .. }));
    assert_eq!(bm.retry_build::<String>(Ok("game".to_string())), Some("game".to_string()));
    assert!(bm.is_building());
    assert_eq!(bm.current_stage(), "Starting build...");
    assert!(bm.timing);
}

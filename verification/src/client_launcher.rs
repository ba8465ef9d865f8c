//! Where the standalone game client is run from, and how it is called.

use vstd::prelude::*;

verus! {

/// A place the client executable may be found.
#[derive(Debug, Clone, Copy, PartialEq, Eq, Structural)]
pub enum ClientLocation {
    /// The workspace's build output, two folders up (`../../target/debug`).
    Workspace,
    /// The build output of the current folder (`target/debug`).
    Local,
}

/// What to do to get a client executable.
#[derive(Debug, Clone, Copy, PartialEq, Eq, Structural)]
pub enum ClientLookup {
    /// Run the executable found there.
    Found(ClientLocation),
    /// Neither place has one: build the client first.
    Build,
}

/// Where to take the client from, given which places have an executable:
/// the workspace's copy first, then the local one; otherwise build it.
pub fn find_client(workspace_exists: bool, local_exists: bool) -> (r: ClientLookup)
    ensures
        r == if workspace_exists {
            ClientLookup::Found(ClientLocation::Workspace)
        } else if local_exists {
            ClientLookup::Found(ClientLocation::Local)
        } else {
            ClientLookup::Build
        },
{
    if workspace_exists {
        ClientLookup::Found(ClientLocation::Workspace)
    } else if local_exists {
        ClientLookup::Found(ClientLocation::Local)
    } else {
        ClientLookup::Build
    }
}

/// Where to take the client from after building it: the local copy first,
/// then the workspace's; `None` when there is still none.
pub fn find_client_after_build(local_exists: bool, workspace_exists: bool) -> (r: Option<ClientLocation>)
    ensures
        r == if local_exists {
            Some(ClientLocation::Local)
        } else if workspace_exists {
            Some(ClientLocation::Workspace)
        } else {
            None
        },
{
    if local_exists {
        Some(ClientLocation::Local)
    } else if workspace_exists {
        Some(ClientLocation::Workspace)
    } else {
        None
    }
}

/// The file name of the client executable on Windows or elsewhere.
pub fn client_exe_name(windows: bool) -> (r: &'static str)
    ensures
        r == if windows {
            "eryndor-client.exe"
        } else {
            "eryndor-client"
        },
{
    if windows {
        "eryndor-client.exe"
    } else {
        "eryndor-client"
    }
}

/// The file name of a project's game executable: the package name, with
/// ".exe" on Windows.
pub fn game_exe_name(package_name: &str, windows: bool) -> (r: String)
    ensures
        r@ == if windows {
            package_name@ + ".exe"@
        } else {
            package_name@
        },
{
    let mut name = String::from_str(package_name);
    if windows {
        name.append(".exe");
    }
    name
}

/// The command-line arguments of the client: the project path, then the
/// level to open when there is one.
pub open spec fn client_arg_list(project_path: Seq<char>, level_path: Option<Seq<char>>) -> Seq<Seq<char>> {
    match level_path {
        Some(level) => seq!["--project-path"@, project_path, "--level"@, level],
        None => seq!["--project-path"@, project_path],
    }
}

/// The command-line arguments the client is launched with.
pub fn client_args(project_path: &str, level_path: Option<&str>) -> (r: Vec<String>)
    ensures
        r@.map_values(|a: String| a@) == client_arg_list(
            project_path@,
            match level_path {
                Some(l) => Some(l@),
                None => None,
            },
        ),
{
    let mut args: Vec<String> = Vec::new();
    args.push(String::from_str("--project-path"));
    args.push(String::from_str(project_path));
    match level_path {
        Some(level) => {
            args.push(String::from_str("--level"));
            args.push(String::from_str(level));
        },
        None => {},
    }
    assert(args@.map_values(|a: String| a@) =~= client_arg_list(
        project_path@,
        match level_path {
            Some(l) => Some(l@),
            None => None,
        },
    ));
    args
}

/// What the Run button does.
#[derive(Debug, Clone)]
pub enum RunGameAction {
    /// Build the game, whose package is named so, then launch it.
    Build(String),
    /// Launch the game already built.
    Launch,
    /// The package name could not be read; nothing runs.
    NoPackage,
}

/// What clicking Run does, from the package name read from the project's
/// Cargo.toml and whether the game's executable is already built: build it
/// when it is not, launch it when it is.
pub fn run_game_action<E>(package_name: Result<String, E>, exe_exists: bool) -> (r: RunGameAction)
    ensures
        match package_name {
            Ok(name) => if exe_exists {
                r is Launch
            } else {
                r matches RunGameAction::Build(n) && n == name
            },
            Err(_) => r is NoPackage,
        },
{
    match package_name {
        Ok(name) => if exe_exists {
            RunGameAction::Launch
        } else {
            RunGameAction::Build(name)
        },
        Err(_) => RunGameAction::NoPackage,
    }
}

} // verus!

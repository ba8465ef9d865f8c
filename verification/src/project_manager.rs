//! Choosing the project to edit: the selection state the editor starts in,
//! and the wizard that creates a new project.

use vstd::prelude::*;
use crate::project_generator::ProjectTemplate;

verus! {

/// Progress of a project's first build; the start time is kept by whoever
/// runs the build.
#[derive(Debug, Clone)]
pub struct BuildProgress {
    pub output_lines: Vec<String>,
    pub current_stage: String,
}

impl BuildProgress {
    /// A build that has just started: no output yet.
    pub fn new() -> (r: Self)
        ensures
            r.output_lines@.len() == 0,
            r.current_stage@ == "Starting build..."@,
    {
        BuildProgress { output_lines: Vec::new(), current_stage: String::from_str("Starting build...") }
    }
}

/// Where the choice of a project stands.
#[derive(Debug, Clone)]
pub enum ProjectSelectionState {
    NeedSelection,
    Creating { path: String, name: String },
    Opening { path: String },
    GeneratingTemplate,
    InitialBuild(BuildProgress),
    Ready,
    Error(String),
}

/// The project selection of the editor.
#[derive(Debug, Clone)]
pub struct ProjectSelection {
    pub state: ProjectSelectionState,
}

impl Default for ProjectSelection {
    fn default() -> (r: Self)
        ensures
            r.state is NeedSelection,
    {
        ProjectSelection { state: ProjectSelectionState::NeedSelection }
    }
}

/// What the selection asks to be done on disk.
#[derive(Debug, Clone)]
pub enum ProjectRequest {
    /// Create a project named `name` at `path`.
    Create { path: String, name: String },
    /// Open the project at `path`.
    Open { path: String },
    /// Nothing to do.
    Nothing,
}

/// The text before the reason when creating a project failed.
pub open spec fn create_failed_prefix() -> Seq<char> {
    "Failed to create project: "@
}

/// The text before the reason when opening a project failed.
pub open spec fn open_failed_prefix() -> Seq<char> {
    "Failed to open project: "@
}

impl ProjectSelection {
    /// What the current state asks to be done: create or open a project, or
    /// nothing.
    pub fn request(&self) -> (r: ProjectRequest)
        ensures
            match self.state {
                ProjectSelectionState::Creating { path, name } => r matches ProjectRequest::Create { path: p, name: n }
                    && p@ == path@ && n@ == name@,
                ProjectSelectionState::Opening { path } => r matches ProjectRequest::Open { path: p } && p@ == path@,
                _ => r is Nothing,
            },
    {
        match &self.state {
            ProjectSelectionState::Creating { path, name } => ProjectRequest::Create {
                path: path.clone(),
                name: name.clone(),
            },
            ProjectSelectionState::Opening { path } => ProjectRequest::Open { path: path.clone() },
            _ => ProjectRequest::Nothing,
        }
    }

    /// Takes in how the request went: the project is ready, or the state
    /// holds the failure ("Failed to create project: " or "Failed to open
    /// project: " and the reason). States that ask for nothing stay as they
    /// are.
    pub fn handle_project_selection(&mut self, outcome: Result<(), &str>)
        ensures
            match old(self).state {
                ProjectSelectionState::Creating { .. } => match outcome {
                    Ok(()) => final(self).state is Ready,
                    Err(e) => final(self).state matches ProjectSelectionState::Error(m) && m@
                        == create_failed_prefix() + e@,
                },
                ProjectSelectionState::Opening { .. } => match outcome {
                    Ok(()) => final(self).state is Ready,
                    Err(e) => final(self).state matches ProjectSelectionState::Error(m) && m@
                        == open_failed_prefix() + e@,
                },
                _ => *final(self) == *old(self),
            },
    {
        let creating = match &self.state {
            ProjectSelectionState::Creating { .. } => true,
            ProjectSelectionState::Opening { .. } => false,
            _ => {
                return;
            },
        };
        match outcome {
            Ok(()) => {
                self.state = ProjectSelectionState::Ready;
            },
            Err(e) => {
                let mut message = if creating {
                    String::from_str("Failed to create project: ")
                } else {
                    String::from_str("Failed to open project: ")
                };
                message.append(e);
                self.state = ProjectSelectionState::Error(message);
            },
        }
    }
}

impl ProjectSelection {
    /// "Open Existing Project" with `folder` chosen: the selection goes on
    /// to open it. Only the welcome window offers it.
    pub fn open_chosen_folder(&mut self, folder: String)
        ensures
            old(self).state is NeedSelection ==> (final(self).state matches ProjectSelectionState::Opening { path }
                && path == folder),
            !(old(self).state is NeedSelection) ==> *final(self) == *old(self),
    {
        if let ProjectSelectionState::NeedSelection = self.state {
            self.state = ProjectSelectionState::Opening { path: folder };
        }
    }

    /// "Try Again" on the error window: back to the welcome window.
    pub fn try_again(&mut self)
        ensures
            old(self).state is Error ==> final(self).state is NeedSelection,
            !(old(self).state is Error) ==> *final(self) == *old(self),
    {
        if let ProjectSelectionState::Error(_) = self.state {
            self.state = ProjectSelectionState::NeedSelection;
        }
    }
}

/// The new-project wizard.
#[derive(Debug, Clone)]
pub struct ProjectWizard {
    pub project_name: String,
    /// The folder the project goes in, once chosen.
    pub project_path: Option<String>,
    pub selected_template: ProjectTemplate,
    pub show_wizard: bool,
}

impl Default for ProjectWizard {
    fn default() -> (r: Self)
        ensures
            r.project_name@.len() == 0,
            r.project_path is None,
            r.selected_template == ProjectTemplate::Tilemap2D,
            !r.show_wizard,
    {
        ProjectWizard {
            project_name: String::new(),
            project_path: None,
            selected_template: ProjectTemplate::Tilemap2D,
            show_wizard: false,
        }
    }
}

impl ProjectWizard {
    /// Whether "Create Project" is enabled: a name is typed and a folder is
    /// chosen.
    pub fn can_create(&self) -> (r: bool)
        ensures
            r == (self.project_name@.len() > 0 && self.project_path is Some),
    {
        self.project_name.unicode_len() > 0 && self.project_path.is_some()
    }

    /// The text shown for the chosen folder: the folder, or "Not selected".
    pub fn location_text(&self) -> (r: String)
        ensures
            match self.project_path {
                Some(p) => r@ == p@,
                None => r@ == "Not selected"@,
            },
    {
        match &self.project_path {
            Some(p) => p.clone(),
            None => String::from_str("Not selected"),
        }
    }

    /// Closes the wizard and forgets what was typed and chosen.
    pub fn cancel(&mut self)
        ensures
            !final(self).show_wizard,
            final(self).project_name@.len() == 0,
            final(self).project_path is None,
            final(self).selected_template == old(self).selected_template,
    {
        self.show_wizard = false;
        self.project_name = String::new();
        self.project_path = None;
    }

    /// The project was created at `project_path`: the selection goes on to
    /// open it, and the wizard closes and resets.
    pub fn project_created(&mut self, selection: &mut ProjectSelection, project_path: String)
        ensures
            final(selection).state matches ProjectSelectionState::Opening { path } && path == project_path,
            !final(self).show_wizard,
            final(self).project_name@.len() == 0,
            final(self).project_path is None,
            final(self).selected_template == old(self).selected_template,
    {
        selection.state = ProjectSelectionState::Opening { path: project_path };
        self.cancel();
    }

    /// Creating the project failed for `reason`: the selection holds the
    /// failure and the wizard closes, keeping what was typed.
    pub fn project_failed(&mut self, selection: &mut ProjectSelection, reason: &str)
        ensures
            final(selection).state matches ProjectSelectionState::Error(m) && m@ == create_failed_prefix() + reason@,
            !final(self).show_wizard,
            final(self).project_name == old(self).project_name,
            final(self).project_path == old(self).project_path,
            final(self).selected_template == old(self).selected_template,
    {
        let mut message = String::from_str("Failed to create project: ");
        message.append(reason);
        selection.state = ProjectSelectionState::Error(message);
        self.show_wizard = false;
    }
}

} // verus!

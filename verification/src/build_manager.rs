//! The state of a background project build, as the editor shows it. The
//! build itself runs elsewhere and reports its progress as statuses; elapsed
//! times are measured by whoever runs it.

use vstd::prelude::*;

verus! {

/// Where a build stands.
#[derive(Debug, Clone)]
pub enum BuildStatus {
    Idle,
    Building { stage: String },
    Finished,
    Failed { error: String },
}

/// The build shown in the editor.
#[derive(Debug, Clone)]
pub struct BuildManager {
    pub current_status: BuildStatus,
    /// Whether a build is being timed.
    pub timing: bool,
}

/// The stage shown when a build starts.
pub open spec fn starting_stage() -> Seq<char> {
    "Starting build..."@
}

impl Default for BuildManager {
    fn default() -> (r: Self)
        ensures
            r.current_status is Idle,
            !r.timing,
    {
        BuildManager { current_status: BuildStatus::Idle, timing: false }
    }
}

/// The stage text for a status: "Ready" when idle, the stage while
/// building, "Build complete!" when finished, and "Build failed: " and the
/// error when failed.
pub open spec fn stage_text(status: BuildStatus) -> Seq<char> {
    match status {
        BuildStatus::Idle => "Ready"@,
        BuildStatus::Building { stage } => stage@,
        BuildStatus::Finished => "Build complete!"@,
        BuildStatus::Failed { error } => "Build failed: "@ + error@,
    }
}

impl BuildManager {
    /// Starts showing a new build: any build shown before is dropped, the
    /// status is "Starting build..." and timing starts.
    pub fn start_build(&mut self)
        ensures
            final(self).current_status matches BuildStatus::Building { stage } && stage@ == starting_stage(),
            final(self).timing,
    {
        self.current_status = BuildStatus::Building { stage: String::from_str("Starting build...") };
        self.timing = true;
    }

    /// Drops the build being run, if there is one (`has_build`): the status
    /// goes back to idle and timing stops; otherwise nothing changes.
    pub fn cancel_build(&mut self, has_build: bool)
        ensures
            has_build ==> final(self).current_status is Idle && !final(self).timing,
            !has_build ==> *final(self) == *old(self),
    {
        if has_build {
            self.current_status = BuildStatus::Idle;
            self.timing = false;
        }
    }

    /// Whether a build is in progress.
    pub fn is_building(&self) -> (r: bool)
        ensures
            r == self.current_status is Building,
    {
        matches!(self.current_status, BuildStatus::Building { .. })
    }

    /// The text describing the current status.
    pub fn current_stage(&self) -> (r: String)
        ensures
            r@ == stage_text(self.current_status),
    {
        match &self.current_status {
            BuildStatus::Idle => String::from_str("Ready"),
            BuildStatus::Building { stage } => stage.clone(),
            BuildStatus::Finished => String::from_str("Build complete!"),
            BuildStatus::Failed { error } => {
                let mut out = String::from_str("Build failed: ");
                out.append(error.as_str());
                out
            },
        }
    }

    /// Takes in a status reported by the build: the status becomes the
    /// current one, and timing stops unless the build is still going.
    pub fn apply_status(&mut self, status: BuildStatus)
        ensures
            final(self).current_status == status,
            final(self).timing == if status is Building {
                old(self).timing
            } else {
                false
            },
    {
        match status {
            BuildStatus::Building { stage } => {
                self.current_status = BuildStatus::Building { stage };
            },
            _ => {
                self.current_status = status;
                self.timing = false;
            },
        }
    }

    /// Shown after a finished build: when the game client is not running it
    /// is to be launched (the result says so) and the status goes back to
    /// idle; otherwise nothing changes.
    pub fn after_build_finished(&mut self, client_running: bool) -> (launch: bool)
        ensures
            launch == (old(self).current_status is Finished && !client_running),
            launch ==> final(self).current_status is Idle && final(self).timing == old(self).timing,
            !launch ==> *final(self) == *old(self),
    {
        if matches!(self.current_status, BuildStatus::Finished) && !client_running {
            self.current_status = BuildStatus::Idle;
            true
        } else {
            false
        }
    }

    /// Clicking Retry on a failed build, with the package name read again
    /// from the project's Cargo.toml: when the build had failed and the name
    /// was read, a new build starts and the name it builds is returned;
    /// otherwise nothing changes.
    pub fn retry_build<E>(&mut self, package_name: Result<String, E>) -> (r: Option<String>)
        ensures
            match package_name {
                Ok(name) => if old(self).current_status is Failed {
                    &&& r == Some(name)
                    &&& final(self).current_status matches BuildStatus::Building { stage } && stage@
                        == starting_stage()
                    &&& final(self).timing
                } else {
                    r is None && *final(self) == *old(self)
                },
                Err(_) => r is None && *final(self) == *old(self),
            },
    {
        match package_name {
            Ok(name) => if matches!(self.current_status, BuildStatus::Failed { .. }) {
                self.start_build();
                Some(name)
            } else {
                None
            },
            Err(_) => None,
        }
    }
}

/// The stage a build reports once it runs for `package_name`:
/// "Building " followed by the name and "...".
pub open spec fn building_stage(package_name: Seq<char>) -> Seq<char> {
    "Building "@ + package_name + "..."@
}

/// The status a build reports once it runs for `package_name`.
pub fn building_status(package_name: &str) -> (r: BuildStatus)
    ensures
        r matches BuildStatus::Building { stage } && stage@ == building_stage(package_name@),
{
    let mut stage = String::from_str("Building ");
    stage.append(package_name);
    stage.append("...");
    BuildStatus::Building { stage }
}

/// The message of a build whose compiler ran and failed.
pub open spec fn build_failed_message() -> Seq<char> {
    "Build failed (see console output)"@
}

/// The status a finished build reports: `Finished` when the compiler ran
/// and succeeded, `Failed` with `build_failed_message` when it ran and
/// failed.
pub fn build_result_status(succeeded: bool) -> (r: BuildStatus)
    ensures
        succeeded ==> r is Finished,
        !succeeded ==> (r matches BuildStatus::Failed { error } && error@ == build_failed_message()),
{
    if succeeded {
        BuildStatus::Finished
    } else {
        BuildStatus::Failed { error: String::from_str("Build failed (see console output)") }
    }
}

/// The message of a build whose compiler could not be started, for the
/// reason `reason`: "Failed to run cargo: " followed by the reason.
pub open spec fn run_failed_message(reason: Seq<char>) -> Seq<char> {
    "Failed to run cargo: "@ + reason
}

/// The status a build reports when its compiler could not be started.
pub fn build_run_failed_status(reason: &str) -> (r: BuildStatus)
    ensures
        r matches BuildStatus::Failed { error } && error@ == run_failed_message(reason@),
{
    let mut error = String::from_str("Failed to run cargo: ");
    error.append(reason);
    BuildStatus::Failed { error }
}

} // verus!

//! The launch dispatcher: from an app identifier to what the host has to do,
//! and from what the host observed of a sandboxed spawn to its outcome.

use crate::catalog::CatalogView;
use crate::loader::{builtin_apps, lemma_builtins_win, loaded_records, DirectoryScan};
use crate::models::{App, LauncherState};
use crate::text::{same_text, starts_with};
use vstd::prelude::*;

verus! {

/// The apps that the launcher handles itself.
#[derive(Clone, Copy, Debug, PartialEq, Eq, Structural)]
pub enum BuiltinApp {
    Tv,
    Movies,
    Music,
    Photos,
    Settings,
    AppStore,
}

/// The scheme that marks a launch target as builtin.
pub open spec fn builtin_scheme() -> Seq<char> {
    "builtin://"@
}

/// The builtin app that a launch target names, if it names one.
pub open spec fn builtin_for(target: Seq<char>) -> Option<BuiltinApp> {
    if target == "builtin://tv"@ {
        Some(BuiltinApp::Tv)
    } else if target == "builtin://movies"@ {
        Some(BuiltinApp::Movies)
    } else if target == "builtin://music"@ {
        Some(BuiltinApp::Music)
    } else if target == "builtin://photos"@ {
        Some(BuiltinApp::Photos)
    } else if target == "builtin://settings"@ {
        Some(BuiltinApp::Settings)
    } else if target == "builtin://app_store"@ {
        Some(BuiltinApp::AppStore)
    } else {
        None
    }
}

/// The command line of a sandboxed launch as a mathematical value.
pub struct SandboxCommandView {
    pub program: Seq<char>,
    pub args: Seq<Seq<char>>,
}

/// The isolation utility with its fixed flags (own network namespace, own
/// process-id namespace, fork), followed by the executable as the only
/// positional argument.
pub open spec fn sandbox_command(executable_path: Seq<char>) -> SandboxCommandView {
    SandboxCommandView {
        program: "unshare"@,
        args: seq!["--net"@, "--pid"@, "--fork"@, executable_path],
    }
}

/// The command line that the host spawns for a sandboxed launch.
#[derive(Debug, PartialEq, Eq)]
pub struct SandboxCommand {
    pub program: String,
    pub args: Vec<String>,
}

impl View for SandboxCommand {
    type V = SandboxCommandView;

    open spec fn view(&self) -> SandboxCommandView {
        SandboxCommandView {
            program: self.program@,
            args: self.args@.map_values(|a: String| a@),
        }
    }
}

/// A launch decision as a mathematical value.
pub enum LaunchActionView {
    UnknownApp,
    Builtin(BuiltinApp),
    UnknownBuiltin(Seq<char>),
    Sandboxed(SandboxCommandView),
}

/// What the host has to do for a launch request.
#[derive(Debug, PartialEq, Eq)]
pub enum LaunchAction {
    /// No record has the identifier: nothing is launched.
    UnknownApp,
    /// Run the handler of this builtin app.
    Builtin(BuiltinApp),
    /// The target has the builtin scheme but names no builtin app: nothing
    /// is launched. Holds the target, for the diagnostic.
    UnknownBuiltin(String),
    /// Spawn this command line.
    Sandboxed(SandboxCommand),
}

impl View for LaunchAction {
    type V = LaunchActionView;

    open spec fn view(&self) -> LaunchActionView {
        match self {
            LaunchAction::UnknownApp => LaunchActionView::UnknownApp,
            LaunchAction::Builtin(app) => LaunchActionView::Builtin(*app),
            LaunchAction::UnknownBuiltin(target) => LaunchActionView::UnknownBuiltin(target@),
            LaunchAction::Sandboxed(command) => LaunchActionView::Sandboxed(command@),
        }
    }
}

/// Where a launch target routes: a target with the builtin scheme to the
/// handler it names, or to none; any other target is the path of an
/// executable that is launched in the sandbox.
pub open spec fn route(target: Seq<char>) -> LaunchActionView {
    if builtin_scheme().is_prefix_of(target) {
        match builtin_for(target) {
            Some(app) => LaunchActionView::Builtin(app),
            None => LaunchActionView::UnknownBuiltin(target),
        }
    } else {
        LaunchActionView::Sandboxed(sandbox_command(target))
    }
}

/// The launch decision for the identifier `id`.
pub open spec fn dispatch(catalog: CatalogView, id: Seq<char>) -> LaunchActionView {
    match catalog.get(id) {
        Some(app) => route(app.executable_path),
        None => LaunchActionView::UnknownApp,
    }
}

/// The builtin app that the launch target `path` names, or `None` where it
/// names none.
pub fn handle_builtin_app(path: &str) -> (app: Option<BuiltinApp>)
    ensures
        app == builtin_for(path@),
{
    if same_text(path, "builtin://tv") {
        Some(BuiltinApp::Tv)
    } else if same_text(path, "builtin://movies") {
        Some(BuiltinApp::Movies)
    } else if same_text(path, "builtin://music") {
        Some(BuiltinApp::Music)
    } else if same_text(path, "builtin://photos") {
        Some(BuiltinApp::Photos)
    } else if same_text(path, "builtin://settings") {
        Some(BuiltinApp::Settings)
    } else if same_text(path, "builtin://app_store") {
        Some(BuiltinApp::AppStore)
    } else {
        None
    }
}

/// The command line that launches the executable of `app` in the sandbox.
pub fn launch_sandboxed_app(app: &App) -> (command: SandboxCommand)
    ensures
        command@ == sandbox_command(app@.executable_path),
{
    let mut args: Vec<String> = Vec::new();
    args.push("--net".to_owned());
    args.push("--pid".to_owned());
    args.push("--fork".to_owned());
    args.push(app.executable_path.clone());
    let command = SandboxCommand { program: "unshare".to_owned(), args };
    assert(command@.args =~= sandbox_command(app@.executable_path).args);
    command
}

/// Decide what a request to launch `app_id` comes to. The catalog is only
/// read.
pub fn launch_app(state: &LauncherState, app_id: &str) -> (action: LaunchAction)
    ensures
        action@ == dispatch(state@, app_id@),
{
    match state.get(app_id) {
        None => LaunchAction::UnknownApp,
        Some(app) => {
            if starts_with(app.executable_path.as_str(), "builtin://") {
                match handle_builtin_app(app.executable_path.as_str()) {
                    Some(builtin) => LaunchAction::Builtin(builtin),
                    None => LaunchAction::UnknownBuiltin(app.executable_path.clone()),
                }
            } else {
                LaunchAction::Sandboxed(launch_sandboxed_app(app))
            }
        },
    }
}

/// Why a sandboxed launch did not start a process.
#[derive(Clone, Copy, Debug, PartialEq, Eq, Structural)]
pub enum SpawnError {
    /// The executable does not exist.
    ExecutableMissing,
    /// The executable or the isolation utility may not be run.
    PermissionDenied,
    /// The isolation utility is absent or could not set up the sandbox.
    IsolationFailure,
}

/// Identifier of a spawned process, for diagnostics only.
#[derive(Clone, Copy, Debug, PartialEq, Eq, Structural)]
pub struct ProcessHandle {
    pub pid: u32,
}

/// What the host observed when it carried out a sandboxed launch.
#[derive(Clone, Copy, Debug, PartialEq, Eq, Structural)]
pub enum SpawnObservation {
    /// The executable was not found; nothing was spawned.
    TargetMissing,
    /// The executable may not be accessed; nothing was spawned.
    TargetDenied,
    /// The isolation utility was not found.
    UtilityMissing,
    /// The isolation utility may not be run.
    UtilityDenied,
    /// The spawn failed for another reason.
    Failed,
    /// The child process was created with this process id.
    Started(u32),
}

/// The outcome of a sandboxed launch, by what the host observed.
pub open spec fn spawn_outcome(observed: SpawnObservation) -> Result<ProcessHandle, SpawnError> {
    match observed {
        SpawnObservation::TargetMissing => Err(SpawnError::ExecutableMissing),
        SpawnObservation::TargetDenied => Err(SpawnError::PermissionDenied),
        SpawnObservation::UtilityMissing => Err(SpawnError::IsolationFailure),
        SpawnObservation::UtilityDenied => Err(SpawnError::PermissionDenied),
        SpawnObservation::Failed => Err(SpawnError::IsolationFailure),
        SpawnObservation::Started(pid) => Ok(ProcessHandle { pid }),
    }
}

/// The outcome of a sandboxed launch: the handle of the child as soon as
/// it was created, or the cause of the failure.
pub fn sandbox_outcome(observed: SpawnObservation) -> (outcome: Result<ProcessHandle, SpawnError>)
    ensures
        outcome == spawn_outcome(observed),
{
    match observed {
        SpawnObservation::TargetMissing => Err(SpawnError::ExecutableMissing),
        SpawnObservation::TargetDenied => Err(SpawnError::PermissionDenied),
        SpawnObservation::UtilityMissing => Err(SpawnError::IsolationFailure),
        SpawnObservation::UtilityDenied => Err(SpawnError::PermissionDenied),
        SpawnObservation::Failed => Err(SpawnError::IsolationFailure),
        SpawnObservation::Started(pid) => Ok(ProcessHandle { pid }),
    }
}

/// The handlers of the builtin apps, in the order of `builtin_apps`.
pub open spec fn builtin_handlers() -> Seq<BuiltinApp> {
    seq![
        BuiltinApp::Tv,
        BuiltinApp::Movies,
        BuiltinApp::Music,
        BuiltinApp::Photos,
        BuiltinApp::Settings,
        BuiltinApp::AppStore,
    ]
}

/// The launch target of each builtin app routes to its own handler.
pub proof fn lemma_builtin_targets_route()
    ensures
        builtin_handlers().len() == builtin_apps().len(),
        forall|k: int|
            0 <= k < builtin_apps().len() ==> route((#[trigger] builtin_apps()[k]).executable_path)
                == LaunchActionView::Builtin(builtin_handlers()[k]),
{
    reveal_strlit("builtin://");
    reveal_strlit("builtin://tv");
    reveal_strlit("builtin://movies");
    reveal_strlit("builtin://music");
    reveal_strlit("builtin://photos");
    reveal_strlit("builtin://settings");
    reveal_strlit("builtin://app_store");
    let scheme = builtin_scheme();
    assert forall|k: int| 0 <= k < builtin_apps().len() implies route(
        (#[trigger] builtin_apps()[k]).executable_path,
    ) == LaunchActionView::Builtin(builtin_handlers()[k]) by {
        let target = builtin_apps()[k].executable_path;
        assert(target.subrange(0, scheme.len() as int) =~= scheme);
        if k == 1 {
            assert(target[10] == 'm' && target.len() == 16);
        } else if k == 3 {
            assert(target[10] == 'p' && target.len() == 16);
        }
    }
}

/// After a load, a launch request for a builtin identifier runs the
/// handler of that builtin app, whatever the scan found: no process is
/// spawned for it.
pub proof fn lemma_builtin_dispatch(catalog: CatalogView, scan: DirectoryScan)
    requires
        catalog.wf(),
    ensures
        forall|k: int|
            0 <= k < builtin_apps().len() ==> dispatch(
                catalog.with_apps(loaded_records(catalog.apps, scan)),
                (#[trigger] builtin_apps()[k]).id,
            ) == LaunchActionView::Builtin(builtin_handlers()[k]),
{
    lemma_builtin_targets_route();
    lemma_builtins_win(catalog.apps, scan);
}

} // verus!

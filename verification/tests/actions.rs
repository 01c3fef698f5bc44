use launcher::actions::{
    handle_builtin_app, launch_app, launch_sandboxed_app, sandbox_outcome, BuiltinApp, LaunchAction,
    ProcessHandle, SandboxCommand, SpawnError, SpawnObservation,
};
use launcher::loader::{load_apps, DirectoryScan, ScanEntry};
use launcher::models::{App, LauncherState};
use launcher::navigation::NavigationState;

fn external(id: &str, path: &str) -> App {
    App {
        id: id.to_string(),
        name: id.to_string(),
        description: String::new(),
        icon_path: None,
        executable_path: path.to_string(),
        installed: true,
        version: "1.0.0".to_string(),
        category: "Music".to_string(),
        background: None,
    }
}

fn catalog() -> LauncherState {
    let mut state = LauncherState::new("/apps".to_string());
    load_apps(
        &mut state,
        &DirectoryScan::Entries(vec![
            ScanEntry::Descriptor(external("spotify", "/apps/spotify/spotify")),
            ScanEntry::Descriptor(external("radio", "builtin://radio")),
            ScanEntry::Descriptor(external("odd", "builtin:/tv")),
        ]),
    );
    state
}

#[test]
fn builtin_targets_name_their_handlers() {
    assert_eq!(handle_builtin_app("builtin://tv"), Some(BuiltinApp::Tv));
    assert_eq!(handle_builtin_app("builtin://movies"), Some(BuiltinApp::Movies));
    assert_eq!(handle_builtin_app("builtin://music"), Some(BuiltinApp::Music));
    assert_eq!(handle_builtin_app("builtin://photos"), Some(BuiltinApp::Photos));
    assert_eq!(handle_builtin_app("builtin://settings"), Some(BuiltinApp::Settings));
    assert_eq!(handle_builtin_app("builtin://app_store"), Some(BuiltinApp::AppStore));
}

#[test]
fn other_targets_name_no_handler() {
    assert_eq!(handle_builtin_app("builtin://radio"), None);
    assert_eq!(handle_builtin_app("builtin://"), None);
    assert_eq!(handle_builtin_app("builtin://TV"), None);
    assert_eq!(handle_builtin_app("builtin://tv "), None);
    assert_eq!(handle_builtin_app("tv"), None);
    assert_eq!(handle_builtin_app(""), None);
    assert_eq!(handle_builtin_app("/apps/spotify/spotify"), None);
}

#[test]
fn dispatch_settings_fires_the_settings_handler() {
    let state = catalog();
    assert_eq!(launch_app(&state, "settings"), LaunchAction::Builtin(BuiltinApp::Settings));
}

#[test]
fn dispatch_each_builtin() {
    let state = catalog();
    assert_eq!(launch_app(&state, "tv"), LaunchAction::Builtin(BuiltinApp::Tv));
    assert_eq!(launch_app(&state, "movies"), LaunchAction::Builtin(BuiltinApp::Movies));
    assert_eq!(launch_app(&state, "music"), LaunchAction::Builtin(BuiltinApp::Music));
    assert_eq!(launch_app(&state, "photos"), LaunchAction::Builtin(BuiltinApp::Photos));
    assert_eq!(launch_app(&state, "app_store"), LaunchAction::Builtin(BuiltinApp::AppStore));
}

#[test]
fn dispatch_unknown_identifier_is_a_no_op() {
    let state = catalog();
    assert_eq!(launch_app(&state, "nope"), LaunchAction::UnknownApp);
    assert_eq!(launch_app(&state, ""), LaunchAction::UnknownApp);
    assert_eq!(launch_app(&state, "Settings"), LaunchAction::UnknownApp);
}

#[test]
fn dispatch_unmapped_builtin_tag_is_a_no_op_with_diagnostic() {
    let state = catalog();
    assert_eq!(
        launch_app(&state, "radio"),
        LaunchAction::UnknownBuiltin("builtin://radio".to_string())
    );
}

#[test]
fn dispatch_external_path_goes_to_the_sandbox() {
    let state = catalog();
    let expected = SandboxCommand {
        program: "unshare".to_string(),
        args: vec![
            "--net".to_string(),
            "--pid".to_string(),
            "--fork".to_string(),
            "/apps/spotify/spotify".to_string(),
        ],
    };
    assert_eq!(launch_app(&state, "spotify"), LaunchAction::Sandboxed(expected));
}

#[test]
fn target_without_the_full_scheme_is_a_path() {
    let state = catalog();
    match launch_app(&state, "odd") {
        LaunchAction::Sandboxed(command) => {
            assert_eq!(command.args.last().map(|s| s.as_str()), Some("builtin:/tv"));
        }
        other => panic!("unexpected {:?}", other),
    }
}

#[test]
fn sandbox_command_has_fixed_flags_and_one_positional_argument() {
    let command = launch_sandboxed_app(&external("x", "/opt/x/bin/x --flag"));
    assert_eq!(command.program, "unshare");
    assert_eq!(command.args, vec!["--net", "--pid", "--fork", "/opt/x/bin/x --flag"]);
}

#[test]
fn missing_executable_is_a_spawn_error_and_changes_nothing() {
    let state = catalog();
    let nav = NavigationState::new();
    let apps_before = state.apps().clone();
    let nav_before = nav;
    let action = launch_app(&state, "spotify");
    assert!(matches!(action, LaunchAction::Sandboxed(_)));
    assert_eq!(
        sandbox_outcome(SpawnObservation::TargetMissing),
        Err(SpawnError::ExecutableMissing)
    );
    assert_eq!(state.apps(), &apps_before);
    assert_eq!(nav, nav_before);
}

#[test]
fn spawn_outcomes() {
    assert_eq!(
        sandbox_outcome(SpawnObservation::TargetMissing),
        Err(SpawnError::ExecutableMissing)
    );
    assert_eq!(
        sandbox_outcome(SpawnObservation::TargetDenied),
        Err(SpawnError::PermissionDenied)
    );
    assert_eq!(
        sandbox_outcome(SpawnObservation::UtilityMissing),
        Err(SpawnError::IsolationFailure)
    );
    assert_eq!(
        sandbox_outcome(SpawnObservation::UtilityDenied),
        Err(SpawnError::PermissionDenied)
    );
    assert_eq!(sandbox_outcome(SpawnObservation::Failed), Err(SpawnError::IsolationFailure));
    assert_eq!(
        sandbox_outcome(SpawnObservation::Started(4242)),
        Ok(ProcessHandle { pid: 4242 })
    );
    assert_eq!(sandbox_outcome(SpawnObservation::Started(0)), Ok(ProcessHandle { pid: 0 }));
}

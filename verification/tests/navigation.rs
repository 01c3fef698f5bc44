use launcher::actions::{launch_app, BuiltinApp, LaunchAction, SandboxCommand};
use launcher::catalog::Tab;
use launcher::loader::{load_apps, DirectoryScan, ScanEntry};
use launcher::models::{App, LauncherState};
use launcher::navigation::{
    handle_navigation, parse_direction, parse_tab, NavigationEvent, NavigationState,
};

fn store_app(id: &str) -> App {
    App {
        id: id.to_string(),
        name: id.to_string(),
        description: String::new(),
        icon_path: None,
        executable_path: format!("/apps/{}", id),
        installed: false,
        version: "1".to_string(),
        category: "Games".to_string(),
        background: None,
    }
}

// featured: 6 builtins, installed: 6 builtins, store: the given apps
fn catalog(store: &[&str]) -> LauncherState {
    let mut entries = Vec::new();
    for id in store {
        entries.push(ScanEntry::Descriptor(store_app(id)));
    }
    let mut state = LauncherState::new("/apps".to_string());
    load_apps(&mut state, &DirectoryScan::Entries(entries));
    state
}

fn in_bounds(nav: &NavigationState, state: &LauncherState) -> bool {
    [Tab::Featured, Tab::Installed, Tab::Store]
        .iter()
        .all(|t| state.list(*t).is_empty() || nav.focus(*t) < state.list(*t).len())
}

#[test]
fn initial_state() {
    let nav = NavigationState::new();
    assert_eq!(nav.current_tab, Tab::Featured);
    assert_eq!(nav.featured_focus, 0);
    assert_eq!(nav.installed_focus, 0);
    assert_eq!(nav.store_focus, 0);
    assert_eq!(nav.focus(Tab::Featured), 0);
}

#[test]
fn direction_words() {
    assert_eq!(parse_direction("left"), Some(NavigationEvent::Left));
    assert_eq!(parse_direction("right"), Some(NavigationEvent::Right));
    assert_eq!(parse_direction("up"), Some(NavigationEvent::Up));
    assert_eq!(parse_direction("down"), Some(NavigationEvent::Down));
    assert_eq!(parse_direction("select"), Some(NavigationEvent::Select));
    assert_eq!(parse_direction("Left"), None);
    assert_eq!(parse_direction("lef"), None);
    assert_eq!(parse_direction("leftt"), None);
    assert_eq!(parse_direction(""), None);
    assert_eq!(parse_direction("sélect"), None);
}

#[test]
fn tab_positions() {
    assert_eq!(parse_tab(0), Some(Tab::Featured));
    assert_eq!(parse_tab(1), Some(Tab::Installed));
    assert_eq!(parse_tab(2), Some(Tab::Store));
    assert_eq!(parse_tab(3), None);
    assert_eq!(parse_tab(-1), None);
    assert_eq!(parse_tab(i32::MAX), None);
}

#[test]
fn left_stops_at_zero() {
    let state = catalog(&[]);
    let mut nav = NavigationState::new();
    nav.featured_focus = 2;
    assert_eq!(nav.apply(&state, NavigationEvent::Left), None);
    assert_eq!(nav.featured_focus, 1);
    nav.apply(&state, NavigationEvent::Left);
    assert_eq!(nav.featured_focus, 0);
    nav.apply(&state, NavigationEvent::Left);
    assert_eq!(nav.featured_focus, 0);
    assert_eq!(nav.installed_focus, 0);
    assert_eq!(nav.store_focus, 0);
}

#[test]
fn right_stops_at_the_last_entry() {
    let state = catalog(&[]);
    let mut nav = NavigationState::new();
    for expected in [1, 2, 3, 4, 5, 5, 5] {
        assert_eq!(nav.apply(&state, NavigationEvent::Right), None);
        assert_eq!(nav.featured_focus, expected);
    }
    assert_eq!(nav.installed_focus, 0);
}

#[test]
fn right_on_an_empty_list_changes_nothing() {
    let state = catalog(&[]);
    let mut nav = NavigationState::new();
    nav.apply(&state, NavigationEvent::SwitchTab(Tab::Store));
    let before = nav;
    nav.apply(&state, NavigationEvent::Right);
    assert_eq!(nav, before);
    nav.store_focus = 3;
    nav.apply(&state, NavigationEvent::Right);
    assert_eq!(nav.store_focus, 3);
}

#[test]
fn right_from_a_stale_focus_goes_to_the_last_entry() {
    let state = catalog(&["a", "b"]);
    let mut nav = NavigationState::new();
    nav.current_tab = Tab::Store;
    nav.store_focus = 9;
    nav.apply(&state, NavigationEvent::Right);
    assert_eq!(nav.store_focus, 1);
    nav.store_focus = usize::MAX;
    nav.apply(&state, NavigationEvent::Right);
    assert_eq!(nav.store_focus, 1);
}

#[test]
fn up_and_down_are_accepted_without_effect() {
    let state = catalog(&["a"]);
    let mut nav = NavigationState::new();
    nav.featured_focus = 3;
    let before = nav;
    assert_eq!(nav.apply(&state, NavigationEvent::Up), None);
    assert_eq!(nav.apply(&state, NavigationEvent::Down), None);
    assert_eq!(nav, before);
    assert_eq!(handle_navigation(&mut nav, &state, "up"), None);
    assert_eq!(handle_navigation(&mut nav, &state, "down"), None);
    assert_eq!(nav, before);
}

#[test]
fn switch_tab_keeps_every_focus() {
    let state = catalog(&["a", "b", "c"]);
    let mut nav = NavigationState::new();
    nav.apply(&state, NavigationEvent::Right);
    nav.apply(&state, NavigationEvent::Right);
    nav.apply(&state, NavigationEvent::SwitchTab(Tab::Store));
    assert_eq!(nav.current_tab, Tab::Store);
    assert_eq!(nav.featured_focus, 2);
    nav.apply(&state, NavigationEvent::Right);
    assert_eq!(nav.store_focus, 1);
    nav.apply(&state, NavigationEvent::SwitchTab(Tab::Featured));
    assert_eq!(nav.current_tab, Tab::Featured);
    assert_eq!(nav.featured_focus, 2);
    assert_eq!(nav.store_focus, 1);
    nav.apply(&state, NavigationEvent::SwitchTab(Tab::Installed));
    assert_eq!(nav.focus(Tab::Installed), 0);
}

#[test]
fn select_requests_the_focused_app() {
    let state = catalog(&["a", "b"]);
    let mut nav = NavigationState::new();
    assert_eq!(nav.apply(&state, NavigationEvent::Select), Some("tv".to_string()));
    nav.apply(&state, NavigationEvent::Right);
    let before = nav;
    assert_eq!(nav.apply(&state, NavigationEvent::Select), Some("movies".to_string()));
    assert_eq!(nav, before);
    nav.apply(&state, NavigationEvent::SwitchTab(Tab::Store));
    nav.apply(&state, NavigationEvent::Right);
    let command = SandboxCommand {
        program: "unshare".to_string(),
        args: vec![
            "--net".to_string(),
            "--pid".to_string(),
            "--fork".to_string(),
            "/apps/b".to_string(),
        ],
    };
    assert_eq!(
        handle_navigation(&mut nav, &state, "select"),
        Some(LaunchAction::Sandboxed(command))
    );
}

#[test]
fn select_on_an_empty_tab_is_a_no_op() {
    let state = catalog(&[]);
    let mut nav = NavigationState::new();
    nav.apply(&state, NavigationEvent::SwitchTab(Tab::Store));
    let before = nav;
    assert_eq!(nav.apply(&state, NavigationEvent::Select), None);
    assert_eq!(nav, before);
    assert_eq!(handle_navigation(&mut nav, &state, "select"), None);
    assert_eq!(nav, before);
}

#[test]
fn select_with_a_stale_focus_is_a_no_op() {
    let state = catalog(&["a"]);
    let mut nav = NavigationState::new();
    nav.current_tab = Tab::Store;
    nav.store_focus = 1;
    assert_eq!(nav.apply(&state, NavigationEvent::Select), None);
    assert_eq!(nav.store_focus, 1);
}

#[test]
fn unknown_direction_word_changes_nothing() {
    let state = catalog(&["a"]);
    let mut nav = NavigationState::new();
    nav.featured_focus = 2;
    let before = nav;
    assert_eq!(handle_navigation(&mut nav, &state, "sideways"), None);
    assert_eq!(handle_navigation(&mut nav, &state, ""), None);
    assert_eq!(nav, before);
}

#[test]
fn handle_navigation_moves_the_focus() {
    let state = catalog(&[]);
    let mut nav = NavigationState::new();
    assert_eq!(handle_navigation(&mut nav, &state, "right"), None);
    assert_eq!(handle_navigation(&mut nav, &state, "right"), None);
    assert_eq!(nav.featured_focus, 2);
    assert_eq!(handle_navigation(&mut nav, &state, "left"), None);
    assert_eq!(nav.featured_focus, 1);
    assert_eq!(
        handle_navigation(&mut nav, &state, "select"),
        Some(LaunchAction::Builtin(BuiltinApp::Movies))
    );
    assert_eq!(nav.featured_focus, 1);
}

#[test]
fn focus_stays_in_bounds_over_a_sequence_of_events() {
    let state = catalog(&["a", "b", "c"]);
    let mut nav = NavigationState::new();
    let events = [
        NavigationEvent::Right,
        NavigationEvent::Right,
        NavigationEvent::SwitchTab(Tab::Store),
        NavigationEvent::Right,
        NavigationEvent::Right,
        NavigationEvent::Right,
        NavigationEvent::Right,
        NavigationEvent::Left,
        NavigationEvent::SwitchTab(Tab::Installed),
        NavigationEvent::Left,
        NavigationEvent::Left,
        NavigationEvent::Right,
        NavigationEvent::Right,
        NavigationEvent::Right,
        NavigationEvent::Right,
        NavigationEvent::Right,
        NavigationEvent::Right,
        NavigationEvent::Right,
        NavigationEvent::SwitchTab(Tab::Featured),
        NavigationEvent::Left,
        NavigationEvent::Left,
        NavigationEvent::Left,
    ];
    for e in events {
        nav.apply(&state, e);
        assert!(in_bounds(&nav, &state));
    }
    assert_eq!(nav.featured_focus, 0);
    assert_eq!(nav.installed_focus, 5);
    assert_eq!(nav.store_focus, 1);
    assert_eq!(nav.current_tab, Tab::Featured);
}

#[test]
fn clamp_after_the_lists_shrink() {
    let big = catalog(&["a", "b", "c"]);
    let mut nav = NavigationState::new();
    nav.current_tab = Tab::Store;
    nav.store_focus = 2;
    nav.featured_focus = 5;
    nav.installed_focus = 3;
    nav.clamp(&big);
    assert_eq!((nav.featured_focus, nav.installed_focus, nav.store_focus), (5, 3, 2));
    let small = catalog(&["a"]);
    nav.clamp(&small);
    assert_eq!((nav.featured_focus, nav.installed_focus, nav.store_focus), (5, 3, 0));
    assert_eq!(nav.current_tab, Tab::Store);
    let empty = LauncherState::new("/apps".to_string());
    nav.clamp(&empty);
    assert_eq!((nav.featured_focus, nav.installed_focus, nav.store_focus), (0, 0, 0));
    let mut stale = NavigationState::new();
    stale.installed_focus = 40;
    stale.clamp(&small);
    assert_eq!(stale.installed_focus, 5);
}

#[test]
fn focused_app_is_the_entry_under_the_focus() {
    let state = catalog(&["a", "b"]);
    let mut nav = NavigationState::new();
    assert_eq!(nav.focused_app(&state).map(|a| a.id.as_str()), Some("tv"));
    nav.featured_focus = 5;
    assert_eq!(nav.focused_app(&state).map(|a| a.id.as_str()), Some("app_store"));
    nav.featured_focus = 6;
    assert!(nav.focused_app(&state).is_none());
    nav.current_tab = Tab::Store;
    nav.store_focus = 1;
    assert_eq!(nav.focused_app(&state), Some(&store_app("b")));
    let empty = LauncherState::new("/apps".to_string());
    assert!(nav.focused_app(&empty).is_none());
}

#[test]
fn select_hands_the_focused_identifier_to_the_dispatcher() {
    let state = catalog(&["a", "b", "c"]);
    for tab in [Tab::Featured, Tab::Installed, Tab::Store] {
        for focus in 0..state.list(tab).len() {
            let mut nav = NavigationState::new();
            nav.apply(&state, NavigationEvent::SwitchTab(tab));
            for _ in 0..focus {
                nav.apply(&state, NavigationEvent::Right);
            }
            let id = state.list(tab)[focus].id.clone();
            let decision = handle_navigation(&mut nav, &state, "select");
            assert_eq!(decision, Some(launch_app(&state, &id)));
            assert_ne!(decision, Some(LaunchAction::UnknownApp));
        }
    }
}

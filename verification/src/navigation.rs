//! The navigation state machine: the current tab, one focus index per tab,
//! and the launch that a select event leads to.

use crate::actions::{dispatch, launch_app, route, LaunchAction, LaunchActionView};
use crate::catalog::{
    lemma_catalog_featured, lemma_catalog_partition, lemma_lookup_at, AppView, CatalogView, Tab,
};
use crate::models::{optional_app, optional_text, App, LauncherState};
use crate::text::same_text;
use vstd::prelude::*;

verus! {

/// An input event of the navigation state machine.
#[derive(Clone, Copy, Debug, PartialEq, Eq, Structural)]
pub enum NavigationEvent {
    Left,
    Right,
    /// Accepted, without effect.
    Up,
    /// Accepted, without effect.
    Down,
    Select,
    SwitchTab(Tab),
}

/// The mathematical value of an optional launch decision.
pub open spec fn optional_action(action: Option<LaunchAction>) -> Option<LaunchActionView> {
    match action {
        Some(a) => Some(a@),
        None => None,
    }
}

/// The event that a direction word of the presentation layer stands for.
pub open spec fn direction_event(direction: Seq<char>) -> Option<NavigationEvent> {
    if direction == "left"@ {
        Some(NavigationEvent::Left)
    } else if direction == "right"@ {
        Some(NavigationEvent::Right)
    } else if direction == "up"@ {
        Some(NavigationEvent::Up)
    } else if direction == "down"@ {
        Some(NavigationEvent::Down)
    } else if direction == "select"@ {
        Some(NavigationEvent::Select)
    } else {
        None
    }
}

/// The tab at a position of the tab bar.
pub open spec fn tab_at(index: int) -> Option<Tab> {
    if index == 0 {
        Some(Tab::Featured)
    } else if index == 1 {
        Some(Tab::Installed)
    } else if index == 2 {
        Some(Tab::Store)
    } else {
        None
    }
}

/// The current tab and the focus index of each tab.
#[derive(Clone, Copy, Debug, PartialEq, Eq, Structural)]
pub struct NavigationState {
    pub current_tab: Tab,
    pub featured_focus: usize,
    pub installed_focus: usize,
    pub store_focus: usize,
}

impl NavigationState {
    /// The focus index of `tab`.
    pub open spec fn focus_of(self, tab: Tab) -> usize {
        match tab {
            Tab::Featured => self.featured_focus,
            Tab::Installed => self.installed_focus,
            Tab::Store => self.store_focus,
        }
    }

    /// The same state with the focus index of `tab` set to `focus`.
    pub open spec fn with_focus(self, tab: Tab, focus: usize) -> NavigationState {
        match tab {
            Tab::Featured => NavigationState { featured_focus: focus, ..self },
            Tab::Installed => NavigationState { installed_focus: focus, ..self },
            Tab::Store => NavigationState { store_focus: focus, ..self },
        }
    }

    /// The focus index of `tab` points into its list, unless the list is
    /// empty.
    pub open spec fn focus_in_bounds(self, catalog: CatalogView, tab: Tab) -> bool {
        catalog.list(tab).len() > 0 ==> self.focus_of(tab) < catalog.list(tab).len()
    }

    /// Every focus index points into its list, unless the list is empty.
    pub open spec fn in_bounds(self, catalog: CatalogView) -> bool {
        &&& self.focus_in_bounds(catalog, Tab::Featured)
        &&& self.focus_in_bounds(catalog, Tab::Installed)
        &&& self.focus_in_bounds(catalog, Tab::Store)
    }

    /// The state after `event`.
    ///
    /// Left moves the focus of the current tab one down, not below 0. Right
    /// moves it one up, not beyond the last entry, and does nothing on an
    /// empty list. A tab switch keeps every focus index. The other events
    /// leave the state as it is.
    pub open spec fn step(self, catalog: CatalogView, event: NavigationEvent) -> NavigationState {
        let tab = self.current_tab;
        let focus = self.focus_of(tab);
        let len = catalog.list(tab).len();
        match event {
            NavigationEvent::Left => if focus > 0 {
                self.with_focus(tab, (focus - 1) as usize)
            } else {
                self
            },
            NavigationEvent::Right => if len == 0 {
                self
            } else if focus + 1 <= len - 1 {
                self.with_focus(tab, (focus + 1) as usize)
            } else {
                self.with_focus(tab, (len - 1) as usize)
            },
            NavigationEvent::SwitchTab(to) => NavigationState { current_tab: to, ..self },
            NavigationEvent::Up | NavigationEvent::Down | NavigationEvent::Select => self,
        }
    }

    /// The identifier whose launch `event` requests: that of the focused
    /// entry of the current tab on a select, where the focus points at an
    /// entry; none otherwise.
    pub open spec fn launch_request(self, catalog: CatalogView, event: NavigationEvent) -> Option<
        Seq<char>,
    > {
        match self.focused(catalog) {
            Some(app) if event == NavigationEvent::Select => Some(app.id),
            _ => None,
        }
    }

    /// The entry that the focus of the current tab points at, if it points
    /// at one.
    pub open spec fn focused(self, catalog: CatalogView) -> Option<AppView> {
        let list = catalog.list(self.current_tab);
        let focus = self.focus_of(self.current_tab);
        if focus < list.len() {
            Some(list[focus as int])
        } else {
            None
        }
    }

    /// The decision of the launch dispatcher that `event` leads to: its
    /// decision for the requested identifier, or none where `event`
    /// requests no launch.
    pub open spec fn launch_decision(self, catalog: CatalogView, event: NavigationEvent) -> Option<
        LaunchActionView,
    > {
        match self.launch_request(catalog, event) {
            Some(id) => Some(dispatch(catalog, id)),
            None => None,
        }
    }

    /// The state after the events of `events`, first to last.
    pub open spec fn run(self, catalog: CatalogView, events: Seq<NavigationEvent>) -> NavigationState
        decreases events.len(),
    {
        if events.len() == 0 {
            self
        } else {
            self.run(catalog, events.drop_last()).step(catalog, events.last())
        }
    }

    /// The state with every focus index brought back into its list: to the
    /// last entry where it pointed beyond it, to 0 where the list is empty.
    pub open spec fn clamped(self, catalog: CatalogView) -> NavigationState {
        NavigationState {
            current_tab: self.current_tab,
            featured_focus: clamped_focus(self.featured_focus, catalog.featured.len()),
            installed_focus: clamped_focus(self.installed_focus, catalog.installed.len()),
            store_focus: clamped_focus(self.store_focus, catalog.store.len()),
        }
    }

    /// The initial state: the featured tab, every focus on the first entry.
    pub open spec fn initial() -> NavigationState {
        NavigationState {
            current_tab: Tab::Featured,
            featured_focus: 0,
            installed_focus: 0,
            store_focus: 0,
        }
    }

    /// The initial state: the featured tab, every focus on the first entry.
    pub fn new() -> (state: Self)
        ensures
            state == Self::initial(),
            forall|catalog: CatalogView| state.in_bounds(catalog),
    {
        NavigationState {
            current_tab: Tab::Featured,
            featured_focus: 0,
            installed_focus: 0,
            store_focus: 0,
        }
    }

    /// The focus index of `tab`.
    pub fn focus(&self, tab: Tab) -> (focus: usize)
        ensures
            focus == self.focus_of(tab),
    {
        match tab {
            Tab::Featured => self.featured_focus,
            Tab::Installed => self.installed_focus,
            Tab::Store => self.store_focus,
        }
    }

    /// The entry that the focus of the current tab points at, if it points
    /// at one.
    pub fn focused_app<'a>(&self, state: &'a LauncherState) -> (app: Option<&'a App>)
        ensures
            optional_app(app) == self.focused(state@),
    {
        let list = state.list(self.current_tab);
        let focus = self.focus(self.current_tab);
        if focus < list.len() {
            Some(&list[focus])
        } else {
            None
        }
    }

    /// Set the focus index of `tab`.
    fn set_focus(&mut self, tab: Tab, focus: usize)
        ensures
            *final(self) == old(self).with_focus(tab, focus),
    {
        match tab {
            Tab::Featured => {
                self.featured_focus = focus;
            },
            Tab::Installed => {
                self.installed_focus = focus;
            },
            Tab::Store => {
                self.store_focus = focus;
            },
        }
    }

    /// Take one event. Returns the identifier of the app to launch where
    /// the event is a select on a focused entry. A select on an empty list
    /// changes nothing and requests nothing.
    pub fn apply(&mut self, state: &LauncherState, event: NavigationEvent) -> (launch: Option<
        String,
    >)
        ensures
            *final(self) == old(self).step(state@, event),
            optional_text(launch) == old(self).launch_request(state@, event),
            old(self).in_bounds(state@) ==> final(self).in_bounds(state@),
            event == NavigationEvent::Select && state@.list(old(self).current_tab).len() == 0
                ==> launch is None && *final(self) == *old(self),
    {
        let tab = self.current_tab;
        let focus = self.focus(tab);
        let list = state.list(tab);
        proof {
            if old(self).in_bounds(state@) {
                lemma_step_in_bounds(*old(self), state@, event);
            }
        }
        match event {
            NavigationEvent::Left => {
                if focus > 0 {
                    self.set_focus(tab, focus - 1);
                }
                None
            },
            NavigationEvent::Right => {
                let len = list.len();
                if len > 0 {
                    let next = if focus < len - 1 {
                        focus + 1
                    } else {
                        len - 1
                    };
                    self.set_focus(tab, next);
                }
                None
            },
            NavigationEvent::Up => None,
            NavigationEvent::Down => None,
            NavigationEvent::Select => {
                match self.focused_app(state) {
                    Some(app) => Some(app.id.clone()),
                    None => None,
                }
            },
            NavigationEvent::SwitchTab(to) => {
                self.current_tab = to;
                None
            },
        }
    }

    /// Bring every focus index back into its list, after the lists have
    /// changed.
    pub fn clamp(&mut self, state: &LauncherState)
        ensures
            *final(self) == old(self).clamped(state@),
            final(self).in_bounds(state@),
    {
        self.featured_focus = clamp_focus(self.featured_focus, state.featured_apps().len());
        self.installed_focus = clamp_focus(self.installed_focus, state.installed_apps().len());
        self.store_focus = clamp_focus(self.store_focus, state.store_apps().len());
    }
}

/// A focus index brought back into a list of `len` entries.
pub open spec fn clamped_focus(focus: usize, len: nat) -> usize {
    if len == 0 {
        0
    } else if focus < len {
        focus
    } else {
        (len - 1) as usize
    }
}

fn clamp_focus(focus: usize, len: usize) -> (clamped: usize)
    ensures
        clamped == clamped_focus(focus, len as nat),
{
    if len == 0 {
        0
    } else if focus < len {
        focus
    } else {
        len - 1
    }
}

/// The event that the direction word `direction` stands for, or `None` for
/// a word that stands for none.
pub fn parse_direction(direction: &str) -> (event: Option<NavigationEvent>)
    ensures
        event == direction_event(direction@),
{
    if same_text(direction, "left") {
        Some(NavigationEvent::Left)
    } else if same_text(direction, "right") {
        Some(NavigationEvent::Right)
    } else if same_text(direction, "up") {
        Some(NavigationEvent::Up)
    } else if same_text(direction, "down") {
        Some(NavigationEvent::Down)
    } else if same_text(direction, "select") {
        Some(NavigationEvent::Select)
    } else {
        None
    }
}

/// The tab at position `index` of the tab bar, or `None` for a position
/// that has no tab.
pub fn parse_tab(index: i32) -> (tab: Option<Tab>)
    ensures
        tab == tab_at(index as int),
{
    if index == 0 {
        Some(Tab::Featured)
    } else if index == 1 {
        Some(Tab::Installed)
    } else if index == 2 {
        Some(Tab::Store)
    } else {
        None
    }
}

/// Take the direction word `direction` as an event: move the focus, or, on
/// a select, hand the identifier of the focused entry to the launch
/// dispatcher and return its decision. A word that stands for no event
/// changes nothing, and a select where the focus points at no entry
/// requests nothing.
pub fn handle_navigation(nav: &mut NavigationState, state: &LauncherState, direction: &str) -> (launch:
    Option<LaunchAction>)
    ensures
        *final(nav) == match direction_event(direction@) {
            Some(event) => old(nav).step(state@, event),
            None => *old(nav),
        },
        optional_action(launch) == match direction_event(direction@) {
            Some(event) => old(nav).launch_decision(state@, event),
            None => None,
        },
        old(nav).in_bounds(state@) ==> final(nav).in_bounds(state@),
        direction_event(direction@) == Some(NavigationEvent::Select) && state@.list(
            old(nav).current_tab,
        ).len() == 0 ==> launch is None && *final(nav) == *old(nav),
{
    match parse_direction(direction) {
        Some(event) => match nav.apply(state, event) {
            Some(id) => Some(launch_app(state, id.as_str())),
            None => None,
        },
        None => None,
    }
}

/// Each of the five direction words stands for its own event.
pub proof fn lemma_direction_words()
    ensures
        direction_event("left"@) == Some(NavigationEvent::Left),
        direction_event("right"@) == Some(NavigationEvent::Right),
        direction_event("up"@) == Some(NavigationEvent::Up),
        direction_event("down"@) == Some(NavigationEvent::Down),
        direction_event("select"@) == Some(NavigationEvent::Select),
{
    reveal_strlit("left");
    reveal_strlit("right");
    reveal_strlit("up");
    reveal_strlit("down");
    reveal_strlit("select");
    assert("left"@.len() == 4 && "left"@[0] == 'l');
    assert("right"@.len() == 5);
    assert("up"@.len() == 2);
    assert("down"@.len() == 4 && "down"@[0] == 'd');
    assert("select"@.len() == 6);
}

/// A step keeps every focus index in bounds.
pub proof fn lemma_step_in_bounds(nav: NavigationState, catalog: CatalogView, event: NavigationEvent)
    requires
        nav.in_bounds(catalog),
    ensures
        nav.step(catalog, event).in_bounds(catalog),
{
}

/// After any sequence of events, every focus index is in bounds.
pub proof fn lemma_run_in_bounds(
    nav: NavigationState,
    catalog: CatalogView,
    events: Seq<NavigationEvent>,
)
    requires
        nav.in_bounds(catalog),
    ensures
        nav.run(catalog, events).in_bounds(catalog),
    decreases events.len(),
{
    if events.len() > 0 {
        lemma_run_in_bounds(nav, catalog, events.drop_last());
        lemma_step_in_bounds(nav.run(catalog, events.drop_last()), catalog, events.last());
    }
}

/// From the initial state, after any sequence of events and over any
/// lists, every focus index is in bounds.
pub proof fn lemma_run_from_initial_in_bounds(catalog: CatalogView, events: Seq<NavigationEvent>)
    ensures
        NavigationState::initial().run(catalog, events).in_bounds(catalog),
{
    lemma_run_in_bounds(NavigationState::initial(), catalog, events);
}

/// A select on a tab whose list is empty changes nothing and requests no
/// launch.
pub proof fn lemma_select_on_empty_list(nav: NavigationState, catalog: CatalogView)
    requires
        catalog.list(nav.current_tab).len() == 0,
    ensures
        nav.step(catalog, NavigationEvent::Select) == nav,
        nav.launch_request(catalog, NavigationEvent::Select) is None,
{
}

/// Every entry of the three lists is a record of the catalog, filed under
/// its own identifier.
pub proof fn lemma_listed_apps_are_filed(catalog: CatalogView, tab: Tab, i: int)
    requires
        catalog.wf(),
        0 <= i < catalog.list(tab).len(),
    ensures
        catalog.get(catalog.list(tab)[i].id) == Some(catalog.list(tab)[i]),
{
    let app = catalog.list(tab)[i];
    lemma_catalog_partition(catalog);
    lemma_catalog_featured(catalog);
    match tab {
        Tab::Featured => {
            assert(catalog.installed[i] == app);
            assert(catalog.installed.contains(app));
        },
        Tab::Installed => {
            assert(catalog.installed.contains(app));
        },
        Tab::Store => {
            assert(catalog.store.contains(app));
        },
    }
    assert(catalog.apps.contains(app));
    let k = choose|k: int| 0 <= k < catalog.apps.len() && catalog.apps[k] == app;
    lemma_lookup_at(catalog.apps, k);
}

/// A select on a focused entry launches that entry: the dispatcher finds
/// its record and decides by its launch target alone.
pub proof fn lemma_select_launches_focused(nav: NavigationState, catalog: CatalogView)
    requires
        catalog.wf(),
    ensures
        nav.launch_decision(catalog, NavigationEvent::Select) == match nav.focused(catalog) {
            Some(app) => Some(route(app.executable_path)),
            None => None,
        },
{
    if nav.focused(catalog) is Some {
        lemma_listed_apps_are_filed(catalog, nav.current_tab, nav.focus_of(nav.current_tab) as int);
    }
}

/// Clamping brings every focus index into bounds and changes nothing that
/// is in bounds already, but for the focus on an empty list, which goes to 0.
pub proof fn lemma_clamped_in_bounds(nav: NavigationState, catalog: CatalogView)
    ensures
        nav.clamped(catalog).in_bounds(catalog),
        forall|tab: Tab|
            catalog.list(tab).len() > 0 && nav.focus_in_bounds(catalog, tab) ==> nav.clamped(
                catalog,
            ).focus_of(tab) == nav.focus_of(tab),
{
    assert forall|tab: Tab|
        catalog.list(tab).len() > 0 && nav.focus_in_bounds(catalog, tab) implies nav.clamped(
        catalog,
    ).focus_of(tab) == nav.focus_of(tab) by {
        match tab {
            Tab::Featured => {},
            Tab::Installed => {},
            Tab::Store => {},
        }
    }
}

} // verus!

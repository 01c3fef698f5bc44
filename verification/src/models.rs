//! The app record and the catalog that owns the records.

use crate::catalog::{
    distinct_ids, featured_of, installed_of, store_of, upsert, upsert_all, AppView, CatalogView,
    Tab, FEATURED_LIMIT,
};
use vstd::prelude::*;

verus! {

/// One application known to the launcher.
#[derive(Debug, PartialEq, Eq)]
pub struct App {
    /// Unique identifier, the key of the record in the catalog.
    pub id: String,
    pub name: String,
    pub description: String,
    /// Icon reference, resolved by the presentation layer.
    pub icon_path: Option<String>,
    /// Either `builtin://<tag>` or the path of an executable.
    pub executable_path: String,
    pub installed: bool,
    pub version: String,
    pub category: String,
    /// Background image reference, resolved by the presentation layer.
    pub background: Option<String>,
}

/// The characters of an optional text.
pub open spec fn optional_text(text: Option<String>) -> Option<Seq<char>> {
    match text {
        Some(t) => Some(t@),
        None => None,
    }
}

impl View for App {
    type V = AppView;

    open spec fn view(&self) -> AppView {
        AppView {
            id: self.id@,
            name: self.name@,
            description: self.description@,
            icon_path: optional_text(self.icon_path),
            executable_path: self.executable_path@,
            installed: self.installed,
            version: self.version@,
            category: self.category@,
            background: optional_text(self.background),
        }
    }
}

/// The mathematical value of an optional record.
pub open spec fn optional_app(app: Option<&App>) -> Option<AppView> {
    match app {
        Some(a) => Some(a@),
        None => None,
    }
}

/// The mathematical value of an optional owned record.
pub open spec fn optional_record(app: Option<App>) -> Option<AppView> {
    match app {
        Some(a) => Some(a@),
        None => None,
    }
}

/// The records of a list as mathematical values, in the same order.
pub open spec fn app_views(apps: Seq<App>) -> Seq<AppView> {
    apps.map_values(|a: App| a@)
}

fn clone_optional_text(text: &Option<String>) -> (copy: Option<String>)
    ensures
        copy == *text,
{
    match text {
        Some(t) => Some(t.clone()),
        None => None,
    }
}

impl Clone for App {
    fn clone(&self) -> (copy: Self)
        ensures
            copy == *self,
    {
        App {
            id: self.id.clone(),
            name: self.name.clone(),
            description: self.description.clone(),
            icon_path: clone_optional_text(&self.icon_path),
            executable_path: self.executable_path.clone(),
            installed: self.installed,
            version: self.version.clone(),
            category: self.category.clone(),
            background: clone_optional_text(&self.background),
        }
    }
}

/// The catalog: the records in insertion order, no identifier twice, and
/// the featured, installed and store lists derived from them.
///
/// The fields are private and every operation leaves the three lists
/// derived from the records, so a reader never sees a stale list.
#[derive(Debug)]
pub struct LauncherState {
    apps: Vec<App>,
    featured_apps: Vec<App>,
    installed_apps: Vec<App>,
    store_apps: Vec<App>,
    apps_directory: String,
}

impl View for LauncherState {
    type V = CatalogView;

    closed spec fn view(&self) -> CatalogView {
        CatalogView {
            apps: app_views(self.apps@),
            featured: app_views(self.featured_apps@),
            installed: app_views(self.installed_apps@),
            store: app_views(self.store_apps@),
            apps_directory: self.apps_directory@,
        }
    }
}

/// Position of the record of `apps` that carries `id`, if there is one.
fn find_app(apps: &Vec<App>, id: &String) -> (found: Option<usize>)
    ensures
        match found {
            Some(i) => i < apps.len() && apps[i as int].id@ == id@ && forall|k: int|
                0 <= k < i ==> apps[k].id@ != id@,
            None => forall|k: int| 0 <= k < apps.len() ==> apps[k].id@ != id@,
        },
{
    let mut i: usize = 0;
    while i < apps.len()
        invariant
            i <= apps.len(),
            forall|k: int| 0 <= k < i ==> apps[k].id@ != id@,
        decreases apps.len() - i,
    {
        if apps[i].id == *id {
            return Some(i);
        }
        i += 1;
    }
    None
}

/// Insert `app` into `apps`, or replace the record that has its identifier.
fn upsert_record(apps: &mut Vec<App>, app: App)
    requires
        distinct_ids(app_views(old(apps)@)),
    ensures
        app_views(final(apps)@) == upsert(app_views(old(apps)@), app@),
        distinct_ids(app_views(final(apps)@)),
{
    let ghost before = app_views(apps@);
    let ghost record = app@;
    let found = find_app(apps, &app.id);
    proof {
        crate::catalog::lemma_upsert(before, record);
    }
    match found {
        Some(i) => {
            proof {
                assert(before[i as int].id == record.id);
                crate::catalog::lemma_lookup_at(before, i as int);
            }
            apps.set(i, app);
            assert(app_views(apps@) =~= before.update(i as int, record));
        },
        None => {
            proof {
                if crate::catalog::has_id(before, record.id) {
                    let p = crate::catalog::position_of(before, record.id);
                    assert(before[p].id == record.id);
                    assert(apps[p].id@ == record.id);
                }
            }
            apps.push(app);
            assert(app_views(apps@) =~= before.push(record));
        },
    }
}

/// The records of `apps` whose installed flag is `installed`, in order.
fn select_by_flag(apps: &Vec<App>, installed: bool) -> (chosen: Vec<App>)
    ensures
        app_views(chosen@) == app_views(apps@).filter(|a: AppView| a.installed == installed),
{
    let ghost keep = |a: AppView| a.installed == installed;
    let mut chosen: Vec<App> = Vec::new();
    let mut i: usize = 0;
    proof {
        reveal(Seq::filter);
        assert(app_views(apps@).take(0) =~= Seq::<AppView>::empty());
        assert(app_views(chosen@) =~= Seq::<AppView>::empty());
    }
    while i < apps.len()
        invariant
            i <= apps.len(),
            keep == |a: AppView| a.installed == installed,
            app_views(chosen@) == app_views(apps@).take(i as int).filter(keep),
        decreases apps.len() - i,
    {
        let ghost done = app_views(apps@).take(i as int);
        let ghost before = app_views(chosen@);
        proof {
            done.lemma_filter_push(apps[i as int]@, keep);
            assert(app_views(apps@).take(i + 1) =~= done.push(apps[i as int]@));
        }
        if apps[i].installed == installed {
            chosen.push(apps[i].clone());
            assert(app_views(chosen@) =~= before.push(apps[i as int]@));
        }
        i += 1;
    }
    assert(app_views(apps@).take(apps.len() as int) =~= app_views(apps@));
    chosen
}

/// The first entries of `apps`, at most `limit` of them.
fn first_entries(apps: &Vec<App>, limit: usize) -> (front: Vec<App>)
    ensures
        app_views(front@) == if apps.len() <= limit {
            app_views(apps@)
        } else {
            app_views(apps@).take(limit as int)
        },
{
    let count = if apps.len() <= limit {
        apps.len()
    } else {
        limit
    };
    let mut front: Vec<App> = Vec::new();
    let mut i: usize = 0;
    while i < count
        invariant
            i <= count <= apps.len(),
            app_views(front@) == app_views(apps@).take(i as int),
        decreases count - i,
    {
        let ghost before = app_views(front@);
        front.push(apps[i].clone());
        assert(app_views(front@) =~= before.push(apps[i as int]@));
        assert(app_views(apps@).take(i + 1) =~= before.push(apps[i as int]@));
        i += 1;
    }
    assert(app_views(apps@).take(apps.len() as int) =~= app_views(apps@));
    front
}

impl LauncherState {
    /// What every catalog satisfies: see `CatalogView::wf`.
    #[verifier::type_invariant]
    pub closed spec fn inv(self) -> bool {
        self@.wf()
    }

    /// The catalog over `apps`, with its three lists derived from them.
    fn assemble(apps: Vec<App>, apps_directory: String) -> (state: Self)
        requires
            distinct_ids(app_views(apps@)),
        ensures
            state@ == CatalogView::derived(app_views(apps@), apps_directory@),
            state@.wf(),
    {
        let installed_apps = select_by_flag(&apps, true);
        let store_apps = select_by_flag(&apps, false);
        let featured_apps = first_entries(&installed_apps, FEATURED_LIMIT);
        proof {
            let views = app_views(apps@);
            assert((|a: AppView| a.installed == true) =~= (|a: AppView| a.installed));
            assert((|a: AppView| a.installed == false) =~= (|a: AppView| !a.installed));
            assert(app_views(installed_apps@) == installed_of(views));
            assert(app_views(store_apps@) == store_of(views));
            assert(app_views(featured_apps@) == featured_of(views));
        }
        LauncherState { apps, featured_apps, installed_apps, store_apps, apps_directory }
    }

    /// Take the records and the directory out, leaving an empty catalog.
    fn take_records(&mut self) -> (parts: (Vec<App>, String))
        ensures
            app_views(parts.0@) == old(self)@.apps,
            distinct_ids(app_views(parts.0@)),
            parts.1@ == old(self)@.apps_directory,
            old(self)@.wf(),
    {
        proof {
            use_type_invariant(&*self);
        }
        let mut taken = Self::new(String::new());
        std::mem::swap(self, &mut taken);
        let LauncherState { apps, apps_directory, .. } = taken;
        (apps, apps_directory)
    }

    /// An empty catalog for the apps directory `apps_directory`.
    pub fn new(apps_directory: String) -> (state: Self)
        ensures
            state@ == CatalogView::derived(Seq::empty(), apps_directory@),
            state@.wf(),
    {
        let apps: Vec<App> = Vec::new();
        assert(app_views(apps@) =~= Seq::<AppView>::empty());
        Self::assemble(apps, apps_directory)
    }

    /// All records, in insertion order.
    pub fn apps(&self) -> (apps: &Vec<App>)
        ensures
            app_views(apps@) == self@.apps,
            self@.wf(),
    {
        proof {
            use_type_invariant(self);
        }
        &self.apps
    }

    /// The first installed records, at most `FEATURED_LIMIT`.
    pub fn featured_apps(&self) -> (apps: &Vec<App>)
        ensures
            app_views(apps@) == self@.featured,
            self@.wf(),
    {
        proof {
            use_type_invariant(self);
        }
        &self.featured_apps
    }

    /// The installed records, in insertion order.
    pub fn installed_apps(&self) -> (apps: &Vec<App>)
        ensures
            app_views(apps@) == self@.installed,
            self@.wf(),
    {
        proof {
            use_type_invariant(self);
        }
        &self.installed_apps
    }

    /// The records that are not installed, in insertion order.
    pub fn store_apps(&self) -> (apps: &Vec<App>)
        ensures
            app_views(apps@) == self@.store,
            self@.wf(),
    {
        proof {
            use_type_invariant(self);
        }
        &self.store_apps
    }

    /// The list that `tab` shows.
    pub fn list(&self, tab: Tab) -> (apps: &Vec<App>)
        ensures
            app_views(apps@) == self@.list(tab),
            self@.wf(),
    {
        match tab {
            Tab::Featured => self.featured_apps(),
            Tab::Installed => self.installed_apps(),
            Tab::Store => self.store_apps(),
        }
    }

    /// The directory that is scanned for app descriptors.
    pub fn apps_directory(&self) -> (directory: &String)
        ensures
            directory@ == self@.apps_directory,
    {
        &self.apps_directory
    }

    /// The record filed under `id`, if there is one.
    pub fn get(&self, id: &str) -> (found: Option<&App>)
        ensures
            optional_app(found) == self@.get(id@),
            self@.wf(),
    {
        proof {
            use_type_invariant(self);
        }
        let key = id.to_owned();
        match find_app(&self.apps, &key) {
            Some(i) => {
                proof {
                    assert(app_views(self.apps@)[i as int].id == id@);
                    crate::catalog::lemma_lookup_at(app_views(self.apps@), i as int);
                }
                Some(&self.apps[i])
            },
            None => {
                proof {
                    let views = app_views(self.apps@);
                    if crate::catalog::has_id(views, id@) {
                        let p = crate::catalog::position_of(views, id@);
                        assert(views[p].id == id@);
                        assert(self.apps[p].id@ == id@);
                    }
                }
                None
            },
        }
    }

    /// Insert `app`, or replace the record that has its identifier, and
    /// derive the three lists anew.
    pub fn upsert(&mut self, app: App)
        ensures
            final(self)@ == old(self)@.with_apps(upsert(old(self)@.apps, app@)),
            final(self)@.wf(),
    {
        let (mut apps, apps_directory) = self.take_records();
        upsert_record(&mut apps, app);
        *self = Self::assemble(apps, apps_directory);
    }

    /// Upsert the records of `incoming` one after the other, first to
    /// last, and derive the three lists anew.
    pub fn upsert_all(&mut self, incoming: Vec<App>)
        ensures
            final(self)@ == old(self)@.with_apps(
                upsert_all(old(self)@.apps, app_views(incoming@)),
            ),
            final(self)@.wf(),
    {
        let (mut apps, apps_directory) = self.take_records();
        let ghost before = app_views(apps@);
        let ghost arriving = app_views(incoming@);
        assert(arriving.take(0) =~= Seq::<AppView>::empty());
        for app in iter: incoming
            invariant
                iter.seq() == incoming@,
                arriving == app_views(incoming@),
                distinct_ids(app_views(apps@)),
                app_views(apps@) == upsert_all(before, arriving.take(iter.index() as int)),
        {
            proof {
                let i = iter.index() as int;
                assert(arriving.take(i + 1).drop_last() =~= arriving.take(i));
                assert(arriving.take(i + 1).last() == app@);
            }
            upsert_record(&mut apps, app);
        }
        assert(arriving.take(arriving.len() as int) =~= arriving);
        *self = Self::assemble(apps, apps_directory);
    }

    /// Derive the three lists anew from the records. Every operation leaves
    /// the lists derived, so this finds them as it leaves them.
    pub fn refresh(&mut self)
        ensures
            final(self)@ == CatalogView::derived(old(self)@.apps, old(self)@.apps_directory),
            final(self)@ == old(self)@,
            final(self)@.wf(),
    {
        let (apps, apps_directory) = self.take_records();
        *self = Self::assemble(apps, apps_directory);
    }
}

/// A copy of `apps`, record by record.
fn clone_records(apps: &Vec<App>) -> (copy: Vec<App>)
    ensures
        copy@ == apps@,
{
    let mut copy: Vec<App> = Vec::new();
    let mut i: usize = 0;
    while i < apps.len()
        invariant
            i <= apps.len(),
            copy@ == apps@.take(i as int),
        decreases apps.len() - i,
    {
        copy.push(apps[i].clone());
        assert(copy@ =~= apps@.take(i + 1));
        i += 1;
    }
    assert(apps@.take(apps.len() as int) =~= apps@);
    copy
}

impl Clone for LauncherState {
    fn clone(&self) -> (copy: Self)
        ensures
            copy@ == self@,
            copy@.wf(),
    {
        proof {
            use_type_invariant(self);
        }
        Self::assemble(clone_records(&self.apps), self.apps_directory.clone())
    }
}

/// The directory that is scanned for app descriptors unless another is
/// named.
pub open spec fn default_apps_directory() -> Seq<char> {
    "/apps"@
}

} // verus!

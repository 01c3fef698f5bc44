//! Building the catalog: the records found in the apps directory, merged
//! with the launcher's own builtin apps.

use crate::catalog::{
    distinct_ids, featured_of, has_id, id_set, installed_of, lemma_all_installed,
    lemma_distinct_ids_count, lemma_id_set_finite, lemma_upsert_all_distinct, lemma_upsert_all_ids,
    lemma_upsert_all_keeps, lemma_upsert_all_onto_empty, lemma_upsert_all_wins, lookup, store_of,
    upsert_all, AppView, CatalogView,
};
use crate::models::{app_views, default_apps_directory, optional_record, App, LauncherState};
use vstd::prelude::*;

verus! {

/// What the host found for one entry of the apps directory.
#[derive(Debug)]
pub enum ScanEntry {
    /// The entry is not a directory.
    NotADirectory,
    /// The subdirectory holds no descriptor file.
    MissingDescriptor,
    /// The descriptor file could not be read.
    UnreadableDescriptor,
    /// The descriptor file does not hold a valid record.
    MalformedDescriptor,
    /// The descriptor file holds this record.
    Descriptor(App),
}

impl ScanEntry {
    /// The record that the entry contributes, if any.
    pub open spec fn record(self) -> Option<AppView> {
        match self {
            ScanEntry::Descriptor(app) => Some(app@),
            _ => None,
        }
    }
}

/// The records that a run of entries contributes, in the order of the
/// entries.
pub open spec fn scanned_records(entries: Seq<ScanEntry>) -> Seq<AppView> {
    entries.filter_map(|e: ScanEntry| e.record())
}

/// What the host found when it listed the apps directory.
#[derive(Debug)]
pub enum DirectoryScan {
    /// The directory is missing or cannot be listed.
    Unreadable,
    /// The entries of the directory, in the order they were listed.
    Entries(Vec<ScanEntry>),
}

impl DirectoryScan {
    /// The records that the scan contributes: none when the directory could
    /// not be listed.
    pub open spec fn records(self) -> Seq<AppView> {
        match self {
            DirectoryScan::Unreadable => Seq::empty(),
            DirectoryScan::Entries(entries) => scanned_records(entries@),
        }
    }
}

/// A builtin app: installed, at version 1.0.0, routed to an internal
/// handler.
pub open spec fn builtin_record(
    id: Seq<char>,
    name: Seq<char>,
    description: Seq<char>,
    icon_path: Seq<char>,
    executable_path: Seq<char>,
    category: Seq<char>,
) -> AppView {
    AppView {
        id,
        name,
        description,
        icon_path: Some(icon_path),
        executable_path,
        installed: true,
        version: "1.0.0"@,
        category,
        background: None,
    }
}

/// The launcher's own apps, in the order in which they are merged.
pub open spec fn builtin_apps() -> Seq<AppView> {
    seq![
        builtin_record(
            "tv"@,
            "TV"@,
            "Live TV and streaming"@,
            "icons/tv.png"@,
            "builtin://tv"@,
            "Entertainment"@,
        ),
        builtin_record(
            "movies"@,
            "Movies"@,
            "Movie library"@,
            "icons/movies.png"@,
            "builtin://movies"@,
            "Entertainment"@,
        ),
        builtin_record(
            "music"@,
            "Music"@,
            "Music streaming"@,
            "icons/music.png"@,
            "builtin://music"@,
            "Entertainment"@,
        ),
        builtin_record(
            "photos"@,
            "Photos"@,
            "Photo viewer"@,
            "icons/photos.png"@,
            "builtin://photos"@,
            "Media"@,
        ),
        builtin_record(
            "settings"@,
            "Settings"@,
            "System settings"@,
            "icons/settings.png"@,
            "builtin://settings"@,
            "System"@,
        ),
        builtin_record(
            "app_store"@,
            "App Store"@,
            "Download apps"@,
            "icons/app_store.png"@,
            "builtin://app_store"@,
            "System"@,
        ),
    ]
}

/// The records after a load: the scanned records upserted in scan order,
/// then the builtin apps upserted on top of them.
pub open spec fn loaded_records(apps: Seq<AppView>, scan: DirectoryScan) -> Seq<AppView> {
    upsert_all(upsert_all(apps, scan.records()), builtin_apps())
}

fn builtin_app(
    id: &str,
    name: &str,
    description: &str,
    icon_path: &str,
    executable_path: &str,
    category: &str,
) -> (app: App)
    ensures
        app@ == builtin_record(id@, name@, description@, icon_path@, executable_path@, category@),
{
    App {
        id: id.to_owned(),
        name: name.to_owned(),
        description: description.to_owned(),
        icon_path: Some(icon_path.to_owned()),
        executable_path: executable_path.to_owned(),
        installed: true,
        version: "1.0.0".to_owned(),
        category: category.to_owned(),
        background: None,
    }
}

/// The launcher's own apps as records.
pub fn builtin_app_list() -> (apps: Vec<App>)
    ensures
        app_views(apps@) == builtin_apps(),
{
    let mut apps: Vec<App> = Vec::new();
    apps.push(
        builtin_app(
            "tv",
            "TV",
            "Live TV and streaming",
            "icons/tv.png",
            "builtin://tv",
            "Entertainment",
        ),
    );
    apps.push(
        builtin_app(
            "movies",
            "Movies",
            "Movie library",
            "icons/movies.png",
            "builtin://movies",
            "Entertainment",
        ),
    );
    apps.push(
        builtin_app(
            "music",
            "Music",
            "Music streaming",
            "icons/music.png",
            "builtin://music",
            "Entertainment",
        ),
    );
    apps.push(
        builtin_app(
            "photos",
            "Photos",
            "Photo viewer",
            "icons/photos.png",
            "builtin://photos",
            "Media",
        ),
    );
    apps.push(
        builtin_app(
            "settings",
            "Settings",
            "System settings",
            "icons/settings.png",
            "builtin://settings",
            "System",
        ),
    );
    apps.push(
        builtin_app(
            "app_store",
            "App Store",
            "Download apps",
            "icons/app_store.png",
            "builtin://app_store",
            "System",
        ),
    );
    assert(app_views(apps@) =~= builtin_apps());
    apps
}

/// The record that one entry of the apps directory contributes: the
/// descriptor's record, or nothing where there is no valid descriptor.
pub fn load_app_from_directory(entry: &ScanEntry) -> (app: Option<App>)
    ensures
        optional_record(app) == entry.record(),
{
    match entry {
        ScanEntry::Descriptor(app) => Some(app.clone()),
        _ => None,
    }
}

/// The records that a scan contributes, in scan order.
fn scanned_apps(scan: &DirectoryScan) -> (apps: Vec<App>)
    ensures
        app_views(apps@) == scan.records(),
{
    let mut apps: Vec<App> = Vec::new();
    match scan {
        DirectoryScan::Unreadable => {
            assert(app_views(apps@) =~= Seq::<AppView>::empty());
        },
        DirectoryScan::Entries(entries) => {
            let ghost contributes = |e: ScanEntry| e.record();
            let mut i: usize = 0;
            assert(entries@.take(0).filter_map(contributes) =~= Seq::<AppView>::empty());
            assert(app_views(apps@) =~= Seq::<AppView>::empty());
            while i < entries.len()
                invariant
                    i <= entries.len(),
                    contributes == |e: ScanEntry| e.record(),
                    app_views(apps@) == entries@.take(i as int).filter_map(contributes),
                decreases entries.len() - i,
            {
                let ghost before = app_views(apps@);
                proof {
                    entries@.lemma_filter_map_take_succ(contributes, i as int);
                }
                match load_app_from_directory(&entries[i]) {
                    Some(app) => {
                        let ghost record = app@;
                        apps.push(app);
                        assert(app_views(apps@) =~= before + seq![record]);
                    },
                    None => {
                        assert(before + Seq::<AppView>::empty() =~= before);
                    },
                }
                i += 1;
            }
            assert(entries@.take(entries.len() as int) =~= entries@);
        },
    }
    apps
}

/// Upsert the records that the scan of the apps directory found, in scan
/// order. Entries without a valid descriptor contribute nothing, and so
/// does a directory that could not be listed.
pub fn load_installed_apps(state: &mut LauncherState, scan: &DirectoryScan)
    ensures
        final(state)@ == old(state)@.with_apps(upsert_all(old(state)@.apps, scan.records())),
        final(state)@.wf(),
{
    state.upsert_all(scanned_apps(scan));
}

/// Upsert the builtin apps. A record that is already filed under a builtin
/// identifier is replaced by the builtin definition.
pub fn add_builtin_apps(state: &mut LauncherState)
    ensures
        final(state)@ == old(state)@.with_apps(upsert_all(old(state)@.apps, builtin_apps())),
        final(state)@.wf(),
{
    state.upsert_all(builtin_app_list());
}

/// Derive the featured, installed and store lists anew from the records.
/// Every operation on the catalog leaves the lists derived, so this finds
/// them as it leaves them.
pub fn update_app_lists(state: &mut LauncherState)
    ensures
        final(state)@ == CatalogView::derived(old(state)@.apps, old(state)@.apps_directory),
        final(state)@ == old(state)@,
        final(state)@.wf(),
{
    state.refresh();
}

/// Load the catalog: the scanned records first, then the builtin apps on
/// top of them, with the three lists derived from the result.
pub fn load_apps(state: &mut LauncherState, scan: &DirectoryScan)
    ensures
        final(state)@ == old(state)@.with_apps(loaded_records(old(state)@.apps, *scan)),
        final(state)@.wf(),
{
    load_installed_apps(state, scan);
    add_builtin_apps(state);
}

impl LauncherState {
    /// The directory that is scanned for app descriptors unless another is
    /// named.
    pub fn default_directory() -> (directory: String)
        ensures
            directory@ == default_apps_directory(),
    {
        "/apps".to_owned()
    }

    /// The catalog that a launcher starts with: what the scan of
    /// `apps_directory` found, with the builtin apps on top of it.
    pub fn load(apps_directory: String, scan: &DirectoryScan) -> (state: LauncherState)
        ensures
            state@ == CatalogView::derived(loaded_records(Seq::empty(), *scan), apps_directory@),
            state@.wf(),
    {
        let mut state = LauncherState::new(apps_directory);
        load_apps(&mut state, scan);
        state
    }
}

impl Default for LauncherState {
    /// The catalog of a launcher whose apps directory holds nothing that
    /// can be read: the builtin apps alone, all of them installed and
    /// featured, at the default directory. A host that has scanned the
    /// directory hands the scan to `load`.
    fn default() -> (state: Self)
        ensures
            state@ == CatalogView::derived(
                loaded_records(Seq::empty(), DirectoryScan::Unreadable),
                default_apps_directory(),
            ),
            state@.apps == builtin_apps(),
            state@.installed == builtin_apps(),
            state@.featured == builtin_apps(),
            state@.store == Seq::<AppView>::empty(),
            state@.wf(),
    {
        proof {
            lemma_builtins_alone();
        }
        LauncherState::load(LauncherState::default_directory(), &DirectoryScan::Unreadable)
    }
}

/// The builtin identifiers are pairwise distinct.
pub proof fn lemma_builtin_ids_distinct()
    ensures
        distinct_ids(builtin_apps()),
{
    reveal_strlit("tv");
    reveal_strlit("movies");
    reveal_strlit("music");
    reveal_strlit("photos");
    reveal_strlit("settings");
    reveal_strlit("app_store");
    let b = builtin_apps();
    assert(b[0].id.len() == 2);
    assert(b[1].id.len() == 6 && b[1].id[0] == 'm');
    assert(b[2].id.len() == 5);
    assert(b[3].id.len() == 6 && b[3].id[0] == 'p');
    assert(b[4].id.len() == 8);
    assert(b[5].id.len() == 9);
}

/// Builtin records win every collision: whatever the catalog held and
/// whatever the scan found, after a load each builtin identifier holds the
/// builtin definition.
pub proof fn lemma_builtins_win(apps: Seq<AppView>, scan: DirectoryScan)
    requires
        distinct_ids(apps),
    ensures
        forall|k: int|
            0 <= k < builtin_apps().len() ==> lookup(
                loaded_records(apps, scan),
                (#[trigger] builtin_apps()[k]).id,
            ) == Some(builtin_apps()[k]),
{
    lemma_builtin_ids_distinct();
    lemma_upsert_all_distinct(apps, scan.records());
    assert forall|k: int| 0 <= k < builtin_apps().len() implies lookup(
        loaded_records(apps, scan),
        (#[trigger] builtin_apps()[k]).id,
    ) == Some(builtin_apps()[k]) by {
        lemma_upsert_all_wins(upsert_all(apps, scan.records()), builtin_apps(), k);
    }
}

/// A load files records under the identifiers that were there, under
/// those that the scan found and under the builtin ones, and under no
/// others: an entry without a valid descriptor leaves no record.
pub proof fn lemma_loaded_ids(apps: Seq<AppView>, scan: DirectoryScan)
    requires
        distinct_ids(apps),
    ensures
        distinct_ids(loaded_records(apps, scan)),
        forall|id: Seq<char>|
            has_id(loaded_records(apps, scan), id) <==> (has_id(apps, id) || has_id(
                scan.records(),
                id,
            ) || has_id(builtin_apps(), id)),
{
    lemma_upsert_all_distinct(apps, scan.records());
    lemma_upsert_all_distinct(upsert_all(apps, scan.records()), builtin_apps());
    lemma_upsert_all_ids(apps, scan.records());
    lemma_upsert_all_ids(upsert_all(apps, scan.records()), builtin_apps());
}

/// A scanned record whose identifier is not a builtin one is still filed
/// under its identifier after the builtin apps were merged.
pub proof fn lemma_scanned_records_stay(apps: Seq<AppView>, scan: DirectoryScan, id: Seq<char>)
    requires
        distinct_ids(apps),
        !has_id(builtin_apps(), id),
    ensures
        lookup(loaded_records(apps, scan), id) == lookup(upsert_all(apps, scan.records()), id),
{
    lemma_upsert_all_distinct(apps, scan.records());
    lemma_upsert_all_keeps(upsert_all(apps, scan.records()), builtin_apps(), id);
}

/// Loaded into an empty catalog without a scan, the builtin apps stand
/// alone: the six of them make up the records, the installed list and the
/// featured list, and the store list is empty.
pub proof fn lemma_builtins_alone()
    ensures
        builtin_apps().len() == 6,
        loaded_records(Seq::empty(), DirectoryScan::Unreadable) == builtin_apps(),
        installed_of(builtin_apps()) == builtin_apps(),
        featured_of(builtin_apps()) == builtin_apps(),
        store_of(builtin_apps()) == Seq::<AppView>::empty(),
{
    lemma_builtin_ids_distinct();
    lemma_upsert_all_onto_empty(builtin_apps());
    assert(upsert_all(Seq::<AppView>::empty(), DirectoryScan::Unreadable.records())
        == Seq::<AppView>::empty());
    lemma_all_installed(builtin_apps());
}

/// A load leaves one record for each identifier that was there, that the
/// scan found or that is a builtin one. Loaded into an empty catalog, that
/// is the six builtin apps and one record for each scanned identifier that
/// is not a builtin one.
pub proof fn lemma_loaded_count(apps: Seq<AppView>, scan: DirectoryScan)
    requires
        distinct_ids(apps),
    ensures
        id_set(loaded_records(apps, scan)) == id_set(apps).union(id_set(scan.records())).union(
            id_set(builtin_apps()),
        ),
        loaded_records(apps, scan).len() == id_set(loaded_records(apps, scan)).len(),
        loaded_records(Seq::empty(), scan).len() == 6 + id_set(scan.records()).difference(
            id_set(builtin_apps()),
        ).len(),
{
    lemma_loaded_ids(apps, scan);
    lemma_distinct_ids_count(loaded_records(apps, scan));
    assert(id_set(loaded_records(apps, scan)) =~= id_set(apps).union(
        id_set(scan.records()),
    ).union(id_set(builtin_apps()))) by {
        assert forall|id: Seq<char>|
            id_set(loaded_records(apps, scan)).contains(id) <==> id_set(apps).union(
                id_set(scan.records()),
            ).union(id_set(builtin_apps())).contains(id) by {
            assert(has_id(loaded_records(apps, scan), id) <==> (has_id(apps, id) || has_id(
                scan.records(),
                id,
            ) || has_id(builtin_apps(), id)));
        }
    }

    let none = Seq::<AppView>::empty();
    let builtin = id_set(builtin_apps());
    let extra = id_set(scan.records()).difference(builtin);
    lemma_loaded_ids(none, scan);
    lemma_distinct_ids_count(loaded_records(none, scan));
    lemma_builtin_ids_distinct();
    lemma_distinct_ids_count(builtin_apps());
    lemma_id_set_finite(scan.records());
    assert(builtin_apps().len() == 6);
    assert(extra.finite()) by {
        vstd::set_lib::lemma_len_difference(id_set(scan.records()), builtin);
    }
    assert(id_set(loaded_records(none, scan)) =~= builtin + extra) by {
        assert forall|id: Seq<char>|
            id_set(loaded_records(none, scan)).contains(id) <==> (builtin + extra).contains(
                id,
            ) by {
            assert(!has_id(none, id));
            assert(has_id(loaded_records(none, scan), id) <==> (has_id(none, id) || has_id(
                scan.records(),
                id,
            ) || has_id(builtin_apps(), id)));
        }
    }
    assert(builtin.disjoint(extra));
    vstd::set_lib::lemma_set_disjoint_lens(builtin, extra);
}

} // verus!

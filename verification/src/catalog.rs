//! The mathematical model of the catalog: an insertion-ordered sequence of
//! app records with pairwise distinct identifiers, and the three lists that
//! are derived from it.

use vstd::prelude::*;

verus! {

/// Number of entries that the featured list holds at most.
pub const FEATURED_LIMIT: usize = 6;

/// An app record as a mathematical value: every text is its sequence of
/// characters.
pub struct AppView {
    pub id: Seq<char>,
    pub name: Seq<char>,
    pub description: Seq<char>,
    pub icon_path: Option<Seq<char>>,
    pub executable_path: Seq<char>,
    pub installed: bool,
    pub version: Seq<char>,
    pub category: Seq<char>,
    pub background: Option<Seq<char>>,
}

/// The sections of the launcher, each showing one derived list.
#[derive(Clone, Copy, Debug, PartialEq, Eq, Structural)]
pub enum Tab {
    Featured,
    Installed,
    Store,
}

/// Some record of `apps` carries the identifier `id`.
pub open spec fn has_id(apps: Seq<AppView>, id: Seq<char>) -> bool {
    exists|i: int| 0 <= i < apps.len() && (#[trigger] apps[i]).id == id
}

/// A position of `apps` whose record carries `id`; the only one when the
/// identifiers are distinct.
pub open spec fn position_of(apps: Seq<AppView>, id: Seq<char>) -> int {
    choose|i: int| 0 <= i < apps.len() && (#[trigger] apps[i]).id == id
}

/// The record filed under `id`, if there is one.
pub open spec fn lookup(apps: Seq<AppView>, id: Seq<char>) -> Option<AppView> {
    if has_id(apps, id) {
        Some(apps[position_of(apps, id)])
    } else {
        None
    }
}

/// No identifier occurs twice.
pub open spec fn distinct_ids(apps: Seq<AppView>) -> bool {
    forall|i: int, j: int|
        0 <= i < j < apps.len() ==> (#[trigger] apps[i]).id != (#[trigger] apps[j]).id
}

/// Insert `app`, or replace the record that has its identifier. A replaced
/// record keeps its place in the order; a new one goes to the end.
pub open spec fn upsert(apps: Seq<AppView>, app: AppView) -> Seq<AppView> {
    if has_id(apps, app.id) {
        apps.update(position_of(apps, app.id), app)
    } else {
        apps.push(app)
    }
}

/// Upsert the records of `incoming` one after the other, first to last.
pub open spec fn upsert_all(apps: Seq<AppView>, incoming: Seq<AppView>) -> Seq<AppView>
    decreases incoming.len(),
{
    if incoming.len() == 0 {
        apps
    } else {
        upsert(upsert_all(apps, incoming.drop_last()), incoming.last())
    }
}

/// The installed records, in catalog order.
pub open spec fn installed_of(apps: Seq<AppView>) -> Seq<AppView> {
    apps.filter(|a: AppView| a.installed)
}

/// The records that are not installed, in catalog order.
pub open spec fn store_of(apps: Seq<AppView>) -> Seq<AppView> {
    apps.filter(|a: AppView| !a.installed)
}

/// The first installed records, at most `FEATURED_LIMIT` of them.
pub open spec fn featured_of(apps: Seq<AppView>) -> Seq<AppView> {
    let installed = installed_of(apps);
    if installed.len() <= FEATURED_LIMIT {
        installed
    } else {
        installed.take(FEATURED_LIMIT as int)
    }
}

/// The catalog as a mathematical value.
pub struct CatalogView {
    pub apps: Seq<AppView>,
    pub featured: Seq<AppView>,
    pub installed: Seq<AppView>,
    pub store: Seq<AppView>,
    pub apps_directory: Seq<char>,
}

impl CatalogView {
    /// The catalog over `apps` whose three lists are derived from them.
    pub open spec fn derived(apps: Seq<AppView>, apps_directory: Seq<char>) -> CatalogView {
        CatalogView {
            apps,
            featured: featured_of(apps),
            installed: installed_of(apps),
            store: store_of(apps),
            apps_directory,
        }
    }

    /// Identifiers are distinct and the three lists are those derived from
    /// the records.
    pub open spec fn wf(self) -> bool {
        &&& distinct_ids(self.apps)
        &&& self == Self::derived(self.apps, self.apps_directory)
    }

    /// The same catalog over other records.
    pub open spec fn with_apps(self, apps: Seq<AppView>) -> CatalogView {
        Self::derived(apps, self.apps_directory)
    }

    /// The record filed under `id`, if there is one.
    pub open spec fn get(self, id: Seq<char>) -> Option<AppView> {
        lookup(self.apps, id)
    }

    /// The list that `tab` shows.
    pub open spec fn list(self, tab: Tab) -> Seq<AppView> {
        match tab {
            Tab::Featured => self.featured,
            Tab::Installed => self.installed,
            Tab::Store => self.store,
        }
    }
}

/// With distinct identifiers, the record at a position is the one found
/// under its identifier.
pub proof fn lemma_lookup_at(apps: Seq<AppView>, i: int)
    requires
        distinct_ids(apps),
        0 <= i < apps.len(),
    ensures
        has_id(apps, apps[i].id),
        position_of(apps, apps[i].id) == i,
        lookup(apps, apps[i].id) == Some(apps[i]),
{
    let id = apps[i].id;
    assert(has_id(apps, id));
    let p = position_of(apps, id);
    assert(0 <= p < apps.len() && apps[p].id == id);
    if p < i {
        assert(apps[p].id != apps[i].id);
    } else if i < p {
        assert(apps[i].id != apps[p].id);
    }
}

/// An upsert keeps identifiers distinct, files the new record under its
/// identifier and leaves what is filed under every other identifier.
pub proof fn lemma_upsert(apps: Seq<AppView>, app: AppView)
    requires
        distinct_ids(apps),
    ensures
        distinct_ids(upsert(apps, app)),
        lookup(upsert(apps, app), app.id) == Some(app),
        forall|id: Seq<char>| id != app.id ==> lookup(upsert(apps, app), id) == lookup(apps, id),
{
    let after = upsert(apps, app);
    if has_id(apps, app.id) {
        let p = position_of(apps, app.id);
        assert(0 <= p < apps.len() && apps[p].id == app.id);
        assert forall|i: int| 0 <= i < after.len() implies (#[trigger] after[i]).id == apps[i].id by {}
        assert(distinct_ids(after)) by {
            assert forall|i: int, j: int| 0 <= i < j < after.len() implies (#[trigger] after[i]).id
                != (#[trigger] after[j]).id by {
                assert(apps[i].id != apps[j].id);
            }
        }
        assert(after[p] == app);
        lemma_lookup_at(after, p);
        assert forall|id: Seq<char>| id != app.id implies lookup(after, id) == lookup(apps, id) by {
            if has_id(apps, id) {
                let q = position_of(apps, id);
                assert(0 <= q < apps.len() && apps[q].id == id);
                assert(after[q] == apps[q]);
                lemma_lookup_at(after, q);
            } else if has_id(after, id) {
                let q = position_of(after, id);
                assert(0 <= q < after.len() && after[q].id == id);
                assert(apps[q].id == id);
            }
        }
    } else {
        let n = apps.len() as int;
        assert(after[n] == app);
        assert(distinct_ids(after)) by {
            assert forall|i: int, j: int| 0 <= i < j < after.len() implies (#[trigger] after[i]).id
                != (#[trigger] after[j]).id by {
                if j < n {
                    assert(apps[i].id != apps[j].id);
                } else {
                    assert(after[i] == apps[i]);
                }
            }
        }
        lemma_lookup_at(after, n);
        assert forall|id: Seq<char>| id != app.id implies lookup(after, id) == lookup(apps, id) by {
            if has_id(apps, id) {
                let q = position_of(apps, id);
                assert(0 <= q < apps.len() && apps[q].id == id);
                assert(after[q] == apps[q]);
                lemma_lookup_at(after, q);
            } else if has_id(after, id) {
                let q = position_of(after, id);
                assert(0 <= q < after.len() && after[q].id == id);
                assert(q < n);
                assert(apps[q].id == id);
            }
        }
    }
}

/// A run of upserts keeps identifiers distinct.
pub proof fn lemma_upsert_all_distinct(apps: Seq<AppView>, incoming: Seq<AppView>)
    requires
        distinct_ids(apps),
    ensures
        distinct_ids(upsert_all(apps, incoming)),
    decreases incoming.len(),
{
    if incoming.len() > 0 {
        lemma_upsert_all_distinct(apps, incoming.drop_last());
        lemma_upsert(upsert_all(apps, incoming.drop_last()), incoming.last());
    }
}

/// A run of upserts files records under the identifiers that were there
/// and under those of the incoming records, and under no others.
pub proof fn lemma_upsert_all_ids(apps: Seq<AppView>, incoming: Seq<AppView>)
    requires
        distinct_ids(apps),
    ensures
        forall|id: Seq<char>|
            has_id(upsert_all(apps, incoming), id) <==> (has_id(apps, id) || has_id(incoming, id)),
    decreases incoming.len(),
{
    if incoming.len() == 0 {
        assert forall|id: Seq<char>| !has_id(incoming, id) by {}
    } else {
        let front = incoming.drop_last();
        let last = incoming.last();
        let merged = upsert_all(apps, front);
        lemma_upsert_all_ids(apps, front);
        lemma_upsert_all_distinct(apps, front);
        lemma_upsert(merged, last);
        assert forall|id: Seq<char>|
            has_id(upsert_all(apps, incoming), id) <==> (has_id(apps, id) || has_id(
                incoming,
                id,
            )) by {
            let after = upsert(merged, last);
            assert(has_id(after, id) <==> lookup(after, id) is Some);
            assert(has_id(merged, id) <==> lookup(merged, id) is Some);
            if has_id(front, id) {
                let q = position_of(front, id);
                assert(0 <= q < front.len() && front[q].id == id);
                assert(incoming[q].id == id);
            }
            if has_id(incoming, id) && id != last.id {
                let q = position_of(incoming, id);
                assert(0 <= q < incoming.len() && incoming[q].id == id);
                assert(front[q].id == id);
            }
            if id == last.id {
                assert(incoming[incoming.len() - 1].id == id);
            }
        }
    }
}

/// After a run of upserts, an identifier that no incoming record carries
/// holds what it held before.
pub proof fn lemma_upsert_all_keeps(apps: Seq<AppView>, incoming: Seq<AppView>, id: Seq<char>)
    requires
        distinct_ids(apps),
        !has_id(incoming, id),
    ensures
        lookup(upsert_all(apps, incoming), id) == lookup(apps, id),
    decreases incoming.len(),
{
    if incoming.len() > 0 {
        let front = incoming.drop_last();
        assert(!has_id(front, id)) by {
            if has_id(front, id) {
                let q = position_of(front, id);
                assert(0 <= q < front.len() && front[q].id == id);
                assert(incoming[q].id == id);
            }
        }
        assert(incoming[incoming.len() - 1].id != id);
        lemma_upsert_all_keeps(apps, front, id);
        lemma_upsert_all_distinct(apps, front);
        lemma_upsert(upsert_all(apps, front), incoming.last());
    }
}

/// After a run of upserts of records with distinct identifiers, each of
/// them is the record filed under its identifier, whatever was filed there
/// before.
pub proof fn lemma_upsert_all_wins(apps: Seq<AppView>, incoming: Seq<AppView>, k: int)
    requires
        distinct_ids(apps),
        distinct_ids(incoming),
        0 <= k < incoming.len(),
    ensures
        lookup(upsert_all(apps, incoming), incoming[k].id) == Some(incoming[k]),
    decreases incoming.len(),
{
    let front = incoming.drop_last();
    let last = incoming.last();
    lemma_upsert_all_distinct(apps, front);
    lemma_upsert(upsert_all(apps, front), last);
    if k < incoming.len() - 1 {
        assert(distinct_ids(front)) by {
            assert forall|i: int, j: int| 0 <= i < j < front.len() implies (#[trigger] front[i]).id
                != (#[trigger] front[j]).id by {
                assert(incoming[i].id != incoming[j].id);
            }
        }
        assert(front[k] == incoming[k]);
        lemma_upsert_all_wins(apps, front, k);
        assert(incoming[k].id != incoming[incoming.len() - 1].id);
    }
}

/// The installed list and the store list split the records by the
/// installed flag alone: every record is in exactly one of them, and
/// nothing else is in either.
pub proof fn lemma_installed_store_partition(apps: Seq<AppView>)
    ensures
        forall|a: AppView|
            apps.contains(a) <==> (installed_of(apps).contains(a) || store_of(apps).contains(a)),
        forall|a: AppView| installed_of(apps).contains(a) ==> a.installed,
        forall|a: AppView| store_of(apps).contains(a) ==> !a.installed,
        installed_of(apps).len() + store_of(apps).len() == apps.len(),
        installed_of(apps).to_multiset().add(store_of(apps).to_multiset()) == apps.to_multiset(),
    decreases apps.len(),
{
    broadcast use vstd::seq_lib::group_to_multiset_ensures;

    let is_installed = |a: AppView| a.installed;
    let not_installed = |a: AppView| !a.installed;
    if apps.len() == 0 {
        reveal(Seq::filter);
        assert(installed_of(apps) =~= Seq::<AppView>::empty());
        assert(store_of(apps) =~= Seq::<AppView>::empty());
        assert(installed_of(apps).to_multiset().add(store_of(apps).to_multiset())
            =~= apps.to_multiset());
    } else {
        let front = apps.drop_last();
        let last = apps.last();
        lemma_installed_store_partition(front);
        assert(apps =~= front.push(last));
        front.lemma_filter_push(last, is_installed);
        front.lemma_filter_push(last, not_installed);
        let inst = installed_of(apps);
        let store = store_of(apps);
        assert forall|a: AppView|
            apps.contains(a) <==> (inst.contains(a) || store.contains(a)) by {
            if apps.contains(a) {
                let i = choose|i: int| 0 <= i < apps.len() && apps[i] == a;
                if i < front.len() {
                    assert(front[i] == a);
                    assert(front.contains(a));
                    if installed_of(front).contains(a) {
                        let j = choose|j: int|
                            0 <= j < installed_of(front).len() && installed_of(front)[j] == a;
                        assert(inst[j] == a);
                    } else {
                        let j = choose|j: int|
                            0 <= j < store_of(front).len() && store_of(front)[j] == a;
                        assert(store[j] == a);
                    }
                } else {
                    if last.installed {
                        assert(inst[inst.len() - 1] == a);
                    } else {
                        assert(store[store.len() - 1] == a);
                    }
                }
            }
            if inst.contains(a) {
                let j = choose|j: int| 0 <= j < inst.len() && inst[j] == a;
                if j < installed_of(front).len() {
                    assert(installed_of(front)[j] == a);
                    assert(installed_of(front).contains(a));
                    assert(front.contains(a));
                    let i = choose|i: int| 0 <= i < front.len() && front[i] == a;
                    assert(apps[i] == a);
                } else {
                    assert(apps[apps.len() - 1] == a);
                }
            }
            if store.contains(a) {
                let j = choose|j: int| 0 <= j < store.len() && store[j] == a;
                if j < store_of(front).len() {
                    assert(store_of(front)[j] == a);
                    assert(store_of(front).contains(a));
                    assert(front.contains(a));
                    let i = choose|i: int| 0 <= i < front.len() && front[i] == a;
                    assert(apps[i] == a);
                } else {
                    assert(apps[apps.len() - 1] == a);
                }
            }
        }
        assert forall|a: AppView| inst.contains(a) implies a.installed by {
            let j = choose|j: int| 0 <= j < inst.len() && inst[j] == a;
            if j < installed_of(front).len() {
                assert(installed_of(front)[j] == a);
                assert(installed_of(front).contains(a));
            }
        }
        assert forall|a: AppView| store.contains(a) implies !a.installed by {
            let j = choose|j: int| 0 <= j < store.len() && store[j] == a;
            if j < store_of(front).len() {
                assert(store_of(front)[j] == a);
                assert(store_of(front).contains(a));
            }
        }
        assert(inst.to_multiset().add(store.to_multiset()) =~= apps.to_multiset());
    }
}

/// The featured list is the installed list cut off after `FEATURED_LIMIT`
/// entries.
pub proof fn lemma_featured_prefix(apps: Seq<AppView>)
    ensures
        featured_of(apps).is_prefix_of(installed_of(apps)),
        featured_of(apps).len() == if installed_of(apps).len() <= FEATURED_LIMIT {
            installed_of(apps).len()
        } else {
            FEATURED_LIMIT as nat
        },
{
    let installed = installed_of(apps);
    if installed.len() > FEATURED_LIMIT {
        assert(installed.take(FEATURED_LIMIT as int) =~= installed.subrange(
            0,
            FEATURED_LIMIT as int,
        ));
    } else {
        assert(installed.subrange(0, installed.len() as int) =~= installed);
    }
}

/// In every catalog the installed list and the store list together hold
/// exactly the records, no record is in both, and the installed flag alone
/// decides in which of the two a record is.
pub proof fn lemma_catalog_partition(catalog: CatalogView)
    requires
        catalog.wf(),
    ensures
        forall|a: AppView|
            catalog.apps.contains(a) <==> (catalog.installed.contains(a) || catalog.store.contains(
                a,
            )),
        forall|a: AppView| !(catalog.installed.contains(a) && catalog.store.contains(a)),
        forall|a: AppView| catalog.installed.contains(a) <==> (catalog.apps.contains(a) && a.installed),
        forall|a: AppView| catalog.store.contains(a) <==> (catalog.apps.contains(a) && !a.installed),
        catalog.installed.len() + catalog.store.len() == catalog.apps.len(),
        catalog.installed.to_multiset().add(catalog.store.to_multiset())
            == catalog.apps.to_multiset(),
{
    lemma_installed_store_partition(catalog.apps);
}

/// In every catalog the featured list is the front of the installed list,
/// `FEATURED_LIMIT` entries long or as long as the installed list where that
/// is shorter; deriving the lists again gives the same catalog.
pub proof fn lemma_catalog_featured(catalog: CatalogView)
    requires
        catalog.wf(),
    ensures
        catalog.featured.is_prefix_of(catalog.installed),
        catalog.featured.len() == if catalog.installed.len() <= FEATURED_LIMIT {
            catalog.installed.len()
        } else {
            FEATURED_LIMIT as nat
        },
        forall|i: int| 0 <= i < catalog.featured.len() ==> catalog.featured[i] == catalog.installed[i],
        CatalogView::derived(catalog.apps, catalog.apps_directory) == catalog,
{
    lemma_featured_prefix(catalog.apps);
}

/// The identifiers under which `apps` files a record.
pub open spec fn id_set(apps: Seq<AppView>) -> Set<Seq<char>> {
    Set::new(|id: Seq<char>| has_id(apps, id))
}

/// The identifiers of `apps`, in the order of the records.
pub open spec fn ids_of(apps: Seq<AppView>) -> Seq<Seq<char>> {
    apps.map_values(|a: AppView| a.id)
}

/// The identifiers under which `apps` files a record are those of its
/// records, and they are finitely many.
pub proof fn lemma_id_set_finite(apps: Seq<AppView>)
    ensures
        id_set(apps) == ids_of(apps).to_set(),
        id_set(apps).finite(),
{
    let ids = ids_of(apps);
    assert(ids.to_set() =~= id_set(apps)) by {
        assert forall|id: Seq<char>| ids.to_set().contains(id) <==> id_set(apps).contains(id) by {
            if ids.contains(id) {
                let i = choose|i: int| 0 <= i < ids.len() && ids[i] == id;
                assert(apps[i].id == id);
            }
            if has_id(apps, id) {
                let i = position_of(apps, id);
                assert(0 <= i < apps.len() && apps[i].id == id);
                assert(ids[i] == id);
            }
        }
    }
    vstd::seq_lib::seq_to_set_is_finite(ids);
}

/// With distinct identifiers there are as many identifiers as records.
pub proof fn lemma_distinct_ids_count(apps: Seq<AppView>)
    requires
        distinct_ids(apps),
    ensures
        id_set(apps).finite(),
        id_set(apps).len() == apps.len(),
{
    let ids = ids_of(apps);
    assert(ids.no_duplicates()) by {
        assert forall|i: int, j: int|
            0 <= i < ids.len() && 0 <= j < ids.len() && i != j implies ids[i] != ids[j] by {
            if i < j {
                assert(apps[i].id != apps[j].id);
            } else {
                assert(apps[j].id != apps[i].id);
            }
        }
    }
    lemma_id_set_finite(apps);
    ids.unique_seq_to_set();
}

/// Where every record is installed, the installed list holds all of them
/// and the store list none.
pub proof fn lemma_all_installed(apps: Seq<AppView>)
    requires
        forall|i: int| 0 <= i < apps.len() ==> (#[trigger] apps[i]).installed,
    ensures
        installed_of(apps) == apps,
        store_of(apps) == Seq::<AppView>::empty(),
    decreases apps.len(),
{
    if apps.len() == 0 {
        reveal(Seq::filter);
        assert(installed_of(apps) =~= apps);
        assert(store_of(apps) =~= Seq::<AppView>::empty());
    } else {
        let front = apps.drop_last();
        let last = apps.last();
        assert forall|i: int| 0 <= i < front.len() implies (#[trigger] front[i]).installed by {
            assert(apps[i].installed);
        }
        lemma_all_installed(front);
        assert(apps =~= front.push(last));
        assert(apps[apps.len() - 1].installed);
        front.lemma_filter_push(last, |a: AppView| a.installed);
        front.lemma_filter_push(last, |a: AppView| !a.installed);
    }
}

/// Records with distinct identifiers, upserted into an empty catalog, stand
/// there as they came.
pub proof fn lemma_upsert_all_onto_empty(incoming: Seq<AppView>)
    requires
        distinct_ids(incoming),
    ensures
        upsert_all(Seq::empty(), incoming) == incoming,
    decreases incoming.len(),
{
    if incoming.len() == 0 {
        assert(incoming =~= Seq::<AppView>::empty());
    } else {
        let front = incoming.drop_last();
        let last = incoming.last();
        assert(distinct_ids(front)) by {
            assert forall|i: int, j: int| 0 <= i < j < front.len() implies (#[trigger] front[i]).id
                != (#[trigger] front[j]).id by {
                assert(incoming[i].id != incoming[j].id);
            }
        }
        lemma_upsert_all_onto_empty(front);
        assert(!has_id(front, last.id)) by {
            if has_id(front, last.id) {
                let q = position_of(front, last.id);
                assert(0 <= q < front.len() && front[q].id == last.id);
                assert(incoming[q].id != incoming[incoming.len() - 1].id);
            }
        }
        assert(front.push(last) =~= incoming);
    }
}

/// A selection of records with distinct identifiers has distinct
/// identifiers, and files nothing under an identifier that was not there.
pub proof fn lemma_filter_distinct_ids(apps: Seq<AppView>, keep: spec_fn(AppView) -> bool)
    requires
        distinct_ids(apps),
    ensures
        distinct_ids(apps.filter(keep)),
        forall|id: Seq<char>| has_id(apps.filter(keep), id) ==> has_id(apps, id),
    decreases apps.len(),
{
    if apps.len() == 0 {
        reveal(Seq::filter);
        assert(apps.filter(keep) =~= Seq::<AppView>::empty());
    } else {
        let front = apps.drop_last();
        let last = apps.last();
        assert(distinct_ids(front)) by {
            assert forall|i: int, j: int| 0 <= i < j < front.len() implies (#[trigger] front[i]).id
                != (#[trigger] front[j]).id by {
                assert(apps[i].id != apps[j].id);
            }
        }
        lemma_filter_distinct_ids(front, keep);
        assert(apps =~= front.push(last));
        front.lemma_filter_push(last, keep);
        let chosen = apps.filter(keep);
        let before = front.filter(keep);
        assert forall|id: Seq<char>| has_id(chosen, id) implies has_id(apps, id) by {
            let q = position_of(chosen, id);
            assert(0 <= q < chosen.len() && chosen[q].id == id);
            if q < before.len() {
                assert(before[q].id == id);
                assert(has_id(before, id));
                assert(has_id(front, id));
                let r = position_of(front, id);
                assert(0 <= r < front.len() && front[r].id == id);
                assert(apps[r].id == id);
            } else {
                assert(apps[apps.len() - 1].id == id);
            }
        }
        assert forall|i: int, j: int| 0 <= i < j < chosen.len() implies (#[trigger] chosen[i]).id != (
        #[trigger] chosen[j]).id by {
            if j < before.len() {
                assert(before[i].id != before[j].id);
            } else {
                assert(before[i] == chosen[i]);
                assert(has_id(before, chosen[i].id));
                assert(has_id(front, chosen[i].id));
                let r = position_of(front, chosen[i].id);
                assert(0 <= r < front.len() && front[r].id == chosen[i].id);
                assert(apps[r].id != apps[apps.len() - 1].id);
            }
        }
    }
}

/// In every catalog each of the three lists has distinct identifiers, and
/// no identifier is both in the installed list and in the store list.
pub proof fn lemma_catalog_lists_distinct(catalog: CatalogView)
    requires
        catalog.wf(),
    ensures
        distinct_ids(catalog.installed),
        distinct_ids(catalog.store),
        distinct_ids(catalog.featured),
        forall|id: Seq<char>| !(has_id(catalog.installed, id) && has_id(catalog.store, id)),
{
    let apps = catalog.apps;
    lemma_filter_distinct_ids(apps, |a: AppView| a.installed);
    lemma_filter_distinct_ids(apps, |a: AppView| !a.installed);
    lemma_catalog_featured(catalog);
    lemma_catalog_partition(catalog);
    assert(distinct_ids(catalog.featured)) by {
        assert forall|i: int, j: int| 0 <= i < j < catalog.featured.len() implies (
        #[trigger] catalog.featured[i]).id != (#[trigger] catalog.featured[j]).id by {
            assert(catalog.installed[i].id != catalog.installed[j].id);
        }
    }
    assert forall|id: Seq<char>| !(has_id(catalog.installed, id) && has_id(catalog.store, id)) by {
        if has_id(catalog.installed, id) && has_id(catalog.store, id) {
            let i = position_of(catalog.installed, id);
            let j = position_of(catalog.store, id);
            let a = catalog.installed[i];
            let b = catalog.store[j];
            assert(a.id == id && b.id == id);
            assert(catalog.installed.contains(a));
            assert(catalog.store.contains(b));
            assert(apps.contains(a) && apps.contains(b));
            let k = choose|k: int| 0 <= k < apps.len() && apps[k] == a;
            let l = choose|l: int| 0 <= l < apps.len() && apps[l] == b;
            lemma_lookup_at(apps, k);
            lemma_lookup_at(apps, l);
            assert(a == b);
        }
    }
}

} // verus!

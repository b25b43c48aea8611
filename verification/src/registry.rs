//! The app registry: the cache of configurations by id, and what each
//! operation on the apps directory decides.
//!
//! The directory is the truth and the registry a cache of it. The caller
//! reads the directory into a listing, one `Scanned` for each subdirectory in
//! the order in which they were read; the functions here say what a lookup
//! finds in it, what a load makes of it, and what a save or an update writes.

use crate::adapters::text_of;
use crate::config::{AppConfig, AppConfigView, Engine, EngineView};
use crate::error::{Error, ErrorView};
use crate::paths::{folder_name, generate_app_folder, join, joined};
use crate::text::same_text;
use vstd::prelude::*;

verus! {

/// What reading one subdirectory of the apps directory gave.
#[derive(Debug, PartialEq, Eq)]
pub enum Scanned {
    /// The entry, or the configuration in it, could not be read or parsed.
    Failed { error: Error },
    /// A directory without a configuration file: not an app.
    NoConfig { folder: String },
    /// A directory with its configuration.
    App { folder: String, config: AppConfig },
}

/// A `Scanned` as plain values.
pub enum ScannedView {
    Failed { error: ErrorView },
    NoConfig { folder: Seq<char> },
    App { folder: Seq<char>, config: AppConfigView },
}

impl View for Scanned {
    type V = ScannedView;

    open spec fn view(&self) -> ScannedView {
        match self {
            Scanned::Failed { error } => ScannedView::Failed { error: error@ },
            Scanned::NoConfig { folder } => ScannedView::NoConfig { folder: folder@ },
            Scanned::App { folder, config } => ScannedView::App {
                folder: folder@,
                config: config@,
            },
        }
    }
}

/// The views of a listing, in order.
pub open spec fn listing_view(l: Seq<Scanned>) -> Seq<ScannedView> {
    l.map_values(|e: Scanned| e@)
}

/// The entry is an app with the id `id`.
pub open spec fn holds_id(e: ScannedView, id: Seq<char>) -> bool {
    e matches ScannedView::App { config, .. } && config.id == id
}

/// A lookup of `id` ends at this entry: it is the app, or it failed to read.
pub open spec fn stops_lookup(e: ScannedView, id: Seq<char>) -> bool {
    e is Failed || holds_id(e, id)
}

/// `i` is the first entry of `l` at which a lookup of `id` ends.
pub open spec fn lookup_ends_at(l: Seq<ScannedView>, id: Seq<char>, i: int) -> bool {
    &&& 0 <= i < l.len()
    &&& stops_lookup(l[i], id)
    &&& forall|j: int| 0 <= j < i ==> !stops_lookup(#[trigger] l[j], id)
}

/// What a lookup of `id` in `l` gives: the position of the first app with
/// that id, provided nothing before it failed to read; the error of the
/// first failure where one comes first; `AppNotFound` where the listing
/// ends without either.
pub open spec fn lookup(l: Seq<ScannedView>, id: Seq<char>) -> Result<int, ErrorView> {
    if exists|i: int| lookup_ends_at(l, id, i) {
        let i = choose|i: int| lookup_ends_at(l, id, i);
        match l[i] {
            ScannedView::Failed { error } => Err(error),
            _ => Ok(i),
        }
    } else {
        Err(ErrorView::AppNotFound)
    }
}

/// The directory of the app `id` under `base`, by a lookup in `l`.
pub open spec fn dir_by_id(base: Seq<char>, l: Seq<ScannedView>, id: Seq<char>) -> Result<
    Seq<char>,
    ErrorView,
> {
    match lookup(l, id) {
        Ok(i) => Ok(joined(base, l[i]->App_folder)),
        Err(e) => Err(e),
    }
}

/// What a rename of the app `id` to the name `name` moves: its directory as
/// a lookup finds it, and the directory under `base` that the new name gives.
pub open spec fn rename_of(
    base: Seq<char>,
    l: Seq<ScannedView>,
    id: Seq<char>,
    name: Seq<char>,
) -> Result<(Seq<char>, Seq<char>), ErrorView> {
    match dir_by_id(base, l, id) {
        Ok(from) => Ok((from, joined(base, folder_name(name, id)))),
        Err(e) => Err(e),
    }
}

/// What an update of the app `id` decides from the listing `l`: its
/// directory under `base`, the configuration to write and the folder to
/// rename the directory to, if any, all from the configuration that the
/// lookup found; or the error of the lookup, with nothing to do.
pub open spec fn update_of(
    base: Seq<char>,
    l: Seq<ScannedView>,
    id: Seq<char>,
    name: Seq<char>,
    url: Seq<char>,
    engine: EngineView,
) -> Result<(Seq<char>, AppConfigView, Option<Seq<char>>), ErrorView> {
    match lookup(l, id) {
        Ok(i) => Ok(
            (
                joined(base, l[i]->App_folder),
                updated(l[i]->App_config, name, url, engine),
                rename_target(l[i]->App_config, name),
            ),
        ),
        Err(e) => Err(e),
    }
}

/// What a delete of the app `id` does: the directory it removes, and the
/// listing as it is without it.
pub open spec fn delete_of(base: Seq<char>, l: Seq<ScannedView>, id: Seq<char>) -> Result<
    (Seq<char>, Seq<ScannedView>),
    ErrorView,
> {
    match lookup(l, id) {
        Ok(i) => Ok((joined(base, l[i]->App_folder), l.remove(i))),
        Err(e) => Err(e),
    }
}

/// `i` is the first entry of `l` that failed to read.
pub open spec fn first_failure(l: Seq<ScannedView>, i: int) -> bool {
    &&& 0 <= i < l.len()
    &&& l[i] is Failed
    &&& forall|j: int| 0 <= j < i ==> !(#[trigger] l[j] is Failed)
}

/// The entries of `l` before its first failure; all of `l` where nothing failed.
pub open spec fn readable(l: Seq<ScannedView>) -> Seq<ScannedView> {
    if exists|i: int| first_failure(l, i) {
        l.take(choose|i: int| first_failure(l, i))
    } else {
        l
    }
}

/// The error of the first failure in `l`.
pub open spec fn load_error(l: Seq<ScannedView>) -> Option<ErrorView> {
    if exists|i: int| first_failure(l, i) {
        Some(l[choose|i: int| first_failure(l, i)]->Failed_error)
    } else {
        None
    }
}

/// The apps of `l` by their ids. Where two entries carry one id, the later
/// one stands.
pub open spec fn apps_of(l: Seq<ScannedView>) -> Map<Seq<char>, AppConfigView>
    decreases l.len(),
{
    if l.len() == 0 {
        Map::empty()
    } else {
        match l.last() {
            ScannedView::App { config, .. } => apps_of(l.drop_last()).insert(config.id, config),
            _ => apps_of(l.drop_last()),
        }
    }
}

/// What a load makes of `l`: the apps that were read before anything failed.
pub open spec fn loaded(l: Seq<ScannedView>) -> Map<Seq<char>, AppConfigView> {
    apps_of(readable(l))
}

/// The configurations of `s` by their ids, the later one standing where two
/// carry one id.
pub open spec fn by_id(s: Seq<AppConfigView>) -> Map<Seq<char>, AppConfigView>
    decreases s.len(),
{
    if s.len() == 0 {
        Map::empty()
    } else {
        by_id(s.drop_last()).insert(s.last().id, s.last())
    }
}

/// No two configurations of `s` carry one id.
pub open spec fn distinct_ids(s: Seq<AppConfigView>) -> bool {
    forall|i: int, j: int| 0 <= i < j < s.len() ==> (#[trigger] s[i]).id != (#[trigger] s[j]).id
}

/// The views of a list of configurations, in order.
pub open spec fn configs_view(s: Seq<AppConfig>) -> Seq<AppConfigView> {
    s.map_values(|c: AppConfig| c@)
}

/// `apps` lists what `m` holds: each of its configurations once, under its
/// own id, in some order.
pub open spec fn lists(apps: Seq<AppConfigView>, m: Map<Seq<char>, AppConfigView>) -> bool {
    &&& distinct_ids(apps)
    &&& forall|i: int|
        0 <= i < apps.len() ==> m.contains_key((#[trigger] apps[i]).id) && m[apps[i].id] == apps[i]
    &&& forall|id: Seq<char>| #[trigger]
        m.contains_key(id) ==> exists|i: int| 0 <= i < apps.len() && (#[trigger] apps[i]).id == id
}

/// The configuration that a save writes for `app`: every field as given but
/// the folder, which is derived from name and id whatever the caller put there.
pub open spec fn saved(app: AppConfigView) -> AppConfigView {
    AppConfigView { folder: folder_name(app.name, app.id), ..app }
}

/// The folder of a configuration is the one its name and id give.
pub open spec fn folder_is_current(app: AppConfigView) -> bool {
    app.folder == folder_name(app.name, app.id)
}

/// The configuration that an update writes: name, address and engine as
/// given; the folder derived anew exactly if the name changed; the rest as
/// it was.
pub open spec fn updated(
    current: AppConfigView,
    name: Seq<char>,
    url: Seq<char>,
    engine: EngineView,
) -> AppConfigView {
    AppConfigView {
        name,
        url,
        engine,
        folder: if current.name != name {
            folder_name(name, current.id)
        } else {
            current.folder
        },
        ..current
    }
}

/// The folder that an update renames the app's directory to: none unless
/// the name changed.
pub open spec fn rename_target(current: AppConfigView, name: Seq<char>) -> Option<Seq<char>> {
    if current.name != name {
        Some(folder_name(name, current.id))
    } else {
        None
    }
}

/// What `by_id` holds for a list without repeated ids: each configuration
/// under its id, and nothing else.
pub proof fn lemma_by_id_lists(s: Seq<AppConfigView>)
    requires
        distinct_ids(s),
    ensures
        lists(s, by_id(s)),
    decreases s.len(),
{
    if s.len() > 0 {
        let before = s.drop_last();
        assert(distinct_ids(before)) by {
            assert forall|i: int, j: int| 0 <= i < j < before.len() implies (#[trigger] before[i]).id
                != (#[trigger] before[j]).id by {
                assert(before[i] == s[i] && before[j] == s[j]);
            }
        }
        lemma_by_id_lists(before);
        let m = by_id(s);
        assert forall|i: int| 0 <= i < s.len() implies m.contains_key((#[trigger] s[i]).id) && m[s[i].id]
            == s[i] by {
            if i < before.len() {
                assert(before[i] == s[i]);
                assert(s[i].id != s[s.len() - 1].id);
            }
        }
        assert forall|id: Seq<char>| #[trigger] m.contains_key(id) implies exists|i: int|
            0 <= i < s.len() && (#[trigger] s[i]).id == id by {
            if id == s.last().id {
                assert(s[s.len() - 1].id == id);
            } else {
                assert(by_id(before).contains_key(id));
                let i = choose|i: int| 0 <= i < before.len() && (#[trigger] before[i]).id == id;
                assert(s[i].id == id);
            }
        }
    }
}

/// Replacing the configuration that carries an id by another with the same
/// id is an insertion under that id.
pub proof fn lemma_by_id_update(s: Seq<AppConfigView>, i: int, a: AppConfigView)
    requires
        distinct_ids(s),
        0 <= i < s.len(),
        s[i].id == a.id,
    ensures
        by_id(s.update(i, a)) == by_id(s).insert(a.id, a),
        distinct_ids(s.update(i, a)),
    decreases s.len(),
{
    let t = s.update(i, a);
    let before = s.drop_last();
    assert(distinct_ids(t)) by {
        assert forall|x: int, y: int| 0 <= x < y < t.len() implies (#[trigger] t[x]).id != (
        #[trigger] t[y]).id by {
            assert(s[x].id != s[y].id);
        }
    }
    if i == s.len() - 1 {
        assert(t.drop_last() =~= before);
        assert(by_id(t) =~= by_id(s).insert(a.id, a));
    } else {
        assert(distinct_ids(before)) by {
            assert forall|x: int, y: int| 0 <= x < y < before.len() implies (
            #[trigger] before[x]).id != (#[trigger] before[y]).id by {
                assert(before[x] == s[x] && before[y] == s[y]);
            }
        }
        assert(before[i] == s[i]);
        lemma_by_id_update(before, i, a);
        assert(t.drop_last() =~= before.update(i, a));
        assert(t.last() == s.last());
        assert(s[i].id != s[s.len() - 1].id);
        assert(by_id(t) =~= by_id(s).insert(a.id, a));
    }
}

/// The ids that `by_id` holds are those of the list.
pub proof fn lemma_by_id_keys(s: Seq<AppConfigView>, id: Seq<char>)
    ensures
        by_id(s).contains_key(id) <==> exists|i: int| 0 <= i < s.len() && (#[trigger] s[i]).id == id,
    decreases s.len(),
{
    if s.len() > 0 {
        let before = s.drop_last();
        lemma_by_id_keys(before, id);
        if by_id(s).contains_key(id) {
            if id == s.last().id {
                assert(s[s.len() - 1].id == id);
            } else {
                let i = choose|i: int| 0 <= i < before.len() && (#[trigger] before[i]).id == id;
                assert(s[i].id == id);
            }
        }
        if exists|i: int| 0 <= i < s.len() && (#[trigger] s[i]).id == id {
            let i = choose|i: int| 0 <= i < s.len() && (#[trigger] s[i]).id == id;
            if i < before.len() {
                assert(before[i].id == id);
            }
        }
    }
}

/// A list without repeated ids holds as many ids as it has configurations.
pub proof fn lemma_by_id_len(s: Seq<AppConfigView>)
    requires
        distinct_ids(s),
    ensures
        by_id(s).dom().finite(),
        by_id(s).dom().len() == s.len(),
    decreases s.len(),
{
    if s.len() == 0 {
        assert(by_id(s).dom() =~= Set::<Seq<char>>::empty());
    } else {
        let before = s.drop_last();
        assert(distinct_ids(before)) by {
            assert forall|i: int, j: int| 0 <= i < j < before.len() implies (#[trigger] before[i]).id
                != (#[trigger] before[j]).id by {
                assert(before[i] == s[i] && before[j] == s[j]);
            }
        }
        lemma_by_id_len(before);
        lemma_by_id_keys(before, s.last().id);
        assert(!by_id(before).dom().contains(s.last().id)) by {
            if by_id(before).contains_key(s.last().id) {
                let i = choose|i: int| 0 <= i < before.len() && (#[trigger] before[i]).id == s.last().id;
                assert(s[i].id != s[s.len() - 1].id);
            }
        }
        assert(by_id(s).dom() =~= by_id(before).dom().insert(s.last().id));
    }
}

/// A configuration that a save wrote is what a later load returns under its
/// id, field for field, with the folder that name and id give: provided
/// the whole directory could be read and no directory read after it carries
/// the same id.
pub proof fn lemma_saved_app_is_loaded(l: Seq<ScannedView>, k: int, app: AppConfigView)
    requires
        0 <= k < l.len(),
        l[k] matches ScannedView::App { config, .. } && config == saved(app),
        forall|j: int| 0 <= j < l.len() ==> !(#[trigger] l[j] is Failed),
        forall|j: int| k < j < l.len() ==> !holds_id(#[trigger] l[j], app.id),
    ensures
        loaded(l).contains_key(app.id),
        loaded(l)[app.id] == saved(app),
        loaded(l)[app.id].folder == folder_name(app.name, app.id),
        loaded(l)[app.id] == (AppConfigView { folder: loaded(l)[app.id].folder, ..app }),
{
    assert(!exists|i: int| first_failure(l, i));
    lemma_last_holder_is_loaded(l, k, app.id);
}

/// Of the entries that carry an id, the last one is what `apps_of` holds
/// under it.
pub proof fn lemma_last_holder_is_loaded(l: Seq<ScannedView>, k: int, id: Seq<char>)
    requires
        0 <= k < l.len(),
        holds_id(l[k], id),
        forall|j: int| k < j < l.len() ==> !holds_id(#[trigger] l[j], id),
    ensures
        apps_of(l).contains_key(id),
        apps_of(l)[id] == l[k]->App_config,
    decreases l.len(),
{
    if k < l.len() - 1 {
        let before = l.drop_last();
        assert(before[k] == l[k]);
        assert forall|j: int| k < j < before.len() implies !holds_id(#[trigger] before[j], id) by {
            assert(before[j] == l[j]);
        }
        lemma_last_holder_is_loaded(before, k, id);
        assert(!holds_id(l[l.len() - 1], id));
    }
}

/// An id that no entry carries is not among the apps.
pub proof fn lemma_absent_id_is_not_loaded(l: Seq<ScannedView>, id: Seq<char>)
    requires
        forall|j: int| 0 <= j < l.len() ==> !holds_id(#[trigger] l[j], id),
    ensures
        !apps_of(l).contains_key(id),
    decreases l.len(),
{
    if l.len() > 0 {
        let before = l.drop_last();
        assert forall|j: int| 0 <= j < before.len() implies !holds_id(#[trigger] before[j], id) by {
            assert(before[j] == l[j]);
        }
        lemma_absent_id_is_not_loaded(before, id);
        assert(!holds_id(l[l.len() - 1], id));
    }
}

/// An id that no directory carries is not found, as long as every directory
/// can be read: lookup, rename, delete and update all fail with
/// `AppNotFound`, and so decide nothing.
pub proof fn lemma_unknown_id_is_not_found(
    base: Seq<char>,
    l: Seq<ScannedView>,
    id: Seq<char>,
    name: Seq<char>,
    url: Seq<char>,
    engine: EngineView,
)
    requires
        forall|j: int| 0 <= j < l.len() ==> !stops_lookup(#[trigger] l[j], id),
    ensures
        lookup(l, id) == Err::<int, ErrorView>(ErrorView::AppNotFound),
        dir_by_id(base, l, id) is Err,
        rename_of(base, l, id, name) is Err,
        delete_of(base, l, id) is Err,
        update_of(base, l, id, name, url, engine) == Err::<
            (Seq<char>, AppConfigView, Option<Seq<char>>),
            ErrorView,
        >(ErrorView::AppNotFound),
{
    assert forall|i: int| !lookup_ends_at(l, id, i) by {}
}

/// Once the directory that a delete removed is gone, a new lookup of the id
/// finds no app: provided no other directory carries the id and every
/// directory can be read.
pub proof fn lemma_deleted_app_is_not_found(
    base: Seq<char>,
    l: Seq<ScannedView>,
    id: Seq<char>,
    i: int,
)
    requires
        lookup(l, id) == Ok::<int, ErrorView>(i),
        0 <= i < l.len(),
        forall|j: int| 0 <= j < l.len() && j != i ==> !stops_lookup(#[trigger] l[j], id),
    ensures
        lookup(l.remove(i), id) == Err::<int, ErrorView>(ErrorView::AppNotFound),
        delete_of(base, l, id) matches Ok((_, rest)) && dir_by_id(base, rest, id) == Err::<
            Seq<char>,
            ErrorView,
        >(ErrorView::AppNotFound),
{
    let rest = l.remove(i);
    assert forall|j: int| !lookup_ends_at(rest, id, j) by {
        if 0 <= j < rest.len() {
            if j < i {
                assert(rest[j] == l[j]);
            } else {
                assert(rest[j] == l[j + 1]);
            }
        }
    }
}

/// A name is taken once: an update that renames is followed by none, as long
/// as the name asked for stays the same. The first of two updates with one
/// name renames exactly if the name differs from the stored one; the second
/// never does.
pub proof fn lemma_rename_happens_once(
    current: AppConfigView,
    name: Seq<char>,
    url1: Seq<char>,
    engine1: EngineView,
    url2: Seq<char>,
    engine2: EngineView,
)
    ensures
        rename_target(current, name) is Some <==> current.name != name,
        rename_target(updated(current, name, url1, engine1), name) is None,
        updated(updated(current, name, url1, engine1), name, url2, engine2).folder == updated(
            current,
            name,
            url1,
            engine1,
        ).folder,
{
}

/// An update leaves the folder in step with name and id, and never touches
/// the id.
pub proof fn lemma_update_keeps_folder_current(
    current: AppConfigView,
    name: Seq<char>,
    url: Seq<char>,
    engine: EngineView,
)
    requires
        folder_is_current(current),
    ensures
        folder_is_current(updated(current, name, url, engine)),
        updated(current, name, url, engine).id == current.id,
{
}

/// The position in `listing` of the app with the id `id`.
pub fn find_app(listing: &Vec<Scanned>, id: &str) -> (r: Result<usize, Error>)
    ensures
        match r {
            Ok(i) => lookup(listing_view(listing@), id@) == Ok::<int, ErrorView>(i as int) && i
                < listing.len() && listing@[i as int] is App,
            Err(e) => lookup(listing_view(listing@), id@) == Err::<int, ErrorView>(e@),
        },
{
    let ghost l = listing_view(listing@);
    let mut i: usize = 0;
    while i < listing.len()
        invariant
            i <= listing.len(),
            l == listing_view(listing@),
            forall|j: int| 0 <= j < i ==> !stops_lookup(#[trigger] l[j], id@),
        decreases listing.len() - i,
    {
        assert(l[i as int] == listing@[i as int]@);
        match &listing[i] {
            Scanned::Failed { error } => {
                proof {
                    assert(lookup_ends_at(l, id@, i as int));
                    let k = choose|k: int| lookup_ends_at(l, id@, k);
                    assert(k == i);
                }
                return Err(error.clone());
            },
            Scanned::NoConfig { .. } => {},
            Scanned::App { config, .. } => {
                if same_text(config.id.as_str(), id) {
                    proof {
                        assert(lookup_ends_at(l, id@, i as int));
                        let k = choose|k: int| lookup_ends_at(l, id@, k);
                        assert(k == i);
                    }
                    return Ok(i);
                }
            },
        }
        i += 1;
    }
    assert(forall|k: int| !lookup_ends_at(l, id@, k));
    Err(Error::AppNotFound)
}

/// The directory under `base` of the app with the id `id`, as `listing` shows it.
pub fn app_dir_by_id(base: &str, listing: &Vec<Scanned>, id: &str) -> (r: Result<String, Error>)
    ensures
        match r {
            Ok(p) => dir_by_id(base@, listing_view(listing@), id@) == Ok::<Seq<char>, ErrorView>(p@),
            Err(e) => dir_by_id(base@, listing_view(listing@), id@) == Err::<
                Seq<char>,
                ErrorView,
            >(e@),
        },
{
    match find_app(listing, id) {
        Ok(i) => {
            assert(listing_view(listing@)[i as int] == listing@[i as int]@);
            match &listing[i] {
                Scanned::App { folder, .. } => Ok(join(base, folder.as_str())),
                _ => {
                    assert(false);
                    Err(Error::AppNotFound)
                },
            }
        },
        Err(e) => Err(e),
    }
}

/// What a rename of the app `id` to the name `new_name` moves: from its
/// directory as `listing` shows it, to the directory under `base` that the
/// new name gives.
pub fn rename_app_folder(base: &str, listing: &Vec<Scanned>, id: &str, new_name: &str) -> (r:
    Result<(String, String), Error>)
    ensures
        match r {
            Ok((from, to)) => rename_of(base@, listing_view(listing@), id@, new_name@) == Ok::<
                (Seq<char>, Seq<char>),
                ErrorView,
            >((from@, to@)),
            Err(e) => rename_of(base@, listing_view(listing@), id@, new_name@) == Err::<
                (Seq<char>, Seq<char>),
                ErrorView,
            >(e@),
        },
{
    match app_dir_by_id(base, listing, id) {
        Ok(from) => {
            let folder = generate_app_folder(new_name, id);
            let to = join(base, folder.as_str());
            Ok((from, to))
        },
        Err(e) => Err(e),
    }
}

/// What a delete of the app `id` does: the directory to remove, and the
/// listing as it is once that directory is gone.
pub fn delete_app(base: &str, listing: Vec<Scanned>, id: &str) -> (r: Result<
    (String, Vec<Scanned>),
    Error,
>)
    ensures
        match r {
            Ok((dir, rest)) => delete_of(base@, listing_view(listing@), id@) == Ok::<
                (Seq<char>, Seq<ScannedView>),
                ErrorView,
            >((dir@, listing_view(rest@))),
            Err(e) => delete_of(base@, listing_view(listing@), id@) == Err::<
                (Seq<char>, Seq<ScannedView>),
                ErrorView,
            >(e@),
        },
{
    match find_app(&listing, id) {
        Ok(i) => {
            assert(listing_view(listing@)[i as int] == listing@[i as int]@);
            let dir = match &listing[i] {
                Scanned::App { folder, .. } => join(base, folder.as_str()),
                _ => {
                    assert(false);
                    String::new()
                },
            };
            let mut rest = listing;
            let ghost before = listing_view(rest@);
            rest.remove(i);
            assert(listing_view(rest@) =~= before.remove(i as int));
            Ok((dir, rest))
        },
        Err(e) => Err(e),
    }
}

/// The configuration that a save writes for `app`.
pub fn save_app(app: AppConfig) -> (r: AppConfig)
    ensures
        r@ == saved(app@),
        folder_is_current(r@),
{
    let folder = generate_app_folder(app.name.as_str(), app.id.as_str());
    AppConfig {
        id: app.id,
        name: app.name,
        url: app.url,
        description: app.description,
        created_at: app.created_at,
        engine: app.engine,
        folder,
    }
}

/// What an update is to do: the folder to rename the app's directory to,
/// if any, and the configuration to write afterwards.
#[derive(Debug, PartialEq, Eq)]
pub struct Update {
    pub rename_to: Option<String>,
    pub config: AppConfig,
}

/// Decides an update of the app whose stored configuration is `current`.
/// The directory is renamed only if `name` differs from the stored name.
pub fn update_app_config(current: AppConfig, name: String, url: String, engine: Engine) -> (r:
    Update)
    ensures
        r.config@ == updated(current@, name@, url@, engine@),
        text_of(r.rename_to) == rename_target(current@, name@),
{
    if current.name != name {
        let folder = generate_app_folder(name.as_str(), current.id.as_str());
        Update {
            rename_to: Some(folder.clone()),
            config: AppConfig {
                id: current.id,
                name,
                url,
                description: current.description,
                created_at: current.created_at,
                engine,
                folder,
            },
        }
    } else {
        Update {
            rename_to: None,
            config: AppConfig {
                id: current.id,
                name,
                url,
                description: current.description,
                created_at: current.created_at,
                engine,
                folder: current.folder,
            },
        }
    }
}

/// The view of what an update decided.
pub open spec fn update_view(r: Result<(String, Update), Error>) -> Result<
    (Seq<char>, AppConfigView, Option<Seq<char>>),
    ErrorView,
> {
    match r {
        Ok((dir, update)) => Ok((dir@, update.config@, text_of(update.rename_to))),
        Err(e) => Err(e@),
    }
}

/// Decides an update of the app `id` from a listing of the apps directory
/// under `base`: where the app's directory is, and what `update_app_config`
/// makes of the configuration found there. Where the lookup fails, so does
/// the update, and nothing is to be renamed or written.
pub fn plan_update(
    base: &str,
    listing: &Vec<Scanned>,
    id: &str,
    name: String,
    url: String,
    engine: Engine,
) -> (r: Result<(String, Update), Error>)
    ensures
        update_view(r) == update_of(base@, listing_view(listing@), id@, name@, url@, engine@),
{
    match find_app(listing, id) {
        Ok(i) => {
            assert(listing_view(listing@)[i as int] == listing@[i as int]@);
            match &listing[i] {
                Scanned::App { folder, config } => {
                    let dir = join(base, folder.as_str());
                    let update = update_app_config(config.clone(), name, url, engine);
                    Ok((dir, update))
                },
                _ => {
                    assert(false);
                    Err(Error::AppNotFound)
                },
            }
        },
        Err(e) => Err(e),
    }
}

/// The cache of configurations by id.
pub struct AppRegistry {
    apps: Vec<AppConfig>,
}

impl View for AppRegistry {
    type V = Map<Seq<char>, AppConfigView>;

    closed spec fn view(&self) -> Map<Seq<char>, AppConfigView> {
        by_id(configs_view(self.apps@))
    }
}

impl AppRegistry {
    /// The registry holds each id once.
    pub closed spec fn wf(&self) -> bool {
        distinct_ids(configs_view(self.apps@))
    }

    /// The empty registry.
    pub fn new() -> (r: Self)
        ensures
            r.wf(),
            r@ == Map::<Seq<char>, AppConfigView>::empty(),
    {
        let apps: Vec<AppConfig> = Vec::new();
        assert(configs_view(apps@) =~= Seq::<AppConfigView>::empty());
        AppRegistry { apps }
    }

    /// Forgets every app.
    pub fn clear(&mut self)
        ensures
            final(self).wf(),
            final(self)@ == Map::<Seq<char>, AppConfigView>::empty(),
    {
        let apps: Vec<AppConfig> = Vec::new();
        assert(configs_view(apps@) =~= Seq::<AppConfigView>::empty());
        self.apps = apps;
    }

    /// Puts `app` under its id, in place of what was there.
    pub fn insert(&mut self, app: AppConfig)
        requires
            old(self).wf(),
        ensures
            final(self).wf(),
            final(self)@ == old(self)@.insert(app@.id, app@),
    {
        let ghost before = configs_view(self.apps@);
        let mut i: usize = 0;
        while i < self.apps.len()
            invariant
                i <= self.apps.len(),
                before == configs_view(self.apps@),
                distinct_ids(before),
                old(self)@ == by_id(before),
                forall|j: int| 0 <= j < i ==> (#[trigger] before[j]).id != app@.id,
            decreases self.apps.len() - i,
        {
            assert(before[i as int] == self.apps@[i as int]@);
            if self.apps[i].id == app.id {
                proof {
                    lemma_by_id_update(before, i as int, app@);
                }
                let ghost a = app@;
                self.apps.set(i, app);
                assert(configs_view(self.apps@) =~= before.update(i as int, a));
                return ;
            }
            i += 1;
        }
        let ghost a = app@;
        self.apps.push(app);
        proof {
            let after = configs_view(self.apps@);
            assert(after =~= before.push(a));
            assert(after.drop_last() =~= before);
            assert forall|x: int, y: int| 0 <= x < y < after.len() implies (#[trigger] after[x]).id
                != (#[trigger] after[y]).id by {
                if y < before.len() {
                    assert(before[x].id != before[y].id);
                } else {
                    assert(before[x].id != a.id);
                }
            }
        }
    }

    /// The configuration under `id`, if there is one.
    pub fn get(&self, id: &str) -> (r: Option<&AppConfig>)
        requires
            self.wf(),
        ensures
            match r {
                Some(c) => self@.contains_key(id@) && self@[id@] == c@,
                None => !self@.contains_key(id@),
            },
    {
        let ghost s = configs_view(self.apps@);
        proof {
            lemma_by_id_keys(s, id@);
        }
        let mut i: usize = 0;
        while i < self.apps.len()
            invariant
                i <= self.apps.len(),
                s == configs_view(self.apps@),
                distinct_ids(s),
                self@ == by_id(s),
                forall|j: int| 0 <= j < i ==> (#[trigger] s[j]).id != id@,
            decreases self.apps.len() - i,
        {
            assert(s[i as int] == self.apps@[i as int]@);
            if same_text(self.apps[i].id.as_str(), id) {
                proof {
                    lemma_by_id_lists(s);
                }
                return Some(&self.apps[i]);
            }
            i += 1;
        }
        None
    }

    /// How many apps the registry holds.
    pub fn len(&self) -> (r: usize)
        requires
            self.wf(),
        ensures
            self@.dom().finite(),
            r == self@.len(),
    {
        proof {
            lemma_by_id_len(configs_view(self.apps@));
        }
        self.apps.len()
    }

    /// Every configuration the registry holds, each once.
    pub fn values(&self) -> (r: Vec<AppConfig>)
        requires
            self.wf(),
        ensures
            lists(configs_view(r@), self@),
    {
        let ghost s = configs_view(self.apps@);
        let mut out: Vec<AppConfig> = Vec::new();
        let mut i: usize = 0;
        while i < self.apps.len()
            invariant
                i <= self.apps.len(),
                s == configs_view(self.apps@),
                configs_view(out@) =~= s.take(i as int),
            decreases self.apps.len() - i,
        {
            assert(s[i as int] == self.apps@[i as int]@);
            let ghost before = configs_view(out@);
            let copy = self.apps[i].clone();
            let ghost c = copy@;
            out.push(copy);
            assert(configs_view(out@) =~= before.push(c));
            assert(s.take(i + 1) =~= s.take(i as int).push(s[i as int]));
            i += 1;
        }
        proof {
            assert(s.take(i as int) =~= s);
            lemma_by_id_lists(s);
        }
        out
    }

    /// Rebuilds the registry from a listing of the apps directory. What it
    /// held before is dropped. Apps are taken in the order of the listing,
    /// a later one replacing an earlier one with the same id, up to the
    /// first entry that failed to read: with such an entry the load fails
    /// with its error and the registry holds the apps before it; without
    /// one, the load returns every app the registry now holds.
    pub fn load_apps(&mut self, listing: &Vec<Scanned>) -> (r: Result<Vec<AppConfig>, Error>)
        ensures
            final(self).wf(),
            final(self)@ == loaded(listing_view(listing@)),
            match r {
                Ok(apps) => load_error(listing_view(listing@)) is None && lists(
                    configs_view(apps@),
                    final(self)@,
                ),
                Err(e) => load_error(listing_view(listing@)) == Some(e@),
            },
    {
        self.clear();
        let ghost l = listing_view(listing@);
        let mut i: usize = 0;
        assert(l.take(0) =~= Seq::<ScannedView>::empty());
        while i < listing.len()
            invariant
                i <= listing.len(),
                l == listing_view(listing@),
                self.wf(),
                self@ == apps_of(l.take(i as int)),
                forall|j: int| 0 <= j < i ==> !(#[trigger] l[j] is Failed),
            decreases listing.len() - i,
        {
            assert(l[i as int] == listing@[i as int]@);
            proof {
                assert(l.take(i + 1).drop_last() =~= l.take(i as int));
                assert(l.take(i + 1).last() == l[i as int]);
            }
            match &listing[i] {
                Scanned::Failed { error } => {
                    proof {
                        assert(first_failure(l, i as int));
                        let k = choose|k: int| first_failure(l, k);
                        assert(k == i);
                    }
                    return Err(error.clone());
                },
                Scanned::NoConfig { .. } => {},
                Scanned::App { config, .. } => {
                    self.insert(config.clone());
                },
            }
            i += 1;
        }
        proof {
            assert(l.take(i as int) =~= l);
            assert(forall|k: int| !first_failure(l, k));
        }
        Ok(self.values())
    }
}

} // verus!

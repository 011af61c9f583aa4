//! The App Store Connect pane of the services page: loading the account's apps and the
//! builds of the selected app, what the resource menu shows, and the requests it sends.

use vstd::prelude::*;
use crate::text::{owned, copy_string, copy_opt_string, opt_view, concat, str_eq, strings_view};
use crate::search::{first_match, lemma_first_match_found, lemma_first_match_absent};
use crate::service_hub::{ServiceProviderDescriptor, ServiceOperationRequest, ServiceResourceRef};
use crate::services_page::{ServicesPageState, normalize_app_store_connect_state, normalized_section, reselected_app};
use crate::sorting::{sort_by_text_pair, pair_keys_of, pair_le, with_pair_key, lemma_filter_map, lemma_filter_congruent};
use crate::string_map::StringMap;

verus! {

/// An app of the App Store Connect account.
#[derive(Clone, Debug, PartialEq, Eq)]
pub struct AscAppSummary {
    pub id: String,
    pub name: String,
    pub bundle_id: String,
    pub sku: String,
    pub primary_locale: Option<String>,
}

/// A build of an app.
#[derive(Clone, Debug, PartialEq, Eq)]
pub struct AscBuildSummary {
    pub id: String,
    pub build_number: String,
    pub processing_state: String,
    pub uploaded_date: String,
    pub expiration_date: Option<String>,
    pub min_os_version: Option<String>,
}

/// Where the account's authentication stands.
#[derive(Clone, Debug, PartialEq, Eq)]
pub struct AscAuthSummary {
    pub authenticated: bool,
    pub healthy: bool,
    pub headline: String,
    pub detail: String,
    pub warnings: Vec<String>,
}

/// Something the pane loads: under way, loaded, or failed with a message.
#[derive(Clone, Debug, PartialEq, Eq)]
pub enum LoadState<T> {
    Loading,
    Ready(T),
    Error(String),
}

/// How the authentication banner is shown.
#[derive(Clone, Copy, Debug, PartialEq, Eq, Structural)]
pub enum AuthSeverity {
    Success,
    Warning,
}

/// What the authentication banner shows: severity, headline, detail, warnings, and whether
/// the account is signed in.
#[derive(Clone, Debug, PartialEq, Eq)]
pub struct AuthBanner {
    pub severity: AuthSeverity,
    pub headline: String,
    pub detail: String,
    pub warnings: Vec<String>,
    pub authenticated: bool,
}

/// One entry of the resource menu.
#[derive(Clone, Debug, PartialEq, Eq)]
pub struct ServiceResourceMenuEntry {
    pub id: String,
    pub label: String,
    pub detail: Option<String>,
}

/// The resource menu of the services page.
#[derive(Clone, Debug, PartialEq, Eq)]
pub struct ServiceResourceMenuModel {
    pub singular_label: String,
    pub current_label: String,
    pub entries: Vec<ServiceResourceMenuEntry>,
    pub disabled: bool,
}

/// What an app summary holds: identifier, name, bundle identifier, SKU and locale.
pub type AppView = (Seq<char>, Seq<char>, Seq<char>, Seq<char>, Option<Seq<char>>);

pub open spec fn app_view(a: AscAppSummary) -> AppView {
    (a.id@, a.name@, a.bundle_id@, a.sku@, opt_view(a.primary_locale))
}

/// The position of the first app with the given identifier.
pub open spec fn app_position(apps: Seq<AscAppSummary>, id: Seq<char>) -> Option<int> {
    first_match(apps, |a: AscAppSummary| a.id@ == id)
}

/// The identifiers of the apps, in order.
pub open spec fn app_ids(apps: Seq<AscAppSummary>) -> Seq<Seq<char>> {
    apps.map_values(|a: AscAppSummary| a.id@)
}

/// No builds are listed, and none are loading.
pub open spec fn builds_cleared(b: LoadState<Vec<AscBuildSummary>>) -> bool {
    b matches LoadState::Ready(v) && v@.len() == 0
}

/// The state of the App Store Connect pane.
pub struct AscWorkspace {
    pub auth_state: LoadState<AscAuthSummary>,
    pub apps_state: LoadState<Vec<AscAppSummary>>,
    pub builds_state: LoadState<Vec<AscBuildSummary>>,
}

fn copy_app(a: &AscAppSummary) -> (r: AscAppSummary)
    ensures
        app_view(r) == app_view(*a),
{
    AscAppSummary {
        id: copy_string(&a.id),
        name: copy_string(&a.name),
        bundle_id: copy_string(&a.bundle_id),
        sku: copy_string(&a.sku),
        primary_locale: copy_opt_string(&a.primary_locale),
    }
}

fn find_app(apps: &[AscAppSummary], id: &str) -> (r: Option<usize>)
    ensures
        match r {
            Some(i) => i < apps.len() && app_position(apps@, id@) == Some(i as int),
            None => app_position(apps@, id@) is None,
        },
{
    let ghost p = |a: AscAppSummary| a.id@ == id@;
    let mut i: usize = 0;
    while i < apps.len()
        invariant
            i <= apps.len(),
            p == (|a: AscAppSummary| a.id@ == id@),
            forall|j: int| 0 <= j < i ==> !p(apps@[j]),
        decreases apps.len() - i,
    {
        if str_eq(apps[i].id.as_str(), id) {
            proof { lemma_first_match_found(apps@, p, i as int); }
            return Some(i);
        }
        i = i + 1;
    }
    proof { lemma_first_match_absent(apps@, p); }
    None
}

impl AscWorkspace {
    /// The loaded apps; none while loading or after a failure.
    pub open spec fn spec_apps(self) -> Seq<AscAppSummary> {
        match self.apps_state {
            LoadState::Ready(apps) => apps@,
            _ => seq![],
        }
    }

    /// A pane that is checking authentication and loading apps, with no builds.
    pub fn new() -> (w: Self)
        ensures
            w.auth_state is Loading,
            w.apps_state is Loading,
            builds_cleared(w.builds_state),
    {
        AscWorkspace {
            auth_state: LoadState::Loading,
            apps_state: LoadState::Loading,
            builds_state: LoadState::Ready(Vec::new()),
        }
    }

    /// Starts checking authentication and loading apps again; builds are cleared.
    pub fn begin_refresh(&mut self)
        ensures
            final(self).auth_state is Loading,
            final(self).apps_state is Loading,
            builds_cleared(final(self).builds_state),
    {
        self.auth_state = LoadState::Loading;
        self.apps_state = LoadState::Loading;
        self.builds_state = LoadState::Ready(Vec::new());
    }

    /// Takes the results of a refresh. With the apps loaded, the selected app stays selected
    /// while listed, else the first app is selected, and the builds of the selected app are to
    /// be loaded (the result names it). A failed app listing clears the selection.
    pub fn finish_refresh(
        &mut self,
        state: &mut ServicesPageState,
        auth: Result<AscAuthSummary, String>,
        apps: Result<Vec<AscAppSummary>, String>,
    ) -> (load_builds_for: Option<String>)
        ensures
            final(self).auth_state == (match auth {
                Ok(s) => LoadState::Ready(s),
                Err(e) => LoadState::Error(e),
            }),
            final(state).provider_id == old(state).provider_id,
            final(state).navigation_id == old(state).navigation_id,
            match apps {
                Ok(a) => {
                    &&& final(self).apps_state == LoadState::Ready(a)
                    &&& opt_view(final(state).selected_resource_id)
                        == reselected_app(app_ids(a@), opt_view(old(state).selected_resource_id))
                    &&& opt_view(load_builds_for) == opt_view(final(state).selected_resource_id)
                    &&& (load_builds_for is Some ==> final(self).builds_state is Loading)
                    &&& (load_builds_for is None ==> builds_cleared(final(self).builds_state))
                },
                Err(e) => {
                    &&& final(self).apps_state == LoadState::<Vec<AscAppSummary>>::Error(e)
                    &&& final(state).selected_resource_id is None
                    &&& load_builds_for is None
                    &&& builds_cleared(final(self).builds_state)
                },
            },
    {
        self.auth_state = match auth {
            Ok(s) => LoadState::Ready(s),
            Err(e) => LoadState::Error(e),
        };
        match apps {
            Ok(apps) => {
                let mut ids: Vec<String> = Vec::new();
                let mut i: usize = 0;
                while i < apps.len()
                    invariant
                        i <= apps.len(),
                        strings_view(ids@) == app_ids(apps@).take(i as int),
                    decreases apps.len() - i,
                {
                    let ghost before = ids@;
                    let id = copy_string(&apps[i].id);
                    ids.push(id);
                    proof {
                        assert(strings_view(ids@) =~= strings_view(before).push(apps@[i as int].id@));
                        assert(app_ids(apps@).take(i + 1) =~= app_ids(apps@).take(i as int).push(apps@[i as int].id@));
                    }
                    i = i + 1;
                }
                let next = crate::services_page::reselect_app(&ids, &state.selected_resource_id);
                proof {
                    assert(strings_view(ids@) =~= app_ids(apps@));
                }
                let load = copy_opt_string(&next);
                state.selected_resource_id = next;
                self.builds_state = if load.is_some() { LoadState::Loading } else { LoadState::Ready(Vec::new()) };
                self.apps_state = LoadState::Ready(apps);
                load
            },
            Err(e) => {
                self.apps_state = LoadState::Error(e);
                state.selected_resource_id = None;
                self.builds_state = LoadState::Ready(Vec::new());
                None
            },
        }
    }

    /// The loaded apps.
    pub fn apps(&self) -> (r: &[AscAppSummary])
        ensures
            r@ == self.spec_apps(),
    {
        match &self.apps_state {
            LoadState::Ready(apps) => apps.as_slice(),
            _ => {
                let empty: &[AscAppSummary] = &[];
                assert(empty@ =~= Seq::<AscAppSummary>::empty());
                empty
            },
        }
    }

    /// The app the page has selected, when it is loaded.
    pub fn selected_app(&self, state: &ServicesPageState) -> (r: Option<AscAppSummary>)
        ensures
            match opt_view(state.selected_resource_id) {
                Some(id) => match app_position(self.spec_apps(), id) {
                    Some(i) => r matches Some(a) && app_view(a) == app_view(self.spec_apps()[i]),
                    None => r is None,
                },
                None => r is None,
            },
    {
        match &state.selected_resource_id {
            Some(id) => {
                let apps = self.apps();
                match find_app(apps, id.as_str()) {
                    Some(i) => Some(copy_app(&apps[i])),
                    None => None,
                }
            },
            None => None,
        }
    }

    /// The newest loaded build, shown first.
    pub fn selected_build(&self) -> (r: Option<&AscBuildSummary>)
        ensures
            match self.builds_state {
                LoadState::Ready(b) => if b.len() > 0 { r == Some(&b@[0]) } else { r is None },
                _ => r is None,
            },
    {
        match &self.builds_state {
            LoadState::Ready(builds) => if builds.len() > 0 { Some(&builds[0]) } else { None },
            _ => None,
        }
    }

    /// Starts loading the builds of an app: when the app is loaded it becomes the selected
    /// resource and is returned, to load its builds; otherwise the builds are cleared.
    pub fn begin_builds_load(&mut self, state: &mut ServicesPageState, app_id: &str) -> (r: Option<AscAppSummary>)
        ensures
            final(self).auth_state == old(self).auth_state,
            final(self).apps_state == old(self).apps_state,
            final(state).provider_id == old(state).provider_id,
            final(state).navigation_id == old(state).navigation_id,
            match app_position(old(self).spec_apps(), app_id@) {
                Some(i) => {
                    &&& r matches Some(a) && app_view(a) == app_view(old(self).spec_apps()[i])
                    &&& opt_view(final(state).selected_resource_id) == Some(app_id@)
                    &&& final(self).builds_state is Loading
                },
                None => {
                    &&& r is None
                    &&& final(state).selected_resource_id == old(state).selected_resource_id
                    &&& builds_cleared(final(self).builds_state)
                },
            },
    {
        let found = {
            let apps = self.apps();
            match find_app(apps, app_id) {
                Some(i) => Some(copy_app(&apps[i])),
                None => None,
            }
        };
        match found {
            Some(app) => {
                proof {
                    let i = app_position(old(self).spec_apps(), app_id@)->0;
                    crate::search::lemma_first_match_some(old(self).spec_apps(), |a: AscAppSummary| a.id@ == app_id@);
                    assert(app.id@ == app_id@);
                }
                state.selected_resource_id = Some(copy_string(&app.id));
                self.builds_state = LoadState::Loading;
                Some(app)
            },
            None => {
                self.builds_state = LoadState::Ready(Vec::new());
                None
            },
        }
    }

    /// Takes the result of loading builds.
    pub fn finish_builds_load(&mut self, result: Result<Vec<AscBuildSummary>, String>)
        ensures
            final(self).auth_state == old(self).auth_state,
            final(self).apps_state == old(self).apps_state,
            final(self).builds_state == (match result {
                Ok(b) => LoadState::Ready(b),
                Err(e) => LoadState::Error(e),
            }),
    {
        self.builds_state = match result {
            Ok(b) => LoadState::Ready(b),
            Err(e) => LoadState::Error(e),
        };
    }

    /// Selects an app from the resource menu; choosing the selected one again does nothing.
    pub fn select_resource(&mut self, state: &mut ServicesPageState, resource_id: &str) -> (r: Option<AscAppSummary>)
        ensures
            opt_view(old(state).selected_resource_id) == Some(resource_id@) ==> r is None
                && final(self).builds_state == old(self).builds_state
                && final(state).selected_resource_id == old(state).selected_resource_id,
            final(self).auth_state == old(self).auth_state,
            final(self).apps_state == old(self).apps_state,
            opt_view(old(state).selected_resource_id) != Some(resource_id@) ==>
                match app_position(old(self).spec_apps(), resource_id@) {
                    Some(i) => {
                        &&& r matches Some(a) && app_view(a) == app_view(old(self).spec_apps()[i])
                        &&& opt_view(final(state).selected_resource_id) == Some(resource_id@)
                        &&& final(self).builds_state is Loading
                    },
                    None => {
                        &&& r is None
                        &&& final(state).selected_resource_id == old(state).selected_resource_id
                        &&& builds_cleared(final(self).builds_state)
                    },
                },
    {
        let same = match &state.selected_resource_id {
            Some(id) => str_eq(id.as_str(), resource_id),
            None => false,
        };
        if same {
            return None;
        }
        self.begin_builds_load(state, resource_id)
    }

    /// The state the pane settles on: a section the provider has, and, once the apps are
    /// loaded, a listed app or the first one.
    pub fn normalize_state(&self, descriptor: &ServiceProviderDescriptor, state: &mut ServicesPageState)
        ensures
            final(state).navigation_id@ == normalized_section(*descriptor, old(state).navigation_id@),
            final(state).provider_id == old(state).provider_id,
            opt_view(final(state).selected_resource_id) == match self.apps_state {
                LoadState::Ready(a) => reselected_app(app_ids(a@), opt_view(old(state).selected_resource_id)),
                _ => opt_view(old(state).selected_resource_id),
            },
    {
        match &self.apps_state {
            LoadState::Ready(apps) => {
                let mut ids: Vec<String> = Vec::new();
                let mut i: usize = 0;
                while i < apps.len()
                    invariant
                        i <= apps.len(),
                        strings_view(ids@) == app_ids(apps@).take(i as int),
                    decreases apps.len() - i,
                {
                    let ghost before = ids@;
                    let id = copy_string(&apps[i].id);
                    ids.push(id);
                    proof {
                        assert(strings_view(ids@) =~= strings_view(before).push(apps@[i as int].id@));
                        assert(app_ids(apps@).take(i + 1) =~= app_ids(apps@).take(i as int).push(apps@[i as int].id@));
                    }
                    i = i + 1;
                }
                assert(strings_view(ids@) =~= app_ids(apps@));
                normalize_app_store_connect_state(descriptor, Some(&ids), state);
            },
            _ => normalize_app_store_connect_state(descriptor, None, state),
        }
    }

    /// What the authentication banner shows for the current check.
    pub fn auth_banner(&self) -> (b: AuthBanner)
        ensures
            match self.auth_state {
                LoadState::Loading => {
                    &&& b.severity == AuthSeverity::Success
                    &&& b.headline@ == "Checking authentication\u{2026}"@
                    &&& b.detail@ == "Validating the current App Store Connect profile."@
                    &&& b.warnings@.len() == 0
                    &&& !b.authenticated
                },
                LoadState::Error(e) => {
                    &&& b.severity == AuthSeverity::Warning
                    &&& b.headline@ == "Authentication check failed"@
                    &&& b.detail@ == e@
                    &&& b.warnings@.len() == 0
                    &&& !b.authenticated
                },
                LoadState::Ready(s) => {
                    &&& b.severity == (if s.healthy { AuthSeverity::Success } else { AuthSeverity::Warning })
                    &&& b.headline@ == s.headline@
                    &&& b.detail@ == s.detail@
                    &&& b.warnings@ == s.warnings@
                    &&& b.authenticated == s.authenticated
                },
            },
    {
        match &self.auth_state {
            LoadState::Loading => AuthBanner {
                severity: AuthSeverity::Success,
                headline: owned("Checking authentication\u{2026}"),
                detail: owned("Validating the current App Store Connect profile."),
                warnings: Vec::new(),
                authenticated: false,
            },
            LoadState::Error(e) => AuthBanner {
                severity: AuthSeverity::Warning,
                headline: owned("Authentication check failed"),
                detail: copy_string(e),
                warnings: Vec::new(),
                authenticated: false,
            },
            LoadState::Ready(s) => {
                let warnings = s.warnings.clone();
                assert(warnings@ =~= s.warnings@);
                AuthBanner {
                    severity: if s.healthy { AuthSeverity::Success } else { AuthSeverity::Warning },
                    headline: copy_string(&s.headline),
                    detail: copy_string(&s.detail),
                    warnings,
                    authenticated: s.authenticated,
                }
            },
        }
    }

    /// The resource menu: the apps, labelled by name with their bundle identifier, and the
    /// label of the current choice; none when the provider has no resources.
    pub fn resource_menu(&self, descriptor: &ServiceProviderDescriptor, state: &ServicesPageState)
        -> (r: Option<ServiceResourceMenuModel>)
        ensures
            match descriptor.shell.resource_kind {
                None => r is None,
                Some(rk) => match r {
                    Some(m) => {
                        &&& m.singular_label@ == rk.singular_label@
                        &&& m.current_label@ == spec_current_label(self.apps_state, rk.singular_label@,
                            rk.plural_label@, opt_view(state.selected_resource_id))
                        &&& m.entries@.map_values(|e: ServiceResourceMenuEntry| entry_view(e))
                            == self.spec_apps().map_values(|a: AscAppSummary| (a.id@, a.name@, Some(a.bundle_id@)))
                        &&& m.disabled == (self.apps_state is Loading || self.spec_apps().len() == 0)
                    },
                    None => false,
                },
            },
    {
        let rk = match &descriptor.shell.resource_kind {
            Some(rk) => rk,
            None => return None,
        };
        let current_label = match &self.apps_state {
            LoadState::Loading => {
                let l = concat("Loading ", rk.plural_label.as_str());
                concat(l.as_str(), "\u{2026}")
            },
            LoadState::Error(_) => concat("Select ", rk.singular_label.as_str()),
            LoadState::Ready(apps) => if apps.len() == 0 {
                concat("No ", rk.plural_label.as_str())
            } else {
                let found = match &state.selected_resource_id {
                    Some(id) => find_app(apps.as_slice(), id.as_str()),
                    None => None,
                };
                match found {
                    Some(i) => copy_string(&apps[i].name),
                    None => concat("Select ", rk.singular_label.as_str()),
                }
            },
        };
        let apps = self.apps();
        let mut entries: Vec<ServiceResourceMenuEntry> = Vec::new();
        let mut i: usize = 0;
        while i < apps.len()
            invariant
                i <= apps.len(),
                entries.len() == i,
                entries@.map_values(|e: ServiceResourceMenuEntry| entry_view(e))
                    == apps@.take(i as int).map_values(|a: AscAppSummary| (a.id@, a.name@, Some(a.bundle_id@))),
            decreases apps.len() - i,
        {
            let ghost before = entries@;
            let app = &apps[i];
            entries.push(ServiceResourceMenuEntry {
                id: copy_string(&app.id),
                label: copy_string(&app.name),
                detail: Some(copy_string(&app.bundle_id)),
            });
            proof {
                let e = entries@[i as int];
                assert(entries@ =~= before.push(e));
                assert(entry_view(e) == (apps@[i as int].id@, apps@[i as int].name@, Some(apps@[i as int].bundle_id@)));
                assert(entries@.map_values(|e: ServiceResourceMenuEntry| entry_view(e))
                    =~= before.map_values(|e: ServiceResourceMenuEntry| entry_view(e)).push(entry_view(e)));
                assert(apps@.take(i + 1) =~= apps@.take(i as int).push(apps@[i as int]));
                assert(entries@.map_values(|e: ServiceResourceMenuEntry| entry_view(e))
                    =~= apps@.take(i + 1).map_values(|a: AscAppSummary| (a.id@, a.name@, Some(a.bundle_id@))));
            }
            i = i + 1;
        }
        assert(apps@.take(apps@.len() as int) =~= apps@);
        let disabled = match &self.apps_state {
            LoadState::Loading => true,
            _ => apps.len() == 0,
        };
        Some(ServiceResourceMenuModel {
            singular_label: copy_string(&rk.singular_label),
            current_label,
            entries,
            disabled,
        })
    }
}

/// What a resource menu entry holds: identifier, label and detail.
pub open spec fn entry_view(e: ServiceResourceMenuEntry) -> (Seq<char>, Seq<char>, Option<Seq<char>>) {
    (e.id@, e.label@, opt_view(e.detail))
}

/// The label of the resource menu's current choice: what is loading, that nothing is
/// listed, the selected app's name, or an invitation to select one.
pub open spec fn spec_current_label(
    apps_state: LoadState<Vec<AscAppSummary>>,
    singular: Seq<char>,
    plural: Seq<char>,
    selected: Option<Seq<char>>,
) -> Seq<char> {
    match apps_state {
        LoadState::Loading => "Loading "@ + plural + "\u{2026}"@,
        LoadState::Error(_) => "Select "@ + singular,
        LoadState::Ready(apps) => if apps.len() == 0 {
            "No "@ + plural
        } else {
            match selected {
                Some(id) => match app_position(apps@, id) {
                    Some(i) => apps@[i].name@,
                    None => "Select "@ + singular,
                },
                None => "Select "@ + singular,
            }
        },
    }
}

/// The apps whose name and bundle identifier are `k`, in order.
pub open spec fn apps_with_key(s: Seq<AscAppSummary>, k: (Seq<char>, Seq<char>)) -> Seq<AscAppSummary> {
    s.filter(|a: AscAppSummary| (a.name@, a.bundle_id@) == k)
}

/// The apps sorted by name, then by bundle identifier; apps alike in both keep their order.
pub fn sort_apps(apps: Vec<AscAppSummary>) -> (r: Vec<AscAppSummary>)
    ensures
        r@.to_multiset() == apps@.to_multiset(),
        forall|k: (Seq<char>, Seq<char>)| #[trigger] apps_with_key(r@, k) == apps_with_key(apps@, k),
        forall|i: int, j: int| 0 <= i < j < r.len() ==> pair_le((r@[i].name@, r@[i].bundle_id@), (r@[j].name@, r@[j].bundle_id@)),
{
    let ghost orig = apps@;
    let mut keyed: Vec<(String, String, AscAppSummary)> = Vec::new();
    for a in it: apps.into_iter()
        invariant
            it.seq() == orig,
            keyed@.map_values(|p: (String, String, AscAppSummary)| p.2) == orig.take(it.index() as int),
            forall|k: int| 0 <= k < keyed.len() ==> (#[trigger] keyed@[k]).0@ == keyed@[k].2.name@
                && keyed@[k].1@ == keyed@[k].2.bundle_id@,
    {
        let ghost before = keyed@;
        let name = copy_string(&a.name);
        let bundle = copy_string(&a.bundle_id);
        keyed.push((name, bundle, a));
        proof {
            let k = it.index() as int;
            assert(orig.take(k + 1) =~= orig.take(k).push(orig[k]));
            assert(keyed@.map_values(|p: (String, String, AscAppSummary)| p.2) =~= orig.take(k + 1));
        }
    }
    assert(orig.take(orig.len() as int) =~= orig);
    let sorted = sort_by_text_pair(keyed);
    let ghost all = sorted@;
    proof {
        broadcast use vstd::seq_lib::group_to_multiset_ensures;
        crate::sorting::lemma_map_preserves_multiset(all, keyed@, |p: (String, String, AscAppSummary)| p.2);
        assert forall|k: int| 0 <= k < all.len() implies (#[trigger] all[k]).0@ == all[k].2.name@
            && all[k].1@ == all[k].2.bundle_id@ by {
            let x = all[k];
            assert(all.contains(x));
            assert(all.to_multiset().count(x) > 0);
            assert(keyed@.contains(x));
        }
    }
    let mut r: Vec<AscAppSummary> = Vec::new();
    for p in it: sorted.into_iter()
        invariant
            it.seq() == all,
            r@ == all.take(it.index() as int).map_values(|p: (String, String, AscAppSummary)| p.2),
    {
        r.push(p.2);
        proof {
            let k = it.index() as int;
            assert(all.take(k + 1) =~= all.take(k).push(all[k]));
            assert(r@ =~= all.take(k + 1).map_values(|p: (String, String, AscAppSummary)| p.2));
        }
    }
    proof {
        assert(all.take(all.len() as int) =~= all);
        assert forall|i: int, j: int| 0 <= i < j < r.len() implies pair_le((r@[i].name@, r@[i].bundle_id@), (r@[j].name@, r@[j].bundle_id@)) by {
            assert(pair_keys_of(all)[i] == (all[i].0@, all[i].1@));
            assert(pair_keys_of(all)[j] == (all[j].0@, all[j].1@));
            assert(r@[i] == all[i].2);
            assert(r@[j] == all[j].2);
        }
        let third = |p: (String, String, AscAppSummary)| p.2;
        assert forall|k: (Seq<char>, Seq<char>)| #[trigger] apps_with_key(r@, k) == apps_with_key(orig, k) by {
            let q = |a: AscAppSummary| (a.name@, a.bundle_id@) == k;
            let pk = |e: (String, String, AscAppSummary)| (e.0@, e.1@) == k;
            let qk = |e: (String, String, AscAppSummary)| q(third(e));
            lemma_filter_map(all, third, q);
            lemma_filter_map(keyed@, third, q);
            assert forall|i: int| 0 <= i < all.len() implies pk(#[trigger] all[i]) == qk(all[i]) by {}
            assert forall|i: int| 0 <= i < keyed@.len() implies pk(#[trigger] keyed@[i]) == qk(keyed@[i]) by {}
            lemma_filter_congruent(all, pk, qk);
            lemma_filter_congruent(keyed@, pk, qk);
            assert(with_pair_key(all, k) == with_pair_key(keyed@, k));
            assert(with_pair_key(all, k) == all.filter(pk));
            assert(with_pair_key(keyed@, k) == keyed@.filter(pk));
            assert(r@ == all.map_values(third));
            assert(orig == keyed@.map_values(third));
        }
    }
    r
}

/// The request that lists every app of the account.
pub fn list_apps_request() -> (r: ServiceOperationRequest)
    ensures
        r.provider_id@ == "app-store-connect"@,
        r.operation@ == "list_apps"@,
        r.resource is None,
        r.artifact is None,
        r.input@ == map!["paginate"@ => "true"@],
{
    let mut input = StringMap::new();
    input.insert(owned("paginate"), owned("true"));
    ServiceOperationRequest {
        provider_id: owned("app-store-connect"),
        operation: owned("list_apps"),
        resource: None,
        artifact: None,
        input,
    }
}

/// The request that lists every build of an app, newest upload first.
pub fn list_builds_request(app: &AscAppSummary) -> (r: ServiceOperationRequest)
    ensures
        r.provider_id@ == "app-store-connect"@,
        r.operation@ == "list_builds"@,
        r.resource matches Some(res) && res.provider_id@ == "app-store-connect"@ && res.kind@ == "app"@
            && res.external_id@ == app.id@ && res.label@ == app.name@,
        r.artifact is None,
        r.input@ == map!["paginate"@ => "true"@, "sort"@ => "-uploadedDate"@],
{
    let mut input = StringMap::new();
    input.insert(owned("paginate"), owned("true"));
    input.insert(owned("sort"), owned("-uploadedDate"));
    ServiceOperationRequest {
        provider_id: owned("app-store-connect"),
        operation: owned("list_builds"),
        resource: Some(ServiceResourceRef {
            provider_id: owned("app-store-connect"),
            kind: owned("app"),
            external_id: copy_string(&app.id),
            label: copy_string(&app.name),
        }),
        artifact: None,
        input,
    }
}

} // verus!

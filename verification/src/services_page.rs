//! Which service provider, section and resource the services page shows.

use vstd::prelude::*;
use crate::service_hub::{ServiceProviderDescriptor, asc_provider_id};
use crate::text::{str_eq, opt_view, strings_view};
use crate::search::{first_match, lemma_first_match_found, lemma_first_match_absent};

verus! {

/// The identifier App Store Connect is registered under.
pub const APP_STORE_CONNECT_PROVIDER_ID: &'static str = "app-store-connect";

/// What the services page shows: a provider, one of its sections, and maybe a resource.
#[derive(Clone, Debug, PartialEq, Eq)]
pub struct ServicesPageState {
    pub provider_id: String,
    pub navigation_id: String,
    pub selected_resource_id: Option<String>,
}

/// The kind of pane a provider is shown in.
#[derive(Clone, Copy, Debug, PartialEq, Eq, Structural)]
pub enum ServiceWorkspacePaneKind {
    AppStoreConnect,
    Unavailable,
}

/// App Store Connect has a pane of its own; any other provider is shown as unavailable.
pub fn pane_kind_for_provider(provider_id: &str) -> (k: ServiceWorkspacePaneKind)
    ensures
        k == (if provider_id@ == asc_provider_id() {
            ServiceWorkspacePaneKind::AppStoreConnect
        } else {
            ServiceWorkspacePaneKind::Unavailable
        }),
{
    if str_eq(provider_id, APP_STORE_CONNECT_PROVIDER_ID) {
        ServiceWorkspacePaneKind::AppStoreConnect
    } else {
        ServiceWorkspacePaneKind::Unavailable
    }
}

/// Whether the provider lists a section with the given identifier.
pub open spec fn has_section(d: ServiceProviderDescriptor, id: Seq<char>) -> bool {
    exists|i: int| 0 <= i < d.shell.navigation_items.len() && d.shell.navigation_items@[i].id@ == id
}

fn section_listed(d: &ServiceProviderDescriptor, id: &String) -> (r: bool)
    ensures
        r == has_section(*d, id@),
{
    let items = &d.shell.navigation_items;
    let mut i: usize = 0;
    while i < items.len()
        invariant
            i <= items.len(),
            items == &d.shell.navigation_items,
            forall|j: int| 0 <= j < i ==> items@[j].id@ != id@,
        decreases items.len() - i,
    {
        if items[i].id == *id {
            return true;
        }
        i = i + 1;
    }
    false
}

/// The section to show: the requested one when the provider has it, else its default.
pub open spec fn normalized_section(d: ServiceProviderDescriptor, requested: Seq<char>) -> Seq<char> {
    if has_section(d, requested) { requested } else { d.shell.default_navigation_item_id@ }
}

/// The first provider with the given identifier.
pub open spec fn provider_index(providers: Seq<ServiceProviderDescriptor>, id: Seq<char>) -> Option<int> {
    first_match(providers, |d: ServiceProviderDescriptor| d.id@ == id)
}

/// The provider a requested state settles on: the one it names, else the first registered.
pub open spec fn chosen_provider(providers: Seq<ServiceProviderDescriptor>, initial: Option<ServicesPageState>) -> ServiceProviderDescriptor {
    match initial {
        Some(st) => match provider_index(providers, st.provider_id@) {
            Some(i) => providers[i],
            None => providers[0],
        },
        None => providers[0],
    }
}

fn find_provider(providers: &Vec<ServiceProviderDescriptor>, id: &String) -> (r: Option<usize>)
    ensures
        match r {
            Some(i) => i < providers.len() && provider_index(providers@, id@) == Some(i as int),
            None => provider_index(providers@, id@) is None,
        },
{
    let ghost p = |d: ServiceProviderDescriptor| d.id@ == id@;
    let mut i: usize = 0;
    while i < providers.len()
        invariant
            i <= providers.len(),
            p == (|d: ServiceProviderDescriptor| d.id@ == id@),
            forall|j: int| 0 <= j < i ==> !p(providers@[j]),
        decreases providers.len() - i,
    {
        if providers[i].id == *id {
            proof { lemma_first_match_found(providers@, p, i as int); }
            return Some(i);
        }
        i = i + 1;
    }
    proof { lemma_first_match_absent(providers@, p); }
    None
}

/// The state to show for a requested state: a registered provider, one of its sections,
/// and the requested resource.
pub fn normalize_services_page_state(
    providers: &Vec<ServiceProviderDescriptor>,
    initial_state: Option<ServicesPageState>,
) -> (r: ServicesPageState)
    requires
        providers.len() > 0,
    ensures
        r.provider_id@ == chosen_provider(providers@, initial_state).id@,
        r.navigation_id@ == match initial_state {
            Some(st) => normalized_section(chosen_provider(providers@, initial_state), st.navigation_id@),
            None => chosen_provider(providers@, initial_state).shell.default_navigation_item_id@,
        },
        opt_view(r.selected_resource_id) == match initial_state {
            Some(st) => opt_view(st.selected_resource_id),
            None => None,
        },
{
    let index = match &initial_state {
        Some(state) => match find_provider(providers, &state.provider_id) {
            Some(i) => i,
            None => 0,
        },
        None => 0,
    };
    let provider = &providers[index];
    let navigation_id = match &initial_state {
        Some(state) => if section_listed(provider, &state.navigation_id) {
            state.navigation_id.clone()
        } else {
            provider.shell.default_navigation_item_id.clone()
        },
        None => provider.shell.default_navigation_item_id.clone(),
    };
    ServicesPageState {
        provider_id: provider.id.clone(),
        navigation_id,
        selected_resource_id: match initial_state {
            Some(state) => state.selected_resource_id,
            None => None,
        },
    }
}

/// Keeps the section when the provider has it, else switches to the provider's default.
fn normalize_section(descriptor: &ServiceProviderDescriptor, state: &mut ServicesPageState)
    ensures
        final(state).navigation_id@ == normalized_section(*descriptor, old(state).navigation_id@),
        final(state).provider_id == old(state).provider_id,
        final(state).selected_resource_id == old(state).selected_resource_id,
{
    if !section_listed(descriptor, &state.navigation_id) {
        state.navigation_id = descriptor.shell.default_navigation_item_id.clone();
    }
}

/// The state a provider without a pane of its own settles on: a section it has, no resource.
pub fn normalize_unavailable_state(descriptor: &ServiceProviderDescriptor, state: &mut ServicesPageState)
    ensures
        final(state).navigation_id@ == normalized_section(*descriptor, old(state).navigation_id@),
        final(state).provider_id == old(state).provider_id,
        final(state).selected_resource_id is None,
{
    normalize_section(descriptor, state);
    state.selected_resource_id = None;
}

/// Whether an app with the given identifier is listed.
pub open spec fn app_listed(app_ids: Seq<Seq<char>>, id: Seq<char>) -> bool {
    exists|i: int| 0 <= i < app_ids.len() && app_ids[i] == id
}

/// The app selected once the list of apps is known: the selected one if listed, else the first.
pub open spec fn reselected_app(app_ids: Seq<Seq<char>>, selected: Option<Seq<char>>) -> Option<Seq<char>> {
    match selected {
        Some(id) if app_listed(app_ids, id) => Some(id),
        _ => if app_ids.len() > 0 { Some(app_ids[0]) } else { None },
    }
}

fn app_in_list(app_ids: &Vec<String>, id: &String) -> (r: bool)
    ensures
        r == app_listed(strings_view(app_ids@), id@),
{
    let mut i: usize = 0;
    while i < app_ids.len()
        invariant
            i <= app_ids.len(),
            forall|j: int| 0 <= j < i ==> app_ids@[j]@ != id@,
        decreases app_ids.len() - i,
    {
        if app_ids[i] == *id {
            assert(strings_view(app_ids@)[i as int] == id@);
            return true;
        }
        i = i + 1;
    }
    false
}

/// The app to select once the list of apps is known.
pub fn reselect_app(app_ids: &Vec<String>, selected: &Option<String>) -> (r: Option<String>)
    ensures
        opt_view(r) == reselected_app(strings_view(app_ids@), opt_view(*selected)),
{
    match selected {
        Some(id) => if app_in_list(app_ids, id) {
            return Some(id.clone());
        },
        None => {},
    }
    if app_ids.len() > 0 {
        Some(app_ids[0].clone())
    } else {
        None
    }
}

/// The state the App Store Connect pane settles on: a section it has, and, once its apps
/// are loaded (`loaded_app_ids`), a listed app or the first one.
pub fn normalize_app_store_connect_state(
    descriptor: &ServiceProviderDescriptor,
    loaded_app_ids: Option<&Vec<String>>,
    state: &mut ServicesPageState,
)
    ensures
        final(state).navigation_id@ == normalized_section(*descriptor, old(state).navigation_id@),
        final(state).provider_id == old(state).provider_id,
        opt_view(final(state).selected_resource_id) == match loaded_app_ids {
            Some(ids) => reselected_app(strings_view(ids@), opt_view(old(state).selected_resource_id)),
            None => opt_view(old(state).selected_resource_id),
        },
{
    normalize_section(descriptor, state);
    match loaded_app_ids {
        Some(ids) => {
            let next = reselect_app(ids, &state.selected_resource_id);
            state.selected_resource_id = next;
        },
        None => {},
    }
}

} // verus!

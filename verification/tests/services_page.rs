use glass_core::service_hub::{
    ServiceAuthKind, ServiceCapability, ServiceCapabilitySet, ServiceNavigationItemDescriptor,
    ServiceProviderDescriptor, ServiceShellDescriptor,
};
use glass_core::services_page::{
    normalize_app_store_connect_state, normalize_services_page_state, normalize_unavailable_state,
    pane_kind_for_provider, reselect_app, ServiceWorkspacePaneKind, ServicesPageState,
    APP_STORE_CONNECT_PROVIDER_ID,
};

fn test_provider(id: &str, navigation_ids: &[&str]) -> ServiceProviderDescriptor {
    ServiceProviderDescriptor {
        id: id.to_string(),
        label: id.to_string(),
        shell: ServiceShellDescriptor {
            resource_kind: None,
            navigation_items: navigation_ids
                .iter()
                .map(|navigation_id| ServiceNavigationItemDescriptor {
                    id: (*navigation_id).to_string(),
                    label: (*navigation_id).to_string(),
                })
                .collect(),
            default_navigation_item_id: navigation_ids[0].to_string(),
        },
        auth_kind: ServiceAuthKind::NoAuth,
        auth: None,
        capabilities: ServiceCapabilitySet::default(),
    }
}

fn state(provider: &str, navigation: &str, resource: Option<&str>) -> ServicesPageState {
    ServicesPageState {
        provider_id: provider.to_string(),
        navigation_id: navigation.to_string(),
        selected_resource_id: resource.map(str::to_string),
    }
}

#[test]
fn normalizes_invalid_provider_to_first_registered_provider() {
    let providers = vec![
        test_provider(APP_STORE_CONNECT_PROVIDER_ID, &["overview", "builds"]),
        test_provider("vercel", &["overview"]),
    ];

    let state = normalize_services_page_state(
        &providers,
        Some(state("missing", "missing", Some("resource-1"))),
    );

    assert_eq!(state.provider_id, APP_STORE_CONNECT_PROVIDER_ID);
    assert_eq!(state.navigation_id, "overview");
    assert_eq!(state.selected_resource_id.as_deref(), Some("resource-1"));
}

#[test]
fn normalizes_invalid_navigation_to_provider_default() {
    let providers = vec![test_provider(APP_STORE_CONNECT_PROVIDER_ID, &["overview", "builds"])];

    let state = normalize_services_page_state(
        &providers,
        Some(state(APP_STORE_CONNECT_PROVIDER_ID, "releases", None)),
    );

    assert_eq!(state.provider_id, APP_STORE_CONNECT_PROVIDER_ID);
    assert_eq!(state.navigation_id, "overview");
}

#[test]
fn maps_unknown_provider_ids_to_unavailable_workspace_panes() {
    assert_eq!(pane_kind_for_provider("convex"), ServiceWorkspacePaneKind::Unavailable);
    assert_eq!(
        pane_kind_for_provider(APP_STORE_CONNECT_PROVIDER_ID),
        ServiceWorkspacePaneKind::AppStoreConnect
    );
}

#[test]
fn keeps_a_valid_requested_state() {
    let providers = vec![
        test_provider(APP_STORE_CONNECT_PROVIDER_ID, &["overview", "builds"]),
        test_provider("vercel", &["overview", "deployments"]),
    ];
    let state = normalize_services_page_state(
        &providers,
        Some(state("vercel", "deployments", Some("p-1"))),
    );
    assert_eq!(state.provider_id, "vercel");
    assert_eq!(state.navigation_id, "deployments");
    assert_eq!(state.selected_resource_id.as_deref(), Some("p-1"));
}

#[test]
fn no_requested_state_opens_the_first_provider_default() {
    let providers = vec![test_provider("vercel", &["deployments", "overview"])];
    let state = normalize_services_page_state(&providers, None);
    assert_eq!(state.provider_id, "vercel");
    assert_eq!(state.navigation_id, "deployments");
    assert_eq!(state.selected_resource_id, None);
}

#[test]
fn unavailable_panes_drop_the_resource() {
    let provider = test_provider("convex", &["overview", "logs"]);
    let mut s = state("convex", "missing", Some("r"));
    normalize_unavailable_state(&provider, &mut s);
    assert_eq!(s.navigation_id, "overview");
    assert_eq!(s.selected_resource_id, None);
    let mut kept = state("convex", "logs", Some("r"));
    normalize_unavailable_state(&provider, &mut kept);
    assert_eq!(kept.navigation_id, "logs");
}

#[test]
fn app_selection_follows_the_loaded_apps() {
    let apps = vec!["a".to_string(), "b".to_string()];
    assert_eq!(reselect_app(&apps, &Some("b".to_string())), Some("b".to_string()));
    assert_eq!(reselect_app(&apps, &Some("z".to_string())), Some("a".to_string()));
    assert_eq!(reselect_app(&apps, &None), Some("a".to_string()));
    assert_eq!(reselect_app(&Vec::new(), &Some("a".to_string())), None);

    let provider = test_provider(APP_STORE_CONNECT_PROVIDER_ID, &["overview", "builds"]);
    let mut s = state(APP_STORE_CONNECT_PROVIDER_ID, "builds", Some("gone"));
    normalize_app_store_connect_state(&provider, Some(&apps), &mut s);
    assert_eq!(s.navigation_id, "builds");
    assert_eq!(s.selected_resource_id.as_deref(), Some("a"));
    let mut waiting = state(APP_STORE_CONNECT_PROVIDER_ID, "nope", Some("gone"));
    normalize_app_store_connect_state(&provider, None, &mut waiting);
    assert_eq!(waiting.navigation_id, "overview");
    assert_eq!(waiting.selected_resource_id.as_deref(), Some("gone"));
}

#[test]
fn capability_set_holds_each_capability_once() {
    let mut set = ServiceCapabilitySet::new();
    assert!(set.insert(ServiceCapability::UploadArtifact));
    assert!(set.insert(ServiceCapability::Authenticate));
    assert!(!set.insert(ServiceCapability::UploadArtifact));
    assert!(set.supports(ServiceCapability::Authenticate));
    assert!(set.supports(ServiceCapability::UploadArtifact));
    assert!(!set.supports(ServiceCapability::PublishRelease));
    let same = ServiceCapabilitySet::from_capabilities(vec![
        ServiceCapability::Authenticate,
        ServiceCapability::UploadArtifact,
        ServiceCapability::Authenticate,
    ]);
    assert_eq!(set, same);
    assert_eq!(set.clone(), same);
    assert_ne!(set, ServiceCapabilitySet::default());
}

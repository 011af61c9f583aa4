use glass_core::asc_workspace::{
    list_apps_request, list_builds_request, sort_apps, AscAppSummary, AscAuthSummary,
    AscBuildSummary, AscWorkspace, AuthSeverity, LoadState,
};
use glass_core::service_hub::{
    ServiceAuthKind, ServiceCapabilitySet, ServiceNavigationItemDescriptor,
    ServiceProviderDescriptor, ServiceResourceKindDescriptor, ServiceShellDescriptor,
};
use glass_core::services_page::ServicesPageState;

fn app(id: &str, name: &str, bundle: &str) -> AscAppSummary {
    AscAppSummary {
        id: id.to_string(),
        name: name.to_string(),
        bundle_id: bundle.to_string(),
        sku: format!("SKU-{id}"),
        primary_locale: None,
    }
}

fn build(id: &str) -> AscBuildSummary {
    AscBuildSummary {
        id: id.to_string(),
        build_number: "1".to_string(),
        processing_state: "VALID".to_string(),
        uploaded_date: "2025-01-01".to_string(),
        expiration_date: None,
        min_os_version: None,
    }
}

fn state(selected: Option<&str>) -> ServicesPageState {
    ServicesPageState {
        provider_id: "app-store-connect".to_string(),
        navigation_id: "builds".to_string(),
        selected_resource_id: selected.map(str::to_string),
    }
}

fn descriptor() -> ServiceProviderDescriptor {
    ServiceProviderDescriptor {
        id: "app-store-connect".to_string(),
        label: "App Store Connect".to_string(),
        shell: ServiceShellDescriptor {
            resource_kind: Some(ServiceResourceKindDescriptor {
                singular_label: "App".to_string(),
                plural_label: "Apps".to_string(),
            }),
            navigation_items: vec![
                ServiceNavigationItemDescriptor {
                    id: "overview".to_string(),
                    label: "Overview".to_string(),
                },
                ServiceNavigationItemDescriptor {
                    id: "builds".to_string(),
                    label: "Builds".to_string(),
                },
            ],
            default_navigation_item_id: "overview".to_string(),
        },
        auth_kind: ServiceAuthKind::ApiKey,
        auth: None,
        capabilities: ServiceCapabilitySet::default(),
    }
}

fn auth() -> AscAuthSummary {
    AscAuthSummary {
        authenticated: true,
        healthy: false,
        headline: "Signed in".to_string(),
        detail: "Profile default".to_string(),
        warnings: vec!["key expires soon".to_string()],
    }
}

#[test]
fn refresh_keeps_a_listed_selection_and_loads_its_builds() {
    let mut w = AscWorkspace::new();
    let mut s = state(Some("2"));
    w.begin_refresh();
    let load = w.finish_refresh(&mut s, Ok(auth()), Ok(vec![app("1", "A", "a"), app("2", "B", "b")]));
    assert_eq!(load.as_deref(), Some("2"));
    assert_eq!(s.selected_resource_id.as_deref(), Some("2"));
    assert_eq!(w.builds_state, LoadState::Loading);
    let picked = w.begin_builds_load(&mut s, "2").unwrap();
    assert_eq!(picked.name, "B");
    w.finish_builds_load(Ok(vec![build("b1"), build("b2")]));
    assert_eq!(w.selected_build().unwrap().id, "b1");
    assert_eq!(w.selected_app(&s).unwrap().id, "2");
}

#[test]
fn refresh_recovers_from_a_vanished_selection_and_failures() {
    let mut w = AscWorkspace::new();
    let mut s = state(Some("gone"));
    let load = w.finish_refresh(&mut s, Err("offline".to_string()), Ok(vec![app("1", "A", "a")]));
    assert_eq!(load.as_deref(), Some("1"));
    assert_eq!(w.auth_state, LoadState::Error("offline".to_string()));

    let mut empty = state(Some("1"));
    let none = w.finish_refresh(&mut empty, Ok(auth()), Ok(Vec::new()));
    assert_eq!(none, None);
    assert_eq!(empty.selected_resource_id, None);
    assert_eq!(w.builds_state, LoadState::Ready(Vec::new()));

    let mut failed = state(Some("1"));
    assert_eq!(w.finish_refresh(&mut failed, Ok(auth()), Err("boom".to_string())), None);
    assert_eq!(failed.selected_resource_id, None);
    assert!(w.apps().is_empty());
}

#[test]
fn selecting_resources_loads_builds_once() {
    let mut w = AscWorkspace::new();
    let mut s = state(None);
    w.finish_refresh(&mut s, Ok(auth()), Ok(vec![app("1", "A", "a"), app("2", "B", "b")]));
    w.finish_builds_load(Err("timeout".to_string()));
    assert_eq!(w.select_resource(&mut s, "1"), None);
    assert_eq!(w.builds_state, LoadState::Error("timeout".to_string()));
    assert_eq!(w.select_resource(&mut s, "2").unwrap().id, "2");
    assert_eq!(s.selected_resource_id.as_deref(), Some("2"));
    assert_eq!(w.select_resource(&mut s, "9"), None);
    assert_eq!(w.builds_state, LoadState::Ready(Vec::new()));
    assert_eq!(s.selected_resource_id.as_deref(), Some("2"));
}

#[test]
fn resource_menu_labels_follow_loading() {
    let d = descriptor();
    let mut w = AscWorkspace::new();
    let mut s = state(None);
    let loading = w.resource_menu(&d, &s).unwrap();
    assert_eq!(loading.current_label, "Loading Apps\u{2026}");
    assert!(loading.disabled);
    w.finish_refresh(&mut s, Ok(auth()), Ok(Vec::new()));
    assert_eq!(w.resource_menu(&d, &s).unwrap().current_label, "No Apps");
    w.finish_refresh(&mut s, Ok(auth()), Ok(vec![app("1", "Glass", "dev.glass")]));
    let menu = w.resource_menu(&d, &s).unwrap();
    assert_eq!(menu.current_label, "Glass");
    assert_eq!(menu.singular_label, "App");
    assert!(!menu.disabled);
    assert_eq!(menu.entries[0].detail.as_deref(), Some("dev.glass"));
    s.selected_resource_id = Some("other".to_string());
    assert_eq!(w.resource_menu(&d, &s).unwrap().current_label, "Select App");
    w.finish_refresh(&mut s, Ok(auth()), Err("x".to_string()));
    assert_eq!(w.resource_menu(&d, &s).unwrap().current_label, "Select App");
    let mut no_resources = d.clone();
    no_resources.shell.resource_kind = None;
    assert_eq!(w.resource_menu(&no_resources, &s), None);
}

#[test]
fn normalizing_settles_on_a_listed_app_once_loaded() {
    let d = descriptor();
    let mut w = AscWorkspace::new();
    let mut s = state(Some("x"));
    s.navigation_id = "missing".to_string();
    w.normalize_state(&d, &mut s);
    assert_eq!(s.navigation_id, "overview");
    assert_eq!(s.selected_resource_id.as_deref(), Some("x"));
    let mut other = state(Some("x"));
    w.finish_refresh(&mut other, Ok(auth()), Ok(vec![app("1", "A", "a")]));
    w.normalize_state(&d, &mut s);
    assert_eq!(s.selected_resource_id.as_deref(), Some("1"));
}

#[test]
fn auth_banner_reflects_the_check() {
    let mut w = AscWorkspace::new();
    let loading = w.auth_banner();
    assert_eq!(loading.severity, AuthSeverity::Success);
    assert_eq!(loading.headline, "Checking authentication\u{2026}");
    let mut s = state(None);
    w.finish_refresh(&mut s, Ok(auth()), Ok(Vec::new()));
    let ready = w.auth_banner();
    assert_eq!(ready.severity, AuthSeverity::Warning);
    assert_eq!(ready.warnings, vec!["key expires soon".to_string()]);
    assert!(ready.authenticated);
    w.finish_refresh(&mut s, Err("no asc".to_string()), Ok(Vec::new()));
    let failed = w.auth_banner();
    assert_eq!(failed.headline, "Authentication check failed");
    assert_eq!(failed.detail, "no asc");
}

#[test]
fn apps_sort_by_name_then_bundle() {
    let sorted = sort_apps(vec![
        app("3", "Zed", "z"),
        app("2", "Glass", "dev.glass.b"),
        app("1", "Glass", "dev.glass.a"),
    ]);
    let ids: Vec<&str> = sorted.iter().map(|a| a.id.as_str()).collect();
    assert_eq!(ids, vec!["1", "2", "3"]);
}

#[test]
fn listing_requests_are_paginated() {
    let apps = list_apps_request();
    assert_eq!(apps.operation, "list_apps");
    assert_eq!(apps.input.get("paginate").map(String::as_str), Some("true"));
    let builds = list_builds_request(&app("42", "Glass", "dev.glass"));
    assert_eq!(builds.operation, "list_builds");
    let resource = builds.resource.unwrap();
    assert_eq!(resource.external_id, "42");
    assert_eq!(resource.label, "Glass");
    assert_eq!(builds.input.get("sort").map(String::as_str), Some("-uploadedDate"));
}

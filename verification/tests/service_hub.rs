use glass_core::service_hub::{
    AscServiceProvider, ServiceArtifactKind, ServiceArtifactRef, ServiceAuthAction,
    ServiceAuthActionRequest, ServiceAuthKind, ServiceCapability, ServiceError, ServiceHub,
    ServiceOperationRequest, ServiceProvider, ServiceResourceRef,
};
use glass_core::string_map::StringMap;

fn input(pairs: &[(&str, &str)]) -> StringMap {
    StringMap::from_pairs(
        pairs
            .iter()
            .map(|(k, v)| (k.to_string(), v.to_string()))
            .collect(),
    )
}

fn app_resource() -> ServiceResourceRef {
    ServiceResourceRef {
        provider_id: "app-store-connect".to_string(),
        kind: "app".to_string(),
        external_id: "123456789".to_string(),
        label: "Glass".to_string(),
    }
}

#[test]
fn advertises_capabilities_without_binding_to_a_transport() {
    let descriptor = AscServiceProvider.descriptor();

    assert!(descriptor
        .capabilities
        .supports(ServiceCapability::UploadArtifact));
    assert!(descriptor
        .capabilities
        .supports(ServiceCapability::PublishRelease));
    assert_eq!(descriptor.auth_kind, ServiceAuthKind::ApiKey);
}

#[test]
fn builds_real_asc_auth_status_command() {
    let provider = AscServiceProvider;
    let plan = provider
        .build_operation(&ServiceOperationRequest {
            provider_id: "app-store-connect".to_string(),
            operation: "auth_status".to_string(),
            resource: None,
            artifact: None,
            input: StringMap::new(),
        })
        .unwrap();

    assert_eq!(plan.command, "asc");
    assert_eq!(plan.args[0], "auth");
    assert!(plan.args.contains(&"--validate".to_string()));
}

#[test]
fn advertises_reusable_auth_actions_for_app_store_connect() {
    let descriptor = AscServiceProvider.descriptor();
    let auth = descriptor.auth.as_ref().unwrap();

    assert_eq!(auth.kind, ServiceAuthKind::ApiKey);
    assert!(auth
        .actions
        .iter()
        .any(|action| action.action == ServiceAuthAction::Authenticate));
    assert!(auth
        .actions
        .iter()
        .any(|action| action.action == ServiceAuthAction::Logout));
}

#[test]
fn advertises_shell_metadata_for_app_store_connect() {
    let descriptor = AscServiceProvider.descriptor();
    let resource_kind = descriptor.shell.resource_kind.as_ref().unwrap();

    assert_eq!(resource_kind.singular_label, "App");
    assert_eq!(resource_kind.plural_label, "Apps");
    assert_eq!(descriptor.shell.default_navigation_item_id, "overview");
    assert_eq!(descriptor.shell.navigation_items.len(), 2);
    assert!(descriptor
        .shell
        .navigation_items
        .iter()
        .any(|item| item.id == "builds"));
}

#[test]
fn builds_real_asc_authenticate_command() {
    let hub = ServiceHub::default();
    let plan = hub
        .build_auth_action(&ServiceAuthActionRequest {
            provider_id: "app-store-connect".to_string(),
            action: ServiceAuthAction::Authenticate,
            input: input(&[
                ("profile_name", "Personal"),
                ("key_id", "ABC123"),
                ("issuer_id", "ISSUER456"),
                ("private_key_path", "/tmp/AuthKey_ABC123.p8"),
                ("repo_local", "true"),
                ("validate_network", "true"),
            ]),
        })
        .unwrap();

    assert_eq!(plan.command, "asc");
    assert_eq!(plan.args[0], "auth");
    assert_eq!(plan.args[1], "login");
    assert!(plan.args.contains(&"--name".to_string()));
    assert!(plan.args.contains(&"Personal".to_string()));
    assert!(plan.args.contains(&"--local".to_string()));
    assert!(plan.args.contains(&"--bypass-keychain".to_string()));
    assert!(plan.args.contains(&"--network".to_string()));
}

#[test]
fn builds_real_asc_logout_command() {
    let hub = ServiceHub::default();
    let plan = hub
        .build_auth_action(&ServiceAuthActionRequest {
            provider_id: "app-store-connect".to_string(),
            action: ServiceAuthAction::Logout,
            input: StringMap::new(),
        })
        .unwrap();

    assert_eq!(plan.command, "asc");
    assert_eq!(plan.args, vec!["auth", "logout", "--all"]);
}

#[test]
fn builds_real_asc_list_apps_command() {
    let provider = AscServiceProvider;
    let plan = provider
        .build_operation(&ServiceOperationRequest {
            provider_id: "app-store-connect".to_string(),
            operation: "list_apps".to_string(),
            resource: None,
            artifact: None,
            input: input(&[("limit", "25"), ("paginate", "true")]),
        })
        .unwrap();

    assert_eq!(plan.command, "asc");
    assert_eq!(plan.args[0], "apps");
    assert!(plan.args.contains(&"--limit".to_string()));
    assert!(plan.args.contains(&"--paginate".to_string()));
}

#[test]
fn builds_real_asc_upload_command_from_artifact_handoff() {
    let hub = ServiceHub::default();
    let plan = hub
        .build_operation(&ServiceOperationRequest {
            provider_id: "app-store-connect".to_string(),
            operation: "upload_build".to_string(),
            resource: Some(app_resource()),
            artifact: Some(ServiceArtifactRef {
                kind: ServiceArtifactKind::Ipa,
                path: "/tmp/Glass.ipa".to_string(),
            }),
            input: input(&[("version", "1.2.3"), ("build_number", "42"), ("wait", "true")]),
        })
        .unwrap();

    assert_eq!(plan.command, "asc");
    assert_eq!(plan.args[0], "builds");
    assert!(plan.args.contains(&"--ipa".to_string()));
    assert!(plan.args.contains(&"/tmp/Glass.ipa".to_string()));
    assert!(plan.args.contains(&"--wait".to_string()));
}

#[test]
fn rejects_app_bundle_for_asc_upload() {
    let provider = AscServiceProvider;
    let result = provider.build_operation(&ServiceOperationRequest {
        provider_id: "app-store-connect".to_string(),
        operation: "upload_build".to_string(),
        resource: Some(app_resource()),
        artifact: Some(ServiceArtifactRef {
            kind: ServiceArtifactKind::AppBundle,
            path: "/tmp/Glass.app".to_string(),
        }),
        input: StringMap::new(),
    });

    assert!(result.is_err());
}

#[test]
fn builds_real_asc_pre_release_version_command() {
    let provider = AscServiceProvider;
    let plan = provider
        .build_operation(&ServiceOperationRequest {
            provider_id: "app-store-connect".to_string(),
            operation: "build_pre_release_version".to_string(),
            resource: Some(ServiceResourceRef {
                provider_id: "app-store-connect".to_string(),
                kind: "build".to_string(),
                external_id: "BUILD-ID".to_string(),
                label: "42".to_string(),
            }),
            artifact: None,
            input: StringMap::new(),
        })
        .unwrap();

    assert_eq!(plan.args[0], "builds");
    assert_eq!(plan.args[1], "pre-release-version");
    assert!(plan.args.contains(&"--build".to_string()));
    assert!(plan.args.contains(&"BUILD-ID".to_string()));
}

#[test]
fn builds_real_asc_release_command() {
    let provider = AscServiceProvider;
    let plan = provider
        .build_operation(&ServiceOperationRequest {
            provider_id: "app-store-connect".to_string(),
            operation: "release_run".to_string(),
            resource: Some(app_resource()),
            artifact: None,
            input: input(&[
                ("version", "1.2.3"),
                ("build", "BUILD-ID"),
                ("metadata_dir", "./metadata/version/1.2.3"),
                ("dry_run", "true"),
            ]),
        })
        .unwrap();

    assert_eq!(plan.args[0], "release");
    assert_eq!(plan.args[1], "run");
    assert!(plan.args.contains(&"--metadata-dir".to_string()));
    assert!(plan.args.contains(&"--dry-run".to_string()));
}

// Further cases of the command plans.

#[test]
fn release_without_dry_run_confirms() {
    let plan = AscServiceProvider
        .build_operation(&ServiceOperationRequest {
            provider_id: "app-store-connect".to_string(),
            operation: "release_run".to_string(),
            resource: Some(app_resource()),
            artifact: None,
            input: input(&[
                ("version", "1.2.3"),
                ("build", "B"),
                ("metadata_dir", "./m"),
                ("dry_run", "yes"),
            ]),
        })
        .unwrap();
    assert_eq!(
        plan.args,
        vec![
            "release", "run", "--app", "123456789", "--version", "1.2.3", "--build", "B",
            "--metadata-dir", "./m", "--output", "json", "--pretty", "--confirm"
        ]
    );
    assert_eq!(plan.label, "Run ASC release for Glass");
    assert!(plan.cwd.is_none());
    assert_eq!(plan.env.len(), 0);
}

#[test]
fn release_reports_first_missing_input() {
    let result = AscServiceProvider.build_operation(&ServiceOperationRequest {
        provider_id: "app-store-connect".to_string(),
        operation: "release_run".to_string(),
        resource: Some(app_resource()),
        artifact: None,
        input: input(&[("metadata_dir", "./m")]),
    });
    assert_eq!(result.err(), Some(ServiceError::MissingInput("version".to_string())));
}

#[test]
fn pkg_upload_adds_platform() {
    let plan = AscServiceProvider
        .build_operation(&ServiceOperationRequest {
            provider_id: "app-store-connect".to_string(),
            operation: "upload_build".to_string(),
            resource: Some(app_resource()),
            artifact: Some(ServiceArtifactRef {
                kind: ServiceArtifactKind::Pkg,
                path: "/tmp/Glass.pkg".to_string(),
            }),
            input: StringMap::new(),
        })
        .unwrap();
    assert_eq!(
        plan.args,
        vec![
            "builds", "upload", "--app", "123456789", "--pkg", "/tmp/Glass.pkg", "--output",
            "json", "--pretty", "--platform", "MAC_OS"
        ]
    );
    assert_eq!(plan.label, "Upload build to App Store Connect for Glass");
}

#[test]
fn upload_errors() {
    let no_artifact = AscServiceProvider.build_operation(&ServiceOperationRequest {
        provider_id: "app-store-connect".to_string(),
        operation: "upload_build".to_string(),
        resource: Some(app_resource()),
        artifact: None,
        input: StringMap::new(),
    });
    assert_eq!(no_artifact.err(), Some(ServiceError::ArtifactRequired));

    let binary = AscServiceProvider.build_operation(&ServiceOperationRequest {
        provider_id: "app-store-connect".to_string(),
        operation: "upload_build".to_string(),
        resource: Some(app_resource()),
        artifact: Some(ServiceArtifactRef {
            kind: ServiceArtifactKind::Binary,
            path: "/tmp/glass".to_string(),
        }),
        input: StringMap::new(),
    });
    assert_eq!(
        binary.err(),
        Some(ServiceError::UnexpectedArtifactKind {
            expected: "ipa or pkg".to_string(),
            actual: "binary".to_string(),
        })
    );

    let no_resource = AscServiceProvider.build_operation(&ServiceOperationRequest {
        provider_id: "app-store-connect".to_string(),
        operation: "upload_build".to_string(),
        resource: None,
        artifact: None,
        input: StringMap::new(),
    });
    assert_eq!(no_resource.err(), Some(ServiceError::MissingInput("app".to_string())));
}

#[test]
fn list_builds_checks_resource_kind() {
    let mut resource = app_resource();
    resource.kind = "build".to_string();
    let result = AscServiceProvider.build_operation(&ServiceOperationRequest {
        provider_id: "app-store-connect".to_string(),
        operation: "list_builds".to_string(),
        resource: Some(resource),
        artifact: None,
        input: StringMap::new(),
    });
    assert_eq!(
        result.err(),
        Some(ServiceError::UnexpectedResourceKind {
            expected: "app".to_string(),
            actual: "build".to_string(),
        })
    );
}

#[test]
fn list_builds_passes_filters_in_order() {
    let plan = AscServiceProvider
        .build_operation(&ServiceOperationRequest {
            provider_id: "app-store-connect".to_string(),
            operation: "list_builds".to_string(),
            resource: Some(app_resource()),
            artifact: None,
            input: input(&[("sort", "-uploadedDate"), ("version", "2.0"), ("paginate", "false")]),
        })
        .unwrap();
    assert_eq!(
        plan.args,
        vec![
            "builds", "list", "--app", "123456789", "--output", "json", "--pretty", "--version",
            "2.0", "--sort", "-uploadedDate"
        ]
    );
    assert_eq!(plan.label, "List ASC builds for Glass");
}

#[test]
fn unknown_operation_and_provider_are_rejected() {
    let hub = ServiceHub::default();
    let unknown_op = hub.build_operation(&ServiceOperationRequest {
        provider_id: "app-store-connect".to_string(),
        operation: "delete_everything".to_string(),
        resource: None,
        artifact: None,
        input: StringMap::new(),
    });
    assert_eq!(
        unknown_op.err(),
        Some(ServiceError::UnsupportedOperation("delete_everything".to_string()))
    );

    let unknown_provider = hub.build_auth_action(&ServiceAuthActionRequest {
        provider_id: "vercel".to_string(),
        action: ServiceAuthAction::Logout,
        input: StringMap::new(),
    });
    assert_eq!(
        unknown_provider.err(),
        Some(ServiceError::UnknownProvider("vercel".to_string()))
    );
}

#[test]
fn authenticate_requires_each_input() {
    let result = AscServiceProvider.build_auth_action(&ServiceAuthActionRequest {
        provider_id: "app-store-connect".to_string(),
        action: ServiceAuthAction::Authenticate,
        input: input(&[("profile_name", "P"), ("issuer_id", "I")]),
    });
    assert_eq!(result.err(), Some(ServiceError::MissingInput("key_id".to_string())));
}

#[test]
fn hub_lists_one_provider() {
    let hub = ServiceHub::default();
    let providers = hub.providers();
    assert_eq!(providers.len(), 1);
    assert_eq!(providers[0].id, "app-store-connect");
    assert!(!providers[0].capabilities.supports(ServiceCapability::ManageMetadata) == false);
}

#[test]
fn string_map_last_pair_wins() {
    let map = input(&[("a", "1"), ("b", "2"), ("a", "3")]);
    assert_eq!(map.len(), 2);
    assert_eq!(map.get("a").map(|s| s.as_str()), Some("3"));
    assert!(map.get("c").is_none());
    assert!(!map.is_true("a"));
}

use glass_core::app_runtime::{
    capabilities_for, detect_project, next_detection_command, runtime_to_os_version, select_xcode_project,
    simulators_from_listing, targets_from_scheme_files, toolchain_ready, CapabilityState,
    CommandOutput, DetectedProject, DetectionCommand, DetectionFindings, DetectionProgress,
    ExecutionRequest, ProjectKind,
    RuntimeAction, RuntimeCatalog, RuntimeDeviceKind, RuntimeDeviceState, RuntimeError,
    SimulatorRecord, SimulatorRuntimeListing, XcodeCandidate,
};

const ROOT: &str = "/tmp/glass-fixture";
const WORKSPACE: &str = "/tmp/glass-fixture/Demo.xcworkspace";

fn output(success: bool, stdout: &str, stderr: &str) -> CommandOutput {
    CommandOutput {
        success,
        stdout: stdout.to_string(),
        stderr: stderr.to_string(),
    }
}

fn listing(state: &str, name: &str) -> Vec<SimulatorRuntimeListing> {
    vec![SimulatorRuntimeListing {
        runtime: "com.apple.CoreSimulator.SimRuntime.iOS-18-2".to_string(),
        devices: vec![SimulatorRecord {
            udid: "SIM-1".to_string(),
            is_available: true,
            state: state.to_string(),
            name: name.to_string(),
        }],
    }]
}

/// What detection finds in a workspace holding `Demo.xcworkspace` with one shared scheme.
fn fixture_findings(
    version_output: Option<CommandOutput>,
    simulator_output: Option<CommandOutput>,
    simulator_listing: Option<Vec<SimulatorRuntimeListing>>,
) -> DetectionFindings {
    DetectionFindings {
        workspace_root: ROOT.to_string(),
        project_path: WORKSPACE.to_string(),
        scheme_files: vec![format!("{WORKSPACE}/xcshareddata/xcschemes/Demo.xcscheme")],
        version_output,
        simulator_output,
        simulator_listing,
    }
}

fn catalog_of(findings: DetectionFindings) -> RuntimeCatalog {
    RuntimeCatalog {
        projects: detect_project(findings).into_iter().collect(),
    }
}

fn ready_catalog(state: &str, name: &str) -> RuntimeCatalog {
    catalog_of(fixture_findings(
        Some(output(true, "Xcode 16.2", "")),
        Some(output(true, "{}", "")),
        Some(listing(state, name)),
    ))
}

#[test]
fn detects_apple_workspace_and_marks_missing_toolchain_as_setup_required() {
    let catalog = catalog_of(fixture_findings(
        Some(output(false, "", "xcodebuild missing")),
        None,
        None,
    ));
    let project = catalog.projects.first().unwrap();

    assert_eq!(project.label, "Demo");
    assert!(!project.capabilities.build.is_available());
    assert!(!project.capabilities.run.is_available());
    assert_eq!(project.targets.len(), 1);
}

#[test]
fn detects_schemes_and_simulators_before_ui_integration() {
    let catalog = ready_catalog("Booted", "iPhone 16 Pro");
    let project = catalog.projects.first().unwrap();

    assert!(project.capabilities.build.is_available());
    assert!(project.capabilities.run.is_available());
    assert_eq!(project.devices.len(), 1);
    assert_eq!(project.targets[0].label, "Demo");
}

#[test]
fn validates_that_run_requires_a_device() {
    let catalog = ready_catalog("Shutdown", "iPhone 16");
    let project = catalog.projects.first().unwrap();

    let result = catalog.build_execution_plan(&ExecutionRequest {
        project_id: project.id.clone(),
        target_id: project.targets[0].id.clone(),
        device_id: None,
        action: RuntimeAction::Run,
    });

    assert_eq!(result, Err(RuntimeError::DeviceRequired));
}

#[test]
fn builds_an_xcodebuild_plan_for_build_and_run() {
    let catalog = ready_catalog("Shutdown", "iPhone 16");
    let project = catalog.projects.first().unwrap();

    let build_plan = catalog
        .build_execution_plan(&ExecutionRequest {
            project_id: project.id.clone(),
            target_id: project.targets[0].id.clone(),
            device_id: None,
            action: RuntimeAction::Build,
        })
        .unwrap();
    assert_eq!(build_plan.command, "zsh");
    assert!(build_plan.args[1].contains("xcodebuild -workspace"));

    let run_plan = catalog
        .build_execution_plan(&ExecutionRequest {
            project_id: project.id.clone(),
            target_id: project.targets[0].id.clone(),
            device_id: Some(project.devices[0].id.clone()),
            action: RuntimeAction::Run,
        })
        .unwrap();
    assert!(run_plan.args[1].contains("xcrun simctl install"));
    assert!(run_plan.args[1].contains("xcrun simctl launch"));
}

#[test]
fn build_plan_is_exact() {
    let catalog = ready_catalog("Shutdown", "iPhone 16");
    let plan = catalog
        .build_execution_plan(&ExecutionRequest {
            project_id: WORKSPACE.to_string(),
            target_id: "Demo".to_string(),
            device_id: None,
            action: RuntimeAction::Build,
        })
        .unwrap();
    assert_eq!(plan.label, "Build Demo");
    assert_eq!(plan.command_label, "xcodebuild Demo build");
    assert_eq!(plan.cwd, ROOT);
    assert_eq!(
        plan.args,
        vec![
            "-lc".to_string(),
            format!("set -euo pipefail\nxcodebuild -workspace '{WORKSPACE}' -scheme 'Demo' build"),
        ]
    );
}

#[test]
fn run_plan_boots_builds_installs_and_launches() {
    let catalog = ready_catalog("Shutdown", "iPhone 16");
    let plan = catalog
        .build_execution_plan(&ExecutionRequest {
            project_id: WORKSPACE.to_string(),
            target_id: "Demo".to_string(),
            device_id: Some("SIM-1".to_string()),
            action: RuntimeAction::Run,
        })
        .unwrap();
    assert_eq!(plan.label, "Run Demo");
    assert_eq!(plan.cwd, ROOT);
    let script = &plan.args[1];
    assert!(script.contains("xcrun simctl boot 'SIM-1' >/dev/null 2>&1 || true\n"));
    assert!(script.contains("-derivedDataPath '/tmp/glass-fixture/.glass/app_runtime/Demo' build\n"));
    assert!(script.contains("xcrun simctl launch 'SIM-1' \"$bundle_id\""));
}

#[test]
fn unknown_project_target_and_device_are_reported() {
    let catalog = ready_catalog("Shutdown", "iPhone 16");
    let request = |project: &str, target: &str, device: Option<&str>| ExecutionRequest {
        project_id: project.to_string(),
        target_id: target.to_string(),
        device_id: device.map(str::to_string),
        action: RuntimeAction::Run,
    };
    assert_eq!(
        catalog.build_execution_plan(&request("/nowhere", "Demo", None)),
        Err(RuntimeError::ProjectNotFound("/nowhere".to_string()))
    );
    assert_eq!(
        catalog.build_execution_plan(&request(WORKSPACE, "Other", None)),
        Err(RuntimeError::TargetNotFound("Other".to_string()))
    );
    assert_eq!(
        catalog.build_execution_plan(&request(WORKSPACE, "Demo", Some("SIM-9"))),
        Err(RuntimeError::DeviceNotFound("SIM-9".to_string()))
    );
}

#[test]
fn unavailable_actions_report_their_reason() {
    let catalog = catalog_of(fixture_findings(Some(output(true, "Xcode 16.2", "")), None, None));
    let project = catalog.projects.first().unwrap();
    assert!(project.devices.is_empty());
    let err = catalog
        .build_execution_plan(&ExecutionRequest {
            project_id: project.id.clone(),
            target_id: "Demo".to_string(),
            device_id: Some("SIM-1".to_string()),
            action: RuntimeAction::Run,
        })
        .unwrap_err();
    assert_eq!(
        err.message(),
        "Run is unavailable: Boot an iOS simulator in Xcode before running."
    );
    assert_eq!(
        RuntimeError::DeviceRequired.message(),
        "run requires a device selection"
    );
    assert_eq!(
        RuntimeError::ProjectNotFound("x".to_string()).message(),
        "runtime project `x` was not found"
    );
}

#[test]
fn projects_without_shared_schemes_are_not_detected() {
    let mut findings = fixture_findings(Some(output(true, "", "")), None, None);
    findings.scheme_files = vec![format!("{WORKSPACE}/xcshareddata/xcschemes/README.md")];
    assert_eq!(detect_project(findings), None);
}

#[test]
fn failed_simulator_listing_leaves_no_devices() {
    let catalog = catalog_of(fixture_findings(
        Some(output(true, "Xcode 16.2", "")),
        Some(output(false, "", "simctl failed")),
        Some(listing("Booted", "iPhone 16")),
    ));
    let project: &DetectedProject = catalog.projects.first().unwrap();
    assert!(project.devices.is_empty());
    assert!(project.capabilities.build.is_available());
    assert_eq!(
        project.capabilities.run,
        CapabilityState::RequiresSetup {
            reason: "Boot an iOS simulator in Xcode before running.".to_string()
        }
    );
    assert_eq!(project.kind, ProjectKind::AppleWorkspace);
}

#[test]
fn toolchain_is_ready_only_after_a_successful_version_check() {
    assert!(toolchain_ready(&Some(output(true, "Xcode 16.2", ""))));
    assert!(!toolchain_ready(&Some(output(false, "", "missing"))));
    assert!(!toolchain_ready(&None));
}

#[test]
fn capabilities_follow_toolchain_and_devices() {
    let none = capabilities_for(false, true);
    assert!(!none.build.is_available());
    assert!(!none.run.is_available());
    let no_devices = capabilities_for(true, false);
    assert!(no_devices.build.is_available());
    assert!(!no_devices.run.is_available());
    let all = capabilities_for(true, true);
    assert!(all.build.is_available() && all.run.is_available());
}

#[test]
fn simulator_runtimes_name_ios_versions() {
    assert_eq!(
        runtime_to_os_version("com.apple.CoreSimulator.SimRuntime.iOS-18-2"),
        Some("iOS 18.2".to_string())
    );
    assert_eq!(
        runtime_to_os_version("com.apple.CoreSimulator.SimRuntime.watchOS-11-0"),
        None
    );
    assert_eq!(runtime_to_os_version("iOS-18-2"), None);
}

#[test]
fn simulators_are_filtered_and_sorted_by_name() {
    let runtimes = vec![SimulatorRuntimeListing {
        runtime: "com.apple.CoreSimulator.SimRuntime.iOS-17-5".to_string(),
        devices: vec![
            SimulatorRecord {
                udid: "B".to_string(),
                is_available: true,
                state: "Creating".to_string(),
                name: "iPhone 15".to_string(),
            },
            SimulatorRecord {
                udid: "C".to_string(),
                is_available: false,
                state: "Booted".to_string(),
                name: "iPad".to_string(),
            },
            SimulatorRecord {
                udid: "A".to_string(),
                is_available: true,
                state: "Booted".to_string(),
                name: "iPhone 11".to_string(),
            },
        ],
    }];
    let devices = simulators_from_listing(&runtimes);
    assert_eq!(devices.len(), 2);
    assert_eq!(devices[0].name, "iPhone 11");
    assert_eq!(devices[0].state, RuntimeDeviceState::Booted);
    assert_eq!(devices[1].id, "B");
    assert_eq!(devices[1].state, RuntimeDeviceState::Unknown);
    assert_eq!(devices[1].os_version.as_deref(), Some("iOS 17.5"));
    assert_eq!(devices[1].kind, RuntimeDeviceKind::Simulator);
}

#[test]
fn scheme_files_become_sorted_targets() {
    let targets = targets_from_scheme_files(&vec![
        "/p/App.xcodeproj/xcshareddata/xcschemes/Zeta.xcscheme".to_string(),
        "/p/App.xcodeproj/xcshareddata/xcschemes/notes.txt".to_string(),
        "/p/App.xcodeproj/xcshareddata/xcschemes/Alpha.xcscheme".to_string(),
    ]);
    let labels: Vec<&str> = targets.iter().map(|t| t.label.as_str()).collect();
    assert_eq!(labels, vec!["Alpha", "Zeta"]);
    assert_eq!(targets[0].id, "Alpha");
}

fn candidate(path: &str, extension: Option<&str>, parent: Option<&str>, depth: usize) -> XcodeCandidate {
    XcodeCandidate {
        path: path.to_string(),
        extension: extension.map(str::to_string),
        parent_extension: parent.map(str::to_string),
        component_count: depth,
    }
}

#[test]
fn workspaces_are_preferred_over_projects_and_shallow_over_deep() {
    let candidates = vec![
        candidate("/w/App.xcodeproj", Some("xcodeproj"), None, 3),
        candidate("/w/App.xcodeproj/project.xcworkspace", Some("xcworkspace"), Some("xcodeproj"), 4),
        candidate("/w/sub/Deep.xcworkspace", Some("xcworkspace"), None, 4),
        candidate("/w/Top.xcworkspace", Some("xcworkspace"), None, 3),
    ];
    assert_eq!(select_xcode_project(&candidates), Some("/w/Top.xcworkspace".to_string()));

    let projects_only = vec![
        candidate("/w/sub/B.xcodeproj", Some("xcodeproj"), None, 4),
        candidate("/w/A.xcodeproj", Some("xcodeproj"), None, 3),
        candidate("/w/A.xcodeproj/project.xcworkspace", Some("xcworkspace"), Some("xcodeproj"), 4),
    ];
    assert_eq!(select_xcode_project(&projects_only), Some("/w/A.xcodeproj".to_string()));
    assert_eq!(select_xcode_project(&vec![candidate("/w/readme", None, None, 2)]), None);
}

#[test]
fn action_labels_name_the_actions() {
    assert_eq!(RuntimeAction::Build.label(), "Build");
    assert_eq!(RuntimeAction::Run.label(), "Run");
}

#[test]
fn detection_runs_version_check_then_simulator_listing() {
    let start = DetectionProgress { version_run: false, simulators_run: false };
    let after_version = DetectionProgress { version_run: true, simulators_run: false };
    let done = DetectionProgress { version_run: true, simulators_run: true };

    let findings = fixture_findings(None, None, None);
    assert_eq!(next_detection_command(&findings, start), Some(DetectionCommand::XcodebuildVersion));
    assert_eq!(next_detection_command(&findings, after_version), None);

    let ready = fixture_findings(Some(output(true, "Xcode 16.2", "")), None, None);
    assert_eq!(next_detection_command(&ready, after_version), Some(DetectionCommand::SimctlListDevices));
    assert_eq!(next_detection_command(&ready, done), None);

    let failed = fixture_findings(Some(output(false, "", "no Xcode")), None, None);
    assert_eq!(next_detection_command(&failed, after_version), None);

    let mut no_targets = fixture_findings(None, None, None);
    no_targets.scheme_files = vec![format!("{WORKSPACE}/xcshareddata/xcschemes/README.md")];
    assert_eq!(next_detection_command(&no_targets, start), None);
}

#[test]
fn detection_commands_name_their_program_and_arguments() {
    assert_eq!(DetectionCommand::XcodebuildVersion.program(), "xcodebuild");
    assert_eq!(DetectionCommand::XcodebuildVersion.args(), vec!["-version"]);
    assert_eq!(DetectionCommand::SimctlListDevices.program(), "xcrun");
    assert_eq!(DetectionCommand::SimctlListDevices.args(), vec!["simctl", "list", "devices", "--json"]);
}

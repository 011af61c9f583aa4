use glass_core::app_runtime::{
    capabilities_for, DetectedProject, ProjectKind, RuntimeAction, RuntimeCatalog, RuntimeDevice,
    RuntimeDeviceKind, RuntimeDeviceState, RuntimeTarget,
};
use glass_core::runtime_selection::RuntimeSelection;

fn project(id: &str, targets: &[&str], devices: &[&str]) -> DetectedProject {
    DetectedProject {
        id: id.to_string(),
        label: id.to_string(),
        kind: ProjectKind::AppleProject,
        workspace_root: "/w".to_string(),
        project_path: id.to_string(),
        targets: targets
            .iter()
            .map(|t| RuntimeTarget {
                id: t.to_string(),
                label: t.to_string(),
            })
            .collect(),
        devices: devices
            .iter()
            .map(|d| RuntimeDevice {
                id: d.to_string(),
                name: d.to_string(),
                kind: RuntimeDeviceKind::Simulator,
                state: RuntimeDeviceState::Shutdown,
                os_version: None,
            })
            .collect(),
        capabilities: capabilities_for(true, !devices.is_empty()),
    }
}

#[test]
fn selection_waits_for_detection() {
    let s = RuntimeSelection::new();
    assert_eq!(s.selected_action, RuntimeAction::Run);
    assert_eq!(
        s.execution_request().unwrap_err(),
        "Runtime detection is still loading."
    );
}

#[test]
fn empty_catalog_reports_no_project() {
    let mut s = RuntimeSelection::new();
    s.set_catalog(RuntimeCatalog { projects: Vec::new() });
    assert_eq!(
        s.status_message.as_deref(),
        Some("No runnable Apple project was detected.")
    );
    assert_eq!(
        s.execution_request().unwrap_err(),
        "No runnable Apple project was detected."
    );
}

#[test]
fn catalog_selects_first_device_and_builds_request() {
    let mut s = RuntimeSelection::new();
    s.set_catalog(RuntimeCatalog {
        projects: vec![project("/w/A.xcodeproj", &["App"], &["SIM-1", "SIM-2"])],
    });
    assert_eq!(s.selected_device_index, Some(0));
    assert_eq!(s.status_message, None);
    let req = s.execution_request().unwrap();
    assert_eq!(req.project_id, "/w/A.xcodeproj");
    assert_eq!(req.target_id, "App");
    assert_eq!(req.device_id.as_deref(), Some("SIM-1"));
    s.choose_device(1);
    s.choose_action(RuntimeAction::Build);
    let req = s.execution_request().unwrap();
    assert_eq!(req.device_id.as_deref(), Some("SIM-2"));
    assert_eq!(req.action, RuntimeAction::Build);
}

#[test]
fn choosing_a_project_refits_target_and_device() {
    let mut s = RuntimeSelection::new();
    s.set_catalog(RuntimeCatalog {
        projects: vec![
            project("/w/A.xcodeproj", &["App", "Widget"], &["SIM-1"]),
            project("/w/B.xcodeproj", &[], &[]),
        ],
    });
    s.choose_target(1);
    s.choose_project(1);
    assert_eq!(s.selected_project_index, 1);
    assert_eq!(s.selected_target_index, 0);
    assert_eq!(s.selected_device_index, None);
    assert_eq!(
        s.execution_request().unwrap_err(),
        "No shared Xcode scheme was detected."
    );
    s.choose_project(7);
    assert_eq!(s.selected_project_index, 0);
    assert_eq!(
        s.status_message.as_deref(),
        Some("No runnable Apple project was detected.")
    );
}

#[test]
fn out_of_range_selections_fall_back_to_the_first() {
    let mut s = RuntimeSelection::new();
    s.selected_target_index = 5;
    s.selected_device_index = Some(9);
    s.set_catalog(RuntimeCatalog {
        projects: vec![project("/w/A.xcodeproj", &["App"], &["SIM-1"])],
    });
    assert_eq!(s.selected_target_index, 0);
    assert_eq!(s.selected_device_index, Some(0));
}

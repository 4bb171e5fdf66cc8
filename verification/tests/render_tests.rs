use kube_virsh::inventory::{build_inventory, NameMatch};
use kube_virsh::record::{ContainerState, Phase, RawWorkload, WorkloadRecord};
use kube_virsh::render::{render_inventory, render_line};
use kube_virsh::status::aggregate_apply;

fn plain_record() -> WorkloadRecord {
    WorkloadRecord {
        namespace: "tenant-a".to_string(),
        name: "ecs-one".to_string(),
        node: "node1".to_string(),
        architecture: "amd64".to_string(),
        phase: Phase::Running,
        status_detail: String::new(),
        started_at: Some("2021-01-01".to_string()),
        embedded_status: "running".to_string(),
    }
}

#[test]
fn line_with_status_has_fixed_columns() {
    let line = render_line(&plain_record(), true);
    let expected = format!(
        "{:<8}{:<25}{:<25}{:<25}{:<20}{:<25}",
        "amd64", "node1", "tenant-a", "ecs-one", "Running/running", "2021-01-01"
    );
    assert_eq!(line, expected);
}

#[test]
fn line_without_status_omits_architecture_and_slash() {
    let mut r = plain_record();
    r.embedded_status = String::new();
    let line = render_line(&r, false);
    let expected = format!(
        "{:<25}{:<25}{:<25}{:<20}{:<25}",
        "node1", "tenant-a", "ecs-one", "Running", "2021-01-01"
    );
    assert_eq!(line, expected);
}

#[test]
fn empty_embedded_status_renders_as_placeholder() {
    let mut r = plain_record();
    r.phase = Phase::Pending;
    r.embedded_status = String::new();
    let line = render_line(&r, true);
    assert!(line.contains("Pending/-"));
}

#[test]
fn missing_start_time_renders_as_none() {
    let mut r = plain_record();
    r.started_at = None;
    let line = render_line(&r, true);
    assert!(line.trim_end().ends_with("none"));
}

#[test]
fn three_workload_inventory_renders_three_lines() {
    let raws = vec![
        RawWorkload {
            namespace: Some("tenant-a".to_string()),
            name: Some("ecs-one".to_string()),
            node: Some("node1".to_string()),
            architecture: Some("amd64".to_string()),
            state: ContainerState::Running,
            started_at: Some("2021-01-01".to_string()),
        },
        RawWorkload {
            namespace: Some("tenant-a".to_string()),
            name: Some("ecs-two".to_string()),
            node: Some("node2".to_string()),
            architecture: Some("amd64".to_string()),
            state: ContainerState::Running,
            started_at: Some("2021-01-02".to_string()),
        },
        RawWorkload {
            namespace: Some("tenant-b".to_string()),
            name: Some("ecs-three".to_string()),
            node: None,
            architecture: None,
            state: ContainerState::Waiting { reason: Some("ContainerCreating".to_string()) },
            started_at: None,
        },
    ];
    let inventory = build_inventory(raws, "tenant-", "ecs-", NameMatch::Prefix);
    assert_eq!(inventory.len(), 3);
    // outcomes aligned by position; the pending workload was never queried
    let outcomes: Vec<Option<String>> = inventory
        .iter()
        .map(|r| {
            if r.phase != Phase::Running {
                None
            } else if r.name == "ecs-one" {
                Some(" 1  domain-one  running\n".to_string())
            } else {
                Some(" -  domain-two  shut off\n".to_string())
            }
        })
        .collect();
    let merged = aggregate_apply(&inventory, &outcomes);
    let lines = render_inventory(&merged, true);
    assert_eq!(lines.len(), 3);
    let one = lines.iter().find(|l| l.contains("ecs-one")).unwrap();
    assert!(one.contains("Running/running"));
    let two = lines.iter().find(|l| l.contains("ecs-two")).unwrap();
    assert!(two.contains("Running/off"));
    let three = lines.iter().find(|l| l.contains("ecs-three")).unwrap();
    assert!(three.contains("Pending/-"));
    assert!(!three.contains("Running"));
}

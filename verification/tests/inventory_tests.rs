use kube_virsh::inventory::{build_inventory, NameMatch};
use kube_virsh::record::{ContainerState, Phase, RawWorkload};

fn raw_workload(
    ns: Option<&str>,
    name: Option<&str>,
    node: Option<&str>,
    arch: Option<&str>,
    state: ContainerState,
    started: Option<&str>,
) -> RawWorkload {
    RawWorkload {
        namespace: ns.map(|s| s.to_string()),
        name: name.map(|s| s.to_string()),
        node: node.map(|s| s.to_string()),
        architecture: arch.map(|s| s.to_string()),
        state,
        started_at: started.map(|s| s.to_string()),
    }
}

#[test]
fn inventory_filters_by_prefix_and_name() {
    let raws = vec![
        raw_workload(
            Some("tenant-a"),
            Some("ecs-one"),
            Some("node1"),
            Some("amd64"),
            ContainerState::Running,
            Some("2021-01-01"),
        ),
        raw_workload(
            Some("other-ns"),
            Some("ecs-two"),
            Some("node2"),
            Some("amd64"),
            ContainerState::Running,
            None,
        ),
        raw_workload(
            Some("tenant-b"),
            Some("web-three"),
            Some("node3"),
            None,
            ContainerState::Running,
            None,
        ),
    ];
    let out = build_inventory(raws, "tenant-", "ecs-", NameMatch::Prefix);
    assert_eq!(out.len(), 1);
    assert_eq!(out[0].namespace, "tenant-a");
    assert_eq!(out[0].name, "ecs-one");
    assert_eq!(out[0].node, "node1");
    assert_eq!(out[0].architecture, "amd64");
    assert_eq!(out[0].phase, Phase::Running);
    assert_eq!(out[0].embedded_status, "");
    assert_eq!(out[0].started_at.as_deref(), Some("2021-01-01"));
}

#[test]
fn inventory_substring_mode_matches_inside_name() {
    let raws = vec![
        raw_workload(
            Some("tenant-a"),
            Some("ecs-node7-1"),
            None,
            None,
            ContainerState::Running,
            None,
        ),
        raw_workload(
            Some("tenant-a"),
            Some("ecs-node8-1"),
            None,
            None,
            ContainerState::Running,
            None,
        ),
        raw_workload(
            Some("tenant-b"),
            Some("ecs-node7-2"),
            None,
            None,
            ContainerState::Running,
            None,
        ),
    ];
    let out = build_inventory(raws, "tenant-", "node7", NameMatch::Substring);
    assert_eq!(out.len(), 2);
    assert!(out.iter().all(|r| r.name.contains("node7")));
}

#[test]
fn inventory_drops_workloads_without_identity() {
    let raws = vec![
        raw_workload(None, Some("ecs-one"), None, None, ContainerState::Running, None),
        raw_workload(Some("tenant-a"), None, None, None, ContainerState::Running, None),
        raw_workload(Some("tenant-a"), Some("ecs-two"), None, None, ContainerState::Running, None),
    ];
    let out = build_inventory(raws, "tenant-", "ecs-", NameMatch::Prefix);
    assert_eq!(out.len(), 1);
    assert_eq!(out[0].name, "ecs-two");
}

#[test]
fn inventory_defaults_missing_fields() {
    let raws = vec![raw_workload(
        Some("tenant-a"),
        Some("ecs-one"),
        None,
        None,
        ContainerState::Absent,
        None,
    )];
    let out = build_inventory(raws, "tenant-", "ecs-", NameMatch::Prefix);
    assert_eq!(out.len(), 1);
    assert_eq!(out[0].node, "unassigned");
    assert_eq!(out[0].architecture, "none");
    assert_eq!(out[0].phase, Phase::Unknown);
    assert_eq!(out[0].status_detail, "");
    assert_eq!(out[0].started_at, None);
}

#[test]
fn inventory_strips_quotes_from_architecture() {
    let raws = vec![raw_workload(
        Some("tenant-a"),
        Some("ecs-one"),
        None,
        Some("\"arm64\""),
        ContainerState::Running,
        None,
    )];
    let out = build_inventory(raws, "tenant-", "ecs-", NameMatch::Prefix);
    assert_eq!(out[0].architecture, "arm64");
}

#[test]
fn inventory_classifies_terminated_and_waiting() {
    let raws = vec![
        raw_workload(
            Some("tenant-a"),
            Some("ecs-dead"),
            None,
            None,
            ContainerState::Terminated { reason: Some("OOMKilled".to_string()) },
            None,
        ),
        raw_workload(
            Some("tenant-a"),
            Some("ecs-wait"),
            None,
            None,
            ContainerState::Waiting { reason: Some("ImagePullBackOff".to_string()) },
            None,
        ),
        raw_workload(
            Some("tenant-a"),
            Some("ecs-bare"),
            None,
            None,
            ContainerState::Terminated { reason: None },
            None,
        ),
    ];
    let out = build_inventory(raws, "tenant-", "ecs-", NameMatch::Prefix);
    assert_eq!(out.len(), 3);
    let dead = out.iter().find(|r| r.name == "ecs-dead").unwrap();
    assert_eq!(dead.phase, Phase::Terminated);
    assert_eq!(dead.status_detail, "OOMKilled");
    let waiting = out.iter().find(|r| r.name == "ecs-wait").unwrap();
    assert_eq!(waiting.phase, Phase::Pending);
    assert_eq!(waiting.status_detail, "ImagePullBackOff");
    let bare = out.iter().find(|r| r.name == "ecs-bare").unwrap();
    assert_eq!(bare.phase, Phase::Terminated);
    assert_eq!(bare.status_detail, "");
}

#[test]
fn inventory_keeps_one_record_per_key() {
    let raws = vec![
        raw_workload(Some("tenant-a"), Some("ecs-one"), Some("node1"), None, ContainerState::Running, None),
        raw_workload(Some("tenant-a"), Some("ecs-one"), Some("node2"), None, ContainerState::Running, None),
        raw_workload(Some("tenant-b"), Some("ecs-one"), Some("node3"), None, ContainerState::Running, None),
    ];
    let out = build_inventory(raws, "tenant-", "ecs-", NameMatch::Prefix);
    // the later listing of the same (namespace, name) replaces the earlier;
    // the same name in another namespace stays a record of its own
    assert_eq!(out.len(), 2);
    let a = out.iter().find(|r| r.namespace == "tenant-a").unwrap();
    assert_eq!(a.node, "node2");
    let b = out.iter().find(|r| r.namespace == "tenant-b").unwrap();
    assert_eq!(b.node, "node3");
}

#[test]
fn inventory_of_empty_snapshot_is_empty() {
    let out = build_inventory(Vec::new(), "tenant-", "ecs-", NameMatch::Prefix);
    assert!(out.is_empty());
}

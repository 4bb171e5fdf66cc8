use kube_virsh::dispatch::collect_outputs;

#[test]
fn one_failure_among_two_targets_prints_one_line() {
    let results = vec![Some("<domain>ecs-node7-1</domain>".to_string()), None];
    let out = collect_outputs(&results);
    assert_eq!(out.len(), 1);
    assert_eq!(out[0], "<domain>ecs-node7-1</domain>");
}

#[test]
fn empty_results_print_nothing() {
    let results = vec![Some(String::new()), None, Some(String::new())];
    let out = collect_outputs(&results);
    assert!(out.is_empty());
}

#[test]
fn outputs_keep_target_order() {
    let results = vec![
        Some("first".to_string()),
        None,
        Some(String::new()),
        Some("second".to_string()),
    ];
    let out = collect_outputs(&results);
    assert_eq!(out, vec!["first".to_string(), "second".to_string()]);
}

#[test]
fn no_targets_print_nothing() {
    let out = collect_outputs(&Vec::new());
    assert!(out.is_empty());
}

use kube_virsh::translate::{convert_command, shell_invocation};

#[test]
fn getxml_translates_to_domain_dump() {
    let cmd = convert_command("getxml", "alpha-beta-7").unwrap();
    assert_eq!(cmd, "virsh dumpxml alpha-beta --inactive");
    assert!(cmd.contains("alpha-beta"));
}

#[test]
fn getxml_needs_two_hyphen_tokens() {
    assert_eq!(convert_command("getxml", "single"), None);
}

#[test]
fn unknown_command_translates_to_nothing() {
    assert_eq!(convert_command("unknown", "alpha-beta-7"), None);
}

#[test]
fn logs_translates_to_daemon_log_file() {
    let cmd = convert_command("logs", "alpha-beta-7").unwrap();
    assert_eq!(cmd, "cat /var/log/libvirt/libvirtd.log");
}

#[test]
fn logs_still_needs_two_hyphen_tokens() {
    assert_eq!(convert_command("logs", "nodash"), None);
}

#[test]
fn two_tokens_exactly_are_enough() {
    let cmd = convert_command("getxml", "alpha-beta").unwrap();
    assert_eq!(cmd, "virsh dumpxml alpha-beta --inactive");
}

#[test]
fn trailing_hyphen_yields_empty_second_token() {
    let cmd = convert_command("getxml", "alpha-").unwrap();
    assert_eq!(cmd, "virsh dumpxml alpha- --inactive");
}

#[test]
fn shell_invocation_wraps_command_in_bash() {
    let argv = shell_invocation("virsh --quiet list --all");
    assert_eq!(argv.len(), 3);
    assert_eq!(argv[0], "bash");
    assert_eq!(argv[1], "-c");
    assert_eq!(argv[2], "virsh --quiet list --all");
}

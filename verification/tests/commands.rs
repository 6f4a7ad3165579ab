use rustconn::terminal::commands::{
    command_name, erase_binding, spawn_failure, telnet_argv, EraseBinding, SpawnPath, SshCommand,
    TelnetKeySends,
};

fn ssh(extra: &[&str]) -> SshCommand {
    SshCommand {
        host: "example.com".to_string(),
        port: 22,
        username: Some("alice".to_string()),
        identity_file: None,
        extra_args: extra.iter().map(|a| a.to_string()).collect(),
        use_waypipe: false,
        use_mptcp: false,
        startup_command: None,
        control_path: "/run/ctl".to_string(),
        known_hosts_path: None,
    }
}

#[test]
fn a_plain_ssh_command_shares_its_connection_and_stays_alive() {
    assert_eq!(
        ssh(&[]).argv(),
        vec![
            "ssh",
            "-o",
            "ControlMaster=auto",
            "-o",
            "ControlPath=/run/ctl",
            "-o",
            "ControlPersist=60",
            "-o",
            "ServerAliveInterval=15",
            "-o",
            "ServerAliveCountMax=3",
            "alice@example.com",
        ]
    );
}

#[test]
fn every_part_of_an_ssh_command_has_its_place() {
    let command = SshCommand {
        port: 2222,
        username: None,
        identity_file: Some("/key".to_string()),
        use_waypipe: true,
        use_mptcp: true,
        startup_command: Some("tmux".to_string()),
        known_hosts_path: Some("/kh".to_string()),
        ..ssh(&["-v"])
    };
    assert_eq!(
        command.argv(),
        vec![
            "mptcpize",
            "run",
            "waypipe",
            "ssh",
            "-p",
            "2222",
            "-i",
            "/key",
            "-o",
            "ControlMaster=auto",
            "-o",
            "ControlPath=/run/ctl",
            "-o",
            "ControlPersist=60",
            "-o",
            "UserKnownHostsFile=/kh",
            "-o",
            "ServerAliveInterval=15",
            "-o",
            "ServerAliveCountMax=3",
            "-v",
            "-t",
            "example.com",
            "tmux; exec $SHELL -l",
        ]
    );
}

#[test]
fn what_the_user_decides_is_not_decided_again() {
    let command = SshCommand {
        startup_command: Some("top".to_string()),
        known_hosts_path: Some("/kh".to_string()),
        use_mptcp: true,
        ..ssh(&[
            "-o",
            "ControlMaster=yes",
            "-t",
            "-oServerAliveInterval=5",
            "-oServerAliveCountMax=9",
            "-oUserKnownHostsFile=/mine",
        ])
    };
    assert_eq!(
        command.argv(),
        vec![
            "mptcpize",
            "run",
            "ssh",
            "-o",
            "ControlPath=/run/ctl",
            "-o",
            "ControlMaster=yes",
            "-t",
            "-oServerAliveInterval=5",
            "-oServerAliveCountMax=9",
            "-oUserKnownHostsFile=/mine",
            "alice@example.com",
            "top; exec $SHELL -l",
        ]
    );
    let both = ssh(&["ControlMaster=no", "ControlPath=/p"]).argv();
    assert!(!both.contains(&"ControlPath=/run/ctl".to_string()));
    let waypipe = SshCommand { use_waypipe: true, ..ssh(&[]) }.argv();
    assert_eq!(waypipe[..2], ["waypipe".to_string(), "ssh".to_string()]);
}

#[test]
fn telnet_names_host_and_port_last() {
    let extra = vec!["-8".to_string()];
    assert_eq!(telnet_argv("h", 23, &extra), vec!["telnet", "-8", "h", "23"]);
    assert_eq!(erase_binding(TelnetKeySends::Automatic), EraseBinding::Auto);
    assert_eq!(erase_binding(TelnetKeySends::Backspace), EraseBinding::AsciiBackspace);
    assert_eq!(erase_binding(TelnetKeySends::Delete), EraseBinding::AsciiDelete);
}

#[test]
fn a_command_goes_by_its_first_word() {
    assert_eq!(command_name(&vec!["a".to_string(), "b".to_string()]), "a");
    assert_eq!(command_name(&vec![]), "");
}

#[test]
fn a_missing_program_is_told_apart_from_other_failures() {
    let missing = spawn_failure(SpawnPath::NativePty, "x", "spawn: No such file or directory (os error 2)");
    assert_eq!(missing.banner.unwrap().render(), "Command not found: x");
    assert_eq!(missing.toast.render(), "'x' is not installed");
    let by_number = spawn_failure(SpawnPath::NativePty, "x", "os error 2");
    assert_eq!(by_number.toast.render(), "'x' is not installed");
    let many = spawn_failure(SpawnPath::NativePty, "x", "Too many open files (os error 24)");
    assert_eq!(many.banner.unwrap().render(), "Failed to start 'x'");
    let both = spawn_failure(SpawnPath::NativePty, "x", "os error 24, then (os error 2)");
    assert_eq!(both.banner.unwrap().render(), "Command not found: x");
    let other = spawn_failure(SpawnPath::NativePty, "x", "openpty failed");
    assert_eq!(other.banner.unwrap().render(), "Failed to start 'x'");
    assert_eq!(other.toast.render(), "Failed to start 'x': openpty failed");
}

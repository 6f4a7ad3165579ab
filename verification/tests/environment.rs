use rustconn::terminal::environment::{
    build_child_env, AgentInfo, CliConfigDirs, Sandbox, SpawnContext,
};

fn context(parent: &[(&str, &str)]) -> SpawnContext {
    SpawnContext {
        parent: parent.iter().map(|(k, v)| (k.to_string(), v.to_string())).collect(),
        extended_path: "/ext:/bin".to_string(),
        agent: None,
        sandbox: Sandbox::Unsandboxed,
    }
}

fn user(entries: &[&str]) -> Vec<String> {
    entries.iter().map(|e| e.to_string()).collect()
}

#[test]
fn the_parent_environment_is_handed_on_with_the_extended_path() {
    let c = context(&[("HOME", "/h"), ("PATH", "/bin"), ("TERM", "screen"), ("SSH_ASKPASS", "/ask")]);
    assert_eq!(
        build_child_env(&c, false, None, &user(&[])),
        vec!["HOME=/h", "PATH=/ext:/bin", "TERM=screen"]
    );
    let bare = context(&[]);
    assert_eq!(
        build_child_env(&bare, true, None, &user(&[])),
        vec!["PATH=/ext:/bin", "SSH_ASKPASS_REQUIRE=never", "TERM=xterm-256color"]
    );
}

#[test]
fn the_connections_own_agent_comes_first() {
    let mut c = context(&[("SSH_AUTH_SOCK", "/old"), ("SSH_AGENT_PID", "1"), ("TERM", "xterm")]);
    c.agent = Some(AgentInfo { socket_path: "/app".to_string(), pid: Some("77".to_string()) });
    let app = build_child_env(&c, false, None, &user(&[]));
    assert_eq!(
        app,
        vec!["TERM=xterm", "PATH=/ext:/bin", "SSH_AUTH_SOCK=/app", "SSH_AGENT_PID=77"]
    );
    let own = build_child_env(&c, false, Some("/own"), &user(&[]));
    assert!(own.contains(&"SSH_AUTH_SOCK=/own".to_string()));
    assert!(own.contains(&"SSH_AGENT_PID=1".to_string()));
    c.agent = Some(AgentInfo { socket_path: "/app".to_string(), pid: None });
    let without_pid = build_child_env(&c, false, None, &user(&[]));
    assert!(without_pid.contains(&"SSH_AGENT_PID=1".to_string()));
}

#[test]
fn a_dumb_terminal_is_replaced_and_a_flatpak_sets_its_own() {
    let dumb = context(&[("TERM", "dumb")]);
    assert!(build_child_env(&dumb, false, None, &user(&[])).contains(&"TERM=xterm-256color".to_string()));
    let dirs = || CliConfigDirs {
        gcloud: Some("/g".to_string()),
        azure: None,
        teleport: Some("/t".to_string()),
        oci: Some("/o".to_string()),
    };
    let mut flatpak = context(&[("TERM", "screen"), ("CLOUDSDK_CONFIG", "/mine")]);
    flatpak.sandbox = Sandbox::Flatpak(dirs());
    assert_eq!(
        build_child_env(&flatpak, false, None, &user(&[])),
        vec![
            "CLOUDSDK_CONFIG=/mine",
            "PATH=/ext:/bin",
            "TELEPORT_HOME=/t",
            "OCI_CLI_CONFIG_FILE=/o/config",
            "TERM=xterm-256color"
        ]
    );
    let mut snap = context(&[("TERM", "screen")]);
    snap.sandbox = Sandbox::Snap(dirs());
    assert_eq!(
        build_child_env(&snap, false, None, &user(&[])),
        vec![
            "TERM=screen",
            "PATH=/ext:/bin",
            "CLOUDSDK_CONFIG=/g",
            "TELEPORT_HOME=/t",
            "OCI_CLI_CONFIG_FILE=/o/config"
        ]
    );
}

#[test]
fn the_caller_has_the_last_word() {
    let c = context(&[("TERM", "screen"), ("A", "1")]);
    let env = build_child_env(
        &c,
        false,
        None,
        &user(&["A=2", "TERM=vt100", "A=3=4", "bare", "SSH_ASKPASS=/mine"]),
    );
    assert_eq!(
        env,
        vec!["PATH=/ext:/bin", "TERM=vt100", "A=3=4", "bare", "SSH_ASKPASS=/mine"]
    );
}

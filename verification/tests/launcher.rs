use rustconn::launcher::{
    collect_stderr_line, launch_next, reap_step, session_secret, ArgVerdict, DisplayEnv,
    EmbeddedRdpError, ExtraArg, LaunchNext, LaunchStage, PreparedFreeRdpArgs, RdpConfig, ReapPoll,
    ReapStep, SafeFreeRdpLauncher, SharedFolder, StageOutcome, CANCELLED_CHILD_REAP_TIMEOUT_MS,
};
use rustconn::scrub::SecretText;

#[test]
fn test_safe_freerdp_launcher_default_wayland_first() {
    let launcher = SafeFreeRdpLauncher::new();
    assert!(launcher.suppress_qt_warnings);
    assert!(!launcher.force_x11); // Wayland-first by default
}

#[test]
fn test_safe_freerdp_launcher_x11_fallback() {
    let launcher = SafeFreeRdpLauncher::with_x11_fallback();
    assert!(launcher.suppress_qt_warnings);
    assert!(launcher.force_x11);
}

#[test]
fn test_safe_freerdp_launcher_builder() {
    let launcher = SafeFreeRdpLauncher::new().with_suppress_warnings(false).with_force_x11(true);
    assert!(!launcher.suppress_qt_warnings);
    assert!(launcher.force_x11);
}

#[test]
fn test_safe_freerdp_launcher_env_wayland() {
    let launcher = SafeFreeRdpLauncher::new();
    let env = launcher.build_env();

    // Should have QT_LOGGING_RULES but NOT QT_QPA_PLATFORM (Wayland-first)
    assert!(env.iter().any(|(k, _)| *k == "QT_LOGGING_RULES"));
    assert!(!env.iter().any(|(k, _)| *k == "QT_QPA_PLATFORM"));
}

#[test]
fn test_safe_freerdp_launcher_env_x11_fallback() {
    let launcher = SafeFreeRdpLauncher::with_x11_fallback();
    let env = launcher.build_env();

    // Should have both QT_LOGGING_RULES and QT_QPA_PLATFORM
    assert!(env.iter().any(|(k, _)| *k == "QT_LOGGING_RULES"));
    assert!(env.iter().any(|(k, _)| *k == "QT_QPA_PLATFORM"));
}

#[test]
fn test_safe_freerdp_launcher_env_disabled() {
    let launcher = SafeFreeRdpLauncher::new().with_suppress_warnings(false).with_force_x11(false);
    let env = launcher.build_env();

    // Should be empty when both are disabled
    assert!(env.is_empty());
}

/// A connection with nothing but its defaults.
fn config() -> RdpConfig {
    RdpConfig {
        host: String::new(),
        port: 3389,
        username: None,
        password: None,
        domain: None,
        width: 1280,
        height: 720,
        ignore_certificate: false,
        remember_window_position: false,
        window_geometry: None,
        clipboard_enabled: true,
        shared_folders: vec![],
        printer_enabled: false,
        audio_arg: "/sound".to_string(),
        extra_args: vec![],
        gateway_hostname: None,
        gateway_port: 443,
        gateway_username: None,
        remote_app_program: None,
        remote_app_args: vec![],
    }
}

/// Collects connection arguments from the builder.
fn connection_args(config: &RdpConfig) -> Vec<String> {
    SafeFreeRdpLauncher::build_connection_args(config)
}

fn extra(arg: &str, verdict: ArgVerdict) -> ExtraArg {
    ExtraArg { arg: arg.to_string(), verdict }
}

#[test]
fn connection_args_filter_secret_aliases_and_execution_options() {
    let config = RdpConfig {
        extra_args: vec![
            extra("/gateway:g:host,p:session-secret", ArgVerdict::Blocked),
            extra("/gateway:g:host,GATEWAY-PASSWORD:gateway-secret", ArgVerdict::Blocked),
            extra("--pth", ArgVerdict::BlockedWithValue),
            extra("hash-secret", ArgVerdict::Allowed),
            extra("--shell", ArgVerdict::BlockedWithValue),
            extra("command-secret", ArgVerdict::Allowed),
            extra("/gateway:g:host,u:user", ArgVerdict::Allowed),
        ],
        ..config()
    };

    let args = connection_args(&config);

    assert!(args.iter().any(|arg| arg == "/gateway:g:host,u:user"));
    for secret in ["session-secret", "gateway-secret", "hash-secret", "command-secret"] {
        assert!(args.iter().all(|arg| !arg.contains(secret)));
    }
}

#[test]
fn test_gateway_uses_freerdp3_unified_syntax() {
    // FreeRDP 3.x rejects the old `/g:` / `/gu:` aliases with "Unexpected keyword".
    let config = RdpConfig {
        host: "vm1.example.com".to_string(),
        gateway_hostname: Some("gw.example.com".to_string()),
        gateway_port: 443,
        ..config()
    };

    let args = connection_args(&config);
    assert!(
        args.iter().any(|a| a == "/gateway:g:gw.example.com:443"),
        "expected unified /gateway: option, got {args:?}"
    );
    assert!(
        !args.iter().any(|a| a.starts_with("/g:")),
        "the removed /g: alias must not be emitted: {args:?}"
    );
    assert!(
        !args.iter().any(|a| a.starts_with("/gu:")),
        "the removed /gu: alias must not be emitted: {args:?}"
    );
}

#[test]
fn test_gateway_omits_user_when_same_as_session() {
    // FreeRDP then reuses the session credentials, so no explicit gateway user is needed.
    let config = RdpConfig {
        host: "vm1.example.com".to_string(),
        username: Some("alice".to_string()),
        gateway_hostname: Some("gw.example.com".to_string()),
        gateway_username: Some("alice".to_string()),
        ..config()
    };

    let args = connection_args(&config);
    assert!(
        args.iter().any(|a| a == "/gateway:g:gw.example.com:443"),
        "expected bare gateway option, got {args:?}"
    );
}

#[test]
fn test_gateway_adds_user_when_distinct() {
    let config = RdpConfig {
        host: "vm1.example.com".to_string(),
        username: Some("alice".to_string()),
        gateway_hostname: Some("gw.example.com".to_string()),
        gateway_username: Some("gwadmin".to_string()),
        ..config()
    };

    let args = connection_args(&config);
    assert!(
        args.iter().any(|a| a == "/gateway:g:gw.example.com:443,u:gwadmin"),
        "expected gateway option with distinct user, got {args:?}"
    );
}

#[test]
fn every_connection_argument_has_its_place() {
    let config = RdpConfig {
        host: "vm1".to_string(),
        port: 3390,
        username: Some("alice".to_string()),
        password: Some(SecretText::new("s3cret")),
        domain: Some("CORP".to_string()),
        ignore_certificate: true,
        remember_window_position: true,
        window_geometry: Some((-5, 7, 1, 2)),
        shared_folders: vec![SharedFolder {
            share_name: "a,b".to_string(),
            local_path: "/tmp".to_string(),
        }],
        printer_enabled: true,
        remote_app_program: Some("calc".to_string()),
        remote_app_args: vec!["/app:program:calc".to_string()],
        ..config()
    };
    assert_eq!(
        connection_args(&config),
        vec![
            "/d:CORP",
            "/u:alice",
            "/w:1280",
            "/h:720",
            "/cert:ignore",
            "/dynamic-resolution",
            "/decorations",
            "/x:-5",
            "/y:7",
            "+clipboard",
            "/drive:a_b,/tmp",
            "/printer",
            "/sound",
            "/app:program:calc",
            "/auth-pkg-list:ntlm",
            "/v:vm1:3390",
        ]
    );
    let (switch, secret) = session_secret(&config).unwrap();
    assert_eq!(switch, "p");
    assert_eq!(secret.expose(), "s3cret");
    assert!(SafeFreeRdpLauncher::is_remote_app(&config));
    let empty = RdpConfig { password: Some(SecretText::new("")), ..self::config() };
    assert!(session_secret(&empty).is_none());
    assert!(session_secret(&self::config()).is_none());
}

#[test]
fn a_client_on_the_host_gets_its_environment_in_switches() {
    let launcher = SafeFreeRdpLauncher::with_x11_fallback();
    let display = DisplayEnv {
        display: Some(":0".to_string()),
        wayland_display: None,
        xdg_runtime_dir: Some("/run/user/1".to_string()),
    };
    let prepared = PreparedFreeRdpArgs { argument: "/args-from:file:/x".to_string() };
    let host = launcher.launch_command("host:xfreerdp", &display, &prepared);
    assert_eq!(host.program, "flatpak-spawn");
    assert_eq!(
        host.args,
        vec![
            "--host",
            "--watch-bus",
            "--env=QT_LOGGING_RULES=qt.qpa.wayland=false;qt.qpa.*=false",
            "--env=QT_QPA_PLATFORM=xcb",
            "--env=DISPLAY=:0",
            "--env=XDG_RUNTIME_DIR=/run/user/1",
            "xfreerdp",
            "/args-from:file:/x",
        ]
    );
    assert!(host.env.is_empty());
    let plain = launcher.launch_command("xfreerdp", &display, &prepared);
    assert_eq!(plain.program, "xfreerdp");
    assert_eq!(plain.args, vec!["/args-from:file:/x"]);
    assert_eq!(plain.env.len(), 2);
}

#[test]
fn a_client_for_applications_is_no_wayland_one() {
    let clients: Vec<String> =
        ["wlfreerdp3", "host:wlfreerdp", "xfreerdp3"].iter().map(|c| c.to_string()).collect();
    assert_eq!(
        SafeFreeRdpLauncher::detect_freerdp(&clients, &vec![true, true, true]).as_deref(),
        Some("wlfreerdp3")
    );
    assert_eq!(
        SafeFreeRdpLauncher::detect_freerdp_for_remoteapp(&clients, &vec![true, true, true])
            .as_deref(),
        Some("xfreerdp3")
    );
    assert_eq!(
        SafeFreeRdpLauncher::detect_freerdp_for_remoteapp(&clients, &vec![true, true, false]),
        None
    );
    assert_eq!(SafeFreeRdpLauncher::detect_freerdp(&vec![], &vec![]), None);
}

fn failure(next: LaunchNext) -> (String, bool) {
    match next {
        LaunchNext::Fail { error: EmbeddedRdpError::FreeRdpInit(text), kill_child } => {
            (text, kill_child)
        }
        _ => panic!("the launch fails"),
    }
}

#[test]
fn a_launch_goes_through_its_stages() {
    let mut stage = LaunchStage::Begin;
    let mut seen = vec![stage];
    while let LaunchNext::Run(next) = launch_next(stage, StageOutcome::Done, false) {
        stage = next;
        seen.push(stage);
    }
    assert_eq!(seen.len(), 8);
    assert_eq!(seen[7], LaunchStage::DrainStderr);
    assert!(matches!(
        launch_next(LaunchStage::DrainStderr, StageOutcome::Done, false),
        LaunchNext::Finished
    ));
}

#[test]
fn a_launch_says_why_it_failed_and_leaves_no_client() {
    let broken = || StageOutcome::Failed("why".to_string());
    assert_eq!(
        failure(launch_next(LaunchStage::Validate, broken(), true)),
        ("could not validate additional RDP arguments: why".to_string(), false)
    );
    assert_eq!(
        failure(launch_next(LaunchStage::Detect, StageOutcome::Missing, false)),
        (
            "No FreeRDP client found. Install sdl-freerdp3, xfreerdp, or wlfreerdp.".to_string(),
            false
        )
    );
    assert_eq!(
        failure(launch_next(LaunchStage::WriteArgs, broken(), false)),
        ("could not prepare RDP args file: why".to_string(), false)
    );
    assert_eq!(
        failure(launch_next(LaunchStage::Spawn, broken(), true)),
        ("why".to_string(), false)
    );
    for (stage, running) in [
        (LaunchStage::Begin, false),
        (LaunchStage::Detect, false),
        (LaunchStage::ResolveForm, false),
        (LaunchStage::WriteArgs, false),
        (LaunchStage::BuildCommand, false),
        (LaunchStage::Spawn, true),
        (LaunchStage::DrainStderr, true),
    ] {
        assert_eq!(
            failure(launch_next(stage, StageOutcome::Done, true)),
            ("FreeRDP launch cancelled".to_string(), running)
        );
    }
    assert!(SafeFreeRdpLauncher::ensure_not_cancelled(None).is_ok());
    assert!(SafeFreeRdpLauncher::ensure_not_cancelled(Some(false)).is_ok());
    assert!(SafeFreeRdpLauncher::ensure_not_cancelled(Some(true)).is_err());
}

#[test]
fn a_killed_client_is_waited_for_a_while() {
    assert_eq!(reap_step(ReapPoll::Exited, 9_999), ReapStep::Done);
    assert_eq!(reap_step(ReapPoll::Running, 0), ReapStep::PollAgain);
    assert_eq!(
        reap_step(ReapPoll::Running, CANCELLED_CHILD_REAP_TIMEOUT_MS),
        ReapStep::WaitInBackground
    );
    assert_eq!(reap_step(ReapPoll::Failed, 0), ReapStep::WaitInBackground);
}

#[test]
fn blank_lines_of_stderr_are_dropped() {
    let mut lines = vec![];
    for line in ["  error: no route \r", "", "   ", "done"] {
        collect_stderr_line(&mut lines, line);
    }
    assert_eq!(lines, vec!["error: no route", "done"]);
}

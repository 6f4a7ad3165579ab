use rustconn::i18n::Message;
use rustconn::scrub::SecretText;
use rustconn::secrets::clients::{
    detect_bitwarden, detect_onepassword, detect_pass, detect_passbolt, run_detection, CliClient,
};
use rustconn::secrets::detection::{
    backend_readiness, bitwarden_status_for, check_bitwarden_status, check_onepassword_status,
    check_passbolt_status, detection_is_fresh, extract_session_key, onepassword_account,
    pass_status, pass_store_dir, pass_version, passbolt_server_url, path_join, server_address,
    BackendAvailability, BackendReadiness, BackendStatus, LocalBackendState, ProbeOutput,
    SecretCli, SecretCliDetection, StatusLevel,
};
use rustconn::secrets::keyring::{
    delete_from_keyring, lookup_in_keyring, saved_to_keyring, KeyringEntry, KeyringOutcome,
};
use rustconn::secrets::SecretBackendType;

fn output(success: bool, stdout: &str, stderr: &str) -> ProbeOutput {
    ProbeOutput { success, stdout: stdout.to_string(), stderr: stderr.to_string() }
}

fn shown(status: BackendStatus) -> (String, StatusLevel) {
    (status.text.render(), status.level)
}

#[test]
fn the_status_field_of_bitwarden_is_read_from_json() {
    let status = |json: &str| shown(check_bitwarden_status(Some(&output(true, json, ""))));
    assert_eq!(status("{\"status\":\"unlocked\"}"), ("Unlocked".to_string(), StatusLevel::Success));
    assert_eq!(status("{\"status\":\"locked\"}"), ("Locked".to_string(), StatusLevel::Warning));
    assert_eq!(
        status("{\"status\":\"unauthenticated\"}"),
        ("Not logged in".to_string(), StatusLevel::Error)
    );
    assert_eq!(status("{\"status\":\"odd\"}"), ("Status: odd".to_string(), StatusLevel::Dim));
    assert_eq!(status("{\"status\":3}"), ("Unknown".to_string(), StatusLevel::Dim));
    assert_eq!(status("no json"), ("Unknown".to_string(), StatusLevel::Dim));
    let failed = ("Error checking status".to_string(), StatusLevel::Error);
    assert_eq!(shown(check_bitwarden_status(Some(&output(false, "{}", "")))), failed);
    assert_eq!(shown(check_bitwarden_status(None)), failed);
    assert_eq!(shown(bitwarden_status_for(Some("locked"))).0, "Locked");
}

#[test]
fn the_account_of_onepassword_is_read_from_json() {
    let ok = |json: &str| shown(check_onepassword_status(Some(&output(true, json, ""))));
    assert_eq!(
        ok("{\"email\":\"a@b.c\"}"),
        ("Signed in: a@b.c".to_string(), StatusLevel::Success)
    );
    assert_eq!(ok("[]"), ("Signed in".to_string(), StatusLevel::Success));
    let bad = |stderr: &str| shown(check_onepassword_status(Some(&output(false, "", stderr))));
    assert_eq!(bad("you are not signed in"), ("Not signed in".to_string(), StatusLevel::Error));
    assert_eq!(bad("session expired"), ("Session expired".to_string(), StatusLevel::Warning));
    assert_eq!(
        bad("session expired, sign in again"),
        ("Not signed in".to_string(), StatusLevel::Error)
    );
    assert_eq!(bad("?"), ("Not signed in".to_string(), StatusLevel::Error));
    assert_eq!(shown(check_onepassword_status(None)).0, "Error checking status");
    assert_eq!(shown(onepassword_account(None)).0, "Signed in");
}

#[test]
fn passbolt_says_what_is_missing() {
    assert_eq!(
        shown(check_passbolt_status(Some(&output(true, "", "")))),
        ("Configured".to_string(), StatusLevel::Success)
    );
    let bad = |stderr: &str| shown(check_passbolt_status(Some(&output(false, "", stderr))));
    assert_eq!(
        bad("no configuration, authentication"),
        ("Not configured".to_string(), StatusLevel::Error)
    );
    assert_eq!(
        bad("wrong passphrase"),
        ("Authentication failed".to_string(), StatusLevel::Warning)
    );
    assert_eq!(bad("?"), ("Not configured".to_string(), StatusLevel::Error));
    assert_eq!(
        passbolt_server_url("{\"serverAddress\":\"https://p\"}").as_deref(),
        Some("https://p")
    );
    assert_eq!(passbolt_server_url("{\"serverAddress\":\"\"}"), None);
    assert_eq!(passbolt_server_url("{}"), None);
    assert_eq!(server_address(Some("x".to_string())).as_deref(), Some("x"));
    assert_eq!(server_address(None), None);
}

#[test]
fn the_version_of_pass_is_found_in_its_banner() {
    let banner = "=====\n= pass: the standard unix password manager =\n=        v1.7.4        =\n";
    assert_eq!(pass_version(Some(&output(true, banner, ""))).as_deref(), Some("1.7.4"));
    assert_eq!(pass_version(Some(&output(false, banner, ""))), None);
    assert_eq!(pass_version(Some(&output(true, "nothing", ""))), None);
    assert_eq!(pass_version(None), None);
}

#[test]
fn the_store_of_pass_is_looked_for_in_order() {
    assert_eq!(pass_store_dir(Some("/c"), Some("/e"), Some("/h")).as_deref(), Some("/c"));
    assert_eq!(pass_store_dir(None, Some("/e"), Some("/h")).as_deref(), Some("/e"));
    assert_eq!(pass_store_dir(None, None, Some("/h")).as_deref(), Some("/h/.password-store"));
    assert_eq!(pass_store_dir(None, None, None), None);
    assert_eq!(path_join("/a/", "b"), "/a/b");
    assert_eq!(path_join("", "b"), "b");
    let version = Some("1".to_string());
    assert_eq!(
        shown(pass_status(&version, Some("/s"), true).unwrap()),
        ("Initialized at /s".to_string(), StatusLevel::Success)
    );
    assert_eq!(pass_status(&version, Some("/s"), false).unwrap().level, StatusLevel::Warning);
    assert_eq!(pass_status(&version, None, true).unwrap().level, StatusLevel::Error);
    assert!(pass_status(&None, Some("/s"), true).is_none());
}

#[test]
fn a_session_key_is_read_from_either_spelling() {
    let quoted = "Your vault is now unlocked!\n$ export BW_SESSION=\"abc==\"\n";
    assert_eq!(extract_session_key(quoted).as_deref(), Some("abc=="));
    assert_eq!(extract_session_key("BW_SESSION=abc \n").as_deref(), Some("abc"));
    assert_eq!(extract_session_key("BW_SESSION=\nnothing"), None);
    assert_eq!(extract_session_key(""), None);
}

#[test]
fn a_detection_is_reused_for_half_a_minute_and_the_same_store() {
    assert!(detection_is_fresh(29_999, Some("/a"), Some("/a")));
    assert!(!detection_is_fresh(30_000, Some("/a"), Some("/a")));
    assert!(!detection_is_fresh(0, Some("/a"), Some("/b")));
    assert!(!detection_is_fresh(0, None, Some("/b")));
    assert!(detection_is_fresh(0, None, None));
}

#[test]
fn clients_are_looked_for_in_order() {
    assert_eq!(
        SecretCli::Bitwarden.candidates(false, Some("/dl/bw")),
        vec!["bw", "/snap/bin/bw", "/usr/local/bin/bw", "/dl/bw"]
    );
    assert_eq!(SecretCli::OnePassword.candidates(true, None), vec!["op"]);
    assert_eq!(
        SecretCli::Passbolt.candidates(false, None),
        vec!["passbolt", "/usr/local/bin/passbolt"]
    );
    let candidates = SecretCli::OnePassword.candidates(false, None);
    assert_eq!(
        SecretCli::OnePassword.choose_client(&candidates, &vec![false, true], Some("/p")),
        (true, "/usr/local/bin/op".to_string())
    );
    assert_eq!(
        SecretCli::OnePassword.choose_client(&candidates, &vec![false, false], Some("/p")),
        (true, "/p".to_string())
    );
    assert_eq!(
        SecretCli::OnePassword.choose_client(&candidates, &vec![false, false], None),
        (false, "op".to_string())
    );
}

fn detection() -> SecretCliDetection {
    SecretCliDetection {
        keepassxc_version: Some("2.7".to_string()),
        bitwarden_installed: true,
        bitwarden_cmd: "bw".to_string(),
        bitwarden_version: None,
        bitwarden_status: Some(bitwarden_status_for(Some("unlocked"))),
        onepassword_installed: false,
        onepassword_cmd: "op".to_string(),
        onepassword_version: None,
        onepassword_status: None,
        passbolt_installed: true,
        passbolt_version: None,
        passbolt_status: Some(check_passbolt_status(None)),
        passbolt_server_url: None,
        pass_version: None,
        pass_status: None,
        secret_tool_available: true,
        system_keyring_availability: BackendAvailability::ServiceUnavailable,
    }
}

fn local() -> LocalBackendState {
    LocalBackendState::from_settings(true, Some("/db.kdbx".to_string()), true, &None)
}

#[test]
fn a_label_says_what_the_verdict_is_before_it_is_translated() {
    let shown = |r: BackendReadiness| {
        let m = r.label_message();
        (m.msgid, m.args)
    };
    assert_eq!(shown(BackendReadiness::Ready(None)), ("Ready", vec![]));
    assert_eq!(shown(BackendReadiness::NotInstalled), ("Not installed", vec![]));
    assert_eq!(shown(BackendReadiness::Unknown), ("Checking...", vec![]));
    assert_eq!(
        shown(BackendReadiness::Ready(Some(Message::plain("Unlocked")))),
        ("Unlocked", vec![])
    );
    assert_eq!(
        shown(BackendReadiness::NeedsAction(Message::with("Log in to {}", "Bitwarden"))),
        ("Log in to {}", vec!["Bitwarden".to_string()])
    );
}

#[test]
fn every_backend_gets_a_verdict() {
    let det = detection();
    let verdict = |backend| {
        let r = backend_readiness(Some(&det), backend, &local());
        (r.label(), r.css_class().to_string(), r.is_usable())
    };
    let ready = |label: &str| (label.to_string(), "success".to_string(), true);
    assert_eq!(verdict(SecretBackendType::Bitwarden), ready("Unlocked"));
    assert_eq!(verdict(SecretBackendType::EncryptedFile), ready("Ready"));
    assert_eq!(verdict(SecretBackendType::KdbxFile), ready("Ready"));
    assert_eq!(verdict(SecretBackendType::OnePassword).0, "Not installed");
    assert!(!verdict(SecretBackendType::OnePassword).2);
    assert_eq!(verdict(SecretBackendType::Passbolt).0, "Error checking status");
    assert_eq!(verdict(SecretBackendType::Passbolt).1, "warning");
    assert_eq!(verdict(SecretBackendType::LibSecret).0, "No keyring service responding");
    assert_eq!(
        verdict(SecretBackendType::PortableEncryptedFile).0,
        "Enter the file's passphrase below"
    );
    assert_eq!(backend_readiness(None, SecretBackendType::Pass, &local()).label(), "Checking...");
    assert!(backend_readiness(None, SecretBackendType::Pass, &local()).is_usable());
    let gone = LocalBackendState { kdbx_path_exists: false, ..local() };
    assert_eq!(
        backend_readiness(Some(&det), SecretBackendType::KeePassXc, &gone).label(),
        "Database file not found: /db.kdbx"
    );
    let unset = LocalBackendState { kdbx_path: None, ..local() };
    assert_eq!(
        backend_readiness(Some(&det), SecretBackendType::KeePassXc, &unset).label(),
        "Choose a database file below"
    );
    let off = LocalBackendState { kdbx_enabled: false, ..local() };
    assert_eq!(
        backend_readiness(Some(&det), SecretBackendType::KeePassXc, &off).label(),
        "Turn on KeePass integration below"
    );
    let detail = BackendReadiness::Ready(Some(Message::plain("Unlocked")));
    assert_eq!(detail.label(), "Unlocked");
}

#[test]
fn a_keyring_that_does_not_answer_has_no_secret() {
    let found = lookup_in_keyring(KeyringOutcome::Done(Some(SecretText::new("s"))));
    assert_eq!(found.unwrap().expose(), "s");
    assert!(lookup_in_keyring(KeyringOutcome::Done(None)).is_none());
    assert!(lookup_in_keyring(KeyringOutcome::TimedOut).is_none());
    assert!(lookup_in_keyring(KeyringOutcome::Failed).is_none());
    assert!(lookup_in_keyring(KeyringOutcome::NoRuntime).is_none());
    assert!(saved_to_keyring(&KeyringOutcome::Done(())));
    assert!(!saved_to_keyring(&KeyringOutcome::TimedOut));
    assert!(delete_from_keyring(&KeyringOutcome::Done(())));
    assert!(!delete_from_keyring(&KeyringOutcome::Failed));
    assert_eq!(KeyringEntry::KdbxPassword.label(), "kdbx-password");
}

fn looked_at(client: &CliClient) -> (bool, &str, Option<&str>, Option<String>) {
    (
        client.installed,
        client.cmd.as_str(),
        client.version.as_deref(),
        client.status.as_ref().map(|s| s.text.render()),
    )
}

#[test]
fn a_client_that_is_not_installed_has_no_status() {
    let locked = output(true, "{\"status\":\"locked\"}", "");
    let version = || Some("1.2".to_string());
    let there = |cmd: &str| (true, cmd.to_string());
    let gone = |cmd: &str| (false, cmd.to_string());
    assert_eq!(
        looked_at(&detect_bitwarden(there("/bw"), version(), Some(&locked))),
        (true, "/bw", Some("1.2"), Some("Locked".to_string()))
    );
    assert_eq!(
        looked_at(&detect_bitwarden(gone("bw"), version(), Some(&locked))),
        (false, "bw", None, None)
    );
    assert_eq!(
        looked_at(&detect_onepassword(there("op"), None, None)),
        (true, "op", None, Some("Error checking status".to_string()))
    );
    assert_eq!(looked_at(&detect_onepassword(gone("op"), version(), None)).3, None);
    let config = "{\"serverAddress\":\"https://p\"}";
    let passbolt = detect_passbolt(false, version(), None, Some(config));
    assert!(!passbolt.installed && passbolt.version.is_none() && passbolt.status.is_none());
    assert_eq!(passbolt.server_url.as_deref(), Some("https://p"));
    assert!(detect_passbolt(true, None, None, None).status.is_some());
    let (version, status) = detect_pass(Some(&output(true, "v1.7.4", "")), Some("/s"), true);
    assert_eq!(version.as_deref(), Some("1.7.4"));
    assert_eq!(status.unwrap().text.render(), "Initialized at /s");
    let (version, status) = detect_pass(None, Some("/s"), true);
    assert!(version.is_none() && status.is_none());
}

#[test]
fn a_look_that_broke_off_leaves_the_others_alone() {
    let locked = output(true, "{\"status\":\"locked\"}", "");
    let bw = detect_bitwarden((true, "/bw".to_string()), None, Some(&locked));
    let det = run_detection(None, Some(bw), None, None, None, None, None);
    assert!(det.bitwarden_installed);
    assert_eq!(det.bitwarden_cmd, "/bw");
    assert_eq!(det.bitwarden_status.unwrap().text.render(), "Locked");
    assert!(!det.onepassword_installed && !det.passbolt_installed && !det.secret_tool_available);
    assert_eq!(det.onepassword_cmd, "op");
    assert!(det.keepassxc_version.is_none() && det.pass_status.is_none());
    assert!(det.system_keyring_availability == BackendAvailability::ServiceUnavailable);
    let full = run_detection(
        Some(Some("2.7".to_string())),
        None,
        None,
        Some(detect_passbolt(true, None, None, None)),
        Some((Some("1".to_string()), None)),
        Some(true),
        Some(BackendAvailability::Available),
    );
    assert_eq!(full.keepassxc_version.as_deref(), Some("2.7"));
    assert_eq!(full.bitwarden_cmd, "bw");
    assert!(full.passbolt_installed && full.secret_tool_available);
    assert_eq!(full.pass_version.as_deref(), Some("1"));
    assert!(full.system_keyring_availability == BackendAvailability::Available);
}

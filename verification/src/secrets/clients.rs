//! What is learned of each client program, and all of it together.

use crate::i18n::MessageView;
use crate::secrets::detection::{bitwarden_answer, check_bitwarden_status, check_onepassword_status, check_passbolt_status, json_text_at, non_empty, onepassword_answer, pass_status, pass_store_status, pass_version, pass_version_of, passbolt_answer, passbolt_server_url, readiness_of, BackendAvailability, BackendStatus, LocalBackendState, ProbeOutput, SecretCli, SecretCliDetection, StatusLevel};
use crate::secrets::SecretBackendType;
use crate::text::{opt_str_view, opt_view};
use vstd::prelude::*;

verus! {

/// The view of an optional status line.
pub open spec fn status_line(s: Option<BackendStatus>) -> Option<(MessageView, StatusLevel)> {
    match s {
        Some(s) => Some(s@),
        None => None,
    }
}

/// What is learned of a client program.
pub struct CliClient {
    pub installed: bool,
    /// The command that starts it.
    pub cmd: String,
    pub version: Option<String>,
    pub status: Option<BackendStatus>,
}

/// What is learned of a client program.
pub struct CliClientView {
    pub installed: bool,
    pub cmd: Seq<char>,
    pub version: Option<Seq<char>>,
    pub status: Option<(MessageView, StatusLevel)>,
}

impl View for CliClient {
    type V = CliClientView;

    open spec fn view(&self) -> CliClientView {
        CliClientView {
            installed: self.installed,
            cmd: self.cmd@,
            version: opt_view(self.version),
            status: status_line(self.status),
        }
    }
}

/// A client that was looked for: one that is not installed has neither a version nor a status.
pub open spec fn client_of(
    installed: bool,
    cmd: Seq<char>,
    version: Option<Seq<char>>,
    answer: (MessageView, StatusLevel),
) -> CliClientView {
    CliClientView {
        installed,
        cmd,
        version: if installed {
            version
        } else {
            None
        },
        status: if installed {
            Some(answer)
        } else {
            None
        },
    }
}

/// Says what was learned of the Bitwarden client: `found` is the client that was chosen, `version`
/// what it calls itself, `answer` what `bw status` printed.
pub fn detect_bitwarden(
    found: (bool, String),
    version: Option<String>,
    answer: Option<&ProbeOutput>,
) -> (r: CliClient)
    ensures
        r@ == client_of(found.0, found.1@, opt_view(version), bitwarden_answer(answer)),
{
    if found.0 {
        CliClient {
            installed: true,
            cmd: found.1,
            version,
            status: Some(check_bitwarden_status(answer)),
        }
    } else {
        CliClient { installed: false, cmd: found.1, version: None, status: None }
    }
}

/// Says what was learned of the 1Password client: `found` is the client that was chosen, `version`
/// what it calls itself, `answer` what `op whoami` printed.
pub fn detect_onepassword(
    found: (bool, String),
    version: Option<String>,
    answer: Option<&ProbeOutput>,
) -> (r: CliClient)
    ensures
        r@ == client_of(found.0, found.1@, opt_view(version), onepassword_answer(answer)),
{
    if found.0 {
        CliClient {
            installed: true,
            cmd: found.1,
            version,
            status: Some(check_onepassword_status(answer)),
        }
    } else {
        CliClient { installed: false, cmd: found.1, version: None, status: None }
    }
}

/// What is learned of the Passbolt client.
pub struct PassboltClient {
    pub installed: bool,
    pub version: Option<String>,
    pub status: Option<BackendStatus>,
    pub server_url: Option<String>,
}

/// The server that a Passbolt configuration names, `None` where there is no configuration.
pub open spec fn configured_server(config: Option<Seq<char>>) -> Option<Seq<char>> {
    match config {
        Some(c) => non_empty(json_text_at(c, "serverAddress"@)),
        None => None,
    }
}

/// Says what was learned of the Passbolt client. The server is read from the configuration, whether
/// or not the client is installed.
pub fn detect_passbolt(
    installed: bool,
    version: Option<String>,
    answer: Option<&ProbeOutput>,
    config: Option<&str>,
) -> (r: PassboltClient)
    ensures
        r.installed == installed,
        opt_view(r.version) == (if installed {
            opt_view(version)
        } else {
            None
        }),
        status_line(r.status) == (if installed {
            Some(passbolt_answer(answer))
        } else {
            None
        }),
        opt_view(r.server_url) == configured_server(opt_str_view(config)),
{
    let server_url = match config {
        Some(c) => passbolt_server_url(c),
        None => None,
    };
    if installed {
        PassboltClient {
            installed,
            version,
            status: Some(check_passbolt_status(answer)),
            server_url,
        }
    } else {
        PassboltClient { installed, version: None, status: None, server_url }
    }
}

/// Says what was learned of `pass`: its version, and the state of its store where it has one.
pub fn detect_pass(
    version_output: Option<&ProbeOutput>,
    store: Option<&str>,
    initialized: bool,
) -> (r: (Option<String>, Option<BackendStatus>))
    ensures
        opt_view(r.0) == pass_version_of(version_output),
        status_line(r.1) == (if pass_version_of(version_output) is Some {
            Some(pass_store_status(opt_str_view(store), initialized))
        } else {
            None
        }),
{
    let version = pass_version(version_output);
    let status = pass_status(&version, store, initialized);
    (version, status)
}

/// What a look at a client that broke off counts as: the client is not installed.
pub open spec fn not_installed(cli: SecretCli) -> CliClientView {
    CliClientView { installed: false, cmd: cli.program(), version: None, status: None }
}

/// The client that was looked for, or none where the look broke off.
pub open spec fn client_or_none(client: Option<CliClient>, cli: SecretCli) -> CliClientView {
    match client {
        Some(c) => c@,
        None => not_installed(cli),
    }
}

fn client_or_default(client: Option<CliClient>, cli: SecretCli) -> (r: CliClient)
    ensures
        r@ == client_or_none(client, cli),
{
    match client {
        Some(c) => c,
        None => CliClient {
            installed: false,
            cmd: cli.name().to_owned(),
            version: None,
            status: None,
        },
    }
}

/// Puts together what the looks at all backends learned. Each is `None` where it broke off, and then
/// counts as not installed; the others keep what they learned.
pub fn run_detection(
    keepassxc: Option<Option<String>>,
    bitwarden: Option<CliClient>,
    onepassword: Option<CliClient>,
    passbolt: Option<PassboltClient>,
    pass: Option<(Option<String>, Option<BackendStatus>)>,
    secret_tool: Option<bool>,
    keyring: Option<BackendAvailability>,
) -> (r: SecretCliDetection)
    ensures
        opt_view(r.keepassxc_version) == (match keepassxc {
            Some(version) => opt_view(version),
            None => None,
        }),
        (CliClientView {
            installed: r.bitwarden_installed,
            cmd: r.bitwarden_cmd@,
            version: opt_view(r.bitwarden_version),
            status: status_line(r.bitwarden_status),
        }) == client_or_none(bitwarden, SecretCli::Bitwarden),
        (CliClientView {
            installed: r.onepassword_installed,
            cmd: r.onepassword_cmd@,
            version: opt_view(r.onepassword_version),
            status: status_line(r.onepassword_status),
        }) == client_or_none(onepassword, SecretCli::OnePassword),
        r.passbolt_installed == (passbolt matches Some(p) && p.installed),
        opt_view(r.passbolt_version) == (match passbolt {
            Some(p) => opt_view(p.version),
            None => None,
        }),
        status_line(r.passbolt_status) == (match passbolt {
            Some(p) => status_line(p.status),
            None => None,
        }),
        opt_view(r.passbolt_server_url) == (match passbolt {
            Some(p) => opt_view(p.server_url),
            None => None,
        }),
        opt_view(r.pass_version) == (match pass {
            Some(p) => opt_view(p.0),
            None => None,
        }),
        status_line(r.pass_status) == (match pass {
            Some(p) => status_line(p.1),
            None => None,
        }),
        r.secret_tool_available == (secret_tool == Some(true)),
        r.system_keyring_availability == (match keyring {
            Some(a) => a,
            None => BackendAvailability::ServiceUnavailable,
        }),
{
    let keepassxc_version = match keepassxc {
        Some(version) => version,
        None => None,
    };
    let bw = client_or_default(bitwarden, SecretCli::Bitwarden);
    let op = client_or_default(onepassword, SecretCli::OnePassword);
    let pb = match passbolt {
        Some(p) => p,
        None => PassboltClient { installed: false, version: None, status: None, server_url: None },
    };
    let (pass_version, pass_status) = match pass {
        Some(p) => p,
        None => (None, None),
    };
    let secret_tool_available = match secret_tool {
        Some(available) => available,
        None => false,
    };
    let system_keyring_availability = match keyring {
        Some(a) => a,
        None => BackendAvailability::ServiceUnavailable,
    };
    SecretCliDetection {
        keepassxc_version,
        bitwarden_installed: bw.installed,
        bitwarden_cmd: bw.cmd,
        bitwarden_version: bw.version,
        bitwarden_status: bw.status,
        onepassword_installed: op.installed,
        onepassword_cmd: op.cmd,
        onepassword_version: op.version,
        onepassword_status: op.status,
        passbolt_installed: pb.installed,
        passbolt_version: pb.version,
        passbolt_status: pb.status,
        passbolt_server_url: pb.server_url,
        pass_version,
        pass_status,
        secret_tool_available,
        system_keyring_availability,
    }
}

/// A client whose look broke off, or which is not installed, makes its backend read as not installed,
/// whatever was learned of the others.
pub proof fn law_absent_client_reads_as_not_installed(
    det: SecretCliDetection,
    local: LocalBackendState,
    version: Option<Seq<char>>,
    answer: (MessageView, StatusLevel),
)
    ensures
        status_line(det.bitwarden_status) == not_installed(SecretCli::Bitwarden).status
            ==> readiness_of(det, SecretBackendType::Bitwarden, local) is NotInstalled,
        status_line(det.onepassword_status) == not_installed(SecretCli::OnePassword).status
            ==> readiness_of(det, SecretBackendType::OnePassword, local) is NotInstalled,
        status_line(det.bitwarden_status) == client_of(
            false,
            det.bitwarden_cmd@,
            version,
            answer,
        ).status ==> readiness_of(det, SecretBackendType::Bitwarden, local) is NotInstalled,
        status_line(det.onepassword_status) == client_of(
            false,
            det.onepassword_cmd@,
            version,
            answer,
        ).status ==> readiness_of(det, SecretBackendType::OnePassword, local) is NotInstalled,
{
}

/// A client that is installed keeps its command, its version and the status that its answer means;
/// one that is not has neither version nor status.
pub proof fn law_installed_client_keeps_what_it_said(
    found: (bool, String),
    version: Option<String>,
    answer: Option<&ProbeOutput>,
    bw: CliClient,
    bw_status: BackendStatus,
    op: CliClient,
    op_status: BackendStatus,
)
    requires
        call_ensures(detect_bitwarden, (found, version, answer), bw),
        call_ensures(check_bitwarden_status, (answer,), bw_status),
        call_ensures(detect_onepassword, (found, version, answer), op),
        call_ensures(check_onepassword_status, (answer,), op_status),
    ensures
        bw.installed <==> found.0,
        op.installed <==> found.0,
        bw.cmd@ == found.1@,
        op.cmd@ == found.1@,
        found.0 ==> opt_view(bw.version) == opt_view(version) && opt_view(op.version) == opt_view(
            version,
        ),
        found.0 ==> (bw.status matches Some(s) && s@ == bw_status@),
        found.0 ==> (op.status matches Some(s) && s@ == op_status@),
        !found.0 ==> bw.version is None && bw.status is None,
        !found.0 ==> op.version is None && op.status is None,
{
    assert(bw@.status == status_line(bw.status));
    assert(op@.status == status_line(op.status));
    assert(bw@.version == opt_view(bw.version));
    assert(op@.version == opt_view(op.version));
}

/// The Passbolt client keeps its version and its status exactly where it is installed; its server is
/// read wherever there is a configuration.
pub proof fn law_passbolt_keeps_its_server(
    installed: bool,
    version: Option<String>,
    answer: Option<&ProbeOutput>,
    config: Option<&str>,
    r: PassboltClient,
    status: BackendStatus,
)
    requires
        call_ensures(detect_passbolt, (installed, version, answer, config), r),
        call_ensures(check_passbolt_status, (answer,), status),
    ensures
        r.installed <==> installed,
        installed ==> (r.status matches Some(s) && s@ == status@) && opt_view(r.version) == opt_view(
            version,
        ),
        !installed ==> r.status is None && r.version is None,
        config is None ==> r.server_url is None,
        config matches Some(c) ==> opt_view(r.server_url) == (match json_text_at(
            c@,
            "serverAddress"@,
        ) {
            Some(url) => if url.len() > 0 {
                Some(url)
            } else {
                None
            },
            None => None,
        }),
{
}

/// `pass` has a status exactly where it has a version.
pub proof fn law_pass_without_a_version_has_no_status(
    output: Option<&ProbeOutput>,
    store: Option<&str>,
    initialized: bool,
    r: (Option<String>, Option<BackendStatus>),
    version: Option<String>,
)
    requires
        call_ensures(detect_pass, (output, store, initialized), r),
        call_ensures(pass_version, (output,), version),
    ensures
        opt_view(r.0) == opt_view(version),
        r.0 is Some <==> r.1 is Some,
        r.1 matches Some(s) ==> (s.level == StatusLevel::Success <==> store is Some && initialized),
{
    assert(status_line(r.1) is Some <==> r.1 is Some);
    assert(opt_view(r.0) is Some <==> r.0 is Some);
}

/// Each look keeps what it learned, whatever became of the others; one that broke off counts as not
/// installed, and a keyring that did not answer as out of service.
pub proof fn law_each_look_counts_by_itself(
    keepassxc: Option<Option<String>>,
    bitwarden: Option<CliClient>,
    onepassword: Option<CliClient>,
    passbolt: Option<PassboltClient>,
    pass: Option<(Option<String>, Option<BackendStatus>)>,
    secret_tool: Option<bool>,
    keyring: Option<BackendAvailability>,
    r: SecretCliDetection,
)
    requires
        call_ensures(
            run_detection,
            (keepassxc, bitwarden, onepassword, passbolt, pass, secret_tool, keyring),
            r,
        ),
    ensures
        keepassxc matches Some(version) ==> opt_view(r.keepassxc_version) == opt_view(version),
        keepassxc is None ==> r.keepassxc_version is None,
        bitwarden matches Some(c) ==> r.bitwarden_installed == c.installed && r.bitwarden_cmd@
            == c.cmd@ && opt_view(r.bitwarden_version) == opt_view(c.version) && status_line(
            r.bitwarden_status,
        ) == status_line(c.status),
        bitwarden is None ==> !r.bitwarden_installed && r.bitwarden_cmd@ == "bw"@
            && r.bitwarden_version is None && r.bitwarden_status is None,
        onepassword matches Some(c) ==> r.onepassword_installed == c.installed && r.onepassword_cmd@
            == c.cmd@ && opt_view(r.onepassword_version) == opt_view(c.version) && status_line(
            r.onepassword_status,
        ) == status_line(c.status),
        onepassword is None ==> !r.onepassword_installed && r.onepassword_cmd@ == "op"@
            && r.onepassword_version is None && r.onepassword_status is None,
        passbolt matches Some(p) ==> r.passbolt_installed == p.installed && opt_view(
            r.passbolt_version,
        ) == opt_view(p.version) && status_line(r.passbolt_status) == status_line(p.status)
            && opt_view(r.passbolt_server_url) == opt_view(p.server_url),
        passbolt is None ==> !r.passbolt_installed && r.passbolt_status is None,
        pass matches Some(p) ==> opt_view(r.pass_version) == opt_view(p.0) && status_line(
            r.pass_status,
        ) == status_line(p.1),
        pass is None ==> r.pass_version is None && r.pass_status is None,
        r.secret_tool_available <==> secret_tool == Some(true),
        keyring matches Some(a) ==> r.system_keyring_availability == a,
        keyring is None ==> r.system_keyring_availability == BackendAvailability::ServiceUnavailable,
{
    assert(opt_view(r.keepassxc_version) is Some <==> r.keepassxc_version is Some);
    assert(opt_view(r.bitwarden_version) is Some <==> r.bitwarden_version is Some);
    assert(status_line(r.bitwarden_status) is Some <==> r.bitwarden_status is Some);
    assert(opt_view(r.onepassword_version) is Some <==> r.onepassword_version is Some);
    assert(status_line(r.onepassword_status) is Some <==> r.onepassword_status is Some);
}

} // verus!

//! Which secret backends can be used.
//!
//! The program runs the command-line clients; what their output means is decided here.

use crate::i18n::{is_said, plain, with_args, Message, MessageView};
use crate::secrets::SecretBackendType;
use crate::text::{self, before_char, found, last_index, lines_of, opt_str_view, opt_view, trimmed, views, without_leading, without_trailing, words_of};
use vstd::prelude::*;

verus! {

/// The text that a field of a JSON object holds, if the document is an object with such a field.
pub uninterp spec fn json_text_at(document: Seq<char>, field: Seq<char>) -> Option<Seq<char>>;

/// Reads a text field of a JSON document.
///
/// Trusted: `serde_json::from_str` into a `serde_json::Value`, then `Value::get` and
/// `Value::as_str`. The result is a function of the document and the field's name, which is all
/// that is claimed of it.
#[verifier::external_body]
fn json_string_field(document: &str, field: &str) -> (r: Option<String>)
    ensures
        opt_view(r) == json_text_at(document@, field@),
{
    let value: serde_json::Value = serde_json::from_str(document).ok()?;
    value.get(field)?.as_str().map(String::from)
}

/// What a status line says about a backend.
#[derive(Clone, Copy, Debug, PartialEq, Eq, Structural)]
pub enum StatusLevel {
    Success,
    Warning,
    Error,
    Dim,
}

impl StatusLevel {
    /// The css class of the level.
    pub open spec fn css(self) -> Seq<char> {
        match self {
            StatusLevel::Success => "success"@,
            StatusLevel::Warning => "warning"@,
            StatusLevel::Error => "error"@,
            StatusLevel::Dim => "dim-label"@,
        }
    }

    /// The css class of the level.
    pub fn css_class(self) -> (r: &'static str)
        ensures
            r@ == self.css(),
    {
        match self {
            StatusLevel::Success => "success",
            StatusLevel::Warning => "warning",
            StatusLevel::Error => "error",
            StatusLevel::Dim => "dim-label",
        }
    }
}

/// A status line with its level.
pub struct BackendStatus {
    pub text: Message,
    pub level: StatusLevel,
}

/// What a [`BackendStatus`] says.
pub open spec fn status(text: MessageView, level: StatusLevel) -> (MessageView, StatusLevel) {
    (text, level)
}

impl View for BackendStatus {
    type V = (MessageView, StatusLevel);

    open spec fn view(&self) -> (MessageView, StatusLevel) {
        (self.text@, self.level)
    }
}

/// How the keyring of the platform answers.
#[derive(Clone, Copy, Debug, PartialEq, Eq, Structural)]
pub enum BackendAvailability {
    Available,
    ServiceUnavailable,
    ClientMissing,
}

/// What a command-line client printed.
pub struct ProbeOutput {
    pub success: bool,
    pub stdout: String,
    pub stderr: String,
}

/// Results of looking for all secret backends.
pub struct SecretCliDetection {
    pub keepassxc_version: Option<String>,
    pub bitwarden_installed: bool,
    pub bitwarden_cmd: String,
    pub bitwarden_version: Option<String>,
    pub bitwarden_status: Option<BackendStatus>,
    pub onepassword_installed: bool,
    pub onepassword_cmd: String,
    pub onepassword_version: Option<String>,
    pub onepassword_status: Option<BackendStatus>,
    pub passbolt_installed: bool,
    pub passbolt_version: Option<String>,
    pub passbolt_status: Option<BackendStatus>,
    pub passbolt_server_url: Option<String>,
    pub pass_version: Option<String>,
    pub pass_status: Option<BackendStatus>,
    pub secret_tool_available: bool,
    pub system_keyring_availability: BackendAvailability,
}

/// Whether the selected backend can store and read a password.
pub enum BackendReadiness {
    /// Usable right now, with a detail where the probe learned one.
    Ready(Option<Message>),
    /// The client is there, but something has to happen first.
    NeedsAction(Message),
    /// The client program is not installed.
    NotInstalled,
    /// Detection has not finished.
    Unknown,
}

/// What a [`BackendReadiness`] says.
pub enum ReadinessView {
    Ready(Option<MessageView>),
    NeedsAction(MessageView),
    NotInstalled,
    Unknown,
}

impl View for BackendReadiness {
    type V = ReadinessView;

    open spec fn view(&self) -> ReadinessView {
        match self {
            BackendReadiness::Ready(Some(m)) => ReadinessView::Ready(Some(m@)),
            BackendReadiness::Ready(None) => ReadinessView::Ready(None),
            BackendReadiness::NeedsAction(m) => ReadinessView::NeedsAction(m@),
            BackendReadiness::NotInstalled => ReadinessView::NotInstalled,
            BackendReadiness::Unknown => ReadinessView::Unknown,
        }
    }
}

impl BackendReadiness {
    /// The line to show, before it is translated.
    pub open spec fn line(&self) -> MessageView {
        match self {
            BackendReadiness::Ready(Some(m)) => m@,
            BackendReadiness::Ready(None) => plain("Ready"@),
            BackendReadiness::NeedsAction(m) => m@,
            BackendReadiness::NotInstalled => plain("Not installed"@),
            BackendReadiness::Unknown => plain("Checking..."@),
        }
    }

    /// Whether gettext takes the detail.
    pub open spec fn renderable(&self) -> bool {
        match self {
            BackendReadiness::Ready(Some(m)) => m.renderable(),
            BackendReadiness::NeedsAction(m) => m.renderable(),
            _ => true,
        }
    }

    /// The line to show the user, before it is translated.
    pub fn label_message(&self) -> (r: Message)
        requires
            self.renderable(),
        ensures
            r@ == self.line(),
            r.renderable(),
    {
        proof {
            reveal_strlit("Ready");
            reveal_strlit("Not installed");
            reveal_strlit("Checking...");
        }
        match self {
            BackendReadiness::Ready(Some(m)) => m.copy(),
            BackendReadiness::Ready(None) => Message::plain("Ready"),
            BackendReadiness::NeedsAction(m) => m.copy(),
            BackendReadiness::NotInstalled => Message::plain("Not installed"),
            BackendReadiness::Unknown => Message::plain("Checking..."),
        }
    }

    /// The line to show the user, in the current locale.
    pub fn label(&self) -> (r: String)
        requires
            self.renderable(),
        ensures
            is_said(r@, self.line()),
    {
        self.label_message().render()
    }

    /// The css class to render this verdict with.
    pub fn css_class(&self) -> (r: &'static str)
        ensures
            r@ == (match self {
                BackendReadiness::Ready(_) => "success"@,
                BackendReadiness::NeedsAction(_) => "warning"@,
                BackendReadiness::NotInstalled => "error"@,
                BackendReadiness::Unknown => "dim-label"@,
            }),
    {
        match self {
            BackendReadiness::Ready(_) => "success",
            BackendReadiness::NeedsAction(_) => "warning",
            BackendReadiness::NotInstalled => "error",
            BackendReadiness::Unknown => "dim-label",
        }
    }

    /// Whether saving a password can be expected to work. An unfinished probe is no evidence of a
    /// problem.
    pub fn is_usable(&self) -> (r: bool)
        ensures
            r == (self is Ready || self is Unknown),
    {
        match self {
            BackendReadiness::Ready(_) => true,
            BackendReadiness::Unknown => true,
            _ => false,
        }
    }
}

/// The parts of a backend's readiness that no probe can see.
pub struct LocalBackendState {
    /// Whether KeePass integration is on.
    pub kdbx_enabled: bool,
    /// The database file.
    pub kdbx_path: Option<String>,
    /// Whether that file exists.
    pub kdbx_path_exists: bool,
    /// Whether a passphrase for the portable file has been entered.
    pub portable_passphrase_entered: bool,
}

impl LocalBackendState {
    /// Reads the state out of saved settings.
    pub fn from_settings(
        kdbx_enabled: bool,
        kdbx_path: Option<String>,
        kdbx_path_exists: bool,
        portable_passphrase: &Option<String>,
    ) -> (r: Self)
        ensures
            r.kdbx_enabled == kdbx_enabled,
            r.kdbx_path == kdbx_path,
            r.kdbx_path_exists == kdbx_path_exists,
            r.portable_passphrase_entered == (portable_passphrase is Some),
    {
        LocalBackendState {
            kdbx_enabled,
            kdbx_path,
            kdbx_path_exists,
            portable_passphrase_entered: portable_passphrase.is_some(),
        }
    }
}

/// The verdict that a status line carries: its level already says whether the backend works.
pub open spec fn readiness_of_status(s: Option<BackendStatus>) -> ReadinessView {
    match s {
        Some(st) => if st.level == StatusLevel::Success {
            ReadinessView::Ready(Some(st.text@))
        } else {
            ReadinessView::NeedsAction(st.text@)
        },
        None => ReadinessView::NotInstalled,
    }
}

/// The verdict on a KeePass database: the client, then the switch, then the file.
pub open spec fn kdbx_readiness(version: Option<String>, local: LocalBackendState) -> ReadinessView {
    if version is None {
        ReadinessView::NotInstalled
    } else if !local.kdbx_enabled {
        ReadinessView::NeedsAction(plain("Turn on KeePass integration below"@))
    } else {
        match local.kdbx_path {
            None => ReadinessView::NeedsAction(plain("Choose a database file below"@)),
            Some(path) => if local.kdbx_path_exists {
                ReadinessView::Ready(None)
            } else {
                ReadinessView::NeedsAction(with_args("Database file not found: {}"@, seq![path@]))
            },
        }
    }
}

/// The verdict on each backend.
pub open spec fn readiness_of(
    det: SecretCliDetection,
    backend: SecretBackendType,
    local: LocalBackendState,
) -> ReadinessView {
    match backend {
        SecretBackendType::Bitwarden => readiness_of_status(det.bitwarden_status),
        SecretBackendType::OnePassword => readiness_of_status(det.onepassword_status),
        SecretBackendType::Passbolt => readiness_of_status(det.passbolt_status),
        SecretBackendType::Pass => readiness_of_status(det.pass_status),
        SecretBackendType::LibSecret
        | SecretBackendType::MacOsKeychain => match det.system_keyring_availability {
            BackendAvailability::Available => ReadinessView::Ready(None),
            BackendAvailability::ServiceUnavailable => ReadinessView::NeedsAction(
                plain("No keyring service responding"@),
            ),
            BackendAvailability::ClientMissing => ReadinessView::NotInstalled,
        },
        SecretBackendType::KeePassXc
        | SecretBackendType::KdbxFile => kdbx_readiness(det.keepassxc_version, local),
        SecretBackendType::EncryptedFile => ReadinessView::Ready(None),
        SecretBackendType::PortableEncryptedFile => if local.portable_passphrase_entered {
            ReadinessView::Ready(None)
        } else {
            ReadinessView::NeedsAction(plain("Enter the file's passphrase below"@))
        },
    }
}

fn from_status(s: &Option<BackendStatus>) -> (r: BackendReadiness)
    ensures
        r@ == readiness_of_status(*s),
{
    match s {
        Some(st) => {
            let text = st.text.copy();
            if st.level == StatusLevel::Success {
                BackendReadiness::Ready(Some(text))
            } else {
                BackendReadiness::NeedsAction(text)
            }
        },
        None => BackendReadiness::NotInstalled,
    }
}

/// Renders the readiness of a backend from a finished detection, `None` while it still runs.
pub fn backend_readiness(
    detection: Option<&SecretCliDetection>,
    backend: SecretBackendType,
    local: &LocalBackendState,
) -> (r: BackendReadiness)
    ensures
        r@ == (match detection {
            Some(det) => readiness_of(*det, backend, *local),
            None => ReadinessView::Unknown,
        }),
{
    let det = match detection {
        Some(det) => det,
        None => return BackendReadiness::Unknown,
    };
    match backend {
        SecretBackendType::Bitwarden => from_status(&det.bitwarden_status),
        SecretBackendType::OnePassword => from_status(&det.onepassword_status),
        SecretBackendType::Passbolt => from_status(&det.passbolt_status),
        SecretBackendType::Pass => from_status(&det.pass_status),
        SecretBackendType::LibSecret
        | SecretBackendType::MacOsKeychain => match det.system_keyring_availability {
            BackendAvailability::Available => BackendReadiness::Ready(None),
            BackendAvailability::ServiceUnavailable => BackendReadiness::NeedsAction(
                Message::plain("No keyring service responding"),
            ),
            BackendAvailability::ClientMissing => BackendReadiness::NotInstalled,
        },
        SecretBackendType::KeePassXc | SecretBackendType::KdbxFile => {
            if det.keepassxc_version.is_none() {
                return BackendReadiness::NotInstalled;
            }
            if !local.kdbx_enabled {
                return BackendReadiness::NeedsAction(
                    Message::plain("Turn on KeePass integration below"),
                );
            }
            match &local.kdbx_path {
                None => BackendReadiness::NeedsAction(
                    Message::plain("Choose a database file below"),
                ),
                Some(path) => {
                    if local.kdbx_path_exists {
                        BackendReadiness::Ready(None)
                    } else {
                        BackendReadiness::NeedsAction(
                            Message::with("Database file not found: {}", path),
                        )
                    }
                },
            }
        },
        SecretBackendType::EncryptedFile => BackendReadiness::Ready(None),
        SecretBackendType::PortableEncryptedFile => {
            if local.portable_passphrase_entered {
                BackendReadiness::Ready(None)
            } else {
                BackendReadiness::NeedsAction(Message::plain("Enter the file's passphrase below"))
            }
        },
    }
}

/// The line names the state, so that its color alone never has to: verdicts without a detail of their
/// own have a line each.
pub proof fn law_label_names_the_state()
    ensures
        BackendReadiness::Ready(None).line() != BackendReadiness::NotInstalled.line(),
        BackendReadiness::Ready(None).line() != BackendReadiness::Unknown.line(),
        BackendReadiness::NotInstalled.line() != BackendReadiness::Unknown.line(),
{
    reveal_strlit("Ready");
    reveal_strlit("Not installed");
    reveal_strlit("Checking...");
    assert("Ready"@.len() != "Not installed"@.len());
    assert("Ready"@.len() != "Checking..."@.len());
    assert("Not installed"@.len() != "Checking..."@.len());
}

/// Every backend gets a verdict once detection has finished.
pub proof fn law_finished_detection_gives_a_verdict(
    det: SecretCliDetection,
    backend: SecretBackendType,
    local: LocalBackendState,
)
    ensures
        !(readiness_of(det, backend, local) is Unknown),
{
}

/// Time for which a detection is reused, in milliseconds.
pub const DETECTION_CACHE_TTL_MS: u64 = 30_000;

/// Time limit of one probe, in seconds.
pub const PROBE_TIMEOUT_SECONDS: u64 = 5;

/// Whether a detection made `elapsed_ms` ago for one `pass` store can be reused for another.
pub fn detection_is_fresh(elapsed_ms: u64, probed_store: Option<&str>, wanted_store: Option<&str>) -> (r:
    bool)
    ensures
        r == (elapsed_ms < DETECTION_CACHE_TTL_MS && opt_str_view(probed_store) == opt_str_view(
            wanted_store,
        )),
{
    let same_store = match (probed_store, wanted_store) {
        (Some(a), Some(b)) => text::same(a, b),
        (None, None) => true,
        _ => false,
    };
    elapsed_ms < DETECTION_CACHE_TTL_MS && same_store
}

/// A command-line client of a backend.
#[derive(Clone, Copy, Debug, PartialEq, Eq, Structural)]
pub enum SecretCli {
    Bitwarden,
    OnePassword,
    Passbolt,
}

impl SecretCli {
    /// The name of the program.
    pub open spec fn program(self) -> Seq<char> {
        match self {
            SecretCli::Bitwarden => "bw"@,
            SecretCli::OnePassword => "op"@,
            SecretCli::Passbolt => "passbolt"@,
        }
    }

    /// Where it may stand outside a sandbox.
    pub open spec fn system_paths(self) -> Seq<Seq<char>> {
        match self {
            SecretCli::Bitwarden => seq!["/snap/bin/bw"@, "/usr/local/bin/bw"@],
            SecretCli::OnePassword => seq!["/usr/local/bin/op"@],
            SecretCli::Passbolt => seq!["/usr/local/bin/passbolt"@],
        }
    }

    /// Where it is looked for, in order: on the path, in the usual places unless in a sandbox, and
    /// where it was downloaded to.
    pub open spec fn candidate_paths(self, flatpak: bool, downloaded: Option<Seq<char>>) -> Seq<
        Seq<char>,
    > {
        seq![self.program()] + (if flatpak {
            Seq::empty()
        } else {
            self.system_paths()
        }) + (match downloaded {
            Some(path) => seq![path],
            None => Seq::empty(),
        })
    }

    /// Lists where the client is looked for. `downloaded` is the downloaded one, if it exists.
    pub fn candidates(self, flatpak: bool, downloaded: Option<&str>) -> (r: Vec<String>)
        ensures
            views(r@) == self.candidate_paths(flatpak, opt_str_view(downloaded)),
    {
        let mut v: Vec<String> = Vec::new();
        text::push_string(&mut v, self.name().to_owned());
        assert(views(v@) =~= seq![self.program()]);
        if !flatpak {
            match self {
                SecretCli::Bitwarden => {
                    text::push_string(&mut v, "/snap/bin/bw".to_owned());
                    text::push_string(&mut v, "/usr/local/bin/bw".to_owned());
                },
                SecretCli::OnePassword => {
                    text::push_string(&mut v, "/usr/local/bin/op".to_owned());
                },
                SecretCli::Passbolt => {
                    text::push_string(&mut v, "/usr/local/bin/passbolt".to_owned());
                },
            }
        }
        let ghost before = views(v@);
        assert(before =~= seq![self.program()] + (if flatpak {
            Seq::empty()
        } else {
            self.system_paths()
        }));
        if let Some(path) = downloaded {
            text::push_string(&mut v, path.to_owned());
        }
        assert(views(v@) =~= self.candidate_paths(flatpak, opt_str_view(downloaded)));
        v
    }

    /// The name of the program.
    pub fn name(self) -> (r: &'static str)
        ensures
            r@ == self.program(),
    {
        match self {
            SecretCli::Bitwarden => "bw",
            SecretCli::OnePassword => "op",
            SecretCli::Passbolt => "passbolt",
        }
    }

    /// Chooses the client to use: the first candidate that answered, else the one on the path.
    ///
    /// Returns whether there is one, and its command, which is the program's name where there is
    /// none.
    pub fn choose_client(
        self,
        candidates: &Vec<String>,
        answered: &Vec<bool>,
        in_path: Option<&str>,
    ) -> (r: (bool, String))
        requires
            candidates@.len() == answered@.len(),
        ensures
            (r.0, r.1@) == chosen_client(
                self.program(),
                views(candidates@),
                answered@,
                opt_str_view(in_path),
            ),
    {
        let ghost all = views(candidates@);
        let mut i: usize = 0;
        assert(all.skip(0) =~= all);
        assert(answered@.skip(0) =~= answered@);
        while i < candidates.len()
            invariant
                i <= candidates@.len() == answered@.len(),
                all == views(candidates@),
                chosen_client(self.program(), all, answered@, opt_str_view(in_path))
                    == chosen_client(
                    self.program(),
                    all.skip(i as int),
                    answered@.skip(i as int),
                    opt_str_view(in_path),
                ),
            decreases candidates@.len() - i,
        {
            assert(all.skip(i as int)[0] == candidates@[i as int]@);
            assert(answered@.skip(i as int)[0] == answered@[i as int]);
            if answered[i] {
                return (true, candidates[i].clone());
            }
            assert(all.skip(i as int).drop_first() =~= all.skip(i + 1));
            assert(answered@.skip(i as int).drop_first() =~= answered@.skip(i + 1));
            i += 1;
        }
        match in_path {
            Some(path) => (true, path.to_owned()),
            None => (false, self.name().to_owned()),
        }
    }
}

/// The client that is used: the first that answered, else the one on the path, else none.
pub open spec fn chosen_client(
    program: Seq<char>,
    candidates: Seq<Seq<char>>,
    answered: Seq<bool>,
    in_path: Option<Seq<char>>,
) -> (bool, Seq<char>)
    decreases candidates.len(),
{
    if candidates.len() == 0 {
        match in_path {
            Some(path) => (true, path),
            None => (false, program),
        }
    } else if answered[0] {
        (true, candidates[0])
    } else {
        chosen_client(program, candidates.drop_first(), answered.drop_first(), in_path)
    }
}

/// What the status field of `bw status` means.
pub open spec fn bitwarden_status_of(field: Option<Seq<char>>) -> (MessageView, StatusLevel) {
    match field {
        Some(v) => if v == "unlocked"@ {
            status(plain("Unlocked"@), StatusLevel::Success)
        } else if v == "locked"@ {
            status(plain("Locked"@), StatusLevel::Warning)
        } else if v == "unauthenticated"@ {
            status(plain("Not logged in"@), StatusLevel::Error)
        } else {
            status(with_args("Status: {}"@, seq![v]), StatusLevel::Dim)
        },
        None => status(plain("Unknown"@), StatusLevel::Dim),
    }
}

/// Says what the status field of `bw status` means.
pub fn bitwarden_status_for(field: Option<&str>) -> (r: BackendStatus)
    ensures
        r@ == bitwarden_status_of(opt_str_view(field)),
{
    match field {
        Some(v) => {
            if text::same(v, "unlocked") {
                BackendStatus { text: Message::plain("Unlocked"), level: StatusLevel::Success }
            } else if text::same(v, "locked") {
                BackendStatus { text: Message::plain("Locked"), level: StatusLevel::Warning }
            } else if text::same(v, "unauthenticated") {
                BackendStatus { text: Message::plain("Not logged in"), level: StatusLevel::Error }
            } else {
                BackendStatus { text: Message::with("Status: {}", v), level: StatusLevel::Dim }
            }
        },
        None => BackendStatus { text: Message::plain("Unknown"), level: StatusLevel::Dim },
    }
}

/// The line for a client that could not be asked.
pub open spec fn unanswered() -> (MessageView, StatusLevel) {
    status(plain("Error checking status"@), StatusLevel::Error)
}

/// What the answer of `bw status` means, `None` where it could not be run.
pub open spec fn bitwarden_answer(output: Option<&ProbeOutput>) -> (MessageView, StatusLevel) {
    match output {
        Some(o) => if o.success {
            bitwarden_status_of(json_text_at(o.stdout@, "status"@))
        } else {
            unanswered()
        },
        None => unanswered(),
    }
}

/// Reads what `bw status` printed, `None` where it could not be run.
pub fn check_bitwarden_status(output: Option<&ProbeOutput>) -> (r: BackendStatus)
    ensures
        r@ == bitwarden_answer(output),
{
    match output {
        Some(o) => {
            if o.success {
                match json_string_field(&o.stdout, "status") {
                    Some(v) => bitwarden_status_for(Some(v.as_str())),
                    None => bitwarden_status_for(None),
                }
            } else {
                BackendStatus {
                    text: Message::plain("Error checking status"),
                    level: StatusLevel::Error,
                }
            }
        },
        None => BackendStatus {
            text: Message::plain("Error checking status"),
            level: StatusLevel::Error,
        },
    }
}

/// What a successful `op whoami` means, by the account's email.
pub open spec fn onepassword_account_of(email: Option<Seq<char>>) -> (MessageView, StatusLevel) {
    match email {
        Some(e) => status(with_args("Signed in: {}"@, seq![e]), StatusLevel::Success),
        None => status(plain("Signed in"@), StatusLevel::Success),
    }
}

/// What a failed `op whoami` means, by what it complains of.
pub open spec fn onepassword_failure_of(stderr: Seq<char>) -> (MessageView, StatusLevel) {
    if found(stderr, "not signed in"@) is None && found(stderr, "sign in"@) is None && found(
        stderr,
        "session expired"@,
    ) is Some {
        status(plain("Session expired"@), StatusLevel::Warning)
    } else {
        status(plain("Not signed in"@), StatusLevel::Error)
    }
}

/// Says what a successful `op whoami` means.
pub fn onepassword_account(email: Option<&str>) -> (r: BackendStatus)
    ensures
        r@ == onepassword_account_of(opt_str_view(email)),
{
    match email {
        Some(e) => BackendStatus {
            text: Message::with("Signed in: {}", e),
            level: StatusLevel::Success,
        },
        None => BackendStatus { text: Message::plain("Signed in"), level: StatusLevel::Success },
    }
}

/// What the answer of `op whoami` means, `None` where it could not be run.
pub open spec fn onepassword_answer(output: Option<&ProbeOutput>) -> (MessageView, StatusLevel) {
    match output {
        Some(o) => if o.success {
            onepassword_account_of(json_text_at(o.stdout@, "email"@))
        } else {
            onepassword_failure_of(o.stderr@)
        },
        None => unanswered(),
    }
}

/// Reads what `op whoami` printed, `None` where it could not be run.
pub fn check_onepassword_status(output: Option<&ProbeOutput>) -> (r: BackendStatus)
    ensures
        r@ == onepassword_answer(output),
{
    match output {
        Some(o) => {
            if o.success {
                return match json_string_field(&o.stdout, "email") {
                    Some(e) => onepassword_account(Some(e.as_str())),
                    None => onepassword_account(None),
                };
            }
            if text::contains(&o.stderr, "not signed in") || text::contains(&o.stderr, "sign in") {
                BackendStatus { text: Message::plain("Not signed in"), level: StatusLevel::Error }
            } else if text::contains(&o.stderr, "session expired") {
                BackendStatus { text: Message::plain("Session expired"), level: StatusLevel::Warning }
            } else {
                BackendStatus { text: Message::plain("Not signed in"), level: StatusLevel::Error }
            }
        },
        None => BackendStatus {
            text: Message::plain("Error checking status"),
            level: StatusLevel::Error,
        },
    }
}

/// What a failed `passbolt list user` means, by what it complains of.
pub open spec fn passbolt_failure_of(stderr: Seq<char>) -> (MessageView, StatusLevel) {
    if found(stderr, "no configuration"@) is None && (found(stderr, "authentication"@) is Some
        || found(stderr, "passphrase"@) is Some) {
        status(plain("Authentication failed"@), StatusLevel::Warning)
    } else {
        status(plain("Not configured"@), StatusLevel::Error)
    }
}

/// What the answer of `passbolt list user` means, `None` where it could not be run.
pub open spec fn passbolt_answer(output: Option<&ProbeOutput>) -> (MessageView, StatusLevel) {
    match output {
        Some(o) => if o.success {
            status(plain("Configured"@), StatusLevel::Success)
        } else {
            passbolt_failure_of(o.stderr@)
        },
        None => unanswered(),
    }
}

/// Reads what `passbolt list user` printed, `None` where it could not be run.
pub fn check_passbolt_status(output: Option<&ProbeOutput>) -> (r: BackendStatus)
    ensures
        r@ == passbolt_answer(output),
{
    match output {
        Some(o) => {
            if o.success {
                BackendStatus { text: Message::plain("Configured"), level: StatusLevel::Success }
            } else if text::contains(&o.stderr, "no configuration") {
                BackendStatus { text: Message::plain("Not configured"), level: StatusLevel::Error }
            } else if text::contains(&o.stderr, "authentication") || text::contains(
                &o.stderr,
                "passphrase",
            ) {
                BackendStatus {
                    text: Message::plain("Authentication failed"),
                    level: StatusLevel::Warning,
                }
            } else {
                BackendStatus { text: Message::plain("Not configured"), level: StatusLevel::Error }
            }
        },
        None => BackendStatus {
            text: Message::plain("Error checking status"),
            level: StatusLevel::Error,
        },
    }
}

/// A server address that is not empty.
pub open spec fn non_empty(field: Option<Seq<char>>) -> Option<Seq<char>> {
    match field {
        Some(s) if s.len() > 0 => Some(s),
        _ => None,
    }
}

/// Takes a server address that is not empty.
pub fn server_address(field: Option<String>) -> (r: Option<String>)
    ensures
        opt_view(r) == non_empty(opt_view(field)),
{
    match field {
        Some(s) => {
            if s.as_str().is_empty() {
                None
            } else {
                Some(s)
            }
        },
        None => None,
    }
}

/// Reads the server address out of the Passbolt client's configuration.
pub fn passbolt_server_url(config: &str) -> (r: Option<String>)
    ensures
        opt_view(r) == non_empty(json_text_at(config@, "serverAddress"@)),
{
    server_address(json_string_field(config, "serverAddress"))
}

/// Whether a character is a decimal digit.
pub open spec fn is_digit(c: char) -> bool {
    '0' <= c <= '9'
}

/// Whether a line can hold a version: it has a `v` and a digit somewhere.
pub open spec fn may_hold_version(line: Seq<char>) -> bool {
    line.contains('v') && exists|i: int| 0 <= i < line.len() && is_digit(#[trigger] line[i])
}

/// Whether a word is a version: a `v` with a digit behind it.
pub open spec fn is_version_word(word: Seq<char>) -> bool {
    word.len() > 1 && word[0] == 'v' && is_digit(word[1])
}

/// The first version among words, without its `v`.
pub open spec fn version_in_words(words: Seq<Seq<char>>) -> Option<Seq<char>>
    decreases words.len(),
{
    if words.len() == 0 {
        None
    } else if is_version_word(words[0]) {
        Some(words[0].skip(1))
    } else {
        version_in_words(words.drop_first())
    }
}

/// The version on the first line that can hold one.
pub open spec fn version_in_lines(lines: Seq<Seq<char>>) -> Option<Seq<char>>
    decreases lines.len(),
{
    if lines.len() == 0 {
        None
    } else if may_hold_version(lines[0]) {
        version_in_words(words_of(lines[0]))
    } else {
        version_in_lines(lines.drop_first())
    }
}

fn digit(c: char) -> (r: bool)
    ensures
        r == is_digit(c),
{
    '0' <= c && c <= '9'
}

fn holds_version(line: &str) -> (r: bool)
    ensures
        r == may_hold_version(line@),
{
    let v = text::chars_of(line);
    let mut has_v = false;
    let mut has_digit = false;
    let mut i: usize = 0;
    while i < v.len()
        invariant
            i <= v@.len(),
            v@ == line@,
            has_v <==> exists|j: int| 0 <= j < i && #[trigger] line@[j] == 'v',
            has_digit <==> exists|j: int| 0 <= j < i && is_digit(#[trigger] line@[j]),
        decreases v@.len() - i,
    {
        if v[i] == 'v' {
            has_v = true;
            assert(line@[i as int] == 'v');
        }
        if digit(v[i]) {
            has_digit = true;
            assert(is_digit(line@[i as int]));
        }
        i += 1;
    }
    has_v && has_digit
}

fn version_word(line: &str) -> (r: Option<String>)
    ensures
        opt_view(r) == version_in_words(words_of(line@)),
{
    let all = text::words(line);
    let ghost spec_words = words_of(line@);
    let mut i: usize = 0;
    assert(spec_words.skip(0) =~= spec_words);
    while i < all.len()
        invariant
            i <= all@.len() == spec_words.len(),
            views(all@) == spec_words,
            version_in_words(spec_words) == version_in_words(spec_words.skip(i as int)),
            spec_words == words_of(line@),
        decreases all@.len() - i,
    {
        let ghost rest = spec_words.skip(i as int);
        assert(rest[0] == views(all@)[i as int]);
        assert(rest.drop_first() =~= spec_words.skip(i + 1));
        let w = text::chars_of(&all[i]);
        if w.len() > 1 && w[0] == 'v' && digit(w[1]) {
            let n: usize = w.len();
            assert(rest[0].skip(1) =~= w@.subrange(1, n as int));
            return Some(text::string_of(&w, 1, n));
        }
        i += 1;
    }
    None
}

/// The version that `pass --version` printed, `None` where it failed.
pub open spec fn pass_version_of(output: Option<&ProbeOutput>) -> Option<Seq<char>> {
    match output {
        Some(o) => if o.success {
            version_in_lines(lines_of(o.stdout@))
        } else {
            None
        },
        None => None,
    }
}

/// Reads the version that `pass --version` printed, `None` where it failed.
pub fn pass_version(output: Option<&ProbeOutput>) -> (r: Option<String>)
    ensures
        opt_view(r) == pass_version_of(output),
{
    let o = match output {
        Some(o) => o,
        None => return None,
    };
    if !o.success {
        return None;
    }
    let all = text::lines(&o.stdout);
    let ghost spec_lines = lines_of(o.stdout@);
    let mut i: usize = 0;
    assert(spec_lines.skip(0) =~= spec_lines);
    while i < all.len()
        invariant
            i <= all@.len() == spec_lines.len(),
            views(all@) == spec_lines,
            spec_lines == lines_of(o.stdout@),
            output == Some(o),
            o.success,
            version_in_lines(spec_lines) == version_in_lines(spec_lines.skip(i as int)),
        decreases all@.len() - i,
    {
        let ghost rest = spec_lines.skip(i as int);
        assert(rest[0] == views(all@)[i as int]);
        assert(rest.drop_first() =~= spec_lines.skip(i + 1));
        if holds_version(&all[i]) {
            return version_word(&all[i]);
        }
        i += 1;
    }
    None
}

/// A name inside a directory.
pub open spec fn path_in(base: Seq<char>, name: Seq<char>) -> Seq<char> {
    if base.len() == 0 || base.last() == '/' {
        base + name
    } else {
        base + "/"@ + name
    }
}

/// Joins a directory and a name.
pub fn path_join(base: &str, name: &str) -> (r: String)
    ensures
        r@ == path_in(base@, name@),
{
    let n: usize = base.unicode_len();
    if n == 0 || base.get_char(n - 1) == '/' {
        text::join(base, name)
    } else {
        text::join3(base, "/", name)
    }
}

/// The store of `pass`: the one configured, else the environment's, else the default in the home
/// directory.
pub open spec fn pass_store_of(
    configured: Option<Seq<char>>,
    env: Option<Seq<char>>,
    home: Option<Seq<char>>,
) -> Option<Seq<char>> {
    match (configured, env, home) {
        (Some(dir), _, _) => Some(dir),
        (None, Some(dir), _) => Some(dir),
        (None, None, Some(h)) => Some(path_in(h, ".password-store"@)),
        (None, None, None) => None,
    }
}

/// Finds the store of `pass`.
pub fn pass_store_dir(configured: Option<&str>, env: Option<&str>, home: Option<&str>) -> (r: Option<
    String,
>)
    ensures
        opt_view(r) == pass_store_of(
            opt_str_view(configured),
            opt_str_view(env),
            opt_str_view(home),
        ),
{
    if let Some(dir) = configured {
        return Some(dir.to_owned());
    }
    if let Some(dir) = env {
        return Some(dir.to_owned());
    }
    match home {
        Some(h) => Some(path_join(h, ".password-store")),
        None => None,
    }
}

/// What is known of the store of `pass`; `initialized` is whether it exists and has a key.
pub open spec fn pass_store_status(store: Option<Seq<char>>, initialized: bool) -> (
    MessageView,
    StatusLevel,
) {
    match store {
        Some(dir) => if initialized {
            status(with_args("Initialized at {}"@, seq![dir]), StatusLevel::Success)
        } else {
            status(
                plain("Not initialized (run 'pass init &lt;gpg-id&gt;')"@),
                StatusLevel::Warning,
            )
        },
        None => status(plain("Cannot determine store directory"@), StatusLevel::Error),
    }
}

/// Says what is known of the store; `initialized` is whether it exists and has a key. Without a
/// version there is nothing to say.
pub fn pass_status(version: &Option<String>, store: Option<&str>, initialized: bool) -> (r: Option<
    BackendStatus,
>)
    ensures
        r is Some <==> version is Some,
        r matches Some(s) ==> s@ == pass_store_status(opt_str_view(store), initialized),
{
    if version.is_none() {
        return None;
    }
    match store {
        Some(dir) => {
            if initialized {
                Some(
                    BackendStatus {
                        text: Message::with("Initialized at {}", dir),
                        level: StatusLevel::Success,
                    },
                )
            } else {
                Some(
                    BackendStatus {
                        text: Message::plain("Not initialized (run 'pass init &lt;gpg-id&gt;')"),
                        level: StatusLevel::Warning,
                    },
                )
            }
        },
        None => Some(
            BackendStatus {
                text: Message::plain("Cannot determine store directory"),
                level: StatusLevel::Error,
            },
        ),
    }
}

/// The session key on one line of `bw unlock`: what stands between the first and the last quote,
/// or else the bare value behind the variable.
pub open spec fn session_key_in(line: Seq<char>) -> Option<Seq<char>> {
    match found(line, "BW_SESSION="@) {
        None => None,
        Some(pos) => {
            let first = before_char(line, '"').len() as int;
            let last = last_index(line, '"');
            if first < last {
                Some(line.subrange(first + 1, last))
            } else {
                let value = without_trailing(
                    without_leading(trimmed(line.skip(pos + 11)), '"'),
                    '"',
                );
                if value.len() > 0 {
                    Some(value)
                } else {
                    None
                }
            }
        },
    }
}

/// The session key on the first line that has one.
pub open spec fn session_key_of(lines: Seq<Seq<char>>) -> Option<Seq<char>>
    decreases lines.len(),
{
    if lines.len() == 0 {
        None
    } else {
        match session_key_in(lines[0]) {
            Some(key) => Some(key),
            None => session_key_of(lines.drop_first()),
        }
    }
}

fn session_key_on(line: &str) -> (r: Option<String>)
    ensures
        opt_view(r) == session_key_in(line@),
{
    proof {
        reveal_strlit("BW_SESSION=");
    }
    let pos: usize = match text::find(line, "BW_SESSION=") {
        Some(pos) => pos,
        None => return None,
    };
    proof {
        text::lemma_found_from(line@, "BW_SESSION="@, 0);
    }
    let n: usize = line.unicode_len();
    if let Some((first, last)) = text::first_and_last(line, '"') {
        if first < last {
            return Some(line.substring_char(first + 1, last).to_owned());
        }
    }
    assert(line@.skip(pos + 11) =~= line@.subrange(pos + 11, n as int));
    let value = text::trim_char(text::trim(line.substring_char(pos + 11, n)), '"');
    if value.is_empty() {
        None
    } else {
        Some(value.to_owned())
    }
}

/// Extracts the session key from the output of `bw unlock`.
pub fn extract_session_key(output: &str) -> (r: Option<String>)
    ensures
        opt_view(r) == session_key_of(lines_of(output@)),
{
    let all = text::lines(output);
    let ghost spec_lines = lines_of(output@);
    let mut i: usize = 0;
    assert(spec_lines.skip(0) =~= spec_lines);
    while i < all.len()
        invariant
            i <= all@.len() == spec_lines.len(),
            views(all@) == spec_lines,
            spec_lines == lines_of(output@),
            session_key_of(spec_lines) == session_key_of(spec_lines.skip(i as int)),
        decreases all@.len() - i,
    {
        let ghost rest = spec_lines.skip(i as int);
        assert(rest[0] == views(all@)[i as int]);
        assert(rest.drop_first() =~= spec_lines.skip(i + 1));
        let key = session_key_on(&all[i]);
        if key.is_some() {
            return key;
        }
        i += 1;
    }
    None
}

/// The key is read back out of the line the client prints, with or without a prompt in front.
pub proof fn law_printed_session_key_is_read(prompt: Seq<char>, key: Seq<char>)
    requires
        forall|i: int| 0 <= i < prompt.len() ==> prompt[i] != '"',
        forall|i: int| 0 <= i < key.len() ==> key[i] != '"',
    ensures
        session_key_in(prompt + "BW_SESSION=\""@ + key + "\""@) == Some(key),
{
    reveal_strlit("BW_SESSION=\"");
    reveal_strlit("\"");
    let line = prompt + "BW_SESSION=\""@ + key + "\""@;
    let first = prompt.len() as int + 11;
    reveal_strlit("BW_SESSION=");
    text::lemma_found_from(line, "BW_SESSION="@, 0);
    assert(line.subrange(prompt.len() as int, first) =~= "BW_SESSION="@);
    assert(text::matches_at(line, "BW_SESSION="@, prompt.len() as int));
    assert(line[first] == '"');
    assert forall|i: int| 0 <= i < first implies line[i] != '"' by {
        if i >= prompt.len() {
            assert(line[i] == "BW_SESSION=\""@[i - prompt.len()]);
        }
    }
    text::lemma_before_char_is(line, '"', first);
    assert(line.last() == '"');
    assert(line.subrange(first + 1, line.len() - 1) =~= key);
}

/// The keyring of the platform is ready exactly where it answered, not installed exactly where its
/// client is missing, and otherwise waits for its service; so it can be used exactly where it answered.
pub proof fn law_keyring_is_ready_where_it_answers(
    det: &SecretCliDetection,
    backend: SecretBackendType,
    local: &LocalBackendState,
    r: BackendReadiness,
    usable: bool,
)
    requires
        backend == SecretBackendType::LibSecret || backend == SecretBackendType::MacOsKeychain,
        call_ensures(backend_readiness, (Some(det), backend, local), r),
        call_ensures(BackendReadiness::is_usable, (&r,), usable),
    ensures
        r is Ready <==> det.system_keyring_availability == BackendAvailability::Available,
        r is NotInstalled <==> det.system_keyring_availability == BackendAvailability::ClientMissing,
        r is NeedsAction <==> det.system_keyring_availability
            == BackendAvailability::ServiceUnavailable,
        usable <==> det.system_keyring_availability == BackendAvailability::Available,
        r matches BackendReadiness::NeedsAction(m) ==> m@.msgid == "No keyring service responding"@
            && m@.args.len() == 0,
        r matches BackendReadiness::Ready(detail) ==> detail is None,
{
}

/// A backend with a client program is ready exactly where the client's status says that it works, and
/// not installed exactly where there is no status; what the status says is what is shown.
pub proof fn law_client_is_ready_where_its_status_says_so(
    det: &SecretCliDetection,
    backend: SecretBackendType,
    local: &LocalBackendState,
    r: BackendReadiness,
)
    requires
        call_ensures(backend_readiness, (Some(det), backend, local), r),
    ensures
        backend == SecretBackendType::Bitwarden ==> says_as_much(r, det.bitwarden_status),
        backend == SecretBackendType::OnePassword ==> says_as_much(r, det.onepassword_status),
        backend == SecretBackendType::Passbolt ==> says_as_much(r, det.passbolt_status),
        backend == SecretBackendType::Pass ==> says_as_much(r, det.pass_status),
{
}

/// Whether a verdict says what a status line says.
pub open spec fn says_as_much(r: BackendReadiness, s: Option<BackendStatus>) -> bool {
    &&& r is NotInstalled <==> s is None
    &&& r is Ready <==> (s matches Some(line) && line.level == StatusLevel::Success)
    &&& r is NeedsAction <==> (s matches Some(line) && line.level != StatusLevel::Success)
    &&& s matches Some(line) ==> match r {
        BackendReadiness::Ready(Some(m)) => m@ == line.text@,
        BackendReadiness::NeedsAction(m) => m@ == line.text@,
        _ => false,
    }
}

/// A KeePass database is ready exactly where its client is there, the integration is on, and the file
/// is chosen and exists; what is missing first is what is asked for.
pub proof fn law_database_is_ready_where_nothing_is_missing(
    det: &SecretCliDetection,
    backend: SecretBackendType,
    local: &LocalBackendState,
    r: BackendReadiness,
)
    requires
        backend == SecretBackendType::KeePassXc || backend == SecretBackendType::KdbxFile,
        call_ensures(backend_readiness, (Some(det), backend, local), r),
    ensures
        r is NotInstalled <==> det.keepassxc_version is None,
        r is Ready <==> det.keepassxc_version is Some && local.kdbx_enabled && local.kdbx_path is Some
            && local.kdbx_path_exists,
        !(r is Unknown),
        r matches BackendReadiness::NeedsAction(m) ==> if !local.kdbx_enabled {
            m@.msgid == "Turn on KeePass integration below"@ && m@.args.len() == 0
        } else if local.kdbx_path is None {
            m@.msgid == "Choose a database file below"@ && m@.args.len() == 0
        } else {
            m@.msgid == "Database file not found: {}"@ && m@.args == seq![local.kdbx_path->0@]
        },
{
}

/// A file that the program encrypts itself is always ready; a portable one is ready exactly where its
/// passphrase was entered. Nothing is said of any backend before detection has finished.
pub proof fn law_files_are_ready_with_their_passphrase(
    detection: Option<&SecretCliDetection>,
    backend: SecretBackendType,
    local: &LocalBackendState,
    r: BackendReadiness,
)
    requires
        call_ensures(backend_readiness, (detection, backend, local), r),
    ensures
        r is Unknown <==> detection is None,
        detection is Some && backend == SecretBackendType::EncryptedFile ==> r is Ready,
        detection is Some && backend == SecretBackendType::PortableEncryptedFile ==> (r is Ready
            <==> local.portable_passphrase_entered) && (r is NeedsAction
            <==> !local.portable_passphrase_entered),
        backend == SecretBackendType::PortableEncryptedFile ==> (
        r matches BackendReadiness::NeedsAction(m) ==> m@.msgid
            == "Enter the file's passphrase below"@ && m@.args.len() == 0),
{
}

/// The color of a verdict tells its kind: no two kinds have the same one, and it is that of the
/// status lines.
pub proof fn law_color_tells_the_verdict(r: &BackendReadiness, css: &'static str)
    requires
        call_ensures(BackendReadiness::css_class, (r,), css),
    ensures
        css@ == "success"@ <==> r is Ready,
        css@ == "warning"@ <==> r is NeedsAction,
        css@ == "error"@ <==> r is NotInstalled,
        css@ == "dim-label"@ <==> r is Unknown,
{
    lemma_css_words();
}

proof fn lemma_css_words()
    ensures
        "success"@ != "warning"@,
        "success"@ != "error"@,
        "success"@ != "dim-label"@,
        "warning"@ != "error"@,
        "warning"@ != "dim-label"@,
        "error"@ != "dim-label"@,
{
    reveal_strlit("success");
    reveal_strlit("warning");
    reveal_strlit("error");
    reveal_strlit("dim-label");
    assert("success"@[0] == 's' && "warning"@[0] == 'w' && "error"@[0] == 'e' && "dim-label"@[0]
        == 'd');
}

/// The color of a status line tells its level.
pub proof fn law_color_tells_the_level(level: StatusLevel, css: &'static str)
    requires
        call_ensures(StatusLevel::css_class, (level,), css),
    ensures
        css@ == "success"@ <==> level == StatusLevel::Success,
        css@ == "warning"@ <==> level == StatusLevel::Warning,
        css@ == "error"@ <==> level == StatusLevel::Error,
        css@ == "dim-label"@ <==> level == StatusLevel::Dim,
{
    lemma_css_words();
}

/// A backend can be used exactly where it is ready or nothing is known against it.
pub proof fn law_usable_unless_something_is_missing(r: &BackendReadiness, usable: bool)
    requires
        call_ensures(BackendReadiness::is_usable, (r,), usable),
    ensures
        usable <==> !(r is NeedsAction || r is NotInstalled),
{
}

/// The label of a verdict is its detail where it has one.
pub proof fn law_label_is_the_detail(r: &BackendReadiness, m: Message)
    requires
        r.renderable(),
        call_ensures(BackendReadiness::label_message, (r,), m),
    ensures
        match r {
            BackendReadiness::Ready(Some(detail)) => m@ == detail@,
            BackendReadiness::NeedsAction(detail) => m@ == detail@,
            BackendReadiness::Ready(None) => m@.msgid == "Ready"@ && m@.args.len() == 0,
            BackendReadiness::NotInstalled => m@.msgid == "Not installed"@ && m@.args.len() == 0,
            BackendReadiness::Unknown => m@.msgid == "Checking..."@ && m@.args.len() == 0,
        },
{
}

/// Settings are read as they are; a portable passphrase counts as entered exactly where there is one.
pub proof fn law_settings_are_read_as_they_are(
    enabled: bool,
    path: Option<String>,
    exists_: bool,
    passphrase: &Option<String>,
    r: LocalBackendState,
)
    requires
        call_ensures(
            LocalBackendState::from_settings,
            (enabled, path, exists_, passphrase),
            r,
        ),
    ensures
        r.kdbx_enabled <==> enabled,
        r.kdbx_path == path,
        r.kdbx_path_exists <==> exists_,
        r.portable_passphrase_entered <==> passphrase is Some,
{
}

/// A detection is reused for half a minute and for the same store, and never otherwise.
pub proof fn law_detection_is_reused_for_half_a_minute(
    elapsed_ms: u64,
    probed: Option<&str>,
    wanted: Option<&str>,
    r: bool,
)
    requires
        call_ensures(detection_is_fresh, (elapsed_ms, probed, wanted), r),
    ensures
        r <==> elapsed_ms < 30_000 && match (probed, wanted) {
            (Some(a), Some(b)) => a@ == b@,
            (None, None) => true,
            _ => false,
        },
{
}

/// A client is looked for on the path first, outside a sandbox in the usual places, and last where it
/// was downloaded to.
pub proof fn law_client_is_looked_for_in_order(
    cli: SecretCli,
    flatpak: bool,
    downloaded: Option<&str>,
    r: Vec<String>,
)
    requires
        call_ensures(SecretCli::candidates, (cli, flatpak, downloaded), r),
    ensures
        r@.len() > 0,
        cli == SecretCli::Bitwarden ==> r@[0]@ == "bw"@,
        cli == SecretCli::OnePassword ==> r@[0]@ == "op"@,
        cli == SecretCli::Passbolt ==> r@[0]@ == "passbolt"@,
        downloaded matches Some(path) ==> r@.last()@ == path@,
        r@.len() == 1 + (if downloaded is Some {
            1int
        } else {
            0
        }) + (if flatpak {
            0int
        } else if cli == SecretCli::Bitwarden {
            2
        } else {
            1
        }),
        !flatpak && cli == SecretCli::Bitwarden ==> r@[1]@ == "/snap/bin/bw"@ && r@[2]@
            == "/usr/local/bin/bw"@,
        !flatpak && cli == SecretCli::OnePassword ==> r@[1]@ == "/usr/local/bin/op"@,
        !flatpak && cli == SecretCli::Passbolt ==> r@[1]@ == "/usr/local/bin/passbolt"@,
{
    let all = views(r@);
    assert(all.len() == r@.len());
    assert(forall|i: int| 0 <= i < r@.len() ==> all[i] == (#[trigger] r@[i])@);
    assert(all[0] == r@[0]@);
    assert(all[all.len() - 1] == r@.last()@);
    if !flatpak {
        assert(all[1] == r@[1]@);
        if cli == SecretCli::Bitwarden {
            assert(all[2] == r@[2]@);
        }
    }
}

/// The client that is used is the first that answered; where none did it is the one on the path, and
/// without one there is no client.
pub proof fn law_first_client_that_answers_is_used(
    cli: SecretCli,
    candidates: &Vec<String>,
    answered: &Vec<bool>,
    in_path: Option<&str>,
    r: (bool, String),
)
    requires
        candidates@.len() == answered@.len(),
        call_ensures(SecretCli::choose_client, (cli, candidates, answered, in_path), r),
    ensures
        r.0 <==> in_path is Some || answered@.contains(true),
        answered@.contains(true) ==> exists|i: int|
            0 <= i < answered@.len() && #[trigger] answered@[i] && r.1@ == candidates@[i]@ && (
            forall|j: int| 0 <= j < i ==> !#[trigger] answered@[j]),
        !answered@.contains(true) ==> (in_path matches Some(path) ==> r.1@ == path@),
        !r.0 ==> r.1@ == (match cli {
            SecretCli::Bitwarden => "bw"@,
            SecretCli::OnePassword => "op"@,
            SecretCli::Passbolt => "passbolt"@,
        }),
{
    let i = lemma_chosen_client(
        cli.program(),
        views(candidates@),
        answered@,
        opt_str_view(in_path),
    );
    if answered@.contains(true) {
        let k = choose|k: int| 0 <= k < answered@.len() && answered@[k] == true;
        assert(answered@[k]);
        assert(answered@[i]);
        assert(views(candidates@)[i] == candidates@[i]@);
    }
    if i < answered@.len() {
        assert(answered@[i] == true);
    }
}

proof fn lemma_chosen_client(
    program: Seq<char>,
    candidates: Seq<Seq<char>>,
    answered: Seq<bool>,
    in_path: Option<Seq<char>>,
) -> (i: int)
    requires
        candidates.len() == answered.len(),
    ensures
        0 <= i <= answered.len(),
        forall|j: int| 0 <= j < i ==> !#[trigger] answered[j],
        chosen_client(program, candidates, answered, in_path) == (if i < answered.len() {
            (true, candidates[i])
        } else {
            match in_path {
                Some(path) => (true, path),
                None => (false, program),
            }
        }),
        i < answered.len() ==> answered[i],
    decreases candidates.len(),
{
    if candidates.len() == 0 || answered[0] {
        0
    } else {
        let rest = answered.drop_first();
        let k = lemma_chosen_client(program, candidates.drop_first(), rest, in_path);
        assert forall|j: int| 0 <= j < k + 1 implies !#[trigger] answered[j] by {
            if j > 0 {
                assert(answered[j] == rest[j - 1]);
            }
        }
        if k < rest.len() {
            assert(answered[k + 1] == rest[k]);
        }
        k + 1
    }
}

/// Each state that `bw status` names has its line and its level, and only an unlocked vault counts as
/// working; a state that is not known is shown as it is.
pub proof fn law_bitwarden_works_where_it_is_unlocked(field: Option<&str>, r: BackendStatus)
    requires
        call_ensures(bitwarden_status_for, (field,), r),
    ensures
        r.level == StatusLevel::Success <==> (field matches Some(v) && v@ == "unlocked"@),
        r.level == StatusLevel::Warning <==> (field matches Some(v) && v@ == "locked"@),
        r.level == StatusLevel::Error <==> (field matches Some(v) && v@ == "unauthenticated"@),
        r.level == StatusLevel::Success ==> r.text@ == plain("Unlocked"@),
        r.level == StatusLevel::Warning ==> r.text@ == plain("Locked"@),
        r.level == StatusLevel::Error ==> r.text@ == plain("Not logged in"@),
        r.level == StatusLevel::Dim ==> r.text@ == (match field {
            Some(v) => with_args("Status: {}"@, seq![v@]),
            None => plain("Unknown"@),
        }),
{
    reveal_strlit("unlocked");
    reveal_strlit("locked");
    reveal_strlit("unauthenticated");
    assert("unlocked"@.len() != "locked"@.len());
    assert("unlocked"@.len() != "unauthenticated"@.len());
    assert("locked"@.len() != "unauthenticated"@.len());
}

/// What a client says of itself counts only where it ran and succeeded: the Bitwarden client's status
/// is read from its answer, and one that could not be asked has an error.
pub proof fn law_bitwarden_is_believed_where_it_answers(
    output: Option<&ProbeOutput>,
    r: BackendStatus,
)
    requires
        call_ensures(check_bitwarden_status, (output,), r),
    ensures
        output matches Some(o) ==> o.success ==> r@ == bitwarden_status_of(
            json_text_at(o.stdout@, "status"@),
        ),
        !(output matches Some(o) && o.success) ==> r.level == StatusLevel::Error && r.text@ == plain(
            "Error checking status"@,
        ),
{
}

/// The 1Password client works exactly where it ran and succeeded, and its account is named where it
/// is known. A failure is an expired session only where the client says so and does not ask to be
/// signed in.
pub proof fn law_onepassword_works_where_it_is_signed_in(
    output: Option<&ProbeOutput>,
    r: BackendStatus,
)
    requires
        call_ensures(check_onepassword_status, (output,), r),
    ensures
        r.level == StatusLevel::Success <==> (output matches Some(o) && o.success),
        r.level == StatusLevel::Warning <==> (output matches Some(o) && !o.success && found(
            o.stderr@,
            "session expired"@,
        ) is Some && found(o.stderr@, "sign in"@) is None && found(o.stderr@, "not signed in"@)
            is None),
        r.level != StatusLevel::Dim,
        output matches Some(o) ==> o.success ==> r.text@ == (match json_text_at(
            o.stdout@,
            "email"@,
        ) {
            Some(email) => with_args("Signed in: {}"@, seq![email]),
            None => plain("Signed in"@),
        }),
        r.level == StatusLevel::Warning ==> r.text@ == plain("Session expired"@),
        r.level == StatusLevel::Error ==> r.text@ == (if output is Some {
            plain("Not signed in"@)
        } else {
            plain("Error checking status"@)
        }),
{
}

/// The Passbolt client works exactly where it ran and succeeded. A failure is one of authentication
/// only where the client says so and is configured.
pub proof fn law_passbolt_works_where_it_is_configured(
    output: Option<&ProbeOutput>,
    r: BackendStatus,
)
    requires
        call_ensures(check_passbolt_status, (output,), r),
    ensures
        r.level == StatusLevel::Success <==> (output matches Some(o) && o.success),
        r.level == StatusLevel::Warning <==> (output matches Some(o) && !o.success && found(
            o.stderr@,
            "no configuration"@,
        ) is None && (found(o.stderr@, "authentication"@) is Some || found(
            o.stderr@,
            "passphrase"@,
        ) is Some)),
        r.level != StatusLevel::Dim,
        r.level == StatusLevel::Success ==> r.text@ == plain("Configured"@),
        r.level == StatusLevel::Warning ==> r.text@ == plain("Authentication failed"@),
        r.level == StatusLevel::Error ==> r.text@ == (if output is Some {
            plain("Not configured"@)
        } else {
            plain("Error checking status"@)
        }),
{
}

/// An address is taken as it is unless it is empty.
pub proof fn law_empty_address_is_none(field: Option<String>, r: Option<String>)
    requires
        call_ensures(server_address, (field,), r),
    ensures
        r is Some <==> (field matches Some(s) && s@.len() > 0),
        r matches Some(s) ==> s@ == field->0@,
{
}

/// A version is a word that starts with a `v` and a digit, without the `v`; the first such word of a
/// line is taken.
pub proof fn law_first_version_word_is_taken(word: Seq<char>, rest: Seq<Seq<char>>)
    ensures
        word.len() > 1 && word[0] == 'v' && '0' <= word[1] <= '9' ==> version_in_words(
            seq![word] + rest,
        ) == Some(word.skip(1)),
        !(word.len() > 1 && word[0] == 'v' && '0' <= word[1] <= '9') ==> version_in_words(
            seq![word] + rest,
        ) == version_in_words(rest),
        version_in_words(Seq::empty()) is None,
{
    assert((seq![word] + rest).drop_first() =~= rest);
}

/// The version is read from the first line with a `v` and a digit, and from no other.
pub proof fn law_first_version_line_is_read(line: Seq<char>, rest: Seq<Seq<char>>)
    ensures
        (line.contains('v') && exists|i: int| 0 <= i < line.len() && '0' <= #[trigger] line[i] <= '9')
            ==> version_in_lines(seq![line] + rest) == version_in_words(words_of(line)),
        !(line.contains('v') && exists|i: int|
            0 <= i < line.len() && '0' <= #[trigger] line[i] <= '9') ==> version_in_lines(
            seq![line] + rest,
        ) == version_in_lines(rest),
        version_in_lines(Seq::empty()) is None,
{
    assert((seq![line] + rest).drop_first() =~= rest);
    assert(forall|i: int|
        0 <= i < line.len() ==> (is_digit(#[trigger] line[i]) <==> '0' <= line[i] <= '9'));
}

/// `pass` has a version only where it ran and succeeded, and then the one that it printed.
pub proof fn law_pass_has_the_version_it_prints(output: Option<&ProbeOutput>, r: Option<String>)
    requires
        call_ensures(pass_version, (output,), r),
    ensures
        !(output matches Some(o) && o.success) ==> r is None,
        output matches Some(o) ==> o.success ==> opt_view(r) == version_in_lines(lines_of(o.stdout@)),
{
}

/// A name is put into a directory with exactly one slash between them.
pub proof fn law_one_slash_joins_a_path(base: &str, name: &str, r: String)
    requires
        call_ensures(path_join, (base, name), r),
    ensures
        base@.len() > 0 && base@.last() != '/' ==> r@ == base@ + seq!['/'] + name@,
        base@.len() > 0 && base@.last() == '/' ==> r@ == base@ + name@,
        base@.len() == 0 ==> r@ == name@,
{
    reveal_strlit("/");
    assert("/"@ =~= seq!['/']);
    assert(base@.len() == 0 ==> r@ =~= name@);
}

/// The store of `pass` is the one configured, else the environment's, else the one in the home
/// directory; there is none only where none of these is known.
pub proof fn law_configured_store_comes_first(
    configured: Option<&str>,
    env: Option<&str>,
    home: Option<&str>,
    r: Option<String>,
)
    requires
        call_ensures(pass_store_dir, (configured, env, home), r),
    ensures
        r is None <==> configured is None && env is None && home is None,
        configured matches Some(dir) ==> r->0@ == dir@,
        configured is None ==> (env matches Some(dir) ==> r->0@ == dir@),
        configured is None && env is None ==> (home matches Some(h) ==> r->0@ == path_in(
            h@,
            ".password-store"@,
        )),
{
}

/// `pass` has a status exactly where it has a version, and works exactly where its store is known and
/// initialized.
pub proof fn law_pass_works_where_its_store_is_initialized(
    version: &Option<String>,
    store: Option<&str>,
    initialized: bool,
    r: Option<BackendStatus>,
)
    requires
        call_ensures(pass_status, (version, store, initialized), r),
    ensures
        r is Some <==> version is Some,
        r matches Some(s) ==> {
            &&& s.level == StatusLevel::Success <==> store is Some && initialized
            &&& s.level == StatusLevel::Warning <==> store is Some && !initialized
            &&& s.level == StatusLevel::Error <==> store is None
            &&& s.level == StatusLevel::Success ==> s.text@ == with_args(
                "Initialized at {}"@,
                seq![store->0@],
            )
            &&& s.level == StatusLevel::Warning ==> s.text@ == plain(
                "Not initialized (run 'pass init &lt;gpg-id&gt;')"@,
            )
            &&& s.level == StatusLevel::Error ==> s.text@ == plain(
                "Cannot determine store directory"@,
            )
        },
{
}

/// The session key is read from the first line that has one: a line without the variable has none,
/// and neither hides the lines behind it.
pub proof fn law_session_key_is_read_from_its_line(line: Seq<char>, rest: Seq<Seq<char>>)
    ensures
        found(line, "BW_SESSION="@) is None ==> session_key_of(seq![line] + rest) == session_key_of(
            rest,
        ),
        session_key_in(line) is Some ==> session_key_of(seq![line] + rest) == session_key_in(line),
        session_key_of(Seq::empty()) is None,
{
    assert((seq![line] + rest).drop_first() =~= rest);
}

/// A key that is printed without quotes is read too, without the whitespace around it.
pub proof fn law_bare_session_key_is_read(prompt: Seq<char>, key: Seq<char>)
    requires
        forall|i: int| 0 <= i < prompt.len() ==> prompt[i] != '"',
        forall|i: int| 0 <= i < prompt.len() ==> prompt[i] != 'B',
        key.len() > 0,
        forall|i: int| 0 <= i < key.len() ==> key[i] != '"' && !text::is_space(key[i]),
    ensures
        session_key_in(prompt + "BW_SESSION="@ + key) == Some(key),
{
    reveal_strlit("BW_SESSION=");
    let line = prompt + "BW_SESSION="@ + key;
    let pos = prompt.len() as int;
    assert(line.subrange(pos, pos + 11) =~= "BW_SESSION="@);
    assert(text::matches_at(line, "BW_SESSION="@, pos));
    assert forall|j: int| 0 <= j < pos implies !text::matches_at(line, "BW_SESSION="@, j) by {
        if text::matches_at(line, "BW_SESSION="@, j) {
            assert(line.subrange(j, j + 11)[0] == line[j]);
            assert(line[j] == prompt[j]);
        }
    }
    text::lemma_found_is(line, "BW_SESSION="@, pos);
    assert forall|i: int| 0 <= i < line.len() implies line[i] != '"' by {
        if i >= pos + 11 {
            assert(line[i] == key[i - pos - 11]);
        } else if i >= pos {
            assert(line[i] == "BW_SESSION="@[i - pos]);
        }
    }
    text::lemma_before_char_is(line, '"', line.len() as int);
    assert(before_char(line, '"').len() == line.len());
    assert(line.skip(pos + 11) =~= key);
    text::lemma_last_index(line, '"');
    assert(!text::is_space(key[0]) && !text::is_space(key.last()));
    assert(key[0] != '"' && key.last() != '"');
    assert(text::trimmed_start(key) == key);
    assert(trimmed(key) == key);
}

} // verus!

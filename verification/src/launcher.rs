//! Launching an external FreeRDP client.
//!
//! The command line, the argument file's contents and the order of the launch are decided here; the
//! program runs the detection, writes the file and spawns the process.

use crate::scrub::SecretText;
use crate::text::{self, decimal_of, opt_view, push_string, replaced, signed_decimal_of, views, without_prefix};
use vstd::prelude::*;

verus! {

/// Why a session could not be started.
#[derive(Debug)]
pub enum EmbeddedRdpError {
    /// The external client could not be started.
    FreeRdpInit(String),
}

impl EmbeddedRdpError {
    /// The text of the error.
    pub open spec fn text(&self) -> Seq<char> {
        match self {
            EmbeddedRdpError::FreeRdpInit(s) => s@,
        }
    }
}

/// A folder redirected into the session.
pub struct SharedFolder {
    pub share_name: String,
    pub local_path: String,
}

/// What the argument rules say of an additional argument.
#[derive(Clone, Copy, Debug, PartialEq, Eq, Structural)]
pub enum ArgVerdict {
    /// Handed on.
    Allowed,
    /// Carries a secret or runs a command.
    Blocked,
    /// Blocked, and its value is the next argument.
    BlockedWithValue,
}

/// An additional argument with its verdict.
pub struct ExtraArg {
    pub arg: String,
    pub verdict: ArgVerdict,
}

/// An RDP connection as far as the external client is concerned.
pub struct RdpConfig {
    pub host: String,
    pub port: u16,
    pub username: Option<String>,
    pub password: Option<SecretText>,
    pub domain: Option<String>,
    pub width: u32,
    pub height: u32,
    pub ignore_certificate: bool,
    pub remember_window_position: bool,
    /// Left, top, width and height of the window when it was last closed.
    pub window_geometry: Option<(i32, i32, i32, i32)>,
    pub clipboard_enabled: bool,
    pub shared_folders: Vec<SharedFolder>,
    pub printer_enabled: bool,
    /// The audio routing as FreeRDP spells it.
    pub audio_arg: String,
    pub extra_args: Vec<ExtraArg>,
    pub gateway_hostname: Option<String>,
    pub gateway_port: u16,
    pub gateway_username: Option<String>,
    pub remote_app_program: Option<String>,
    /// The RemoteApp arguments as FreeRDP spells them.
    pub remote_app_args: Vec<String>,
}

/// Whether an optional text is there and not empty.
pub open spec fn is_given(o: Option<String>) -> bool {
    o matches Some(s) && s@.len() > 0
}

/// Whether an optional text is there and not empty.
pub fn given(o: &Option<String>) -> (r: bool)
    ensures
        r == is_given(*o),
{
    match o {
        Some(s) => !s.as_str().is_empty(),
        None => false,
    }
}

/// One argument, or none.
pub open spec fn arg_if(condition: bool, arg: Seq<char>) -> Seq<Seq<char>> {
    if condition {
        seq![arg]
    } else {
        Seq::empty()
    }
}

/// The window position, where it is to be restored.
pub open spec fn geometry_args(c: RdpConfig) -> Seq<Seq<char>> {
    match c.window_geometry {
        Some((x, y, _, _)) if c.remember_window_position => seq![
            "/x:"@ + signed_decimal_of(x as int),
            "/y:"@ + signed_decimal_of(y as int),
        ],
        _ => Seq::empty(),
    }
}

/// The redirection of one folder. The switch is split at commas, so the name has none.
pub open spec fn drive_arg(f: SharedFolder) -> Seq<char> {
    "/drive:"@ + replaced(f.share_name@, ',', '_') + ","@ + f.local_path@
}

/// The redirections of all folders.
pub open spec fn drive_args(folders: Seq<SharedFolder>) -> Seq<Seq<char>> {
    Seq::new(folders.len(), |i: int| drive_arg(folders[i]))
}

/// The additional arguments that are handed on: a blocked one is left out, together with the next
/// one where that is its value.
pub open spec fn kept_extra(extra: Seq<ExtraArg>, skip_first: bool) -> Seq<Seq<char>>
    decreases extra.len(),
{
    if extra.len() == 0 {
        Seq::empty()
    } else if skip_first {
        kept_extra(extra.drop_first(), false)
    } else {
        match extra[0].verdict {
            ArgVerdict::Allowed => seq![extra[0].arg@] + kept_extra(extra.drop_first(), false),
            ArgVerdict::Blocked => kept_extra(extra.drop_first(), false),
            ArgVerdict::BlockedWithValue => kept_extra(extra.drop_first(), true),
        }
    }
}

/// Whether the gateway needs a user of its own: one is given and it is not the session's.
pub open spec fn gateway_user_differs(c: RdpConfig) -> bool {
    is_given(c.gateway_username) && opt_view(c.username) != Some(c.gateway_username->0@)
}

/// The gateway in the unified spelling of FreeRDP 3.
pub open spec fn gateway_arg(c: RdpConfig) -> Seq<char> {
    "/gateway:g:"@ + c.gateway_hostname->0@ + ":"@ + decimal_of(c.gateway_port as nat) + (
    if gateway_user_differs(c) {
        ",u:"@ + c.gateway_username->0@
    } else {
        Seq::empty()
    })
}

/// The server, with its port unless that is the default one.
pub open spec fn target_arg(c: RdpConfig) -> Seq<char> {
    if c.port == 3389 {
        "/v:"@ + c.host@
    } else {
        "/v:"@ + c.host@ + ":"@ + decimal_of(c.port as nat)
    }
}

/// What the window looks like and how certificates are treated.
pub open spec fn display_args(c: RdpConfig) -> Seq<Seq<char>> {
    seq![
        "/w:"@ + decimal_of(c.width as nat),
        "/h:"@ + decimal_of(c.height as nat),
        if c.ignore_certificate {
            "/cert:ignore"@
        } else {
            "/cert:tofu"@
        },
        "/dynamic-resolution"@,
        "/decorations"@,
    ]
}

/// All arguments of the connection, in order.
pub open spec fn connection_args(c: RdpConfig) -> Seq<Seq<char>> {
    arg_if(is_given(c.domain), "/d:"@ + c.domain->0@) + arg_if(
        c.username is Some,
        "/u:"@ + c.username->0@,
    ) + display_args(c) + geometry_args(c) + arg_if(c.clipboard_enabled, "+clipboard"@) + drive_args(
        c.shared_folders@,
    ) + arg_if(c.printer_enabled, "/printer"@) + arg_if(true, c.audio_arg@) + kept_extra(
        c.extra_args@,
        false,
    ) + arg_if(is_given(c.gateway_hostname), gateway_arg(c)) + views(c.remote_app_args@) + arg_if(
        is_given(c.remote_app_program),
        "/auth-pkg-list:ntlm"@,
    ) + arg_if(true, target_arg(c))
}

/// The environment a launcher sets for the client.
pub open spec fn env_of(l: SafeFreeRdpLauncher) -> Seq<(Seq<char>, Seq<char>)> {
    (if l.suppress_qt_warnings {
        seq![("QT_LOGGING_RULES"@, "qt.qpa.wayland=false;qt.qpa.*=false"@)]
    } else {
        Seq::empty()
    }) + (if l.force_x11 {
        seq![("QT_QPA_PLATFORM"@, "xcb"@)]
    } else {
        Seq::empty()
    })
}

/// The views of a list of pairs.
pub open spec fn pair_views(v: Seq<(&'static str, &'static str)>) -> Seq<(Seq<char>, Seq<char>)> {
    Seq::new(v.len(), |i: int| (v[i].0@, v[i].1@))
}

/// Launches FreeRDP with an environment that keeps Qt quiet.
#[derive(Clone, Copy, Debug, PartialEq, Eq, Structural)]
pub struct SafeFreeRdpLauncher {
    /// Whether to suppress Qt warnings.
    pub suppress_qt_warnings: bool,
    /// Whether to force the X11 backend.
    pub force_x11: bool,
}

impl Default for SafeFreeRdpLauncher {
    fn default() -> (r: Self)
        ensures
            r == (SafeFreeRdpLauncher { suppress_qt_warnings: true, force_x11: false }),
    {
        SafeFreeRdpLauncher::new()
    }
}

/// Appends an argument where a condition holds.
fn push_if(args: &mut Vec<String>, condition: bool, arg: &str)
    ensures
        views(final(args)@) == views(old(args)@) + arg_if(condition, arg@),
{
    let ghost before = views(args@);
    if condition {
        push_string(args, arg.to_owned());
    }
    assert(views(args@) =~= before + arg_if(condition, arg@));
}

/// Appends `prefix` followed by an optional value.
fn push_value(args: &mut Vec<String>, prefix: &str, value: &Option<String>, empty_counts: bool)
    ensures
        views(final(args)@) == views(old(args)@) + arg_if(
            is_given(*value) || (empty_counts && value is Some),
            prefix@ + value->0@,
        ),
{
    let ghost before = views(args@);
    if let Some(v) = value {
        if empty_counts || !v.as_str().is_empty() {
            push_string(args, text::join(prefix, v));
        }
    }
    assert(views(args@) =~= before + arg_if(
        is_given(*value) || (empty_counts && value is Some),
        prefix@ + value->0@,
    ));
}

fn push_display(args: &mut Vec<String>, c: &RdpConfig)
    ensures
        views(final(args)@) == views(old(args)@) + display_args(*c),
{
    let ghost before = views(args@);
    push_string(args, text::join("/w:", text::decimal(c.width as u64).as_str()));
    push_string(args, text::join("/h:", text::decimal(c.height as u64).as_str()));
    push_string(
        args,
        if c.ignore_certificate {
            "/cert:ignore".to_owned()
        } else {
            "/cert:tofu".to_owned()
        },
    );
    push_string(args, "/dynamic-resolution".to_owned());
    push_string(args, "/decorations".to_owned());
    assert(views(args@) =~= before + display_args(*c));
}

fn push_geometry(args: &mut Vec<String>, c: &RdpConfig)
    ensures
        views(final(args)@) == views(old(args)@) + geometry_args(*c),
{
    if c.remember_window_position {
        if let Some((x, y, _w, _h)) = c.window_geometry {
            push_string(args, text::join("/x:", text::signed_decimal(x).as_str()));
            push_string(args, text::join("/y:", text::signed_decimal(y).as_str()));
        }
    }
    assert(views(args@) =~= views(old(args)@) + geometry_args(*c));
}

fn push_drives(args: &mut Vec<String>, folders: &Vec<SharedFolder>)
    ensures
        views(final(args)@) == views(old(args)@) + drive_args(folders@),
{
    let ghost before = views(args@);
    let ghost all = drive_args(folders@);
    let mut i: usize = 0;
    assert(before + all.take(0) =~= before);
    while i < folders.len()
        invariant
            i <= folders@.len(),
            all == drive_args(folders@),
            views(args@) == before + all.take(i as int),
        decreases folders@.len() - i,
    {
        let f = &folders[i];
        let mut arg = text::join("/drive:", text::replace_char(&f.share_name, ',', '_').as_str());
        arg.append(",");
        arg.append(f.local_path.as_str());
        push_string(args, arg);
        assert(all.take(i + 1) =~= all.take(i as int).push(all[i as int]));
        assert(views(args@) =~= before + all.take(i + 1));
        i += 1;
    }
    assert(all.take(i as int) =~= all);
}

fn push_extra(args: &mut Vec<String>, extra: &Vec<ExtraArg>)
    ensures
        views(final(args)@) == views(old(args)@) + kept_extra(extra@, false),
{
    let ghost before = views(args@);
    let mut skip_next = false;
    let mut i: usize = 0;
    assert(extra@.skip(0) =~= extra@);
    while i < extra.len()
        invariant
            i <= extra@.len(),
            before + kept_extra(extra@, false) == views(args@) + kept_extra(
                extra@.skip(i as int),
                skip_next,
            ),
        decreases extra@.len() - i,
    {
        let ghost rest = extra@.skip(i as int);
        let ghost so_far = views(args@);
        assert(rest.drop_first() =~= extra@.skip(i + 1));
        assert(rest[0] == extra@[i as int]);
        if skip_next {
            skip_next = false;
        } else {
            match extra[i].verdict {
                ArgVerdict::Allowed => {
                    push_string(args, extra[i].arg.clone());
                    assert(so_far + kept_extra(rest, false) =~= views(args@) + kept_extra(
                        rest.drop_first(),
                        false,
                    ));
                },
                ArgVerdict::Blocked => {},
                ArgVerdict::BlockedWithValue => {
                    skip_next = true;
                },
            }
        }
        i += 1;
    }
    assert(views(args@) + kept_extra(extra@.skip(i as int), skip_next) =~= views(args@));
}

fn target(c: &RdpConfig) -> (r: String)
    ensures
        r@ == target_arg(*c),
{
    if c.port == 3389 {
        text::join("/v:", &c.host)
    } else {
        let mut r = text::join3("/v:", &c.host, ":");
        r.append(text::decimal(c.port as u64).as_str());
        r
    }
}

fn gateway(c: &RdpConfig) -> (r: String)
    ensures
        is_given(c.gateway_hostname) ==> r@ == gateway_arg(*c),
{
    let mut r = "/gateway:g:".to_owned();
    if let Some(host) = &c.gateway_hostname {
        r.append(host.as_str());
    }
    r.append(":");
    r.append(text::decimal(c.gateway_port as u64).as_str());
    if let Some(user) = &c.gateway_username {
        let same_user = match &c.username {
            Some(u) => text::same(u, user),
            None => false,
        };
        if !user.as_str().is_empty() && !same_user {
            r.append(",u:");
            r.append(user.as_str());
        }
    }
    assert(is_given(c.gateway_hostname) ==> r@ =~= gateway_arg(*c));
    r
}

impl SafeFreeRdpLauncher {
    /// Creates a launcher that uses the native Wayland backend.
    pub fn new() -> (r: Self)
        ensures
            r == (SafeFreeRdpLauncher { suppress_qt_warnings: true, force_x11: false }),
    {
        SafeFreeRdpLauncher { suppress_qt_warnings: true, force_x11: false }
    }

    /// Creates a launcher that forces the X11 backend.
    pub fn with_x11_fallback() -> (r: Self)
        ensures
            r == (SafeFreeRdpLauncher { suppress_qt_warnings: true, force_x11: true }),
    {
        SafeFreeRdpLauncher { suppress_qt_warnings: true, force_x11: true }
    }

    /// Sets whether to suppress Qt warnings.
    pub fn with_suppress_warnings(self, suppress: bool) -> (r: Self)
        ensures
            r == (SafeFreeRdpLauncher { suppress_qt_warnings: suppress, ..self }),
    {
        SafeFreeRdpLauncher { suppress_qt_warnings: suppress, force_x11: self.force_x11 }
    }

    /// Sets whether to force the X11 backend.
    pub fn with_force_x11(self, force: bool) -> (r: Self)
        ensures
            r == (SafeFreeRdpLauncher { force_x11: force, ..self }),
    {
        SafeFreeRdpLauncher { suppress_qt_warnings: self.suppress_qt_warnings, force_x11: force }
    }

    /// Builds the environment variables for the client.
    pub fn build_env(&self) -> (r: Vec<(&'static str, &'static str)>)
        ensures
            pair_views(r@) == env_of(*self),
    {
        let mut env: Vec<(&'static str, &'static str)> = Vec::new();
        if self.suppress_qt_warnings {
            env.push(("QT_LOGGING_RULES", "qt.qpa.wayland=false;qt.qpa.*=false"));
        }
        if self.force_x11 {
            env.push(("QT_QPA_PLATFORM", "xcb"));
        }
        assert(pair_views(env@) =~= env_of(*self));
        env
    }

    /// Builds the connection arguments that go into the argument file.
    pub fn build_connection_args(config: &RdpConfig) -> (r: Vec<String>)
        ensures
            views(r@) == connection_args(*config),
    {
        let mut args: Vec<String> = Vec::new();
        assert(views(args@) =~= Seq::empty());
        push_value(&mut args, "/d:", &config.domain, false);
        assert(views(args@) =~= arg_if(is_given(config.domain), "/d:"@ + config.domain->0@));
        push_value(&mut args, "/u:", &config.username, true);
        push_display(&mut args, config);
        push_geometry(&mut args, config);
        push_if(&mut args, config.clipboard_enabled, "+clipboard");
        push_drives(&mut args, &config.shared_folders);
        push_if(&mut args, config.printer_enabled, "/printer");
        push_if(&mut args, true, config.audio_arg.as_str());
        push_extra(&mut args, &config.extra_args);
        let gateway = gateway(config);
        push_if(&mut args, given(&config.gateway_hostname), gateway.as_str());
        text::push_all(&mut args, &config.remote_app_args);
        push_if(&mut args, given(&config.remote_app_program), "/auth-pkg-list:ntlm");
        let target = target(config);
        push_if(&mut args, true, target.as_str());
        args
    }
}

/// Whether argument `i` is the value of a blocked switch in front of it, and so left out.
pub open spec fn is_skipped(extra: Seq<ExtraArg>, i: int) -> bool
    decreases i,
{
    i > 0 && !is_skipped(extra, i - 1) && extra[i - 1].verdict == ArgVerdict::BlockedWithValue
}

proof fn lemma_kept_extra(extra: Seq<ExtraArg>, from: int, k: int)
    requires
        0 <= from <= extra.len(),
        0 <= k < kept_extra(extra.skip(from), is_skipped(extra, from)).len(),
    ensures
        exists|i: int|
            from <= i < extra.len() && extra[i].verdict == ArgVerdict::Allowed && !is_skipped(
                extra,
                i,
            ) && #[trigger] extra[i].arg@ == kept_extra(
                extra.skip(from),
                is_skipped(extra, from),
            )[k],
    decreases extra.len() - from,
{
    let rest = extra.skip(from);
    let skip = is_skipped(extra, from);
    if rest.len() > 0 {
        assert(rest.drop_first() =~= extra.skip(from + 1));
        assert(rest[0] == extra[from]);
        if !skip && extra[from].verdict == ArgVerdict::Allowed {
            if k == 0 {
                assert(extra[from].arg@ == kept_extra(rest, skip)[0]);
            } else {
                lemma_kept_extra(extra, from + 1, k - 1);
            }
        } else {
            lemma_kept_extra(extra, from + 1, k);
        }
    }
}

/// Every additional argument that is handed on was allowed and is not the value of a blocked
/// switch.
pub proof fn law_only_allowed_extra_arguments_pass(extra: Seq<ExtraArg>, k: int)
    requires
        0 <= k < kept_extra(extra, false).len(),
    ensures
        exists|i: int|
            0 <= i < extra.len() && extra[i].verdict == ArgVerdict::Allowed && !is_skipped(extra, i)
                && #[trigger] extra[i].arg@ == kept_extra(extra, false)[k],
{
    assert(extra.skip(0) =~= extra);
    lemma_kept_extra(extra, 0, k);
}

/// The arguments do not depend on the password: it goes into the file on a line of its own.
pub proof fn law_password_is_no_argument(config: RdpConfig, password: Option<SecretText>)
    ensures
        connection_args(RdpConfig { password, ..config }) == connection_args(config),
{
}

/// The secret to write into the argument file, as its switch and value: a password that is not
/// empty.
pub fn session_secret(config: &RdpConfig) -> (r: Option<(&'static str, &SecretText)>)
    ensures
        match r {
            Some((switch, value)) => switch@ == "p"@ && config.password == Some(*value)
                && value@.len() > 0,
            None => config.password matches Some(p) ==> p@.len() == 0,
        },
{
    match &config.password {
        Some(p) => {
            if p.expose().is_empty() {
                None
            } else {
                Some(("p", p))
            }
        },
        None => None,
    }
}

/// The prepared `/args-from:` switch.
pub struct PreparedFreeRdpArgs {
    pub argument: String,
}

impl PreparedFreeRdpArgs {
    /// Returns the sole command-line argument that FreeRDP receives.
    pub fn argument(&self) -> (r: &str)
        ensures
            r@ == self.argument@,
    {
        self.argument.as_str()
    }
}

/// The display variables of this process, for a client on the host.
pub struct DisplayEnv {
    pub display: Option<String>,
    pub wayland_display: Option<String>,
    pub xdg_runtime_dir: Option<String>,
}

/// A process to start.
pub struct LaunchCommand {
    pub program: String,
    pub args: Vec<String>,
    /// Variables set for the process itself.
    pub env: Vec<(&'static str, &'static str)>,
}

/// The client to run and whether it runs on the host: a `host:` marker in front of its name says
/// so.
pub open spec fn split_host_marker(binary: Seq<char>) -> (Seq<char>, bool) {
    match without_prefix(binary, "host:"@) {
        Some(name) => (name, true),
        None => (binary, false),
    }
}

/// `--env=` switches for pairs.
pub open spec fn env_switches(env: Seq<(Seq<char>, Seq<char>)>) -> Seq<Seq<char>> {
    Seq::new(env.len(), |i: int| "--env="@ + env[i].0 + "="@ + env[i].1)
}

/// One `--env=` switch where the variable is set.
pub open spec fn env_switch(name: Seq<char>, value: Option<String>) -> Seq<Seq<char>> {
    arg_if(value is Some, "--env="@ + name + "="@ + value->0@)
}

/// The arguments of `flatpak-spawn` up to the client's own.
pub open spec fn host_args(l: SafeFreeRdpLauncher, name: Seq<char>, env: DisplayEnv) -> Seq<
    Seq<char>,
> {
    seq!["--host"@, "--watch-bus"@] + env_switches(env_of(l)) + env_switch(
        "DISPLAY"@,
        env.display,
    ) + env_switch("WAYLAND_DISPLAY"@, env.wayland_display) + env_switch(
        "XDG_RUNTIME_DIR"@,
        env.xdg_runtime_dir,
    ) + arg_if(true, name)
}

fn push_env_switch(args: &mut Vec<String>, name: &str, value: &Option<String>)
    ensures
        views(final(args)@) == views(old(args)@) + env_switch(name@, *value),
{
    let ghost before = views(args@);
    if let Some(v) = value {
        let mut arg = text::join3("--env=", name, "=");
        arg.append(v.as_str());
        push_string(args, arg);
    }
    assert(views(args@) =~= before + env_switch(name@, *value));
}

fn push_env_switches(args: &mut Vec<String>, env: &Vec<(&'static str, &'static str)>)
    ensures
        views(final(args)@) == views(old(args)@) + env_switches(pair_views(env@)),
{
    let ghost before = views(args@);
    let ghost all = env_switches(pair_views(env@));
    let mut i: usize = 0;
    assert(before + all.take(0) =~= before);
    while i < env.len()
        invariant
            i <= env@.len(),
            all == env_switches(pair_views(env@)),
            views(args@) == before + all.take(i as int),
        decreases env@.len() - i,
    {
        let mut arg = text::join3("--env=", env[i].0, "=");
        arg.append(env[i].1);
        push_string(args, arg);
        assert(all.take(i + 1) =~= all.take(i as int).push(all[i as int]));
        assert(views(args@) =~= before + all.take(i + 1));
        i += 1;
    }
    assert(all.take(i as int) =~= all);
}

impl SafeFreeRdpLauncher {
    /// Builds the command that starts the client with its argument file.
    ///
    /// The argument file's switch is the only argument that the client itself receives. A client
    /// on the host gets its environment through `flatpak-spawn`.
    pub fn launch_command(
        &self,
        binary: &str,
        display: &DisplayEnv,
        prepared: &PreparedFreeRdpArgs,
    ) -> (r: LaunchCommand)
        ensures
            ({
                let (name, via_host) = split_host_marker(binary@);
                if via_host {
                    &&& r.program@ == "flatpak-spawn"@
                    &&& views(r.args@) == host_args(*self, name, *display).push(prepared.argument@)
                    &&& r.env@.len() == 0
                } else {
                    &&& r.program@ == binary@
                    &&& views(r.args@) == seq![prepared.argument@]
                    &&& pair_views(r.env@) == env_of(*self)
                }
            }),
    {
        match text::strip_prefix(binary, "host:") {
            Some(name) => {
                let mut args: Vec<String> = Vec::new();
                push_string(&mut args, "--host".to_owned());
                push_string(&mut args, "--watch-bus".to_owned());
                assert(views(args@) =~= seq!["--host"@, "--watch-bus"@]);
                push_env_switches(&mut args, &self.build_env());
                push_env_switch(&mut args, "DISPLAY", &display.display);
                push_env_switch(&mut args, "WAYLAND_DISPLAY", &display.wayland_display);
                push_env_switch(&mut args, "XDG_RUNTIME_DIR", &display.xdg_runtime_dir);
                push_if(&mut args, true, name);
                push_string(&mut args, prepared.argument().to_owned());
                LaunchCommand { program: "flatpak-spawn".to_owned(), args, env: Vec::new() }
            },
            None => {
                let mut args: Vec<String> = Vec::new();
                push_string(&mut args, prepared.argument().to_owned());
                assert(views(args@) =~= seq![prepared.argument@]);
                LaunchCommand { program: binary.to_owned(), args, env: self.build_env() }
            },
        }
    }

    /// Fails where the launch has been cancelled; `None` is a launch that cannot be.
    pub fn ensure_not_cancelled(cancellation: Option<bool>) -> (r: Result<(), EmbeddedRdpError>)
        ensures
            r is Err <==> cancellation == Some(true),
            r matches Err(e) ==> e.text() == "FreeRDP launch cancelled"@,
    {
        match cancellation {
            Some(true) => Err(
                EmbeddedRdpError::FreeRdpInit("FreeRDP launch cancelled".to_owned()),
            ),
            _ => Ok(()),
        }
    }

    /// Whether the connection starts a single application, which needs a client that can open
    /// application windows.
    pub fn is_remote_app(config: &RdpConfig) -> (r: bool)
        ensures
            r == is_given(config.remote_app_program),
    {
        given(&config.remote_app_program)
    }

    /// Picks the first client that is installed. `clients` is in order of preference.
    pub fn detect_freerdp(clients: &Vec<String>, installed: &Vec<bool>) -> (r: Option<String>)
        requires
            clients@.len() == installed@.len(),
        ensures
            is_first_client(clients@, installed@, false, r),
    {
        first_client(clients, installed, false)
    }

    /// Picks the first installed client that can open application windows, which the `wl*` ones
    /// cannot.
    pub fn detect_freerdp_for_remoteapp(clients: &Vec<String>, installed: &Vec<bool>) -> (r: Option<
        String,
    >)
        requires
            clients@.len() == installed@.len(),
        ensures
            is_first_client(clients@, installed@, true, r),
    {
        first_client(clients, installed, true)
    }
}

/// Whether client `i` can be used.
pub open spec fn is_usable(
    clients: Seq<String>,
    installed: Seq<bool>,
    remote_app: bool,
    i: int,
) -> bool {
    installed[i] && !(remote_app && text::matches_at(split_host_marker(clients[i]@).0, "wl"@, 0))
}

/// Whether `r` is the first usable client, `None` where none is.
pub open spec fn is_first_client(
    clients: Seq<String>,
    installed: Seq<bool>,
    remote_app: bool,
    r: Option<String>,
) -> bool {
    match r {
        Some(name) => exists|i: int|
            0 <= i < clients.len() && #[trigger] is_usable(clients, installed, remote_app, i) && name@
                == clients[i]@ && forall|j: int|
                0 <= j < i ==> !#[trigger] is_usable(clients, installed, remote_app, j),
        None => forall|j: int|
            0 <= j < clients.len() ==> !#[trigger] is_usable(clients, installed, remote_app, j),
    }
}

fn first_client(clients: &Vec<String>, installed: &Vec<bool>, remote_app: bool) -> (r: Option<String>)
    requires
        clients@.len() == installed@.len(),
    ensures
        is_first_client(clients@, installed@, remote_app, r),
{
    let mut i: usize = 0;
    while i < clients.len()
        invariant
            i <= clients@.len() == installed@.len(),
            forall|j: int|
                0 <= j < i ==> !#[trigger] is_usable(clients@, installed@, remote_app, j),
        decreases clients@.len() - i,
    {
        let name = match text::strip_prefix(&clients[i], "host:") {
            Some(name) => name,
            None => clients[i].as_str(),
        };
        if installed[i] && !(remote_app && text::starts_with(name, "wl")) {
            assert(is_usable(clients@, installed@, remote_app, i as int));
            return Some(clients[i].clone());
        }
        i += 1;
    }
    None
}

/// The work of a launch, in order.
#[derive(Clone, Copy, Debug, PartialEq, Eq, Structural)]
pub enum LaunchStage {
    /// Nothing has been done.
    Begin,
    /// Check that the additional arguments can be written one per line.
    Validate,
    /// Look for a client.
    Detect,
    /// Ask the client which spelling of the argument-file switch it takes.
    ResolveForm,
    /// Write the argument file.
    WriteArgs,
    /// Put the command together.
    BuildCommand,
    /// Start the client.
    Spawn,
    /// Start reading what the client writes to stderr.
    DrainStderr,
}

/// How a stage came out.
pub enum StageOutcome {
    Done,
    /// [`LaunchStage::Detect`] found no client.
    Missing,
    Failed(String),
}

/// What follows a stage.
pub enum LaunchNext {
    Run(LaunchStage),
    /// The launch is over; `kill_child` says that a client runs and has to go.
    Fail { error: EmbeddedRdpError, kill_child: bool },
    /// The client runs, and the argument file is kept while it reads it.
    Finished,
}

/// What a stage leads to. A failure of the stage itself is reported before a cancellation, except
/// that a search for a client whose outcome nobody waits for any more is not reported.
pub open spec fn is_next(
    stage: LaunchStage,
    outcome: StageOutcome,
    cancelled: bool,
    next: LaunchNext,
) -> bool {
    let cancel = |kill: bool|
        next matches LaunchNext::Fail { error, kill_child } && error.text()
            == "FreeRDP launch cancelled"@ && kill_child == kill;
    let fail = |text: Seq<char>|
        next matches LaunchNext::Fail { error, kill_child } && error.text() == text && !kill_child;
    match stage {
        LaunchStage::Begin => if cancelled {
            cancel(false)
        } else {
            next == LaunchNext::Run(LaunchStage::Validate)
        },
        LaunchStage::Validate => match outcome {
            StageOutcome::Failed(e) => fail(
                "could not validate additional RDP arguments: "@ + e@,
            ),
            _ => next == LaunchNext::Run(LaunchStage::Detect),
        },
        LaunchStage::Detect => if cancelled {
            cancel(false)
        } else {
            match outcome {
                StageOutcome::Done => next == LaunchNext::Run(LaunchStage::ResolveForm),
                _ => fail(
                    "No FreeRDP client found. Install sdl-freerdp3, xfreerdp, or wlfreerdp."@,
                ),
            }
        },
        LaunchStage::ResolveForm => if cancelled {
            cancel(false)
        } else {
            next == LaunchNext::Run(LaunchStage::WriteArgs)
        },
        LaunchStage::WriteArgs => match outcome {
            StageOutcome::Failed(e) => fail("could not prepare RDP args file: "@ + e@),
            _ => if cancelled {
                cancel(false)
            } else {
                next == LaunchNext::Run(LaunchStage::BuildCommand)
            },
        },
        LaunchStage::BuildCommand => if cancelled {
            cancel(false)
        } else {
            next == LaunchNext::Run(LaunchStage::Spawn)
        },
        LaunchStage::Spawn => match outcome {
            StageOutcome::Failed(e) => fail(e@),
            _ => if cancelled {
                cancel(true)
            } else {
                next == LaunchNext::Run(LaunchStage::DrainStderr)
            },
        },
        LaunchStage::DrainStderr => if cancelled {
            cancel(true)
        } else {
            next == LaunchNext::Finished
        },
    }
}

fn failed(message: String, kill_child: bool) -> (r: LaunchNext)
    ensures
        r matches LaunchNext::Fail { error, kill_child: k } && error.text() == message@ && k
            == kill_child,
{
    LaunchNext::Fail { error: EmbeddedRdpError::FreeRdpInit(message), kill_child }
}

fn run_unless_cancelled(cancelled: bool, kill_child: bool, stage: LaunchStage) -> (r: LaunchNext)
    ensures
        cancelled ==> (r matches LaunchNext::Fail { error, kill_child: k } && error.text()
            == "FreeRDP launch cancelled"@ && k == kill_child),
        !cancelled ==> r == LaunchNext::Run(stage),
{
    match SafeFreeRdpLauncher::ensure_not_cancelled(Some(cancelled)) {
        Err(error) => LaunchNext::Fail { error, kill_child },
        Ok(()) => LaunchNext::Run(stage),
    }
}

/// Decides what follows a stage of the launch.
pub fn launch_next(stage: LaunchStage, outcome: StageOutcome, cancelled: bool) -> (r: LaunchNext)
    ensures
        is_next(stage, outcome, cancelled, r),
{
    match stage {
        LaunchStage::Begin => run_unless_cancelled(cancelled, false, LaunchStage::Validate),
        LaunchStage::Validate => match outcome {
            StageOutcome::Failed(e) => failed(
                text::join("could not validate additional RDP arguments: ", &e),
                false,
            ),
            _ => LaunchNext::Run(LaunchStage::Detect),
        },
        LaunchStage::Detect => {
            if cancelled {
                return run_unless_cancelled(cancelled, false, LaunchStage::ResolveForm);
            }
            match outcome {
                StageOutcome::Done => LaunchNext::Run(LaunchStage::ResolveForm),
                _ => failed(
                    "No FreeRDP client found. Install sdl-freerdp3, xfreerdp, or wlfreerdp.".to_owned(),
                    false,
                ),
            }
        },
        LaunchStage::ResolveForm => run_unless_cancelled(cancelled, false, LaunchStage::WriteArgs),
        LaunchStage::WriteArgs => match outcome {
            StageOutcome::Failed(e) => failed(
                text::join("could not prepare RDP args file: ", &e),
                false,
            ),
            _ => run_unless_cancelled(cancelled, false, LaunchStage::BuildCommand),
        },
        LaunchStage::BuildCommand => run_unless_cancelled(cancelled, false, LaunchStage::Spawn),
        LaunchStage::Spawn => match outcome {
            StageOutcome::Failed(e) => failed(e, false),
            _ => run_unless_cancelled(cancelled, true, LaunchStage::DrainStderr),
        },
        LaunchStage::DrainStderr => {
            if cancelled {
                run_unless_cancelled(cancelled, true, LaunchStage::DrainStderr)
            } else {
                LaunchNext::Finished
            }
        },
    }
}

/// Whether a client runs once a stage has come out this way.
pub open spec fn child_runs(stage: LaunchStage, outcome: StageOutcome) -> bool {
    stage == LaunchStage::DrainStderr || (stage == LaunchStage::Spawn && !(outcome is Failed))
}

/// A launch that does not finish leaves no client behind: it is killed exactly where one runs.
pub proof fn law_failed_launch_leaves_no_client(
    stage: LaunchStage,
    outcome: StageOutcome,
    cancelled: bool,
    next: LaunchNext,
)
    requires
        is_next(stage, outcome, cancelled, next),
        next is Fail,
    ensures
        next->kill_child == child_runs(stage, outcome),
{
}

/// A cancelled launch never finishes: from any stage but the check of the arguments, the next step
/// is a failure, and the check of the arguments is followed by such a stage.
pub proof fn law_cancelled_launch_fails(
    stage: LaunchStage,
    outcome: StageOutcome,
    next: LaunchNext,
)
    requires
        is_next(stage, outcome, true, next),
    ensures
        next is Fail || (stage == LaunchStage::Validate && next == LaunchNext::Run(
            LaunchStage::Detect,
        )),
{
}

/// No client is started before the argument file has been written.
pub proof fn law_spawn_follows_the_argument_file(
    stage: LaunchStage,
    outcome: StageOutcome,
    cancelled: bool,
    next: LaunchNext,
)
    requires
        is_next(stage, outcome, cancelled, next),
    ensures
        next == LaunchNext::Run(LaunchStage::Spawn) ==> stage == LaunchStage::BuildCommand
            && !cancelled,
        next == LaunchNext::Run(LaunchStage::BuildCommand) ==> stage == LaunchStage::WriteArgs
            && !(outcome is Failed) && !cancelled,
{
}

/// Keeps what a line of stderr says, without the whitespace around it; an empty line says nothing.
pub fn collect_stderr_line(lines: &mut Vec<String>, line: &str)
    ensures
        views(final(lines)@) == (if text::trimmed(line@).len() > 0 {
            views(old(lines)@).push(text::trimmed(line@))
        } else {
            views(old(lines)@)
        }),
{
    let trimmed = text::trim(line);
    if !trimmed.is_empty() {
        push_string(lines, trimmed.to_owned());
    }
}

/// How a process that was killed answers.
#[derive(Clone, Copy, Debug, PartialEq, Eq, Structural)]
pub enum ReapPoll {
    Exited,
    Running,
    Failed,
}

/// What to do about a process that was killed.
#[derive(Clone, Copy, Debug, PartialEq, Eq, Structural)]
pub enum ReapStep {
    Done,
    /// Sleep for the poll interval and ask again.
    PollAgain,
    /// Wait for it on a thread of its own.
    WaitInBackground,
}

/// Longest time to wait for a killed client, in milliseconds.
pub const CANCELLED_CHILD_REAP_TIMEOUT_MS: u64 = 500;

/// Time between two looks at a killed client, in milliseconds.
pub const CANCELLED_CHILD_POLL_INTERVAL_MS: u64 = 10;

/// Time for which the argument file is kept after the start, in milliseconds.
pub const ARGS_FILE_CLEANUP_DELAY_MS: u64 = 1000;

/// Decides what to do about a killed process `elapsed_ms` after the kill.
pub fn reap_step(poll: ReapPoll, elapsed_ms: u64) -> (r: ReapStep)
    ensures
        r == (match poll {
            ReapPoll::Exited => ReapStep::Done,
            ReapPoll::Running if elapsed_ms < CANCELLED_CHILD_REAP_TIMEOUT_MS => ReapStep::PollAgain,
            _ => ReapStep::WaitInBackground,
        }),
{
    match poll {
        ReapPoll::Exited => ReapStep::Done,
        ReapPoll::Running => {
            if elapsed_ms < CANCELLED_CHILD_REAP_TIMEOUT_MS {
                ReapStep::PollAgain
            } else {
                ReapStep::WaitInBackground
            }
        },
        ReapPoll::Failed => ReapStep::WaitInBackground,
    }
}

broadcast proof fn lemma_arg_if(condition: bool, arg: Seq<char>, a: Seq<char>)
    ensures
        #[trigger] arg_if(condition, arg).contains(a) <==> condition && a == arg,
{
    if condition {
        assert(arg_if(condition, arg)[0] == arg);
    }
}

proof fn lemma_connection_args(c: RdpConfig, a: Seq<char>)
    ensures
        connection_args(c).contains(a) <==> {
            ||| is_given(c.domain) && a == "/d:"@ + c.domain->0@
            ||| c.username is Some && a == "/u:"@ + c.username->0@
            ||| display_args(c).contains(a)
            ||| geometry_args(c).contains(a)
            ||| c.clipboard_enabled && a == "+clipboard"@
            ||| drive_args(c.shared_folders@).contains(a)
            ||| c.printer_enabled && a == "/printer"@
            ||| a == c.audio_arg@
            ||| kept_extra(c.extra_args@, false).contains(a)
            ||| is_given(c.gateway_hostname) && a == gateway_arg(c)
            ||| views(c.remote_app_args@).contains(a)
            ||| is_given(c.remote_app_program) && a == "/auth-pkg-list:ntlm"@
            ||| a == target_arg(c)
        },
{
    broadcast use vstd::seq_lib::lemma_seq_concat_contains_all_elements;
    broadcast use lemma_arg_if;

}

/// Whether an argument is one that the user wrote: the audio routing, an additional argument that is
/// handed on, or one of the application's.
pub open spec fn is_users_own(c: RdpConfig, a: Seq<char>) -> bool {
    a == c.audio_arg@ || kept_extra(c.extra_args@, false).contains(a) || views(
        c.remote_app_args@,
    ).contains(a)
}

/// Whoever is logged in is named: the user whenever there is one, the domain whenever one is given,
/// each whatever else is set. Without a user, or without a domain, no argument names one, unless the
/// user wrote it.
pub proof fn law_user_and_domain_are_named(config: &RdpConfig, r: Vec<String>)
    requires
        call_ensures(SafeFreeRdpLauncher::build_connection_args, (config,), r),
    ensures
        config.username matches Some(u) ==> views(r@).contains("/u:"@ + u@),
        config.domain matches Some(d) ==> d@.len() > 0 ==> views(r@).contains("/d:"@ + d@),
        forall|rest: Seq<char>| #[trigger]
            views(r@).contains("/u:"@ + rest) ==> (config.username matches Some(u) && rest == u@)
                || is_users_own(*config, "/u:"@ + rest),
        forall|rest: Seq<char>| #[trigger]
            views(r@).contains("/d:"@ + rest) ==> (config.domain matches Some(d) && d@.len() > 0
                && rest == d@) || is_users_own(*config, "/d:"@ + rest),
{
    let c = *config;
    let args = views(r@);
    if let Some(u) = c.username {
        lemma_connection_args(c, "/u:"@ + u@);
    }
    if let Some(d) = c.domain {
        lemma_connection_args(c, "/d:"@ + d@);
    }
    reveal_strlit("/u:");
    reveal_strlit("/d:");
    assert forall|rest: Seq<char>| #[trigger] args.contains("/u:"@ + rest) implies (
    config.username matches Some(u) && rest == u@) || is_users_own(c, "/u:"@ + rest) by {
        let a = "/u:"@ + rest;
        lemma_connection_args(c, a);
        lemma_own_switches(c, a);
        if let Some(u) = c.username {
            if a == "/u:"@ + u@ {
                assert(a.skip(3) =~= rest);
                assert(a.skip(3) =~= u@);
            }
        }
        assert(a[1] == 'u' && a[2] == ':');
    }
    assert forall|rest: Seq<char>| #[trigger] args.contains("/d:"@ + rest) implies (
    config.domain matches Some(d) && d@.len() > 0 && rest == d@) || is_users_own(
        c,
        "/d:"@ + rest,
    ) by {
        let a = "/d:"@ + rest;
        lemma_connection_args(c, a);
        lemma_own_switches(c, a);
        if let Some(d) = c.domain {
            if a == "/d:"@ + d@ {
                assert(a.skip(3) =~= rest);
                assert(a.skip(3) =~= d@);
            }
        }
        assert(a[1] == 'd' && a[2] == ':');
    }
}

/// The switches of the builder's own, but for the user and the domain, name neither.
proof fn lemma_own_switches(c: RdpConfig, a: Seq<char>)
    requires
        a.len() >= 3,
        a[0] == '/',
        a[1] == 'u' || a[1] == 'd',
        a[2] == ':',
    ensures
        !display_args(c).contains(a),
        !geometry_args(c).contains(a),
        !drive_args(c.shared_folders@).contains(a),
        a != "+clipboard"@,
        a != "/printer"@,
        a != "/auth-pkg-list:ntlm"@,
        a != gateway_arg(c),
        a != target_arg(c),
        a[1] == 'u' ==> forall|d: Seq<char>| a != #[trigger] ("/d:"@ + d),
        a[1] == 'd' ==> forall|u: Seq<char>| a != #[trigger] ("/u:"@ + u),
{
    reveal_strlit("/w:");
    reveal_strlit("/h:");
    reveal_strlit("/x:");
    reveal_strlit("/y:");
    reveal_strlit("/cert:ignore");
    reveal_strlit("/cert:tofu");
    reveal_strlit("/dynamic-resolution");
    reveal_strlit("/decorations");
    reveal_strlit("+clipboard");
    reveal_strlit("/printer");
    reveal_strlit("/auth-pkg-list:ntlm");
    reveal_strlit("/gateway:g:");
    reveal_strlit("/drive:");
    reveal_strlit("/v:");
    reveal_strlit("/d:");
    reveal_strlit("/u:");
    if display_args(c).contains(a) {
        let i = choose|i: int| 0 <= i < display_args(c).len() && display_args(c)[i] == a;
        assert(display_args(c).len() == 5);
        assert(display_args(c)[0][1] == 'w');
        assert(display_args(c)[1][1] == 'h');
        assert(display_args(c)[2][1] == 'c');
        assert(display_args(c)[3][2] == 'y');
        assert(display_args(c)[4][2] == 'e');
    }
    if geometry_args(c).contains(a) {
        let i = choose|i: int| 0 <= i < geometry_args(c).len() && geometry_args(c)[i] == a;
        assert(geometry_args(c)[0][1] == 'x');
        assert(geometry_args(c)[1][1] == 'y');
    }
    if drive_args(c.shared_folders@).contains(a) {
        let all = drive_args(c.shared_folders@);
        let i = choose|i: int| 0 <= i < all.len() && all[i] == a;
        assert(all[i][2] == 'r');
    }
    assert("+clipboard"@[0] == '+');
    assert("/printer"@[1] == 'p');
    assert("/auth-pkg-list:ntlm"@[1] == 'a');
    assert(gateway_arg(c)[1] == 'g');
    assert(target_arg(c)[1] == 'v');
    assert forall|d: Seq<char>| a[1] == 'u' implies a != #[trigger] ("/d:"@ + d) by {
        assert(("/d:"@ + d)[1] == 'd');
    }
    assert forall|u: Seq<char>| a[1] == 'd' implies a != #[trigger] ("/u:"@ + u) by {
        assert(("/u:"@ + u)[1] == 'u');
    }
}

/// Every setting has its argument, whatever the others are: the size and the look of the window, how
/// certificates are treated, where the window stood, the clipboard, each folder, the printer, the
/// sound and each argument of the application.
pub proof fn law_every_setting_has_its_argument(config: &RdpConfig, r: Vec<String>)
    requires
        call_ensures(SafeFreeRdpLauncher::build_connection_args, (config,), r),
    ensures
        views(r@).contains("/w:"@ + decimal_of(config.width as nat)),
        views(r@).contains("/h:"@ + decimal_of(config.height as nat)),
        config.ignore_certificate ==> views(r@).contains("/cert:ignore"@),
        !config.ignore_certificate ==> views(r@).contains("/cert:tofu"@),
        views(r@).contains("/dynamic-resolution"@),
        views(r@).contains("/decorations"@),
        config.window_geometry matches Some(g) ==> config.remember_window_position ==> views(
            r@,
        ).contains("/x:"@ + signed_decimal_of(g.0 as int)) && views(r@).contains(
            "/y:"@ + signed_decimal_of(g.1 as int),
        ),
        config.clipboard_enabled ==> views(r@).contains("+clipboard"@),
        config.printer_enabled ==> views(r@).contains("/printer"@),
        views(r@).contains(config.audio_arg@),
        forall|i: int|
            0 <= i < config.shared_folders@.len() ==> views(r@).contains(
                "/drive:"@ + replaced(
                    (#[trigger] config.shared_folders@[i]).share_name@,
                    ',',
                    '_',
                ) + ","@ + config.shared_folders@[i].local_path@,
            ),
        forall|i: int|
            0 <= i < config.remote_app_args@.len() ==> views(r@).contains(
                (#[trigger] config.remote_app_args@[i])@,
            ),
        (config.remote_app_program matches Some(p) && p@.len() > 0) ==> views(r@).contains(
            "/auth-pkg-list:ntlm"@,
        ),
{
    let c = *config;
    let d = display_args(c);
    assert(d[0] == "/w:"@ + decimal_of(c.width as nat));
    lemma_connection_args(c, d[0]);
    assert(d[1] == "/h:"@ + decimal_of(c.height as nat));
    lemma_connection_args(c, d[1]);
    lemma_connection_args(c, d[2]);
    lemma_connection_args(c, d[3]);
    lemma_connection_args(c, d[4]);
    if c.remember_window_position && c.window_geometry is Some {
        let g = geometry_args(c);
        let at = c.window_geometry->0;
        assert(g[0] == "/x:"@ + signed_decimal_of(at.0 as int));
        assert(g[1] == "/y:"@ + signed_decimal_of(at.1 as int));
        lemma_connection_args(c, g[0]);
        lemma_connection_args(c, g[1]);
    }
    lemma_connection_args(c, "+clipboard"@);
    lemma_connection_args(c, "/printer"@);
    lemma_connection_args(c, c.audio_arg@);
    lemma_connection_args(c, "/auth-pkg-list:ntlm"@);
    assert forall|i: int| 0 <= i < c.shared_folders@.len() implies views(r@).contains(
        "/drive:"@ + replaced((#[trigger] c.shared_folders@[i]).share_name@, ',', '_') + ","@
            + c.shared_folders@[i].local_path@,
    ) by {
        let a = drive_args(c.shared_folders@)[i];
        lemma_connection_args(c, a);
    }
    assert forall|i: int| 0 <= i < c.remote_app_args@.len() implies views(r@).contains(
        (#[trigger] c.remote_app_args@[i])@,
    ) by {
        let a = views(c.remote_app_args@)[i];
        lemma_connection_args(c, a);
    }
}

/// Every argument has its reason: one that the user did not write stands for a setting that is on.
pub proof fn law_every_argument_has_its_reason(config: &RdpConfig, r: Vec<String>, k: int)
    requires
        call_ensures(SafeFreeRdpLauncher::build_connection_args, (config,), r),
        0 <= k < r@.len(),
        !is_users_own(*config, r@[k]@),
    ensures
        ({
            let a = r@[k]@;
            ||| config.domain matches Some(d) && d@.len() > 0 && a == "/d:"@ + d@
            ||| config.username matches Some(u) && a == "/u:"@ + u@
            ||| a == "/w:"@ + decimal_of(config.width as nat)
            ||| a == "/h:"@ + decimal_of(config.height as nat)
            ||| config.ignore_certificate && a == "/cert:ignore"@
            ||| !config.ignore_certificate && a == "/cert:tofu"@
            ||| a == "/dynamic-resolution"@
            ||| a == "/decorations"@
            ||| config.window_geometry matches Some(g) && config.remember_window_position && (a
                == "/x:"@ + signed_decimal_of(g.0 as int) || a == "/y:"@ + signed_decimal_of(
                g.1 as int,
            ))
            ||| config.clipboard_enabled && a == "+clipboard"@
            ||| config.printer_enabled && a == "/printer"@
            ||| exists|i: int|
                0 <= i < config.shared_folders@.len() && a == "/drive:"@ + replaced(
                    (#[trigger] config.shared_folders@[i]).share_name@,
                    ',',
                    '_',
                ) + ","@ + config.shared_folders@[i].local_path@
            ||| config.gateway_hostname matches Some(h) && h@.len() > 0 && exists|rest: Seq<char>|
                a == #[trigger] ("/gateway:g:"@ + h@ + rest)
            ||| config.remote_app_program matches Some(p) && p@.len() > 0 && a
                == "/auth-pkg-list:ntlm"@
            ||| exists|rest: Seq<char>| a == #[trigger] ("/v:"@ + config.host@ + rest)
        }),
{
    let c = *config;
    let a = r@[k]@;
    assert(views(r@)[k] == a);
    lemma_connection_args(c, a);
    if display_args(c).contains(a) {
        let i = choose|i: int| 0 <= i < display_args(c).len() && display_args(c)[i] == a;
        assert(display_args(c).len() == 5);
        assert(i == 0 || i == 1 || i == 2 || i == 3 || i == 4);
    }
    if geometry_args(c).contains(a) {
        let i = choose|i: int| 0 <= i < geometry_args(c).len() && geometry_args(c)[i] == a;
        assert(i == 0 || i == 1);
    }
    if drive_args(c.shared_folders@).contains(a) {
        let all = drive_args(c.shared_folders@);
        let i = choose|i: int| 0 <= i < all.len() && all[i] == a;
        assert(a == drive_arg(c.shared_folders@[i]));
    }
    if is_given(c.gateway_hostname) && a == gateway_arg(c) {
        let h = c.gateway_hostname->0@;
        let rest = a.skip(("/gateway:g:"@ + h).len() as int);
        assert(a =~= "/gateway:g:"@ + h + rest);
    }
    if a == target_arg(c) {
        let rest = a.skip(("/v:"@ + c.host@).len() as int);
        assert(a =~= "/v:"@ + c.host@ + rest);
    }
}

/// Nothing is said twice: there is one argument for each setting that is on.
pub proof fn law_arguments_are_counted(config: &RdpConfig, r: Vec<String>)
    requires
        call_ensures(SafeFreeRdpLauncher::build_connection_args, (config,), r),
    ensures
        r@.len() == 7 + (if config.domain matches Some(d) && d@.len() > 0 {
            1int
        } else {
            0
        }) + (if config.username is Some {
            1int
        } else {
            0
        }) + (if config.remember_window_position && config.window_geometry is Some {
            2int
        } else {
            0
        }) + (if config.clipboard_enabled {
            1int
        } else {
            0
        }) + config.shared_folders@.len() + (if config.printer_enabled {
            1int
        } else {
            0
        }) + kept_extra(config.extra_args@, false).len() + (if config.gateway_hostname matches Some(
            h,
        ) && h@.len() > 0 {
            1int
        } else {
            0
        }) + config.remote_app_args@.len() + (if config.remote_app_program matches Some(p) && p@.len()
            > 0 {
            1int
        } else {
            0
        }),
{
    assert(views(r@).len() == r@.len());
}

/// The server comes last: its name, and its port behind a colon unless that is the usual one.
pub proof fn law_server_comes_last(config: &RdpConfig, r: Vec<String>)
    requires
        call_ensures(SafeFreeRdpLauncher::build_connection_args, (config,), r),
    ensures
        r@.len() > 0,
        config.port == 3389 ==> r@.last()@ == "/v:"@ + config.host@,
        config.port != 3389 ==> r@.last()@ == "/v:"@ + config.host@ + ":"@ + decimal_of(
            config.port as nat,
        ),
{
    assert(views(r@).last() == r@.last()@);
    assert(connection_args(*config).last() == target_arg(*config));
}

/// A gateway that is given is named with its port, and with its user where that is another than the
/// session's; one that is not given has no argument.
pub proof fn law_gateway_is_named(config: &RdpConfig, r: Vec<String>)
    requires
        call_ensures(SafeFreeRdpLauncher::build_connection_args, (config,), r),
        config.gateway_hostname matches Some(h) && h@.len() > 0,
    ensures
        ({
            let at = "/gateway:g:"@ + config.gateway_hostname->0@ + ":"@ + decimal_of(
                config.gateway_port as nat,
            );
            match config.gateway_username {
                Some(g) => if g@.len() > 0 && !(config.username matches Some(u) && u@ == g@) {
                    views(r@).contains(at + ",u:"@ + g@)
                } else {
                    views(r@).contains(at)
                },
                None => views(r@).contains(at),
            }
        }),
{
    let at = "/gateway:g:"@ + config.gateway_hostname->0@ + ":"@ + decimal_of(
        config.gateway_port as nat,
    );
    lemma_connection_args(*config, gateway_arg(*config));
    if gateway_user_differs(*config) {
        assert(gateway_arg(*config) =~= at + ",u:"@ + config.gateway_username->0@);
    } else {
        assert(gateway_arg(*config) =~= at);
    }
}

/// Additional arguments are taken one by one: an allowed one is handed on in its place, a blocked one
/// is left out, and so is the value that follows one that has a value.
pub proof fn law_extra_arguments_are_taken_one_by_one(
    first: ExtraArg,
    value: ExtraArg,
    rest: Seq<ExtraArg>,
)
    ensures
        first.verdict == ArgVerdict::Allowed ==> kept_extra(seq![first] + rest, false) == seq![
            first.arg@,
        ] + kept_extra(rest, false),
        first.verdict == ArgVerdict::Blocked ==> kept_extra(seq![first] + rest, false) == kept_extra(
            rest,
            false,
        ),
        first.verdict == ArgVerdict::BlockedWithValue ==> kept_extra(
            seq![first, value] + rest,
            false,
        ) == kept_extra(rest, false),
        kept_extra(Seq::empty(), false).len() == 0,
{
    assert((seq![first] + rest).drop_first() =~= rest);
    let two = seq![first, value] + rest;
    assert(two.drop_first() =~= seq![value] + rest);
    assert((seq![value] + rest).drop_first() =~= rest);
    reveal_with_fuel(kept_extra, 3);
}

/// The additional arguments that are handed on stand together, in their order.
pub proof fn law_extra_arguments_stand_together(config: &RdpConfig, r: Vec<String>) -> (at: int)
    requires
        call_ensures(SafeFreeRdpLauncher::build_connection_args, (config,), r),
    ensures
        0 <= at,
        at + kept_extra(config.extra_args@, false).len() <= r@.len(),
        views(r@).subrange(at, at + kept_extra(config.extra_args@, false).len()) == kept_extra(
            config.extra_args@,
            false,
        ),
{
    let c = *config;
    let head = arg_if(is_given(c.domain), "/d:"@ + c.domain->0@) + arg_if(
        c.username is Some,
        "/u:"@ + c.username->0@,
    ) + display_args(c) + geometry_args(c) + arg_if(c.clipboard_enabled, "+clipboard"@) + drive_args(
        c.shared_folders@,
    ) + arg_if(c.printer_enabled, "/printer"@) + arg_if(true, c.audio_arg@);
    let extra = kept_extra(c.extra_args@, false);
    let at = head.len() as int;
    assert(views(r@).len() == r@.len());
    assert(views(r@).subrange(at, at + extra.len()) =~= extra);
    at
}

/// A client is told to keep Qt quiet, and to use X11, exactly where its launcher says so.
pub proof fn law_environment_follows_the_launcher(
    launcher: &SafeFreeRdpLauncher,
    r: Vec<(&'static str, &'static str)>,
)
    requires
        call_ensures(SafeFreeRdpLauncher::build_env, (launcher,), r),
    ensures
        pair_views(r@).contains(("QT_QPA_PLATFORM"@, "xcb"@)) <==> launcher.force_x11,
        pair_views(r@).contains(("QT_LOGGING_RULES"@, "qt.qpa.wayland=false;qt.qpa.*=false"@))
            <==> launcher.suppress_qt_warnings,
        r@.len() == (if launcher.force_x11 {
            1int
        } else {
            0
        }) + (if launcher.suppress_qt_warnings {
            1int
        } else {
            0
        }),
{
    reveal_strlit("QT_QPA_PLATFORM");
    reveal_strlit("QT_LOGGING_RULES");
    assert("QT_QPA_PLATFORM"@.len() != "QT_LOGGING_RULES"@.len());
    let env = env_of(*launcher);
    assert(pair_views(r@).len() == r@.len());
    if launcher.suppress_qt_warnings {
        assert(env[0] == ("QT_LOGGING_RULES"@, "qt.qpa.wayland=false;qt.qpa.*=false"@));
    }
    if launcher.force_x11 {
        assert(env.last() == ("QT_QPA_PLATFORM"@, "xcb"@));
        assert(env[env.len() - 1] == ("QT_QPA_PLATFORM"@, "xcb"@));
    }
}

/// A client outside the sandbox is run by `flatpak-spawn`, with its variables as switches, its name
/// behind them and the argument file last; any other client is run itself, with its variables set and
/// the argument file alone.
pub proof fn law_argument_file_is_handed_over(
    launcher: &SafeFreeRdpLauncher,
    binary: &str,
    display: &DisplayEnv,
    prepared: &PreparedFreeRdpArgs,
    r: LaunchCommand,
    env: Vec<(&'static str, &'static str)>,
)
    requires
        call_ensures(
            SafeFreeRdpLauncher::launch_command,
            (launcher, binary, display, prepared),
            r,
        ),
        call_ensures(SafeFreeRdpLauncher::build_env, (launcher,), env),
    ensures
        r.args@.len() > 0,
        r.args@.last()@ == prepared.argument@,
        forall|name: Seq<char>|
            binary@ == #[trigger] ("host:"@ + name) ==> {
                let args = views(r.args@);
                &&& r.program@ == "flatpak-spawn"@
                &&& r.env@.len() == 0
                &&& args.len() >= 4
                &&& args[0] == "--host"@
                &&& args[1] == "--watch-bus"@
                &&& args[args.len() - 2] == name
                &&& forall|i: int|
                    0 <= i < env@.len() ==> args.contains(
                        "--env="@ + (#[trigger] env@[i]).0@ + "="@ + env@[i].1@,
                    )
                &&& display.display matches Some(d) ==> args.contains("--env=DISPLAY="@ + d@)
                &&& display.wayland_display matches Some(d) ==> args.contains(
                    "--env=WAYLAND_DISPLAY="@ + d@,
                )
                &&& display.xdg_runtime_dir matches Some(d) ==> args.contains(
                    "--env=XDG_RUNTIME_DIR="@ + d@,
                )
                &&& args.len() == 4 + env@.len() + (if display.display is Some {
                    1int
                } else {
                    0
                }) + (if display.wayland_display is Some {
                    1int
                } else {
                    0
                }) + (if display.xdg_runtime_dir is Some {
                    1int
                } else {
                    0
                })
            },
        (forall|name: Seq<char>| binary@ != #[trigger] ("host:"@ + name)) ==> r.program@ == binary@
            && r.args@.len() == 1 && pair_views(r.env@) == pair_views(env@),
{
    broadcast use vstd::seq_lib::lemma_seq_concat_contains_all_elements;
    broadcast use lemma_arg_if;

    let args = views(r.args@);
    let (name, via_host) = split_host_marker(binary@);
    assert(args.len() == r.args@.len());
    assert(args.last() == r.args@.last()@);
    assert forall|n: Seq<char>| binary@ == #[trigger] ("host:"@ + n) implies via_host && n == name by {
        assert(binary@.subrange(0, "host:"@.len() as int) =~= "host:"@);
        assert(binary@.skip("host:"@.len() as int) =~= n);
    }
    if via_host {
        assert(binary@ =~= "host:"@ + name);
        let front = host_args(*launcher, name, *display);
        let pairs = env_of(*launcher);
        assert(args == front.push(prepared.argument@));
        assert(front.last() == name);
        assert(front.len() == args.len() - 1);
        assert(pair_views(env@).len() == env@.len());
        assert forall|i: int| 0 <= i < env@.len() implies args.contains(
            "--env="@ + (#[trigger] env@[i]).0@ + "="@ + env@[i].1@,
        ) by {
            let a = env_switches(pairs)[i];
            assert(pair_views(env@)[i] == (env@[i].0@, env@[i].1@));
            assert(env_switches(pairs).contains(a));
            assert(front.contains(a));
            lemma_pushed(front, prepared.argument@, a);
        }
        reveal_strlit("--env=");
        reveal_strlit("=");
        reveal_strlit("DISPLAY");
        reveal_strlit("WAYLAND_DISPLAY");
        reveal_strlit("XDG_RUNTIME_DIR");
        reveal_strlit("--env=DISPLAY=");
        reveal_strlit("--env=WAYLAND_DISPLAY=");
        reveal_strlit("--env=XDG_RUNTIME_DIR=");
        if let Some(d) = display.display {
            assert("--env="@ + "DISPLAY"@ + "="@ + d@ =~= "--env=DISPLAY="@ + d@);
            assert(front.contains("--env=DISPLAY="@ + d@));
            lemma_pushed(front, prepared.argument@, "--env=DISPLAY="@ + d@);
        }
        if let Some(d) = display.wayland_display {
            assert("--env="@ + "WAYLAND_DISPLAY"@ + "="@ + d@ =~= "--env=WAYLAND_DISPLAY="@ + d@);
            assert(front.contains("--env=WAYLAND_DISPLAY="@ + d@));
            lemma_pushed(front, prepared.argument@, "--env=WAYLAND_DISPLAY="@ + d@);
        }
        if let Some(d) = display.xdg_runtime_dir {
            assert("--env="@ + "XDG_RUNTIME_DIR"@ + "="@ + d@ =~= "--env=XDG_RUNTIME_DIR="@ + d@);
            assert(front.contains("--env=XDG_RUNTIME_DIR="@ + d@));
            lemma_pushed(front, prepared.argument@, "--env=XDG_RUNTIME_DIR="@ + d@);
        }
    }
}

proof fn lemma_pushed(s: Seq<Seq<char>>, x: Seq<char>, a: Seq<char>)
    requires
        s.contains(a),
    ensures
        s.push(x).contains(a),
{
    let i = choose|i: int| 0 <= i < s.len() && s[i] == a;
    assert(s.push(x)[i] == a);
}

/// The client that is chosen is installed, and no client before it is; none is chosen only where none
/// is installed. For an application, the clients that cannot open its windows do not count.
pub proof fn law_first_installed_client_is_chosen(
    clients: &Vec<String>,
    installed: &Vec<bool>,
    r: Option<String>,
    app: Option<String>,
)
    requires
        clients@.len() == installed@.len(),
        call_ensures(SafeFreeRdpLauncher::detect_freerdp, (clients, installed), r),
        call_ensures(SafeFreeRdpLauncher::detect_freerdp_for_remoteapp, (clients, installed), app),
    ensures
        match r {
            Some(name) => exists|i: int|
                0 <= i < clients@.len() && #[trigger] clients@[i]@ == name@ && installed@[i]
                    && forall|j: int| 0 <= j < i ==> !#[trigger] installed@[j],
            None => forall|j: int| 0 <= j < installed@.len() ==> !#[trigger] installed@[j],
        },
        match app {
            Some(name) => {
                &&& exists|i: int|
                    0 <= i < clients@.len() && #[trigger] clients@[i]@ == name@ && installed@[i]
                        && forall|j: int|
                        0 <= j < i && #[trigger] installed@[j] ==> opens_no_windows(clients@[j]@)
                &&& !opens_no_windows(name@)
            },
            None => forall|j: int|
                0 <= j < clients@.len() && #[trigger] installed@[j] ==> opens_no_windows(clients@[j]@),
        },
{
    if let Some(name) = r {
        let i = choose|i: int|
            0 <= i < clients@.len() && #[trigger] is_usable(clients@, installed@, false, i) && name@
                == clients@[i]@ && forall|j: int|
                0 <= j < i ==> !#[trigger] is_usable(clients@, installed@, false, j);
        assert forall|j: int| 0 <= j < i implies !#[trigger] installed@[j] by {
            assert(!is_usable(clients@, installed@, false, j));
        }
        assert(clients@[i]@ == name@);
    } else {
        assert forall|j: int| 0 <= j < installed@.len() implies !#[trigger] installed@[j] by {
            assert(!is_usable(clients@, installed@, false, j));
        }
    }
    assert forall|j: int| 0 <= j < clients@.len() && installed@[j] && !is_usable(
        clients@,
        installed@,
        true,
        j,
    ) implies #[trigger] opens_no_windows(clients@[j]@) by {
        lemma_opens_no_windows(clients@[j]@);
    }
    if let Some(name) = app {
        let i = choose|i: int|
            0 <= i < clients@.len() && #[trigger] is_usable(clients@, installed@, true, i) && name@
                == clients@[i]@ && forall|j: int|
                0 <= j < i ==> !#[trigger] is_usable(clients@, installed@, true, j);
        lemma_opens_no_windows(clients@[i]@);
        assert forall|j: int| 0 <= j < i && #[trigger] installed@[j] implies opens_no_windows(
            clients@[j]@,
        ) by {
            assert(!is_usable(clients@, installed@, true, j));
        }
        assert(clients@[i]@ == name@);
    } else {
        assert forall|j: int| 0 <= j < clients@.len() && #[trigger] installed@[j] implies opens_no_windows(
            clients@[j]@,
        ) by {
            assert(!is_usable(clients@, installed@, true, j));
        }
    }
}

/// Whether a client cannot open the windows of an application: its name starts with `wl`, on the host
/// or not.
pub open spec fn opens_no_windows(client: Seq<char>) -> bool {
    ||| exists|rest: Seq<char>| client == #[trigger] ("wl"@ + rest)
    ||| exists|rest: Seq<char>| client == #[trigger] ("host:wl"@ + rest)
}

proof fn lemma_opens_no_windows(client: Seq<char>)
    ensures
        opens_no_windows(client) <==> text::matches_at(split_host_marker(client).0, "wl"@, 0),
{
    reveal_strlit("wl");
    reveal_strlit("host:wl");
    reveal_strlit("host:");
    let (name, via_host) = split_host_marker(client);
    if text::matches_at(name, "wl"@, 0) {
        let rest = name.skip(2);
        assert(name =~= "wl"@ + rest);
        if via_host {
            assert(client =~= "host:"@ + name);
            assert(client =~= "host:wl"@ + rest);
        }
    }
    if exists|rest: Seq<char>| client == #[trigger] ("wl"@ + rest) {
        let rest = choose|rest: Seq<char>| client == #[trigger] ("wl"@ + rest);
        assert(client[0] == 'w');
        if via_host {
            assert(client.subrange(0, 5)[0] == 'h');
        }
        assert(client.subrange(0, 2) =~= "wl"@);
    }
    if exists|rest: Seq<char>| client == #[trigger] ("host:wl"@ + rest) {
        let rest = choose|rest: Seq<char>| client == #[trigger] ("host:wl"@ + rest);
        assert(client.subrange(0, 5) =~= "host:"@);
        assert(via_host);
        assert(name =~= "wl"@ + rest);
        assert(name.subrange(0, 2) =~= "wl"@);
    }
}

/// A launch that nothing goes wrong with runs its stages in their order and finishes.
pub proof fn law_untroubled_launch_runs_its_stages(
    stage: LaunchStage,
    next: LaunchNext,
)
    requires
        call_ensures(launch_next, (stage, StageOutcome::Done, false), next),
    ensures
        next == match stage {
            LaunchStage::DrainStderr => LaunchNext::Finished,
            LaunchStage::Spawn => LaunchNext::Run(LaunchStage::DrainStderr),
            LaunchStage::BuildCommand => LaunchNext::Run(LaunchStage::Spawn),
            LaunchStage::WriteArgs => LaunchNext::Run(LaunchStage::BuildCommand),
            LaunchStage::ResolveForm => LaunchNext::Run(LaunchStage::WriteArgs),
            LaunchStage::Detect => LaunchNext::Run(LaunchStage::ResolveForm),
            LaunchStage::Validate => LaunchNext::Run(LaunchStage::Detect),
            LaunchStage::Begin => LaunchNext::Run(LaunchStage::Validate),
        },
{
}

/// A launch fails exactly where it was cancelled and is looked at, or where a stage that can fail did;
/// the error says which, and a client that runs by then is ended.
pub proof fn law_launch_fails_for_a_reason(
    stage: LaunchStage,
    outcome: StageOutcome,
    cancelled: bool,
    next: LaunchNext,
)
    requires
        call_ensures(launch_next, (stage, outcome, cancelled), next),
    ensures
        next is Fail <==> (cancelled && stage != LaunchStage::Validate) || (stage
            == LaunchStage::Detect && !(outcome is Done)) || (outcome is Failed && (stage
            == LaunchStage::Validate || stage == LaunchStage::WriteArgs || stage
            == LaunchStage::Spawn)),
        next matches LaunchNext::Fail { error, kill_child } ==> {
            &&& kill_child <==> cancelled && (stage == LaunchStage::DrainStderr || (stage
                == LaunchStage::Spawn && !(outcome is Failed)))
            &&& (outcome matches StageOutcome::Failed(e) ==> stage == LaunchStage::Validate
                ==> error.text() == "could not validate additional RDP arguments: "@ + e@)
            &&& (outcome matches StageOutcome::Failed(e) ==> stage == LaunchStage::WriteArgs
                ==> error.text() == "could not prepare RDP args file: "@ + e@)
            &&& (outcome matches StageOutcome::Failed(e) ==> stage == LaunchStage::Spawn
                ==> error.text() == e@)
            &&& stage == LaunchStage::Detect && !cancelled ==> error.text()
                == "No FreeRDP client found. Install sdl-freerdp3, xfreerdp, or wlfreerdp."@
            &&& cancelled && !(outcome is Failed) ==> error.text() == "FreeRDP launch cancelled"@
            &&& cancelled && stage == LaunchStage::Detect ==> error.text()
                == "FreeRDP launch cancelled"@
        },
{
}

/// A killed client is given half a second: it is done with once it has exited, asked again while it
/// runs within that time, and otherwise waited for elsewhere.
pub proof fn law_killed_client_is_waited_for(poll: ReapPoll, elapsed_ms: u64, r: ReapStep)
    requires
        call_ensures(reap_step, (poll, elapsed_ms), r),
    ensures
        r == ReapStep::Done <==> poll == ReapPoll::Exited,
        r == ReapStep::PollAgain <==> poll == ReapPoll::Running && elapsed_ms < 500,
{
}

/// A password that is not empty is handed over as it is, behind the password's switch.
pub proof fn law_password_is_handed_over(config: &RdpConfig, r: Option<(&'static str, &SecretText)>)
    requires
        call_ensures(session_secret, (config,), r),
    ensures
        r is Some <==> (config.password matches Some(p) && p@.len() > 0),
        r matches Some(secret) ==> secret.0@ == "p"@ && config.password == Some(*secret.1),
{
}

} // verus!

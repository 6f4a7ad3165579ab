//! The commands that sessions run, the keys that are typed into them, and what is said when a
//! command does not start.

use crate::i18n::{with_args, Message, MessageView};
use crate::text::{self, decimal_of, found, matches_at, opt_view, push_all, push_string, views};
use vstd::prelude::*;

verus! {

/// An SSH session, as its command line needs it.
pub struct SshCommand {
    pub host: String,
    pub port: u16,
    pub username: Option<String>,
    pub identity_file: Option<String>,
    pub extra_args: Vec<String>,
    pub use_waypipe: bool,
    pub use_mptcp: bool,
    /// The command to run before the login shell.
    pub startup_command: Option<String>,
    /// The socket that other sessions to the same host share.
    pub control_path: String,
    /// Where host keys can be written, if the usual file cannot.
    pub known_hosts_path: Option<String>,
}

/// Whether one of the arguments mentions `word`.
pub open spec fn mentions(args: Seq<Seq<char>>, word: Seq<char>) -> bool {
    exists|i: int| 0 <= i < args.len() && found(#[trigger] args[i], word) is Some
}

/// The program that speaks SSH, behind what wraps it.
pub open spec fn ssh_program(use_waypipe: bool, use_mptcp: bool) -> Seq<Seq<char>> {
    let wrapped = if use_mptcp {
        seq!["mptcpize"@, "run"@]
    } else {
        Seq::empty()
    };
    if use_waypipe {
        wrapped + seq!["waypipe"@, "ssh"@]
    } else {
        wrapped + seq!["ssh"@]
    }
}

/// An option of `ssh`.
pub open spec fn ssh_option(option: Seq<char>) -> Seq<Seq<char>> {
    seq!["-o"@, option]
}

/// The options for a connection that other sessions can share.
pub open spec fn control_options(extra: Seq<Seq<char>>, control_path: Seq<char>) -> Seq<Seq<char>> {
    let path = ssh_option("ControlPath="@ + control_path);
    if !mentions(extra, "ControlMaster"@) {
        ssh_option("ControlMaster=auto"@) + path + ssh_option("ControlPersist=60"@)
    } else if !mentions(extra, "ControlPath"@) {
        path
    } else {
        Seq::empty()
    }
}

/// The options that are set by default, as far as the extra arguments leave them open.
pub open spec fn default_options(
    extra: Seq<Seq<char>>,
    control_path: Seq<char>,
    known_hosts: Option<Seq<char>>,
) -> Seq<Seq<char>> {
    let hosts = match known_hosts {
        Some(path) if !mentions(extra, "UserKnownHostsFile"@) => ssh_option(
            "UserKnownHostsFile="@ + path,
        ),
        _ => Seq::empty(),
    };
    let interval = if mentions(extra, "ServerAliveInterval"@) {
        Seq::empty()
    } else {
        ssh_option("ServerAliveInterval=15"@)
    };
    let count = if mentions(extra, "ServerAliveCountMax"@) {
        Seq::empty()
    } else {
        ssh_option("ServerAliveCountMax=3"@)
    };
    control_options(extra, control_path) + hosts + interval + count
}

/// The port and the key of a connection.
pub open spec fn ssh_endpoint(port: u16, identity_file: Option<Seq<char>>) -> Seq<Seq<char>> {
    let at = if port != 22 {
        seq!["-p"@, decimal_of(port as nat)]
    } else {
        Seq::empty()
    };
    match identity_file {
        Some(key) => at + seq!["-i"@, key],
        None => at,
    }
}

/// Who is logged in where.
pub open spec fn destination(username: Option<Seq<char>>, host: Seq<char>) -> Seq<char> {
    match username {
        Some(user) => user + "@"@ + host,
        None => host,
    }
}

/// The destination and what runs there. A startup command gets a terminal and is followed by a
/// login shell.
pub open spec fn ssh_target(
    extra: Seq<Seq<char>>,
    destination: Seq<char>,
    startup: Option<Seq<char>>,
) -> Seq<Seq<char>> {
    match startup {
        Some(command) => (if extra.contains("-t"@) {
            Seq::empty()
        } else {
            seq!["-t"@]
        }) + seq![destination, command + "; exec $SHELL -l"@],
        None => seq![destination],
    }
}

impl SshCommand {
    /// The command line of the session.
    pub open spec fn spec_argv(&self) -> Seq<Seq<char>> {
        let extra = views(self.extra_args@);
        ssh_program(self.use_waypipe, self.use_mptcp) + ssh_endpoint(
            self.port,
            opt_view(self.identity_file),
        ) + default_options(extra, self.control_path@, opt_view(self.known_hosts_path)) + extra
            + ssh_target(
            extra,
            destination(opt_view(self.username), self.host@),
            opt_view(self.startup_command),
        )
    }

    /// Builds the command line of the session.
    pub fn argv(&self) -> (r: Vec<String>)
        ensures
            views(r@) == self.spec_argv(),
    {
        let mut argv = program(self.use_waypipe, self.use_mptcp);
        push_endpoint(&mut argv, self.port, &self.identity_file);
        push_defaults(&mut argv, &self.extra_args, &self.control_path, &self.known_hosts_path);
        push_all(&mut argv, &self.extra_args);
        let at = match &self.username {
            Some(user) => text::join3(user, "@", &self.host),
            None => self.host.clone(),
        };
        push_target(&mut argv, &self.extra_args, at, &self.startup_command);
        argv
    }
}

fn mention(args: &Vec<String>, word: &str) -> (r: bool)
    ensures
        r == mentions(views(args@), word@),
{
    let ghost all = views(args@);
    let mut i: usize = 0;
    while i < args.len()
        invariant
            i <= args@.len(),
            all == views(args@),
            forall|j: int| 0 <= j < i ==> found(#[trigger] all[j], word@) is None,
        decreases args@.len() - i,
    {
        if text::contains(&args[i], word) {
            assert(found(all[i as int], word@) is Some);
            return true;
        }
        i += 1;
    }
    false
}

fn holds(args: &Vec<String>, arg: &str) -> (r: bool)
    ensures
        r == views(args@).contains(arg@),
{
    let ghost all = views(args@);
    let mut i: usize = 0;
    while i < args.len()
        invariant
            i <= args@.len(),
            all == views(args@),
            forall|j: int| 0 <= j < i ==> all[j] != arg@,
        decreases args@.len() - i,
    {
        if text::same(&args[i], arg) {
            assert(all[i as int] == arg@);
            return true;
        }
        i += 1;
    }
    false
}

fn push_option(argv: &mut Vec<String>, option: String)
    ensures
        views(final(argv)@) == views(old(argv)@) + ssh_option(option@),
{
    push_string(argv, "-o".to_owned());
    push_string(argv, option);
    assert(views(argv@) =~= views(old(argv)@) + ssh_option(option@));
}

fn program(use_waypipe: bool, use_mptcp: bool) -> (r: Vec<String>)
    ensures
        views(r@) == ssh_program(use_waypipe, use_mptcp),
{
    let mut argv: Vec<String> = Vec::new();
    if use_mptcp {
        push_string(&mut argv, "mptcpize".to_owned());
        push_string(&mut argv, "run".to_owned());
    }
    if use_waypipe {
        push_string(&mut argv, "waypipe".to_owned());
    }
    push_string(&mut argv, "ssh".to_owned());
    assert(views(argv@) =~= ssh_program(use_waypipe, use_mptcp));
    argv
}

fn push_endpoint(argv: &mut Vec<String>, port: u16, identity_file: &Option<String>)
    ensures
        views(final(argv)@) == views(old(argv)@) + ssh_endpoint(port, opt_view(*identity_file)),
{
    if port != 22 {
        push_string(argv, "-p".to_owned());
        push_string(argv, text::decimal(port as u64));
    }
    if let Some(key) = identity_file {
        push_string(argv, "-i".to_owned());
        push_string(argv, key.clone());
    }
    assert(views(argv@) =~= views(old(argv)@) + ssh_endpoint(port, opt_view(*identity_file)));
}

fn push_control(argv: &mut Vec<String>, extra: &Vec<String>, control_path: &str)
    ensures
        views(final(argv)@) == views(old(argv)@) + control_options(views(extra@), control_path@),
{
    let path = text::join("ControlPath=", control_path);
    if !mention(extra, "ControlMaster") {
        push_option(argv, "ControlMaster=auto".to_owned());
        push_option(argv, path);
        push_option(argv, "ControlPersist=60".to_owned());
    } else if !mention(extra, "ControlPath") {
        push_option(argv, path);
    }
    assert(views(argv@) =~= views(old(argv)@) + control_options(views(extra@), control_path@));
}

fn push_defaults(
    argv: &mut Vec<String>,
    extra: &Vec<String>,
    control_path: &str,
    known_hosts: &Option<String>,
)
    ensures
        views(final(argv)@) == views(old(argv)@) + default_options(
            views(extra@),
            control_path@,
            opt_view(*known_hosts),
        ),
{
    push_control(argv, extra, control_path);
    if let Some(path) = known_hosts {
        if !mention(extra, "UserKnownHostsFile") {
            push_option(argv, text::join("UserKnownHostsFile=", path));
        }
    }
    if !mention(extra, "ServerAliveInterval") {
        push_option(argv, "ServerAliveInterval=15".to_owned());
    }
    if !mention(extra, "ServerAliveCountMax") {
        push_option(argv, "ServerAliveCountMax=3".to_owned());
    }
    assert(views(argv@) =~= views(old(argv)@) + default_options(
        views(extra@),
        control_path@,
        opt_view(*known_hosts),
    ));
}

fn push_target(argv: &mut Vec<String>, extra: &Vec<String>, at: String, startup: &Option<String>)
    ensures
        views(final(argv)@) == views(old(argv)@) + ssh_target(views(extra@), at@, opt_view(*startup)),
{
    match startup {
        Some(command) => {
            if !holds(extra, "-t") {
                push_string(argv, "-t".to_owned());
            }
            push_string(argv, at);
            push_string(argv, text::join(command, "; exec $SHELL -l"));
        },
        None => push_string(argv, at),
    }
    assert(views(argv@) =~= views(old(argv)@) + ssh_target(views(extra@), at@, opt_view(*startup)));
}

/// What a key of a Telnet session sends.
#[derive(Clone, Copy, Debug, PartialEq, Eq, Structural)]
pub enum TelnetKeySends {
    Automatic,
    Backspace,
    Delete,
}

/// What the terminal sends for an erasing key.
#[derive(Clone, Copy, Debug, PartialEq, Eq, Structural)]
pub enum EraseBinding {
    Auto,
    AsciiBackspace,
    AsciiDelete,
}

/// The terminal's binding for what a Telnet key sends.
pub fn erase_binding(sends: TelnetKeySends) -> (r: EraseBinding)
    ensures
        r == match sends {
            TelnetKeySends::Automatic => EraseBinding::Auto,
            TelnetKeySends::Backspace => EraseBinding::AsciiBackspace,
            TelnetKeySends::Delete => EraseBinding::AsciiDelete,
        },
{
    match sends {
        TelnetKeySends::Automatic => EraseBinding::Auto,
        TelnetKeySends::Backspace => EraseBinding::AsciiBackspace,
        TelnetKeySends::Delete => EraseBinding::AsciiDelete,
    }
}

/// The command line of a Telnet session.
pub open spec fn telnet_command(host: Seq<char>, port: u16, extra: Seq<Seq<char>>) -> Seq<Seq<char>> {
    seq!["telnet"@] + extra + seq![host, decimal_of(port as nat)]
}

/// Builds the command line of a Telnet session.
pub fn telnet_argv(host: &str, port: u16, extra_args: &Vec<String>) -> (r: Vec<String>)
    ensures
        views(r@) == telnet_command(host@, port, views(extra_args@)),
{
    let mut argv: Vec<String> = Vec::new();
    push_string(&mut argv, "telnet".to_owned());
    push_all(&mut argv, extra_args);
    push_string(&mut argv, host.to_owned());
    push_string(&mut argv, text::decimal(port as u64));
    assert(views(argv@) =~= telnet_command(host@, port, views(extra_args@)));
    argv
}

/// The name that a command goes by.
pub open spec fn command_name_of(argv: Seq<Seq<char>>) -> Seq<char> {
    if argv.len() > 0 {
        argv[0]
    } else {
        ""@
    }
}

/// The name that a command goes by: its first word.
pub fn command_name(argv: &Vec<String>) -> (r: String)
    ensures
        r@ == command_name_of(views(argv@)),
{
    if argv.len() > 0 {
        argv[0].clone()
    } else {
        "".to_owned()
    }
}

/// How a command was started.
#[derive(Clone, Copy, Debug, PartialEq, Eq, Structural)]
pub enum SpawnPath {
    /// By the terminal widget.
    Terminal,
    /// On a pseudo-terminal of our own, with the widget attached to it.
    NativePty,
    /// On a pseudo-terminal of our own that is relayed to the widget.
    Relay,
}

/// What is said when a command did not start.
pub struct SpawnFailure {
    /// The banner in the session's tab, if there is one.
    pub banner: Option<Message>,
    pub toast: Message,
}

/// The banner of a command that did not start.
pub open spec fn failure_banner(path: SpawnPath, command: Seq<char>, error: Seq<char>) -> Option<
    MessageView,
> {
    match path {
        SpawnPath::Terminal => Some(with_args("Command not found: {}"@, seq![command])),
        SpawnPath::NativePty => if is_missing(error) {
            Some(with_args("Command not found: {}"@, seq![command]))
        } else {
            Some(with_args("Failed to start '{}'"@, seq![command]))
        },
        SpawnPath::Relay => None,
    }
}

/// Whether an error names the system's error for what does not exist by its number. A longer number is
/// another error.
pub open spec fn has_missing_code(error: Seq<char>) -> bool {
    exists|p: int|
        0 <= p && #[trigger] matches_at(error, "os error 2"@, p) && !(p + 10 < error.len()
            && '0' <= error[p + 10] <= '9')
}

/// Whether an error says that the program does not exist.
pub open spec fn is_missing(error: Seq<char>) -> bool {
    found(error, "No such file or directory"@) is Some || has_missing_code(error)
}

/// Whether an error says that the program does not exist.
fn says_missing(error: &str) -> (r: bool)
    ensures
        r == is_missing(error@),
{
    if text::contains(error, "No such file or directory") {
        return true;
    }
    let n: usize = error.unicode_len();
    let mut from: usize = 0;
    proof {
        reveal_strlit("os error 2");
    }
    while from < n
        invariant
            from <= n == error@.len(),
            "os error 2"@.len() == 10,
            found(error@, "No such file or directory"@) is None,
            forall|p: int| 0 <= p < from && #[trigger] matches_at(error@, "os error 2"@, p) ==> p + 10
                < n && '0' <= error@[p + 10] <= '9',
        decreases n - from,
    {
        let rest = error.substring_char(from, n);
        let starts = text::starts_with(rest, "os error 2");
        assert(starts == matches_at(error@, "os error 2"@, from as int)) by {
            if from + 10 <= n {
                assert(rest@.subrange(0, 10) =~= error@.subrange(from as int, from + 10));
            }
        }
        if starts {
            if from + 10 >= n {
                return true;
            }
            let c = error.get_char(from + 10);
            if !('0' <= c && c <= '9') {
                return true;
            }
        }
        from += 1;
    }
    false
}

/// The notice of a command that did not start.
pub open spec fn failure_toast(path: SpawnPath, command: Seq<char>, error: Seq<char>) -> MessageView {
    if path == SpawnPath::Terminal || (path == SpawnPath::NativePty && is_missing(error)) {
        with_args("'{}' is not installed"@, seq![command])
    } else {
        with_args("Failed to start '{}': {}"@, seq![command, error])
    }
}

/// The view of an optional message.
pub open spec fn message_view(message: Option<Message>) -> Option<MessageView> {
    match message {
        Some(m) => Some(m@),
        None => None,
    }
}

/// Says why a command did not start: a missing program is told apart from other failures, which
/// are shown as they are.
pub fn spawn_failure(path: SpawnPath, command: &str, error: &str) -> (r: SpawnFailure)
    ensures
        message_view(r.banner) == failure_banner(path, command@, error@),
        r.toast@ == failure_toast(path, command@, error@),
{
    match path {
        SpawnPath::Terminal => SpawnFailure {
            banner: Some(Message::with("Command not found: {}", command)),
            toast: Message::with("'{}' is not installed", command),
        },
        SpawnPath::NativePty => {
            if says_missing(error) {
                SpawnFailure {
                    banner: Some(Message::with("Command not found: {}", command)),
                    toast: Message::with("'{}' is not installed", command),
                }
            } else {
                SpawnFailure {
                    banner: Some(Message::with("Failed to start '{}'", command)),
                    toast: Message::with2("Failed to start '{}': {}", command, error),
                }
            }
        },
        SpawnPath::Relay => SpawnFailure {
            banner: None,
            toast: Message::with2("Failed to start '{}': {}", command, error),
        },
    }
}

/// A startup command always runs on a terminal.
pub proof fn law_startup_command_gets_a_terminal(command: SshCommand)
    requires
        command.startup_command is Some,
    ensures
        command.spec_argv().contains("-t"@),
{
    let extra = views(command.extra_args@);
    let head = ssh_program(command.use_waypipe, command.use_mptcp) + ssh_endpoint(
        command.port,
        opt_view(command.identity_file),
    ) + default_options(extra, command.control_path@, opt_view(command.known_hosts_path));
    let target = ssh_target(
        extra,
        destination(opt_view(command.username), command.host@),
        opt_view(command.startup_command),
    );
    let argv = command.spec_argv();
    assert(argv == head + extra + target);
    if extra.contains("-t"@) {
        let i = choose|i: int| 0 <= i < extra.len() && extra[i] == "-t"@;
        assert(argv[head.len() + i] == "-t"@);
    } else {
        assert(target[0] == "-t"@);
        assert(argv[head.len() + extra.len() as int] == "-t"@);
    }
}

/// What the extra arguments decide is not decided by default.
pub proof fn law_extra_arguments_replace_the_defaults(
    extra: Seq<Seq<char>>,
    control_path: Seq<char>,
    known_hosts: Option<Seq<char>>,
)
    ensures
        mentions(extra, "ControlMaster"@) ==> !default_options(
            extra,
            control_path,
            known_hosts,
        ).contains("ControlMaster=auto"@),
        mentions(extra, "ServerAliveInterval"@) ==> !default_options(
            extra,
            control_path,
            known_hosts,
        ).contains("ServerAliveInterval=15"@),
        mentions(extra, "ServerAliveCountMax"@) ==> !default_options(
            extra,
            control_path,
            known_hosts,
        ).contains("ServerAliveCountMax=3"@),
        mentions(extra, "UserKnownHostsFile"@) ==> default_options(extra, control_path, known_hosts)
            == default_options(extra, control_path, None),
{
    reveal_strlit("ControlMaster=auto");
    reveal_strlit("ControlPath=");
    reveal_strlit("ControlPersist=60");
    reveal_strlit("UserKnownHostsFile=");
    reveal_strlit("ServerAliveInterval=15");
    reveal_strlit("ServerAliveCountMax=3");
    reveal_strlit("-o");
    let all = default_options(extra, control_path, known_hosts);
    assert forall|i: int| 0 <= i < all.len() implies {
        ||| all[i] == "-o"@
        ||| all[i] == "ControlMaster=auto"@ && !mentions(extra, "ControlMaster"@)
        ||| all[i] == "ControlPath="@ + control_path
        ||| all[i] == "ControlPersist=60"@
        ||| known_hosts is Some && all[i] == "UserKnownHostsFile="@ + known_hosts->0
        ||| all[i] == "ServerAliveInterval=15"@ && !mentions(extra, "ServerAliveInterval"@)
        ||| all[i] == "ServerAliveCountMax=3"@ && !mentions(extra, "ServerAliveCountMax"@)
    } by {}
    assert(("ControlPath="@ + control_path)[7] == 'P');
    assert("ControlPersist=60"@[7] == 'P' && "ControlMaster=auto"@[7] == 'M');
    assert("-o"@[0] == '-');
    assert("ServerAliveInterval=15"@[11] == 'I' && "ServerAliveCountMax=3"@[11] == 'C');
    assert("ServerAliveInterval=15"@[0] == 'S' && "ServerAliveCountMax=3"@[0] == 'S');
    assert(("ControlPath="@ + control_path)[0] == 'C' && "ControlPersist=60"@[0] == 'C');
    assert("ControlMaster=auto"@[0] == 'C');
    if let Some(path) = known_hosts {
        assert(("UserKnownHostsFile="@ + path)[0] == 'U');
    }
}

/// One step of a key sequence.
pub enum KeyElement {
    Text(String),
    /// A key that is no character, as the bytes that the terminal sends for it.
    SpecialKey(Vec<u8>),
    /// A pause, in milliseconds.
    Wait(u32),
    /// A variable that nothing was substituted for.
    Variable(String),
}

/// What is typed.
pub enum Keys {
    Text(String),
    Bytes(Vec<u8>),
}

/// What is typed.
pub enum KeysView {
    Text(Seq<char>),
    Bytes(Seq<u8>),
}

impl View for Keys {
    type V = KeysView;

    open spec fn view(&self) -> KeysView {
        match self {
            Keys::Text(s) => KeysView::Text(s@),
            Keys::Bytes(b) => KeysView::Bytes(b@),
        }
    }
}

/// Keys and how long after the start of their sequence they are typed.
pub struct TimedKeys {
    pub after_ms: u64,
    pub keys: Keys,
}

/// The pauses of a key sequence, in milliseconds.
pub open spec fn waited(elements: Seq<KeyElement>) -> nat
    decreases elements.len(),
{
    if elements.len() == 0 {
        0
    } else {
        match elements.last() {
            KeyElement::Wait(ms) => waited(elements.drop_last()) + ms as nat,
            _ => waited(elements.drop_last()),
        }
    }
}

/// The keys of a sequence, each after the pauses before it. An unresolved variable types nothing.
pub open spec fn timed(elements: Seq<KeyElement>) -> Seq<(nat, KeysView)>
    decreases elements.len(),
{
    if elements.len() == 0 {
        Seq::empty()
    } else {
        let before = timed(elements.drop_last());
        let at = waited(elements.drop_last());
        match elements.last() {
            KeyElement::Text(text) => before.push((at, KeysView::Text(text@))),
            KeyElement::SpecialKey(bytes) => before.push((at, KeysView::Bytes(bytes@))),
            KeyElement::Wait(_) => before,
            KeyElement::Variable(_) => before,
        }
    }
}

/// The view of a schedule.
pub open spec fn schedule_view(schedule: Seq<TimedKeys>) -> Seq<(nat, KeysView)> {
    Seq::new(schedule.len(), |i: int| (schedule[i].after_ms as nat, schedule[i].keys@))
}

proof fn lemma_waited_grows(elements: Seq<KeyElement>, n: int)
    requires
        0 <= n <= elements.len(),
    ensures
        waited(elements.take(n)) <= waited(elements),
    decreases elements.len(),
{
    if n < elements.len() {
        lemma_waited_grows(elements.drop_last(), n);
        assert(elements.drop_last().take(n) =~= elements.take(n));
    } else {
        assert(elements.take(n) =~= elements);
    }
}

/// When each part of a key sequence is typed.
pub fn key_schedule(elements: Vec<KeyElement>) -> (r: Vec<TimedKeys>)
    requires
        waited(elements@) <= u64::MAX,
    ensures
        schedule_view(r@) == timed(elements@),
{
    let ghost all = elements@;
    let mut elements = elements;
    let mut schedule: Vec<TimedKeys> = Vec::new();
    let mut after_ms: u64 = 0;
    let n: usize = elements.len();
    let mut i: usize = 0;
    assert(schedule_view(schedule@) =~= timed(all.take(0)));
    while i < n
        invariant
            i <= n,
            n == all.len(),
            n == elements@.len(),
            waited(all) <= u64::MAX,
            forall|j: int| i <= j < n ==> elements@[j] == all[j],
            after_ms == waited(all.take(i as int)),
            schedule_view(schedule@) == timed(all.take(i as int)),
        decreases n - i,
    {
        let mut element = KeyElement::Wait(0);
        std::mem::swap(&mut element, &mut elements[i]);
        assert(element == all[i as int]);
        let ghost before = schedule@;
        proof {
            let next = all.take(i + 1);
            assert(next.drop_last() =~= all.take(i as int));
            assert(next.last() == all[i as int]);
            lemma_waited_grows(all, i + 1);
        }
        match element {
            KeyElement::Wait(ms) => {
                after_ms = after_ms + ms as u64;
            },
            KeyElement::Text(text) => {
                schedule.push(TimedKeys { after_ms, keys: Keys::Text(text) });
                assert(schedule_view(schedule@) =~= schedule_view(before).push(
                    (after_ms as nat, KeysView::Text(text@)),
                ));
            },
            KeyElement::SpecialKey(bytes) => {
                schedule.push(TimedKeys { after_ms, keys: Keys::Bytes(bytes) });
                assert(schedule_view(schedule@) =~= schedule_view(before).push(
                    (after_ms as nat, KeysView::Bytes(bytes@)),
                ));
            },
            KeyElement::Variable(_) => {},
        }
        i += 1;
    }
    assert(all.take(n as int) =~= all);
    schedule
}

/// The keys of a sequence are typed in their order: no part is due before an earlier one.
pub proof fn law_keys_are_typed_in_order(elements: Seq<KeyElement>, i: int, j: int)
    requires
        0 <= i <= j < timed(elements).len(),
    ensures
        timed(elements)[i].0 <= timed(elements)[j].0 <= waited(elements),
    decreases elements.len(),
{
    let before = elements.drop_last();
    if j < timed(before).len() {
        law_keys_are_typed_in_order(before, i, j);
    } else if i < timed(before).len() {
        law_keys_are_typed_in_order(before, i, i);
    }
}

/// Whether two words stand in a command line one behind the other, at `i`.
pub open spec fn stands(argv: Seq<Seq<char>>, i: int, first: Seq<char>, second: Seq<char>) -> bool {
    0 <= i && i + 1 < argv.len() && argv[i] == first && argv[i + 1] == second
}

/// Where the destination stands in a command line: behind it is the startup command alone.
pub open spec fn destination_place(command: SshCommand, argv: Seq<Seq<char>>) -> int {
    if command.startup_command is Some {
        argv.len() - 2
    } else {
        argv.len() - 1
    }
}

/// The key that was chosen is used, whatever the port is, and so is a port other than the usual one:
/// each stands behind its switch, in front of the destination.
pub proof fn law_key_and_port_are_used(command: &SshCommand, r: Vec<String>)
    requires
        call_ensures(SshCommand::argv, (command,), r),
    ensures
        command.identity_file matches Some(key) ==> exists|i: int| #[trigger]
            stands(views(r@), i, "-i"@, key@) && i + 1 < destination_place(*command, views(r@)),
        command.port != 22 ==> exists|i: int| #[trigger]
            stands(views(r@), i, "-p"@, decimal_of(command.port as nat)) && i + 1
                < destination_place(*command, views(r@)),
{
    let argv = views(r@);
    let extra = views(command.extra_args@);
    let front = ssh_program(command.use_waypipe, command.use_mptcp);
    let at = ssh_endpoint(command.port, opt_view(command.identity_file));
    let options = default_options(extra, command.control_path@, opt_view(command.known_hosts_path));
    let target = ssh_target(
        extra,
        destination(opt_view(command.username), command.host@),
        opt_view(command.startup_command),
    );
    assert(argv == front + at + options + extra + target);
    let n = front.len() as int;
    if command.port != 22 {
        assert(at[0] == "-p"@ && at[1] == decimal_of(command.port as nat));
        assert(argv[n] == at[0] && argv[n + 1] == at[1]);
        assert(stands(argv, n, "-p"@, decimal_of(command.port as nat)));
    }
    if let Some(key) = command.identity_file {
        let k = at.len() - 2;
        assert(at[k] == "-i"@ && at[k + 1] == key@);
        assert(argv[n + k] == at[k] && argv[n + k + 1] == at[k + 1]);
        assert(stands(argv, n + k, "-i"@, key@));
    }
}

/// A command line goes to its host: the destination is the host, behind the user and an at sign where
/// there is a user. A startup command follows it and then hands over to a login shell; without one the
/// destination comes last.
pub proof fn law_command_goes_to_its_host(command: &SshCommand, r: Vec<String>)
    requires
        call_ensures(SshCommand::argv, (command,), r),
    ensures
        ({
            let argv = views(r@);
            let place = destination_place(*command, argv);
            &&& 0 < place < argv.len()
            &&& (command.username is None ==> argv[place] == command.host@)
            &&& (command.username matches Some(user) ==> argv[place] == user@ + "@"@ + command.host@)
            &&& (command.startup_command matches Some(startup) ==> argv.last() == startup@
                + "; exec $SHELL -l"@)
            &&& (command.startup_command is None ==> argv.last() == argv[place])
        }),
{
    let argv = views(r@);
    let extra = views(command.extra_args@);
    let target = ssh_target(
        extra,
        destination(opt_view(command.username), command.host@),
        opt_view(command.startup_command),
    );
    assert(argv.last() == target.last());
    if command.startup_command is Some {
        assert(argv[argv.len() - 2] == target[target.len() - 2]);
    }
}

/// The program comes first: `ssh`, behind `waypipe` where windows are forwarded, all of it behind
/// `mptcpize run` where several paths are used.
pub proof fn law_ssh_is_run(command: &SshCommand, r: Vec<String>)
    requires
        call_ensures(SshCommand::argv, (command,), r),
    ensures
        ({
            let argv = views(r@);
            let n: int = if command.use_mptcp {
                2
            } else {
                0
            };
            &&& argv.len() > n + 1
            &&& command.use_mptcp ==> argv[0] == "mptcpize"@ && argv[1] == "run"@
            &&& command.use_waypipe ==> argv[n] == "waypipe"@ && argv[n + 1] == "ssh"@
            &&& !command.use_waypipe ==> argv[n] == "ssh"@
        }),
{
    let argv = views(r@);
    let front = ssh_program(command.use_waypipe, command.use_mptcp);
    assert(forall|i: int| 0 <= i < front.len() ==> argv[i] == front[i]);
}

/// Extra arguments are handed on as they are: they stand together, in their order, in front of the
/// destination and of the switch that asks for a terminal, if that is added.
pub proof fn law_extra_arguments_are_handed_on(command: &SshCommand, r: Vec<String>) -> (at: int)
    requires
        call_ensures(SshCommand::argv, (command,), r),
    ensures
        ({
            let argv = views(r@);
            let extra = views(command.extra_args@);
            let place = destination_place(*command, argv);
            &&& 0 < at
            &&& at + extra.len() <= place
            &&& argv.subrange(at, at + extra.len()) == extra
            &&& if command.startup_command is Some && !extra.contains("-t"@) {
                place == at + extra.len() + 1 && argv[place - 1] == "-t"@
            } else {
                place == at + extra.len()
            }
        }),
{
    let argv = views(r@);
    let extra = views(command.extra_args@);
    let head = ssh_program(command.use_waypipe, command.use_mptcp) + ssh_endpoint(
        command.port,
        opt_view(command.identity_file),
    ) + default_options(extra, command.control_path@, opt_view(command.known_hosts_path));
    let at = head.len() as int;
    assert(argv.subrange(at, at + extra.len()) =~= extra);
    at
}

/// What the extra arguments leave open is set by default: a connection that others can share, signs of
/// life, and a file for host keys where the usual one cannot be written. Each option stands behind its
/// switch.
pub proof fn law_open_options_are_set(command: &SshCommand, r: Vec<String>)
    requires
        call_ensures(SshCommand::argv, (command,), r),
    ensures
        ({
            let argv = views(r@);
            let extra = views(command.extra_args@);
            let path = "ControlPath="@ + command.control_path@;
            &&& !mentions(extra, "ControlMaster"@) ==> {
                &&& exists|i: int| #[trigger] stands(argv, i, "-o"@, "ControlMaster=auto"@)
                &&& exists|i: int| #[trigger] stands(argv, i, "-o"@, path)
                &&& exists|i: int| #[trigger] stands(argv, i, "-o"@, "ControlPersist=60"@)
            }
            &&& !mentions(extra, "ControlPath"@) ==> exists|i: int| #[trigger]
                stands(argv, i, "-o"@, path)
            &&& !mentions(extra, "ServerAliveInterval"@) ==> exists|i: int| #[trigger]
                stands(argv, i, "-o"@, "ServerAliveInterval=15"@)
            &&& !mentions(extra, "ServerAliveCountMax"@) ==> exists|i: int| #[trigger]
                stands(argv, i, "-o"@, "ServerAliveCountMax=3"@)
            &&& (command.known_hosts_path matches Some(file) ==> !mentions(
                extra,
                "UserKnownHostsFile"@,
            ) ==> exists|i: int| #[trigger]
                stands(argv, i, "-o"@, "UserKnownHostsFile="@ + file@))
        }),
{
    let argv = views(r@);
    let extra = views(command.extra_args@);
    let path = "ControlPath="@ + command.control_path@;
    let n = (ssh_program(command.use_waypipe, command.use_mptcp) + ssh_endpoint(
        command.port,
        opt_view(command.identity_file),
    )).len() as int;
    let options = default_options(extra, command.control_path@, opt_view(command.known_hosts_path));
    assert forall|i: int| 0 <= i < options.len() implies argv[n + i] == #[trigger] options[i] by {}
    let control = control_options(extra, command.control_path@);
    assert forall|i: int| 0 <= i < control.len() implies options[i] == #[trigger] control[i] by {}
    if !mentions(extra, "ControlMaster"@) {
        assert(control[0] == "-o"@ && control[1] == "ControlMaster=auto"@);
        assert(control[2] == "-o"@ && control[3] == path);
        assert(control[4] == "-o"@ && control[5] == "ControlPersist=60"@);
        assert(options[0] == "-o"@ && options[1] == "ControlMaster=auto"@);
        assert(options[2] == "-o"@ && options[3] == path);
        assert(options[4] == "-o"@ && options[5] == "ControlPersist=60"@);
        assert(stands(argv, n, "-o"@, "ControlMaster=auto"@));
        assert(stands(argv, n + 2, "-o"@, path));
        assert(stands(argv, n + 4, "-o"@, "ControlPersist=60"@));
    } else if !mentions(extra, "ControlPath"@) {
        assert(control[0] == "-o"@ && control[1] == path);
        assert(options[0] == "-o"@ && options[1] == path);
        assert(stands(argv, n, "-o"@, path));
    }
    let m = options.len() as int;
    let alive = !mentions(extra, "ServerAliveInterval"@);
    let count = !mentions(extra, "ServerAliveCountMax"@);
    if count {
        assert(options[m - 2] == "-o"@ && options[m - 1] == "ServerAliveCountMax=3"@);
        assert(stands(argv, n + m - 2, "-o"@, "ServerAliveCountMax=3"@));
    }
    let k: int = if count {
        m - 2
    } else {
        m
    };
    if alive {
        assert(options[k - 2] == "-o"@ && options[k - 1] == "ServerAliveInterval=15"@);
        assert(stands(argv, n + k - 2, "-o"@, "ServerAliveInterval=15"@));
    }
    if let Some(file) = command.known_hosts_path {
        if !mentions(extra, "UserKnownHostsFile"@) {
            let c = control.len() as int;
            assert(options[c] == "-o"@ && options[c + 1] == "UserKnownHostsFile="@ + file@);
            assert(stands(argv, n + c, "-o"@, "UserKnownHostsFile="@ + file@));
        }
    }
}

/// Two words where a setting is on.
pub open spec fn two_if(on: bool) -> int {
    if on {
        2
    } else {
        0
    }
}

/// Nothing else stands in a command line: its words are counted, setting by setting.
pub proof fn law_words_of_a_command_are_counted(command: &SshCommand, r: Vec<String>)
    requires
        call_ensures(SshCommand::argv, (command,), r),
    ensures
        ({
            let extra = views(command.extra_args@);
            r@.len() == 2 + extra.len() + two_if(command.use_mptcp) + two_if(command.port != 22) + two_if(
                command.identity_file is Some,
            ) + two_if(!mentions(extra, "ControlMaster"@)) + two_if(!mentions(extra, "ControlMaster"@))
                + two_if(
                !mentions(extra, "ControlMaster"@) || !mentions(extra, "ControlPath"@),
            ) + two_if(command.known_hosts_path is Some && !mentions(extra, "UserKnownHostsFile"@))
                + two_if(!mentions(extra, "ServerAliveInterval"@)) + two_if(
                !mentions(extra, "ServerAliveCountMax"@),
            ) + (if command.use_waypipe {
                1int
            } else {
                0
            }) + (if command.startup_command is Some {
                if extra.contains("-t"@) {
                    1int
                } else {
                    2
                }
            } else {
                0
            })
        }),
{
    let extra = views(command.extra_args@);
    let control = control_options(extra, command.control_path@);
    let options = default_options(extra, command.control_path@, opt_view(command.known_hosts_path));
    assert(views(r@).len() == r@.len());
    assert(control.len() == two_if(!mentions(extra, "ControlMaster"@)) + two_if(
        !mentions(extra, "ControlMaster"@),
    ) + two_if(!mentions(extra, "ControlMaster"@) || !mentions(extra, "ControlPath"@)));
    assert(options.len() == control.len() + two_if(
        command.known_hosts_path is Some && !mentions(extra, "UserKnownHostsFile"@),
    ) + two_if(!mentions(extra, "ServerAliveInterval"@)) + two_if(
        !mentions(extra, "ServerAliveCountMax"@),
    ));
    assert(ssh_endpoint(command.port, opt_view(command.identity_file)).len() == two_if(
        command.port != 22,
    ) + two_if(command.identity_file is Some));
}

/// An argument mentions a word exactly where the word stands in it somewhere.
pub proof fn law_mentioning_is_holding(args: Seq<Seq<char>>, word: Seq<char>)
    ensures
        mentions(args, word) <==> exists|i: int, a: Seq<char>, b: Seq<char>|
            0 <= i < args.len() && #[trigger] args[i] == #[trigger] (a + word + b),
{
    assert forall|i: int| 0 <= i < args.len() implies (found(#[trigger] args[i], word) is Some
        <==> exists|a: Seq<char>, b: Seq<char>| args[i] == #[trigger] (a + word + b)) by {
        text::lemma_contains(args[i], word);
    }
    if exists|i: int, a: Seq<char>, b: Seq<char>|
        0 <= i < args.len() && #[trigger] args[i] == #[trigger] (a + word + b) {
        let (i, a, b) = choose|i: int, a: Seq<char>, b: Seq<char>|
            0 <= i < args.len() && #[trigger] args[i] == #[trigger] (a + word + b);
        assert(found(args[i], word) is Some);
    }
}

/// A Telnet command names its host and its port last, behind the extra arguments.
pub proof fn law_telnet_goes_to_its_host(host: &str, port: u16, extra: &Vec<String>, r: Vec<String>)
    requires
        call_ensures(telnet_argv, (host, port, extra), r),
    ensures
        r@.len() == extra@.len() + 3,
        r@[0]@ == "telnet"@,
        forall|i: int| 0 <= i < extra@.len() ==> r@[i + 1]@ == (#[trigger] extra@[i])@,
        r@[r@.len() - 2]@ == host@,
        r@.last()@ == decimal_of(port as nat),
{
    let argv = views(r@);
    assert(argv.len() == r@.len());
    assert forall|i: int| 0 <= i < extra@.len() implies r@[i + 1]@ == (#[trigger] extra@[i])@ by {
        assert(argv[i + 1] == views(extra@)[i]);
    }
    assert(argv[0] == r@[0]@);
    assert(argv[r@.len() - 2] == r@[r@.len() - 2]@);
    assert(argv[r@.len() - 1] == r@.last()@);
}

/// A command goes by its first word.
pub proof fn law_command_goes_by_its_first_word(argv: &Vec<String>, r: String)
    requires
        call_ensures(command_name, (argv,), r),
    ensures
        argv@.len() > 0 ==> r@ == argv@[0]@,
        argv@.len() == 0 ==> r@.len() == 0,
{
    reveal_strlit("");
}

/// A command that does not start is named, and a missing program is told apart: by the terminal
/// always, on a pseudo-terminal of our own where the error says so. Every other error is shown.
pub proof fn law_failed_command_is_explained(
    path: SpawnPath,
    command: &str,
    error: &str,
    r: SpawnFailure,
)
    requires
        call_ensures(spawn_failure, (path, command, error), r),
    ensures
        ({
            let missing = path == SpawnPath::Terminal || (path == SpawnPath::NativePty && is_missing(
                error@,
            ));
            &&& r.banner is None <==> path == SpawnPath::Relay
            &&& (missing ==> r.toast@ == with_args("'{}' is not installed"@, seq![command@]) && (
            r.banner matches Some(b) && b@ == with_args("Command not found: {}"@, seq![command@])))
            &&& (!missing ==> r.toast@ == with_args(
                "Failed to start '{}': {}"@,
                seq![command@, error@],
            ) && (r.banner matches Some(b) ==> b@ == with_args(
                "Failed to start '{}'"@,
                seq![command@],
            )))
        }),
{
}

/// An error says that a program is missing where it holds the system's words for it, or the number of
/// that error with no further digit behind it.
pub proof fn law_missing_program_is_recognised(a: Seq<char>, b: Seq<char>)
    ensures
        is_missing(a + "No such file or directory"@ + b),
        b.len() == 0 || !('0' <= b[0] <= '9') ==> is_missing(a + "os error 2"@ + b),
{
    let words = "No such file or directory"@;
    let code = "os error 2"@;
    text::lemma_contains(a + words + b, words);
    assert(is_missing(a + words + b));
    let e = a + code + b;
    if b.len() == 0 || !('0' <= b[0] <= '9') {
        assert(has_missing_code(e)) by {
            reveal_strlit("os error 2");
            assert(code.len() == 10);
            let p = a.len() as int;
            assert(e.subrange(p, p + 10) =~= code);
            assert(matches_at(e, code, p));
            if p + 10 < e.len() {
                assert(e[p + 10] == b[0]);
            }
        }
    }
}

/// Whether a text holds the number of the error for a missing file, with no further digit behind it.
pub open spec fn numbers_a_missing_file(e: Seq<char>) -> bool {
    exists|x: Seq<char>, y: Seq<char>|
        e == #[trigger] (x + "os error 2"@ + y) && (y.len() == 0 || !('0' <= y[0] <= '9'))
}

/// An error that holds neither the system's words for a missing file nor the number of that error
/// says something else.
#[verifier::spinoff_prover]
pub proof fn law_other_errors_are_not_a_missing_program(e: Seq<char>)
    ensures
        is_missing(e) <==> (exists|x: Seq<char>, y: Seq<char>|
            e == #[trigger] (x + "No such file or directory"@ + y)) || numbers_a_missing_file(e),
{
    let words = "No such file or directory"@;
    let code = "os error 2"@;
    text::lemma_contains(e, words);
    if is_missing(e) && found(e, words) is None {
        assert(numbers_a_missing_file(e)) by {
            reveal_strlit("os error 2");
            assert(code.len() == 10);
            let p = choose|p: int|
                0 <= p && #[trigger] matches_at(e, code, p) && !(p + 10 < e.len() && '0' <= e[p + 10]
                    <= '9');
            let x = e.take(p);
            let y = e.skip(p + 10);
            assert(e =~= x + e.subrange(p, p + 10) + y);
            assert(e == x + code + y);
            assert(y.len() > 0 ==> y[0] == e[p + 10]);
        }
    }
    if numbers_a_missing_file(e) {
        let (x, y) = choose|x: Seq<char>, y: Seq<char>|
            e == #[trigger] (x + code + y) && (y.len() == 0 || !('0' <= y[0] <= '9'));
        law_missing_program_is_recognised(x, y);
    }
}

/// Keys are scheduled one by one: what is typed comes after all pauses before it, a pause types
/// nothing and delays what follows, and an unresolved variable does neither.
pub proof fn law_keys_wait_for_the_pauses_before_them(elements: Seq<KeyElement>, next: KeyElement)
    ensures
        match next {
            KeyElement::Text(text) => timed(elements.push(next)) == timed(elements).push(
                (waited(elements), KeysView::Text(text@)),
            ) && waited(elements.push(next)) == waited(elements),
            KeyElement::SpecialKey(bytes) => timed(elements.push(next)) == timed(elements).push(
                (waited(elements), KeysView::Bytes(bytes@)),
            ) && waited(elements.push(next)) == waited(elements),
            KeyElement::Wait(ms) => timed(elements.push(next)) == timed(elements) && waited(
                elements.push(next),
            ) == waited(elements) + ms,
            KeyElement::Variable(_) => timed(elements.push(next)) == timed(elements) && waited(
                elements.push(next),
            ) == waited(elements),
        },
        timed(Seq::empty()).len() == 0,
        waited(Seq::empty()) == 0,
{
    assert(elements.push(next).drop_last() =~= elements);
}

/// What a Telnet key sends is what the terminal is told.
pub proof fn law_telnet_keys_are_bound(sends: TelnetKeySends, r: EraseBinding)
    requires
        call_ensures(erase_binding, (sends,), r),
    ensures
        r == EraseBinding::AsciiBackspace <==> sends == TelnetKeySends::Backspace,
        r == EraseBinding::AsciiDelete <==> sends == TelnetKeySends::Delete,
{
}

} // verus!

//! What runs in the sessions: their commands, what is typed into them, and what they show.

use crate::i18n::Message;
use crate::terminal::commands::{command_name, command_name_of, erase_binding, failure_banner, failure_toast, key_schedule, schedule_view, spawn_failure, telnet_argv, telnet_command, timed, waited, EraseBinding, KeyElement, SpawnPath, SshCommand, TelnetKeySends, TimedKeys};
use crate::terminal::environment::{build_child_env, child_env, SpawnContext};
use crate::terminal::notebook::laws::{same_place, same_session};
use crate::terminal::notebook::sessions::Page;
use crate::terminal::notebook::{AttachedView, NotebookView, TerminalNotebook};
use crate::terminal::tabs::Indicator;
use crate::text::{self, lines_of, opt_str_view, opt_view, trimmed, views};
use vstd::prelude::*;

verus! {

broadcast use vstd::std_specs::hash::group_hash_axioms;

/// A command that is to be started for a session.
pub struct SpawnPlan {
    pub argv: Vec<String>,
    pub env: Vec<String>,
    pub working_directory: Option<String>,
}

/// A command that is to be started for a session.
pub struct SpawnPlanView {
    pub argv: Seq<Seq<char>>,
    pub env: Seq<Seq<char>>,
    pub working_directory: Option<Seq<char>>,
}

impl View for SpawnPlan {
    type V = SpawnPlanView;

    open spec fn view(&self) -> SpawnPlanView {
        SpawnPlanView {
            argv: views(self.argv@),
            env: views(self.env@),
            working_directory: opt_view(self.working_directory),
        }
    }
}

/// The view of an optional plan.
pub open spec fn plan_view(plan: Option<SpawnPlan>) -> Option<SpawnPlanView> {
    match plan {
        Some(p) => Some(p@),
        None => None,
    }
}

/// What is said of a command that did not start.
pub struct FailedSpawn {
    /// The banner in the session's tab, and the connection that its button connects again.
    pub banner: Option<(Message, u128)>,
    pub toast: Message,
}

/// The way that text takes to a session.
#[derive(Clone, Copy, Debug, PartialEq, Eq, Structural)]
pub enum TextRoute {
    /// Through the session's relay, or through the terminal if the relay fails and there is one.
    Relay { or_terminal: bool },
    /// Through the terminal.
    Terminal,
    Nowhere,
}

impl NotebookView {
    /// The command for a session that has a terminal.
    pub open spec fn plan(
        self,
        id: u128,
        argv: Seq<Seq<char>>,
        env: Seq<Seq<char>>,
        working_directory: Option<Seq<char>>,
    ) -> Option<SpawnPlanView> {
        if self.terminals.contains(id) {
            Some(SpawnPlanView { argv, env, working_directory })
        } else {
            None
        }
    }

    /// The notebook with a process for a session.
    pub open spec fn started(self, id: u128, pid: i32) -> NotebookView {
        NotebookView {
            attached: AttachedView {
                child_pids: self.attached.child_pids.insert(id, pid),
                ..self.attached
            },
            ..self
        }
    }

    /// The notebook with a relay for a session that has a terminal.
    pub open spec fn relayed(self, id: u128) -> NotebookView {
        if self.terminals.contains(id) {
            NotebookView {
                attached: AttachedView {
                    pty_relays: self.attached.pty_relays.insert(id),
                    ..self.attached
                },
                ..self
            }
        } else {
            self
        }
    }

    /// The notebook without the process of a session, which has ended by itself.
    pub open spec fn exited(self, id: u128) -> NotebookView {
        NotebookView {
            attached: AttachedView {
                child_pids: self.attached.child_pids.remove(id),
                ..self.attached
            },
            ..self
        }
    }

    /// The connection that a banner in a session's tab connects again; the nil one where nothing is
    /// known of the session.
    pub open spec fn banner_connection(self, id: u128) -> u128 {
        if self.info.contains_key(id) {
            self.info[id].connection_id
        } else {
            0
        }
    }

    /// The notebook after a command did not start.
    pub open spec fn spawn_failed(self, id: u128, path: SpawnPath) -> NotebookView {
        if path == SpawnPath::Relay {
            self
        } else {
            self.with_indicator(id, Indicator::Offline)
        }
    }

    /// The way that text takes to a session.
    pub open spec fn text_route(self, id: u128) -> TextRoute {
        if self.attached.pty_relays.contains(id) {
            TextRoute::Relay { or_terminal: self.terminals.contains(id) }
        } else if self.terminals.contains(id) {
            TextRoute::Terminal
        } else {
            TextRoute::Nowhere
        }
    }

    /// The row of the cursor, counted from where the session's present connection started.
    pub open spec fn cursor_row(self, id: u128, row: i64) -> Option<int> {
        if !self.terminals.contains(id) {
            None
        } else if !self.row_base.contains_key(id) {
            Some(row as int)
        } else {
            match self.row_base[id] {
                Some(base) => Some(if row > base {
                    row - base
                } else {
                    0
                }),
                None => Some(0),
            }
        }
    }

    /// The notebook after the row of the cursor was read: the first reading after a reconnect is
    /// where the present connection started.
    pub open spec fn row_read(self, id: u128, row: i64) -> NotebookView {
        if self.terminals.contains(id) && self.row_base.contains_key(id) && self.row_base[id] is None {
            NotebookView { row_base: self.row_base.insert(id, Some(row)), ..self }
        } else {
            self
        }
    }

    /// The notebook with highlight rules for a session. They are drawn where the session's terminal
    /// has a layer for that.
    pub open spec fn highlighted(self, id: u128) -> NotebookView {
        NotebookView {
            attached: AttachedView {
                highlight_rules: self.attached.highlight_rules.insert(id),
                highlight_overlays: if !self.terminals.contains(id) {
                    self.attached.highlight_overlays
                } else if self.attached.terminal_overlays.contains(id) {
                    self.attached.highlight_overlays.insert(id)
                } else {
                    self.attached.highlight_overlays.remove(id)
                },
                ..self.attached
            },
            ..self
        }
    }
}

fn copied(o: Option<&str>) -> (r: Option<String>)
    ensures
        opt_view(r) == opt_str_view(o),
{
    match o {
        Some(s) => Some(s.to_owned()),
        None => None,
    }
}

impl TerminalNotebook {
    /// The command that the terminal itself is to start. `never_askpass` says whether external
    /// askpass programs are switched off, as on macOS. `None` where the session has no terminal.
    pub fn spawn_command(
        &self,
        session_id: u128,
        argv: Vec<String>,
        envv: &Vec<String>,
        working_directory: Option<&str>,
        ssh_agent_socket: Option<&str>,
        context: &SpawnContext,
        never_askpass: bool,
    ) -> (r: Option<SpawnPlan>)
        ensures
            plan_view(r) == self@.plan(
                session_id,
                views(argv@),
                child_env(
                    *context,
                    never_askpass,
                    opt_str_view(ssh_agent_socket),
                    views(envv@),
                ),
                opt_str_view(working_directory),
            ),
    {
        if !self.terminals.contains(&session_id) {
            return None;
        }
        let env = build_child_env(context, never_askpass, ssh_agent_socket, envv);
        Some(SpawnPlan { argv, env, working_directory: copied(working_directory) })
    }

    /// The command that is to be started on a relay.
    pub fn spawn_command_with_relay(
        &self,
        session_id: u128,
        argv: Vec<String>,
        envv: &Vec<String>,
        working_directory: Option<&str>,
        ssh_agent_socket: Option<&str>,
        context: &SpawnContext,
    ) -> (r: Option<SpawnPlan>)
        ensures
            plan_view(r) == self@.plan(
                session_id,
                views(argv@),
                child_env(*context, false, opt_str_view(ssh_agent_socket), views(envv@)),
                opt_str_view(working_directory),
            ),
    {
        self.spawn_command(
            session_id,
            argv,
            envv,
            working_directory,
            ssh_agent_socket,
            context,
            false,
        )
    }

    /// The SSH command of a session.
    pub fn spawn_ssh(
        &self,
        session_id: u128,
        command: &SshCommand,
        extra_env: &Vec<String>,
        ssh_agent_socket: Option<&str>,
        context: &SpawnContext,
    ) -> (r: Option<SpawnPlan>)
        ensures
            plan_view(r) == self@.plan(
                session_id,
                command.spec_argv(),
                child_env(*context, false, opt_str_view(ssh_agent_socket), views(extra_env@)),
                None,
            ),
    {
        self.spawn_command_with_relay(
            session_id,
            command.argv(),
            extra_env,
            None,
            ssh_agent_socket,
            context,
        )
    }

    /// The Telnet command of a session, and what the terminal is to send for the erasing keys,
    /// backspace first.
    pub fn spawn_telnet(
        &self,
        session_id: u128,
        host: &str,
        port: u16,
        extra_args: &Vec<String>,
        backspace_sends: TelnetKeySends,
        delete_sends: TelnetKeySends,
        context: &SpawnContext,
    ) -> (r: Option<(SpawnPlan, EraseBinding, EraseBinding)>)
        ensures
            match r {
                Some((plan, backspace, delete)) => {
                    &&& Some(plan@) == self@.plan(
                        session_id,
                        telnet_command(host@, port, views(extra_args@)),
                        child_env(*context, false, None, Seq::empty()),
                        None,
                    )
                    &&& backspace == binding_of(backspace_sends)
                    &&& delete == binding_of(delete_sends)
                },
                None => !self@.terminals.contains(session_id),
            },
    {
        let none: Vec<String> = Vec::new();
        assert(views(none@) =~= Seq::empty());
        let argv = telnet_argv(host, port, extra_args);
        match self.spawn_command_with_relay(session_id, argv, &none, None, None, context) {
            Some(plan) => Some(
                (plan, erase_binding(backspace_sends), erase_binding(delete_sends)),
            ),
            None => None,
        }
    }

    /// The command of a serial session, which is given.
    pub fn spawn_serial(&self, session_id: u128, command: Vec<String>, context: &SpawnContext) -> (r:
        Option<SpawnPlan>)
        ensures
            plan_view(r) == self@.plan(
                session_id,
                views(command@),
                child_env(*context, false, None, Seq::empty()),
                None,
            ),
    {
        let none: Vec<String> = Vec::new();
        assert(views(none@) =~= Seq::empty());
        self.spawn_command_with_relay(session_id, command, &none, None, None, context)
    }

    /// Notes the process that was started for a session.
    pub fn command_started(&mut self, session_id: u128, pid: i32)
        ensures
            final(self)@ == old(self)@.started(session_id, pid),
    {
        self.attached.child_pids.insert(session_id, pid);
    }

    /// Notes that a command did not start, and says so. Without a tab there is no place for a
    /// banner.
    pub fn command_failed(&mut self, session_id: u128, path: SpawnPath, argv: &Vec<String>, error: &str) -> (r:
        FailedSpawn)
        ensures
            final(self)@ == old(self)@.spawn_failed(session_id, path),
            r.toast@ == failure_toast(path, command_name_of(views(argv@)), error@),
            match r.banner {
                Some((message, connection_id)) => {
                    &&& old(self)@.tabs.contains_key(session_id)
                    &&& failure_banner(path, command_name_of(views(argv@)), error@) == Some(message@)
                    &&& connection_id == old(self)@.banner_connection(session_id)
                },
                None => !old(self)@.tabs.contains_key(session_id) || path == SpawnPath::Relay,
            },
    {
        let name = command_name(argv);
        let failure = spawn_failure(path, &name, error);
        if let SpawnPath::Relay = path {
            return FailedSpawn { banner: None, toast: failure.toast };
        }
        if !self.tabs.contains_key(&session_id) {
            return FailedSpawn { banner: None, toast: failure.toast };
        }
        if let Some(mut tab) = self.tabs.remove(&session_id) {
            tab.indicator = Indicator::Offline;
            self.tabs.insert(session_id, tab);
        }
        assert(self@ =~= old(self)@.spawn_failed(session_id, path));
        let connection_id: u128 = match self.session_info.get(&session_id) {
            Some(info) => info.connection_id,
            None => 0,
        };
        let banner = match failure.banner {
            Some(message) => Some((message, connection_id)),
            None => None,
        };
        FailedSpawn { banner, toast: failure.toast }
    }

    /// Notes that the process of a session has ended by itself.
    pub fn child_exited(&mut self, session_id: u128)
        ensures
            final(self)@ == old(self)@.exited(session_id),
    {
        self.attached.child_pids.remove(&session_id);
    }

    /// Notes that a session's input and output go through a relay.
    pub fn register_relay(&mut self, session_id: u128)
        ensures
            final(self)@ == old(self)@.relayed(session_id),
    {
        if self.terminals.contains(&session_id) {
            self.attached.pty_relays.insert(session_id);
        }
    }

    /// Notes that a session has no relay any more.
    pub fn remove_relay(&mut self, session_id: u128)
        ensures
            final(self)@ == (NotebookView {
                attached: AttachedView {
                    pty_relays: old(self)@.attached.pty_relays.remove(session_id),
                    ..old(self)@.attached
                },
                ..old(self)@
            }),
    {
        self.attached.pty_relays.remove(&session_id);
    }

    /// Whether a session's input and output go through a relay.
    pub fn has_relay(&self, session_id: u128) -> (r: bool)
        ensures
            r == self@.attached.pty_relays.contains(session_id),
    {
        self.attached.pty_relays.contains(&session_id)
    }

    /// Notes that a session needs an SSH tunnel, which is closed with it.
    pub fn store_ssh_tunnel(&mut self, session_id: u128)
        ensures
            final(self)@ == (NotebookView {
                attached: AttachedView {
                    ssh_tunnels: old(self)@.attached.ssh_tunnels.insert(session_id),
                    ..old(self)@.attached
                },
                ..old(self)@
            }),
    {
        self.attached.ssh_tunnels.insert(session_id);
    }

    /// Ends the automation of a session and scrubs the responses that were never sent.
    pub fn clear_automation_session(&mut self, session_id: u128)
        ensures
            final(self)@ == (NotebookView {
                attached: AttachedView {
                    automation: old(self)@.attached.automation.remove(session_id),
                    ..old(self)@.attached
                },
                ..old(self)@
            }),
    {
        self.drop_automation(session_id);
    }

    /// Notes that a session has highlight rules.
    pub fn set_highlight_rules(&mut self, session_id: u128)
        ensures
            final(self)@ == old(self)@.highlighted(session_id),
    {
        self.attached.highlight_rules.insert(session_id);
        if self.terminals.contains(&session_id) {
            self.attached.highlight_overlays.remove(&session_id);
            if self.attached.terminal_overlays.contains(&session_id) {
                self.attached.highlight_overlays.insert(session_id);
            }
        }
        assert(self@ =~= old(self)@.highlighted(session_id));
    }

    /// The way that text takes to a session.
    pub fn send_text_to_session(&self, session_id: u128) -> (r: TextRoute)
        ensures
            r == self@.text_route(session_id),
    {
        let terminal = self.terminals.contains(&session_id);
        if self.attached.pty_relays.contains(&session_id) {
            TextRoute::Relay { or_terminal: terminal }
        } else if terminal {
            TextRoute::Terminal
        } else {
            TextRoute::Nowhere
        }
    }

    /// The way that text takes to the session whose page is selected.
    pub fn send_text(&self, selected: Option<Page>) -> (r: Option<(u128, TextRoute)>)
        ensures
            r == match selected {
                Some(page) => match self@.session_of(page) {
                    Some(id) => Some((id, self@.text_route(id))),
                    None => None,
                },
                None => None,
            },
    {
        match self.get_active_session_id(selected) {
            Some(id) => Some((id, self.send_text_to_session(id))),
            None => None,
        }
    }

    /// The text at the cursor of a session, for a look at a password prompt. Where nothing is shown,
    /// that is the cursor's line as it is. `None` only without a terminal.
    pub fn get_cursor_line_text(
        &self,
        session_id: u128,
        line: Option<&str>,
        screen: Option<&str>,
    ) -> (r: Option<String>)
        ensures
            opt_view(r) == (if self@.terminals.contains(session_id) {
                Some(cursor_or_blank(opt_str_view(line), opt_str_view(screen)))
            } else {
                None
            }),
    {
        if !self.get_terminal(session_id) {
            return None;
        }
        match cursor_line_text(line, screen) {
            Some(text) => Some(text),
            None => match line {
                Some(l) => Some(l.to_owned()),
                None => {
                    let blank = String::new();
                    assert(blank@ =~= Seq::<char>::empty());
                    Some(blank)
                },
            },
        }
    }

    /// Whether a session has a terminal, to show output on or to read from.
    pub fn get_terminal(&self, session_id: u128) -> (r: bool)
        ensures
            r == self@.terminals.contains(session_id),
    {
        self.terminals.contains(&session_id)
    }

    /// When each part of a key sequence is typed. `None` where the session has no terminal.
    pub fn execute_key_sequence(&self, session_id: u128, elements: Vec<KeyElement>) -> (r: Option<
        Vec<TimedKeys>,
    >)
        requires
            waited(elements@) <= u64::MAX,
        ensures
            match r {
                Some(schedule) => self@.terminals.contains(session_id) && schedule_view(schedule@)
                    == timed(elements@),
                None => !self@.terminals.contains(session_id),
            },
    {
        if !self.terminals.contains(&session_id) {
            return None;
        }
        Some(key_schedule(elements))
    }

    /// The row of the cursor, counted from where the session's present connection started; `row` is
    /// the row that the terminal gives.
    pub fn get_terminal_cursor_row(&mut self, session_id: u128, row: i64) -> (r: Option<i64>)
        requires
            old(self)@.cursor_row(session_id, row) matches Some(n) ==> n <= i64::MAX,
        ensures
            final(self)@ == old(self)@.row_read(session_id, row),
            match r {
                Some(n) => old(self)@.cursor_row(session_id, row) == Some(n as int),
                None => old(self)@.cursor_row(session_id, row) is None,
            },
    {
        if !self.terminals.contains(&session_id) {
            return None;
        }
        let base = match self.cursor_row_base.get(&session_id) {
            Some(base) => *base,
            None => {
                return Some(row);
            },
        };
        match base {
            Some(base) => {
                if row > base {
                    Some(row - base)
                } else {
                    Some(0)
                }
            },
            None => {
                self.cursor_row_base.insert(session_id, Some(row));
                assert(self@ =~= old(self)@.row_read(session_id, row));
                Some(0)
            },
        }
    }
}

/// The terminal's binding for what a Telnet key sends.
pub open spec fn binding_of(sends: TelnetKeySends) -> EraseBinding {
    match sends {
        TelnetKeySends::Automatic => EraseBinding::Auto,
        TelnetKeySends::Backspace => EraseBinding::AsciiBackspace,
        TelnetKeySends::Delete => EraseBinding::AsciiDelete,
    }
}

/// Whether a line shows anything.
pub open spec fn shows(line: Seq<char>) -> bool {
    trimmed(line).len() > 0
}

/// The last of the first `n` lines that shows anything.
pub open spec fn last_shown(lines: Seq<Seq<char>>, n: int) -> Option<Seq<char>>
    decreases n,
{
    if n <= 0 {
        None
    } else if shows(lines[n - 1]) {
        Some(lines[n - 1])
    } else {
        last_shown(lines, n - 1)
    }
}

/// The text at the cursor: its line, or else the last line of the screen that shows anything.
pub open spec fn cursor_text(line: Option<Seq<char>>, screen: Option<Seq<char>>) -> Option<Seq<char>> {
    if line is Some && shows(line->0) {
        line
    } else {
        match screen {
            Some(text) => last_shown(lines_of(text), lines_of(text).len() as int),
            None => None,
        }
    }
}

/// The text at the cursor, or the cursor's line as it is where nothing is shown; a line that could not
/// be read is empty.
pub open spec fn cursor_or_blank(line: Option<Seq<char>>, screen: Option<Seq<char>>) -> Seq<char> {
    match cursor_text(line, screen) {
        Some(text) => text,
        None => match line {
            Some(l) => l,
            None => Seq::empty(),
        },
    }
}

/// Picks the text at the cursor out of its line and of the screen that ends there.
pub fn cursor_line_text(line: Option<&str>, screen: Option<&str>) -> (r: Option<String>)
    ensures
        opt_view(r) == cursor_text(opt_str_view(line), opt_str_view(screen)),
{
    if let Some(l) = line {
        if text::trim(l).unicode_len() > 0 {
            return Some(l.to_owned());
        }
    }
    match screen {
        Some(s) => {
            let lines = text::lines(s);
            let ghost all = lines_of(s@);
            let mut i: usize = lines.len();
            assert(views(lines@) == all);
            while i > 0
                invariant
                    i <= lines@.len(),
                    views(lines@) == all,
                    all == lines_of(s@),
                    opt_str_view(screen) == Some(s@),
                    opt_str_view(line) matches Some(l) ==> !shows(l),
                    last_shown(all, all.len() as int) == last_shown(all, i as int),
                decreases i,
            {
                i -= 1;
                assert(all[i as int] == lines@[i as int]@);
                if text::trim(&lines[i]).unicode_len() > 0 {
                    return Some(lines[i].clone());
                }
            }
            None
        },
        None => None,
    }
}

/// The first row of the screen that ends at the cursor's row.
pub fn screen_start(row: i64, row_count: i64) -> (r: i64)
    requires
        i64::MIN <= row - row_count < i64::MAX,
    ensures
        r == (if row - row_count + 1 > 0 {
            row - row_count + 1
        } else {
            0
        }),
{
    let start: i64 = row - row_count + 1;
    if start > 0 {
        start
    } else {
        0
    }
}

/// A session that was connected again counts its rows from zero, however much history it kept.
pub proof fn law_reconnected_session_counts_from_zero(v: NotebookView, id: u128, row: i64, later: i64)
    requires
        v.terminals.contains(id),
        v.can_reconnect(id),
        v.keep_history,
        row <= later,
    ensures
        ({
            let ready = v.ready_to_reconnect(id);
            &&& ready.cursor_row(id, row) == Some(0int)
            &&& ready.row_read(id, row).cursor_row(id, later) == Some(later - row)
        }),
{
}

/// A relay that is there is used, and no relay outlasts its session.
pub proof fn law_relay_goes_with_its_session(v: NotebookView, id: u128)
    requires
        v.terminals.contains(id),
    ensures
        v.relayed(id).text_route(id) == (TextRoute::Relay { or_terminal: true }),
        v.relayed(id).ended(id).text_route(id) == TextRoute::Nowhere,
{
}

/// A command is planned exactly for a session that has a terminal, and then as it was given.
pub proof fn law_command_is_planned_for_a_terminal(
    v: NotebookView,
    id: u128,
    argv: Seq<Seq<char>>,
    env: Seq<Seq<char>>,
    dir: Option<Seq<char>>,
)
    ensures
        v.plan(id, argv, env, dir) is Some <==> v.terminals.contains(id),
        v.plan(id, argv, env, dir) matches Some(plan) ==> plan.argv == argv && plan.env == env
            && plan.working_directory == dir,
{
}

/// An SSH session runs its command line, and a Telnet session its own, with the keys bound as they were
/// chosen.
pub proof fn law_session_runs_its_command(
    notebook: &TerminalNotebook,
    id: u128,
    command: &SshCommand,
    argv: Vec<String>,
    extra_env: &Vec<String>,
    socket: Option<&str>,
    context: &SpawnContext,
    ssh: Option<SpawnPlan>,
    host: &str,
    port: u16,
    extra: &Vec<String>,
    backspace: TelnetKeySends,
    delete: TelnetKeySends,
    telnet_words: Vec<String>,
    telnet: Option<(SpawnPlan, EraseBinding, EraseBinding)>,
)
    requires
        call_ensures(SshCommand::argv, (command,), argv),
        call_ensures(
            TerminalNotebook::spawn_ssh,
            (notebook, id, command, extra_env, socket, context),
            ssh,
        ),
        call_ensures(telnet_argv, (host, port, extra), telnet_words),
        call_ensures(
            TerminalNotebook::spawn_telnet,
            (notebook, id, host, port, extra, backspace, delete, context),
            telnet,
        ),
    ensures
        ssh is Some <==> notebook@.terminals.contains(id),
        ssh matches Some(plan) ==> views(plan.argv@) == views(argv@) && plan.working_directory is None,
        telnet is Some <==> notebook@.terminals.contains(id),
        telnet matches Some(plan) ==> {
            &&& views(plan.0.argv@) == views(telnet_words@)
            &&& plan.0.working_directory is None
            &&& plan.1 == EraseBinding::AsciiBackspace <==> backspace == TelnetKeySends::Backspace
            &&& plan.1 == EraseBinding::AsciiDelete <==> backspace == TelnetKeySends::Delete
            &&& plan.2 == EraseBinding::AsciiBackspace <==> delete == TelnetKeySends::Backspace
            &&& plan.2 == EraseBinding::AsciiDelete <==> delete == TelnetKeySends::Delete
        },
{
    if let Some(plan) = ssh {
        assert(plan@.argv == views(argv@));
        assert(plan@.working_directory is None);
    }
    if let Some(plan) = telnet {
        assert(plan.0@.argv == views(telnet_words@));
        assert(plan.0@.working_directory is None);
    }
}

/// A process that was started is known until it ends by itself; no other session's process is touched,
/// nor anything else.
pub proof fn law_process_is_known_while_it_runs(v: NotebookView, id: u128, pid: i32, other: u128)
    requires
        other != id,
    ensures
        v.started(id, pid).attached.child_pids.contains_key(id),
        v.started(id, pid).attached.child_pids[id] == pid,
        !v.started(id, pid).exited(id).attached.child_pids.contains_key(id),
        same_session(v, v.started(id, pid), other),
        same_session(v, v.exited(id), other),
        same_place(v, v.started(id, pid), id),
        same_place(v, v.exited(id), id),
        v.started(id, pid).info == v.info,
        v.exited(id).info == v.info,
        v.exited(id).attached.automation == v.attached.automation,
        v.exited(id).attached.pty_relays == v.attached.pty_relays,
{
}

/// A relay is used exactly for a session that has a terminal and was given one; text goes through it,
/// or else through the terminal, or else nowhere.
pub proof fn law_text_takes_the_relay(
    notebook: &TerminalNotebook,
    id: u128,
    r: TextRoute,
    relay: bool,
    terminal: bool,
    page: Option<Page>,
    selected: Option<u128>,
    sent: Option<(u128, TextRoute)>,
)
    requires
        call_ensures(TerminalNotebook::send_text_to_session, (notebook, id), r),
        call_ensures(TerminalNotebook::has_relay, (notebook, id), relay),
        call_ensures(TerminalNotebook::get_terminal, (notebook, id), terminal),
        call_ensures(TerminalNotebook::get_active_session_id, (notebook, page), selected),
        call_ensures(TerminalNotebook::send_text, (notebook, page), sent),
    ensures
        r is Relay <==> relay,
        r == TextRoute::Terminal <==> !relay && terminal,
        r matches TextRoute::Relay { or_terminal } ==> (or_terminal <==> terminal),
        relay <==> notebook@.attached.pty_relays.contains(id),
        terminal <==> notebook@.terminals.contains(id),
        sent is Some <==> selected is Some,
        sent matches Some(to) ==> selected == Some(to.0) && (to.0 == id ==> to.1 == r),
{
}

/// A relay is noted exactly for a session that has a terminal.
pub proof fn law_relay_is_noted_for_a_terminal(v: NotebookView, id: u128, other: u128)
    requires
        other != id,
    ensures
        v.terminals.contains(id) ==> v.relayed(id).attached.pty_relays == v.attached.pty_relays.insert(
            id,
        ),
        !v.terminals.contains(id) ==> v.relayed(id) == v,
        same_session(v, v.relayed(id), other),
        v.relayed(id).info == v.info,
        v.relayed(id).tabs == v.tabs,
{
}

/// A command that did not start marks the tab, unless it was to run on a relay; its banner, where the
/// session has a tab, connects the session's connection again.
pub proof fn law_failed_start_is_marked(v: NotebookView, id: u128, path: SpawnPath, other: u128)
    ensures
        path == SpawnPath::Relay ==> v.spawn_failed(id, path) == v,
        path != SpawnPath::Relay && v.tabs.contains_key(id) ==> v.spawn_failed(
            id,
            path,
        ).tabs[id].indicator == Indicator::Offline,
        v.spawn_failed(id, path).tabs.dom() == v.tabs.dom(),
        v.spawn_failed(id, path).info == v.info,
        v.spawn_failed(id, path).attached == v.attached,
        other != id ==> same_session(v, v.spawn_failed(id, path), other),
        v.info.contains_key(id) ==> v.banner_connection(id) == v.info[id].connection_id,
        !v.info.contains_key(id) ==> v.banner_connection(id) == 0,
{
    assert(v.spawn_failed(id, path).tabs.dom() =~= v.tabs.dom());
}

/// The row of the cursor is counted from where the present connection started, and never below zero;
/// a session that was never connected again counts as the terminal does, and one without a terminal
/// not at all.
pub proof fn law_rows_are_counted_from_the_connection(v: NotebookView, id: u128, row: i64, base: i64)
    ensures
        v.cursor_row(id, row) is None <==> !v.terminals.contains(id),
        v.terminals.contains(id) && !v.row_base.contains_key(id) ==> v.cursor_row(id, row) == Some(
            row as int,
        ) && v.row_read(id, row) == v,
        v.terminals.contains(id) && v.row_base.contains_key(id) && v.row_base[id] == Some(base) ==> (
        row >= base ==> v.cursor_row(id, row) == Some(row - base)) && (row < base ==> v.cursor_row(
            id,
            row,
        ) == Some(0int)) && v.row_read(id, row) == v,
        v.terminals.contains(id) && v.row_base.contains_key(id) && v.row_base[id] is None
            ==> v.cursor_row(id, row) == Some(0int) && v.row_read(id, row).row_base[id] == Some(row)
            && v.row_read(id, row).tabs == v.tabs,
{
}

/// Highlights are drawn exactly where there are rules, a terminal and a layer to draw on.
pub proof fn law_highlights_need_a_layer(v: NotebookView, id: u128, other: u128)
    requires
        other != id,
    ensures
        v.highlighted(id).attached.highlight_rules == v.attached.highlight_rules.insert(id),
        v.terminals.contains(id) ==> (v.highlighted(id).attached.highlight_overlays.contains(id)
            <==> v.attached.terminal_overlays.contains(id)),
        !v.terminals.contains(id) ==> v.highlighted(id).attached.highlight_overlays
            == v.attached.highlight_overlays,
        same_session(v, v.highlighted(id), other),
        v.highlighted(id).tabs == v.tabs,
        v.highlighted(id).info == v.info,
{
}

/// The text at the cursor is its line where that shows anything; otherwise it is the last line of the
/// screen that does, and no line behind that one shows anything.
pub proof fn law_cursor_text_is_the_last_that_shows(
    line: Option<&str>,
    screen: Option<&str>,
    r: Option<String>,
)
    requires
        call_ensures(cursor_line_text, (line, screen), r),
    ensures
        (line matches Some(l) && shows_something(l@)) ==> (r matches Some(t) && t@ == line->0@),
        !(line matches Some(l) && shows_something(l@)) && screen is None ==> r is None,
        !(line matches Some(l) && shows_something(l@)) ==> (screen matches Some(s) ==> match r {
            Some(t) => exists|i: int|
                0 <= i < lines_of(s@).len() && #[trigger] lines_of(s@)[i] == t@ && shows_something(t@)
                    && forall|j: int|
                    i < j < lines_of(s@).len() ==> !shows_something(#[trigger] lines_of(s@)[j]),
            None => forall|j: int|
                0 <= j < lines_of(s@).len() ==> !shows_something(#[trigger] lines_of(s@)[j]),
        }),
{
    if let Some(l) = line {
        text::lemma_trimmed(l@);
    }
    if let Some(s) = screen {
        lemma_last_shown(lines_of(s@), lines_of(s@).len() as int);
    }
}

/// Whether a text holds anything but whitespace.
pub open spec fn shows_something(s: Seq<char>) -> bool {
    exists|i: int| 0 <= i < s.len() && !text::is_space(#[trigger] s[i])
}

proof fn lemma_last_shown(lines: Seq<Seq<char>>, n: int)
    requires
        0 <= n <= lines.len(),
    ensures
        match last_shown(lines, n) {
            Some(t) => exists|i: int|
                0 <= i < n && #[trigger] lines[i] == t && shows_something(t) && forall|j: int|
                    i < j < n ==> !shows_something(#[trigger] lines[j]),
            None => forall|j: int| 0 <= j < n ==> !shows_something(#[trigger] lines[j]),
        },
    decreases n,
{
    if n > 0 {
        text::lemma_trimmed(lines[n - 1]);
        assert(shows(lines[n - 1]) <==> shows_something(lines[n - 1]));
        if !shows(lines[n - 1]) {
            lemma_last_shown(lines, n - 1);
        } else {
            assert(lines[n - 1] == last_shown(lines, n)->0);
        }
    }
}

/// A password prompt is looked for in the text at the cursor, or in the line as it is where nothing is
/// shown; only a session without a terminal has none.
pub proof fn law_prompt_is_looked_for_at_the_cursor(
    notebook: &TerminalNotebook,
    id: u128,
    line: Option<&str>,
    screen: Option<&str>,
    text: Option<String>,
    r: Option<String>,
)
    requires
        call_ensures(cursor_line_text, (line, screen), text),
        call_ensures(TerminalNotebook::get_cursor_line_text, (notebook, id, line, screen), r),
    ensures
        r is Some <==> notebook@.terminals.contains(id),
        notebook@.terminals.contains(id) ==> (text matches Some(t) ==> r->0@ == t@),
        notebook@.terminals.contains(id) && text is None ==> (line matches Some(l) ==> r->0@ == l@),
        notebook@.terminals.contains(id) && text is None && line is None ==> r->0@.len() == 0,
{
    assert(opt_view(r) is Some <==> r is Some);
    assert(opt_view(text) is Some <==> text is Some);
}

/// The screen that ends at the cursor starts so many rows above it, and never before the first row.
pub proof fn law_screen_ends_at_the_cursor(row: i64, count: i64, r: i64)
    requires
        i64::MIN <= row - count < i64::MAX,
        call_ensures(screen_start, (row, count), r),
    ensures
        r >= 0,
        row + 1 >= count ==> row - r + 1 == count,
        row + 1 < count ==> r == 0,
{
}

} // verus!

//! The environment that a session's process is started with.

use crate::secrets::detection::{path_in, path_join};
use crate::text::{self, before_char, matches_at, opt_str_view, opt_view, push_string, views};
use vstd::prelude::*;

verus! {

/// The environment without the variable that `prefix` (`NAME=`) sets.
pub open spec fn without_var(env: Seq<Seq<char>>, prefix: Seq<char>) -> Seq<Seq<char>>
    decreases env.len(),
{
    if env.len() == 0 {
        Seq::empty()
    } else if matches_at(env.last(), prefix, 0) {
        without_var(env.drop_last(), prefix)
    } else {
        without_var(env.drop_last(), prefix).push(env.last())
    }
}

/// Whether the environment sets the variable of `prefix` (`NAME=`).
pub open spec fn has_var(env: Seq<Seq<char>>, prefix: Seq<char>) -> bool {
    exists|i: int| 0 <= i < env.len() && matches_at(#[trigger] env[i], prefix, 0)
}

/// The environment with a variable set to one value, in place of any it had.
pub open spec fn with_var(env: Seq<Seq<char>>, prefix: Seq<char>, value: Seq<char>) -> Seq<
    Seq<char>,
> {
    without_var(env, prefix).push(prefix + value)
}

/// The environment with a variable set where it was not and there is a value for it.
pub open spec fn with_default(
    env: Seq<Seq<char>>,
    prefix: Seq<char>,
    value: Option<Seq<char>>,
) -> Seq<Seq<char>> {
    match value {
        Some(v) if !has_var(env, prefix) => env.push(prefix + v),
        _ => env,
    }
}

/// A running SSH agent.
pub struct AgentInfo {
    pub socket_path: String,
    pub pid: Option<String>,
}

/// Writable configuration directories of the command-line tools, inside a sandbox.
pub struct CliConfigDirs {
    pub gcloud: Option<String>,
    pub azure: Option<String>,
    pub teleport: Option<String>,
    pub oci: Option<String>,
}

/// The packaging this process runs in.
pub enum Sandbox {
    Unsandboxed,
    Flatpak(CliConfigDirs),
    Snap(CliConfigDirs),
}

/// What the environment of a child is made from.
pub struct SpawnContext {
    /// The environment of this process.
    pub parent: Vec<(String, String)>,
    /// The search path with the bundled tools.
    pub extended_path: String,
    /// The agent that this process started, if any.
    pub agent: Option<AgentInfo>,
    pub sandbox: Sandbox,
}

/// The entries of the parent environment, with the search path replaced.
pub open spec fn inherited(parent: Seq<(String, String)>, path: Seq<char>) -> Seq<Seq<char>> {
    Seq::new(
        parent.len(),
        |i: int|
            if parent[i].0@ == "PATH"@ {
                "PATH="@ + path
            } else {
                parent[i].0@ + "="@ + parent[i].1@
            },
    )
}

/// Whether the parent environment has a search path.
pub open spec fn has_path(parent: Seq<(String, String)>) -> bool {
    exists|i: int| 0 <= i < parent.len() && (#[trigger] parent[i]).0@ == "PATH"@
}

/// The inherited environment; a search path is set even where the parent had none.
pub open spec fn base_env(parent: Seq<(String, String)>, path: Seq<char>) -> Seq<Seq<char>> {
    if has_path(parent) {
        inherited(parent, path)
    } else {
        inherited(parent, path).push("PATH="@ + path)
    }
}

/// The environment with the SSH agent: the connection's own socket first, then the agent that was
/// started here, then what was inherited.
pub open spec fn agent_env(
    env: Seq<Seq<char>>,
    custom_socket: Option<Seq<char>>,
    agent: Option<AgentInfo>,
) -> Seq<Seq<char>> {
    match custom_socket {
        Some(socket) => with_var(env, "SSH_AUTH_SOCK="@, socket),
        None => match agent {
            Some(info) => {
                let with_socket = with_var(env, "SSH_AUTH_SOCK="@, info.socket_path@);
                match info.pid {
                    Some(pid) => with_var(with_socket, "SSH_AGENT_PID="@, pid@),
                    None => with_socket,
                }
            },
            None => env,
        },
    }
}

/// The environment without an external askpass program, which is never needed: passwords are typed
/// into the terminal.
pub open spec fn askpass_env(env: Seq<Seq<char>>, never_askpass: bool) -> Seq<Seq<char>> {
    let stripped = without_var(env, "SSH_ASKPASS="@);
    if never_askpass {
        with_var(stripped, "SSH_ASKPASS_REQUIRE="@, "never"@)
    } else {
        stripped
    }
}

/// The environment with tool configuration in writable places, where nothing else was chosen.
pub open spec fn cli_env(env: Seq<Seq<char>>, dirs: CliConfigDirs) -> Seq<Seq<char>> {
    let e1 = with_default(env, "CLOUDSDK_CONFIG="@, opt_view(dirs.gcloud));
    let e2 = with_default(e1, "AZURE_CONFIG_DIR="@, opt_view(dirs.azure));
    let e3 = with_default(e2, "TELEPORT_HOME="@, opt_view(dirs.teleport));
    with_default(
        e3,
        "OCI_CLI_CONFIG_FILE="@,
        match dirs.oci {
            Some(dir) => Some(path_in(dir@, "config"@)),
            None => None,
        },
    )
}

/// The environment of a sandbox.
pub open spec fn sandbox_env(env: Seq<Seq<char>>, sandbox: Sandbox) -> Seq<Seq<char>> {
    match sandbox {
        Sandbox::Unsandboxed => env,
        Sandbox::Flatpak(dirs) => cli_env(env, dirs),
        Sandbox::Snap(dirs) => cli_env(env, dirs),
    }
}

/// The environment with a terminal type: set where there was none, and replaced in a Flatpak or
/// where it was a dumb one.
pub open spec fn term_env(env: Seq<Seq<char>>, flatpak: bool) -> Seq<Seq<char>> {
    if !has_var(env, "TERM="@) {
        env.push("TERM="@ + "xterm-256color"@)
    } else if flatpak || env.contains("TERM=dumb"@) {
        with_var(env, "TERM="@, "xterm-256color"@)
    } else {
        env
    }
}

/// The environment with one of the caller's entries, which replaces any of the same name.
pub open spec fn overridden(env: Seq<Seq<char>>, entry: Seq<char>) -> Seq<Seq<char>> {
    let name = before_char(entry, '=');
    if name.len() < entry.len() {
        without_var(env, entry.take(name.len() as int + 1)).push(entry)
    } else {
        env.push(entry)
    }
}

/// The environment with the caller's first `n` entries.
pub open spec fn layered(env: Seq<Seq<char>>, user: Seq<Seq<char>>, n: int) -> Seq<Seq<char>>
    decreases n,
{
    if n <= 0 {
        env
    } else {
        overridden(layered(env, user, n - 1), user[n - 1])
    }
}

/// The environment of a child before the caller's entries. `never_askpass` says whether external
/// askpass programs are switched off, as on macOS.
pub open spec fn session_env(
    context: SpawnContext,
    never_askpass: bool,
    custom_socket: Option<Seq<char>>,
) -> Seq<Seq<char>> {
    let e1 = base_env(context.parent@, context.extended_path@);
    let e2 = agent_env(e1, custom_socket, context.agent);
    let e3 = askpass_env(e2, never_askpass);
    let e4 = sandbox_env(e3, context.sandbox);
    term_env(e4, context.sandbox is Flatpak)
}

/// The environment of a child.
pub open spec fn child_env(
    context: SpawnContext,
    never_askpass: bool,
    custom_socket: Option<Seq<char>>,
    user: Seq<Seq<char>>,
) -> Seq<Seq<char>> {
    layered(session_env(context, never_askpass, custom_socket), user, user.len() as int)
}

fn remove_var(env: &mut Vec<String>, prefix: &str)
    ensures
        views(final(env)@) == without_var(views(old(env)@), prefix@),
{
    let ghost all = views(env@);
    let mut kept: Vec<String> = Vec::new();
    let mut i: usize = 0;
    assert(views(kept@) =~= without_var(all.take(0), prefix@));
    while i < env.len()
        invariant
            i <= env@.len(),
            all == views(env@),
            views(kept@) == without_var(all.take(i as int), prefix@),
        decreases env@.len() - i,
    {
        assert(all.take(i + 1).drop_last() =~= all.take(i as int));
        assert(all.take(i + 1).last() == all[i as int]);
        if !text::starts_with(&env[i], prefix) {
            push_string(&mut kept, env[i].clone());
        }
        i += 1;
    }
    assert(all.take(i as int) =~= all);
    *env = kept;
}

fn sets_var(env: &Vec<String>, prefix: &str) -> (r: bool)
    ensures
        r == has_var(views(env@), prefix@),
{
    let ghost all = views(env@);
    let mut i: usize = 0;
    while i < env.len()
        invariant
            i <= env@.len(),
            all == views(env@),
            forall|j: int| 0 <= j < i ==> !matches_at(#[trigger] all[j], prefix@, 0),
        decreases env@.len() - i,
    {
        if text::starts_with(&env[i], prefix) {
            assert(matches_at(all[i as int], prefix@, 0));
            return true;
        }
        i += 1;
    }
    false
}

fn set_var(env: &mut Vec<String>, prefix: &str, value: &str)
    ensures
        views(final(env)@) == with_var(views(old(env)@), prefix@, value@),
{
    remove_var(env, prefix);
    push_string(env, text::join(prefix, value));
}

fn set_default(env: &mut Vec<String>, prefix: &str, value: Option<&str>)
    ensures
        views(final(env)@) == with_default(views(old(env)@), prefix@, opt_str_view(value)),
{
    if let Some(v) = value {
        if !sets_var(env, prefix) {
            push_string(env, text::join(prefix, v));
        }
    }
}

fn inherit(parent: &Vec<(String, String)>, path: &str) -> (r: Vec<String>)
    ensures
        views(r@) == base_env(parent@, path@),
{
    let mut env: Vec<String> = Vec::new();
    let ghost all = inherited(parent@, path@);
    let mut seen = false;
    let mut i: usize = 0;
    assert(views(env@) =~= all.take(0));
    while i < parent.len()
        invariant
            i <= parent@.len(),
            all == inherited(parent@, path@),
            views(env@) == all.take(i as int),
            seen <==> exists|j: int| 0 <= j < i && (#[trigger] parent@[j]).0@ == "PATH"@,
        decreases parent@.len() - i,
    {
        assert(all.take(i + 1) =~= all.take(i as int).push(all[i as int]));
        if text::same(&parent[i].0, "PATH") {
            push_string(&mut env, text::join("PATH=", path));
            seen = true;
            assert(parent@[i as int].0@ == "PATH"@);
        } else {
            push_string(&mut env, text::join3(&parent[i].0, "=", &parent[i].1));
        }
        i += 1;
    }
    assert(all.take(i as int) =~= all);
    if !seen {
        push_string(&mut env, text::join("PATH=", path));
    }
    env
}

fn add_agent(env: &mut Vec<String>, custom_socket: Option<&str>, agent: &Option<AgentInfo>)
    ensures
        views(final(env)@) == agent_env(views(old(env)@), opt_str_view(custom_socket), *agent),
{
    match custom_socket {
        Some(socket) => set_var(env, "SSH_AUTH_SOCK=", socket),
        None => {
            if let Some(info) = agent {
                set_var(env, "SSH_AUTH_SOCK=", &info.socket_path);
                if let Some(pid) = &info.pid {
                    set_var(env, "SSH_AGENT_PID=", pid);
                }
            }
        },
    }
}

fn add_cli_dirs(env: &mut Vec<String>, dirs: &CliConfigDirs)
    ensures
        views(final(env)@) == cli_env(views(old(env)@), *dirs),
{
    set_default(env, "CLOUDSDK_CONFIG=", as_str(&dirs.gcloud));
    set_default(env, "AZURE_CONFIG_DIR=", as_str(&dirs.azure));
    set_default(env, "TELEPORT_HOME=", as_str(&dirs.teleport));
    match &dirs.oci {
        Some(dir) => {
            let file = path_join(dir, "config");
            set_default(env, "OCI_CLI_CONFIG_FILE=", Some(file.as_str()));
        },
        None => set_default(env, "OCI_CLI_CONFIG_FILE=", None),
    }
}

fn as_str(o: &Option<String>) -> (r: Option<&str>)
    ensures
        opt_str_view(r) == opt_view(*o),
{
    match o {
        Some(s) => Some(s.as_str()),
        None => None,
    }
}

fn holds_entry(env: &Vec<String>, entry: &str) -> (r: bool)
    ensures
        r == views(env@).contains(entry@),
{
    let ghost all = views(env@);
    let mut i: usize = 0;
    while i < env.len()
        invariant
            i <= env@.len(),
            all == views(env@),
            forall|j: int| 0 <= j < i ==> all[j] != entry@,
        decreases env@.len() - i,
    {
        if text::same(&env[i], entry) {
            assert(all[i as int] == entry@);
            return true;
        }
        i += 1;
    }
    false
}

fn add_term(env: &mut Vec<String>, flatpak: bool)
    ensures
        views(final(env)@) == term_env(views(old(env)@), flatpak),
{
    if !sets_var(env, "TERM=") {
        push_string(env, text::join("TERM=", "xterm-256color"));
    } else if flatpak || holds_entry(env, "TERM=dumb") {
        set_var(env, "TERM=", "xterm-256color");
    }
}

fn override_with(env: &mut Vec<String>, entry: &str)
    ensures
        views(final(env)@) == overridden(views(old(env)@), entry@),
{
    let name = text::until_char(entry, '=');
    let n: usize = name.unicode_len();
    let len: usize = entry.unicode_len();
    proof {
        text::lemma_before_char(entry@, '=');
    }
    if n < len {
        let prefix = entry.substring_char(0, n + 1);
        assert(entry@.take(n + 1) =~= entry@.subrange(0, n + 1));
        remove_var(env, prefix);
    }
    push_string(env, entry.to_owned());
}

/// Builds the environment of a child process.
pub fn build_child_env(
    context: &SpawnContext,
    never_askpass: bool,
    ssh_agent_socket: Option<&str>,
    user_env: &Vec<String>,
) -> (r: Vec<String>)
    ensures
        views(r@) == child_env(
            *context,
            never_askpass,
            opt_str_view(ssh_agent_socket),
            views(user_env@),
        ),
{
    let mut env = inherit(&context.parent, &context.extended_path);
    add_agent(&mut env, ssh_agent_socket, &context.agent);
    remove_var(&mut env, "SSH_ASKPASS=");
    if never_askpass {
        set_var(&mut env, "SSH_ASKPASS_REQUIRE=", "never");
    }
    let mut flatpak = false;
    match &context.sandbox {
        Sandbox::Unsandboxed => {},
        Sandbox::Flatpak(dirs) => {
            add_cli_dirs(&mut env, dirs);
            flatpak = true;
        },
        Sandbox::Snap(dirs) => add_cli_dirs(&mut env, dirs),
    }
    add_term(&mut env, flatpak);
    let ghost base = views(env@);
    let ghost user = views(user_env@);
    assert(base == session_env(*context, never_askpass, opt_str_view(ssh_agent_socket)));
    let mut i: usize = 0;
    while i < user_env.len()
        invariant
            i <= user_env@.len(),
            user == views(user_env@),
            views(env@) == layered(base, user, i as int),
        decreases user_env@.len() - i,
    {
        override_with(&mut env, &user_env[i]);
        i += 1;
    }
    env
}

/// Whether `prefix` is a variable's name and the equals sign behind it.
pub open spec fn is_var_prefix(prefix: Seq<char>) -> bool {
    &&& prefix.len() > 0
    &&& prefix.last() == '='
    &&& forall|i: int| 0 <= i < prefix.len() - 1 ==> prefix[i] != '='
}

/// Whether one of the caller's entries sets the variable of `prefix`.
pub open spec fn entry_sets(entry: Seq<char>, prefix: Seq<char>) -> bool {
    matches_at(entry, prefix, 0)
}

proof fn lemma_without_var(env: Seq<Seq<char>>, prefix: Seq<char>, x: Seq<char>)
    ensures
        without_var(env, prefix).contains(x) <==> env.contains(x) && !matches_at(x, prefix, 0),
    decreases env.len(),
{
    if env.len() > 0 {
        let rest = env.drop_last();
        lemma_without_var(rest, prefix, x);
        assert(env =~= rest.push(env.last()));
        lemma_push_contains(rest, env.last(), x);
        lemma_push_contains(without_var(rest, prefix), env.last(), x);
    }
}

proof fn lemma_push_contains(s: Seq<Seq<char>>, last: Seq<char>, x: Seq<char>)
    ensures
        s.push(last).contains(x) <==> s.contains(x) || x == last,
{
    let t = s.push(last);
    if s.contains(x) {
        let i = choose|i: int| 0 <= i < s.len() && s[i] == x;
        assert(t[i] == x);
    }
    if x == last {
        assert(t[s.len() as int] == x);
    }
    if t.contains(x) {
        let i = choose|i: int| 0 <= i < t.len() && t[i] == x;
        if i < s.len() {
            assert(s[i] == x);
        }
    }
}

proof fn lemma_has_var(env: Seq<Seq<char>>, prefix: Seq<char>, x: Seq<char>)
    requires
        env.contains(x),
        matches_at(x, prefix, 0),
    ensures
        has_var(env, prefix),
{
    let i = choose|i: int| 0 <= i < env.len() && env[i] == x;
    assert(matches_at(env[i], prefix, 0));
}

proof fn lemma_one_name(x: Seq<char>, p: Seq<char>, q: Seq<char>)
    requires
        is_var_prefix(p),
        is_var_prefix(q),
        matches_at(x, p, 0),
        matches_at(x, q, 0),
    ensures
        p == q,
{
    assert forall|i: int| 0 <= i < p.len() implies p[i] == x[i] by {
        assert(x.subrange(0, p.len() as int)[i] == x[i]);
    }
    assert forall|i: int| 0 <= i < q.len() implies q[i] == x[i] by {
        assert(x.subrange(0, q.len() as int)[i] == x[i]);
    }
    if p.len() < q.len() {
        assert(q[p.len() - 1] == '=');
    } else if q.len() < p.len() {
        assert(p[q.len() - 1] == '=');
    }
    assert(p =~= q);
}

proof fn lemma_entry_prefix(entry: Seq<char>)
    requires
        before_char(entry, '=').len() < entry.len(),
    ensures
        is_var_prefix(entry.take(before_char(entry, '=').len() as int + 1)),
        matches_at(entry, entry.take(before_char(entry, '=').len() as int + 1), 0),
{
    text::lemma_before_char(entry, '=');
    let n = before_char(entry, '=').len() as int;
    assert(entry.take(n + 1) =~= entry.subrange(0, n + 1));
}

proof fn lemma_no_equals_sets_nothing(entry: Seq<char>, prefix: Seq<char>)
    requires
        is_var_prefix(prefix),
        before_char(entry, '=').len() >= entry.len(),
    ensures
        !matches_at(entry, prefix, 0),
{
    text::lemma_before_char(entry, '=');
    if matches_at(entry, prefix, 0) {
        let i = prefix.len() - 1;
        assert(entry.subrange(0, prefix.len() as int)[i] == entry[i]);
    }
}

/// The entries of a variable after one more of the caller's entries: that entry where it sets the
/// variable, those from before where it does not.
proof fn lemma_overridden(env: Seq<Seq<char>>, entry: Seq<char>, prefix: Seq<char>, x: Seq<char>)
    requires
        is_var_prefix(prefix),
        matches_at(x, prefix, 0),
    ensures
        overridden(env, entry).contains(x) <==> if entry_sets(entry, prefix) {
            x == entry
        } else {
            env.contains(x)
        },
{
    let n = before_char(entry, '=').len() as int;
    if n < entry.len() {
        let own = entry.take(n + 1);
        lemma_entry_prefix(entry);
        lemma_without_var(env, own, x);
        lemma_push_contains(without_var(env, own), entry, x);
        if entry_sets(entry, prefix) {
            lemma_one_name(entry, own, prefix);
        } else if matches_at(x, own, 0) {
            lemma_one_name(x, own, prefix);
        }
    } else {
        lemma_no_equals_sets_nothing(entry, prefix);
        lemma_push_contains(env, entry, x);
    }
}

proof fn lemma_layered_untouched(
    env: Seq<Seq<char>>,
    user: Seq<Seq<char>>,
    n: int,
    prefix: Seq<char>,
    x: Seq<char>,
)
    requires
        0 <= n <= user.len(),
        is_var_prefix(prefix),
        matches_at(x, prefix, 0),
        forall|j: int| 0 <= j < n ==> !entry_sets(#[trigger] user[j], prefix),
    ensures
        layered(env, user, n).contains(x) <==> env.contains(x),
    decreases n,
{
    if n > 0 {
        lemma_layered_untouched(env, user, n - 1, prefix, x);
        lemma_overridden(layered(env, user, n - 1), user[n - 1], prefix, x);
        assert(!entry_sets(user[n - 1], prefix));
    }
}

proof fn lemma_layered_set(
    env: Seq<Seq<char>>,
    user: Seq<Seq<char>>,
    n: int,
    k: int,
    prefix: Seq<char>,
    x: Seq<char>,
)
    requires
        0 <= k < n <= user.len(),
        is_var_prefix(prefix),
        matches_at(x, prefix, 0),
        entry_sets(user[k], prefix),
        forall|j: int| k < j < n ==> !entry_sets(#[trigger] user[j], prefix),
    ensures
        layered(env, user, n).contains(x) <==> x == user[k],
    decreases n,
{
    lemma_overridden(layered(env, user, n - 1), user[n - 1], prefix, x);
    if k < n - 1 {
        lemma_layered_set(env, user, n - 1, k, prefix, x);
        assert(!entry_sets(user[n - 1], prefix));
    }
}

/// The caller has the last word: the last of the caller's entries for a variable is in the child's
/// environment, and no other entry for that variable is.
pub proof fn law_last_entry_of_the_caller_wins(
    context: SpawnContext,
    never_askpass: bool,
    custom_socket: Option<Seq<char>>,
    user: Seq<Seq<char>>,
    k: int,
    prefix: Seq<char>,
)
    requires
        0 <= k < user.len(),
        is_var_prefix(prefix),
        entry_sets(user[k], prefix),
        forall|j: int| k < j < user.len() ==> !entry_sets(#[trigger] user[j], prefix),
    ensures
        child_env(context, never_askpass, custom_socket, user).contains(user[k]),
        forall|x: Seq<char>|
            child_env(context, never_askpass, custom_socket, user).contains(x) && #[trigger] entry_sets(x, prefix)
                ==> x == user[k],
{
    let base = session_env(context, never_askpass, custom_socket);
    let n = user.len() as int;
    lemma_layered_set(base, user, n, k, prefix, user[k]);
    assert forall|x: Seq<char>|
        child_env(context, never_askpass, custom_socket, user).contains(x) && #[trigger] entry_sets(
            x,
            prefix,
        ) implies x == user[k] by {
        lemma_layered_set(base, user, n, k, prefix, x);
    }
}

/// What the caller does not set is what the session sets by itself.
pub proof fn law_other_variables_are_the_sessions_own(
    context: SpawnContext,
    never_askpass: bool,
    custom_socket: Option<Seq<char>>,
    user: Seq<Seq<char>>,
    prefix: Seq<char>,
    x: Seq<char>,
)
    requires
        is_var_prefix(prefix),
        entry_sets(x, prefix),
        !has_var(user, prefix),
    ensures
        child_env(context, never_askpass, custom_socket, user).contains(x) <==> session_env(
            context,
            never_askpass,
            custom_socket,
        ).contains(x),
{
    assert forall|j: int| 0 <= j < user.len() implies !entry_sets(#[trigger] user[j], prefix) by {
        if entry_sets(user[j], prefix) {
            assert(matches_at(user[j], prefix, 0));
        }
    }
    lemma_layered_untouched(
        session_env(context, never_askpass, custom_socket),
        user,
        user.len() as int,
        prefix,
        x,
    );
}

proof fn lemma_last_setter(user: Seq<Seq<char>>, n: int, prefix: Seq<char>) -> (k: int)
    requires
        0 <= n <= user.len(),
        exists|j: int| 0 <= j < n && entry_sets(#[trigger] user[j], prefix),
    ensures
        0 <= k < n,
        entry_sets(user[k], prefix),
        forall|j: int| k < j < n ==> !entry_sets(#[trigger] user[j], prefix),
    decreases n,
{
    if entry_sets(user[n - 1], prefix) {
        n - 1
    } else {
        lemma_last_setter(user, n - 1, prefix)
    }
}

/// A child always has a terminal type.
pub proof fn law_terminal_type_is_always_set(
    context: SpawnContext,
    never_askpass: bool,
    custom_socket: Option<Seq<char>>,
    user: Seq<Seq<char>>,
)
    ensures
        has_var(child_env(context, never_askpass, custom_socket, user), "TERM="@),
{
    reveal_strlit("TERM=");
    let prefix = "TERM="@;
    assert(is_var_prefix(prefix));
    let base = session_env(context, never_askpass, custom_socket);
    let env = child_env(context, never_askpass, custom_socket, user);
    assert(has_var(base, prefix)) by {
        assert(base.len() > 0);
        let set = prefix + "xterm-256color"@;
        assert(set.subrange(0, prefix.len() as int) =~= prefix);
        if base.last() == set {
            assert(matches_at(base[base.len() - 1], prefix, 0));
        }
    }
    if has_var(user, prefix) {
        let w = choose|j: int| 0 <= j < user.len() && matches_at(#[trigger] user[j], prefix, 0);
        assert(entry_sets(user[w], prefix));
        let k = lemma_last_setter(user, user.len() as int, prefix);
        law_last_entry_of_the_caller_wins(context, never_askpass, custom_socket, user, k, prefix);
        lemma_has_var(env, prefix, user[k]);
    } else {
        let w = choose|j: int| 0 <= j < base.len() && matches_at(#[trigger] base[j], prefix, 0);
        assert(base.contains(base[w]));
        law_other_variables_are_the_sessions_own(context, never_askpass, custom_socket, user, prefix, base[w]);
        lemma_has_var(env, prefix, base[w]);
    }
}

proof fn lemma_set_another(
    env: Seq<Seq<char>>,
    own: Seq<char>,
    value: Seq<char>,
    prefix: Seq<char>,
    x: Seq<char>,
)
    requires
        is_var_prefix(own),
        is_var_prefix(prefix),
        own != prefix,
        matches_at(x, prefix, 0),
    ensures
        without_var(env, own).contains(x) <==> env.contains(x),
        with_var(env, own, value).contains(x) <==> env.contains(x),
        with_default(env, own, Some(value)).contains(x) <==> env.contains(x),
{
    let set = own + value;
    assert(set.subrange(0, own.len() as int) =~= own);
    if matches_at(x, own, 0) {
        lemma_one_name(x, own, prefix);
    }
    if set == x {
        lemma_one_name(x, own, prefix);
    }
    lemma_without_var(env, own, x);
    lemma_push_contains(without_var(env, own), set, x);
    lemma_push_contains(env, set, x);
}

proof fn lemma_default_another(
    env: Seq<Seq<char>>,
    own: Seq<char>,
    value: Option<Seq<char>>,
    prefix: Seq<char>,
    x: Seq<char>,
)
    requires
        is_var_prefix(own),
        is_var_prefix(prefix),
        own != prefix,
        matches_at(x, prefix, 0),
    ensures
        with_default(env, own, value).contains(x) <==> env.contains(x),
{
    if let Some(v) = value {
        lemma_set_another(env, own, v, prefix, x);
    }
}

/// Whether the session sets the variable of `prefix` itself, whatever it inherits.
pub open spec fn is_session_variable(prefix: Seq<char>) -> bool {
    ||| prefix == "SSH_AUTH_SOCK="@
    ||| prefix == "SSH_AGENT_PID="@
    ||| prefix == "SSH_ASKPASS="@
    ||| prefix == "SSH_ASKPASS_REQUIRE="@
    ||| prefix == "CLOUDSDK_CONFIG="@
    ||| prefix == "AZURE_CONFIG_DIR="@
    ||| prefix == "TELEPORT_HOME="@
    ||| prefix == "OCI_CLI_CONFIG_FILE="@
    ||| prefix == "TERM="@
}

proof fn lemma_session_names()
    ensures
        forall|p: Seq<char>| #[trigger] is_session_variable(p) ==> is_var_prefix(p),
        is_var_prefix("PATH="@),
        !is_session_variable("PATH="@),
        "SSH_ASKPASS="@ != "SSH_ASKPASS_REQUIRE="@,
        "SSH_ASKPASS="@ != "SSH_AUTH_SOCK="@,
        "SSH_ASKPASS="@ != "SSH_AGENT_PID="@,
        "SSH_ASKPASS="@ != "CLOUDSDK_CONFIG="@,
        "SSH_ASKPASS="@ != "AZURE_CONFIG_DIR="@,
        "SSH_ASKPASS="@ != "TELEPORT_HOME="@,
        "SSH_ASKPASS="@ != "OCI_CLI_CONFIG_FILE="@,
        "SSH_ASKPASS="@ != "TERM="@,
{
    reveal_strlit("SSH_AUTH_SOCK=");
    reveal_strlit("SSH_AGENT_PID=");
    reveal_strlit("SSH_ASKPASS=");
    reveal_strlit("SSH_ASKPASS_REQUIRE=");
    reveal_strlit("CLOUDSDK_CONFIG=");
    reveal_strlit("AZURE_CONFIG_DIR=");
    reveal_strlit("TELEPORT_HOME=");
    reveal_strlit("OCI_CLI_CONFIG_FILE=");
    reveal_strlit("TERM=");
    reveal_strlit("PATH=");
    assert("SSH_ASKPASS="@.len() == 12);
    assert("PATH="@[0] == 'P');
}

proof fn lemma_after_askpass(env: Seq<Seq<char>>, sandbox: Sandbox, prefix: Seq<char>, x: Seq<char>)
    requires
        is_var_prefix(prefix),
        matches_at(x, prefix, 0),
        prefix == "SSH_ASKPASS="@ || !is_session_variable(prefix),
    ensures
        term_env(sandbox_env(env, sandbox), sandbox is Flatpak).contains(x) <==> env.contains(x),
{
    lemma_session_names();
    assert(is_session_variable("CLOUDSDK_CONFIG="@) && is_session_variable("AZURE_CONFIG_DIR="@));
    assert(is_session_variable("TELEPORT_HOME="@) && is_session_variable("OCI_CLI_CONFIG_FILE="@));
    assert(is_session_variable("TERM="@));
    let kept = sandbox_env(env, sandbox);
    match sandbox {
        Sandbox::Unsandboxed => {},
        Sandbox::Flatpak(dirs) => lemma_cli_dirs(env, dirs, prefix, x),
        Sandbox::Snap(dirs) => lemma_cli_dirs(env, dirs, prefix, x),
    }
    lemma_set_another(kept, "TERM="@, "xterm-256color"@, prefix, x);
}

proof fn lemma_cli_dirs(env: Seq<Seq<char>>, dirs: CliConfigDirs, prefix: Seq<char>, x: Seq<char>)
    requires
        is_var_prefix(prefix),
        matches_at(x, prefix, 0),
        prefix == "SSH_ASKPASS="@ || !is_session_variable(prefix),
    ensures
        cli_env(env, dirs).contains(x) <==> env.contains(x),
{
    lemma_session_names();
    assert(is_session_variable("CLOUDSDK_CONFIG="@) && is_session_variable("AZURE_CONFIG_DIR="@));
    assert(is_session_variable("TELEPORT_HOME="@) && is_session_variable("OCI_CLI_CONFIG_FILE="@));
    let e1 = with_default(env, "CLOUDSDK_CONFIG="@, opt_view(dirs.gcloud));
    lemma_default_another(env, "CLOUDSDK_CONFIG="@, opt_view(dirs.gcloud), prefix, x);
    let e2 = with_default(e1, "AZURE_CONFIG_DIR="@, opt_view(dirs.azure));
    lemma_default_another(e1, "AZURE_CONFIG_DIR="@, opt_view(dirs.azure), prefix, x);
    let e3 = with_default(e2, "TELEPORT_HOME="@, opt_view(dirs.teleport));
    lemma_default_another(e2, "TELEPORT_HOME="@, opt_view(dirs.teleport), prefix, x);
    if let Some(dir) = dirs.oci {
        lemma_default_another(
            e3,
            "OCI_CLI_CONFIG_FILE="@,
            Some(path_in(dir@, "config"@)),
            prefix,
            x,
        );
    }
}

/// No external askpass program reaches a child, unless the caller names one.
pub proof fn law_no_inherited_askpass_program(
    context: SpawnContext,
    never_askpass: bool,
    custom_socket: Option<Seq<char>>,
    user: Seq<Seq<char>>,
)
    requires
        !has_var(user, "SSH_ASKPASS="@),
    ensures
        !has_var(child_env(context, never_askpass, custom_socket, user), "SSH_ASKPASS="@),
{
    let prefix = "SSH_ASKPASS="@;
    lemma_session_names();
    assert(is_session_variable(prefix) && is_session_variable("SSH_ASKPASS_REQUIRE="@));
    let env = child_env(context, never_askpass, custom_socket, user);
    let e2 = agent_env(base_env(context.parent@, context.extended_path@), custom_socket, context.agent);
    let e3 = askpass_env(e2, never_askpass);
    if has_var(env, prefix) {
        let i = choose|i: int| 0 <= i < env.len() && matches_at(#[trigger] env[i], prefix, 0);
        let x = env[i];
        assert(env.contains(x));
        law_other_variables_are_the_sessions_own(context, never_askpass, custom_socket, user, prefix, x);
        lemma_after_askpass(e3, context.sandbox, prefix, x);
        lemma_without_var(e2, prefix, x);
        lemma_set_another(
            without_var(e2, prefix),
            "SSH_ASKPASS_REQUIRE="@,
            "never"@,
            prefix,
            x,
        );
    }
}

/// A variable that neither the session nor the caller sets is handed on as it was inherited.
pub proof fn law_inherited_variables_are_handed_on(
    context: SpawnContext,
    never_askpass: bool,
    custom_socket: Option<Seq<char>>,
    user: Seq<Seq<char>>,
    prefix: Seq<char>,
    x: Seq<char>,
)
    requires
        is_var_prefix(prefix),
        entry_sets(x, prefix),
        !is_session_variable(prefix),
        !has_var(user, prefix),
    ensures
        child_env(context, never_askpass, custom_socket, user).contains(x) <==> base_env(
            context.parent@,
            context.extended_path@,
        ).contains(x),
{
    lemma_session_names();
    let e1 = base_env(context.parent@, context.extended_path@);
    let e2 = agent_env(e1, custom_socket, context.agent);
    let e3 = askpass_env(e2, never_askpass);
    let sock = "SSH_AUTH_SOCK="@;
    let pid = "SSH_AGENT_PID="@;
    let ask = "SSH_ASKPASS="@;
    let never = "SSH_ASKPASS_REQUIRE="@;
    assert(is_session_variable(sock) && is_session_variable(pid));
    assert(is_session_variable(ask) && is_session_variable(never));
    law_other_variables_are_the_sessions_own(context, never_askpass, custom_socket, user, prefix, x);
    match custom_socket {
        Some(socket) => lemma_set_another(e1, sock, socket, prefix, x),
        None => {
            if let Some(info) = context.agent {
                lemma_set_another(e1, sock, info.socket_path@, prefix, x);
                if let Some(number) = info.pid {
                    let with_socket = with_var(e1, sock, info.socket_path@);
                    lemma_set_another(with_socket, pid, number@, prefix, x);
                }
            }
        },
    }
    lemma_set_another(e2, ask, Seq::empty(), prefix, x);
    lemma_set_another(without_var(e2, ask), never, "never"@, prefix, x);
    lemma_after_askpass(e3, context.sandbox, prefix, x);
}

/// A child searches the extended path and no other, unless the caller sets a path. The names of
/// inherited variables hold no equals sign.
pub proof fn law_child_searches_the_extended_path(
    context: SpawnContext,
    never_askpass: bool,
    custom_socket: Option<Seq<char>>,
    user: Seq<Seq<char>>,
)
    requires
        forall|i: int|
            0 <= i < context.parent@.len() ==> !(#[trigger] context.parent@[i]).0@.contains('='),
        !has_var(user, "PATH="@),
    ensures
        child_env(context, never_askpass, custom_socket, user).contains("PATH="@ + context.extended_path@),
        forall|x: Seq<char>|
            child_env(context, never_askpass, custom_socket, user).contains(x) && #[trigger] entry_sets(
                x,
                "PATH="@,
            ) ==> x == "PATH="@ + context.extended_path@,
{
    let prefix = "PATH="@;
    let path = context.extended_path@;
    let parent = context.parent@;
    let set = prefix + path;
    lemma_session_names();
    assert(set.subrange(0, prefix.len() as int) =~= prefix);
    let base = base_env(parent, path);
    assert(base.contains(set)) by {
        if has_path(parent) {
            let i = choose|i: int| 0 <= i < parent.len() && (#[trigger] parent[i]).0@ == "PATH"@;
            assert(base[i] == set);
        } else {
            assert(base[parent.len() as int] == set);
        }
    }
    law_inherited_variables_are_handed_on(context, never_askpass, custom_socket, user, prefix, set);
    assert forall|x: Seq<char>|
        child_env(context, never_askpass, custom_socket, user).contains(x) && #[trigger] entry_sets(
            x,
            prefix,
        ) implies x == set by {
        law_inherited_variables_are_handed_on(context, never_askpass, custom_socket, user, prefix, x);
        let i = choose|i: int| 0 <= i < base.len() && base[i] == x;
        if i < parent.len() && parent[i].0@ != "PATH"@ {
            lemma_entry_name(parent[i].0@, parent[i].1@);
            lemma_one_name(x, prefix, parent[i].0@ + "="@);
            reveal_strlit("PATH=");
            reveal_strlit("PATH");
            reveal_strlit("=");
            assert(parent[i].0@ =~= (parent[i].0@ + "="@).drop_last());
            assert("PATH"@ =~= prefix.drop_last());
        }
    }
}

proof fn lemma_entry_name(name: Seq<char>, value: Seq<char>)
    requires
        !name.contains('='),
    ensures
        is_var_prefix(name + "="@),
        matches_at(name + "="@ + value, name + "="@, 0),
{
    reveal_strlit("=");
    let p = name + "="@;
    assert forall|i: int| 0 <= i < p.len() - 1 implies p[i] != '=' by {
        assert(p[i] == name[i]);
    }
    assert((p + value).subrange(0, p.len() as int) =~= p);
}

/// Whether `value` is what the entries of a variable come to: those of `env` set it to that, and to
/// nothing else.
pub open spec fn is_set_to(env: Seq<Seq<char>>, prefix: Seq<char>, value: Seq<char>) -> bool {
    &&& env.contains(prefix + value)
    &&& forall|x: Seq<char>| env.contains(x) && #[trigger] entry_sets(x, prefix) ==> x == prefix + value
}

/// Whether the entries of a variable are the same in two environments.
pub open spec fn same_entries(a: Seq<Seq<char>>, b: Seq<Seq<char>>, prefix: Seq<char>) -> bool {
    forall|x: Seq<char>| #[trigger] entry_sets(x, prefix) ==> (a.contains(x) <==> b.contains(x))
}

proof fn lemma_same_has(a: Seq<Seq<char>>, b: Seq<Seq<char>>, prefix: Seq<char>)
    requires
        same_entries(a, b, prefix),
    ensures
        has_var(a, prefix) <==> has_var(b, prefix),
{
    if has_var(a, prefix) {
        let i = choose|i: int| 0 <= i < a.len() && matches_at(#[trigger] a[i], prefix, 0);
        assert(entry_sets(a[i], prefix));
        assert(a.contains(a[i]));
        lemma_has_var(b, prefix, a[i]);
    }
    if has_var(b, prefix) {
        let i = choose|i: int| 0 <= i < b.len() && matches_at(#[trigger] b[i], prefix, 0);
        assert(entry_sets(b[i], prefix));
        assert(b.contains(b[i]));
        lemma_has_var(a, prefix, b[i]);
    }
}

proof fn lemma_same_set(a: Seq<Seq<char>>, b: Seq<Seq<char>>, prefix: Seq<char>, value: Seq<char>)
    requires
        same_entries(a, b, prefix),
        is_set_to(b, prefix, value),
    ensures
        is_set_to(a, prefix, value),
{
    let set = prefix + value;
    assert(set.subrange(0, prefix.len() as int) =~= prefix);
    assert(entry_sets(set, prefix));
}

/// Setting a variable sets it to that value alone.
proof fn lemma_with_var(env: Seq<Seq<char>>, prefix: Seq<char>, value: Seq<char>)
    ensures
        is_set_to(with_var(env, prefix, value), prefix, value),
{
    let set = prefix + value;
    let kept = without_var(env, prefix);
    lemma_push_contains(kept, set, set);
    assert forall|x: Seq<char>| kept.push(set).contains(x) && #[trigger] entry_sets(
        x,
        prefix,
    ) implies x == set by {
        lemma_push_contains(kept, set, x);
        lemma_without_var(env, prefix, x);
    }
}

/// A default is set where the variable was not, and nothing is changed where it was.
proof fn lemma_with_default(env: Seq<Seq<char>>, prefix: Seq<char>, value: Option<Seq<char>>)
    ensures
        has_var(env, prefix) || value is None ==> with_default(env, prefix, value) == env,
        !has_var(env, prefix) && value is Some ==> is_set_to(
            with_default(env, prefix, value),
            prefix,
            value->0,
        ),
{
    if !has_var(env, prefix) && value is Some {
        let set = prefix + value->0;
        lemma_push_contains(env, set, set);
        assert forall|x: Seq<char>| env.push(set).contains(x) && #[trigger] entry_sets(
            x,
            prefix,
        ) implies x == set by {
            lemma_push_contains(env, set, x);
            if env.contains(x) {
                lemma_has_var(env, prefix, x);
            }
        }
    }
}

/// The variables that the session sets are told apart by their names.
proof fn lemma_names_differ()
    ensures
        "SSH_AUTH_SOCK="@.len() == 14,
        "SSH_AGENT_PID="@.len() == 14,
        "TELEPORT_HOME="@.len() == 14,
        "SSH_ASKPASS="@.len() == 12,
        "SSH_ASKPASS_REQUIRE="@.len() == 20,
        "OCI_CLI_CONFIG_FILE="@.len() == 20,
        "CLOUDSDK_CONFIG="@.len() == 16,
        "AZURE_CONFIG_DIR="@.len() == 17,
        "TERM="@.len() == 5,
        "SSH_AUTH_SOCK="@ != "SSH_AGENT_PID="@,
        "SSH_AUTH_SOCK="@ != "TELEPORT_HOME="@,
        "SSH_AGENT_PID="@ != "TELEPORT_HOME="@,
        "SSH_ASKPASS_REQUIRE="@ != "OCI_CLI_CONFIG_FILE="@,
{
    reveal_strlit("SSH_AUTH_SOCK=");
    reveal_strlit("SSH_AGENT_PID=");
    reveal_strlit("TELEPORT_HOME=");
    reveal_strlit("SSH_ASKPASS=");
    reveal_strlit("SSH_ASKPASS_REQUIRE=");
    reveal_strlit("OCI_CLI_CONFIG_FILE=");
    reveal_strlit("CLOUDSDK_CONFIG=");
    reveal_strlit("AZURE_CONFIG_DIR=");
    reveal_strlit("TERM=");
    assert("SSH_AUTH_SOCK="@[5] == 'U' && "SSH_AGENT_PID="@[5] == 'G');
    assert("SSH_AUTH_SOCK="@[0] == 'S' && "SSH_AGENT_PID="@[0] == 'S' && "TELEPORT_HOME="@[0] == 'T');
    assert("SSH_ASKPASS_REQUIRE="@[0] == 'S' && "OCI_CLI_CONFIG_FILE="@[0] == 'O');
}

proof fn lemma_set_keeps_others(
    env: Seq<Seq<char>>,
    own: Seq<char>,
    value: Seq<char>,
    prefix: Seq<char>,
)
    requires
        is_var_prefix(own),
        is_var_prefix(prefix),
        own != prefix,
    ensures
        same_entries(without_var(env, own), env, prefix),
        same_entries(with_var(env, own, value), env, prefix),
        same_entries(with_default(env, own, Some(value)), env, prefix),
{
    assert forall|x: Seq<char>| #[trigger] entry_sets(x, prefix) implies {
        &&& without_var(env, own).contains(x) <==> env.contains(x)
        &&& with_var(env, own, value).contains(x) <==> env.contains(x)
        &&& with_default(env, own, Some(value)).contains(x) <==> env.contains(x)
    } by {
        lemma_set_another(env, own, value, prefix, x);
    }
}

proof fn lemma_agent_keeps_others(
    env: Seq<Seq<char>>,
    custom: Option<Seq<char>>,
    agent: Option<AgentInfo>,
    prefix: Seq<char>,
)
    requires
        is_var_prefix(prefix),
        prefix != "SSH_AUTH_SOCK="@,
        prefix != "SSH_AGENT_PID="@,
    ensures
        same_entries(agent_env(env, custom, agent), env, prefix),
{
    lemma_session_names();
    assert(is_session_variable("SSH_AUTH_SOCK="@) && is_session_variable("SSH_AGENT_PID="@));
    match custom {
        Some(socket) => lemma_set_keeps_others(env, "SSH_AUTH_SOCK="@, socket, prefix),
        None => {
            if let Some(info) = agent {
                lemma_set_keeps_others(env, "SSH_AUTH_SOCK="@, info.socket_path@, prefix);
                if let Some(pid) = info.pid {
                    let with_socket = with_var(env, "SSH_AUTH_SOCK="@, info.socket_path@);
                    lemma_set_keeps_others(with_socket, "SSH_AGENT_PID="@, pid@, prefix);
                }
            }
        },
    }
}

proof fn lemma_askpass_keeps_others(env: Seq<Seq<char>>, never: bool, prefix: Seq<char>)
    requires
        is_var_prefix(prefix),
        prefix != "SSH_ASKPASS="@,
        prefix != "SSH_ASKPASS_REQUIRE="@,
    ensures
        same_entries(askpass_env(env, never), env, prefix),
{
    lemma_session_names();
    assert(is_session_variable("SSH_ASKPASS="@) && is_session_variable("SSH_ASKPASS_REQUIRE="@));
    lemma_set_keeps_others(env, "SSH_ASKPASS="@, Seq::empty(), prefix);
    let stripped = without_var(env, "SSH_ASKPASS="@);
    lemma_set_keeps_others(stripped, "SSH_ASKPASS_REQUIRE="@, "never"@, prefix);
}

proof fn lemma_default_keeps_others(
    env: Seq<Seq<char>>,
    own: Seq<char>,
    value: Option<Seq<char>>,
    prefix: Seq<char>,
)
    requires
        is_var_prefix(own),
        is_var_prefix(prefix),
        own != prefix,
    ensures
        same_entries(with_default(env, own, value), env, prefix),
{
    if let Some(v) = value {
        lemma_set_keeps_others(env, own, v, prefix);
    }
}

/// The file that Oracle's tool is configured by, inside its directory.
pub open spec fn oci_file(dirs: CliConfigDirs) -> Option<Seq<char>> {
    match dirs.oci {
        Some(dir) => Some(path_in(dir@, "config"@)),
        None => None,
    }
}

/// The variables of the tools come to what they were, or to their defaults where they were not set.
proof fn lemma_tools(env: Seq<Seq<char>>, dirs: CliConfigDirs, prefix: Seq<char>)
    requires
        is_var_prefix(prefix),
    ensures
        prefix != "CLOUDSDK_CONFIG="@ && prefix != "AZURE_CONFIG_DIR="@ && prefix != "TELEPORT_HOME="@
            && prefix != "OCI_CLI_CONFIG_FILE="@ ==> same_entries(cli_env(env, dirs), env, prefix),
        prefix == "CLOUDSDK_CONFIG="@ ==> is_default(env, cli_env(env, dirs), prefix, opt_view(dirs.gcloud)),
        prefix == "AZURE_CONFIG_DIR="@ ==> is_default(env, cli_env(env, dirs), prefix, opt_view(dirs.azure)),
        prefix == "TELEPORT_HOME="@ ==> is_default(env, cli_env(env, dirs), prefix, opt_view(dirs.teleport)),
        prefix == "OCI_CLI_CONFIG_FILE="@ ==> is_default(env, cli_env(env, dirs), prefix, oci_file(dirs)),
{
    lemma_session_names();
    lemma_names_differ();
    let cloud = "CLOUDSDK_CONFIG="@;
    let azure = "AZURE_CONFIG_DIR="@;
    let teleport = "TELEPORT_HOME="@;
    let oci = "OCI_CLI_CONFIG_FILE="@;
    assert(is_session_variable(cloud) && is_session_variable(azure) && is_session_variable(teleport)
        && is_session_variable(oci));
    let e1 = with_default(env, cloud, opt_view(dirs.gcloud));
    let e2 = with_default(e1, azure, opt_view(dirs.azure));
    let e3 = with_default(e2, teleport, opt_view(dirs.teleport));
    let e4 = with_default(e3, oci, oci_file(dirs));
    assert(cli_env(env, dirs) == e4);
    lemma_with_default(env, cloud, opt_view(dirs.gcloud));
    lemma_with_default(e1, azure, opt_view(dirs.azure));
    lemma_with_default(e2, teleport, opt_view(dirs.teleport));
    lemma_with_default(e3, oci, oci_file(dirs));
    if prefix != cloud {
        lemma_default_keeps_others(env, cloud, opt_view(dirs.gcloud), prefix);
        lemma_same_has(e1, env, prefix);
    }
    if prefix != azure {
        lemma_default_keeps_others(e1, azure, opt_view(dirs.azure), prefix);
        lemma_same_has(e2, e1, prefix);
    }
    if prefix != teleport {
        lemma_default_keeps_others(e2, teleport, opt_view(dirs.teleport), prefix);
        lemma_same_has(e3, e2, prefix);
    }
    if prefix != oci {
        lemma_default_keeps_others(e3, oci, oci_file(dirs), prefix);
        lemma_same_has(e4, e3, prefix);
    }
    if prefix == cloud && !has_var(env, prefix) && dirs.gcloud is Some {
        lemma_same_set(e2, e1, prefix, dirs.gcloud->0@);
        lemma_same_set(e3, e2, prefix, dirs.gcloud->0@);
        lemma_same_set(e4, e3, prefix, dirs.gcloud->0@);
    }
    if prefix == azure && !has_var(env, prefix) && dirs.azure is Some {
        lemma_same_set(e3, e2, prefix, dirs.azure->0@);
        lemma_same_set(e4, e3, prefix, dirs.azure->0@);
    }
    if prefix == teleport && !has_var(env, prefix) && dirs.teleport is Some {
        lemma_same_set(e4, e3, prefix, dirs.teleport->0@);
    }
}

/// Whether a variable came to a default: to that value where it was not set and there is one, and to
/// what it was otherwise.
pub open spec fn is_default(
    before: Seq<Seq<char>>,
    after: Seq<Seq<char>>,
    prefix: Seq<char>,
    value: Option<Seq<char>>,
) -> bool {
    if !has_var(before, prefix) && value is Some {
        is_set_to(after, prefix, value->0)
    } else {
        same_entries(after, before, prefix)
    }
}

proof fn lemma_term_keeps_others(env: Seq<Seq<char>>, flatpak: bool, prefix: Seq<char>)
    requires
        is_var_prefix(prefix),
        prefix != "TERM="@,
    ensures
        same_entries(term_env(env, flatpak), env, prefix),
{
    lemma_session_names();
    assert(is_session_variable("TERM="@));
    lemma_set_keeps_others(env, "TERM="@, "xterm-256color"@, prefix);
    assert(!has_var(env, "TERM="@) ==> with_default(env, "TERM="@, Some("xterm-256color"@)) == env.push(
        "TERM="@ + "xterm-256color"@,
    ));
}

/// The entries that a child has of a variable which the caller leaves alone are the session's own.
proof fn lemma_uncalled(
    context: SpawnContext,
    never: bool,
    custom: Option<Seq<char>>,
    user: Seq<Seq<char>>,
    prefix: Seq<char>,
)
    requires
        is_var_prefix(prefix),
        !has_var(user, prefix),
    ensures
        same_entries(child_env(context, never, custom, user), session_env(context, never, custom), prefix),
{
    assert forall|x: Seq<char>| #[trigger] entry_sets(x, prefix) implies (child_env(
        context,
        never,
        custom,
        user,
    ).contains(x) <==> session_env(context, never, custom).contains(x)) by {
        law_other_variables_are_the_sessions_own(context, never, custom, user, prefix, x);
    }
}

proof fn lemma_sandbox_keeps_others(env: Seq<Seq<char>>, sandbox: Sandbox, prefix: Seq<char>)
    requires
        is_var_prefix(prefix),
        prefix != "CLOUDSDK_CONFIG="@,
        prefix != "AZURE_CONFIG_DIR="@,
        prefix != "TELEPORT_HOME="@,
        prefix != "OCI_CLI_CONFIG_FILE="@,
    ensures
        same_entries(sandbox_env(env, sandbox), env, prefix),
{
    match sandbox {
        Sandbox::Unsandboxed => {},
        Sandbox::Flatpak(dirs) => lemma_tools(env, dirs, prefix),
        Sandbox::Snap(dirs) => lemma_tools(env, dirs, prefix),
    }
}

/// A child talks to the agent of its connection; without one to the agent that was started here, with
/// its number where that is known; without either to the one it inherits.
pub proof fn law_child_talks_to_its_agent(
    context: &SpawnContext,
    never: bool,
    socket: Option<&str>,
    user: &Vec<String>,
    r: Vec<String>,
)
    requires
        call_ensures(build_child_env, (context, never, socket, user), r),
        !has_var(views(user@), "SSH_AUTH_SOCK="@),
        !has_var(views(user@), "SSH_AGENT_PID="@),
    ensures
        ({
            let env = views(r@);
            let before = base_env(context.parent@, context.extended_path@);
            &&& (socket matches Some(s) ==> is_set_to(env, "SSH_AUTH_SOCK="@, s@))
            &&& (socket is Some ==> same_entries(env, before, "SSH_AGENT_PID="@))
            &&& (context.agent matches Some(agent) ==> socket is None ==> {
                &&& is_set_to(env, "SSH_AUTH_SOCK="@, agent.socket_path@)
                &&& agent.pid matches Some(pid) ==> is_set_to(env, "SSH_AGENT_PID="@, pid@)
                &&& agent.pid is None ==> same_entries(env, before, "SSH_AGENT_PID="@)
            })
            &&& (socket is None && context.agent is None ==> {
                &&& same_entries(env, before, "SSH_AUTH_SOCK="@)
                &&& same_entries(env, before, "SSH_AGENT_PID="@)
            })
        }),
{
    lemma_session_names();
    lemma_names_differ();
    let sock = "SSH_AUTH_SOCK="@;
    let number = "SSH_AGENT_PID="@;
    assert(is_session_variable(sock) && is_session_variable(number));
    let custom = opt_str_view(socket);
    let env = views(r@);
    let e1 = base_env(context.parent@, context.extended_path@);
    let e2 = agent_env(e1, custom, context.agent);
    let e3 = askpass_env(e2, never);
    let e4 = sandbox_env(e3, context.sandbox);
    lemma_uncalled(*context, never, custom, views(user@), sock);
    lemma_uncalled(*context, never, custom, views(user@), number);
    lemma_askpass_keeps_others(e2, never, sock);
    lemma_askpass_keeps_others(e2, never, number);
    lemma_sandbox_keeps_others(e3, context.sandbox, sock);
    lemma_sandbox_keeps_others(e3, context.sandbox, number);
    lemma_term_keeps_others(e4, context.sandbox is Flatpak, sock);
    lemma_term_keeps_others(e4, context.sandbox is Flatpak, number);
    assert(same_entries(env, e2, sock));
    assert(same_entries(env, e2, number));
    match socket {
        Some(s) => {
            lemma_with_var(e1, sock, s@);
            lemma_same_set(env, e2, sock, s@);
            lemma_set_keeps_others(e1, sock, s@, number);
        },
        None => {
            if let Some(agent) = context.agent {
                let path = agent.socket_path@;
                lemma_with_var(e1, sock, path);
                lemma_set_keeps_others(e1, sock, path, number);
                let with_socket = with_var(e1, sock, path);
                if let Some(pid) = agent.pid {
                    lemma_with_var(with_socket, number, pid@);
                    lemma_set_keeps_others(with_socket, number, pid@, sock);
                    lemma_same_set(e2, with_socket, sock, path);
                    lemma_same_set(env, e2, number, pid@);
                }
                lemma_same_set(env, e2, sock, path);
            }
        },
    }
}

/// External askpass programs are switched off exactly where that is asked for; otherwise the switch is
/// as it was inherited.
pub proof fn law_askpass_is_switched_off(
    context: &SpawnContext,
    never: bool,
    socket: Option<&str>,
    user: &Vec<String>,
    r: Vec<String>,
)
    requires
        call_ensures(build_child_env, (context, never, socket, user), r),
        !has_var(views(user@), "SSH_ASKPASS_REQUIRE="@),
    ensures
        never ==> is_set_to(views(r@), "SSH_ASKPASS_REQUIRE="@, "never"@),
        !never ==> same_entries(
            views(r@),
            base_env(context.parent@, context.extended_path@),
            "SSH_ASKPASS_REQUIRE="@,
        ),
{
    lemma_session_names();
    lemma_names_differ();
    let prefix = "SSH_ASKPASS_REQUIRE="@;
    let ask = "SSH_ASKPASS="@;
    assert(is_session_variable(prefix) && is_session_variable(ask));
    let custom = opt_str_view(socket);
    let env = views(r@);
    let e1 = base_env(context.parent@, context.extended_path@);
    let e2 = agent_env(e1, custom, context.agent);
    let e3 = askpass_env(e2, never);
    let e4 = sandbox_env(e3, context.sandbox);
    lemma_uncalled(*context, never, custom, views(user@), prefix);
    lemma_agent_keeps_others(e1, custom, context.agent, prefix);
    lemma_set_keeps_others(e2, ask, Seq::empty(), prefix);
    lemma_with_var(without_var(e2, ask), prefix, "never"@);
    lemma_sandbox_keeps_others(e3, context.sandbox, prefix);
    lemma_term_keeps_others(e4, context.sandbox is Flatpak, prefix);
    assert(same_entries(env, e3, prefix));
    if never {
        lemma_same_set(env, e3, prefix, "never"@);
    }
}

/// In a sandbox each tool is configured in a writable place, unless its place was chosen already;
/// outside of one nothing is said of it.
pub proof fn law_tools_are_configured_in_writable_places(
    context: &SpawnContext,
    never: bool,
    socket: Option<&str>,
    user: &Vec<String>,
    r: Vec<String>,
    prefix: Seq<char>,
)
    requires
        call_ensures(build_child_env, (context, never, socket, user), r),
        prefix == "CLOUDSDK_CONFIG="@ || prefix == "AZURE_CONFIG_DIR="@ || prefix == "TELEPORT_HOME="@
            || prefix == "OCI_CLI_CONFIG_FILE="@,
        !has_var(views(user@), prefix),
    ensures
        ({
            let env = views(r@);
            let before = base_env(context.parent@, context.extended_path@);
            match context.sandbox {
                Sandbox::Unsandboxed => same_entries(env, before, prefix),
                Sandbox::Flatpak(dirs) => is_default(before, env, prefix, place_of(dirs, prefix)),
                Sandbox::Snap(dirs) => is_default(before, env, prefix, place_of(dirs, prefix)),
            }
        }),
{
    lemma_session_names();
    lemma_names_differ();
    assert(is_session_variable(prefix));
    let custom = opt_str_view(socket);
    let env = views(r@);
    let e1 = base_env(context.parent@, context.extended_path@);
    let e2 = agent_env(e1, custom, context.agent);
    let e3 = askpass_env(e2, never);
    let e4 = sandbox_env(e3, context.sandbox);
    lemma_uncalled(*context, never, custom, views(user@), prefix);
    lemma_agent_keeps_others(e1, custom, context.agent, prefix);
    lemma_askpass_keeps_others(e2, never, prefix);
    lemma_term_keeps_others(e4, context.sandbox is Flatpak, prefix);
    assert(same_entries(e3, e1, prefix));
    assert(same_entries(env, e4, prefix));
    lemma_same_has(e3, e1, prefix);
    match context.sandbox {
        Sandbox::Unsandboxed => {},
        Sandbox::Flatpak(dirs) => lemma_tool_place(e1, e3, e4, env, dirs, prefix),
        Sandbox::Snap(dirs) => lemma_tool_place(e1, e3, e4, env, dirs, prefix),
    }
}

/// The writable place of a tool's configuration.
pub open spec fn place_of(dirs: CliConfigDirs, prefix: Seq<char>) -> Option<Seq<char>> {
    if prefix == "CLOUDSDK_CONFIG="@ {
        opt_view(dirs.gcloud)
    } else if prefix == "AZURE_CONFIG_DIR="@ {
        opt_view(dirs.azure)
    } else if prefix == "TELEPORT_HOME="@ {
        opt_view(dirs.teleport)
    } else {
        oci_file(dirs)
    }
}

proof fn lemma_tool_place(
    e1: Seq<Seq<char>>,
    e3: Seq<Seq<char>>,
    e4: Seq<Seq<char>>,
    env: Seq<Seq<char>>,
    dirs: CliConfigDirs,
    prefix: Seq<char>,
)
    requires
        prefix == "CLOUDSDK_CONFIG="@ || prefix == "AZURE_CONFIG_DIR="@ || prefix == "TELEPORT_HOME="@
            || prefix == "OCI_CLI_CONFIG_FILE="@,
        e4 == cli_env(e3, dirs),
        same_entries(e3, e1, prefix),
        same_entries(env, e4, prefix),
        has_var(e3, prefix) == has_var(e1, prefix),
    ensures
        is_default(e1, env, prefix, place_of(dirs, prefix)),
{
    lemma_session_names();
    lemma_names_differ();
    assert(is_session_variable(prefix));
    lemma_tools(e3, dirs, prefix);
    let value = place_of(dirs, prefix);
    assert(is_default(e3, e4, prefix, value));
    if !has_var(e3, prefix) && value is Some {
        lemma_same_set(env, e4, prefix, value->0);
    }
}

/// The terminal type is the usual one where none was inherited, in a Flatpak, and where a dumb one was
/// inherited; otherwise the inherited one is kept.
pub proof fn law_terminal_type_is_usable(
    context: &SpawnContext,
    never: bool,
    socket: Option<&str>,
    user: &Vec<String>,
    r: Vec<String>,
)
    requires
        call_ensures(build_child_env, (context, never, socket, user), r),
        !has_var(views(user@), "TERM="@),
    ensures
        ({
            let env = views(r@);
            let before = base_env(context.parent@, context.extended_path@);
            if !has_var(before, "TERM="@) || context.sandbox is Flatpak || before.contains("TERM=dumb"@) {
                is_set_to(env, "TERM="@, "xterm-256color"@)
            } else {
                same_entries(env, before, "TERM="@)
            }
        }),
{
    lemma_session_names();
    lemma_names_differ();
    let prefix = "TERM="@;
    assert(is_session_variable(prefix));
    let custom = opt_str_view(socket);
    let env = views(r@);
    let e1 = base_env(context.parent@, context.extended_path@);
    let e2 = agent_env(e1, custom, context.agent);
    let e3 = askpass_env(e2, never);
    let e4 = sandbox_env(e3, context.sandbox);
    let e5 = term_env(e4, context.sandbox is Flatpak);
    lemma_uncalled(*context, never, custom, views(user@), prefix);
    lemma_agent_keeps_others(e1, custom, context.agent, prefix);
    lemma_askpass_keeps_others(e2, never, prefix);
    lemma_sandbox_keeps_others(e3, context.sandbox, prefix);
    assert(same_entries(e4, e1, prefix));
    lemma_same_has(e4, e1, prefix);
    reveal_strlit("TERM=dumb");
    reveal_strlit("TERM=");
    assert("TERM=dumb"@.subrange(0, 5) =~= "TERM="@);
    assert(entry_sets("TERM=dumb"@, prefix));
    lemma_with_var(e4, prefix, "xterm-256color"@);
    lemma_with_default(e4, prefix, Some("xterm-256color"@));
    assert(!has_var(e4, prefix) ==> with_default(e4, prefix, Some("xterm-256color"@)) == e5);
    if !has_var(e4, prefix) || context.sandbox is Flatpak || e4.contains("TERM=dumb"@) {
        assert(is_set_to(e5, prefix, "xterm-256color"@));
        lemma_same_set(env, e5, prefix, "xterm-256color"@);
    }
}

/// What a child inherits is what this process has, name and value; only the search path is another.
pub proof fn law_child_inherits_the_environment(
    context: &SpawnContext,
    never: bool,
    socket: Option<&str>,
    user: &Vec<String>,
    r: Vec<String>,
    i: int,
)
    requires
        call_ensures(build_child_env, (context, never, socket, user), r),
        0 <= i < context.parent@.len(),
        !context.parent@[i].0@.contains('='),
        context.parent@[i].0@ != "PATH"@,
        !is_session_variable(context.parent@[i].0@ + "="@),
        !has_var(views(user@), context.parent@[i].0@ + "="@),
    ensures
        views(r@).contains(context.parent@[i].0@ + "="@ + context.parent@[i].1@),
{
    let name = context.parent@[i].0@;
    let value = context.parent@[i].1@;
    let prefix = name + "="@;
    let x = name + "="@ + value;
    lemma_entry_name(name, value);
    let base = base_env(context.parent@, context.extended_path@);
    assert(base[i] == x);
    assert(base.contains(x));
    law_inherited_variables_are_handed_on(
        *context,
        never,
        opt_str_view(socket),
        views(user@),
        prefix,
        x,
    );
}

/// Each of the caller's entries that is the last of its name is in the child's environment.
pub proof fn law_callers_entries_reach_the_child(
    context: &SpawnContext,
    never: bool,
    socket: Option<&str>,
    user: &Vec<String>,
    r: Vec<String>,
    k: int,
    prefix: Seq<char>,
)
    requires
        call_ensures(build_child_env, (context, never, socket, user), r),
        0 <= k < user@.len(),
        is_var_prefix(prefix),
        exists|value: Seq<char>| user@[k]@ == #[trigger] (prefix + value),
        forall|j: int| k < j < user@.len() ==> !entry_sets((#[trigger] user@[j])@, prefix),
    ensures
        views(r@).contains(user@[k]@),
        forall|x: Seq<char>|
            views(r@).contains(x) && #[trigger] entry_sets(x, prefix) ==> x == user@[k]@,
{
    let all = views(user@);
    let value = choose|value: Seq<char>| user@[k]@ == #[trigger] (prefix + value);
    assert(all[k].subrange(0, prefix.len() as int) =~= prefix);
    assert forall|j: int| k < j < all.len() implies !entry_sets(#[trigger] all[j], prefix) by {
        assert(all[j] == user@[j]@);
    }
    law_last_entry_of_the_caller_wins(*context, never, opt_str_view(socket), all, k, prefix);
}

/// What is inherited is every variable of this process with its value, the search path alone being
/// replaced, and set even where there was none; nothing else is.
pub proof fn law_inherited_entries_are_this_processs(
    parent: Seq<(String, String)>,
    path: Seq<char>,
    x: Seq<char>,
)
    ensures
        base_env(parent, path).contains(x) <==> x == "PATH="@ + path || exists|i: int|
            0 <= i < parent.len() && (#[trigger] parent[i]).0@ != "PATH"@ && x == parent[i].0@ + "="@
                + parent[i].1@,
{
    let all = inherited(parent, path);
    lemma_push_contains(all, "PATH="@ + path, x);
    if all.contains(x) {
        let i = choose|i: int| 0 <= i < all.len() && all[i] == x;
        assert(parent[i].0@ == "PATH"@ || x == parent[i].0@ + "="@ + parent[i].1@);
    }
    if has_path(parent) {
        let i = choose|i: int| 0 <= i < parent.len() && (#[trigger] parent[i]).0@ == "PATH"@;
        assert(all[i] == "PATH="@ + path);
    }
    if exists|i: int|
        0 <= i < parent.len() && (#[trigger] parent[i]).0@ != "PATH"@ && x == parent[i].0@ + "="@
            + parent[i].1@ {
        let i = choose|i: int|
            0 <= i < parent.len() && (#[trigger] parent[i]).0@ != "PATH"@ && x == parent[i].0@ + "="@
                + parent[i].1@;
        assert(all[i] == x);
    }
}

/// A variable is set exactly where an entry starts with its name and an equals sign.
pub proof fn law_entry_starts_with_its_name(env: Seq<Seq<char>>, prefix: Seq<char>)
    ensures
        has_var(env, prefix) <==> exists|i: int, value: Seq<char>|
            0 <= i < env.len() && #[trigger] env[i] == #[trigger] (prefix + value),
{
    if has_var(env, prefix) {
        let i = choose|i: int| 0 <= i < env.len() && matches_at(#[trigger] env[i], prefix, 0);
        let value = env[i].skip(prefix.len() as int);
        assert(env[i] =~= env[i].subrange(0, prefix.len() as int) + value);
        assert(env[i] == prefix + value);
    }
    if exists|i: int, value: Seq<char>|
        0 <= i < env.len() && #[trigger] env[i] == #[trigger] (prefix + value) {
        let (i, value) = choose|i: int, value: Seq<char>|
            0 <= i < env.len() && #[trigger] env[i] == #[trigger] (prefix + value);
        assert(env[i].subrange(0, prefix.len() as int) =~= prefix);
        assert(matches_at(env[i], prefix, 0));
    }
}

} // verus!

//! Running a session's command on a pseudo-terminal, and ending it.
//!
//! The program opens the terminal, moves the bytes and sends the signals; what it does next is
//! decided here.

use crate::scrub::{guard_bytes, SecretBytes};
use crate::text::{self, before_char, opt_str_view, opt_view, push_string, views};
use vstd::prelude::*;
use vstd::utf8::encode_utf8;

verus! {

/// How many bytes are read at once.
pub const READ_CHUNK: usize = 8192;

/// How long the reader waits before it looks whether it should stop, in milliseconds.
pub const STOP_CHECK_INTERVAL_MS: u64 = 200;

/// How long the end of a session waits for its threads, in milliseconds.
pub const SHUTDOWN_GRACE_MS: u64 = 500;

/// How many chunks of output are held at most.
pub const OUTPUT_QUEUE_CHUNKS: usize = 64;

/// How long a process has to end by itself, in milliseconds.
pub const TERM_GRACE_MS: u64 = 500;

/// The same when the program ends, where somebody waits for it.
pub const SHUTDOWN_TERM_GRACE_MS: u64 = 100;

/// The bytes with so many NULs behind them that they are at least `size`.
pub open spec fn padded(bytes: Seq<u8>, size: nat) -> Seq<u8> {
    if bytes.len() < size {
        bytes + Seq::new((size - bytes.len()) as nat, |i: int| 0u8)
    } else {
        bytes
    }
}

/// The bytes behind typed text. The text stops at the first NUL while `size` counts every byte, so
/// what is missing is filled up with NULs; a size that is too small is not believed.
pub fn commit_bytes(text: &str, size: u32) -> (r: SecretBytes)
    ensures
        r@ == padded(encode_utf8(text@), size as nat),
{
    let bytes = text.as_bytes();
    let n: usize = bytes.len();
    let declared: usize = size as usize;
    // The whole of it at once: a vector that grows leaves copies of what was typed behind.
    let mut v: Vec<u8> = Vec::with_capacity(
        if n < declared {
            declared
        } else {
            n
        },
    );
    let mut i: usize = 0;
    assert(bytes@.take(0) =~= Seq::empty());
    while i < n
        invariant
            i <= n,
            n == bytes@.len(),
            v@ == bytes@.take(i as int),
        decreases n - i,
    {
        v.push(bytes[i]);
        assert(bytes@.take(i + 1) =~= bytes@.take(i as int).push(bytes@[i as int]));
        i += 1;
    }
    assert(bytes@.take(n as int) =~= bytes@);
    while v.len() < declared
        invariant
            declared == size,
            bytes@.len() <= v@.len(),
            v@.len() <= declared || v@ == bytes@,
            v@ == padded(bytes@, v@.len()),
        decreases declared - v@.len(),
    {
        let ghost before = v@;
        v.push(0);
        assert(v@ =~= padded(bytes@, v@.len()));
    }
    assert(v@ =~= padded(bytes@, size as nat));
    guard_bytes(v)
}

/// The relay's side of a pseudo-terminal.
pub struct PtyRelay {
    /// The size that the child was told last, in rows and columns.
    last_size: (u16, u16),
}

impl PtyRelay {
    /// The size that the child was told last, in rows and columns.
    pub closed spec fn size(&self) -> (u16, u16) {
        self.last_size
    }

    /// A relay for a child that was started with the given size.
    pub fn start(initial_size: (u16, u16)) -> (r: Self)
        ensures
            r.size() == initial_size,
    {
        PtyRelay { last_size: initial_size }
    }

    /// Says whether the child has to be told a size, and takes note of it. A size that the child
    /// knows is not repeated, and one without rows or columns is none.
    pub fn sync_size(&mut self, rows: u16, cols: u16) -> (r: bool)
        ensures
            r == (rows != 0 && cols != 0 && old(self).size() != (rows, cols)),
            final(self).size() == (if r {
                (rows, cols)
            } else {
                old(self).size()
            }),
    {
        if rows == 0 || cols == 0 || (self.last_size.0 == rows && self.last_size.1 == cols) {
            return false;
        }
        self.last_size = (rows, cols);
        true
    }
}

/// What happened to the reader.
#[derive(Clone, Copy, Debug, PartialEq, Eq, Structural)]
pub enum ReadEvent {
    /// Nothing yet.
    Begun,
    /// Nothing to read within the interval.
    TimedOut,
    /// There is something to read.
    Readable,
    /// Waiting failed.
    WaitFailed,
    /// So many bytes were read; none means that the child is gone.
    Got(usize),
    /// The bytes are with the consumer.
    Published,
    /// There is no consumer any more.
    ConsumerGone,
    /// Reading was interrupted.
    Interrupted,
    /// The other side of the terminal is closed.
    HungUp,
    /// Reading failed in another way.
    ReadFailed,
}

/// What the reader does next.
#[derive(Clone, Copy, Debug, PartialEq, Eq, Structural)]
pub enum ReadStep {
    /// Waits for something to read, for the interval.
    Wait,
    Read,
    /// Hands so many bytes to the consumer.
    Publish(usize),
    /// Ends; a failure that is no ordinary end is worth a word.
    Stop { warn: bool },
}

/// What the reader does next. It looks whether it should stop before it waits.
pub open spec fn reads_next(event: ReadEvent, stop: bool) -> ReadStep {
    match event {
        ReadEvent::Begun | ReadEvent::TimedOut | ReadEvent::Published | ReadEvent::Interrupted => {
            if stop {
                ReadStep::Stop { warn: false }
            } else {
                ReadStep::Wait
            }
        },
        ReadEvent::Readable => ReadStep::Read,
        ReadEvent::WaitFailed | ReadEvent::ReadFailed => ReadStep::Stop { warn: true },
        ReadEvent::Got(n) => if n == 0 {
            ReadStep::Stop { warn: false }
        } else {
            ReadStep::Publish(n)
        },
        ReadEvent::ConsumerGone | ReadEvent::HungUp => ReadStep::Stop { warn: false },
    }
}

/// Says what the reader does next.
pub fn read_step(event: ReadEvent, stop: bool) -> (r: ReadStep)
    ensures
        r == reads_next(event, stop),
{
    match event {
        ReadEvent::Begun | ReadEvent::TimedOut | ReadEvent::Published | ReadEvent::Interrupted => {
            if stop {
                ReadStep::Stop { warn: false }
            } else {
                ReadStep::Wait
            }
        },
        ReadEvent::Readable => ReadStep::Read,
        ReadEvent::WaitFailed | ReadEvent::ReadFailed => ReadStep::Stop { warn: true },
        ReadEvent::Got(n) => {
            if n == 0 {
                ReadStep::Stop { warn: false }
            } else {
                ReadStep::Publish(n)
            }
        },
        ReadEvent::ConsumerGone | ReadEvent::HungUp => ReadStep::Stop { warn: false },
    }
}

/// What happened to the writer.
#[derive(Clone, Copy, Debug, PartialEq, Eq, Structural)]
pub enum WriteEvent {
    /// Nothing yet.
    Begun,
    /// The next input is there.
    Received,
    /// No more input will come.
    QueueClosed,
    /// The input was written.
    Written,
    /// The child is gone.
    Broken,
    /// Writing failed in another way.
    WriteFailed,
    /// What was written has gone out.
    Flushed,
    FlushFailed,
}

/// What the writer does next.
#[derive(Clone, Copy, Debug, PartialEq, Eq, Structural)]
pub enum WriteStep {
    /// Waits for input.
    Receive,
    Write,
    Flush,
    /// Ends; a failure that is no ordinary end is worth a word.
    Stop { warn: bool },
}

/// Says what the writer does next: each input is written and flushed before the next is taken, and
/// the first failure ends it.
pub fn write_step(event: WriteEvent) -> (r: WriteStep)
    ensures
        r == match event {
            WriteEvent::Begun | WriteEvent::Flushed => WriteStep::Receive,
            WriteEvent::Received => WriteStep::Write,
            WriteEvent::Written => WriteStep::Flush,
            WriteEvent::QueueClosed | WriteEvent::Broken => WriteStep::Stop { warn: false },
            WriteEvent::WriteFailed | WriteEvent::FlushFailed => WriteStep::Stop { warn: true },
        },
{
    match event {
        WriteEvent::Begun | WriteEvent::Flushed => WriteStep::Receive,
        WriteEvent::Received => WriteStep::Write,
        WriteEvent::Written => WriteStep::Flush,
        WriteEvent::QueueClosed | WriteEvent::Broken => WriteStep::Stop { warn: false },
        WriteEvent::WriteFailed | WriteEvent::FlushFailed => WriteStep::Stop { warn: true },
    }
}

/// Why a session's command could not be started.
#[derive(Debug)]
pub enum SpawnError {
    /// There is no such program.
    NotFound,
    /// Anything else, in words.
    Failed(String),
}

impl SpawnError {
    /// The error in words.
    pub open spec fn text(&self) -> Seq<char> {
        match self {
            SpawnError::NotFound => "command not found"@,
            SpawnError::Failed(s) => s@,
        }
    }

    /// Whether there is no such program.
    pub fn is_not_found(&self) -> (r: bool)
        ensures
            r == (*self is NotFound),
    {
        match self {
            SpawnError::NotFound => true,
            SpawnError::Failed(_) => false,
        }
    }

    /// A failure of one step.
    pub fn failed(context: &str, error: &str) -> (r: SpawnError)
        ensures
            r matches SpawnError::Failed(s) && s@ == context@ + ": "@ + error@,
    {
        SpawnError::Failed(text::join3(context, ": ", error))
    }

    /// The failure to start a program. The system says of a program that is missing what it says of a
    /// missing working directory; only where the directory is there, or none was asked for, is it the
    /// program.
    pub fn of_spawn(not_found: bool, directory_there: bool, error: &str) -> (r: SpawnError)
        ensures
            if not_found && directory_there {
                r is NotFound
            } else {
                r matches SpawnError::Failed(s) && s@ == "spawn"@ + ": "@ + error@
            },
    {
        if not_found && directory_there {
            SpawnError::NotFound
        } else {
            SpawnError::failed("spawn", error)
        }
    }

    /// The error in words.
    pub fn message(&self) -> (r: String)
        ensures
            r@ == self.text(),
    {
        match self {
            SpawnError::NotFound => "command not found".to_owned(),
            SpawnError::Failed(s) => s.clone(),
        }
    }
}

/// A command that is to be started on a pseudo-terminal.
pub struct PtyCommand {
    pub program: String,
    pub args: Vec<String>,
    /// The variables of the process and nothing else; `None` for those of this process.
    pub env: Option<Vec<(String, String)>>,
    pub working_directory: Option<String>,
}

/// The names and values of the first `n` entries. An entry without an equals sign has neither.
pub open spec fn pairs_of(entries: Seq<Seq<char>>, n: int) -> Seq<(Seq<char>, Seq<char>)>
    decreases n,
{
    if n <= 0 {
        Seq::empty()
    } else {
        let before = pairs_of(entries, n - 1);
        let entry = entries[n - 1];
        let name = before_char(entry, '=');
        if name.len() < entry.len() {
            before.push((name, entry.skip(name.len() as int + 1)))
        } else {
            before
        }
    }
}

/// The views of names and values.
pub open spec fn pair_views(v: Seq<(String, String)>) -> Seq<(Seq<char>, Seq<char>)> {
    Seq::new(v.len(), |i: int| (v[i].0@, v[i].1@))
}

fn split_entries(envv: &Vec<String>) -> (r: Vec<(String, String)>)
    ensures
        pair_views(r@) == pairs_of(views(envv@), envv@.len() as int),
{
    let ghost all = views(envv@);
    let mut pairs: Vec<(String, String)> = Vec::new();
    let mut i: usize = 0;
    assert(pair_views(pairs@) =~= pairs_of(all, 0));
    while i < envv.len()
        invariant
            i <= envv@.len(),
            all == views(envv@),
            pair_views(pairs@) == pairs_of(all, i as int),
        decreases envv@.len() - i,
    {
        let entry = envv[i].as_str();
        let name = text::until_char(entry, '=');
        let n: usize = name.unicode_len();
        let len: usize = entry.unicode_len();
        let ghost before = pairs@;
        if n < len {
            let value = entry.substring_char(n + 1, len);
            assert(value@ =~= entry@.skip(n + 1));
            pairs.push((name.to_owned(), value.to_owned()));
            assert(pair_views(pairs@) =~= pair_views(before).push((name@, value@)));
        }
        i += 1;
    }
    pairs
}

/// Whether `r` is the command that the arguments and the environment stand for. Without a program
/// there is none; an empty environment is that of this process.
pub open spec fn is_command(
    r: PtyCommand,
    argv: Seq<Seq<char>>,
    envv: Seq<Seq<char>>,
    working_directory: Option<Seq<char>>,
) -> bool {
    &&& argv.len() > 0
    &&& r.program@ == argv[0]
    &&& views(r.args@) == argv.skip(1)
    &&& opt_view(r.working_directory) == working_directory
    &&& match r.env {
        Some(pairs) => envv.len() > 0 && pair_views(pairs@) == pairs_of(envv, envv.len() as int),
        None => envv.len() == 0,
    }
}

/// Prepares a command for a pseudo-terminal.
pub fn pty_command(argv: &Vec<String>, envv: &Vec<String>, working_directory: Option<&str>) -> (r:
    Result<PtyCommand, SpawnError>)
    ensures
        match r {
            Ok(command) => is_command(
                command,
                views(argv@),
                views(envv@),
                opt_str_view(working_directory),
            ),
            Err(e) => argv@.len() == 0 && (e matches SpawnError::Failed(s) && s@ == "argv is empty"@),
        },
{
    if argv.len() == 0 {
        return Err(SpawnError::Failed("argv is empty".to_owned()));
    }
    let ghost all = views(argv@);
    let mut args: Vec<String> = Vec::new();
    let mut i: usize = 1;
    assert(views(args@) =~= all.subrange(1, 1));
    while i < argv.len()
        invariant
            1 <= i <= argv@.len(),
            all == views(argv@),
            views(args@) == all.subrange(1, i as int),
        decreases argv@.len() - i,
    {
        assert(all.subrange(1, i + 1) =~= all.subrange(1, i as int).push(all[i as int]));
        push_string(&mut args, argv[i].clone());
        i += 1;
    }
    assert(all.subrange(1, i as int) =~= all.skip(1));
    let env = if envv.len() == 0 {
        None
    } else {
        Some(split_entries(envv))
    };
    let directory = match working_directory {
        Some(d) => Some(d.to_owned()),
        None => None,
    };
    Ok(PtyCommand { program: argv[0].clone(), args, env, working_directory: directory })
}

/// What follows once a process group was told to end.
#[derive(Clone, Copy, Debug, PartialEq, Eq, Structural)]
pub enum AfterTerm {
    /// The group has its time to end.
    Grace,
    /// There is no such group; its former leader is killed, in case it is still there.
    KillLeader,
}

/// Says what follows once a process group was told to end.
pub fn signal_group(delivered: bool) -> (r: AfterTerm)
    ensures
        r == (if delivered {
            AfterTerm::Grace
        } else {
            AfterTerm::KillLeader
        }),
{
    if delivered {
        AfterTerm::Grace
    } else {
        AfterTerm::KillLeader
    }
}

/// Whether a process still leads the group that was started with it. Otherwise the process is gone,
/// and its number may be somebody else's. `alive` says whether there is a process of that number,
/// `group` which group it is in.
pub fn still_our_group_leader(pid: i32, alive: bool, group: Option<i32>) -> (r: bool)
    ensures
        r == (alive && group == Some(pid)),
{
    match group {
        Some(g) => alive && g == pid,
        None => false,
    }
}

/// The groups that have to be looked at again when their time is over: those that were told to end.
pub open spec fn told(pids: Seq<i32>, delivered: Seq<bool>, n: int) -> Seq<i32>
    decreases n,
{
    if n <= 0 {
        Seq::empty()
    } else if delivered[n - 1] {
        told(pids, delivered, n - 1).push(pids[n - 1])
    } else {
        told(pids, delivered, n - 1)
    }
}

/// The groups that have to be looked at again. Nothing is waited for where there are none.
pub fn pending_groups(pids: &Vec<i32>, delivered: &Vec<bool>) -> (r: Vec<i32>)
    requires
        pids@.len() == delivered@.len(),
    ensures
        r@ == told(pids@, delivered@, pids@.len() as int),
{
    let mut pending: Vec<i32> = Vec::new();
    let mut i: usize = 0;
    while i < pids.len()
        invariant
            i <= pids@.len() == delivered@.len(),
            pending@ == told(pids@, delivered@, i as int),
        decreases pids@.len() - i,
    {
        if delivered[i] {
            pending.push(pids[i]);
        }
        i += 1;
    }
    pending
}

/// Typed text never loses a byte: its bytes come first, only NULs follow, and there are as many as
/// were counted.
pub proof fn law_typed_text_is_complete(bytes: Seq<u8>, size: nat)
    ensures
        padded(bytes, size).take(bytes.len() as int) == bytes,
        forall|i: int| bytes.len() <= i < padded(bytes, size).len() ==> padded(bytes, size)[i] == 0,
        padded(bytes, size).len() >= size,
        padded(bytes, size).len() >= bytes.len(),
        size <= bytes.len() ==> padded(bytes, size) == bytes,
{
    assert(padded(bytes, size).take(bytes.len() as int) =~= bytes);
}

/// The name and the value of an entry are all there is of it.
pub proof fn law_entry_is_its_name_and_value(entries: Seq<Seq<char>>, n: int, i: int)
    requires
        0 <= n <= entries.len(),
        0 <= i < pairs_of(entries, n).len(),
    ensures
        exists|k: int|
            0 <= k < n && #[trigger] entries[k] == pairs_of(entries, n)[i].0 + "="@ + pairs_of(
                entries,
                n,
            )[i].1,
        forall|j: int| 0 <= j < pairs_of(entries, n)[i].0.len() ==> pairs_of(entries, n)[i].0[j] != '=',
    decreases n,
{
    let before = pairs_of(entries, n - 1);
    if i < before.len() {
        law_entry_is_its_name_and_value(entries, n - 1, i);
    } else {
        let entry = entries[n - 1];
        text::lemma_before_char(entry, '=');
        let name = before_char(entry, '=');
        reveal_strlit("=");
        assert(entry =~= name + "="@ + entry.skip(name.len() as int + 1));
    }
}

/// The reader ends soon after it is asked to: it neither waits nor reads again once it has handed on
/// what it read.
pub proof fn law_stopped_reader_does_not_wait(event: ReadEvent)
    ensures
        reads_next(event, true) != ReadStep::Wait,
{
}

/// Typed text reaches the child as its bytes, and as many NULs behind them as were counted but not
/// given.
pub proof fn law_typed_bytes_are_all_sent(text: &str, size: u32, r: SecretBytes)
    requires
        call_ensures(commit_bytes, (text, size), r),
    ensures
        r@.len() == (if encode_utf8(text@).len() < size {
            size as nat
        } else {
            encode_utf8(text@).len()
        }),
        forall|i: int|
            0 <= i < encode_utf8(text@).len() ==> #[trigger] r@[i] == encode_utf8(text@)[i],
        forall|i: int| encode_utf8(text@).len() <= i < r@.len() ==> #[trigger] r@[i] == 0,
{
}

/// A reader waits, reads and hands on in turn: it reads exactly what is there to be read, hands on
/// exactly what it got, ends at the end of the text or of its consumer, warns exactly of a failure,
/// and looks for a request to stop whenever it would wait.
pub proof fn law_reader_hands_on_what_it_reads(event: ReadEvent, stop: bool, r: ReadStep)
    requires
        call_ensures(read_step, (event, stop), r),
    ensures
        r == ReadStep::Read <==> event == ReadEvent::Readable,
        r is Publish <==> (event matches ReadEvent::Got(n) && n > 0),
        event matches ReadEvent::Got(n) ==> (r matches ReadStep::Publish(m) ==> m == n),
        r == (ReadStep::Stop { warn: true }) <==> event == ReadEvent::WaitFailed || event
            == ReadEvent::ReadFailed,
        r == ReadStep::Wait <==> !stop && (event == ReadEvent::Begun || event == ReadEvent::TimedOut
            || event == ReadEvent::Published || event == ReadEvent::Interrupted),
        event == ReadEvent::HungUp || event == ReadEvent::ConsumerGone || event == ReadEvent::Got(0)
            ==> r == (ReadStep::Stop { warn: false }),
{
}

/// A writer takes an input only after the one before has gone out: it writes what it received, flushes
/// what it wrote, and ends at the first failure or when no input will come.
pub proof fn law_writer_flushes_each_input(event: WriteEvent, r: WriteStep)
    requires
        call_ensures(write_step, (event,), r),
    ensures
        r == WriteStep::Write <==> event == WriteEvent::Received,
        r == WriteStep::Flush <==> event == WriteEvent::Written,
        r == WriteStep::Receive <==> event == WriteEvent::Begun || event == WriteEvent::Flushed,
        r == (WriteStep::Stop { warn: true }) <==> event == WriteEvent::WriteFailed || event
            == WriteEvent::FlushFailed,
        r == (WriteStep::Stop { warn: false }) <==> event == WriteEvent::QueueClosed || event
            == WriteEvent::Broken,
{
}

/// A program counts as missing exactly where the system found nothing and the directory is not to
/// blame; any other failure is told with the step it happened in.
pub proof fn law_only_a_missing_program_is_not_found(
    not_found: bool,
    directory_there: bool,
    error: &str,
    r: SpawnError,
    missing: bool,
    text: String,
)
    requires
        call_ensures(SpawnError::of_spawn, (not_found, directory_there, error), r),
        call_ensures(SpawnError::is_not_found, (&r,), missing),
        call_ensures(SpawnError::message, (&r,), text),
    ensures
        missing <==> not_found && directory_there,
        missing ==> text@ == "command not found"@,
        !missing ==> text@ == "spawn: "@ + error@,
{
    reveal_strlit("spawn");
    reveal_strlit(": ");
    reveal_strlit("spawn: ");
    assert("spawn"@ + ": "@ =~= "spawn: "@);
}

/// A failure of a step names the step in front of the error.
pub proof fn law_failure_names_its_step(context: &str, error: &str, r: SpawnError, text: String)
    requires
        call_ensures(SpawnError::failed, (context, error), r),
        call_ensures(SpawnError::message, (&r,), text),
    ensures
        !(r is NotFound),
        text@ == context@ + ": "@ + error@,
{
}

/// A command is its first word with the others as its arguments, in the directory it was given; its
/// environment is the entries that it was given, or that of this process where it was given none. Only
/// a command without words is refused.
pub proof fn law_command_is_taken_word_by_word(
    argv: &Vec<String>,
    envv: &Vec<String>,
    directory: Option<&str>,
    r: Result<PtyCommand, SpawnError>,
)
    requires
        call_ensures(pty_command, (argv, envv, directory), r),
    ensures
        r is Ok <==> argv@.len() > 0,
        r matches Ok(command) ==> {
            &&& command.program@ == argv@[0]@
            &&& command.args@.len() == argv@.len() - 1
            &&& forall|i: int|
                0 <= i < command.args@.len() ==> (#[trigger] command.args@[i])@ == argv@[i + 1]@
            &&& command.env is None <==> envv@.len() == 0
            &&& (command.working_directory is Some <==> directory is Some)
            &&& (directory matches Some(d) ==> command.working_directory->0@ == d@)
        },
        r matches Err(e) ==> e.text() == "argv is empty"@,
{
    if let Ok(command) = r {
        let all = views(argv@);
        assert(views(command.args@).len() == command.args@.len());
        assert forall|i: int| 0 <= i < command.args@.len() implies (#[trigger] command.args@[i])@
            == argv@[i + 1]@ by {
            assert(views(command.args@)[i] == all[i + 1]);
        }
        assert(opt_view(command.working_directory) == opt_str_view(directory));
        assert(all.len() == argv@.len());
        assert(views(envv@).len() == envv@.len());
    }
}

/// Entries become variables one by one: what stands before the first equals sign names the variable,
/// what stands behind it is its value, and an entry without one is none.
pub proof fn law_entry_is_split_at_the_first_equals_sign(
    entries: Seq<Seq<char>>,
    name: Seq<char>,
    value: Seq<char>,
)
    requires
        !name.contains('='),
    ensures
        ({
            let n = entries.len() as int;
            let before = pairs_of(entries, n);
            &&& pairs_of(entries.push(name + seq!['='] + value), n + 1) == before.push((name, value))
            &&& pairs_of(entries.push(name), n + 1) == before
        }),
        pairs_of(entries, 0).len() == 0,
{
    let n = entries.len() as int;
    let entry = name + seq!['='] + value;
    let with_entry = entries.push(entry);
    let with_name = entries.push(name);
    lemma_pairs(entries, with_entry, n);
    lemma_pairs(entries, with_name, n);
    assert forall|i: int| 0 <= i < name.len() implies name[i] != '=' by {
        assert(name.contains(name[i]));
    }
    assert forall|i: int| 0 <= i < name.len() implies entry[i] != '=' by {
        assert(entry[i] == name[i]);
    }
    assert(entry[name.len() as int] == '=');
    text::lemma_before_char_is(entry, '=', name.len() as int);
    text::lemma_before_char_is(name, '=', name.len() as int);
    assert(entry.take(name.len() as int) =~= name);
    assert(entry.skip(name.len() as int + 1) =~= value);
}

proof fn lemma_pairs(a: Seq<Seq<char>>, b: Seq<Seq<char>>, n: int)
    requires
        0 <= n <= a.len(),
        n <= b.len(),
        forall|i: int| 0 <= i < n ==> a[i] == b[i],
    ensures
        pairs_of(a, n) == pairs_of(b, n),
    decreases n,
{
    if n > 0 {
        lemma_pairs(a, b, n - 1);
    }
}

/// A group that was told has its time; one that could not be told loses its leader. Only the leader of
/// its own group is still the process that was started.
pub proof fn law_group_is_told_before_it_is_killed(
    delivered: bool,
    after: AfterTerm,
    pid: i32,
    alive: bool,
    group: Option<i32>,
    ours: bool,
)
    requires
        call_ensures(signal_group, (delivered,), after),
        call_ensures(still_our_group_leader, (pid, alive, group), ours),
    ensures
        after == AfterTerm::Grace <==> delivered,
        after == AfterTerm::KillLeader <==> !delivered,
        ours <==> alive && group == Some(pid),
{
}

/// The groups that are looked at again are those that were told, in their order, and no others.
pub proof fn law_told_groups_are_looked_at_again(
    pids: Seq<i32>,
    delivered: Seq<bool>,
    pid: i32,
    told_now: bool,
)
    requires
        pids.len() == delivered.len(),
    ensures
        ({
            let n = pids.len() as int;
            told(pids.push(pid), delivered.push(told_now), n + 1) == (if told_now {
                told(pids, delivered, n).push(pid)
            } else {
                told(pids, delivered, n)
            })
        }),
        told(pids, delivered, 0).len() == 0,
{
    lemma_told(pids, pids.push(pid), delivered, delivered.push(told_now), pids.len() as int);
}

proof fn lemma_told(a: Seq<i32>, b: Seq<i32>, d: Seq<bool>, e: Seq<bool>, n: int)
    requires
        0 <= n <= a.len(),
        n <= b.len(),
        n <= d.len(),
        n <= e.len(),
        forall|i: int| 0 <= i < n ==> a[i] == b[i] && d[i] == e[i],
    ensures
        told(a, d, n) == told(b, e, n),
    decreases n,
{
    if n > 0 {
        lemma_told(a, b, d, e, n - 1);
    }
}

} // verus!

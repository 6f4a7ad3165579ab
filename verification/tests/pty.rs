use rustconn::terminal::pty::{
    commit_bytes, pending_groups, pty_command, read_step, signal_group, still_our_group_leader,
    write_step, AfterTerm, PtyRelay, ReadEvent, ReadStep, SpawnError, WriteEvent, WriteStep,
};

#[test]
fn commit_bytes_passes_ordinary_input_through() {
    assert_eq!(commit_bytes("ls -la\r", 7).as_slice(), b"ls -la\r");
}

#[test]
fn commit_bytes_restores_a_lone_nul() {
    // Ctrl+Space: the C string is empty, the declared size is 1.
    assert_eq!(commit_bytes("", 1).as_slice(), b"\0");
}

#[test]
fn commit_bytes_ignores_a_short_declared_size() {
    assert_eq!(commit_bytes("abc", 1).as_slice(), b"abc");
}

#[test]
fn commit_bytes_counts_bytes_not_characters() {
    assert_eq!(commit_bytes("é", 4).as_slice(), &[0xc3, 0xa9, 0, 0]);
    assert_eq!(commit_bytes("é", 4).len(), 4);
}

#[test]
fn a_zero_size_is_ignored_and_does_not_disturb_the_stored_one() {
    // A widget that has not been allocated yet reports zero rows; pushing that would tell the child
    // its terminal has no size at all.
    let mut relay = PtyRelay::start((24, 80));
    assert!(!relay.sync_size(0, 80), "zero rows must be refused");
    assert!(!relay.sync_size(24, 0), "zero columns must be refused");
    assert!(
        !relay.sync_size(24, 80),
        "the refused calls must not have overwritten the known size"
    );
    assert!(relay.sync_size(30, 90), "a real change still gets through");
    assert!(!relay.sync_size(30, 90), "and is not repeated");
}

#[test]
fn an_empty_argv_is_rejected_without_touching_the_system() {
    let err = pty_command(&vec![], &vec![], None).err().expect("empty argv must fail");
    assert!(!err.is_not_found());
    assert_eq!(err.message(), "argv is empty");
}

#[test]
fn a_command_is_split_into_program_arguments_and_variables() {
    let argv = vec!["sh".to_string(), "-c".to_string(), "true".to_string()];
    let envv = vec!["PATH=/bin".to_string(), "bare".to_string(), "A=b=c".to_string()];
    let command = pty_command(&argv, &envv, Some("/tmp")).ok().unwrap();
    assert_eq!(command.program, "sh");
    assert_eq!(command.args, vec!["-c".to_string(), "true".to_string()]);
    assert_eq!(
        command.env,
        Some(vec![
            ("PATH".to_string(), "/bin".to_string()),
            ("A".to_string(), "b=c".to_string())
        ])
    );
    assert_eq!(command.working_directory.as_deref(), Some("/tmp"));
    let inherited = pty_command(&argv, &vec![], None).ok().unwrap();
    assert_eq!(inherited.env, None);
    assert_eq!(inherited.working_directory, None);
}

#[test]
fn spawn_errors_say_what_failed() {
    let missing = SpawnError::of_spawn(true, true, "os error 2");
    assert!(missing.is_not_found());
    assert_eq!(missing.message(), "command not found");
    let failed = SpawnError::of_spawn(false, true, "permission denied");
    assert!(!failed.is_not_found());
    assert_eq!(failed.message(), "spawn: permission denied");
    assert_eq!(SpawnError::failed("openpty", "no").message(), "openpty: no");
    let elsewhere = SpawnError::of_spawn(true, false, "os error 2");
    assert!(!elsewhere.is_not_found(), "the directory is missing, not the program");
}

#[test]
fn the_reader_hands_on_what_it_reads_until_it_is_stopped() {
    assert_eq!(read_step(ReadEvent::Begun, false), ReadStep::Wait);
    assert_eq!(read_step(ReadEvent::TimedOut, false), ReadStep::Wait);
    assert_eq!(read_step(ReadEvent::TimedOut, true), ReadStep::Stop { warn: false });
    assert_eq!(read_step(ReadEvent::Readable, false), ReadStep::Read);
    assert_eq!(read_step(ReadEvent::Got(7), true), ReadStep::Publish(7));
    assert_eq!(read_step(ReadEvent::Got(0), false), ReadStep::Stop { warn: false });
    assert_eq!(read_step(ReadEvent::Published, false), ReadStep::Wait);
    assert_eq!(read_step(ReadEvent::Interrupted, false), ReadStep::Wait);
    assert_eq!(read_step(ReadEvent::HungUp, false), ReadStep::Stop { warn: false });
    assert_eq!(read_step(ReadEvent::ConsumerGone, false), ReadStep::Stop { warn: false });
    assert_eq!(read_step(ReadEvent::WaitFailed, false), ReadStep::Stop { warn: true });
    assert_eq!(read_step(ReadEvent::ReadFailed, false), ReadStep::Stop { warn: true });
}

#[test]
fn the_writer_flushes_each_input_and_ends_at_the_first_failure() {
    assert_eq!(write_step(WriteEvent::Begun), WriteStep::Receive);
    assert_eq!(write_step(WriteEvent::Received), WriteStep::Write);
    assert_eq!(write_step(WriteEvent::Written), WriteStep::Flush);
    assert_eq!(write_step(WriteEvent::Flushed), WriteStep::Receive);
    assert_eq!(write_step(WriteEvent::QueueClosed), WriteStep::Stop { warn: false });
    assert_eq!(write_step(WriteEvent::Broken), WriteStep::Stop { warn: false });
    assert_eq!(write_step(WriteEvent::WriteFailed), WriteStep::Stop { warn: true });
    assert_eq!(write_step(WriteEvent::FlushFailed), WriteStep::Stop { warn: true });
}

#[test]
fn a_recycled_pid_is_left_alone() {
    assert!(still_our_group_leader(40, true, Some(40)));
    assert!(!still_our_group_leader(40, true, Some(41)));
    assert!(!still_our_group_leader(40, false, Some(40)));
    assert!(!still_our_group_leader(40, true, None));
    assert_eq!(signal_group(true), AfterTerm::Grace);
    assert_eq!(signal_group(false), AfterTerm::KillLeader);
}

#[test]
fn only_groups_that_were_told_are_waited_for() {
    assert_eq!(pending_groups(&vec![1, 2, 3], &vec![true, false, true]), vec![1, 3]);
    assert!(pending_groups(&vec![], &vec![]).is_empty());
    assert!(pending_groups(&vec![9], &vec![false]).is_empty());
}

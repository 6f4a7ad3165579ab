use rustconn::dialogs::alert::{AlertDialog, Body, MAX_NAMED_FAILURES};
use rustconn::dialogs::backend_missing::{
    backend_missing_response, show_backend_missing_dialog, BackendMissingResponse,
};
use rustconn::dialogs::credential_transfer::{
    confirm_and_run, copying_message, involves_portable, show_report, show_transfer_dialog,
    verify_portable_side, CopyAction, CredentialTransferReport, EntryCount, PortableVerdict,
    RunOutcome, TransferDialog, TransferPlan,
};
use rustconn::dialogs::portable_migration::{
    migration_response, run_migration, show_migration_wizard, MigrationOutcome, MigrationReport,
    MigrationResponse, MigrationResult,
};
use rustconn::dialogs::portable_passphrase_change::{
    live_feedback, report_success, show_passphrase_change_dialog, validated_passphrases,
    weakness_message, ChangeAction, ChangeEnd, ChangeOutcome, Field, Level, PassphraseStrength,
};
use rustconn::dialogs::portable_unlock::{
    show_portable_unlock_dialog, verify_passphrase, PortableUnlockResponse, UnlockAction,
    UnlockDialog, UnlockStatus, VerifyOutcome,
};
use rustconn::i18n::Message;
use rustconn::secrets::SecretBackendType;

fn ids(dialog: &AlertDialog) -> Vec<&'static str> {
    dialog.responses.iter().map(|r| r.id).collect()
}

#[test]
fn the_backend_that_is_missing_is_named() {
    let dialog = show_backend_missing_dialog("Bitwarden");
    assert_eq!(dialog.heading.render(), "Could not read the password from Bitwarden");
    assert!(dialog.body.render().starts_with("This connection keeps its password in Bitwarden, "));
    assert_eq!(ids(&dialog), vec!["manual", "settings"]);
    assert_eq!(dialog.default_response, "manual");
    assert_eq!(dialog.suggested, Some("settings"));
    assert_eq!(backend_missing_response("settings"), BackendMissingResponse::OpenSettings);
    assert_eq!(backend_missing_response("manual"), BackendMissingResponse::EnterManually);
    assert_eq!(backend_missing_response(""), BackendMissingResponse::EnterManually);
}

#[test]
fn a_body_is_its_parts_in_order() {
    let mut body = Body::of(Message::with("Copied: {}", "3"));
    body.push_text("\n• ");
    body.push_text("a");
    body.push_message(Message::plain("!"));
    assert_eq!(body.render(), "Copied: 3\n• a!");
    assert_eq!(Body::new().render(), "");
}

fn entries(labels: &[&str]) -> Vec<(String, String)> {
    labels.iter().map(|l| (l.to_string(), format!("why {l}"))).collect()
}

#[test]
fn a_partial_copy_names_what_is_missing() {
    let finished = |migrated, failures: Vec<(String, String)>, complete| {
        run_migration(&MigrationOutcome::Finished(MigrationResult { migrated, failures, complete }))
    };
    match finished(4, vec![], true) {
        MigrationReport::Toast(m) => {
            assert_eq!(m.render(), "Copied 4 credentials to the portable file");
        }
        _ => panic!("a toast"),
    }
    match finished(1, entries(&["b", "a"]), false) {
        MigrationReport::Error { heading, body } => {
            assert_eq!(heading.render(), "Some Credentials Were Not Copied");
            let text = body.render();
            assert!(text.starts_with("Copied 1 credentials. 2 could not be read"));
            assert!(text.contains(":\n• a\n• b\n\nThese connections"));
        }
        _ => panic!("an error"),
    }
    let many: Vec<String> = (0..14).map(|i| format!("c{i:02}")).collect();
    let many: Vec<&str> = many.iter().map(|s| s.as_str()).collect();
    match finished(0, entries(&many), false) {
        MigrationReport::Error { body, .. } => {
            let text = body.render();
            assert_eq!(text.matches('•').count(), MAX_NAMED_FAILURES);
            assert!(text.contains("…and 2 more. The full list is in the application log."));
        }
        _ => panic!("an error"),
    }
    match run_migration(&MigrationOutcome::Failed("locked".to_string())) {
        MigrationReport::Error { heading, body } => {
            assert_eq!(heading.render(), "Could Not Copy Credentials");
            assert_eq!(body.render(), "The transfer did not start: locked");
        }
        _ => panic!("an error"),
    }
    match run_migration(&MigrationOutcome::Panicked) {
        MigrationReport::Error { body, .. } => {
            assert!(body.render().starts_with("The transfer did not finish."));
        }
        _ => panic!("an error"),
    }
}

#[test]
fn only_an_explicit_answer_copies() {
    let dialog = show_migration_wizard(7);
    assert!(dialog.body.render().starts_with("7 stored passwords are"));
    assert_eq!(dialog.close_response, "cancel");
    assert_eq!(migration_response("transfer"), MigrationResponse::Transfer);
    assert_eq!(migration_response("cancel"), MigrationResponse::Skip);
}

#[test]
fn a_wrong_passphrase_keeps_the_dialog_up() {
    let shown = show_portable_unlock_dialog(Some("my.enc"));
    assert!(shown.body.render().contains("unlock 'my.enc'"));
    assert!(!shown.can_close);
    let unnamed = show_portable_unlock_dialog(None);
    assert!(unnamed.body.render().contains("'credentials-portable.enc'"));

    let mut dialog = UnlockDialog::new();
    assert!(!dialog.unlock_enabled);
    assert!(matches!(dialog.unlock_pressed(""), UnlockAction::Nothing));
    dialog.passphrase_changed("x");
    assert!(dialog.unlock_enabled);
    let tried = match dialog.unlock_pressed("x") {
        UnlockAction::Verify(p) => p,
        _ => panic!("the passphrase is tried"),
    };
    assert_eq!(tried.expose(), "x");
    assert!(!dialog.unlock_enabled && !dialog.cancel_enabled);
    assert!(matches!(
        dialog.verified(tried, &VerifyOutcome::IncorrectPassphrase),
        UnlockAction::Nothing
    ));
    assert!(dialog.open && dialog.unlock_enabled && dialog.cancel_enabled);
    match &dialog.status {
        UnlockStatus::Error(m) => assert_eq!(m.render(), "Incorrect passphrase"),
        _ => panic!("the failure is shown"),
    }
    let again = match dialog.unlock_pressed("y") {
        UnlockAction::Verify(p) => p,
        _ => panic!("the passphrase is tried"),
    };
    match dialog.verified(again, &VerifyOutcome::Opened) {
        UnlockAction::Close(Some(PortableUnlockResponse::Unlocked { passphrase })) => {
            assert_eq!(passphrase.expose(), "y");
        }
        _ => panic!("the dialog answers"),
    }
    assert!(!dialog.open);
    assert!(matches!(dialog.cancelled(), UnlockAction::Close(None)));
    let mut other = UnlockDialog::new();
    assert!(matches!(
        other.cancelled(),
        UnlockAction::Close(Some(PortableUnlockResponse::Cancel))
    ));
}

#[test]
fn failures_to_open_are_told_apart() {
    let text = |outcome| match verify_passphrase(&outcome) {
        Ok(()) => String::new(),
        Err(m) => m.render(),
    };
    assert_eq!(text(VerifyOutcome::Opened), "");
    assert_eq!(text(VerifyOutcome::IncorrectPassphrase), "Incorrect passphrase");
    assert_eq!(text(VerifyOutcome::Failed("gone".to_string())), "Cannot open the file: gone");
    assert_eq!(text(VerifyOutcome::Panicked), "Verification failed");
}

#[test]
fn a_form_is_refused_for_its_first_problem() {
    let problem = |current: &str, new: &str, confirm: &str| {
        match validated_passphrases(current, new, confirm) {
            Ok(_) => panic!("the form is refused"),
            Err((m, f)) => (m.render(), f),
        }
    };
    assert_eq!(
        problem("", "", ""),
        ("Enter the passphrase the file is protected with now".to_string(), Field::Current)
    );
    assert_eq!(problem("a", "", "x"), ("Enter a new passphrase".to_string(), Field::New));
    assert_eq!(
        problem("a", "b", "c"),
        ("The two new passphrases do not match".to_string(), Field::Confirm)
    );
    assert_eq!(
        problem("a", "a", "a"),
        ("The new passphrase is the same as the current one".to_string(), Field::New)
    );
    let (current, new) = validated_passphrases("a", "b", "b").ok().unwrap();
    assert_eq!((current.expose(), new.expose()), ("a", "b"));
}

#[test]
fn a_new_passphrase_is_judged_as_it_is_typed() {
    let status = live_feedback("ab", "a", PassphraseStrength::TooShort).unwrap();
    assert_eq!(status.message.render(), "The two new passphrases do not match");
    assert_eq!(status.level.css_class(), "error");
    let status = live_feedback("ab", "", PassphraseStrength::TooShort).unwrap();
    assert!(status.message.render().starts_with("A passphrase this short"));
    assert!(status.level == Level::Warning);
    assert!(weakness_message(PassphraseStrength::Weak).render().starts_with("This passphrase"));
    assert!(live_feedback("ab", "ab", PassphraseStrength::Fine).is_none());
}

#[test]
fn a_change_is_carried_out_and_reported() {
    let mut dialog = show_passphrase_change_dialog(true);
    dialog.typed("b", "c", PassphraseStrength::Fine);
    assert!(dialog.status.is_some());
    assert!(matches!(dialog.change_pressed("a", "b", "c"), ChangeAction::Focus(Field::Confirm)));
    assert!(dialog.change_enabled);
    match dialog.change_pressed("a", "b", "b") {
        ChangeAction::Rekey(from, to) => assert_eq!((from.expose(), to.expose()), ("a", "b")),
        _ => panic!("the file is re-keyed"),
    }
    assert!(!dialog.change_enabled && !dialog.cancel_enabled);
    assert!(matches!(
        dialog.change_ended(&ChangeOutcome::Failed("full".to_string())),
        ChangeEnd::Stay
    ));
    assert_eq!(
        dialog.status.as_ref().unwrap().message.render(),
        "Could not change the passphrase: full"
    );
    assert!(matches!(dialog.change_ended(&ChangeOutcome::Panicked), ChangeEnd::Stay));
    assert_eq!(
        dialog.status.as_ref().unwrap().message.render(),
        "Could not change the passphrase. The file was not modified."
    );
    assert!(matches!(dialog.change_ended(&ChangeOutcome::IncorrectPassphrase), ChangeEnd::Stay));
    match dialog.change_ended(&ChangeOutcome::Changed(3)) {
        ChangeEnd::Install { reencrypted, report } => {
            assert_eq!(reencrypted, 3);
            let text = report.body.render();
            assert!(text.starts_with("Passwords encrypted again under the new passphrase: 3\n\n"));
        }
        _ => panic!("the passphrase is installed"),
    }
    assert!(dialog.status.is_none());
    assert_eq!(
        report_success(0, false).body.render(),
        "Passwords encrypted again under the new passphrase: 0"
    );
}

fn plan(items: usize, collisions: &[&[&str]]) -> TransferPlan {
    TransferPlan {
        items,
        collisions: collisions
            .iter()
            .map(|c| c.iter().map(|l| l.to_string()).collect())
            .collect(),
    }
}

fn status(dialog: &TransferDialog) -> (String, bool) {
    let status = dialog.status.as_ref().unwrap();
    (status.body.render(), status.is_error)
}

#[test]
fn a_copy_needs_two_stores_and_no_collision() {
    let portable = SecretBackendType::PortableEncryptedFile;
    let keyring = SecretBackendType::LibSecret;
    let mut dialog = show_transfer_dialog(keyring, false, &plan(2, &[]));
    assert!(!dialog.copy_enabled);
    assert_eq!(status(&dialog), ("Choose two different password stores".to_string(), false));
    assert!(dialog.count == EntryCount::Unknown);

    dialog.refresh(keyring, portable, &plan(2, &[&["a", "b", "c"]]));
    assert!(!dialog.copy_enabled && dialog.passphrase_visible);
    assert!(status(&dialog).0.ends_with("groups apart.\n• a / b / c"));
    assert!(status(&dialog).1);
    assert!(dialog.count == EntryCount::Entries(2));
    let clash = plan(2, &[&["a", "b"]]);
    assert!(matches!(dialog.copy_pressed("pw", &clash), CopyAction::Refuse));

    dialog.refresh(keyring, portable, &plan(0, &[]));
    assert!(!dialog.copy_enabled);
    assert!(status(&dialog).0.starts_with("No connection, group or variable"));

    dialog.refresh(keyring, portable, &plan(2, &[]));
    assert!(dialog.copy_enabled && dialog.status.is_none());
    assert!(matches!(dialog.copy_pressed("", &plan(2, &[])), CopyAction::AskPassphrase));
    assert!(status(&dialog).1);
    match dialog.copy_pressed("pw", &plan(2, &[])) {
        CopyAction::Confirm { passphrase } => assert_eq!(passphrase.unwrap().expose(), "pw"),
        _ => panic!("the copy is confirmed"),
    }
    assert!(involves_portable(portable, keyring));
    assert!(!involves_portable(keyring, SecretBackendType::Pass));
}

#[test]
fn a_copy_can_be_stopped() {
    let keyring = SecretBackendType::LibSecret;
    let pass = SecretBackendType::Pass;
    let mut dialog = show_transfer_dialog(keyring, false, &plan(2, &[]));
    dialog.refresh(keyring, pass, &plan(2, &[]));
    assert!(!dialog.confirmed("cancel", 2));
    assert!(dialog.copy_enabled);
    assert!(dialog.confirmed("copy", 2));
    assert!(!dialog.copy_enabled && dialog.stop_visible && !dialog.cancel_visible);
    assert_eq!(status(&dialog).0, "Copying… 0 of 2");
    dialog.progressed(1, 2);
    assert_eq!(status(&dialog).0, "Copying… 1 of 2");
    dialog.stop_pressed();
    dialog.progressed(2, 2);
    assert_eq!(status(&dialog).0, "Stopping after the entry in progress…");
    assert!(dialog.run_ended(RunOutcome::Panicked, 2).is_none());
    assert!(status(&dialog).0.starts_with("The copy did not finish."));
    assert!(dialog.copy_enabled && dialog.cancel_visible && !dialog.stop_visible);
    let failed = RunOutcome::Failed(Body::of(Message::plain("no")));
    assert!(dialog.run_ended(failed, 2).is_none());
    assert_eq!(status(&dialog), ("no".to_string(), true));
    let shown = dialog.run_ended(RunOutcome::Finished(report(2, 0, &[], &[])), 2).unwrap();
    assert_eq!(shown.heading.render(), "Passwords Copied");
    assert!(dialog.status.is_none());
    assert_eq!(copying_message(3, 9).render(), "Copying… 3 of 9");
}

fn report(
    transferred: usize,
    missing: usize,
    failures: &[&str],
    incomplete: &[&str],
) -> CredentialTransferReport {
    CredentialTransferReport {
        transferred,
        missing,
        failures: entries(failures),
        incomplete: entries(incomplete),
        cancelled: false,
        complete: failures.is_empty() && incomplete.is_empty(),
    }
}

#[test]
fn a_report_counts_and_names() {
    assert_eq!(
        show_report(&report(2, 1, &[], &[]), 3).body.render(),
        "Copied: 2\nHad no stored password yet: 1"
    );
    let partial = show_report(&report(1, 0, &["z", "a"], &["q"]), 4);
    assert_eq!(partial.heading.render(), "Some Passwords Were Not Copied");
    assert_eq!(
        partial.body.render(),
        "Copied: 1\nCould not be copied: 2\n\n\n• a\n• z\n\nThese arrived, but the destination has nowhere to keep part of what they held:\n• q — why q"
    );
    let stopped = CredentialTransferReport { cancelled: true, ..report(1, 1, &["z"], &[]) };
    let shown = show_report(&stopped, 9);
    assert_eq!(shown.heading.render(), "Copy Stopped");
    assert!(shown.body.render().contains("so 6 entries were not looked at"));
}

#[test]
fn a_confirmation_names_the_destination_file() {
    let portable = SecretBackendType::PortableEncryptedFile;
    let text = |destination| confirm_and_run(2, "A", "B", destination, "/p", "/e").body.render();
    let head = "2 entries will be read from A and written to B. Nothing is removed from A.";
    assert_eq!(text(SecretBackendType::Pass), head);
    assert_eq!(text(portable), format!("{head}\n\nDestination file: /p"));
    assert_eq!(
        text(SecretBackendType::EncryptedFile),
        format!("{head}\n\nDestination file: /e")
    );
}

#[test]
fn the_portable_side_is_tried_first() {
    let portable = SecretBackendType::PortableEncryptedFile;
    let pass = SecretBackendType::Pass;
    let check = |source, destination, known, exists, verdict| {
        match verify_portable_side(source, destination, known, "/p", exists, &verdict) {
            Some(m) => m.render(),
            None => String::new(),
        }
    };
    assert_eq!(check(pass, pass, false, false, PortableVerdict::IncorrectPassphrase), "");
    assert_eq!(
        check(portable, pass, false, true, PortableVerdict::Opens),
        "Enter the passphrase that protects the portable file"
    );
    assert!(check(portable, pass, true, false, PortableVerdict::Opens)
        .starts_with("There is no portable file at /p."));
    assert_eq!(check(pass, portable, true, false, PortableVerdict::Opens), "");
    assert!(check(pass, portable, true, true, PortableVerdict::IncorrectPassphrase)
        .starts_with("That passphrase does not open"));
    assert_eq!(
        check(pass, portable, true, true, PortableVerdict::Failed("io".to_string())),
        "Cannot open the portable file: io"
    );
}

//! Copying stored passwords from one backend to another.
//!
//! The originals are left where they are. Two entries that would end up in the same place are
//! refused, since one would overwrite the other.

use crate::dialogs::alert::{and_more, bullets, law_every_entry_has_its_bullet, law_first_twelve_are_named, law_rest_is_counted, lemma_bullets_len, lit, named_in_order, push_and_more, push_named, question, report, response_views, say, says, shows, AlertDialog, AlertView, Body, PartView};
use crate::i18n::{plain, with_args, Message, MessageView};
use crate::scrub::{opt_secret_view, SecretText};
use crate::secrets::SecretBackendType;
use crate::sorting::entry_views;
use crate::text::{self, decimal_of, views};
use vstd::prelude::*;

verus! {

/// What would be copied: how many entries, and which of them share a place in the destination.
pub struct TransferPlan {
    pub items: usize,
    pub collisions: Vec<Vec<String>>,
}

/// The number shown next to "Entries to copy".
#[derive(Clone, Copy, Debug, PartialEq, Eq, Structural)]
pub enum EntryCount {
    /// A dash: there is nothing to count.
    Unknown,
    Entries(usize),
}

/// The inline status of the dialog.
pub struct TransferStatus {
    pub body: Body,
    pub is_error: bool,
}

/// The view of an optional status.
pub open spec fn transfer_status_view(s: Option<TransferStatus>) -> Option<(Seq<PartView>, bool)> {
    match s {
        Some(s) => Some((s.body@, s.is_error)),
        None => None,
    }
}

/// Whether the portable file is one of the two sides.
pub open spec fn portable_involved(source: SecretBackendType, destination: SecretBackendType) -> bool {
    source == SecretBackendType::PortableEncryptedFile || destination
        == SecretBackendType::PortableEncryptedFile
}

/// Whether the portable file is one of the two sides.
pub fn involves_portable(source: SecretBackendType, destination: SecretBackendType) -> (r: bool)
    ensures
        r == portable_involved(source, destination),
{
    source == SecretBackendType::PortableEncryptedFile || destination
        == SecretBackendType::PortableEncryptedFile
}

/// The labels of one collision, with slashes between them.
pub open spec fn slashed(labels: Seq<Seq<char>>) -> Seq<char>
    decreases labels.len(),
{
    if labels.len() == 0 {
        Seq::empty()
    } else if labels.len() == 1 {
        labels[0]
    } else {
        slashed(labels.drop_last()) + " / "@ + labels.last()
    }
}

/// A bullet for each collision.
pub open spec fn collision_bullets(collisions: Seq<Vec<String>>) -> Seq<PartView>
    decreases collisions.len(),
{
    if collisions.len() == 0 {
        Seq::empty()
    } else {
        collision_bullets(collisions.drop_last()) + seq![
            lit("\n• "@),
            lit(slashed(views(collisions.last()@))),
        ]
    }
}

/// The status that names the collisions.
pub open spec fn collision_body(collisions: Seq<Vec<String>>) -> Seq<PartView> {
    seq![
        say(
            plain(
                "These entries would end up in the same place in the destination, so one would overwrite the other. Rename one of them, or choose a destination that keeps groups apart."@,
            ),
        ),
    ] + collision_bullets(collisions)
}

fn slash(labels: &Vec<String>) -> (r: String)
    ensures
        r@ == slashed(views(labels@)),
{
    let mut r = String::new();
    let ghost all = views(labels@);
    let mut i: usize = 0;
    while i < labels.len()
        invariant
            i <= labels@.len(),
            all == views(labels@),
            r@ == slashed(all.take(i as int)),
        decreases labels@.len() - i,
    {
        if i > 0 {
            r.append(" / ");
        }
        r.append(labels[i].as_str());
        assert(all.take(i + 1).drop_last() =~= all.take(i as int));
        assert(all.take(i + 1).last() == all[i as int]);
        assert(i == 0 ==> r@ =~= all.take(1)[0]);
        i += 1;
    }
    assert(all.take(i as int) =~= all);
    r
}

fn collision_status(collisions: &Vec<Vec<String>>) -> (r: Body)
    ensures
        r@ == collision_body(collisions@),
{
    let mut body = Body::of(
        Message::plain(
            "These entries would end up in the same place in the destination, so one would overwrite the other. Rename one of them, or choose a destination that keeps groups apart.",
        ),
    );
    let ghost before = body@;
    let mut i: usize = 0;
    assert(before + collision_bullets(collisions@.take(0)) =~= before);
    while i < collisions.len()
        invariant
            i <= collisions@.len(),
            body@ == before + collision_bullets(collisions@.take(i as int)),
        decreases collisions@.len() - i,
    {
        body.push_text("\n• ");
        body.push_text(&slash(&collisions[i]));
        assert(collisions@.take(i + 1).drop_last() =~= collisions@.take(i as int));
        assert(collisions@.take(i + 1).last() == collisions@[i as int]);
        assert(body@ =~= before + collision_bullets(collisions@.take(i + 1)));
        i += 1;
    }
    assert(collisions@.take(i as int) =~= collisions@);
    body
}

/// The dialog while it is used.
pub struct TransferDialog {
    pub source: SecretBackendType,
    pub destination: SecretBackendType,
    /// Whether the settings already hold the portable file's passphrase.
    pub passphrase_known: bool,
    pub passphrase_visible: bool,
    pub count: EntryCount,
    pub copy_enabled: bool,
    pub selectors_enabled: bool,
    pub cancel_visible: bool,
    pub stop_visible: bool,
    pub stop_enabled: bool,
    pub stop_requested: bool,
    pub status: Option<TransferStatus>,
}

/// What a look at the plan makes of the dialog.
pub struct RefreshView {
    pub passphrase_visible: bool,
    pub count: EntryCount,
    pub copy_enabled: bool,
    pub status: Option<(Seq<PartView>, bool)>,
}

/// The dialog for a choice of backends and the plan between them.
pub open spec fn refreshed(
    source: SecretBackendType,
    destination: SecretBackendType,
    passphrase_known: bool,
    plan: TransferPlan,
) -> RefreshView {
    let passphrase_visible = portable_involved(source, destination) && !passphrase_known;
    if source == destination {
        RefreshView {
            passphrase_visible,
            count: EntryCount::Unknown,
            copy_enabled: false,
            status: Some((seq![say(plain("Choose two different password stores"@))], false)),
        }
    } else if plan.collisions@.len() > 0 {
        RefreshView {
            passphrase_visible,
            count: EntryCount::Entries(plan.items),
            copy_enabled: false,
            status: Some((collision_body(plan.collisions@), true)),
        }
    } else if plan.items == 0 {
        RefreshView {
            passphrase_visible,
            count: EntryCount::Entries(0),
            copy_enabled: false,
            status: Some(
                (
                    seq![
                        say(
                            plain(
                                "No connection, group or variable is set to use the password store, so there is nothing to copy."@,
                            ),
                        ),
                    ],
                    false,
                ),
            ),
        }
    } else {
        RefreshView {
            passphrase_visible,
            count: EntryCount::Entries(plan.items),
            copy_enabled: true,
            status: None,
        }
    }
}

/// What the program does after Copy was pressed.
pub enum CopyAction {
    /// The passphrase is missing; its entry gets the focus.
    AskPassphrase,
    /// Entries collide, which the dialog has said already.
    Refuse,
    /// Ask for confirmation; a passphrase typed here unlocks the file for this run only.
    Confirm { passphrase: Option<SecretText> },
}

/// How a run ended.
pub enum RunOutcome {
    Finished(CredentialTransferReport),
    /// It could not be carried out, with the reason.
    Failed(Body),
    /// The worker panicked.
    Panicked,
}

/// What a run did.
pub struct CredentialTransferReport {
    pub transferred: usize,
    /// Entries that had no password to copy.
    pub missing: usize,
    /// Label and reason of each entry that could not be copied.
    pub failures: Vec<(String, String)>,
    /// Label and lost fields of each entry that arrived in part.
    pub incomplete: Vec<(String, String)>,
    pub cancelled: bool,
    /// Whether every entry was copied cleanly.
    pub complete: bool,
}

/// The progress line: entries finished out of entries planned.
pub fn copying_message(finished: usize, planned: usize) -> (r: Message)
    ensures
        r@ == copying(finished as nat, planned as nat),
{
    Message::with2(
        "Copying… {} of {}",
        text::decimal(finished as u64).as_str(),
        text::decimal(planned as u64).as_str(),
    )
}

/// What the progress line says.
pub open spec fn copying(finished: nat, planned: nat) -> MessageView {
    with_args("Copying… {} of {}"@, seq![decimal_of(finished), decimal_of(planned)])
}

impl TransferDialog {
    /// The part of the dialog that depends on the choice of backends.
    pub open spec fn refresh_view(self) -> RefreshView {
        RefreshView {
            passphrase_visible: self.passphrase_visible,
            count: self.count,
            copy_enabled: self.copy_enabled,
            status: transfer_status_view(self.status),
        }
    }

    /// Whether no run is on: the selectors work and Cancel stands where Stop would.
    pub open spec fn is_idle(self) -> bool {
        self.selectors_enabled && self.cancel_visible && !self.stop_visible
    }

    /// Whether a run is on: nothing but Stop can be pressed.
    pub open spec fn is_running(self) -> bool {
        !self.selectors_enabled && !self.cancel_visible && self.stop_visible && !self.copy_enabled
    }

    /// Looks at the plan for the two backends that are chosen.
    pub fn refresh(
        &mut self,
        source: SecretBackendType,
        destination: SecretBackendType,
        plan: &TransferPlan,
    )
        ensures
            final(self).source == source,
            final(self).destination == destination,
            final(self).refresh_view() == refreshed(
                source,
                destination,
                old(self).passphrase_known,
                *plan,
            ),
            final(self).passphrase_known == old(self).passphrase_known,
            final(self).selectors_enabled == old(self).selectors_enabled,
            final(self).cancel_visible == old(self).cancel_visible,
            final(self).stop_visible == old(self).stop_visible,
            final(self).stop_enabled == old(self).stop_enabled,
            final(self).stop_requested == old(self).stop_requested,
    {
        self.source = source;
        self.destination = destination;
        self.passphrase_visible = involves_portable(source, destination) && !self.passphrase_known;
        if source == destination {
            self.count = EntryCount::Unknown;
            self.copy_enabled = false;
            self.status = Some(
                TransferStatus {
                    body: Body::of(Message::plain("Choose two different password stores")),
                    is_error: false,
                },
            );
            return;
        }
        self.count = EntryCount::Entries(plan.items);
        if plan.collisions.len() > 0 {
            self.copy_enabled = false;
            self.status = Some(
                TransferStatus { body: collision_status(&plan.collisions), is_error: true },
            );
            return;
        }
        self.copy_enabled = plan.items > 0;
        if plan.items == 0 {
            self.status = Some(
                TransferStatus {
                    body: Body::of(
                        Message::plain(
                            "No connection, group or variable is set to use the password store, so there is nothing to copy.",
                        ),
                    ),
                    is_error: false,
                },
            );
        } else {
            self.status = None;
        }
    }

    /// Copy was pressed. `plan` is what the two backends give now.
    pub fn copy_pressed(&mut self, typed: &str, plan: &TransferPlan) -> (r: CopyAction)
        ensures
            old(self).passphrase_visible && typed@.len() == 0 ==> {
                &&& r is AskPassphrase
                &&& transfer_status_view(final(self).status) == Some(
                    (
                        seq![
                            say(plain("Enter the passphrase that protects the portable file"@)),
                        ],
                        true,
                    ),
                )
                &&& *final(self) == (TransferDialog { status: final(self).status, ..*old(self) })
            },
            !(old(self).passphrase_visible && typed@.len() == 0) ==> {
                &&& *final(self) == *old(self)
                &&& plan.collisions@.len() > 0 <==> r is Refuse
                &&& plan.collisions@.len() == 0 ==> {
                    &&& r matches CopyAction::Confirm { passphrase } && opt_secret_view(passphrase) == (
                    if old(self).passphrase_visible {
                        Some(typed@)
                    } else {
                        None
                    })
                }
            },
    {
        let mut passphrase: Option<SecretText> = None;
        if self.passphrase_visible {
            if typed.is_empty() {
                self.status = Some(
                    TransferStatus {
                        body: Body::of(
                            Message::plain("Enter the passphrase that protects the portable file"),
                        ),
                        is_error: true,
                    },
                );
                return CopyAction::AskPassphrase;
            }
            passphrase = Some(SecretText::new(typed));
        }
        if plan.collisions.len() > 0 {
            return CopyAction::Refuse;
        }
        CopyAction::Confirm { passphrase }
    }

    /// The confirmation was answered: only Copy starts the run.
    pub fn confirmed(&mut self, response: &str, planned: usize) -> (r: bool)
        ensures
            r == (response@ == "copy"@),
            !r ==> *final(self) == *old(self),
            r ==> {
                &&& final(self).is_running()
                &&& final(self).stop_enabled
                &&& !final(self).stop_requested
                &&& transfer_status_view(final(self).status) == Some(
                    (seq![say(copying(0, planned as nat))], false),
                )
                &&& final(self).source == old(self).source
                &&& final(self).destination == old(self).destination
                &&& final(self).passphrase_known == old(self).passphrase_known
                &&& final(self).passphrase_visible == old(self).passphrase_visible
                &&& final(self).count == old(self).count
            },
    {
        if !text::same(response, "copy") {
            return false;
        }
        self.status = Some(
            TransferStatus { body: Body::of(copying_message(0, planned)), is_error: false },
        );
        self.copy_enabled = false;
        self.selectors_enabled = false;
        self.cancel_visible = false;
        self.stop_visible = true;
        self.stop_enabled = true;
        self.stop_requested = false;
        true
    }

    /// Stop was pressed: the entry in flight still finishes.
    pub fn stop_pressed(&mut self)
        ensures
            *final(self) == (TransferDialog {
                stop_requested: true,
                stop_enabled: false,
                status: final(self).status,
                ..*old(self)
            }),
            transfer_status_view(final(self).status) == Some(
                (seq![say(plain("Stopping after the entry in progress…"@))], false),
            ),
    {
        self.stop_requested = true;
        self.stop_enabled = false;
        self.status = Some(
            TransferStatus {
                body: Body::of(Message::plain("Stopping after the entry in progress…")),
                is_error: false,
            },
        );
    }

    /// The worker finished an entry. Once a stop was requested, its message stays.
    pub fn progressed(&mut self, finished: usize, planned: usize)
        ensures
            *final(self) == (TransferDialog { status: final(self).status, ..*old(self) }),
            old(self).stop_requested ==> final(self).status == old(self).status,
            !old(self).stop_requested ==> transfer_status_view(final(self).status) == Some(
                (seq![say(copying(finished as nat, planned as nat))], false),
            ),
    {
        if !self.stop_requested {
            self.status = Some(
                TransferStatus {
                    body: Body::of(copying_message(finished, planned)),
                    is_error: false,
                },
            );
        }
    }

    /// The run ended: the controls come back, and the outcome is reported.
    pub fn run_ended(&mut self, outcome: RunOutcome, planned: usize) -> (r: Option<AlertDialog>)
        requires
            outcome matches RunOutcome::Finished(report) ==> report.transferred + report.missing
                + report.failures@.len() <= usize::MAX,
        ensures
            final(self).is_idle(),
            final(self).copy_enabled,
            final(self).source == old(self).source,
            final(self).destination == old(self).destination,
            final(self).passphrase_known == old(self).passphrase_known,
            final(self).passphrase_visible == old(self).passphrase_visible,
            final(self).count == old(self).count,
            final(self).stop_enabled == old(self).stop_enabled,
            final(self).stop_requested == old(self).stop_requested,
            match outcome {
                RunOutcome::Finished(report) => {
                    &&& final(self).status is None
                    &&& r matches Some(d) && d@ == transfer_report(report, planned)
                },
                RunOutcome::Failed(body) => {
                    &&& transfer_status_view(final(self).status) == Some((body@, true))
                    &&& r is None
                },
                RunOutcome::Panicked => {
                    &&& transfer_status_view(final(self).status) == Some(
                        (
                            seq![
                                say(
                                    plain(
                                        "The copy did not finish. Some entries may already have been copied; running it again completes it."@,
                                    ),
                                ),
                            ],
                            true,
                        ),
                    )
                    &&& r is None
                },
            },
    {
        self.copy_enabled = true;
        self.selectors_enabled = true;
        self.stop_visible = false;
        self.cancel_visible = true;
        match outcome {
            RunOutcome::Finished(report) => {
                self.status = None;
                Some(show_report(&report, planned))
            },
            RunOutcome::Failed(body) => {
                self.status = Some(TransferStatus { body, is_error: true });
                None
            },
            RunOutcome::Panicked => {
                self.status = Some(
                    TransferStatus {
                        body: Body::of(
                            Message::plain(
                                "The copy did not finish. Some entries may already have been copied; running it again completes it.",
                            ),
                        ),
                        is_error: true,
                    },
                );
                None
            },
        }
    }
}

/// Opens the dialog. Both sides start at the preferred backend.
pub fn show_transfer_dialog(
    preferred: SecretBackendType,
    passphrase_known: bool,
    plan: &TransferPlan,
) -> (r: TransferDialog)
    ensures
        r.source == preferred,
        r.destination == preferred,
        r.passphrase_known == passphrase_known,
        r.refresh_view() == refreshed(preferred, preferred, passphrase_known, *plan),
        r.is_idle(),
        !r.stop_requested,
{
    let mut dialog = TransferDialog {
        source: preferred,
        destination: preferred,
        passphrase_known,
        passphrase_visible: false,
        count: EntryCount::Unknown,
        copy_enabled: true,
        selectors_enabled: true,
        cancel_visible: true,
        stop_visible: false,
        stop_enabled: true,
        stop_requested: false,
        status: None,
    };
    dialog.refresh(preferred, preferred, plan);
    dialog
}

/// What the confirmation says. A destination that is a file is named.
pub open spec fn confirm_body(
    count: nat,
    source_name: Seq<char>,
    destination_name: Seq<char>,
    destination: SecretBackendType,
    portable_path: Seq<char>,
    encrypted_path: Seq<char>,
) -> Seq<PartView> {
    let file = |path: Seq<char>|
        seq![lit("\n\n"@), say(with_args("Destination file: {}"@, seq![path]))];
    seq![
        say(
            with_args(
                "{} entries will be read from {} and written to {}. Nothing is removed from {}."@,
                seq![decimal_of(count), source_name, destination_name, source_name],
            ),
        ),
    ] + (if destination == SecretBackendType::PortableEncryptedFile {
        file(portable_path)
    } else if destination == SecretBackendType::EncryptedFile {
        file(encrypted_path)
    } else {
        Seq::empty()
    })
}

/// Describes the confirmation. Return and closing do not copy.
pub fn confirm_and_run(
    count: usize,
    source_name: &str,
    destination_name: &str,
    destination: SecretBackendType,
    portable_path: &str,
    encrypted_path: &str,
) -> (r: AlertDialog)
    ensures
        r@ == question(
            plain("Copy stored passwords?"@),
            confirm_body(
                count as nat,
                source_name@,
                destination_name@,
                destination,
                portable_path@,
                encrypted_path@,
            ),
            ("cancel"@, "Cancel"@),
            ("copy"@, "Copy"@),
            true,
        ),
{
    let mut args: Vec<String> = Vec::new();
    args.push(text::decimal(count as u64));
    args.push(source_name.to_owned());
    args.push(destination_name.to_owned());
    args.push(source_name.to_owned());
    let message = Message {
        msgid: "{} entries will be read from {} and written to {}. Nothing is removed from {}.",
        args,
    };
    assert(message@.args =~= seq![
        decimal_of(count as nat),
        source_name@,
        destination_name@,
        source_name@,
    ]);
    let mut body = Body::of(message);
    if destination == SecretBackendType::PortableEncryptedFile {
        body.push_text("\n\n");
        body.push_message(Message::with("Destination file: {}", portable_path));
    } else if destination == SecretBackendType::EncryptedFile {
        body.push_text("\n\n");
        body.push_message(Message::with("Destination file: {}", encrypted_path));
    }
    assert(body@ =~= confirm_body(
        count as nat,
        source_name@,
        destination_name@,
        destination,
        portable_path@,
        encrypted_path@,
    ));
    AlertDialog::question(
        Message::plain("Copy stored passwords?"),
        body,
        ("cancel", "Cancel"),
        ("copy", "Copy"),
        true,
    )
}

/// How the trial of the portable file's passphrase came out.
pub enum PortableVerdict {
    Opens,
    IncorrectPassphrase,
    Failed(String),
}

/// Why a run with the portable file cannot start: no passphrase, no file to read from, or a
/// passphrase that does not open it. A missing destination is created by the first write.
pub open spec fn portable_problem(
    source: SecretBackendType,
    destination: SecretBackendType,
    has_passphrase: bool,
    path: Seq<char>,
    path_exists: bool,
    verdict: PortableVerdict,
) -> Option<MessageView> {
    if !portable_involved(source, destination) {
        None
    } else if !has_passphrase {
        Some(plain("Enter the passphrase that protects the portable file"@))
    } else if source == SecretBackendType::PortableEncryptedFile && !path_exists {
        Some(
            with_args(
                "There is no portable file at {}. Check the path in Settings, or wait for your cloud client to deliver it."@,
                seq![path],
            ),
        )
    } else {
        match verdict {
            PortableVerdict::Opens => None,
            PortableVerdict::IncorrectPassphrase => Some(
                plain(
                    "That passphrase does not open the portable file. Enter the passphrase the file was created with."@,
                ),
            ),
            PortableVerdict::Failed(e) => Some(
                with_args("Cannot open the portable file: {}"@, seq![e@]),
            ),
        }
    }
}

/// Checks the portable side of a run before its first entry.
pub fn verify_portable_side(
    source: SecretBackendType,
    destination: SecretBackendType,
    has_passphrase: bool,
    path: &str,
    path_exists: bool,
    verdict: &PortableVerdict,
) -> (r: Option<Message>)
    ensures
        match r {
            Some(m) => portable_problem(
                source,
                destination,
                has_passphrase,
                path@,
                path_exists,
                *verdict,
            ) == Some(m@),
            None => portable_problem(
                source,
                destination,
                has_passphrase,
                path@,
                path_exists,
                *verdict,
            ) is None,
        },
{
    if !involves_portable(source, destination) {
        return None;
    }
    if !has_passphrase {
        return Some(Message::plain("Enter the passphrase that protects the portable file"));
    }
    if source == SecretBackendType::PortableEncryptedFile && !path_exists {
        return Some(
            Message::with(
                "There is no portable file at {}. Check the path in Settings, or wait for your cloud client to deliver it.",
                path,
            ),
        );
    }
    match verdict {
        PortableVerdict::Opens => None,
        PortableVerdict::IncorrectPassphrase => Some(
            Message::plain(
                "That passphrase does not open the portable file. Enter the passphrase the file was created with.",
            ),
        ),
        PortableVerdict::Failed(e) => Some(Message::with("Cannot open the portable file: {}", e)),
    }
}

/// The first lines of a report: what was copied, and what had nothing to copy.
pub open spec fn counts_body(report: CredentialTransferReport) -> Seq<PartView> {
    seq![say(with_args("Copied: {}"@, seq![decimal_of(report.transferred as nat)]))] + (
    if report.missing > 0 {
        seq![
            lit("\n"@),
            say(
                with_args(
                    "Had no stored password yet: {}"@,
                    seq![decimal_of(report.missing as nat)],
                ),
            ),
        ]
    } else {
        Seq::empty()
    })
}

/// The entries that a stopped run did not look at; a failure counts as looked at.
pub open spec fn untouched(report: CredentialTransferReport, planned: usize) -> nat {
    let seen = report.transferred + report.missing + report.failures@.len();
    if planned > seen {
        (planned - seen) as nat
    } else {
        0
    }
}

/// What a report says of entries that could not be copied.
pub open spec fn failure_body(failures: Seq<(String, String)>) -> Seq<PartView> {
    (if failures.len() > 0 {
        seq![
            lit("\n"@),
            say(with_args("Could not be copied: {}"@, seq![decimal_of(failures.len())])),
        ]
    } else {
        Seq::empty()
    }) + seq![lit("\n\n"@)] + bullets(named_in_order(entry_views(failures), false), false) + and_more(
        failures.len(),
    )
}

/// What a report says of entries that arrived in part.
pub open spec fn incomplete_body(incomplete: Seq<(String, String)>) -> Seq<PartView> {
    if incomplete.len() > 0 {
        seq![
            lit("\n\n"@),
            say(
                plain(
                    "These arrived, but the destination has nowhere to keep part of what they held:"@,
                ),
            ),
        ] + bullets(named_in_order(entry_views(incomplete), true), true)
    } else {
        Seq::empty()
    }
}

/// The report of a run: stopped, complete, or with entries that need attention.
pub open spec fn transfer_report(report: CredentialTransferReport, planned: usize) -> AlertView {
    if report.cancelled {
        crate::dialogs::alert::report(
            plain("Copy Stopped"@),
            counts_body(report) + seq![
                lit("\n\n"@),
                say(
                    with_args(
                        "You stopped the copy, so {} entries were not looked at. Everything already copied stays where it is, and running the copy again finishes the rest."@,
                        seq![decimal_of(untouched(report, planned))],
                    ),
                ),
            ],
        )
    } else if report.complete {
        crate::dialogs::alert::report(plain("Passwords Copied"@), counts_body(report))
    } else {
        crate::dialogs::alert::report(
            plain("Some Passwords Were Not Copied"@),
            counts_body(report) + failure_body(report.failures@) + incomplete_body(
                report.incomplete@,
            ),
        )
    }
}

fn counts(report: &CredentialTransferReport) -> (r: Body)
    ensures
        r@ == counts_body(*report),
{
    let mut body = Body::of(
        Message::with("Copied: {}", text::decimal(report.transferred as u64).as_str()),
    );
    if report.missing > 0 {
        body.push_text("\n");
        body.push_message(
            Message::with(
                "Had no stored password yet: {}",
                text::decimal(report.missing as u64).as_str(),
            ),
        );
    }
    assert(body@ =~= counts_body(*report));
    body
}

fn push_failures(body: &mut Body, failures: &Vec<(String, String)>)
    ensures
        final(body)@ == old(body)@ + failure_body(failures@),
{
    let ghost before = body@;
    if failures.len() > 0 {
        body.push_text("\n");
        body.push_message(
            Message::with(
                "Could not be copied: {}",
                text::decimal(failures.len() as u64).as_str(),
            ),
        );
    }
    body.push_text("\n\n");
    push_named(body, failures, false);
    push_and_more(body, failures.len());
    assert(body@ =~= before + failure_body(failures@));
}

fn push_incomplete(body: &mut Body, incomplete: &Vec<(String, String)>)
    ensures
        final(body)@ == old(body)@ + incomplete_body(incomplete@),
{
    let ghost before = body@;
    if incomplete.len() > 0 {
        body.push_text("\n\n");
        body.push_message(
            Message::plain(
                "These arrived, but the destination has nowhere to keep part of what they held:",
            ),
        );
        push_named(body, incomplete, true);
    }
    assert(body@ =~= before + incomplete_body(incomplete@));
}

/// Describes the report of a run.
pub fn show_report(report: &CredentialTransferReport, planned: usize) -> (r: AlertDialog)
    requires
        report.transferred + report.missing + report.failures@.len() <= usize::MAX,
    ensures
        r@ == transfer_report(*report, planned),
{
    let mut body = counts(report);
    if report.cancelled {
        let seen: usize = report.transferred + report.missing + report.failures.len();
        let left: usize = if planned > seen {
            planned - seen
        } else {
            0
        };
        let ghost before = body@;
        body.push_text("\n\n");
        body.push_message(
            Message::with(
                "You stopped the copy, so {} entries were not looked at. Everything already copied stays where it is, and running the copy again finishes the rest.",
                text::decimal(left as u64).as_str(),
            ),
        );
        assert(body@ =~= transfer_report(*report, planned).body);
        return AlertDialog::report(Message::plain("Copy Stopped"), body);
    }
    if report.complete {
        return AlertDialog::report(Message::plain("Passwords Copied"), body);
    }
    push_failures(&mut body, &report.failures);
    push_incomplete(&mut body, &report.incomplete);
    AlertDialog::report(Message::plain("Some Passwords Were Not Copied"), body)
}

/// Nothing can be copied onto itself, over a collision or where there is nothing.
pub proof fn law_copy_needs_a_clean_plan(
    source: SecretBackendType,
    destination: SecretBackendType,
    passphrase_known: bool,
    plan: TransferPlan,
)
    ensures
        refreshed(source, destination, passphrase_known, plan).copy_enabled <==> source != destination
            && plan.collisions@.len() == 0 && plan.items > 0,
{
}

/// Every planned entry of a stopped run is counted once: as copied, as empty, as failed or as not
/// looked at.
pub proof fn law_a_stopped_run_accounts_for_every_entry(
    report: CredentialTransferReport,
    planned: usize,
)
    requires
        report.transferred + report.missing + report.failures@.len() <= planned,
    ensures
        report.transferred + report.missing + report.failures@.len() + untouched(report, planned)
            == planned,
{
}

/// The portable file is involved where it is read or written.
pub proof fn law_either_side_involves_the_portable_file(
    source: SecretBackendType,
    destination: SecretBackendType,
    r: bool,
)
    requires
        call_ensures(involves_portable, (source, destination), r),
    ensures
        source is PortableEncryptedFile ==> r,
        destination is PortableEncryptedFile ==> r,
        !(source is PortableEncryptedFile) && !(destination is PortableEncryptedFile) ==> !r,
{
}

/// The labels of two parts of a collision are joined by a slash, and a label alone stands as it is.
pub proof fn law_labels_are_joined_by_slashes(a: Seq<Seq<char>>, b: Seq<Seq<char>>, label: Seq<char>)
    ensures
        slashed(Seq::empty()) == ""@,
        slashed(seq![label]) == label,
        a.len() > 0 && b.len() > 0 ==> slashed(a + b) == slashed(a) + " / "@ + slashed(b),
    decreases b.len(),
{
    reveal_strlit("");
    assert(""@ =~= Seq::<char>::empty());
    if a.len() > 0 && b.len() > 0 {
        assert((a + b).drop_last() =~= a + b.drop_last());
        assert((a + b).last() == b.last());
        if b.len() == 1 {
            assert(a + b.drop_last() =~= a);
        } else {
            law_labels_are_joined_by_slashes(a, b.drop_last(), label);
            assert(slashed(a + b) =~= slashed(a) + " / "@ + slashed(b));
        }
    }
}

/// The number of parts of a list of collisions.
proof fn lemma_collision_bullets_len(collisions: Seq<Vec<String>>)
    ensures
        collision_bullets(collisions).len() == 2 * collisions.len(),
    decreases collisions.len(),
{
    if collisions.len() > 0 {
        lemma_collision_bullets_len(collisions.drop_last());
    }
}

/// Where a collision stands in the list of bullets.
proof fn lemma_collision_bullet(collisions: Seq<Vec<String>>, i: int)
    requires
        0 <= i < collisions.len(),
    ensures
        collision_bullets(collisions).len() == 2 * collisions.len(),
        shows(collision_bullets(collisions)[2 * i], "\n• "@),
        shows(collision_bullets(collisions)[2 * i + 1], slashed(views(collisions[i]@))),
    decreases collisions.len(),
{
    let before = collisions.drop_last();
    lemma_collision_bullets_len(before);
    if i < before.len() {
        lemma_collision_bullet(before, i);
        assert(before[i] == collisions[i]);
    }
}

/// Every collision is named, in a bullet of its own, behind the text that says what a collision is.
pub proof fn law_every_collision_is_named(collisions: Seq<Vec<String>>, i: int)
    requires
        0 <= i < collisions.len(),
    ensures
        collision_body(collisions).len() == 1 + 2 * collisions.len(),
        says(
            collision_body(collisions)[0],
            "These entries would end up in the same place in the destination, so one would overwrite the other. Rename one of them, or choose a destination that keeps groups apart."@,
            Seq::empty(),
        ),
        shows(collision_body(collisions)[1 + 2 * i], "\n• "@),
        shows(collision_body(collisions)[2 + 2 * i], slashed(views(collisions[i]@))),
{
    lemma_collision_bullet(collisions, i);
}

/// The dialog asks for a passphrase exactly where the portable file is involved and its passphrase
/// is not known, and counts the entries exactly where the two sides differ.
pub proof fn law_passphrase_is_asked_for_where_it_is_needed(
    source: SecretBackendType,
    destination: SecretBackendType,
    passphrase_known: bool,
    plan: TransferPlan,
)
    ensures
        refreshed(source, destination, passphrase_known, plan).passphrase_visible <==> (
        source is PortableEncryptedFile || destination is PortableEncryptedFile)
            && !passphrase_known,
        refreshed(source, destination, passphrase_known, plan).count is Unknown <==> source
            == destination,
        source != destination ==> refreshed(source, destination, passphrase_known, plan).count
            == EntryCount::Entries(plan.items),
{
}

/// The status is silent exactly where the copy can start. It is an error exactly where entries of two
/// different stores collide, and names the collisions.
pub proof fn law_status_says_what_stops_the_copy(
    source: SecretBackendType,
    destination: SecretBackendType,
    passphrase_known: bool,
    plan: TransferPlan,
)
    ensures
        ({
            let v = refreshed(source, destination, passphrase_known, plan);
            &&& v.status is None <==> source != destination && plan.collisions@.len() == 0
                && plan.items > 0
            &&& v.status is None <==> v.copy_enabled
            &&& (v.status matches Some(s) && s.1) <==> source != destination
                && plan.collisions@.len() > 0
            &&& source == destination ==> (v.status matches Some(s) && s.0.len() == 1 && says(
                s.0[0],
                "Choose two different password stores"@,
                Seq::empty(),
            ))
            &&& source != destination && plan.collisions@.len() > 0 ==> (v.status matches Some(s)
                && s.0 == collision_body(plan.collisions@))
            &&& source != destination && plan.collisions@.len() == 0 && plan.items == 0 ==> (
            v.status matches Some(s) && s.0.len() == 1 && says(
                s.0[0],
                "No connection, group or variable is set to use the password store, so there is nothing to copy."@,
                Seq::empty(),
            ))
        }),
{
}

/// A dialog that was just opened has the same store on both sides, so that nothing can be copied
/// yet; no run is on.
pub proof fn law_opened_dialog_cannot_copy_yet(
    preferred: SecretBackendType,
    passphrase_known: bool,
    plan: &TransferPlan,
    r: TransferDialog,
)
    requires
        call_ensures(show_transfer_dialog, (preferred, passphrase_known, plan), r),
    ensures
        r.source == preferred,
        r.destination == preferred,
        !r.copy_enabled,
        r.count is Unknown,
        r.status matches Some(s) && !s.is_error,
        r.passphrase_visible <==> preferred is PortableEncryptedFile && !passphrase_known,
        r.selectors_enabled,
        r.cancel_visible,
        !r.stop_visible,
        !r.stop_requested,
{
    assert(r.refresh_view().status == transfer_status_view(r.status));
    assert(transfer_status_view(r.status) is Some <==> r.status is Some);
    assert(r.refresh_view().copy_enabled == r.copy_enabled);
    assert(r.refresh_view().count == r.count);
    assert(r.refresh_view().passphrase_visible == r.passphrase_visible);
}

/// The progress line counts what is finished before what is planned.
pub proof fn law_progress_is_counted(finished: usize, planned: usize, r: Message)
    requires
        call_ensures(copying_message, (finished, planned), r),
    ensures
        r@.msgid == "Copying… {} of {}"@,
        r@.args.len() == 2,
        text::value_of(r@.args[0]) == finished,
        text::value_of(r@.args[1]) == planned,
{
    text::lemma_decimal(finished as nat);
    text::lemma_decimal(planned as nat);
}

/// The confirmation counts the entries and names both stores; a destination that is a file is named
/// with its own path, any other destination with none. Return and closing do not copy.
pub proof fn law_confirmation_names_the_destination(
    count: usize,
    source_name: &str,
    destination_name: &str,
    destination: SecretBackendType,
    portable_path: &str,
    encrypted_path: &str,
    d: AlertDialog,
)
    requires
        call_ensures(
            confirm_and_run,
            (count, source_name, destination_name, destination, portable_path, encrypted_path),
            d,
        ),
    ensures
        d.heading@.msgid == "Copy stored passwords?"@,
        d.responses@.len() == 2,
        d.responses@[0].id@ == "cancel"@ && d.responses@[0].label@ == "Cancel"@,
        d.responses@[1].id@ == "copy"@ && d.responses@[1].label@ == "Copy"@,
        d.default_response@ == "cancel"@,
        d.close_response@ == "cancel"@,
        d.suggested matches Some(s) && s@ == "copy"@,
        d.can_close,
        d.body@[0] is Message,
        d.body@[0]->Message_0.msgid
            == "{} entries will be read from {} and written to {}. Nothing is removed from {}."@,
        d.body@[0]->Message_0.args.len() == 4,
        text::value_of(d.body@[0]->Message_0.args[0]) == count,
        d.body@[0]->Message_0.args[1] == source_name@,
        d.body@[0]->Message_0.args[2] == destination_name@,
        d.body@[0]->Message_0.args[3] == source_name@,
        d.body@.len() == (if destination is PortableEncryptedFile || destination is EncryptedFile {
            3int
        } else {
            1
        }),
        destination is PortableEncryptedFile ==> shows(d.body@[1], "\n\n"@) && says(
            d.body@[2],
            "Destination file: {}"@,
            seq![portable_path@],
        ),
        destination is EncryptedFile ==> shows(d.body@[1], "\n\n"@) && says(
            d.body@[2],
            "Destination file: {}"@,
            seq![encrypted_path@],
        ),
{
    text::lemma_decimal(count as nat);
    assert(response_views(d.responses@).len() == d.responses@.len());
    assert(response_views(d.responses@)[0] == ("cancel"@, "Cancel"@));
    assert(response_views(d.responses@)[1] == ("copy"@, "Copy"@));
    assert(d@.suggested == Some("copy"@));
}

/// A run can start exactly where it does not touch the portable file, or has a passphrase that opens
/// it and a file where one is read; otherwise the first obstacle is named.
pub proof fn law_portable_side_is_checked_first(
    source: SecretBackendType,
    destination: SecretBackendType,
    has_passphrase: bool,
    path: &str,
    path_exists: bool,
    verdict: &PortableVerdict,
    r: Option<Message>,
)
    requires
        call_ensures(
            verify_portable_side,
            (source, destination, has_passphrase, path, path_exists, verdict),
            r,
        ),
    ensures
        ({
            let involved = source is PortableEncryptedFile || destination is PortableEncryptedFile;
            let missing = source is PortableEncryptedFile && !path_exists;
            &&& r is None <==> !involved || (has_passphrase && !missing && verdict is Opens)
            &&& involved && !has_passphrase ==> (r matches Some(m) && m@.msgid
                == "Enter the passphrase that protects the portable file"@ && m@.args.len() == 0)
            &&& involved && has_passphrase && missing ==> (r matches Some(m) && m@.msgid
                == "There is no portable file at {}. Check the path in Settings, or wait for your cloud client to deliver it."@
                && m@.args.len() == 1 && m@.args[0] == path@)
            &&& involved && has_passphrase && !missing && verdict is IncorrectPassphrase ==> (
            r matches Some(m) && m@.msgid
                == "That passphrase does not open the portable file. Enter the passphrase the file was created with."@
                && m@.args.len() == 0)
            &&& involved && has_passphrase && !missing ==> (
            verdict matches PortableVerdict::Failed(e) ==> (r matches Some(m) && m@.msgid
                == "Cannot open the portable file: {}"@ && m@.args.len() == 1 && m@.args[0]
                == e@))
        }),
{
}

/// A report says first how many entries were copied, and then how many had nothing to copy where
/// there are any.
pub proof fn law_copied_entries_are_counted_first(
    report: &CredentialTransferReport,
    planned: usize,
    d: AlertDialog,
)
    requires
        report.transferred + report.missing + report.failures@.len() <= usize::MAX,
        call_ensures(show_report, (report, planned), d),
    ensures
        d.close_response@ == "close"@,
        d.can_close,
        d.body@.len() >= 1,
        d.body@[0] is Message,
        d.body@[0]->Message_0.msgid == "Copied: {}"@,
        d.body@[0]->Message_0.args.len() == 1,
        text::value_of(d.body@[0]->Message_0.args[0]) == report.transferred,
        report.missing > 0 ==> {
            &&& d.body@.len() >= 3
            &&& shows(d.body@[1], "\n"@)
            &&& d.body@[2] is Message
            &&& d.body@[2]->Message_0.msgid == "Had no stored password yet: {}"@
            &&& d.body@[2]->Message_0.args.len() == 1
            &&& text::value_of(d.body@[2]->Message_0.args[0]) == report.missing
        },
{
    text::lemma_decimal(report.transferred as nat);
    text::lemma_decimal(report.missing as nat);
}

/// The heading says whether the run was stopped, was clean or left something behind. A stopped run
/// says how many entries it did not look at; a clean one says nothing more than its counts.
pub proof fn law_heading_says_how_the_run_ended(
    report: &CredentialTransferReport,
    planned: usize,
    d: AlertDialog,
)
    requires
        report.transferred + report.missing + report.failures@.len() <= usize::MAX,
        call_ensures(show_report, (report, planned), d),
    ensures
        ({
            let counts = if report.missing > 0 {
                3int
            } else {
                1
            };
            let seen = report.transferred + report.missing + report.failures@.len();
            &&& report.cancelled ==> {
                &&& d.heading@.msgid == "Copy Stopped"@
                &&& d.body@.len() == counts + 2
                &&& shows(d.body@[counts], "\n\n"@)
                &&& d.body@[counts + 1] is Message
                &&& d.body@[counts + 1]->Message_0.msgid
                    == "You stopped the copy, so {} entries were not looked at. Everything already copied stays where it is, and running the copy again finishes the rest."@
                &&& d.body@[counts + 1]->Message_0.args.len() == 1
                &&& planned >= seen ==> seen + text::value_of(
                    d.body@[counts + 1]->Message_0.args[0],
                ) == planned
                &&& planned < seen ==> text::value_of(d.body@[counts + 1]->Message_0.args[0]) == 0
            }
            &&& !report.cancelled && report.complete ==> {
                &&& d.heading@.msgid == "Passwords Copied"@
                &&& d.body@.len() == counts
            }
            &&& !report.cancelled && !report.complete ==> {
                &&& d.heading@.msgid == "Some Passwords Were Not Copied"@
                &&& d.body@.len() > counts
                &&& d.body@.skip(counts) == failure_body(report.failures@) + incomplete_body(
                    report.incomplete@,
                )
            }
        }),
{
    let counts = if report.missing > 0 {
        3int
    } else {
        1
    };
    text::lemma_decimal(untouched(*report, planned));
    assert(counts_body(*report).len() == counts);
    if !report.cancelled && !report.complete {
        assert(d.body@.skip(counts) =~= failure_body(report.failures@) + incomplete_body(
            report.incomplete@,
        ));
    }
}

/// The failures of a run are counted where there are any, and the first twelve are named; a line
/// counts the rest.
pub proof fn law_failures_are_named(failures: Seq<(String, String)>)
    ensures
        ({
            let body = failure_body(failures);
            let total = failures.len();
            let counted = if total > 0 {
                2int
            } else {
                0
            };
            let named = if total <= 12 {
                total as int
            } else {
                12
            };
            &&& body.len() == counted + 1 + 2 * named + (if total > 12 {
                2int
            } else {
                0
            })
            &&& shows(body[counted], "\n\n"@)
            &&& total > 0 ==> {
                &&& shows(body[0], "\n"@)
                &&& body[1] is Message
                &&& body[1]->Message_0.msgid == "Could not be copied: {}"@
                &&& body[1]->Message_0.args.len() == 1
                &&& text::value_of(body[1]->Message_0.args[0]) == total
            }
            &&& total > 12 ==> {
                &&& body.last() is Message
                &&& body.last()->Message_0.args.len() == 1
                &&& text::value_of(body.last()->Message_0.args[0]) == total - 12
            }
        }),
        forall|i: int|
            0 <= i < failures.len() && i < 12 ==> failure_body(failures).contains(
                PartView::Literal((#[trigger] failures[i]).0@),
            ),
{
    let body = failure_body(failures);
    let entries = entry_views(failures);
    let total = failures.len();
    let named = named_in_order(entries, false);
    let list = bullets(named, false);
    let counted = if total > 0 {
        2int
    } else {
        0
    };
    text::lemma_decimal(total);
    law_first_twelve_are_named(entries, false);
    lemma_bullets_len(named);
    law_rest_is_counted(total);
    assert forall|i: int| 0 <= i < failures.len() && i < 12 implies body.contains(
        PartView::Literal((#[trigger] failures[i]).0@),
    ) by {
        let e = (entries[i].0, ""@);
        assert(named.contains(e));
        let k = choose|k: int| 0 <= k < named.len() && named[k] == e;
        law_every_entry_has_its_bullet(named, k);
        assert(list[2 * k + 1] == PartView::Literal(failures[i].0@));
        assert(body[counted + 1 + 2 * k + 1] == list[2 * k + 1]);
    }
}

/// Entries that arrived in part are named with what was lost, and nothing is said where there are
/// none.
pub proof fn law_lost_parts_are_named(incomplete: Seq<(String, String)>)
    ensures
        incomplete.len() == 0 <==> incomplete_body(incomplete).len() == 0,
        incomplete.len() > 0 ==> {
            &&& shows(incomplete_body(incomplete)[0], "\n\n"@)
            &&& says(
                incomplete_body(incomplete)[1],
                "These arrived, but the destination has nowhere to keep part of what they held:"@,
                Seq::empty(),
            )
            &&& incomplete_body(incomplete).len() == 2 + 4 * (if incomplete.len() <= 12 {
                incomplete.len() as int
            } else {
                12
            })
        },
        forall|i: int|
            0 <= i < incomplete.len() && i < 12 ==> incomplete_body(incomplete).contains(
                PartView::Literal((#[trigger] incomplete[i]).0@),
            ) && incomplete_body(incomplete).contains(PartView::Literal(incomplete[i].1@)),
{
    let body = incomplete_body(incomplete);
    let entries = entry_views(incomplete);
    let named = named_in_order(entries, true);
    let list = bullets(named, true);
    law_first_twelve_are_named(entries, true);
    lemma_bullets_len(named);
    assert forall|i: int| 0 <= i < incomplete.len() && i < 12 implies body.contains(
        PartView::Literal((#[trigger] incomplete[i]).0@),
    ) && body.contains(PartView::Literal(incomplete[i].1@)) by {
        let e = (entries[i].0, entries[i].1);
        assert(named.contains(e));
        let k = choose|k: int| 0 <= k < named.len() && named[k] == e;
        law_every_entry_has_its_bullet(named, k);
        assert(list[4 * k + 1] == PartView::Literal(incomplete[i].0@));
        assert(list[4 * k + 3] == PartView::Literal(incomplete[i].1@));
        assert(body[2 + 4 * k + 1] == list[4 * k + 1]);
        assert(body[2 + 4 * k + 3] == list[4 * k + 3]);
    }
}

/// While a run is on, nothing but Stop can be pressed; while none is, the selectors work and Cancel
/// stands where Stop would.
pub proof fn law_running_dialog_can_only_be_stopped(d: TransferDialog)
    ensures
        d.is_running() <==> !d.selectors_enabled && !d.cancel_visible && d.stop_visible
            && !d.copy_enabled,
        d.is_idle() <==> d.selectors_enabled && d.cancel_visible && !d.stop_visible,
        !(d.is_running() && d.is_idle()),
{
}

} // verus!

//! Copying the machine-bound passwords into the portable file.

use crate::dialogs::alert::{and_more, bullets, law_every_entry_has_its_bullet, law_first_twelve_are_named, law_rest_is_counted, lemma_bullets_len, lit, named_in_order, push_and_more, push_named, question, response_views, say, says, shows, AlertDialog, Body, PartView};
use crate::i18n::{plain, with_args, Message, MessageView};
use crate::sorting::entry_views;
use crate::text::{self, decimal_of};
use vstd::prelude::*;

verus! {

/// What the user chose.
#[derive(Clone, Copy, Debug, PartialEq, Eq, Structural)]
pub enum MigrationResponse {
    /// Copy every credential into the portable file.
    Transfer,
    /// Leave them where they are.
    Skip,
}

/// Describes the question whether to copy existing credentials. Return does not copy.
pub fn show_migration_wizard(entry_count: usize) -> (r: AlertDialog)
    ensures
        r@ == question(
            plain("Copy credentials to the portable file?"@),
            seq![
                say(
                    with_args(
                        "{} stored passwords are currently protected by a key that only works on this computer. Copying them into the portable file re-encrypts them with your passphrase, so they can be opened on your other devices.\n\nThe originals are kept, so nothing is lost if you change your mind."@,
                        seq![decimal_of(entry_count as nat)],
                    ),
                ),
            ],
            ("cancel"@, "Cancel"@),
            ("transfer"@, "Copy Credentials"@),
            true,
        ),
{
    AlertDialog::question(
        Message::plain("Copy credentials to the portable file?"),
        Body::of(
            Message::with(
                "{} stored passwords are currently protected by a key that only works on this computer. Copying them into the portable file re-encrypts them with your passphrase, so they can be opened on your other devices.\n\nThe originals are kept, so nothing is lost if you change your mind.",
                text::decimal(entry_count as u64).as_str(),
            ),
        ),
        ("cancel", "Cancel"),
        ("transfer", "Copy Credentials"),
        true,
    )
}

/// Reads the answer: anything but the transfer leaves the credentials where they are.
pub fn migration_response(response: &str) -> (r: MigrationResponse)
    ensures
        r == (if response@ == "transfer"@ {
            MigrationResponse::Transfer
        } else {
            MigrationResponse::Skip
        }),
{
    if text::same(response, "transfer") {
        MigrationResponse::Transfer
    } else {
        MigrationResponse::Skip
    }
}

/// What a copy did: how many credentials it moved, and which it could not read and why.
pub struct MigrationResult {
    pub migrated: usize,
    pub failures: Vec<(String, String)>,
    /// Whether every credential was copied.
    pub complete: bool,
}

/// How a copy ended.
pub enum MigrationOutcome {
    Finished(MigrationResult),
    /// It did not start, with the reason.
    Failed(String),
    /// The worker panicked.
    Panicked,
}

/// How the outcome of a copy is shown.
pub enum MigrationReport {
    /// A toast, where nothing is left to do.
    Toast(Message),
    /// An error dialog.
    Error { heading: Message, body: Body },
}

/// What a [`MigrationReport`] says.
pub enum MigrationReportView {
    Toast(MessageView),
    Error(MessageView, Seq<PartView>),
}

impl View for MigrationReport {
    type V = MigrationReportView;

    open spec fn view(&self) -> MigrationReportView {
        match self {
            MigrationReport::Toast(m) => MigrationReportView::Toast(m@),
            MigrationReport::Error { heading, body } => MigrationReportView::Error(
                heading@,
                body@,
            ),
        }
    }
}

/// The text that names the credentials which could not be read.
pub open spec fn partial_failure_body(result: MigrationResult) -> Seq<PartView> {
    seq![
        say(
            with_args(
                "Copied {} credentials. {} could not be read and were left in the machine-bound file:"@,
                seq![
                    decimal_of(result.migrated as nat),
                    decimal_of(result.failures@.len()),
                ],
            ),
        ),
    ] + bullets(named_in_order(entry_views(result.failures@), false), false) + and_more(
        result.failures@.len(),
    ) + seq![
        lit("\n\n"@),
        say(
            plain(
                "These connections still work on this computer. To use them on another device, open each one and save its password again."@,
            ),
        ),
    ]
}

/// How each outcome is shown.
pub open spec fn migration_report_of(outcome: MigrationOutcome) -> MigrationReportView {
    match outcome {
        MigrationOutcome::Finished(result) => if result.complete {
            MigrationReportView::Toast(
                with_args(
                    "Copied {} credentials to the portable file"@,
                    seq![decimal_of(result.migrated as nat)],
                ),
            )
        } else {
            MigrationReportView::Error(
                plain("Some Credentials Were Not Copied"@),
                partial_failure_body(result),
            )
        },
        MigrationOutcome::Failed(e) => MigrationReportView::Error(
            plain("Could Not Copy Credentials"@),
            seq![say(with_args("The transfer did not start: {}"@, seq![e@]))],
        ),
        MigrationOutcome::Panicked => MigrationReportView::Error(
            plain("Could Not Copy Credentials"@),
            seq![
                say(
                    plain(
                        "The transfer did not finish. The portable file may hold only some of your credentials; run the copy again to complete it."@,
                    ),
                ),
            ],
        ),
    }
}

fn show_partial_failure(result: &MigrationResult) -> (r: Body)
    ensures
        r@ == partial_failure_body(*result),
{
    let mut body = Body::of(
        Message::with2(
            "Copied {} credentials. {} could not be read and were left in the machine-bound file:",
            text::decimal(result.migrated as u64).as_str(),
            text::decimal(result.failures.len() as u64).as_str(),
        ),
    );
    push_named(&mut body, &result.failures, false);
    push_and_more(&mut body, result.failures.len());
    let ghost before = body@;
    body.push_text("\n\n");
    body.push_message(
        Message::plain(
            "These connections still work on this computer. To use them on another device, open each one and save its password again.",
        ),
    );
    assert(body@ =~= partial_failure_body(*result));
    body
}

/// Says how the outcome of a copy is shown: a toast where nothing is left to do, a dialog that names
/// what is missing otherwise.
pub fn run_migration(outcome: &MigrationOutcome) -> (r: MigrationReport)
    ensures
        r@ == migration_report_of(*outcome),
{
    match outcome {
        MigrationOutcome::Finished(result) => {
            if result.complete {
                MigrationReport::Toast(
                    Message::with(
                        "Copied {} credentials to the portable file",
                        text::decimal(result.migrated as u64).as_str(),
                    ),
                )
            } else {
                MigrationReport::Error {
                    heading: Message::plain("Some Credentials Were Not Copied"),
                    body: show_partial_failure(result),
                }
            }
        },
        MigrationOutcome::Failed(e) => MigrationReport::Error {
            heading: Message::plain("Could Not Copy Credentials"),
            body: Body::of(Message::with("The transfer did not start: {}", e)),
        },
        MigrationOutcome::Panicked => MigrationReport::Error {
            heading: Message::plain("Could Not Copy Credentials"),
            body: Body::of(
                Message::plain(
                    "The transfer did not finish. The portable file may hold only some of your credentials; run the copy again to complete it.",
                ),
            ),
        },
    }
}

/// Credentials are copied only where the transfer is asked for.
pub proof fn law_only_the_transfer_button_copies(response: &str, r: MigrationResponse)
    requires
        call_ensures(migration_response, (response,), r),
    ensures
        r is Transfer <==> response@ == "transfer"@,
        r is Skip <==> response@ != "transfer"@,
{
}

/// The wizard counts the entries; Return and closing leave them where they are, its second button
/// copies them.
pub proof fn law_migration_wizard_is_answered(
    entry_count: usize,
    d: AlertDialog,
    response: &str,
    r: MigrationResponse,
)
    requires
        call_ensures(show_migration_wizard, (entry_count,), d),
        call_ensures(migration_response, (response,), r),
    ensures
        d.heading@.msgid == "Copy credentials to the portable file?"@,
        d.body@.len() == 1,
        d.body@[0] matches PartView::Message(m) && m.args.len() == 1 && text::value_of(m.args[0])
            == entry_count,
        d.can_close,
        d.responses@.len() == 2,
        d.responses@[0].label@ == "Cancel"@,
        d.responses@[1].label@ == "Copy Credentials"@,
        response@ == d.responses@[0].id@ ==> r is Skip,
        response@ == d.default_response@ ==> r is Skip,
        response@ == d.close_response@ ==> r is Skip,
        response@ == d.responses@[1].id@ ==> r is Transfer,
{
    reveal_strlit("cancel");
    reveal_strlit("transfer");
    assert("cancel"@.len() != "transfer"@.len());
    text::lemma_decimal(entry_count as nat);
    assert(response_views(d.responses@).len() == d.responses@.len());
    assert(response_views(d.responses@)[0] == ("cancel"@, "Cancel"@));
    assert(response_views(d.responses@)[1] == ("transfer"@, "Copy Credentials"@));
}

/// A toast is shown exactly where every credential was copied, and counts them; every other outcome
/// is an error that says what went wrong.
pub proof fn law_only_a_complete_copy_is_a_toast(outcome: &MigrationOutcome, r: MigrationReport)
    requires
        call_ensures(run_migration, (outcome,), r),
    ensures
        r is Toast <==> (outcome matches MigrationOutcome::Finished(result) && result.complete),
        outcome matches MigrationOutcome::Finished(result) ==> (result.complete ==> (
        r@ matches MigrationReportView::Toast(m) && m.msgid
            == "Copied {} credentials to the portable file"@ && m.args.len() == 1
            && text::value_of(m.args[0]) == result.migrated)),
        outcome matches MigrationOutcome::Finished(result) ==> (!result.complete ==> (
        r@ matches MigrationReportView::Error(h, b) && h.msgid
            == "Some Credentials Were Not Copied"@ && b == partial_failure_body(*result))),
        outcome matches MigrationOutcome::Failed(e) ==> (r@ matches MigrationReportView::Error(h, b)
            && h.msgid == "Could Not Copy Credentials"@ && b.len() == 1 && says(
            b[0],
            "The transfer did not start: {}"@,
            seq![e@],
        )),
        outcome is Panicked ==> (r@ matches MigrationReportView::Error(h, b) && h.msgid
            == "Could Not Copy Credentials"@ && b.len() == 1 && says(
            b[0],
            "The transfer did not finish. The portable file may hold only some of your credentials; run the copy again to complete it."@,
            Seq::empty(),
        )),
{
    if let MigrationOutcome::Finished(result) = outcome {
        text::lemma_decimal(result.migrated as nat);
    }
    assert(r is Toast <==> r@ is Toast);
}

/// A copy that left something behind says how many credentials it moved and how many it left, and
/// then which: a bullet for each of the first twelve, and a line for the rest.
pub proof fn law_partial_copy_names_what_is_missing(result: MigrationResult)
    ensures
        ({
            let body = partial_failure_body(result);
            let total = result.failures@.len();
            let named = if total <= 12 {
                total as int
            } else {
                12
            };
            &&& body[0] matches PartView::Message(m)
            &&& m.msgid
                == "Copied {} credentials. {} could not be read and were left in the machine-bound file:"@
            &&& m.args.len() == 2
            &&& text::value_of(m.args[0]) == result.migrated
            &&& text::value_of(m.args[1]) == total
            &&& body.len() == 1 + 2 * named + (if total > 12 {
                2int
            } else {
                0
            }) + 2
            &&& shows(body[body.len() - 2], "\n\n"@)
            &&& says(
                body[body.len() - 1],
                "These connections still work on this computer. To use them on another device, open each one and save its password again."@,
                Seq::empty(),
            )
            &&& total > 12 ==> body[1 + 2 * named + 1] is Message
        }),
        forall|i: int|
            0 <= i < result.failures@.len() && i < 12 ==> partial_failure_body(result).contains(
                PartView::Literal((#[trigger] result.failures@[i]).0@),
            ),
{
    let body = partial_failure_body(result);
    let entries = entry_views(result.failures@);
    let total = result.failures@.len();
    let named = named_in_order(entries, false);
    let list = bullets(named, false);
    text::lemma_decimal(result.migrated as nat);
    text::lemma_decimal(total);
    law_first_twelve_are_named(entries, false);
    lemma_bullets_len(named);
    law_rest_is_counted(total);
    assert forall|i: int| 0 <= i < result.failures@.len() && i < 12 implies body.contains(
        PartView::Literal((#[trigger] result.failures@[i]).0@),
    ) by {
        let e = (entries[i].0, ""@);
        assert(named.contains(e));
        let k = choose|k: int| 0 <= k < named.len() && named[k] == e;
        law_every_entry_has_its_bullet(named, k);
        assert(list[2 * k + 1] == PartView::Literal(result.failures@[i].0@));
        assert(body[1 + 2 * k + 1] == list[2 * k + 1]);
    }
}

} // verus!

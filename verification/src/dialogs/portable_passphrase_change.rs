//! Changing the portable credential file's passphrase.

use crate::dialogs::alert::{lit, report, say, says, shows, AlertDialog, AlertView, Body, PartView};
use crate::i18n::{plain, with_args, Message, MessageView};
use crate::scrub::SecretText;
use crate::text::{self, decimal_of};
use vstd::prelude::*;

verus! {

/// How a passphrase scores.
#[derive(Clone, Copy, Debug, PartialEq, Eq, Structural)]
pub enum PassphraseStrength {
    TooShort,
    /// Long enough, but easy to guess.
    Weak,
    /// Nothing to say about it.
    Fine,
}

/// Severity of a status message.
#[derive(Clone, Copy, Debug, PartialEq, Eq, Structural)]
pub enum Level {
    /// In progress or neutral.
    Dim,
    /// Advice that may be ignored.
    Warning,
    /// The action cannot go ahead.
    Error,
}

impl Level {
    /// The css class of the level; the two others are taken off.
    pub fn css_class(self) -> (r: &'static str)
        ensures
            r@ == (match self {
                Level::Dim => "dim-label"@,
                Level::Warning => "warning"@,
                Level::Error => "error"@,
            }),
    {
        match self {
            Level::Dim => "dim-label",
            Level::Warning => "warning",
            Level::Error => "error",
        }
    }
}

/// A status message with its severity.
pub struct Status {
    pub message: Message,
    pub level: Level,
}

impl View for Status {
    type V = (MessageView, Level);

    open spec fn view(&self) -> (MessageView, Level) {
        (self.message@, self.level)
    }
}

/// The view of an optional status.
pub open spec fn status_view(s: Option<Status>) -> Option<(MessageView, Level)> {
    match s {
        Some(s) => Some(s@),
        None => None,
    }
}

/// The advice for a passphrase that scores badly.
pub open spec fn weakness_of(strength: PassphraseStrength) -> MessageView {
    if strength == PassphraseStrength::TooShort {
        plain(
            "A passphrase this short can be guessed quickly. This file is meant to be copied to your other computers, so the passphrase is the only thing protecting it."@,
        )
    } else {
        plain(
            "This passphrase would not take long to guess. Several unrelated words make a much stronger one, and are easier to remember than symbols."@,
        )
    }
}

/// The advice for a passphrase that scores badly.
pub fn weakness_message(strength: PassphraseStrength) -> (r: Message)
    ensures
        r@ == weakness_of(strength),
{
    if strength == PassphraseStrength::TooShort {
        Message::plain(
            "A passphrase this short can be guessed quickly. This file is meant to be copied to your other computers, so the passphrase is the only thing protecting it.",
        )
    } else {
        Message::plain(
            "This passphrase would not take long to guess. Several unrelated words make a much stronger one, and are easier to remember than symbols.",
        )
    }
}

/// What is said while the new passphrase is typed: a mismatch first, then its strength.
pub fn live_feedback(new: &str, confirm: &str, strength: PassphraseStrength) -> (r: Option<Status>)
    ensures
        status_view(r) == (if confirm@.len() > 0 && new@ != confirm@ {
            Some((plain("The two new passphrases do not match"@), Level::Error))
        } else if strength != PassphraseStrength::Fine {
            Some((weakness_of(strength), Level::Warning))
        } else {
            None
        }),
{
    if !confirm.is_empty() && !text::same(new, confirm) {
        return Some(
            Status {
                message: Message::plain("The two new passphrases do not match"),
                level: Level::Error,
            },
        );
    }
    if strength != PassphraseStrength::Fine {
        Some(Status { message: weakness_message(strength), level: Level::Warning })
    } else {
        None
    }
}

/// An entry of the form.
#[derive(Clone, Copy, Debug, PartialEq, Eq, Structural)]
pub enum Field {
    Current,
    New,
    Confirm,
}

/// Why the form is refused, and which entry gets the focus. The first problem is reported; a weak
/// passphrase is none.
pub open spec fn problem_of(
    current: Seq<char>,
    new: Seq<char>,
    confirm: Seq<char>,
) -> Option<(MessageView, Field)> {
    if current.len() == 0 {
        Some((plain("Enter the passphrase the file is protected with now"@), Field::Current))
    } else if new.len() == 0 {
        Some((plain("Enter a new passphrase"@), Field::New))
    } else if confirm != new {
        Some((plain("The two new passphrases do not match"@), Field::Confirm))
    } else if new == current {
        Some((plain("The new passphrase is the same as the current one"@), Field::New))
    } else {
        None
    }
}

/// Checks the three entries, returning the current and the new passphrase.
pub fn validated_passphrases(current: &str, new: &str, confirm: &str) -> (r: Result<
    (SecretText, SecretText),
    (Message, Field),
>)
    ensures
        match r {
            Ok((c, n)) => problem_of(current@, new@, confirm@) is None && c@ == current@ && n@ == new@,
            Err((m, f)) => problem_of(current@, new@, confirm@) == Some((m@, f)),
        },
{
    if current.is_empty() {
        return Err(
            (
                Message::plain("Enter the passphrase the file is protected with now"),
                Field::Current,
            ),
        );
    }
    if new.is_empty() {
        return Err((Message::plain("Enter a new passphrase"), Field::New));
    }
    if !text::same(confirm, new) {
        return Err((Message::plain("The two new passphrases do not match"), Field::Confirm));
    }
    if text::same(new, current) {
        return Err(
            (Message::plain("The new passphrase is the same as the current one"), Field::New),
        );
    }
    Ok((SecretText::new(current), SecretText::new(new)))
}

/// A form that passes is filled in, confirmed and an actual change, and every such form passes.
pub proof fn law_only_a_confirmed_change_passes(
    current: Seq<char>,
    new: Seq<char>,
    confirm: Seq<char>,
)
    ensures
        problem_of(current, new, confirm) is None <==> current.len() > 0 && new.len() > 0 && confirm
            == new && new != current,
{
}

/// How a change ended.
pub enum ChangeOutcome {
    /// The file was re-keyed; so many passwords were encrypted again.
    Changed(usize),
    IncorrectPassphrase,
    Failed(String),
    /// The worker panicked.
    Panicked,
}

/// The report of a change, with a note where a remembered copy is stale.
pub open spec fn change_report(reencrypted: usize, remembered: bool) -> AlertView {
    report(
        plain("Passphrase Changed"@),
        seq![
            say(
                with_args(
                    "Passwords encrypted again under the new passphrase: {}"@,
                    seq![decimal_of(reencrypted as nat)],
                ),
            ),
        ] + (if remembered {
            seq![
                lit("\n\n"@),
                say(
                    plain(
                        "Save your settings so the copy of the passphrase kept on this computer is updated too. Until then this computer still remembers the old one."@,
                    ),
                ),
            ]
        } else {
            Seq::empty()
        }),
    )
}

/// Describes the report of a change.
pub fn report_success(reencrypted: usize, passphrase_is_remembered: bool) -> (r: AlertDialog)
    ensures
        r@ == change_report(reencrypted, passphrase_is_remembered),
{
    let mut body = Body::of(
        Message::with(
            "Passwords encrypted again under the new passphrase: {}",
            text::decimal(reencrypted as u64).as_str(),
        ),
    );
    if passphrase_is_remembered {
        body.push_text("\n\n");
        body.push_message(
            Message::plain(
                "Save your settings so the copy of the passphrase kept on this computer is updated too. Until then this computer still remembers the old one.",
            ),
        );
    }
    assert(body@ =~= change_report(reencrypted, passphrase_is_remembered).body);
    AlertDialog::report(Message::plain("Passphrase Changed"), body)
}

/// The form while it is used.
pub struct PassphraseChangeDialog {
    /// Whether a copy of the passphrase is kept on this machine.
    pub passphrase_is_remembered: bool,
    pub change_enabled: bool,
    pub cancel_enabled: bool,
    pub status: Option<Status>,
}

/// What the program does after Change was pressed.
pub enum ChangeAction {
    /// The form is refused; this entry gets the focus.
    Focus(Field),
    /// Re-key the file on a worker, from the first passphrase to the second.
    Rekey(SecretText, SecretText),
}

/// What the program does after a change ended.
pub enum ChangeEnd {
    /// Install the new passphrase everywhere, clear the three entries and show the report.
    Install { reencrypted: usize, report: AlertDialog },
    /// Nothing but the status line.
    Stay,
}

/// What the status line says of a change that failed.
pub open spec fn change_failure(outcome: ChangeOutcome) -> Option<MessageView> {
    match outcome {
        ChangeOutcome::Changed(_) => None,
        ChangeOutcome::IncorrectPassphrase => Some(
            plain(
                "That passphrase does not open the portable file. Enter the passphrase the file was created with."@,
            ),
        ),
        ChangeOutcome::Failed(e) => Some(
            with_args("Could not change the passphrase: {}"@, seq![e@]),
        ),
        ChangeOutcome::Panicked => Some(
            plain("Could not change the passphrase. The file was not modified."@),
        ),
    }
}

/// Opens the form.
pub fn show_passphrase_change_dialog(passphrase_is_remembered: bool) -> (r: PassphraseChangeDialog)
    ensures
        r.passphrase_is_remembered == passphrase_is_remembered,
        r.change_enabled,
        r.cancel_enabled,
        r.status is None,
{
    PassphraseChangeDialog {
        passphrase_is_remembered,
        change_enabled: true,
        cancel_enabled: true,
        status: None,
    }
}

impl PassphraseChangeDialog {
    /// An entry changed: the new passphrase is judged.
    pub fn typed(&mut self, new: &str, confirm: &str, strength: PassphraseStrength)
        ensures
            status_view(final(self).status) == (if confirm@.len() > 0 && new@ != confirm@ {
                Some((plain("The two new passphrases do not match"@), Level::Error))
            } else if strength != PassphraseStrength::Fine {
                Some((weakness_of(strength), Level::Warning))
            } else {
                None
            }),
            final(self).change_enabled == old(self).change_enabled,
            final(self).cancel_enabled == old(self).cancel_enabled,
            final(self).passphrase_is_remembered == old(self).passphrase_is_remembered,
    {
        self.status = live_feedback(new, confirm, strength);
    }

    /// Change was pressed: a form without a problem is carried out, with both buttons off.
    pub fn change_pressed(&mut self, current: &str, new: &str, confirm: &str) -> (r: ChangeAction)
        ensures
            final(self).passphrase_is_remembered == old(self).passphrase_is_remembered,
            match problem_of(current@, new@, confirm@) {
                Some((m, f)) => {
                    &&& r == ChangeAction::Focus(f)
                    &&& status_view(final(self).status) == Some((m, Level::Error))
                    &&& final(self).change_enabled == old(self).change_enabled
                    &&& final(self).cancel_enabled == old(self).cancel_enabled
                },
                None => {
                    &&& r matches ChangeAction::Rekey(c, n) && c@ == current@ && n@ == new@
                    &&& status_view(final(self).status) == Some(
                        (plain("Changing the passphrase…"@), Level::Dim),
                    )
                    &&& !final(self).change_enabled
                    &&& !final(self).cancel_enabled
                },
            },
    {
        match validated_passphrases(current, new, confirm) {
            Err((message, field)) => {
                self.status = Some(Status { message, level: Level::Error });
                ChangeAction::Focus(field)
            },
            Ok((current, new)) => {
                self.status = Some(
                    Status { message: Message::plain("Changing the passphrase…"), level: Level::Dim },
                );
                self.change_enabled = false;
                self.cancel_enabled = false;
                ChangeAction::Rekey(current, new)
            },
        }
    }

    /// A change ended: both buttons are on again, and the outcome is reported.
    pub fn change_ended(&mut self, outcome: &ChangeOutcome) -> (r: ChangeEnd)
        ensures
            final(self).change_enabled,
            final(self).cancel_enabled,
            final(self).passphrase_is_remembered == old(self).passphrase_is_remembered,
            match change_failure(*outcome) {
                None => {
                    &&& final(self).status is None
                    &&& r matches ChangeEnd::Install { reencrypted, report } && *outcome
                        == ChangeOutcome::Changed(reencrypted) && report@ == change_report(
                        reencrypted,
                        old(self).passphrase_is_remembered,
                    )
                },
                Some(m) => {
                    &&& status_view(final(self).status) == Some((m, Level::Error))
                    &&& r is Stay
                },
            },
    {
        self.change_enabled = true;
        self.cancel_enabled = true;
        let message = match outcome {
            ChangeOutcome::Changed(reencrypted) => {
                self.status = None;
                return ChangeEnd::Install {
                    reencrypted: *reencrypted,
                    report: report_success(*reencrypted, self.passphrase_is_remembered),
                };
            },
            ChangeOutcome::IncorrectPassphrase => Message::plain(
                "That passphrase does not open the portable file. Enter the passphrase the file was created with.",
            ),
            ChangeOutcome::Failed(e) => Message::with("Could not change the passphrase: {}", e),
            ChangeOutcome::Panicked => Message::plain(
                "Could not change the passphrase. The file was not modified.",
            ),
        };
        self.status = Some(Status { message, level: Level::Error });
        ChangeEnd::Stay
    }
}

/// Each level has its own css class.
pub proof fn law_levels_look_different(level: Level, other: Level, r: &'static str, s: &'static str)
    requires
        call_ensures(Level::css_class, (level,), r),
        call_ensures(Level::css_class, (other,), s),
    ensures
        r@ == s@ <==> level == other,
        level is Dim <==> r@ == "dim-label"@,
        level is Warning <==> r@ == "warning"@,
        level is Error <==> r@ == "error"@,
{
    reveal_strlit("dim-label");
    reveal_strlit("warning");
    reveal_strlit("error");
    assert("dim-label"@.len() == 9);
    assert("warning"@.len() == 7);
    assert("error"@.len() == 5);
}

/// A passphrase that is too short is told so; any other advice is on how to make a stronger one.
pub proof fn law_short_passphrase_is_told_so(strength: PassphraseStrength, r: Message)
    requires
        call_ensures(weakness_message, (strength,), r),
    ensures
        r@.args.len() == 0,
        strength is TooShort ==> r@.msgid
            == "A passphrase this short can be guessed quickly. This file is meant to be copied to your other computers, so the passphrase is the only thing protecting it."@,
        !(strength is TooShort) ==> r@.msgid
            == "This passphrase would not take long to guess. Several unrelated words make a much stronger one, and are easier to remember than symbols."@,
{
}

/// While typing, a mismatch is an error, a weakness that is no mismatch is a warning, and a strong
/// passphrase that is not yet confirmed or confirmed as it is gets no remark.
pub proof fn law_mismatch_is_said_before_weakness(
    new: &str,
    confirm: &str,
    strength: PassphraseStrength,
    r: Option<Status>,
)
    requires
        call_ensures(live_feedback, (new, confirm, strength), r),
    ensures
        r is None <==> strength is Fine && (confirm@.len() == 0 || confirm@ == new@),
        (r matches Some(s) && s.level is Error) <==> confirm@.len() > 0 && confirm@ != new@,
        (r matches Some(s) && s.level is Warning) <==> !(strength is Fine) && (confirm@.len() == 0
            || confirm@ == new@),
        r matches Some(s) ==> !(s.level is Dim),
        r matches Some(s) ==> (s.level is Error ==> s.message@.msgid
            == "The two new passphrases do not match"@ && s.message@.args.len() == 0),
        r matches Some(s) ==> (s.level is Warning && strength is TooShort ==> s.message@.msgid
            == "A passphrase this short can be guessed quickly. This file is meant to be copied to your other computers, so the passphrase is the only thing protecting it."@),
        r matches Some(s) ==> (s.level is Warning && strength is Weak ==> s.message@.msgid
            == "This passphrase would not take long to guess. Several unrelated words make a much stronger one, and are easier to remember than symbols."@),
{
    assert(status_view(r) is None <==> r is None);
}

/// A form is accepted exactly where it is filled in, confirmed and an actual change, and gives the
/// two passphrases as they were typed; the first problem decides what is said and which entry gets
/// the focus.
pub proof fn law_form_is_checked_in_order(
    current: &str,
    new: &str,
    confirm: &str,
    r: Result<(SecretText, SecretText), (Message, Field)>,
)
    requires
        call_ensures(validated_passphrases, (current, new, confirm), r),
    ensures
        r is Ok <==> current@.len() > 0 && new@.len() > 0 && confirm@ == new@ && new@ != current@,
        r matches Ok(p) ==> p.0@ == current@ && p.1@ == new@,
        current@.len() == 0 ==> (r matches Err(e) && e.1 is Current && e.0@.msgid
            == "Enter the passphrase the file is protected with now"@),
        current@.len() > 0 && new@.len() == 0 ==> (r matches Err(e) && e.1 is New && e.0@.msgid
            == "Enter a new passphrase"@),
        current@.len() > 0 && new@.len() > 0 && confirm@ != new@ ==> (r matches Err(e)
            && e.1 is Confirm && e.0@.msgid == "The two new passphrases do not match"@),
        current@.len() > 0 && confirm@ == new@ && new@ == current@ ==> (r matches Err(e)
            && e.1 is New && e.0@.msgid == "The new passphrase is the same as the current one"@),
        r matches Err(e) ==> e.0@.args.len() == 0,
{
}

/// A change says nothing exactly where it was made; otherwise it says why it was not.
pub proof fn law_failed_change_says_why(outcome: ChangeOutcome)
    ensures
        change_failure(outcome) is None <==> outcome is Changed,
        outcome is IncorrectPassphrase ==> (change_failure(outcome) matches Some(m) && m.msgid
            == "That passphrase does not open the portable file. Enter the passphrase the file was created with."@
            && m.args.len() == 0),
        outcome matches ChangeOutcome::Failed(e) ==> (change_failure(outcome) matches Some(m)
            && m.msgid == "Could not change the passphrase: {}"@ && m.args.len() == 1 && m.args[0]
            == e@),
        outcome is Panicked ==> (change_failure(outcome) matches Some(m) && m.msgid
            == "Could not change the passphrase. The file was not modified."@ && m.args.len() == 0),
{
}

/// The report of a change counts the passwords, and warns of a stale copy exactly where one is kept.
pub proof fn law_stale_copy_is_mentioned(reencrypted: usize, remembered: bool, d: AlertDialog)
    requires
        call_ensures(report_success, (reencrypted, remembered), d),
    ensures
        d.heading@.msgid == "Passphrase Changed"@,
        d.close_response@ == "close"@,
        d.can_close,
        d.body@.len() == (if remembered {
            3int
        } else {
            1
        }),
        d.body@[0] matches PartView::Message(m) && m.msgid
            == "Passwords encrypted again under the new passphrase: {}"@ && m.args.len() == 1
            && text::value_of(m.args[0]) == reencrypted,
        remembered ==> shows(d.body@[1], "\n\n"@) && says(
            d.body@[2],
            "Save your settings so the copy of the passphrase kept on this computer is updated too. Until then this computer still remembers the old one."@,
            Seq::empty(),
        ),
{
    text::lemma_decimal(reencrypted as nat);
}

} // verus!

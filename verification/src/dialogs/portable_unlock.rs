//! Unlocking the portable credential file.
//!
//! A wrong passphrase keeps the dialog up, so that it can be typed again; every way out closes the
//! dialog explicitly and answers the caller once.

use crate::dialogs::alert::{question, response_views, say, AlertDialog, Body};
use crate::i18n::{plain, with_args, Message, MessageView};
use crate::scrub::SecretText;
use vstd::prelude::*;

verus! {

/// What the dialog answers.
pub enum PortableUnlockResponse {
    /// The connection is not started.
    Cancel,
    /// The passphrase that opens the file, for this session only.
    Unlocked { passphrase: SecretText },
}

/// How the trial of a passphrase came out.
pub enum VerifyOutcome {
    Opened,
    IncorrectPassphrase,
    /// The file could not be opened, with the reason.
    Failed(String),
    /// The worker panicked.
    Panicked,
}

/// Describes the dialog. A file without a readable name is called by the default one.
pub fn show_portable_unlock_dialog(file_name: Option<&str>) -> (r: AlertDialog)
    ensures
        r@ == question(
            plain("Portable credential file is locked"@),
            seq![
                say(
                    with_args(
                        "Enter the passphrase to unlock '{}'.\nThe passphrase will be kept in memory for this session only."@,
                        seq![
                            match file_name {
                                Some(name) => name@,
                                None => "credentials-portable.enc"@,
                            },
                        ],
                    ),
                ),
            ],
            ("cancel"@, "Cancel"@),
            ("unlock"@, "Unlock & Connect"@),
            false,
        ),
{
    let name = match file_name {
        Some(name) => name,
        None => "credentials-portable.enc",
    };
    AlertDialog::question(
        Message::plain("Portable credential file is locked"),
        Body::of(
            Message::with(
                "Enter the passphrase to unlock '{}'.\nThe passphrase will be kept in memory for this session only.",
                name,
            ),
        ),
        ("cancel", "Cancel"),
        ("unlock", "Unlock & Connect"),
        false,
    )
}

/// What the status line of an attempt says, `None` where the file opened.
pub open spec fn verify_message(outcome: VerifyOutcome) -> Option<MessageView> {
    match outcome {
        VerifyOutcome::Opened => None,
        VerifyOutcome::IncorrectPassphrase => Some(plain("Incorrect passphrase"@)),
        VerifyOutcome::Failed(e) => Some(with_args("Cannot open the file: {}"@, seq![e@])),
        VerifyOutcome::Panicked => Some(plain("Verification failed"@)),
    }
}

/// Translates the outcome of a trial: three failures, told apart.
pub fn verify_passphrase(outcome: &VerifyOutcome) -> (r: Result<(), Message>)
    ensures
        match r {
            Ok(()) => verify_message(*outcome) is None,
            Err(m) => verify_message(*outcome) == Some(m@),
        },
{
    match outcome {
        VerifyOutcome::Opened => Ok(()),
        VerifyOutcome::IncorrectPassphrase => Err(Message::plain("Incorrect passphrase")),
        VerifyOutcome::Failed(e) => Err(Message::with("Cannot open the file: {}", e)),
        VerifyOutcome::Panicked => Err(Message::plain("Verification failed")),
    }
}

/// The status line below the passphrase.
pub enum UnlockStatus {
    Hidden,
    /// A trial runs.
    Verifying(Message),
    /// A trial failed.
    Error(Message),
}

/// What an [`UnlockStatus`] says.
pub enum UnlockStatusView {
    Hidden,
    Verifying(MessageView),
    Error(MessageView),
}

impl View for UnlockStatus {
    type V = UnlockStatusView;

    open spec fn view(&self) -> UnlockStatusView {
        match self {
            UnlockStatus::Hidden => UnlockStatusView::Hidden,
            UnlockStatus::Verifying(m) => UnlockStatusView::Verifying(m@),
            UnlockStatus::Error(m) => UnlockStatusView::Error(m@),
        }
    }
}

/// The state of the dialog while it is used.
pub struct UnlockDialog {
    pub unlock_enabled: bool,
    pub cancel_enabled: bool,
    pub open: bool,
    /// Whether the caller still waits for an answer.
    pub waiting: bool,
    pub status: UnlockStatus,
}

/// What the program does after an event.
pub enum UnlockAction {
    Nothing,
    /// Try the passphrase on a worker.
    Verify(SecretText),
    /// Close the dialog, and hand the answer to the caller where there is one.
    Close(Option<PortableUnlockResponse>),
}

impl UnlockDialog {
    /// A dialog with an empty entry.
    pub fn new() -> (r: Self)
        ensures
            !r.unlock_enabled,
            r.cancel_enabled,
            r.open,
            r.waiting,
            r.status@ == UnlockStatusView::Hidden,
    {
        UnlockDialog {
            unlock_enabled: false,
            cancel_enabled: true,
            open: true,
            waiting: true,
            status: UnlockStatus::Hidden,
        }
    }

    /// The entry changed: it can be tried where it is not empty.
    pub fn passphrase_changed(&mut self, passphrase: &str)
        ensures
            final(self).unlock_enabled == (passphrase@.len() > 0),
            final(self).cancel_enabled == old(self).cancel_enabled,
            final(self).open == old(self).open,
            final(self).waiting == old(self).waiting,
            final(self).status == old(self).status,
    {
        self.unlock_enabled = !passphrase.is_empty();
    }

    /// Unlock was pressed: a passphrase that is not empty is tried, with both buttons off.
    pub fn unlock_pressed(&mut self, passphrase: &str) -> (r: UnlockAction)
        ensures
            passphrase@.len() == 0 ==> r is Nothing && *final(self) == *old(self),
            passphrase@.len() > 0 ==> {
                &&& r matches UnlockAction::Verify(p) && p@ == passphrase@
                &&& !final(self).unlock_enabled
                &&& !final(self).cancel_enabled
                &&& final(self).open == old(self).open
                &&& final(self).waiting == old(self).waiting
                &&& final(self).status@ == UnlockStatusView::Verifying(plain("Verifying…"@))
            },
    {
        if passphrase.is_empty() {
            return UnlockAction::Nothing;
        }
        self.status = UnlockStatus::Verifying(Message::plain("Verifying…"));
        self.unlock_enabled = false;
        self.cancel_enabled = false;
        UnlockAction::Verify(SecretText::new(passphrase))
    }

    /// A trial of `passphrase` ended. The file opened: the dialog closes and answers. It did not:
    /// the dialog stays and says why.
    pub fn verified(&mut self, passphrase: SecretText, outcome: &VerifyOutcome) -> (r: UnlockAction)
        ensures
            match verify_message(*outcome) {
                None => {
                    &&& !final(self).open
                    &&& !final(self).waiting
                    &&& final(self).status == old(self).status
                    &&& final(self).unlock_enabled == old(self).unlock_enabled
                    &&& final(self).cancel_enabled == old(self).cancel_enabled
                    &&& r == UnlockAction::Close(
                        if old(self).waiting {
                            Some(PortableUnlockResponse::Unlocked { passphrase })
                        } else {
                            None
                        },
                    )
                },
                Some(m) => {
                    &&& final(self).open == old(self).open
                    &&& final(self).waiting == old(self).waiting
                    &&& final(self).status@ == UnlockStatusView::Error(m)
                    &&& final(self).unlock_enabled
                    &&& final(self).cancel_enabled
                    &&& r is Nothing
                },
            },
    {
        match verify_passphrase(outcome) {
            Ok(()) => {
                let answer = if self.waiting {
                    Some(PortableUnlockResponse::Unlocked { passphrase })
                } else {
                    None
                };
                self.open = false;
                self.waiting = false;
                UnlockAction::Close(answer)
            },
            Err(message) => {
                self.status = UnlockStatus::Error(message);
                self.unlock_enabled = true;
                self.cancel_enabled = true;
                UnlockAction::Nothing
            },
        }
    }

    /// Cancel, Escape or the close button: the dialog closes.
    pub fn cancelled(&mut self) -> (r: UnlockAction)
        ensures
            !final(self).open,
            !final(self).waiting,
            final(self).status == old(self).status,
            final(self).unlock_enabled == old(self).unlock_enabled,
            final(self).cancel_enabled == old(self).cancel_enabled,
            r == UnlockAction::Close(
                if old(self).waiting {
                    Some(PortableUnlockResponse::Cancel)
                } else {
                    None
                },
            ),
    {
        let answer = if self.waiting {
            Some(PortableUnlockResponse::Cancel)
        } else {
            None
        };
        self.open = false;
        self.waiting = false;
        UnlockAction::Close(answer)
    }
}

/// Only a file that opened is unlocked, and each failure is told apart from the others.
pub proof fn law_only_an_opened_file_is_unlocked(outcome: &VerifyOutcome, r: Result<(), Message>)
    requires
        call_ensures(verify_passphrase, (outcome,), r),
    ensures
        r is Ok <==> outcome is Opened,
        outcome is IncorrectPassphrase ==> (r matches Err(m) && m@.msgid == "Incorrect passphrase"@
            && m@.args.len() == 0),
        outcome matches VerifyOutcome::Failed(e) ==> (r matches Err(m) && m@.msgid
            == "Cannot open the file: {}"@ && m@.args.len() == 1 && m@.args[0] == e@),
        outcome is Panicked ==> (r matches Err(m) && m@.msgid == "Verification failed"@
            && m@.args.len() == 0),
{
}

/// A trial says nothing exactly where the file opened; otherwise it says why.
pub proof fn law_failed_trial_says_why(outcome: VerifyOutcome)
    ensures
        verify_message(outcome) is None <==> outcome is Opened,
        outcome is IncorrectPassphrase ==> (verify_message(outcome) matches Some(m) && m.msgid
            == "Incorrect passphrase"@ && m.args.len() == 0),
        outcome matches VerifyOutcome::Failed(e) ==> (verify_message(outcome) matches Some(m)
            && m.msgid == "Cannot open the file: {}"@ && m.args.len() == 1 && m.args[0] == e@),
        outcome is Panicked ==> (verify_message(outcome) matches Some(m) && m.msgid
            == "Verification failed"@ && m.args.len() == 0),
{
}

/// The dialog names the file; Return and closing do not unlock it, and no answer closes the dialog
/// by itself, so that a wrong passphrase can be typed again.
pub proof fn law_unlock_dialog_stays_open(file_name: Option<&str>, d: AlertDialog)
    requires
        call_ensures(show_portable_unlock_dialog, (file_name,), d),
    ensures
        !d.can_close,
        d.responses@.len() == 2,
        d.responses@[0].id@ == "cancel"@,
        d.responses@[1].id@ == "unlock"@,
        d.default_response@ == "cancel"@,
        d.close_response@ == "cancel"@,
        d.suggested matches Some(s) && s@ == "unlock"@,
        d.body@.len() == 1,
        d.body@[0] is Message,
        d.body@[0]->Message_0.args.len() == 1,
        file_name matches Some(name) ==> d.body@[0]->Message_0.args[0] == name@,
        file_name is None ==> d.body@[0]->Message_0.args[0] == "credentials-portable.enc"@,
{
    assert(response_views(d.responses@).len() == d.responses@.len());
    assert(response_views(d.responses@)[0] == ("cancel"@, "Cancel"@));
    assert(response_views(d.responses@)[1] == ("unlock"@, "Unlock & Connect"@));
    assert(d@.suggested == Some("unlock"@));
}

} // verus!

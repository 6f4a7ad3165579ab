//! The dialog for a password whose backend cannot be read.

use crate::dialogs::alert::{question, response_views, say, AlertDialog, Body, PartView};
use crate::i18n::{with_args, Message};
use crate::text;
use vstd::prelude::*;

verus! {

/// What the user chose.
#[derive(Clone, Copy, Debug, PartialEq, Eq, Structural)]
pub enum BackendMissingResponse {
    /// Enter the password by hand, once.
    EnterManually,
    /// Open the settings.
    OpenSettings,
}

/// Describes the dialog, naming the backend that the connection expects its password in.
pub fn show_backend_missing_dialog(backend_name: &str) -> (r: AlertDialog)
    ensures
        r@ == question(
            with_args("Could not read the password from {}"@, seq![backend_name@]),
            seq![
                say(
                    with_args(
                        "This connection keeps its password in {}, which is not available right now — it may be locked, not logged in, or not set up on this computer. Open Settings, then Secrets, to check its status."@,
                        seq![backend_name@],
                    ),
                ),
            ],
            ("manual"@, "Enter Password Manually"@),
            ("settings"@, "Open Settings"@),
            true,
        ),
{
    AlertDialog::question(
        Message::with("Could not read the password from {}", backend_name),
        Body::of(
            Message::with(
                "This connection keeps its password in {}, which is not available right now — it may be locked, not logged in, or not set up on this computer. Open Settings, then Secrets, to check its status.",
                backend_name,
            ),
        ),
        ("manual", "Enter Password Manually"),
        ("settings", "Open Settings"),
        true,
    )
}

/// Reads the answer: anything but opening the settings means entering the password.
pub fn backend_missing_response(response: &str) -> (r: BackendMissingResponse)
    ensures
        r == (if response@ == "settings"@ {
            BackendMissingResponse::OpenSettings
        } else {
            BackendMissingResponse::EnterManually
        }),
{
    if text::same(response, "settings") {
        BackendMissingResponse::OpenSettings
    } else {
        BackendMissingResponse::EnterManually
    }
}

/// The password is entered by hand unless the settings are asked for.
pub proof fn law_only_the_settings_button_opens_the_settings(
    response: &str,
    r: BackendMissingResponse,
)
    requires
        call_ensures(backend_missing_response, (response,), r),
    ensures
        r is OpenSettings <==> response@ == "settings"@,
        r is EnterManually <==> response@ != "settings"@,
{
}

/// The dialog names the backend twice; its first button and closing it enter the password, its
/// second button opens the settings.
pub proof fn law_backend_missing_dialog_is_answered(
    backend_name: &str,
    d: AlertDialog,
    response: &str,
    r: BackendMissingResponse,
)
    requires
        call_ensures(show_backend_missing_dialog, (backend_name,), d),
        call_ensures(backend_missing_response, (response,), r),
    ensures
        d.heading@.msgid == "Could not read the password from {}"@,
        d.heading@.args.len() == 1 && d.heading@.args[0] == backend_name@,
        d.body@.len() == 1,
        d.body@[0] matches PartView::Message(m) && m.args.len() == 1 && m.args[0]
            == backend_name@,
        d.can_close,
        d.responses@.len() == 2,
        d.responses@[0].label@ == "Enter Password Manually"@,
        d.responses@[1].label@ == "Open Settings"@,
        d.suggested matches Some(s) && s@ == d.responses@[1].id@,
        response@ == d.responses@[0].id@ ==> r is EnterManually,
        response@ == d.default_response@ ==> r is EnterManually,
        response@ == d.close_response@ ==> r is EnterManually,
        response@ == d.responses@[1].id@ ==> r is OpenSettings,
{
    reveal_strlit("manual");
    reveal_strlit("settings");
    assert("manual"@.len() != "settings"@.len());
    assert(response_views(d.responses@).len() == d.responses@.len());
    assert(response_views(d.responses@)[0] == ("manual"@, "Enter Password Manually"@));
    assert(response_views(d.responses@)[1] == ("settings"@, "Open Settings"@));
    assert(d@.suggested == Some("settings"@));
}

} // verus!

//! What the system keyring answered.
//!
//! Every operation has a time limit, so that an unresponsive keyring service cannot block the
//! window. A keyring that does not answer cannot supply a secret.

use crate::scrub::SecretText;
use vstd::prelude::*;

verus! {

/// Time limit of a keyring operation, in seconds.
pub const KEYRING_SAVE_TIMEOUT_SECONDS: u64 = 5;

/// How a keyring operation ended.
pub enum KeyringOutcome<T> {
    Done(T),
    TimedOut,
    Failed,
    /// There was no runtime to run it on.
    NoRuntime,
}

/// The secret a lookup found; anything but an answer counts as not found.
pub fn lookup_in_keyring(outcome: KeyringOutcome<Option<SecretText>>) -> (r: Option<SecretText>)
    ensures
        r == (match outcome {
            KeyringOutcome::Done(found) => found,
            _ => None,
        }),
{
    match outcome {
        KeyringOutcome::Done(found) => found,
        _ => None,
    }
}

/// Whether a secret was saved.
pub fn saved_to_keyring(outcome: &KeyringOutcome<()>) -> (r: bool)
    ensures
        r == (outcome is Done),
{
    match outcome {
        KeyringOutcome::Done(_) => true,
        _ => false,
    }
}

/// Whether an entry was removed.
pub fn delete_from_keyring(outcome: &KeyringOutcome<()>) -> (r: bool)
    ensures
        r == (outcome is Done),
{
    match outcome {
        KeyringOutcome::Done(_) => true,
        _ => false,
    }
}

/// The entries kept in the keyring.
#[derive(Clone, Copy, Debug, PartialEq, Eq, Structural)]
pub enum KeyringEntry {
    BitwardenMasterPassword,
    BitwardenApiCredentials,
    OnePasswordToken,
    PassboltPassphrase,
    PortablePassphrase,
    KdbxPassword,
}

impl KeyringEntry {
    /// The name of the entry in the log.
    pub fn label(self) -> (r: &'static str)
        ensures
            r@ == (match self {
                KeyringEntry::BitwardenMasterPassword => "bitwarden-master-password"@,
                KeyringEntry::BitwardenApiCredentials => "bitwarden-api-credentials"@,
                KeyringEntry::OnePasswordToken => "onepassword-token"@,
                KeyringEntry::PassboltPassphrase => "passbolt-passphrase"@,
                KeyringEntry::PortablePassphrase => "portable-file-passphrase"@,
                KeyringEntry::KdbxPassword => "kdbx-password"@,
            }),
    {
        match self {
            KeyringEntry::BitwardenMasterPassword => "bitwarden-master-password",
            KeyringEntry::BitwardenApiCredentials => "bitwarden-api-credentials",
            KeyringEntry::OnePasswordToken => "onepassword-token",
            KeyringEntry::PassboltPassphrase => "passbolt-passphrase",
            KeyringEntry::PortablePassphrase => "portable-file-passphrase",
            KeyringEntry::KdbxPassword => "kdbx-password",
        }
    }
}

/// A secret is found, and an entry saved or removed, exactly where the keyring answered; a keyring that
/// did not is no source of secrets.
pub proof fn law_only_an_answer_counts(
    lookup: KeyringOutcome<Option<SecretText>>,
    found: Option<SecretText>,
    outcome: &KeyringOutcome<()>,
    saved: bool,
    deleted: bool,
)
    requires
        call_ensures(lookup_in_keyring, (lookup,), found),
        call_ensures(saved_to_keyring, (outcome,), saved),
        call_ensures(delete_from_keyring, (outcome,), deleted),
    ensures
        found matches Some(secret) ==> lookup == KeyringOutcome::Done(Some(secret)),
        lookup matches KeyringOutcome::Done(answer) ==> found == answer,
        saved <==> !(outcome is TimedOut || outcome is Failed || outcome is NoRuntime),
        deleted <==> saved,
{
}

} // verus!

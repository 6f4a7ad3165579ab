//! The places where passwords are kept.

use vstd::prelude::*;

pub mod clients;
pub mod detection;
pub mod keyring;

verus! {

/// A backend that stores secrets.
#[derive(Clone, Copy, Debug, PartialEq, Eq, Structural)]
pub enum SecretBackendType {
    KeePassXc,
    KdbxFile,
    LibSecret,
    MacOsKeychain,
    Bitwarden,
    OnePassword,
    Passbolt,
    Pass,
    EncryptedFile,
    PortableEncryptedFile,
}

} // verus!

//! What the dialogs say and what their buttons do.

pub mod alert;
pub mod backend_missing;
pub mod credential_transfer;
pub mod portable_migration;
pub mod portable_passphrase_change;
pub mod portable_unlock;

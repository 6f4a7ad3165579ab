//! Values that are overwritten in memory when they are no longer needed.

use secrecy::{ExposeSecret, SecretString};
use vstd::prelude::*;
use zeroize::{Zeroize, Zeroizing};

verus! {

/// Bytes that are overwritten when they are dropped: a `zeroize::Zeroizing<Vec<u8>>`.
#[verifier::external_body]
pub struct SecretBytes {
    inner: Zeroizing<Vec<u8>>,
}

/// The bytes that a [`SecretBytes`] holds.
pub uninterp spec fn held_bytes(b: SecretBytes) -> Seq<u8>;

impl View for SecretBytes {
    type V = Seq<u8>;

    open spec fn view(&self) -> Seq<u8> {
        held_bytes(*self)
    }
}

/// Takes bytes over.
///
/// Trusted: `zeroize::Zeroizing::new`, which moves the value inside and leaves it as it is. That
/// the memory is overwritten on drop is not part of the contract.
#[verifier::external_body]
pub(crate) fn guard_bytes(bytes: Vec<u8>) -> (r: SecretBytes)
    ensures
        held_bytes(r) == bytes@,
{
    SecretBytes { inner: Zeroizing::new(bytes) }
}

/// Lends the bytes.
///
/// Trusted: `<zeroize::Zeroizing<Vec<u8>> as Deref>::deref`, which hands out the value inside.
#[verifier::external_body]
fn lent_bytes(b: &SecretBytes) -> (r: &[u8])
    ensures
        r@ == held_bytes(*b),
{
    &b.inner
}

impl SecretBytes {
    /// Lends the bytes.
    pub fn as_slice(&self) -> (r: &[u8])
        ensures
            r@ == self@,
    {
        lent_bytes(self)
    }

    /// The number of bytes.
    pub fn len(&self) -> (r: usize)
        ensures
            r == self@.len(),
    {
        self.as_slice().len()
    }
}

/// A text that is overwritten when it is dropped: a `secrecy::SecretString`.
#[verifier::external_body]
pub struct SecretText {
    inner: SecretString,
}

/// The text that a [`SecretText`] holds.
pub uninterp spec fn held_text(t: SecretText) -> Seq<char>;

impl View for SecretText {
    type V = Seq<char>;

    open spec fn view(&self) -> Seq<char> {
        held_text(*self)
    }
}

/// Takes a text over.
///
/// Trusted: `<secrecy::SecretString as From<String>>::from`, which moves the text into a box and
/// leaves it as it is. That the memory is overwritten on drop is not part of the contract.
#[verifier::external_body]
fn guard_text(text: String) -> (r: SecretText)
    ensures
        held_text(r) == text@,
{
    SecretText { inner: SecretString::from(text) }
}

/// Lends the text.
///
/// Trusted: `<secrecy::SecretString as ExposeSecret<str>>::expose_secret`, which hands out the text
/// inside.
#[verifier::external_body]
fn lent_text(t: &SecretText) -> (r: &str)
    ensures
        r@ == held_text(*t),
{
    t.inner.expose_secret()
}

impl SecretText {
    /// Keeps a text secret.
    pub fn new(text: &str) -> (r: Self)
        ensures
            r@ == text@,
    {
        guard_text(text.to_owned())
    }

    /// Lends the text.
    pub fn expose(&self) -> (r: &str)
        ensures
            r@ == self@,
    {
        lent_text(self)
    }
}

/// The view of an optional secret.
pub open spec fn opt_secret_view(o: Option<SecretText>) -> Option<Seq<char>> {
    match o {
        Some(t) => Some(t@),
        None => None,
    }
}

/// Overwrites a text and empties it.
///
/// Trusted: `<String as zeroize::Zeroize>::zeroize`, which overwrites the buffer and sets the length
/// to zero. That the memory is overwritten is not part of the contract.
#[verifier::external_body]
pub(crate) fn scrub_text(s: &mut String)
    ensures
        final(s)@.len() == 0,
{
    s.zeroize();
}

} // verus!

//! Text that is erased from memory when it is no longer needed.

use vstd::prelude::*;
use zeroize::{Zeroize, Zeroizing};

verus! {

/// Secret text, held by `zeroize::Zeroizing<String>`: its memory is overwritten
/// when it is wiped and when it is dropped. That memory is overwritten is a
/// matter of the outside crate; what is claimed here is which text is held.
#[verifier::external_body]
pub struct SecretText {
    inner: Zeroizing<String>,
}

/// The characters that a secret holds.
pub uninterp spec fn secret_chars(secret: SecretText) -> Seq<char>;

impl View for SecretText {
    type V = Seq<char>;

    open spec fn view(&self) -> Seq<char> {
        secret_chars(*self)
    }
}

/// `zeroize::Zeroizing::new` takes the text over as it is.
#[verifier::external_body]
fn seal(text: String) -> (r: SecretText)
    ensures
        secret_chars(r) == text@,
{
    SecretText { inner: Zeroizing::new(text) }
}

/// `zeroize::Zeroizing` dereferences to the text that it holds.
#[verifier::external_body]
fn unseal(secret: &SecretText) -> (r: &str)
    ensures
        r@ == secret_chars(*secret),
{
    secret.inner.as_str()
}

/// `zeroize::Zeroizing::zeroize` overwrites the text and leaves it empty.
#[verifier::external_body]
fn erase(secret: &mut SecretText)
    ensures
        secret_chars(*final(secret)) == Seq::<char>::empty(),
{
    secret.inner.zeroize();
}

/// `zeroize::Zeroize` for `String` overwrites the text and leaves it empty.
#[verifier::external_body]
fn erase_text(text: &mut String)
    ensures
        final(text)@ == Seq::<char>::empty(),
{
    text.zeroize();
}

impl SecretText {
    pub fn new(text: String) -> (r: Self)
        ensures
            r@ == text@,
    {
        seal(text)
    }

    pub fn expose(&self) -> (r: &str)
        ensures
            r@ == self@,
    {
        unseal(self)
    }

    /// Another secret with the same text.
    pub fn duplicate(&self) -> (r: Self)
        ensures
            r@ == self@,
    {
        seal(unseal(self).to_owned())
    }

    pub fn is_empty(&self) -> (r: bool)
        ensures
            r == (self@.len() == 0),
    {
        unseal(self).is_empty()
    }

    /// Erases the text.
    pub fn wipe(&mut self)
        ensures
            final(self)@.len() == 0,
    {
        erase(self);
    }
}

/// Erases `text`.
pub fn wipe_text(text: &mut String)
    ensures
        final(text)@ == Seq::<char>::empty(),
{
    erase_text(text);
}

} // verus!

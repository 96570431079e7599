//! Secret texts, and how they are cleared from memory.

use vstd::prelude::*;
use vstd::utf8::*;

verus! {

/// `Zeroize::zeroize` for `String` (crate `zeroize`) overwrites the bytes of
/// the string and leaves it empty.  It does not panic.
#[verifier::external_body]
fn zeroize_text(text: &mut String)
    ensures
        final(text)@.len() == 0,
    opens_invariants none
    no_unwind
{
    zeroize::Zeroize::zeroize(text)
}

/// `Zeroize::zeroize` for `Vec<u8>` (crate `zeroize`) overwrites the elements
/// of the vector and leaves it empty.
#[verifier::external_body]
fn zeroize_bytes(bytes: &mut Vec<u8>)
    ensures
        final(bytes)@.len() == 0,
{
    zeroize::Zeroize::zeroize(bytes)
}

/// `std::str::from_utf8` succeeds on valid UTF-8 only, and then gives the text
/// that the bytes encode.
#[verifier::external_body]
fn decode_text(bytes: &[u8]) -> (r: Option<String>)
    ensures
        r is Some <==> valid_utf8(bytes@),
        r matches Some(text) ==> text@ == decode_utf8(bytes@),
{
    std::str::from_utf8(bytes).ok().map(|text| text.to_owned())
}

/// A passphrase, or the text of a decrypted key.  It is cleared from memory when
/// it is dropped, and it has no debug rendering, so it cannot end up in a log
/// line or a panic message.
pub struct Secret {
    text: String,
}

impl View for Secret {
    type V = Seq<char>;

    closed spec fn view(&self) -> Seq<char> {
        self.text@
    }
}

/// The text of an optional secret.
pub open spec fn secret_text(secret: Option<Secret>) -> Option<Seq<char>> {
    match secret {
        Some(secret) => Some(secret@),
        None => None,
    }
}

impl Drop for Secret {
    /// Overwrites the text and leaves it empty.
    fn drop(&mut self)
        ensures
            final(self)@.len() == 0,
        opens_invariants none
        no_unwind
    {
        zeroize_text(&mut self.text);
    }
}

impl Secret {
    /// A secret of the given text.
    pub fn new(text: String) -> (r: Secret)
        ensures
            r@ == text@,
    {
        Secret { text }
    }

    /// Reads a passphrase out of a keystore buffer and clears the buffer.  A
    /// passphrase is UTF-8: any other content gives `None`.
    pub fn from_buffer(bytes: &mut Vec<u8>) -> (r: Option<Secret>)
        ensures
            final(bytes)@.len() == 0,
            r is Some <==> valid_utf8(old(bytes)@),
            r matches Some(secret) ==> secret@ == decode_utf8(old(bytes)@),
    {
        let text: Option<String> = decode_text(bytes.as_slice());
        zeroize_bytes(bytes);
        match text {
            Some(text) => Some(Secret::new(text)),
            None => None,
        }
    }

    /// The text of the secret.
    pub fn as_str(&self) -> (r: &str)
        ensures
            r@ == self@,
    {
        self.text.as_str()
    }
}

/// A secret gives back the text that it was made of.
pub proof fn secrets_keep_their_text(text: String, secret: Secret, r: &str)
    requires
        call_ensures(Secret::new, (text,), secret),
        call_ensures(Secret::as_str, (&secret,), r),
    ensures
        r@ == text@,
{
}

} // verus!

//! SSH keys, carried as the OpenSSH text they were read from.
//!
//! The parser, the fingerprint and the decryption are those of the crates
//! `ssh_key` and `anvil_ssh`.  What they return for a text is a function of
//! that text, and the names below stand for it.

use vstd::prelude::*;

use crate::secret::Secret;

verus! {

/// Why `ssh_key::PrivateKey::from_openssh` rejects a text, or `None` where it
/// accepts it.
pub uninterp spec fn private_key_failure(pem: Seq<char>) -> Option<Seq<char>>;

/// What `ssh_key::PrivateKey::is_encrypted` says of the key in a text.
pub uninterp spec fn private_key_encrypted(pem: Seq<char>) -> bool;

/// The SHA-256 fingerprint that `ssh_key::PublicKey::fingerprint` gives for the
/// public half of the private key in a text.
pub uninterp spec fn private_key_fingerprint(pem: Seq<char>) -> Seq<char>;

/// What `ssh_key::PrivateKey::decrypt` gives for the key in a text and a
/// passphrase: the OpenSSH text of the decrypted key, or why it failed.  A key
/// that is too long for the text to be read back counts as a failure.
pub uninterp spec fn private_key_decryption(pem: Seq<char>, passphrase: Seq<char>) -> Result<
    Seq<char>,
    Seq<char>,
>;

/// Why `ssh_key::PublicKey::from_openssh` rejects a text, or `None` where it
/// accepts it.
pub uninterp spec fn public_key_failure(text: Seq<char>) -> Option<Seq<char>>;

/// What `ssh_key::PublicKey::to_openssh` gives for the public key in a text,
/// with a comment: its OpenSSH line, or why it failed.
pub uninterp spec fn public_key_line(text: Seq<char>, comment: Seq<char>) -> Result<
    Seq<char>,
    Seq<char>,
>;

/// The fingerprint that `anvil_ssh::keygen::fingerprint` gives for the public
/// key in a text, by SHA-512 or by SHA-256.
pub uninterp spec fn public_key_fingerprint(text: Seq<char>, sha512: bool) -> Seq<char>;

/// The algorithm name that `ssh_key::PublicKey::algorithm` gives for the public
/// key in a text.
pub uninterp spec fn public_key_algorithm(text: Seq<char>) -> Seq<char>;

/// `ssh_key::PrivateKey::from_openssh` parses a private key; a failure is
/// rendered as its message.
#[verifier::external_body]
fn parse_private_key(pem: &str) -> (r: Option<String>)
    ensures
        optional_text(r) == private_key_failure(pem@),
{
    ssh_key::PrivateKey::from_openssh(pem).err().map(|e| e.to_string())
}

/// `ssh_key::PrivateKey::is_encrypted` tells whether the key needs a
/// passphrase.
#[verifier::external_body]
fn encrypted_of(pem: &str) -> (r: bool)
    requires
        private_key_failure(pem@) is None,
    ensures
        r == private_key_encrypted(pem@),
{
    ssh_key::PrivateKey::from_openssh(pem).map(|key| key.is_encrypted()).unwrap_or_default()
}

/// `ssh_key::PublicKey::fingerprint` by SHA-256, of the public half of a
/// private key.
#[verifier::external_body]
fn private_fingerprint_of(pem: &str) -> (r: String)
    requires
        private_key_failure(pem@) is None,
    ensures
        r@ == private_key_fingerprint(pem@),
{
    ssh_key::PrivateKey::from_openssh(pem)
        .map(|key| key.public_key().fingerprint(ssh_key::HashAlg::Sha256).to_string())
        .unwrap_or_default()
}

/// `ssh_key::PrivateKey::decrypt` tries a passphrase on a private key.  The
/// decrypted key comes back as OpenSSH text that `from_openssh` reads back, a
/// failure as its message.  The decrypted key needs no passphrase, and it has
/// the public half of the encrypted one.
#[verifier::external_body]
fn decryption_of(pem: &str, passphrase: &str) -> (r: Result<String, String>)
    requires
        private_key_failure(pem@) is None,
    ensures
        result_text(r) == private_key_decryption(pem@, passphrase@),
        r matches Ok(plain) ==> {
            &&& private_key_failure(plain@) is None
            &&& !private_key_encrypted(plain@)
            &&& private_key_fingerprint(plain@) == private_key_fingerprint(pem@)
        },
{
    ssh_key::PrivateKey::from_openssh(pem)
        .and_then(|key| key.decrypt(passphrase.as_bytes()))
        .and_then(|key| key.to_openssh(ssh_key::LineEnding::LF))
        .and_then(|text| ssh_key::PrivateKey::from_openssh(text.as_str()).map(|_| text))
        .map(|text| text.to_string())
        .map_err(|e| e.to_string())
}

/// `ssh_key::PublicKey::from_openssh` parses a public key; a failure is
/// rendered as its message.
#[verifier::external_body]
fn parse_public_key(text: &str) -> (r: Option<String>)
    ensures
        optional_text(r) == public_key_failure(text@),
{
    ssh_key::PublicKey::from_openssh(text).err().map(|e| e.to_string())
}

/// `ssh_key::PublicKey::to_openssh` writes a public key and its comment as one
/// line.
#[verifier::external_body]
fn public_line_of(text: &str, comment: &str) -> (r: Result<String, String>)
    requires
        public_key_failure(text@) is None,
    ensures
        result_text(r) == public_key_line(text@, comment@),
{
    let parsed = ssh_key::PublicKey::from_openssh(text);
    parsed
        .map(|key| ssh_key::PublicKey::new(key.key_data().clone(), comment))
        .and_then(|key| key.to_openssh())
        .map_err(|e| e.to_string())
}

/// `anvil_ssh::keygen::fingerprint` renders the fingerprint of a public key.
#[verifier::external_body]
fn public_fingerprint_of(text: &str, hash: HashAlg) -> (r: String)
    requires
        public_key_failure(text@) is None,
    ensures
        r@ == public_key_fingerprint(text@, hash == HashAlg::Sha512),
{
    let hash = match hash {
        HashAlg::Sha256 => ssh_key::HashAlg::Sha256,
        HashAlg::Sha512 => ssh_key::HashAlg::Sha512,
    };
    ssh_key::PublicKey::from_openssh(text)
        .map(|key| anvil_ssh::keygen::fingerprint(&key, hash))
        .unwrap_or_default()
}

/// `ssh_key::PublicKey::algorithm` names the algorithm of a public key.
#[verifier::external_body]
fn algorithm_of(text: &str) -> (r: String)
    requires
        public_key_failure(text@) is None,
    ensures
        r@ == public_key_algorithm(text@),
{
    ssh_key::PublicKey::from_openssh(text)
        .map(|key| key.algorithm().as_str().to_owned())
        .unwrap_or_default()
}

/// The characters of an optional text.
pub open spec fn optional_text(text: Option<String>) -> Option<Seq<char>> {
    match text {
        Some(text) => Some(text@),
        None => None,
    }
}

/// The characters of a text or of a failure message.
pub open spec fn result_text(r: Result<String, String>) -> Result<Seq<char>, Seq<char>> {
    match r {
        Ok(text) => Ok(text@),
        Err(message) => Err(message@),
    }
}

/// The hash of a displayed fingerprint.
#[derive(Debug, Clone, Copy, PartialEq, Eq, Structural)]
pub enum HashAlg {
    /// SHA-256, the default.
    Sha256,
    /// SHA-512.
    Sha512,
}

/// A private key in OpenSSH format, encrypted or not.
pub struct PrivateKey {
    text: String,
}

impl View for PrivateKey {
    type V = Seq<char>;

    closed spec fn view(&self) -> Seq<char> {
        self.text@
    }
}

impl PrivateKey {
    #[verifier::type_invariant]
    spec fn parses(self) -> bool {
        private_key_failure(self.text@) is None
    }

    /// Parses an OpenSSH private key.  The error is the parser's message.
    pub fn from_openssh(pem: &str) -> (r: Result<PrivateKey, String>)
        ensures
            match r {
                Ok(key) => key@ == pem@ && private_key_failure(pem@) is None,
                Err(message) => private_key_failure(pem@) == Some(message@),
            },
    {
        match parse_private_key(pem) {
            Some(message) => Err(message),
            None => Ok(PrivateKey { text: pem.to_owned() }),
        }
    }

    /// Whether a passphrase is needed to use the key.
    pub fn is_encrypted(&self) -> (r: bool)
        ensures
            r == private_key_encrypted(self@),
    {
        proof {
            use_type_invariant(self);
        }
        encrypted_of(self.text.as_str())
    }

    /// The `SHA256:...` fingerprint of the public half, which is in the clear
    /// even where the key is encrypted.
    pub fn fingerprint(&self) -> (r: String)
        ensures
            r@ == private_key_fingerprint(self@),
    {
        proof {
            use_type_invariant(self);
        }
        private_fingerprint_of(self.text.as_str())
    }

    /// Tries a passphrase: the text of the decrypted key, or why it failed.  The
    /// text is that of a key which needs no passphrase and has the fingerprint of
    /// the encrypted one.
    pub fn decrypt(&self, passphrase: &Secret) -> (r: Result<Secret, String>)
        ensures
            match r {
                Ok(plain) => private_key_decryption(self@, passphrase@) == Ok::<Seq<char>, Seq<char>>(
                    plain@,
                ),
                Err(message) => private_key_decryption(self@, passphrase@) == Err::<
                    Seq<char>,
                    Seq<char>,
                >(message@),
            },
            r matches Ok(plain) ==> {
                &&& private_key_failure(plain@) is None
                &&& !private_key_encrypted(plain@)
                &&& private_key_fingerprint(plain@) == private_key_fingerprint(self@)
            },
    {
        proof {
            use_type_invariant(self);
        }
        match decryption_of(self.text.as_str(), passphrase.as_str()) {
            Ok(plain) => Ok(Secret::new(plain)),
            Err(message) => Err(message),
        }
    }

    /// The text that the key was read from.
    pub fn as_str(&self) -> (r: &str)
        ensures
            r@ == self@,
    {
        self.text.as_str()
    }
}

/// A public key in OpenSSH format.
pub struct PublicKey {
    text: String,
}

impl View for PublicKey {
    type V = Seq<char>;

    closed spec fn view(&self) -> Seq<char> {
        self.text@
    }
}

impl PublicKey {
    #[verifier::type_invariant]
    spec fn parses(self) -> bool {
        public_key_failure(self.text@) is None
    }

    /// Parses an OpenSSH public key.  The error is the parser's message.
    pub fn from_openssh(text: &str) -> (r: Result<PublicKey, String>)
        ensures
            match r {
                Ok(key) => key@ == text@ && public_key_failure(text@) is None,
                Err(message) => public_key_failure(text@) == Some(message@),
            },
    {
        match parse_public_key(text) {
            Some(message) => Err(message),
            None => Ok(PublicKey { text: text.to_owned() }),
        }
    }

    /// The key and a comment as one OpenSSH line, or why it cannot be written.
    pub fn to_openssh(&self, comment: &str) -> (r: Result<String, String>)
        ensures
            result_text(r) == public_key_line(self@, comment@),
    {
        proof {
            use_type_invariant(self);
        }
        public_line_of(self.text.as_str(), comment)
    }

    /// The fingerprint of the key by the given hash.
    pub fn fingerprint(&self, hash: HashAlg) -> (r: String)
        ensures
            r@ == public_key_fingerprint(self@, hash == HashAlg::Sha512),
    {
        proof {
            use_type_invariant(self);
        }
        public_fingerprint_of(self.text.as_str(), hash)
    }

    /// The name of the key's algorithm, as in `ssh-ed25519`.
    pub fn algorithm(&self) -> (r: String)
        ensures
            r@ == public_key_algorithm(self@),
    {
        proof {
            use_type_invariant(self);
        }
        algorithm_of(self.text.as_str())
    }

    /// The text that the key was read from.
    pub fn as_str(&self) -> (r: &str)
        ensures
            r@ == self@,
    {
        self.text.as_str()
    }
}

/// A key is the text that it was read from, and only a text that the parser takes
/// is a key.
pub proof fn keys_are_what_they_were_read_from(
    pem: &str,
    key: PrivateKey,
    text: &str,
    line: &str,
    public: PublicKey,
    public_text: &str,
)
    requires
        call_ensures(PrivateKey::from_openssh, (pem,), Ok::<PrivateKey, String>(key)),
        call_ensures(PrivateKey::as_str, (&key,), text),
        call_ensures(PublicKey::from_openssh, (line,), Ok::<PublicKey, String>(public)),
        call_ensures(PublicKey::as_str, (&public,), public_text),
    ensures
        text@ == pem@,
        private_key_failure(pem@) is None,
        public_text@ == line@,
        public_key_failure(line@) is None,
{
}

} // verus!

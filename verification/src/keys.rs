//! Key and signature material as plain values, and the calls into the
//! `ssh-key` crate that produce and check it.

use vstd::prelude::*;

verus! {

/// Signature algorithm of a proof, as far as the service tells them apart.
#[derive(Clone, Copy, Debug, PartialEq, Eq, Structural)]
pub enum Algorithm {
    Ed25519,
    Other,
}

/// A parsed public key. Every key that is not Ed25519 is `Other`: the service
/// rejects them all alike and never stores one.
#[derive(Debug)]
pub enum KeyMaterial {
    /// The raw Ed25519 public key bytes.
    Ed25519(Vec<u8>),
    Other,
}

/// Mathematical value of a [`KeyMaterial`].
pub ghost enum KeyView {
    Ed25519(Seq<u8>),
    Other,
}

impl View for KeyMaterial {
    type V = KeyView;

    open spec fn view(&self) -> KeyView {
        match self {
            KeyMaterial::Ed25519(bytes) => KeyView::Ed25519(bytes@),
            KeyMaterial::Other => KeyView::Other,
        }
    }
}

/// A parsed detached signature: what a login attempt presents.
#[derive(Debug)]
pub struct Proof {
    /// Algorithm of the signature itself.
    pub algorithm: Algorithm,
    /// Public key that the envelope claims to have signed with.
    pub public_key: KeyMaterial,
    /// Raw signature bytes.
    pub signature: Vec<u8>,
}

/// Mathematical value of a [`Proof`].
pub ghost struct ProofView {
    pub algorithm: Algorithm,
    pub public_key: KeyView,
    pub signature: Seq<u8>,
}

impl View for Proof {
    type V = ProofView;

    open spec fn view(&self) -> ProofView {
        ProofView {
            algorithm: self.algorithm,
            public_key: self.public_key@,
            signature: self.signature@,
        }
    }
}

/// Value of an optional key.
pub open spec fn key_option_view(key: Option<KeyMaterial>) -> Option<KeyView> {
    match key {
        Some(k) => Some(k@),
        None => None,
    }
}

/// Value of an optional proof.
pub open spec fn proof_option_view(parsed: Option<Proof>) -> Option<ProofView> {
    match parsed {
        Some(p) => Some(p@),
        None => None,
    }
}

/// What `ssh_key::PublicKey::from_openssh` makes of a line of text: `None`
/// where it reports an error, else the key it decoded.
pub uninterp spec fn openssh_public_key(text: Seq<char>) -> Option<KeyView>;

/// What `ssh_key::SshSig::from_pem` makes of a PEM envelope: `None` where it
/// reports an error, else the fields of the signature it decoded.
pub uninterp spec fn sshsig_envelope(text: Seq<char>) -> Option<ProofView>;

/// Whether `ssh_key::PublicKey::verify` accepts the signature in `envelope`
/// for the Ed25519 key `key`, the namespace and the message.
pub uninterp spec fn sshsig_verifies(
    key: Seq<u8>,
    namespace: Seq<char>,
    message: Seq<u8>,
    envelope: Seq<char>,
) -> bool;

/// Trusted: calls `ssh_key::PublicKey::from_openssh` and copies the decoded
/// key out. The result is the named value of the text; nothing is claimed about
/// which texts decode.
#[verifier::external_body]
pub(crate) fn parse_public_key(text: &str) -> (key: Option<KeyMaterial>)
    ensures
        key_option_view(key) == openssh_public_key(text@),
{
    match ssh_key::PublicKey::from_openssh(text) {
        Ok(public_key) => Some(match public_key.key_data() {
            ssh_key::public::KeyData::Ed25519(k) => KeyMaterial::Ed25519(k.0.to_vec()),
            _ => KeyMaterial::Other,
        }),
        Err(_) => None,
    }
}

/// Trusted: calls `ssh_key::SshSig::from_pem` and copies the signature's
/// algorithm, embedded public key and raw bytes out. The result is the named
/// value of the text; nothing is claimed about which texts decode.
#[verifier::external_body]
pub(crate) fn parse_proof(text: &str) -> (parsed: Option<Proof>)
    ensures
        proof_option_view(parsed) == sshsig_envelope(text@),
{
    match ssh_key::SshSig::from_pem(text) {
        Ok(sig) => Some(Proof {
            algorithm: match sig.algorithm() {
                ssh_key::Algorithm::Ed25519 => Algorithm::Ed25519,
                _ => Algorithm::Other,
            },
            public_key: match sig.public_key() {
                ssh_key::public::KeyData::Ed25519(k) => KeyMaterial::Ed25519(k.0.to_vec()),
                _ => KeyMaterial::Other,
            },
            signature: sig.signature_bytes().to_vec(),
        }),
        Err(_) => None,
    }
}

/// Trusted: calls `ssh_key::PublicKey::verify` on the Ed25519 key made of
/// `key` and on the signature that `ssh_key::SshSig::from_pem` decodes from
/// `envelope`. The answer is `true` exactly where that call returns `Ok`; a
/// key of the wrong length or an envelope that does not decode gives `false`.
/// Which signatures verify is not stated: the result only has a name.
#[verifier::external_body]
pub(crate) fn verify_signature(
    key: &Vec<u8>,
    namespace: &str,
    message: &Vec<u8>,
    envelope: &str,
) -> (ok: bool)
    ensures
        ok == sshsig_verifies(key@, namespace@, message@, envelope@),
{
    let Ok(raw) = <[u8; 32]>::try_from(key.as_slice()) else { return false };
    let Ok(sig) = ssh_key::SshSig::from_pem(envelope) else { return false };
    let data = ssh_key::public::KeyData::Ed25519(ssh_key::public::Ed25519PublicKey(raw));
    ssh_key::PublicKey::from(data).verify(namespace, message, &sig).is_ok()
}

/// Byte-wise equality of two byte strings.
pub fn bytes_equal(a: &Vec<u8>, b: &Vec<u8>) -> (same: bool)
    ensures
        same == (a@ == b@),
{
    if a.len() != b.len() {
        return false;
    }
    let mut i: usize = 0;
    while i < a.len()
        invariant
            i <= a.len(),
            a.len() == b.len(),
            forall|j: int| 0 <= j < i ==> a@[j] == b@[j],
        decreases a.len() - i,
    {
        if a[i] != b[i] {
            return false;
        }
        i += 1;
    }
    assert(a@ =~= b@);
    true
}

impl KeyMaterial {
    /// Whether two keys are the same Ed25519 key. A key that is not Ed25519
    /// equals nothing, itself included: no such key is ever bound.
    pub fn same_key(&self, other: &KeyMaterial) -> (same: bool)
        ensures
            same == (self@ is Ed25519 && self@ == other@),
    {
        match self {
            KeyMaterial::Ed25519(a) => match other {
                KeyMaterial::Ed25519(b) => bytes_equal(a, b),
                KeyMaterial::Other => false,
            },
            KeyMaterial::Other => false,
        }
    }

    /// Whether the key is an Ed25519 key.
    pub fn is_ed25519(&self) -> (yes: bool)
        ensures
            yes == (self@ is Ed25519),
    {
        match self {
            KeyMaterial::Ed25519(_) => true,
            KeyMaterial::Other => false,
        }
    }

    /// A copy of the key.
    pub fn duplicate(&self) -> (copy: KeyMaterial)
        ensures
            copy@ == self@,
    {
        match self {
            KeyMaterial::Ed25519(bytes) => KeyMaterial::Ed25519(bytes.clone()),
            KeyMaterial::Other => KeyMaterial::Other,
        }
    }
}

} // verus!

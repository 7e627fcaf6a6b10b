//! Certificates, and how a keyring is read into them.

use pgp::errors::Error as PgpError;
use pgp::ser::Serialize;
use pgp::{Deserializable, SignedPublicKey};
use vstd::prelude::*;

verus! {

/// An OpenPGP certificate, as far as the export reads it.
#[derive(Debug, PartialEq, Eq)]
pub struct Certificate {
    /// The user identities, in the order in which the certificate lists them.
    pub user_ids: Vec<String>,
    /// The canonical binary encoding of the whole certificate.
    pub encoding: Vec<u8>,
}

/// What a [`Certificate`] stands for.
#[verifier::ext_equal]
pub struct CertificateView {
    /// The user identities, in order.
    pub user_ids: Seq<Seq<char>>,
    /// The canonical binary encoding.
    pub encoding: Seq<u8>,
}

impl View for Certificate {
    type V = CertificateView;

    open spec fn view(&self) -> CertificateView {
        CertificateView { user_ids: self.user_ids.deep_view(), encoding: self.encoding@ }
    }
}

impl DeepView for Certificate {
    type V = CertificateView;

    open spec fn deep_view(&self) -> CertificateView {
        self@
    }
}

/// What reading a keyring gives.
#[verifier::ext_equal]
pub struct KeyringView {
    /// The certificates, in order, up to the end of the keyring or to the
    /// first one that cannot be decoded, or encoded again.
    pub certificates: Seq<CertificateView>,
    /// Whether the end of the keyring was reached.
    pub complete: bool,
}

/// What reading a keyring, in binary or ASCII-armored form, gives.
pub uninterp spec fn keyring_contents(keyring: Seq<u8>) -> KeyringView;

/// `SignedPublicKey::from_reader_many` of the `pgp` crate on a keyring in
/// binary or ASCII-armored form, walked up to its end or to the first
/// failure. Each key is handed out as its user identities (`id` of each
/// signed user, as text) and its encoding (`to_bytes`); a key that cannot
/// be encoded ends the walk as one that cannot be decoded does. What comes
/// out is a function of the keyring's bytes, and an error comes with it
/// exactly where the walk ended before the keyring did.
#[verifier::external_body]
pub(crate) fn read_keyring(keyring: &[u8]) -> (read: (Vec<Certificate>, Option<PgpError>))
    ensures
        (KeyringView { certificates: read.0.deep_view(), complete: read.1 is None })
            == keyring_contents(keyring@),
{
    let mut certificates = Vec::new();
    let failure = SignedPublicKey::from_reader_many(keyring).and_then(|(mut keys, _)|
        keys.try_for_each(|key| {
            let key = key?;
            let user_ids = key.details.users.iter().map(|user| user.id.id().to_string()).collect();
            certificates.push(Certificate { user_ids, encoding: key.to_bytes()? });
            Ok(())
        })
    );
    (certificates, failure.err())
}

} // verus!

//! The identity mapper: from a user identity to the domain and the hashed
//! local part under which a Web Key Directory files its certificate.

use std::str::FromStr;
use email_address::EmailAddress;
use sha1::{Digest, Sha1};
use vstd::prelude::*;
use vstd::string::StringSliceAdditionalSpecFns;
use vstd::utf8::encode_utf8;
use crate::keyring::Certificate;
use crate::options::{Options, OptionsView};

verus! {

/// The lowercase equivalent of a text, as the Unicode Derived Core Property
/// `Lowercase` defines it.
pub uninterp spec fn lowercase(text: Seq<char>) -> Seq<char>;

/// `str::to_lowercase` of the standard library: the result is the lowercase
/// equivalent of the text and depends on nothing else.
pub assume_specification[ str::to_lowercase ](text: &str) -> (lower: String)
    ensures
        lower@ == lowercase(text@),
;

/// The SHA-1 digest of a byte string.
pub uninterp spec fn sha1_digest(data: Seq<u8>) -> Seq<u8>;

/// `Sha1::new`, `update` and `finalize` of the `sha1` crate, on one message:
/// the twenty bytes that come out are the SHA-1 digest of `data`.
#[verifier::external_body]
fn sha1(data: &[u8]) -> (digest: [u8; 20])
    ensures
        digest@ == sha1_digest(data@),
{
    let mut hasher = Sha1::new();
    hasher.update(data);
    hasher.finalize().into()
}

/// The z-base-32 encoding of a byte string.
pub uninterp spec fn zbase32_encode(data: Seq<u8>) -> Seq<char>;

/// `zbase32::encode` of the `z-base-32` crate, on a digest of twenty bytes:
/// the text that comes out is the z-base-32 encoding of `data`.
#[verifier::external_body]
fn zbase32(data: &[u8; 20]) -> (text: String)
    ensures
        text@ == zbase32_encode(data@),
{
    zbase32::encode(data)
}

/// The local part and the domain of the e-mail address that a text holds,
/// or `None` where it holds no valid address.
pub uninterp spec fn email_parts(text: Seq<char>) -> Option<(Seq<char>, Seq<char>)>;

/// `EmailAddress::from_str` of the `email_address` crate, with `local_part`
/// and `domain` of the address it accepts: the outcome is a function of the
/// text. A text that the crate rejects gives `None`.
#[verifier::external_body]
fn parse_email(text: &str) -> (parts: Option<(String, String)>)
    ensures
        parts.deep_view() == email_parts(text@),
{
    match EmailAddress::from_str(text) {
        Ok(email) => Some((email.local_part().to_owned(), email.domain().to_owned())),
        Err(_) => None,
    }
}

/// The file name of a local part: the z-base-32 encoding of the SHA-1
/// digest of the UTF-8 bytes of its lowercase form.
pub open spec fn local_part_hash(local_part: Seq<char>) -> Seq<char> {
    zbase32_encode(sha1_digest(encode_utf8(lowercase(local_part))))
}

/// Where an identity is filed: the hashed local part and the domain of its
/// e-mail address. `None` where the identity holds no valid address or the
/// options do not allow its domain. The domain is taken as it is written.
pub open spec fn identity_entry(user_id: Seq<char>, options: OptionsView) -> Option<
    (Seq<char>, Seq<char>),
> {
    match email_parts(user_id) {
        Some((local_part, domain)) => if options.allows(domain) {
            Some((local_part_hash(local_part), domain))
        } else {
            None
        },
        None => None,
    }
}

/// The entries of a list of identities, in order: one for each identity
/// that has an entry, none for the others.
pub open spec fn identity_entries(user_ids: Seq<Seq<char>>, options: OptionsView) -> Seq<
    (Seq<char>, Seq<char>),
>
    decreases user_ids.len(),
{
    if user_ids.len() == 0 {
        Seq::empty()
    } else {
        let before = identity_entries(user_ids.drop_last(), options);
        match identity_entry(user_ids.last(), options) {
            Some(entry) => before.push(entry),
            None => before,
        }
    }
}

/// Hashes the local part of an e-mail address into its file name.
pub fn hashed_local(local_part: &str) -> (hashed: String)
    ensures
        hashed@ == local_part_hash(local_part@),
{
    let lower = local_part.to_lowercase();
    let digest = sha1(lower.as_str().as_bytes());
    zbase32(&digest)
}

/// Maps one user identity to its entry: the hashed local part and the
/// domain, where the identity holds a valid e-mail address of an allowed
/// domain.
pub fn map_identity(user_id: &str, options: &Options) -> (entry: Option<(String, String)>)
    ensures
        entry.deep_view() == identity_entry(user_id@, options@),
{
    match parse_email(user_id) {
        Some((local_part, domain)) => {
            if options.is_domain_allowed(domain.as_str()) {
                Some((hashed_local(local_part.as_str()), domain))
            } else {
                None
            }
        },
        None => None,
    }
}

/// Maps the identities of a certificate to their entries, in order. An
/// identity without a valid e-mail address, or of a domain that is not
/// allowed, contributes nothing.
pub fn map_identities(certificate: &Certificate, options: &Options) -> (entries: Vec<
    (String, String),
>)
    ensures
        entries.deep_view() == identity_entries(certificate@.user_ids, options@),
{
    let mut entries: Vec<(String, String)> = Vec::new();
    let mut i: usize = 0;
    while i < certificate.user_ids.len()
        invariant
            i <= certificate.user_ids.len(),
            entries.deep_view() == identity_entries(
                certificate@.user_ids.take(i as int),
                options@,
            ),
        decreases certificate.user_ids.len() - i,
    {
        proof {
            let next = certificate@.user_ids.take(i + 1);
            assert(next.drop_last() =~= certificate@.user_ids.take(i as int));
        }
        match map_identity(certificate.user_ids[i].as_str(), options) {
            Some(entry) => entries.push(entry),
            None => {},
        }
        i += 1;
    }
    assert(certificate@.user_ids.take(i as int) =~= certificate@.user_ids);
    entries
}

} // verus!

//! The export: every certificate of a keyring, every identity of each
//! certificate, in the order of the keyring.

use vstd::prelude::*;
use crate::error::Error;
use crate::identity::{identity_entries, map_identities};
use crate::keyring::{keyring_contents, read_keyring, Certificate, CertificateView};
use crate::options::{Options, OptionsView};
use crate::writer::{entries_steps, root_dir, root_directory, write_entries, Step, StepView};

verus! {

/// The steps that publish one certificate: those of the entries of its
/// identities.
pub open spec fn certificate_steps(certificate: CertificateView, options: OptionsView) -> Seq<
    StepView,
> {
    entries_steps(
        identity_entries(certificate.user_ids, options),
        certificate.encoding,
        options,
    )
}

/// The steps of a list of certificates, certificate after certificate.
pub open spec fn certificates_steps(
    certificates: Seq<CertificateView>,
    options: OptionsView,
) -> Seq<StepView>
    decreases certificates.len(),
{
    if certificates.len() == 0 {
        Seq::empty()
    } else {
        certificates_steps(certificates.drop_last(), options) + certificate_steps(
            certificates.last(),
            options,
        )
    }
}

/// The steps of a whole export: make the root directory, then publish the
/// certificates.
pub open spec fn export_steps(certificates: Seq<CertificateView>, options: OptionsView) -> Seq<
    StepView,
> {
    seq![StepView::CreateDir { path: root_dir() }] + certificates_steps(certificates, options)
}

/// What an export asks of the file system, and how reading the keyring
/// ended.
#[derive(Debug)]
pub struct Plan {
    /// The steps to perform, in order, until one of them fails.
    pub steps: Vec<Step>,
    /// Why the keyring could not be read to its end, if it could not. The
    /// steps are then those of the certificates before the failure, and
    /// the export fails with this error once they are performed.
    pub failure: Option<Error>,
}

/// Adds to `steps` those that publish one certificate.
pub fn export_certificate(steps: &mut Vec<Step>, certificate: &Certificate, options: &Options)
    ensures
        final(steps).deep_view() == old(steps).deep_view() + certificate_steps(
            certificate@,
            options@,
        ),
{
    let entries = map_identities(certificate, options);
    write_entries(steps, &entries, &certificate.encoding, options);
}

/// Lists the steps that export the given certificates.
pub fn export_certificates(certificates: &Vec<Certificate>, options: &Options) -> (steps: Vec<Step>)
    ensures
        steps.deep_view() == export_steps(certificates.deep_view(), options@),
{
    let mut steps: Vec<Step> = Vec::new();
    steps.push(Step::CreateDir { path: root_directory() });
    let ghost first = seq![StepView::CreateDir { path: root_dir() }];
    let mut i: usize = 0;
    while i < certificates.len()
        invariant
            i <= certificates.len(),
            first == seq![StepView::CreateDir { path: root_dir() }],
            steps.deep_view() == first + certificates_steps(
                certificates.deep_view().take(i as int),
                options@,
            ),
        decreases certificates.len() - i,
    {
        proof {
            let next = certificates.deep_view().take(i + 1);
            assert(next.drop_last() =~= certificates.deep_view().take(i as int));
        }
        export_certificate(&mut steps, &certificates[i], options);
        i += 1;
    }
    assert(certificates.deep_view().take(i as int) =~= certificates.deep_view());
    steps
}

/// Exports a keyring: reads its certificates and lists the steps that
/// publish them in a Web Key Directory.
///
/// The keyring is in binary or ASCII-armored form. Where it cannot be read
/// to its end, the plan holds the steps of the certificates before the
/// failure, together with the error.
pub fn export(keyring: &[u8], options: Options) -> (plan: Plan)
    ensures
        plan.steps.deep_view() == export_steps(keyring_contents(keyring@).certificates, options@),
        plan.failure is None <==> keyring_contents(keyring@).complete,
        plan.failure matches Some(error) ==> error is Pgp,
{
    let (certificates, failure) = read_keyring(keyring);
    let steps = export_certificates(&certificates, &options);
    let failure = match failure {
        Some(error) => Some(Error::Pgp(error)),
        None => None,
    };
    Plan { steps, failure }
}

} // verus!

//! Command line arguments, and the options they ask for.

use std::path::PathBuf;
use vstd::prelude::*;
use crate::options::{texts, Options, OptionsView, Variant, VariantView};

verus! {

/// `std::path::PathBuf`, carried as it comes.
#[verifier::external_type_specification]
#[verifier::external_body]
pub struct ExPathBuf(std::path::PathBuf);

/// WKD exporter.
///
/// Exports a given OpenPGP keyring into the directory structure of a
/// Web Key Directory.
#[derive(Debug)]
pub struct Cli {
    /// Well known directory that will be the output of the exporting process.
    pub well_known: PathBuf,
    /// Only export the following domain (may be given multiple times).
    ///
    /// By default all domains are exported but if this option is
    /// given only the selected ones will be exported.
    pub domain: Option<Vec<String>>,
    /// Append incoming certificates to the ones already existing in
    /// `.well-known`.
    pub append: bool,
    /// Select direct WKD variant with a filter for this single domain.
    pub direct: Option<String>,
}

impl Cli {
    /// The options that the arguments ask for: the given domains as the
    /// allow-list, unless a direct domain is given, which then selects the
    /// direct variant and is the only allowed domain.
    pub fn options<'a>(&'a self) -> (options: Options<'a, 'a>)
        ensures
            options@ == (OptionsView {
                allowed_domains: match self.direct {
                    Some(domain) => Some(seq![domain@]),
                    None => self.domain.deep_view(),
                },
                append: self.append,
                variant: match self.direct {
                    Some(domain) => VariantView::Direct(domain@),
                    None => VariantView::Advanced,
                },
            }),
    {
        let allowed: Option<Vec<&'a str>> = match &self.domain {
            Some(domains) => {
                let mut list: Vec<&'a str> = Vec::new();
                let mut i: usize = 0;
                while i < domains.len()
                    invariant
                        i <= domains.len(),
                        list.len() == i,
                        forall|k: int| 0 <= k < i ==> list[k]@ == domains[k]@,
                    decreases domains.len() - i,
                {
                    list.push(domains[i].as_str());
                    i += 1;
                }
                Some(list)
            },
            None => None,
        };
        let variant = match &self.direct {
            Some(domain) => Variant::Direct(domain.as_str()),
            None => Variant::default(),
        };
        Options::default().set_allowed_domains(allowed).set_variant(variant).set_append(
            self.append,
        )
    }
}

} // verus!

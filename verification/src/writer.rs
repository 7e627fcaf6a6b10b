//! The directory writer: the directory and file operations that publish one
//! certificate under one identity.

use vstd::prelude::*;
use crate::options::{Options, OptionsView, Variant, VariantView};
use crate::path::child;

verus! {

/// One operation on the directory tree below the well-known root. A path is
/// the list of its components, from the root down.
#[derive(Debug, PartialEq, Eq)]
pub enum Step {
    /// Create the directory, and every parent that is missing. A directory
    /// that exists is left as it is.
    CreateDir { path: Vec<String> },
    /// Create the file where it is missing and write `data` to it: behind
    /// what it holds if `append` is set, in place of what it holds if not.
    Write { path: Vec<String>, append: bool, data: Vec<u8> },
}

/// What a [`Step`] stands for.
#[verifier::ext_equal]
pub enum StepView {
    /// Create the directory at `path`, and those above it.
    CreateDir { path: Seq<Seq<char>> },
    /// Write `data` to the file at `path`, behind or in place of what it
    /// holds.
    Write { path: Seq<Seq<char>>, append: bool, data: Seq<u8> },
}

impl View for Step {
    type V = StepView;

    open spec fn view(&self) -> StepView {
        match self {
            Step::CreateDir { path } => StepView::CreateDir { path: path.deep_view() },
            Step::Write { path, append, data } => StepView::Write {
                path: path.deep_view(),
                append: *append,
                data: data@,
            },
        }
    }
}

impl DeepView for Step {
    type V = StepView;

    open spec fn deep_view(&self) -> StepView {
        self@
    }
}

/// The directory that holds the whole export.
pub open spec fn root_dir() -> Seq<Seq<char>> {
    seq!["openpgpkey"@]
}

/// The directory of a domain: one of its own in the advanced variant, the
/// root directory in the direct variant.
pub open spec fn target_dir(domain: Seq<char>, variant: VariantView) -> Seq<Seq<char>> {
    match variant {
        VariantView::Advanced => root_dir().push(domain),
        VariantView::Direct(_) => root_dir(),
    }
}

/// The directory of a domain's key files.
pub open spec fn hu_dir(domain: Seq<char>, variant: VariantView) -> Seq<Seq<char>> {
    target_dir(domain, variant).push("hu"@)
}

/// The policy file of a domain.
pub open spec fn policy_file(domain: Seq<char>, variant: VariantView) -> Seq<Seq<char>> {
    target_dir(domain, variant).push("policy"@)
}

/// The key file of a hashed local part in a domain.
pub open spec fn key_file(hashed: Seq<char>, domain: Seq<char>, variant: VariantView) -> Seq<
    Seq<char>,
> {
    hu_dir(domain, variant).push(hashed)
}

/// The steps that publish a certificate under one entry: make the key
/// directory, empty the policy file, write the key file.
pub open spec fn entry_steps(
    hashed: Seq<char>,
    domain: Seq<char>,
    encoding: Seq<u8>,
    options: OptionsView,
) -> Seq<StepView> {
    seq![
        StepView::CreateDir { path: hu_dir(domain, options.variant) },
        StepView::Write {
            path: policy_file(domain, options.variant),
            append: false,
            data: Seq::empty(),
        },
        StepView::Write {
            path: key_file(hashed, domain, options.variant),
            append: options.append,
            data: encoding,
        },
    ]
}

/// The steps that publish a certificate under a list of entries, entry
/// after entry.
pub open spec fn entries_steps(
    entries: Seq<(Seq<char>, Seq<char>)>,
    encoding: Seq<u8>,
    options: OptionsView,
) -> Seq<StepView>
    decreases entries.len(),
{
    if entries.len() == 0 {
        Seq::empty()
    } else {
        entries_steps(entries.drop_last(), encoding, options) + entry_steps(
            entries.last().0,
            entries.last().1,
            encoding,
            options,
        )
    }
}

/// Computes the directory that holds the whole export.
pub fn root_directory() -> (path: Vec<String>)
    ensures
        path.deep_view() == root_dir(),
{
    let mut path: Vec<String> = Vec::new();
    path.push("openpgpkey".to_owned());
    path
}

/// Computes the directory of a domain.
pub fn target_directory(domain: &str, variant: &Variant) -> (path: Vec<String>)
    ensures
        path.deep_view() == target_dir(domain@, variant@),
{
    let mut path = root_directory();
    match variant {
        Variant::Advanced => path.push(domain.to_owned()),
        Variant::Direct(_) => {},
    }
    path
}

/// Adds to `steps` those that publish `encoding` as the certificate of the
/// entry (`hashed`, `domain`).
pub fn write_entry(
    steps: &mut Vec<Step>,
    hashed: &str,
    domain: &str,
    encoding: &Vec<u8>,
    options: &Options,
)
    ensures
        final(steps).deep_view() == old(steps).deep_view() + entry_steps(
            hashed@,
            domain@,
            encoding@,
            options@,
        ),
{
    let target = target_directory(domain, options.variant());
    let hu = child(&target, "hu");
    let policy = child(&target, "policy");
    let key = child(&hu, hashed);
    steps.push(Step::CreateDir { path: hu });
    steps.push(Step::Write { path: policy, append: false, data: Vec::new() });
    steps.push(Step::Write { path: key, append: options.append(), data: encoding.clone() });
}

/// Adds to `steps` those that publish `encoding` as the certificate of
/// each of the entries, in order.
pub fn write_entries(
    steps: &mut Vec<Step>,
    entries: &Vec<(String, String)>,
    encoding: &Vec<u8>,
    options: &Options,
)
    ensures
        final(steps).deep_view() == old(steps).deep_view() + entries_steps(
            entries.deep_view(),
            encoding@,
            options@,
        ),
{
    let ghost before = steps.deep_view();
    let mut i: usize = 0;
    while i < entries.len()
        invariant
            i <= entries.len(),
            steps.deep_view() == before + entries_steps(
                entries.deep_view().take(i as int),
                encoding@,
                options@,
            ),
        decreases entries.len() - i,
    {
        proof {
            let next = entries.deep_view().take(i + 1);
            assert(next.drop_last() =~= entries.deep_view().take(i as int));
        }
        write_entry(steps, entries[i].0.as_str(), entries[i].1.as_str(), encoding, options);
        i += 1;
    }
    assert(entries.deep_view().take(i as int) =~= entries.deep_view());
}

} // verus!

//! Laws of the export, stated over the steps it asks for and over the tree
//! they leave.

use vstd::prelude::*;
use crate::directory::{
    contents, leads_to, lemma_steps_effect_concat, step_effect, steps_effect, TreeView,
};
use crate::export::{certificate_steps, certificates_steps, export_steps};
use crate::identity::{email_parts, identity_entries, identity_entry, local_part_hash, lowercase};
use crate::keyring::{keyring_contents, CertificateView};
use crate::options::{OptionsView, VariantView};
use crate::writer::{entries_steps, entry_steps, key_file, policy_file, root_dir, StepView};

verus! {

/// Whether `step` is one of the steps of the entry of identity `u` of
/// certificate `c`.
pub open spec fn step_of_identity(
    step: StepView,
    certificates: Seq<CertificateView>,
    options: OptionsView,
    c: int,
    u: int,
) -> bool {
    &&& 0 <= c < certificates.len()
    &&& 0 <= u < certificates[c].user_ids.len()
    &&& identity_entry(certificates[c].user_ids[u], options) matches Some((hashed, domain))
    &&& entry_steps(hashed, domain, certificates[c].encoding, options).contains(step)
}

/// The steps of two lists of certificates in a row are the steps of the
/// first list, then those of the second.
pub proof fn lemma_certificates_steps_concat(
    first: Seq<CertificateView>,
    second: Seq<CertificateView>,
    options: OptionsView,
)
    ensures
        certificates_steps(first + second, options) == certificates_steps(first, options)
            + certificates_steps(second, options),
    decreases second.len(),
{
    if second.len() > 0 {
        lemma_certificates_steps_concat(first, second.drop_last(), options);
        assert((first + second).drop_last() =~= first + second.drop_last());
    }
}

/// The steps of a list of one certificate are the steps of that
/// certificate.
pub proof fn lemma_one_certificate(certificate: CertificateView, options: OptionsView)
    ensures
        certificates_steps(seq![certificate], options) == certificate_steps(certificate, options),
{
    let alone = seq![certificate];
    assert(certificates_steps(alone.drop_last(), options) =~= Seq::<StepView>::empty());
}

/// Every entry of a list of identities is the entry of one of them.
proof fn lemma_entry_has_identity(user_ids: Seq<Seq<char>>, options: OptionsView, i: int) -> (u:
    int)
    requires
        0 <= i < identity_entries(user_ids, options).len(),
    ensures
        0 <= u < user_ids.len(),
        identity_entry(user_ids[u], options) == Some(identity_entries(user_ids, options)[i]),
    decreases user_ids.len(),
{
    let before = identity_entries(user_ids.drop_last(), options);
    if i < before.len() {
        lemma_entry_has_identity(user_ids.drop_last(), options, i)
    } else {
        user_ids.len() - 1
    }
}

/// The entry of every identity that has one is among the entries of its
/// list.
proof fn lemma_identity_has_entry(user_ids: Seq<Seq<char>>, options: OptionsView, u: int) -> (i:
    int)
    requires
        0 <= u < user_ids.len(),
        identity_entry(user_ids[u], options) is Some,
    ensures
        0 <= i < identity_entries(user_ids, options).len(),
        identity_entry(user_ids[u], options) == Some(identity_entries(user_ids, options)[i]),
    decreases user_ids.len(),
{
    let before = identity_entries(user_ids.drop_last(), options);
    if u == user_ids.len() - 1 {
        before.len() as int
    } else {
        lemma_identity_has_entry(user_ids.drop_last(), options, u)
    }
}

/// Every step of a list of entries is a step of one of them.
proof fn lemma_step_has_entry(
    entries: Seq<(Seq<char>, Seq<char>)>,
    encoding: Seq<u8>,
    options: OptionsView,
    k: int,
) -> (i: int)
    requires
        0 <= k < entries_steps(entries, encoding, options).len(),
    ensures
        0 <= i < entries.len(),
        entry_steps(entries[i].0, entries[i].1, encoding, options).contains(
            entries_steps(entries, encoding, options)[k],
        ),
    decreases entries.len(),
{
    let before = entries_steps(entries.drop_last(), encoding, options);
    if k < before.len() {
        lemma_step_has_entry(entries.drop_last(), encoding, options, k)
    } else {
        entries.len() - 1
    }
}

/// The steps of every entry are among the steps of its list.
proof fn lemma_entry_has_steps(
    entries: Seq<(Seq<char>, Seq<char>)>,
    encoding: Seq<u8>,
    options: OptionsView,
    i: int,
    step: StepView,
)
    requires
        0 <= i < entries.len(),
        entry_steps(entries[i].0, entries[i].1, encoding, options).contains(step),
    ensures
        entries_steps(entries, encoding, options).contains(step),
    decreases entries.len(),
{
    let before = entries_steps(entries.drop_last(), encoding, options);
    let last = entry_steps(entries.last().0, entries.last().1, encoding, options);
    if i == entries.len() - 1 {
        let k = choose|k: int| 0 <= k < last.len() && last[k] == step;
        assert((before + last)[before.len() + k] == step);
    } else {
        lemma_entry_has_steps(entries.drop_last(), encoding, options, i, step);
        let k = choose|k: int| 0 <= k < before.len() && before[k] == step;
        assert((before + last)[k] == step);
    }
}

/// Every step of a list of certificates is a step of the entry of one
/// identity of one of them.
pub proof fn lemma_steps_come_from_identities(
    certificates: Seq<CertificateView>,
    options: OptionsView,
    k: int,
) -> (origin: (int, int))
    requires
        0 <= k < certificates_steps(certificates, options).len(),
    ensures
        step_of_identity(
            certificates_steps(certificates, options)[k],
            certificates,
            options,
            origin.0,
            origin.1,
        ),
    decreases certificates.len(),
{
    let before = certificates_steps(certificates.drop_last(), options);
    if k < before.len() {
        lemma_steps_come_from_identities(certificates.drop_last(), options, k)
    } else {
        let last = certificates.last();
        let entries = identity_entries(last.user_ids, options);
        let i = lemma_step_has_entry(entries, last.encoding, options, k - before.len());
        let u = lemma_entry_has_identity(last.user_ids, options, i);
        (certificates.len() - 1, u)
    }
}

/// Every step of the entry of every identity is among the steps of the
/// export.
pub proof fn lemma_identities_are_exported(
    certificates: Seq<CertificateView>,
    options: OptionsView,
    c: int,
    u: int,
    step: StepView,
)
    requires
        step_of_identity(step, certificates, options, c, u),
    ensures
        certificates_steps(certificates, options).contains(step),
        export_steps(certificates, options).contains(step),
    decreases certificates.len(),
{
    let before = certificates_steps(certificates.drop_last(), options);
    let last = certificate_steps(certificates.last(), options);
    if c == certificates.len() - 1 {
        let entries = identity_entries(certificates[c].user_ids, options);
        let i = lemma_identity_has_entry(certificates[c].user_ids, options, u);
        lemma_entry_has_steps(entries, certificates[c].encoding, options, i, step);
        let k = choose|k: int| 0 <= k < last.len() && last[k] == step;
        assert((before + last)[before.len() + k] == step);
    } else {
        lemma_identities_are_exported(certificates.drop_last(), options, c, u, step);
        let k = choose|k: int| 0 <= k < before.len() && before[k] == step;
        assert((before + last)[k] == step);
    }
    let all = certificates_steps(certificates, options);
    let k = choose|k: int| 0 <= k < all.len() && all[k] == step;
    assert(export_steps(certificates, options)[k + 1] == step);
}

/// An allow-list admits a domain only where it holds that very text. A
/// domain that differs from every entry, be it in case alone, is not
/// allowed, and an identity of that domain has no entry.
pub proof fn lemma_filter_is_exact(options: OptionsView, domain: Seq<char>, user_id: Seq<char>)
    requires
        options.allowed_domains is Some,
        forall|i: int|
            0 <= i < options.allowed_domains->0.len() ==> options.allowed_domains->0[i] != domain,
    ensures
        !options.allows(domain),
        email_parts(user_id) matches Some((local_part, of_domain)) && of_domain == domain
            ==> identity_entry(user_id, options) is None,
{
}

/// The file name of a local part depends on its lowercase form alone: two
/// local parts that differ only in case are filed under one name, and so
/// in one key file of a domain.
pub proof fn lemma_hash_ignores_case(
    first: Seq<char>,
    second: Seq<char>,
    domain: Seq<char>,
    variant: VariantView,
)
    requires
        lowercase(first) == lowercase(second),
    ensures
        local_part_hash(first) == local_part_hash(second),
        key_file(local_part_hash(first), domain, variant) == key_file(
            local_part_hash(second),
            domain,
            variant,
        ),
{
}

/// An export is a function of the keyring and the options: two exports of
/// one keyring with the same options ask for the same steps, and leave two
/// trees that were alike before alike again.
pub proof fn lemma_export_is_deterministic(
    keyring: Seq<u8>,
    options: OptionsView,
    first: Seq<StepView>,
    second: Seq<StepView>,
    tree: TreeView,
)
    requires
        first == export_steps(keyring_contents(keyring).certificates, options),
        second == export_steps(keyring_contents(keyring).certificates, options),
    ensures
        first == second,
        steps_effect(tree, first) == steps_effect(tree, second),
{
}

/// Identities without a valid e-mail address have no entries.
proof fn lemma_no_address_no_entry(user_ids: Seq<Seq<char>>, options: OptionsView)
    requires
        forall|u: int| 0 <= u < user_ids.len() ==> email_parts(#[trigger] user_ids[u]) is None,
    ensures
        identity_entries(user_ids, options) == Seq::<(Seq<char>, Seq<char>)>::empty(),
    decreases user_ids.len(),
{
    if user_ids.len() > 0 {
        lemma_no_address_no_entry(user_ids.drop_last(), options);
    }
}

/// A certificate none of whose identities holds a valid e-mail address
/// contributes no step, and the certificates around it are exported as if
/// it were not there.
pub proof fn lemma_invalid_identities_are_skipped(
    before: Seq<CertificateView>,
    certificate: CertificateView,
    after: Seq<CertificateView>,
    options: OptionsView,
)
    requires
        forall|u: int|
            0 <= u < certificate.user_ids.len() ==> email_parts(
                #[trigger] certificate.user_ids[u],
            ) is None,
    ensures
        certificate_steps(certificate, options) == Seq::<StepView>::empty(),
        export_steps(before + seq![certificate] + after, options) == export_steps(
            before + after,
            options,
        ),
{
    lemma_no_address_no_entry(certificate.user_ids, options);
    let alone = seq![certificate];
    lemma_one_certificate(certificate, options);
    lemma_certificates_steps_concat(before, alone, options);
    lemma_certificates_steps_concat(before + alone, after, options);
    lemma_certificates_steps_concat(before, after, options);
}

/// With the direct variant and its domain as the only allowed one, as
/// `set_variant` leaves the options, an export touches nothing but the
/// root directory, its `hu` directory, its policy file, and key files
/// directly in `hu`; and each key file holds a certificate with an identity
/// in that very domain. No step names a directory of a domain.
pub proof fn lemma_direct_serves_one_domain(
    certificates: Seq<CertificateView>,
    options: OptionsView,
    domain: Seq<char>,
    k: int,
)
    requires
        options.variant == VariantView::Direct(domain),
        options.allowed_domains == Some(seq![domain]),
        0 <= k < export_steps(certificates, options).len(),
    ensures
        match export_steps(certificates, options)[k] {
            StepView::CreateDir { path } => path == root_dir() || path == root_dir().push("hu"@),
            StepView::Write { path, append, data } => {
                ||| path == root_dir().push("policy"@) && !append && data == Seq::<u8>::empty()
                ||| exists|c: int, u: int|
                    {
                        &&& 0 <= c < certificates.len()
                        &&& 0 <= u < certificates[c].user_ids.len()
                        &&& #[trigger] email_parts(certificates[c].user_ids[u]) matches Some(
                            (local_part, in_domain),
                        )
                        &&& in_domain == domain
                        &&& path == root_dir().push("hu"@).push(local_part_hash(local_part))
                        &&& append == options.append
                        &&& data == certificates[c].encoding
                    }
            },
        },
{
    if k > 0 {
        let step = export_steps(certificates, options)[k];
        let (c, u) = lemma_steps_come_from_identities(certificates, options, k - 1);
        let (hashed, in_domain) = identity_entry(certificates[c].user_ids[u], options)->0;
        assert(entry_steps(hashed, in_domain, certificates[c].encoding, options).contains(step));
        assert(in_domain == domain);
    }
}

/// After steps of which at least one writes to `path`, and of which each
/// that does empties the file, the file is there and empty, whatever the
/// tree held before.
proof fn lemma_emptied_file_stays_empty(tree: TreeView, steps: Seq<StepView>, path: Seq<Seq<char>>)
    requires
        exists|k: int|
            0 <= k < steps.len() && #[trigger] steps[k] is Write && steps[k]->Write_path == path,
        forall|k: int|
            0 <= k < steps.len() && #[trigger] steps[k] is Write && steps[k]->Write_path == path
                ==> !steps[k]->append && steps[k]->data == Seq::<u8>::empty(),
    ensures
        steps_effect(tree, steps).files.contains_key(path),
        steps_effect(tree, steps).files[path] == Seq::<u8>::empty(),
    decreases steps.len(),
{
    let last = steps.last();
    if !(last is Write && last->Write_path == path) {
        let k = choose|k: int|
            0 <= k < steps.len() && #[trigger] steps[k] is Write && steps[k]->Write_path == path;
        assert(steps.drop_last()[k] == steps[k]);
        lemma_emptied_file_stays_empty(tree, steps.drop_last(), path);
    }
}

/// After an export, the policy file of every domain that had an entry is
/// there and empty, whatever the tree held before: in its place, in any
/// other state, or nothing.
pub proof fn lemma_policy_is_present_and_empty(
    tree: TreeView,
    certificates: Seq<CertificateView>,
    options: OptionsView,
    c: int,
    u: int,
    hashed: Seq<char>,
    domain: Seq<char>,
)
    requires
        0 <= c < certificates.len(),
        0 <= u < certificates[c].user_ids.len(),
        identity_entry(certificates[c].user_ids[u], options) == Some((hashed, domain)),
    ensures
        ({
            let policy = policy_file(domain, options.variant);
            let after = steps_effect(tree, export_steps(certificates, options));
            after.files.contains_key(policy) && after.files[policy] == Seq::<u8>::empty()
        }),
{
    let policy = policy_file(domain, options.variant);
    let steps = export_steps(certificates, options);
    let emptying = StepView::Write { path: policy, append: false, data: Seq::empty() };
    lemma_identities_are_exported(certificates, options, c, u, emptying);
    assert forall|k: int|
        0 <= k < steps.len() && #[trigger] steps[k] is Write && steps[k]->Write_path
            == policy implies !steps[k]->append && steps[k]->data == Seq::<u8>::empty() by {
        let (c2, u2) = lemma_steps_come_from_identities(certificates, options, k - 1);
        let (hashed2, domain2) = identity_entry(certificates[c2].user_ids[u2], options)->0;
        assert(entry_steps(hashed2, domain2, certificates[c2].encoding, options).contains(
            steps[k],
        ));
        assert(key_file(hashed2, domain2, options.variant).len() != policy.len());
    }
    lemma_emptied_file_stays_empty(tree, steps, policy);
}

/// The effect of four steps, one after the other.
proof fn lemma_effect_of_four(tree: TreeView, steps: Seq<StepView>)
    requires
        steps.len() == 4,
    ensures
        steps_effect(tree, steps) == step_effect(
            step_effect(step_effect(step_effect(tree, steps[0]), steps[1]), steps[2]),
            steps[3],
        ),
{
    let three = steps.drop_last();
    let two = three.drop_last();
    let one = two.drop_last();
    assert(steps_effect(tree, one.drop_last()) == tree);
    assert(steps_effect(tree, two) == step_effect(steps_effect(tree, one), steps[1]));
    assert(steps_effect(tree, three) == step_effect(steps_effect(tree, two), steps[2]));
}

/// The steps of an export of one certificate with one identity that has
/// an entry: make the root directory, then the three steps of the entry.
proof fn lemma_export_of_one_entry(
    certificate: CertificateView,
    options: OptionsView,
    hashed: Seq<char>,
    domain: Seq<char>,
)
    requires
        certificate.user_ids.len() == 1,
        identity_entry(certificate.user_ids[0], options) == Some((hashed, domain)),
    ensures
        export_steps(seq![certificate], options) == seq![StepView::CreateDir { path: root_dir() }]
            + entry_steps(hashed, domain, certificate.encoding, options),
{
    lemma_one_certificate(certificate, options);
    assert(identity_entries(certificate.user_ids.drop_last(), options) =~= Seq::<
        (Seq<char>, Seq<char>),
    >::empty());
    let entries = identity_entries(certificate.user_ids, options);
    assert(entries_steps(entries.drop_last(), certificate.encoding, options) =~= Seq::<
        StepView,
    >::empty());
}

/// Two exports into one tree, each of one certificate with one identity,
/// both identities with the same entry: in append mode the key file then
/// holds what it held before, followed by the first certificate and then
/// the second; without append it holds the second certificate alone. So it
/// is where one certificate is exported twice.
pub proof fn lemma_append_accumulates(
    tree: TreeView,
    first: CertificateView,
    second: CertificateView,
    options: OptionsView,
    hashed: Seq<char>,
    domain: Seq<char>,
)
    requires
        first.user_ids.len() == 1,
        second.user_ids.len() == 1,
        identity_entry(first.user_ids[0], options) == Some((hashed, domain)),
        identity_entry(second.user_ids[0], options) == Some((hashed, domain)),
    ensures
        ({
            let key = key_file(hashed, domain, options.variant);
            let once = steps_effect(tree, export_steps(seq![first], options));
            let twice = steps_effect(once, export_steps(seq![second], options));
            &&& twice.files.contains_key(key)
            &&& options.append ==> twice.files[key] == contents(tree, key) + first.encoding
                + second.encoding
            &&& !options.append ==> twice.files[key] == second.encoding
        }),
{
    let key = key_file(hashed, domain, options.variant);
    let policy = policy_file(domain, options.variant);
    assert(key.len() != policy.len());
    let first_steps = export_steps(seq![first], options);
    lemma_export_of_one_entry(first, options, hashed, domain);
    lemma_effect_of_four(tree, first_steps);
    let once = steps_effect(tree, first_steps);
    let second_steps = export_steps(seq![second], options);
    lemma_export_of_one_entry(second, options, hashed, domain);
    lemma_effect_of_four(once, second_steps);
}

/// The directories that a list of steps makes.
spec fn made_dirs(steps: Seq<StepView>) -> Set<Seq<Seq<char>>>
    decreases steps.len(),
{
    if steps.len() == 0 {
        Set::empty()
    } else {
        match steps.last() {
            StepView::CreateDir { path } => made_dirs(steps.drop_last()).union(
                Set::new(|directory: Seq<Seq<char>>| leads_to(directory, path)),
            ),
            StepView::Write { .. } => made_dirs(steps.drop_last()),
        }
    }
}

/// What a list of steps that never appends writes last to each file.
spec fn written(steps: Seq<StepView>) -> Map<Seq<Seq<char>>, Seq<u8>>
    decreases steps.len(),
{
    if steps.len() == 0 {
        Map::empty()
    } else {
        match steps.last() {
            StepView::CreateDir { .. } => written(steps.drop_last()),
            StepView::Write { path, append, data } => written(steps.drop_last()).insert(
                path,
                data,
            ),
        }
    }
}

/// Steps that never append leave the directories they make beside those
/// that were there, and in each file what they wrote to it last.
proof fn lemma_effect_without_append(tree: TreeView, steps: Seq<StepView>)
    requires
        forall|k: int| 0 <= k < steps.len() && #[trigger] steps[k] is Write ==> !steps[k]->append,
    ensures
        steps_effect(tree, steps) == (TreeView {
            dirs: tree.dirs.union(made_dirs(steps)),
            files: tree.files.union_prefer_right(written(steps)),
        }),
    decreases steps.len(),
{
    if steps.len() > 0 {
        lemma_effect_without_append(tree, steps.drop_last());
    }
}

/// Without append mode a second export of the same certificates changes
/// nothing: the tree is as the first export left it.
pub proof fn lemma_export_without_append_is_idempotent(
    tree: TreeView,
    certificates: Seq<CertificateView>,
    options: OptionsView,
)
    requires
        !options.append,
    ensures
        ({
            let steps = export_steps(certificates, options);
            steps_effect(steps_effect(tree, steps), steps) == steps_effect(tree, steps)
        }),
{
    let steps = export_steps(certificates, options);
    assert forall|k: int|
        0 <= k < steps.len() && #[trigger] steps[k] is Write implies !steps[k]->append by {
        let (c, u) = lemma_steps_come_from_identities(certificates, options, k - 1);
        let (hashed, domain) = identity_entry(certificates[c].user_ids[u], options)->0;
        assert(entry_steps(hashed, domain, certificates[c].encoding, options).contains(steps[k]));
    }
    let once = steps_effect(tree, steps);
    lemma_effect_without_append(tree, steps);
    lemma_effect_without_append(once, steps);
}

/// Steps take no directory away.
proof fn lemma_dirs_only_grow(tree: TreeView, steps: Seq<StepView>)
    ensures
        tree.dirs.subset_of(steps_effect(tree, steps).dirs),
    decreases steps.len(),
{
    if steps.len() > 0 {
        lemma_dirs_only_grow(tree, steps.drop_last());
    }
}

/// Exporting two lists of certificates one after the other into one tree
/// leaves it as one export of both lists in a row does.
pub proof fn lemma_exports_in_a_row(
    tree: TreeView,
    first: Seq<CertificateView>,
    second: Seq<CertificateView>,
    options: OptionsView,
)
    ensures
        steps_effect(
            steps_effect(tree, export_steps(first, options)),
            export_steps(second, options),
        ) == steps_effect(tree, export_steps(first + second, options)),
{
    let root = seq![StepView::CreateDir { path: root_dir() }];
    let rooted = steps_effect(tree, root);
    let once = steps_effect(tree, export_steps(first, options));
    lemma_steps_effect_concat(tree, root, certificates_steps(first, options));
    lemma_dirs_only_grow(rooted, certificates_steps(first, options));
    assert(steps_effect(once, root) == step_effect(
        steps_effect(once, root.drop_last()),
        root.last(),
    ));
    assert(steps_effect(once, root) =~= once);
    lemma_steps_effect_concat(once, root, certificates_steps(second, options));
    lemma_certificates_steps_concat(first, second, options);
    assert(export_steps(first + second, options) =~= export_steps(first, options)
        + certificates_steps(second, options));
    lemma_steps_effect_concat(
        tree,
        export_steps(first, options),
        certificates_steps(second, options),
    );
}

} // verus!

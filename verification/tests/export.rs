use wkd_exporter::directory::Directory;
use wkd_exporter::error::Error;
use wkd_exporter::export::{export, export_certificate, export_certificates};
use wkd_exporter::keyring::Certificate;
use wkd_exporter::options::{Options, Variant};
use wkd_exporter::writer::Step;

/// A certificate with the identities `Alice <Alice@example.org>` and
/// `Alice Liddell <alice@other.org>`, in binary form, as hexadecimal digits.
const ALICE: &str = "9833046ae26c9e16092b06010401da470f01010740dab6bb6f3b390bf838c5100c42dee278ea5a28fadb5e8a\
     32ff028bebd64001f0b419416c696365203c416c696365406578616d706c652e6f72673e8890041316080038\
     16210477fd459bed6ee4a66891ad8a16858c997eb4235805026ae26c9e021b01050b0908070206150a09080b\
     020416020301021e01021780000a091016858c997eb42358db3000fd1bdd2327096c01e3055a7ede3edb297f\
     d6e8d62313af541b9027539546dc126c00fe3f9fcce440593e285d4927d06a1fc4fa3d3819e4c1589954d81a\
     11a82eb8e50db41f416c696365204c696464656c6c203c616c696365406f746865722e6f72673e8890041316\
     08003816210477fd459bed6ee4a66891ad8a16858c997eb4235805026ae26cab021b01050b0908070206150a\
     09080b020416020301021e01021780000a091016858c997eb42358781c00ff77f6e391deda5d8284ae91b46c\
     5920a8707fcf454ea3a5b740f9732048cbb0ce00ff77b8573004d24f283042da1a4e6b78829d04d8a89c592b\
     32132aa414343d390a";

/// A certificate with the identity `Bob <bob@example.org>`.
const BOB: &str = "9833046ae26cab16092b06010401da470f01010740ff7fe9a204dfee4da65ab597ad130ec252b33cb9fceb13\
     54d5460da486cfdcfcb415426f62203c626f62406578616d706c652e6f72673e8890041316080038162104c0\
     2142cc1e38d6d1e1b265993b48e6c5271d6e6b05026ae26cab021b01050b0908070206150a09080b02041602\
     0301021e01021780000a09103b48e6c5271d6e6b27fe00ff6436f2dd7030ed48fa4c3817859cf6ba39c2fa2f\
     23e16c2db881161089b3de3200fe3f086a6f6cb2c189886e110db07d260bf17a10a1ad178b3cc26e29be23f4\
     9f00";

/// A certificate with the identity `Carol (no address)`.
const CAROL: &str = "9833046ae26cab16092b06010401da470f01010740c059e8340cec5a40f85cd59e5f179816700abeac954d3e\
     021a61e508ae634431b4124361726f6c20286e6f2061646472657373298890041316080038162104e80f3681\
     14cbbe3a82d1607d52e80a77f92942b905026ae26cab021b01050b0908070206150a09080b02041602030102\
     1e01021780000a091052e80a77f92942b9ca9d0100927811549d0af02ac19a20fd1a831cade324d5c67ce0fb\
     46a65f93c04a34c17600ff467d8d29df555b5649ccb90d2d5fb71d8bf12c857137326fd7c7d2e7c8b0660e";

/// A certificate with the identity `alice <alice@example.org>`.
const ALICE_LOWER: &str = "9833046ae26cab16092b06010401da470f010107400f396e87356974972018e378ac1f9ea2ea845438247a5d\
     39f7f4af4b68304ef3b419616c696365203c616c696365406578616d706c652e6f72673e8890041316080038\
     1621043702843ae376c61d75fd71a2fcac959279043ba805026ae26cab021b01050b0908070206150a09080b\
     020416020301021e01021780000a0910fcac959279043ba8bec700ff73bd07798fb63ad999760c82189ed93f\
     19e5f5c24dfc0ae57b40e4c07a8edf4300ff7bfad47ceadc6b27956e7ad16b0ce04685d8fc2e51ed0c41a6b1\
     91b40e495e01";

/// A certificate with the identity `Dave <dave@ArchLinux.org>`.
const DAVE: &str = "9833046ae26cab16092b06010401da470f01010740c4faa52fc6f4a84cf4c823709dd877f653907e21c9acd4\
     3fe4d15ceadbacaf4fb41944617665203c6461766540417263684c696e75782e6f72673e8890041316080038\
     1621049da902b4f4e1c671b13ef1461c5391122fd3a1f105026ae26cab021b01050b0908070206150a09080b\
     020416020301021e01021780000a09101c5391122fd3a1f104710100d1aaf3830b410ab1e0e23a9144ce92b2\
     4b874dcade2761d68d856e6f7146c80b00ff4a1e987be2ea8417d2b83006e8d7e037f0460fefa41329a19d5e\
     dd5bf5e03f0e";

/// The five certificates in one ASCII-armored keyring, in the order Alice, Bob,
/// Carol, alice, Dave.
const ARMORED: &str = "-----BEGIN PGP PUBLIC KEY BLOCK-----\n\
\n\
mDMEauJsnhYJKwYBBAHaRw8BAQdA2ra7bzs5C/g4xRAMQt7ieOpaKPrbXooy/wKL\n\
69ZAAfC0GUFsaWNlIDxBbGljZUBleGFtcGxlLm9yZz6IkAQTFggAOBYhBHf9RZvt\n\
buSmaJGtihaFjJl+tCNYBQJq4myeAhsBBQsJCAcCBhUKCQgLAgQWAgMBAh4BAheA\n\
AAoJEBaFjJl+tCNY2zAA/RvdIycJbAHjBVp+3j7bKX/W6NYjE69UG5AnU5VG3BJs\n\
AP4/n8zkQFk+KF1JJ9BqH8T6PTgZ5MFYmVTYGhGoLrjlDbQfQWxpY2UgTGlkZGVs\n\
bCA8YWxpY2VAb3RoZXIub3JnPoiQBBMWCAA4FiEEd/1Fm+1u5KZoka2KFoWMmX60\n\
I1gFAmribKsCGwEFCwkIBwIGFQoJCAsCBBYCAwECHgECF4AACgkQFoWMmX60I1h4\n\
HAD/d/bjkd7aXYKErpG0bFkgqHB/z0VOo6W3QPlzIEjLsM4A/3e4VzAE0k8oMELa\n\
Gk5reIKdBNionFkrMhMqpBQ0PTkKmDMEauJsqxYJKwYBBAHaRw8BAQdA/3/pogTf\n\
7k2mWrWXrRMOwlKzPLn86xNU1UYNpIbP3Py0FUJvYiA8Ym9iQGV4YW1wbGUub3Jn\n\
PoiQBBMWCAA4FiEEwCFCzB441tHhsmWZO0jmxScdbmsFAmribKsCGwEFCwkIBwIG\n\
FQoJCAsCBBYCAwECHgECF4AACgkQO0jmxScdbmsn/gD/ZDby3XAw7Uj6TDgXhZz2\n\
ujnC+i8j4WwtuIEWEImz3jIA/j8Iam9sssGJiG4RDbB9JgvxehChrReLPMJuKb4j\n\
9J8AmDMEauJsqxYJKwYBBAHaRw8BAQdAwFnoNAzsWkD4XNWeXxeYFnAKvqyVTT4C\n\
GmHlCK5jRDG0EkNhcm9sIChubyBhZGRyZXNzKYiQBBMWCAA4FiEE6A82gRTLvjqC\n\
0WB9UugKd/kpQrkFAmribKsCGwEFCwkIBwIGFQoJCAsCBBYCAwECHgECF4AACgkQ\n\
UugKd/kpQrnKnQEAkngRVJ0K8CrBmiD9GoMcreMk1cZ84PtGpl+TwEo0wXYA/0Z9\n\
jSnfVVtWScy5DS1ftx2L8SyFcTcyb9fH0ufIsGYOmDMEauJsqxYJKwYBBAHaRw8B\n\
AQdADzluhzVpdJcgGON4rB+eouqEVDgkel059/SvS2gwTvO0GWFsaWNlIDxhbGlj\n\
ZUBleGFtcGxlLm9yZz6IkAQTFggAOBYhBDcChDrjdsYddf1xovyslZJ5BDuoBQJq\n\
4myrAhsBBQsJCAcCBhUKCQgLAgQWAgMBAh4BAheAAAoJEPyslZJ5BDuovscA/3O9\n\
B3mPtjrZmXYMghie2T8Z5fXCTfwK5XtA5MB6jt9DAP97+tR86txrJ5VuetFrDOBG\n\
hdj8LlHtDEGmsZG0DkleAZgzBGribKsWCSsGAQQB2kcPAQEHQMT6pS/G9KhM9Mgj\n\
cJ3Yd/ZTkH4hyazUP+TRXOrbrK9PtBlEYXZlIDxkYXZlQEFyY2hMaW51eC5vcmc+\n\
iJAEExYIADgWIQSdqQK09OHGcbE+8UYcU5ESL9Oh8QUCauJsqwIbAQULCQgHAgYV\n\
CgkICwIEFgIDAQIeAQIXgAAKCRAcU5ESL9Oh8QRxAQDRqvODC0EKseDiOpFEzpKy\n\
S4dNyt4nYdaNhW5vcUbICwD/Sh6Ye+LqhBfSuDAG6NfgN/BGD++kEymhnV7dW/Xg\n\
Pw4=\n\
=YGW+\n\
-----END PGP PUBLIC KEY BLOCK-----\n";

const ALICE_HASH: &str = "kei1q4tipxxu1yj79k9kfukdhfy631xe";
const BOB_HASH: &str = "jycbiujnsxs47xrkethgtj69xuunurok";
const DAVE_HASH: &str = "z9g983skpuzwkib59q4zknqjfmsjwqx5";

fn bytes(hex: &str) -> Vec<u8> {
    let digits: Vec<u8> = hex
        .chars()
        .map(|digit| digit.to_digit(16).expect("a hexadecimal digit") as u8)
        .collect();
    digits.chunks(2).map(|pair| pair[0] * 16 + pair[1]).collect()
}

fn keyring(certificates: &[&str]) -> Vec<u8> {
    certificates.iter().flat_map(|hex| bytes(hex)).collect()
}

fn path(components: &[&str]) -> Vec<String> {
    components.iter().map(|component| component.to_string()).collect()
}

fn create(components: &[&str]) -> Step {
    Step::CreateDir { path: path(components) }
}

fn policy(components: &[&str]) -> Step {
    Step::Write { path: path(components), append: false, data: Vec::new() }
}

fn write(components: &[&str], append: bool, data: &[u8]) -> Step {
    Step::Write { path: path(components), append, data: data.to_vec() }
}

fn certificate(user_ids: &[&str], encoding: &[u8]) -> Certificate {
    Certificate {
        user_ids: user_ids.iter().map(|user_id| user_id.to_string()).collect(),
        encoding: encoding.to_vec(),
    }
}

fn advanced_entry(domain: &str, hash: &str, append: bool, data: &[u8]) -> Vec<Step> {
    vec![
        create(&["openpgpkey", domain, "hu"]),
        policy(&["openpgpkey", domain, "policy"]),
        write(&["openpgpkey", domain, "hu", hash], append, data),
    ]
}

fn direct_entry(hash: &str, append: bool, data: &[u8]) -> Vec<Step> {
    vec![
        create(&["openpgpkey", "hu"]),
        policy(&["openpgpkey", "policy"]),
        write(&["openpgpkey", "hu", hash], append, data),
    ]
}

fn all_steps(parts: Vec<Vec<Step>>) -> Vec<Step> {
    let mut steps = vec![create(&["openpgpkey"])];
    for part in parts {
        steps.extend(part);
    }
    steps
}

fn tree_after(runs: &[&Vec<Step>]) -> Directory {
    let mut tree = Directory::new();
    for steps in runs {
        tree.run(steps);
    }
    tree
}

fn sorted_files(tree: &Directory) -> Vec<(Vec<String>, Vec<u8>)> {
    let mut files: Vec<(Vec<String>, Vec<u8>)> = tree
        .file_paths()
        .into_iter()
        .map(|path| {
            let data = tree.file(&path).expect("a listed file");
            (path, data)
        })
        .collect();
    files.sort();
    files
}

#[test]
fn binary_keyring_is_exported_in_order() {
    let plan = export(&keyring(&[ALICE, BOB, CAROL, ALICE_LOWER, DAVE]), Options::default());
    assert!(plan.failure.is_none());
    let expected = all_steps(vec![
        advanced_entry("example.org", ALICE_HASH, false, &bytes(ALICE)),
        advanced_entry("other.org", ALICE_HASH, false, &bytes(ALICE)),
        advanced_entry("example.org", BOB_HASH, false, &bytes(BOB)),
        advanced_entry("example.org", ALICE_HASH, false, &bytes(ALICE_LOWER)),
        advanced_entry("ArchLinux.org", DAVE_HASH, false, &bytes(DAVE)),
    ]);
    assert_eq!(plan.steps, expected);
}

#[test]
fn armored_keyring_gives_the_same_steps_as_binary() {
    let armored = export(ARMORED.as_bytes(), Options::default());
    let binary = export(&keyring(&[ALICE, BOB, CAROL, ALICE_LOWER, DAVE]), Options::default());
    assert!(armored.failure.is_none());
    assert_eq!(armored.steps, binary.steps);
    assert_eq!(armored.steps.len(), 16);
}

#[test]
fn key_file_holds_the_binary_encoding_of_the_certificate() {
    let plan = export(ARMORED.as_bytes(), Options::default());
    let tree = tree_after(&[&plan.steps]);
    assert_eq!(
        tree.file(&path(&["openpgpkey", "example.org", "hu", BOB_HASH])),
        Some(bytes(BOB))
    );
    assert_eq!(
        tree.file(&path(&["openpgpkey", "other.org", "hu", ALICE_HASH])),
        Some(bytes(ALICE))
    );
}

#[test]
fn empty_keyring_fails_after_the_root_directory() {
    let plan = export(&[], Options::default());
    assert_eq!(plan.steps, vec![create(&["openpgpkey"])]);
    assert!(matches!(plan.failure, Some(Error::Pgp(_))));
}

#[test]
fn malformed_certificate_stops_the_export_where_it_stands() {
    let mut input = keyring(&[ALICE, BOB]);
    let overlong_packet_header: [u8; 2] = [0xb4, 0xff];
    input.extend_from_slice(&overlong_packet_header);
    input.extend_from_slice(&bytes(DAVE));
    let plan = export(&input, Options::default());
    assert!(matches!(plan.failure, Some(Error::Pgp(_))));
    let expected = all_steps(vec![
        advanced_entry("example.org", ALICE_HASH, false, &bytes(ALICE)),
        advanced_entry("other.org", ALICE_HASH, false, &bytes(ALICE)),
    ]);
    assert_eq!(plan.steps, expected);
}

#[test]
fn text_that_is_no_keyring_fails() {
    let plan = export(b"this is not a keyring", Options::default());
    assert_eq!(plan.steps, vec![create(&["openpgpkey"])]);
    assert!(matches!(plan.failure, Some(Error::Pgp(_))));
}

#[test]
fn io_error_is_a_variant_of_its_own() {
    let error = Error::Io(std::io::Error::new(std::io::ErrorKind::PermissionDenied, "denied"));
    assert!(matches!(error, Error::Io(_)));
    assert!(!matches!(error, Error::Pgp(_)));
}

#[test]
fn export_is_deterministic() {
    let input = keyring(&[ALICE, BOB, CAROL, ALICE_LOWER, DAVE]);
    let first = export(&input, Options::default());
    let second = export(&input, Options::default());
    assert_eq!(first.steps, second.steps);
    let one = tree_after(&[&first.steps]);
    let other = tree_after(&[&second.steps]);
    assert_eq!(sorted_files(&one), sorted_files(&other));
    assert_eq!(sorted_files(&one).len(), 7);
}

#[test]
fn domain_filter_keeps_only_listed_domains() {
    let options = Options::default().set_allowed_domains(vec!["other.org"]);
    let plan = export(ARMORED.as_bytes(), options);
    assert!(plan.failure.is_none());
    let expected =
        all_steps(vec![advanced_entry("other.org", ALICE_HASH, false, &bytes(ALICE))]);
    assert_eq!(plan.steps, expected);
}

#[test]
fn domain_filter_is_case_sensitive() {
    let lower = export(
        ARMORED.as_bytes(),
        Options::default().set_allowed_domains(vec!["archlinux.org"]),
    );
    assert!(lower.failure.is_none());
    assert_eq!(lower.steps, vec![create(&["openpgpkey"])]);
    let exact = export(
        ARMORED.as_bytes(),
        Options::default().set_allowed_domains(vec!["ArchLinux.org"]),
    );
    let expected =
        all_steps(vec![advanced_entry("ArchLinux.org", DAVE_HASH, false, &bytes(DAVE))]);
    assert_eq!(exact.steps, expected);
}

#[test]
fn direct_variant_exports_one_domain_without_a_domain_directory() {
    let options = Options::default().set_variant(Variant::Direct("example.org"));
    let plan = export(ARMORED.as_bytes(), options);
    assert!(plan.failure.is_none());
    let expected = all_steps(vec![
        direct_entry(ALICE_HASH, false, &bytes(ALICE)),
        direct_entry(BOB_HASH, false, &bytes(BOB)),
        direct_entry(ALICE_HASH, false, &bytes(ALICE_LOWER)),
    ]);
    assert_eq!(plan.steps, expected);
    let tree = tree_after(&[&plan.steps]);
    let files = sorted_files(&tree);
    assert_eq!(
        files,
        vec![
            (path(&["openpgpkey", "hu", BOB_HASH]), bytes(BOB)),
            (path(&["openpgpkey", "hu", ALICE_HASH]), bytes(ALICE_LOWER)),
            (path(&["openpgpkey", "policy"]), Vec::new()),
        ]
    );
    assert!(!tree.has_dir(&path(&["openpgpkey", "example.org"])));
    assert!(!tree.has_dir(&path(&["openpgpkey", "other.org"])));
    assert!(tree.has_dir(&path(&["openpgpkey", "hu"])));
}

#[test]
fn direct_variant_with_a_wider_allow_list_set_afterwards() {
    let options = Options::default()
        .set_variant(Variant::Direct("example.org"))
        .set_allowed_domains(vec!["other.org"]);
    let plan = export(&keyring(&[ALICE]), options);
    let expected = all_steps(vec![direct_entry(ALICE_HASH, false, &bytes(ALICE))]);
    assert_eq!(plan.steps, expected);
}

#[test]
fn append_mode_accumulates_certificates() {
    let input = keyring(&[BOB]);
    let plan = export(&input, Options::default().set_append(true));
    let key = path(&["openpgpkey", "example.org", "hu", BOB_HASH]);
    let once = tree_after(&[&plan.steps]);
    assert_eq!(once.file(&key), Some(bytes(BOB)));
    let twice = tree_after(&[&plan.steps, &plan.steps]);
    let mut both = bytes(BOB);
    both.extend(bytes(BOB));
    assert_eq!(twice.file(&key), Some(both));
}

#[test]
fn without_append_the_second_export_replaces_the_first() {
    let first = export(&keyring(&[ALICE]), Options::default());
    let second = export(&keyring(&[ALICE_LOWER]), Options::default());
    let key = path(&["openpgpkey", "example.org", "hu", ALICE_HASH]);
    let tree = tree_after(&[&first.steps, &second.steps]);
    assert_eq!(tree.file(&key), Some(bytes(ALICE_LOWER)));
    let again = tree_after(&[&second.steps, &second.steps]);
    assert_eq!(again.file(&key), Some(bytes(ALICE_LOWER)));
}

#[test]
fn append_mode_concatenates_in_keyring_order() {
    let plan = export(
        &keyring(&[ALICE, ALICE_LOWER]),
        Options::default().set_append(true).set_allowed_domains(vec!["example.org"]),
    );
    let tree = tree_after(&[&plan.steps]);
    let mut both = bytes(ALICE);
    both.extend(bytes(ALICE_LOWER));
    assert_eq!(
        tree.file(&path(&["openpgpkey", "example.org", "hu", ALICE_HASH])),
        Some(both)
    );
}

#[test]
fn certificate_without_address_is_skipped_and_its_siblings_exported() {
    let with = export(&keyring(&[BOB, CAROL, DAVE]), Options::default());
    let without = export(&keyring(&[BOB, DAVE]), Options::default());
    assert!(with.failure.is_none());
    assert_eq!(with.steps, without.steps);
    assert_eq!(with.steps.len(), 7);
    let alone = export(&keyring(&[CAROL]), Options::default());
    assert!(alone.failure.is_none());
    assert_eq!(alone.steps, vec![create(&["openpgpkey"])]);
}

#[test]
fn policy_file_is_emptied_whatever_it_held() {
    let policy_path = path(&["openpgpkey", "example.org", "policy"]);
    let mut tree = Directory::new();
    tree.perform(&write(&["openpgpkey", "example.org", "policy"], false, b"stale"));
    assert_eq!(tree.file(&policy_path), Some(b"stale".to_vec()));
    let plan = export(&keyring(&[BOB]), Options::default().set_append(true));
    tree.run(&plan.steps);
    assert_eq!(tree.file(&policy_path), Some(Vec::new()));
    tree.run(&plan.steps);
    assert_eq!(tree.file(&policy_path), Some(Vec::new()));
    let fresh = tree_after(&[&plan.steps]);
    assert_eq!(fresh.file(&policy_path), Some(Vec::new()));
}

#[test]
fn listed_certificates_are_exported_like_a_keyring() {
    let certificates = vec![
        certificate(
            &["Alice <Alice@example.org>", "Alice Liddell <alice@other.org>"],
            &[1, 2, 3],
        ),
        certificate(&["Carol (no address)"], &[4]),
        certificate(&["bob@example.org"], &[5, 6]),
    ];
    let steps = export_certificates(&certificates, &Options::default());
    let expected = all_steps(vec![
        advanced_entry("example.org", ALICE_HASH, false, &[1, 2, 3]),
        advanced_entry("other.org", ALICE_HASH, false, &[1, 2, 3]),
        advanced_entry("example.org", BOB_HASH, false, &[5, 6]),
    ]);
    assert_eq!(steps, expected);
}

#[test]
fn no_certificates_ask_for_the_root_directory_alone() {
    let steps = export_certificates(&Vec::new(), &Options::default());
    assert_eq!(steps, vec![create(&["openpgpkey"])]);
}

#[test]
fn certificate_steps_follow_those_already_listed() {
    let mut steps = vec![create(&["somewhere"])];
    let options = Options::default().set_append(true);
    export_certificate(&mut steps, &certificate(&["Bob <bob@example.org>"], &[9]), &options);
    let mut expected = vec![create(&["somewhere"])];
    expected.extend(advanced_entry("example.org", BOB_HASH, true, &[9]));
    assert_eq!(steps, expected);
    export_certificate(&mut steps, &certificate(&["nobody", "also nobody"], &[7]), &options);
    assert_eq!(steps, expected);
    export_certificate(&mut steps, &certificate(&[], &[7]), &options);
    assert_eq!(steps, expected);
}

#[test]
fn second_export_without_append_changes_nothing() {
    let plan = export(ARMORED.as_bytes(), Options::default());
    let once = tree_after(&[&plan.steps]);
    let twice = tree_after(&[&plan.steps, &plan.steps]);
    assert_eq!(sorted_files(&once), sorted_files(&twice));
    for directory in [
        path(&["openpgpkey"]),
        path(&["openpgpkey", "example.org"]),
        path(&["openpgpkey", "example.org", "hu"]),
        path(&["openpgpkey", "ArchLinux.org", "hu"]),
    ] {
        assert!(once.has_dir(&directory));
        assert!(twice.has_dir(&directory));
    }
}

#[test]
fn two_exports_in_a_row_are_one_export_of_both_keyrings() {
    let options = || Options::default().set_append(true);
    let first = export(&keyring(&[ALICE, BOB]), options());
    let second = export(&keyring(&[ALICE_LOWER, DAVE]), options());
    let both = export(&keyring(&[ALICE, BOB, ALICE_LOWER, DAVE]), options());
    let in_a_row = tree_after(&[&first.steps, &second.steps]);
    let at_once = tree_after(&[&both.steps]);
    assert_eq!(sorted_files(&in_a_row), sorted_files(&at_once));
    let mut alices = bytes(ALICE);
    alices.extend(bytes(ALICE_LOWER));
    assert_eq!(
        at_once.file(&path(&["openpgpkey", "example.org", "hu", ALICE_HASH])),
        Some(alices)
    );
}

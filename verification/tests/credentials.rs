//! Certificates: issuing them, reading them, and where they are kept.

use termlink::pem::{
    load_cert, load_chain, load_directory, load_key, split_chain, PemError, PemPart, PemUse,
};
use termlink::pki::{
    atomic_dir, atomic_temp_path, ca_profile, compute_alt_names, credential, init_step,
    leaf_profile, reading_context, saving_context, subject_is_writable, AddrEntry, AtomicStep, InitStep, Pki, PkiError, PkiFile, SubjectPart,
    SubjectText,
};

fn names() -> Vec<String> {
    vec!["localhost".to_owned(), "127.0.0.1".to_owned()]
}

#[test]
fn a_fresh_authority_issues_credentials() {
    let (pki, key) = Pki::generate("/pki", names()).unwrap();
    assert!(key.contains("PRIVATE KEY"));
    assert_eq!(pki.ca_pem(), "/pki/ca.pem");
    assert_eq!(pki.server_pem(), "/pki/server.pem");
    let ca = pki.ca_pem_string();
    assert!(ca.starts_with("-----BEGIN CERTIFICATE-----"));
    let der = load_cert(ca.as_bytes()).unwrap();
    assert_eq!(der[0], 0x30);
    assert_ne!(der, ca.as_bytes());

    let server = pki.issue_server_cert(names(), "tester").unwrap();
    let chain = load_chain(server.as_bytes()).unwrap();
    assert!(chain.extra.is_empty());
    assert_ne!(chain.leaf, der);
    let key = load_key(server.as_bytes()).unwrap();
    assert_eq!(key[0], 0x30);

    let client = pki.generate_client_cert("tester").unwrap();
    assert_ne!(client, server);
    assert!(load_cert(client.as_bytes()).is_ok());
}

#[test]
fn a_kept_authority_is_served_byte_for_byte() {
    let (pki, key) = Pki::generate("/pki", names()).unwrap();
    let ca = pki.ca_pem_string();
    let again = Pki::load_existing("/pki", ca.clone(), &key).unwrap();
    assert_eq!(again.ca_pem_string(), ca);
    let client = again.generate_client_cert("tester").unwrap();

    // What the reloaded authority signs is checked with the first one's
    // certificate.
    let issuer = openssl::x509::X509::from_pem(ca.as_bytes()).unwrap();
    let issued = openssl::x509::X509::from_pem(client.as_bytes()).unwrap();
    assert!(issued.verify(&issuer.public_key().unwrap()).unwrap());
}

#[test]
fn damaged_authorities_are_not_loaded() {
    let (pki, key) = Pki::generate("/pki", names()).unwrap();
    let ca = pki.ca_pem_string();
    assert!(matches!(
        Pki::load_existing("/pki", ca, "nonsense"),
        Err(PkiError::ParseKey(_))
    ));
    assert!(matches!(
        Pki::load_existing("/pki", "nonsense".to_owned(), &key),
        Err(PkiError::ParseCertificate(_))
    ));
    match Pki::load_existing("/pki", "nonsense".to_owned(), &key) {
        Err(e) => assert_eq!(e.context().as_deref(), Some("parsing persisted CA certificate")),
        Ok(_) => panic!("nonsense was read"),
    }
    assert_eq!(
        PkiError::UnusableSubject.context().as_deref(),
        Some("the CA's name cannot be written out again")
    );
    // The errors of making a certificate are handed on as they are.
    assert_eq!(PkiError::Create(rcgen::Error::RingUnspecified).context(), None);
    assert_eq!(PkiError::Serialize(rcgen::Error::RingUnspecified).context(), None);
}

#[test]
fn a_key_of_another_kind_does_not_fit() {
    let (pki, _) = Pki::generate("/pki", names()).unwrap();
    let other = rcgen::KeyPair::generate(&rcgen::PKCS_ED25519).unwrap().serialize_pem();
    match Pki::load_existing("/pki", pki.ca_pem_string(), &other) {
        Err(e) => {
            assert!(matches!(e, PkiError::Rebuild(_)));
            assert_eq!(e.context().as_deref(), Some("reconstructing CA from persisted params"));
        }
        Ok(_) => panic!("the key was taken"),
    }
}

#[test]
fn every_restart_finds_what_the_first_start_wrote() {
    let (first, key) = Pki::generate("/pki", vec!["".to_owned(), "::1".to_owned()]).unwrap();
    let ca = first.ca_pem_string();
    for _ in 0..3 {
        let again = Pki::load_existing("/pki", ca.clone(), &key).unwrap();
        assert_eq!(again.ca_pem_string(), ca);
    }
}

#[test]
fn files_are_written_beside_their_temporary_name() {
    assert_eq!(
        atomic_dir("/pki/ca.pem", Some("/pki".to_owned())),
        Ok("/pki".to_owned())
    );
    assert_eq!(atomic_dir("ca.pem", Some("".to_owned())), Ok("".to_owned()));
    assert_eq!(atomic_dir("/", None), Err("/ has no parent dir".to_owned()));
    assert_eq!(saving_context("/pki/ca.pem"), "saving /pki/ca.pem");
}

#[test]
fn a_second_start_keeps_the_authority() {
    let (first, key) = Pki::generate("/pki", names()).unwrap();
    let ca = first.ca_pem_string();
    let old_server = first.issue_server_cert(names(), "tester").unwrap();

    let mut step = init_step(true, true, true);
    assert_eq!(step, InitStep::Load);
    assert!(!step.writes(PkiFile::Ca) && !step.writes(PkiFile::CaKey));
    let second = Pki::load_existing("/pki", ca.clone(), &key).unwrap();
    step = step.next(true);
    assert_eq!(step, InitStep::IssueServer { taken_up: true });
    assert!(!step.writes(PkiFile::Ca) && !step.writes(PkiFile::CaKey));
    assert!(step.writes(PkiFile::Server));
    let server = second.issue_server_cert(names(), "tester").unwrap();
    assert_eq!(step.next(true), InitStep::Done);

    assert_eq!(second.ca_pem_string(), ca);
    assert_ne!(server, old_server);
    let issuer = openssl::x509::X509::from_pem(ca.as_bytes()).unwrap();
    let issued = openssl::x509::X509::from_pem(server.as_bytes()).unwrap();
    assert!(issued.verify(&issuer.public_key().unwrap()).unwrap());
}

#[test]
fn subjects_that_cannot_be_written() {
    let part = |custom_type: Option<Vec<u64>>, text: SubjectText| {
        vec![SubjectPart { custom_type, text }]
    };
    assert!(subject_is_writable(&part(None, SubjectText::Printable("rcgen".to_owned()))));
    assert!(subject_is_writable(&Vec::new()));
    assert!(!subject_is_writable(&part(None, SubjectText::Ia5("caf\u{e9}".to_owned()))));
    assert!(!subject_is_writable(&part(None, SubjectText::Printable("a*b".to_owned()))));
    assert!(subject_is_writable(&part(Some(vec![2, 5, 4, 5]), SubjectText::Other)));
    assert!(!subject_is_writable(&part(Some(vec![3, 7]), SubjectText::Other)));
    assert!(!subject_is_writable(&part(Some(vec![1, 40]), SubjectText::Other)));
    assert!(!subject_is_writable(&part(Some(vec![1]), SubjectText::Other)));
}

#[test]
fn profiles() {
    let p = ca_profile(names());
    assert_eq!(p.alt_names, names());
    assert_eq!(p.ca_path_len, Some(1));
    assert_eq!(p.serial_number, Some(0));
    let p = leaf_profile(names(), "tester");
    assert_eq!(p.common_name, "tester");
    assert_eq!(p.ca_path_len, None);
    assert_eq!(p.serial_number, None);
    assert_eq!(credential("cert\n".to_owned(), "key\n"), "cert\nkey\n");
}

#[test]
fn a_complete_directory_is_loaded_first() {
    assert_eq!(init_step(true, true, true), InitStep::Load);
    assert_eq!(init_step(true, false, true), InitStep::Generate);
    assert_eq!(init_step(false, true, true), InitStep::Generate);
    assert_eq!(init_step(true, true, false), InitStep::Generate);
    assert_eq!(InitStep::Load.next(true), InitStep::IssueServer { taken_up: true });
    assert_eq!(InitStep::Load.next(false), InitStep::Generate);
    // An authority that cannot issue is replaced, but a new one is not.
    assert_eq!(InitStep::IssueServer { taken_up: true }.next(false), InitStep::Generate);
    assert_eq!(InitStep::Generate.next(true), InitStep::IssueServer { taken_up: false });
    assert_eq!(InitStep::IssueServer { taken_up: false }.next(false), InitStep::Failed);
    assert_eq!(InitStep::IssueServer { taken_up: false }.next(true), InitStep::Done);
    assert_eq!(InitStep::Generate.next(false), InitStep::Failed);
    assert!(InitStep::Generate.writes(PkiFile::Ca) && InitStep::Generate.writes(PkiFile::CaKey));
    assert!(!InitStep::Generate.writes(PkiFile::Server));
}

#[test]
fn files_with_a_key_are_for_the_owner_alone() {
    assert!(!PkiFile::Ca.is_private());
    assert!(PkiFile::CaKey.is_private());
    assert!(PkiFile::Server.is_private());
    assert_eq!(PkiFile::Ca.name(), "ca.pem");
    assert_eq!(PkiFile::CaKey.name(), "ca-key.pem");
    assert_eq!(PkiFile::Server.name(), "server.pem");
}

#[test]
fn alternative_names_are_ordered_and_unique() {
    let entries = vec![
        AddrEntry { canonname: Some("host.example".to_owned()), ip: "10.0.0.5".to_owned() },
        AddrEntry { canonname: None, ip: "10.0.0.5".to_owned() },
        AddrEntry { canonname: None, ip: "127.0.0.1".to_owned() },
    ];
    assert_eq!(
        compute_alt_names("host", &entries),
        vec!["10.0.0.5", "127.0.0.1", "::1", "host", "host.example", "localhost"]
    );
    assert_eq!(
        compute_alt_names("localhost", &Vec::new()),
        vec!["127.0.0.1", "::1", "localhost"]
    );
}

#[test]
fn private_files_are_restricted_before_they_appear() {
    assert_eq!(AtomicStep::Write.next(true, true), AtomicStep::Restrict);
    assert_eq!(AtomicStep::Restrict.next(true, true), AtomicStep::Rename);
    assert_eq!(AtomicStep::Write.next(false, true), AtomicStep::Rename);
    assert_eq!(AtomicStep::Rename.next(false, true), AtomicStep::Done);
    assert_eq!(AtomicStep::Write.next(false, false), AtomicStep::Failed);
    assert_eq!(
        atomic_temp_path("/pki", Some("ca.pem"), 9),
        "/pki/.ca.pem.tmp-9"
    );
    assert_eq!(atomic_temp_path("/pki", None, 9), "/pki/.pki-file.tmp-9");
    assert_eq!(atomic_temp_path("", Some("ca.pem"), 7), ".ca.pem.tmp-7");
    assert_eq!(atomic_temp_path("/", Some("ca.pem"), 7), "/.ca.pem.tmp-7");
}

#[test]
fn chains_are_split_after_the_first() {
    assert!(split_chain(Vec::new()).is_none());
    let c = split_chain(vec![vec![1], vec![2], vec![3]]).unwrap();
    assert_eq!(c.leaf, vec![1]);
    assert_eq!(c.extra, vec![vec![2], vec![3]]);
}

#[test]
fn chains_are_read_in_order() {
    let (a, _) = Pki::generate("/a", names()).unwrap();
    let (b, _) = Pki::generate("/b", names()).unwrap();
    let both = format!("{}{}", a.ca_pem_string(), b.ca_pem_string());
    let c = load_chain(both.as_bytes()).unwrap();
    assert_eq!(c.leaf, load_cert(a.ca_pem_string().as_bytes()).unwrap());
    assert_eq!(c.extra, vec![load_cert(b.ca_pem_string().as_bytes()).unwrap()]);
}

#[test]
fn unreadable_pem_is_an_error() {
    assert!(matches!(load_cert(b"nonsense"), Err(PemError::Unreadable(_))));
    assert!(matches!(load_key(b"nonsense"), Err(PemError::Unreadable(_))));
    assert!(load_chain(b"nonsense").is_err());
    let e = load_key(b"nonsense").unwrap_err();
    assert_eq!(
        e.message(PemUse::PrivateKey, "/k.pem").as_deref(),
        Some("parsing private key /k.pem for TLS client")
    );
    assert_eq!(
        PemError::TooLong.message(PemUse::Certificate, "/c.pem").as_deref(),
        Some("loading certificate /c.pem for TLS client")
    );
    assert_eq!(
        PemError::EmptyChain.message(PemUse::Chain, "/c.pem").as_deref(),
        Some("certificate chain /c.pem contains no certificates")
    );
    assert_eq!(PemError::TooLong.message(PemUse::Trusted, "/c.pem"), None);
}

#[test]
fn what_is_said_of_each_file() {
    for (purpose, part, text) in [
        (PemUse::Certificate, PemPart::Read, "loading certificate"),
        (PemUse::Certificate, PemPart::Parse, "loading certificate"),
        (PemUse::Certificate, PemPart::Use, "set_certificate from"),
        (PemUse::Chain, PemPart::Read, "reading certificate chain"),
        (PemUse::Chain, PemPart::Parse, "parsing certificate chain"),
        (PemUse::Chain, PemPart::Use, "set_certificate from chain"),
        (PemUse::Chain, PemPart::UseExtra, "add_extra_chain_cert from"),
        (PemUse::PrivateKey, PemPart::Read, "reading private key"),
        (PemUse::PrivateKey, PemPart::Parse, "parsing private key"),
        (PemUse::PrivateKey, PemPart::Use, "set_private_key from"),
    ] {
        assert_eq!(
            purpose.context(part, "/c.pem"),
            Some(format!("{} /c.pem for TLS client", text))
        );
        assert_eq!(PemUse::Trusted.context(part, "/c.pem"), None);
    }
    assert_eq!(reading_context("/pki/ca.pem"), "reading /pki/ca.pem");
}

#[test]
fn a_directory_gives_the_readable_certificates() {
    let (a, _) = Pki::generate("/a", names()).unwrap();
    let pem = a.ca_pem_string();
    let files = vec![None, Some(b"nonsense".to_vec()), Some(pem.clone().into_bytes())];
    assert_eq!(
        load_directory(&files),
        vec![load_cert(pem.as_bytes()).unwrap()]
    );
}

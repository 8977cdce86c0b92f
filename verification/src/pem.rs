//! Certificates and keys in PEM files, read from memory. What a file holds is
//! handed on in DER, the encoding that PEM wraps.

use crate::text::{join3, text_of_option};
use vstd::prelude::*;

verus! {

/// The longest input that OpenSSL's memory buffers take.
pub const PEM_LIMIT: usize = 0x7fff_ffff;

/// The error list of OpenSSL.
#[verifier::external_type_specification]
#[verifier::external_body]
pub struct ExErrorStack(openssl::error::ErrorStack);

/// "ENCRYPTED", which stands in every PEM text that takes a passphrase to read.
pub open spec fn encryption_mark() -> Seq<u8> {
    seq![69u8, 78, 67, 82, 89, 80, 84, 69, 68]
}

/// A PEM text that takes no passphrase to read. OpenSSL asks the user for one
/// where a text does.
pub open spec fn is_plain(pem: Seq<u8>) -> bool {
    forall|i: int|
        0 <= i <= pem.len() - 9 ==> #[trigger] pem.subrange(i, i + 9) != encryption_mark()
}

/// The certificate that `openssl::x509::X509::from_pem` finds in a text, in
/// DER, where it finds one.
pub uninterp spec fn pem_certificate(pem: Seq<u8>) -> Option<Seq<u8>>;

/// The certificates that `openssl::x509::X509::stack_from_pem` finds in a text,
/// in DER and in order, where it can read them all.
pub uninterp spec fn pem_certificates(pem: Seq<u8>) -> Option<Seq<Seq<u8>>>;

/// Whether `openssl::pkey::PKey::private_key_from_pem` may read a text as the
/// given private key, in DER, or as none. Which keys can be read, and how they
/// are written, is up to the providers that OpenSSL is configured with.
pub uninterp spec fn may_read_key(pem: Seq<u8>, key: Option<Seq<u8>>) -> bool;

/// `openssl::x509::X509::from_pem` reads the first certificate of a PEM text.
/// Its result is handed on by `to_der`. Both depend on the text alone, where it
/// takes no passphrase.
#[verifier::external_body]
fn x509_from_pem(pem: &[u8]) -> (r: Result<Vec<u8>, openssl::error::ErrorStack>)
    requires
        pem@.len() <= PEM_LIMIT,
    ensures
        is_plain(pem@) ==> match r {
            Ok(der) => pem_certificate(pem@) == Some(der@),
            Err(_) => pem_certificate(pem@) is None,
        },
{
    openssl::x509::X509::from_pem(pem)?.to_der()
}

/// `openssl::x509::X509::stack_from_pem` reads all certificates of a PEM text,
/// in order; it fails on one that it cannot read, and finds none in a text
/// without any. Each is handed on by `to_der`. What it finds depends on the text
/// alone, where that takes no passphrase.
#[verifier::external_body]
fn x509_stack_from_pem(pem: &[u8]) -> (r: Result<Vec<Vec<u8>>, openssl::error::ErrorStack>)
    requires
        pem@.len() <= PEM_LIMIT,
    ensures
        is_plain(pem@) ==> match r {
            Ok(certs) => pem_certificates(pem@) == Some(byte_texts(certs@)),
            Err(_) => pem_certificates(pem@) is None,
        },
{
    openssl::x509::X509::stack_from_pem(pem)?.iter().map(|cert| cert.to_der()).collect()
}

/// `openssl::pkey::PKey::private_key_from_pem` reads a private key. Its result
/// is handed on by `private_key_to_der`. What is said is that the key which
/// comes back, or that none does, is what the text may be read as; which of
/// them it is is left open.
#[verifier::external_body]
fn private_key_from_pem(pem: &[u8]) -> (r: Result<Vec<u8>, openssl::error::ErrorStack>)
    requires
        pem@.len() <= PEM_LIMIT,
    ensures
        match r {
            Ok(der) => may_read_key(pem@, Some(der@)),
            Err(_) => may_read_key(pem@, None),
        },
{
    openssl::pkey::PKey::private_key_from_pem(pem)?.private_key_to_der()
}

/// The contents of a vector of byte vectors.
pub open spec fn byte_texts(v: Seq<Vec<u8>>) -> Seq<Seq<u8>> {
    v.map_values(|b: Vec<u8>| b@)
}

/// Why a file is of no use.
#[derive(Debug)]
pub enum PemError {
    /// OpenSSL could not read it.
    Unreadable(openssl::error::ErrorStack),
    /// A chain holds no certificate.
    EmptyChain,
    /// It is longer than OpenSSL takes.
    TooLong,
}

/// What a file is read for.
#[derive(Debug, Clone, Copy, PartialEq, Eq, Structural)]
pub enum PemUse {
    Certificate,
    Chain,
    PrivateKey,
    /// A certificate to trust.
    Trusted,
}

/// What is done with a file.
#[derive(Debug, Clone, Copy, PartialEq, Eq, Structural)]
pub enum PemPart {
    Read,
    Parse,
    /// Set what it holds, for a chain the first certificate.
    Use,
    /// Add one of the other certificates of a chain.
    UseExtra,
}

impl PemUse {
    /// What is said to have been done when it failed. A certificate is read and
    /// parsed in one; of one that is only to be trusted nothing is said.
    pub open spec fn text(self, part: PemPart, file: Seq<char>) -> Option<Seq<char>> {
        let verb = match (self, part) {
            (PemUse::Trusted, _) => None,
            (PemUse::Certificate, PemPart::Use) => Some("set_certificate from "@),
            (PemUse::Certificate, _) => Some("loading certificate "@),
            (PemUse::Chain, PemPart::Read) => Some("reading certificate chain "@),
            (PemUse::Chain, PemPart::Parse) => Some("parsing certificate chain "@),
            (PemUse::Chain, PemPart::Use) => Some("set_certificate from chain "@),
            (PemUse::Chain, PemPart::UseExtra) => Some("add_extra_chain_cert from "@),
            (PemUse::PrivateKey, PemPart::Read) => Some("reading private key "@),
            (PemUse::PrivateKey, PemPart::Parse) => Some("parsing private key "@),
            (PemUse::PrivateKey, _) => Some("set_private_key from "@),
        };
        match verb {
            Some(v) => Some(v + file + " for TLS client"@),
            None => None,
        }
    }

    /// What is said to have been done with the file when it failed.
    pub fn context(self, part: PemPart, file: &str) -> (s: Option<String>)
        ensures
            text_of_option(s) == self.text(part, file@),
    {
        let verb = match (self, part) {
            (PemUse::Trusted, _) => {
                return None;
            },
            (PemUse::Certificate, PemPart::Use) => "set_certificate from ",
            (PemUse::Certificate, _) => "loading certificate ",
            (PemUse::Chain, PemPart::Read) => "reading certificate chain ",
            (PemUse::Chain, PemPart::Parse) => "parsing certificate chain ",
            (PemUse::Chain, PemPart::Use) => "set_certificate from chain ",
            (PemUse::Chain, PemPart::UseExtra) => "add_extra_chain_cert from ",
            (PemUse::PrivateKey, PemPart::Read) => "reading private key ",
            (PemUse::PrivateKey, PemPart::Parse) => "parsing private key ",
            (PemUse::PrivateKey, _) => "set_private_key from ",
        };
        Some(join3(verb, file, " for TLS client"))
    }
}

impl PemError {
    pub open spec fn text(&self, purpose: PemUse, file: Seq<char>) -> Option<Seq<char>> {
        match *self {
            PemError::EmptyChain => Some(
                "certificate chain "@ + file + " contains no certificates"@,
            ),
            _ => purpose.text(PemPart::Parse, file),
        }
    }

    /// What is said of it, of the file with the given name, beside OpenSSL's own
    /// error.
    pub fn message(&self, purpose: PemUse, file: &str) -> (s: Option<String>)
        ensures
            text_of_option(s) == self.text(purpose, file@),
    {
        match self {
            PemError::EmptyChain => Some(
                join3("certificate chain ", file, " contains no certificates"),
            ),
            _ => purpose.context(PemPart::Parse, file),
        }
    }
}

/// What a file is read as, given what OpenSSL read.
pub fn read_result(found: Result<Vec<u8>, openssl::error::ErrorStack>) -> (r: Result<
    Vec<u8>,
    PemError,
>)
    ensures
        match found {
            Ok(der) => r == Ok::<Vec<u8>, PemError>(der),
            Err(e) => r == Err::<Vec<u8>, PemError>(PemError::Unreadable(e)),
        },
{
    match found {
        Ok(der) => Ok(der),
        Err(e) => Err(PemError::Unreadable(e)),
    }
}

/// A chain as it is presented: the certificate itself, and those that are sent
/// along with it.
#[derive(Debug)]
pub struct Chain {
    pub leaf: Vec<u8>,
    pub extra: Vec<Vec<u8>>,
}

/// Takes a list of certificates apart: the first is the certificate itself.
pub fn split_chain(certs: Vec<Vec<u8>>) -> (r: Option<Chain>)
    ensures
        match r {
            Some(chain) => certs@.len() > 0 && chain.leaf@ == certs@[0]@ && byte_texts(
                chain.extra@,
            ) == byte_texts(certs@).skip(1),
            None => certs@.len() == 0,
        },
{
    if certs.len() == 0 {
        return None;
    }
    let mut extra = certs;
    let leaf = extra.remove(0);
    assert(byte_texts(extra@) =~= byte_texts(certs@).skip(1)) by {
        assert forall|i: int| 0 <= i < extra@.len() implies #[trigger] byte_texts(extra@)[i]
            == byte_texts(certs@).skip(1)[i] by {
            assert(extra@[i] == certs@[i + 1]);
        }
    }
    Some(Chain { leaf, extra })
}

/// Reads a certificate file.
pub fn load_cert(pem: &[u8]) -> (r: Result<Vec<u8>, PemError>)
    ensures
        match r {
            Ok(der) => pem@.len() <= PEM_LIMIT && (is_plain(pem@) ==> pem_certificate(pem@)
                == Some(der@)),
            Err(PemError::Unreadable(_)) => pem@.len() <= PEM_LIMIT && (is_plain(pem@)
                ==> pem_certificate(pem@) is None),
            Err(PemError::EmptyChain) => false,
            Err(PemError::TooLong) => pem@.len() > PEM_LIMIT,
        },
{
    if pem.len() > PEM_LIMIT {
        return Err(PemError::TooLong);
    }
    read_result(x509_from_pem(pem))
}

/// Reads a chain file: its first certificate is the certificate itself.
pub fn load_chain(pem: &[u8]) -> (r: Result<Chain, PemError>)
    ensures
        match r {
            Ok(chain) => pem@.len() <= PEM_LIMIT && (is_plain(pem@) ==> pem_certificates(pem@)
                == Some(seq![chain.leaf@] + byte_texts(chain.extra@))),
            Err(PemError::Unreadable(_)) => pem@.len() <= PEM_LIMIT && (is_plain(pem@)
                ==> pem_certificates(pem@) is None),
            Err(PemError::EmptyChain) => pem@.len() <= PEM_LIMIT && (is_plain(pem@)
                ==> pem_certificates(pem@) == Some(Seq::<Seq<u8>>::empty())),
            Err(PemError::TooLong) => pem@.len() > PEM_LIMIT,
        },
{
    if pem.len() > PEM_LIMIT {
        return Err(PemError::TooLong);
    }
    let certs = match x509_stack_from_pem(pem) {
        Ok(certs) => certs,
        Err(e) => {
            return Err(PemError::Unreadable(e));
        },
    };
    let ghost all = byte_texts(certs@);
    assert(all.len() == certs@.len());
    match split_chain(certs) {
        Some(chain) => {
            assert(all == seq![all[0]] + all.skip(1));
            Ok(chain)
        },
        None => {
            assert(all == Seq::<Seq<u8>>::empty());
            Err(PemError::EmptyChain)
        },
    }
}

/// Reads a private key file. Whether OpenSSL can read it is left open;
/// [`read_result`] says what follows either way.
pub fn load_key(pem: &[u8]) -> (r: Result<Vec<u8>, PemError>)
    ensures
        match r {
            Ok(der) => pem@.len() <= PEM_LIMIT && may_read_key(pem@, Some(der@)),
            Err(PemError::Unreadable(_)) => pem@.len() <= PEM_LIMIT && may_read_key(pem@, None),
            Err(PemError::EmptyChain) => false,
            Err(PemError::TooLong) => pem@.len() > PEM_LIMIT,
        },
{
    if pem.len() > PEM_LIMIT {
        return Err(PemError::TooLong);
    }
    read_result(private_key_from_pem(pem))
}

/// The certificates of a directory of trusted files: those that could be read
/// and hold one; the others are passed over.
pub open spec fn readable_certificates(files: Seq<Option<Vec<u8>>>) -> Seq<Seq<u8>>
    decreases files.len(),
{
    if files.len() == 0 {
        Seq::empty()
    } else {
        let rest = readable_certificates(files.drop_last());
        match files.last() {
            Some(pem) => if pem@.len() <= PEM_LIMIT && pem_certificate(pem@) is Some {
                rest.push(pem_certificate(pem@)->0)
            } else {
                rest
            },
            None => rest,
        }
    }
}

/// Whether none of the files takes a passphrase to read.
pub open spec fn all_plain(files: Seq<Option<Vec<u8>>>) -> bool {
    forall|i: int| 0 <= i < files.len() ==> ((#[trigger] files[i]) matches Some(pem) ==> is_plain(pem@))
}

/// Reads the files of a directory of trusted certificates. `None` stands for a
/// file that could not be read.
pub fn load_directory(files: &Vec<Option<Vec<u8>>>) -> (certs: Vec<Vec<u8>>)
    ensures
        all_plain(files@) ==> byte_texts(certs@) == readable_certificates(files@),
{
    let mut certs: Vec<Vec<u8>> = Vec::new();
    let mut i: usize = 0;
    assert(byte_texts(certs@) == readable_certificates(files@.take(0)));
    while i < files.len()
        invariant
            i <= files.len(),
            all_plain(files@) ==> byte_texts(certs@) == readable_certificates(
                files@.take(i as int),
            ),
        decreases files.len() - i,
    {
        assert(files@.take(i + 1).drop_last() == files@.take(i as int));
        assert(files@.take(i + 1).last() == files@[i as int]);
        let ghost before = certs@;
        if let Some(pem) = &files[i] {
            if let Ok(der) = load_cert(pem.as_slice()) {
                certs.push(der);
                assert(byte_texts(certs@) == byte_texts(before).push(der@));
            }
        }
        i = i + 1;
    }
    assert(files@.take(i as int) == files@);
    certs
}

/// The files of a directory are taken one by one: one that cannot be read, is too
/// long or holds no certificate adds nothing, one that holds a certificate adds
/// that, and what a directory holds is what its files hold, in their order.
pub proof fn directories_are_read_file_by_file(
    a: Seq<Option<Vec<u8>>>,
    b: Seq<Option<Vec<u8>>>,
    file: Option<Vec<u8>>,
)
    ensures
        readable_certificates(a + b) == readable_certificates(a) + readable_certificates(b),
        readable_certificates(seq![file]) == if file is Some && file->0@.len() <= PEM_LIMIT
            && pem_certificate(file->0@) is Some {
            seq![pem_certificate(file->0@)->0]
        } else {
            Seq::<Seq<u8>>::empty()
        },
    decreases b.len(),
{
    assert(seq![file].drop_last() == Seq::<Option<Vec<u8>>>::empty());
    assert(readable_certificates(Seq::<Option<Vec<u8>>>::empty()) == Seq::<Seq<u8>>::empty());
    if b.len() == 0 {
        assert(a + b == a);
    } else {
        directories_are_read_file_by_file(a, b.drop_last(), file);
        assert((a + b).drop_last() == a + b.drop_last());
        assert((a + b).last() == b.last());
    }
}

} // verus!

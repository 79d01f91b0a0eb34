//! Certificates: what a pair of files must hold, and when it is read again.
//!
//! A pair of files that does not load leaves the previous certificate serving, and is tried again
//! until it loads.

use rustls::pki_types::{CertificateDer, PrivateKeyDer};
use vstd::prelude::*;

verus! {

/// How often the files are looked at, in milliseconds.
pub const RELOAD_INTERVAL_MS: u64 = 30_000;

/// Enough of a file to notice that it was replaced.
#[derive(Debug, Clone, Copy, PartialEq, Eq, Structural)]
pub struct FileStamp {
    pub mtime: i64,
    pub mtime_nsec: i64,
    pub len: u64,
    pub ino: u64,
}

/// The stamps of a certificate and of its key.
#[derive(Debug, Clone, Copy, PartialEq, Eq, Structural)]
pub struct Stamp {
    pub cert: FileStamp,
    pub key: FileStamp,
}

/// Which files the certificate that is serving came from.
#[derive(Debug, Clone, Copy, PartialEq, Eq, Structural)]
pub struct Serving {
    pub stamp: Stamp,
}

/// What to do once the files were looked at.
#[derive(Debug, Clone, Copy, PartialEq, Eq, Structural)]
pub enum Look {
    Keep,
    Load,
}

impl Serving {
    pub fn new(stamp: Stamp) -> (r: Serving)
        ensures
            r == (Serving { stamp }),
    {
        Serving { stamp }
    }

    /// Whether to read the pair, given the stamps of the files now. Files that cannot be looked at
    /// are left for the next time.
    pub open spec fn wants(self, seen: Option<Stamp>) -> Look {
        if seen is Some && seen->0 != self.stamp {
            Look::Load
        } else {
            Look::Keep
        }
    }

    /// Whether to read the pair, given the stamps of the files now.
    pub fn look(&self, seen: Option<Stamp>) -> (r: Look)
        ensures
            r == self.wants(seen),
    {
        match seen {
            Some(stamp) => if stamp == self.stamp {
                Look::Keep
            } else {
                Look::Load
            },
            None => Look::Keep,
        }
    }

    /// What serves once the pair with these stamps was tried.
    pub open spec fn tried(self, stamp: Stamp, ok: bool) -> Serving {
        if ok {
            Serving { stamp }
        } else {
            self
        }
    }

    /// Notes whether the pair with these stamps was loaded.
    pub fn loaded(&mut self, stamp: Stamp, ok: bool)
        ensures
            *final(self) == old(self).tried(stamp, ok),
    {
        if ok {
            self.stamp = stamp;
        }
    }
}

/// A pair that does not load is tried again at the next look, and one that loads is not.
pub proof fn a_bad_pair_is_tried_again(s: Serving, seen: Stamp)
    requires
        s.wants(Some(seen)) == Look::Load,
    ensures
        s.tried(seen, false).wants(Some(seen)) == Look::Load,
        s.tried(seen, true).wants(Some(seen)) == Look::Keep,
{
}

/// A private key in the encoding in which it was found.
pub enum KeyDer {
    Pkcs1(Vec<u8>),
    Sec1(Vec<u8>),
    Pkcs8(Vec<u8>),
}

/// The model of a [`KeyDer`].
pub enum KeyModel {
    Pkcs1(Seq<u8>),
    Sec1(Seq<u8>),
    Pkcs8(Seq<u8>),
}

impl View for KeyDer {
    type V = KeyModel;

    open spec fn view(&self) -> KeyModel {
        match self {
            KeyDer::Pkcs1(b) => KeyModel::Pkcs1(b@),
            KeyDer::Sec1(b) => KeyModel::Sec1(b@),
            KeyDer::Pkcs8(b) => KeyModel::Pkcs8(b@),
        }
    }
}

/// `rustls::sign::CertifiedKey`.
#[verifier::external_type_specification]
#[verifier::external_body]
pub struct ExCertifiedKey(rustls::sign::CertifiedKey);

/// The certificates that the sections of a PEM text hold, or what is wrong with the text.
pub uninterp spec fn pem_chain(pem: Seq<u8>) -> Result<Seq<Seq<u8>>, Seq<char>>;

/// The model of a chain, or of what is wrong.
pub open spec fn chain_model(r: Result<Vec<Vec<u8>>, String>) -> Result<Seq<Seq<u8>>, Seq<char>> {
    match r {
        Ok(v) => Ok(v.deep_view()),
        Err(e) => Err(e@),
    }
}

/// The model of a key that may be missing, or of what is wrong.
pub open spec fn key_model(r: Result<Option<KeyDer>, String>) -> Result<
    Option<KeyModel>,
    Seq<char>,
> {
    match r {
        Ok(Some(k)) => Ok(Some(k@)),
        Ok(None) => Ok(None),
        Err(e) => Err(e@),
    }
}

/// `rustls_pemfile::certs` over the bytes, up to the first error; it goes by the name
/// [`pem_chain`].
#[verifier::external_body]
fn read_certificates(pem: &[u8]) -> (r: Result<Vec<Vec<u8>>, String>)
    ensures
        chain_model(r) == pem_chain(pem@),
{
    let mut rest = pem;
    let found: Result<Vec<_>, _> = rustls_pemfile::certs(&mut rest).collect();
    match found {
        Ok(chain) => Ok(chain.iter().map(|c| c.to_vec()).collect()),
        Err(e) => Err(e.to_string()),
    }
}

/// The first private key that a PEM text holds, none where it holds none, or what is wrong with the
/// text.
pub uninterp spec fn pem_key(pem: Seq<u8>) -> Result<Option<KeyModel>, Seq<char>>;

/// `rustls_pemfile::private_key` over the bytes; it goes by the name [`pem_key`]. A key comes in one
/// of three encodings, and of any other the function knows nothing.
#[verifier::external_body]
fn read_private_key(pem: &[u8]) -> (r: Result<Option<KeyDer>, String>)
    ensures
        key_model(r) == pem_key(pem@),
{
    let mut rest = pem;
    match rustls_pemfile::private_key(&mut rest) {
        Ok(Some(PrivateKeyDer::Pkcs1(k))) => Ok(Some(KeyDer::Pkcs1(k.secret_pkcs1_der().to_vec()))),
        Ok(Some(PrivateKeyDer::Sec1(k))) => Ok(Some(KeyDer::Sec1(k.secret_sec1_der().to_vec()))),
        Ok(Some(PrivateKeyDer::Pkcs8(k))) => Ok(Some(KeyDer::Pkcs8(k.secret_pkcs8_der().to_vec()))),
        Ok(_) => Ok(None),
        Err(e) => Err(e.to_string()),
    }
}

/// A certificate chain with its key, ready to be served.
pub struct Certified {
    key: rustls::sign::CertifiedKey,
    chain: Ghost<Seq<Seq<u8>>>,
    from: Ghost<KeyModel>,
}

impl Certified {
    /// The chain that it was made of.
    pub closed spec fn chain(&self) -> Seq<Seq<u8>> {
        self.chain@
    }

    /// The key that it was made of.
    pub closed spec fn from(&self) -> KeyModel {
        self.from@
    }

    /// What is served.
    pub closed spec fn served(&self) -> rustls::sign::CertifiedKey {
        self.key
    }

    /// What is served.
    pub fn into_key(self) -> (r: rustls::sign::CertifiedKey)
        ensures
            r == self.served(),
    {
        self.key
    }
}

/// `rustls::sign::CertifiedKey::from_der` with the provider that `ring` backs, on this chain and this
/// key. What it makes is of that chain and that key. Whether it makes anything is left unsaid: a key
/// on an elliptic curve is loaded with random numbers from the system, and not without them.
#[verifier::external_body]
fn certify(chain: &Vec<Vec<u8>>, key: &KeyDer) -> (r: Result<Certified, String>)
    ensures
        r matches Ok(c) ==> c.chain() == chain.deep_view() && c.from() == key@,
{
    let (made, from) = (Ghost(chain.deep_view()), Ghost(key@));
    let certificates = chain.iter().map(|c| CertificateDer::from(c.clone())).collect();
    let secret = match key {
        KeyDer::Pkcs1(b) => PrivateKeyDer::Pkcs1(b.clone().into()),
        KeyDer::Sec1(b) => PrivateKeyDer::Sec1(b.clone().into()),
        KeyDer::Pkcs8(b) => PrivateKeyDer::Pkcs8(b.clone().into()),
    };
    let provider = rustls::crypto::ring::default_provider();
    match rustls::sign::CertifiedKey::from_der(certificates, secret, &provider) {
        Ok(key) => Ok(Certified { key, chain: made, from }),
        Err(e) => Err(e.to_string()),
    }
}

/// Whether this is what came of having a chain and a key made ready to be served.
pub closed spec fn was_said(
    chain: Seq<Seq<u8>>,
    key: KeyModel,
    said: Result<Certified, String>,
) -> bool {
    exists|c: Vec<Vec<u8>>, k: KeyDer|
        c.deep_view() == chain && k@ == key && #[trigger] call_ensures(certify, (&c, &k), said)
}

/// What is said of a file.
pub open spec fn said_of(path: Seq<char>, detail: Seq<char>) -> Seq<char> {
    path + ": "@ + detail
}

fn invalid(path: &str, detail: &str) -> (r: String)
    ensures
        r@ == said_of(path@, detail@),
{
    let mut s = path.to_owned();
    s.append(": ");
    s.append(detail);
    s
}

/// What the sections of the file with the chain come to: at least one certificate.
pub open spec fn chain_in(path: Seq<char>, found: Result<Seq<Seq<u8>>, Seq<char>>) -> Result<
    Seq<Seq<u8>>,
    Seq<char>,
> {
    match found {
        Ok(c) if c.len() == 0 => Err(said_of(path, "no PEM certificate in this file"@)),
        _ => found,
    }
}

/// What the sections of the file with the key come to: a key.
pub open spec fn key_in(path: Seq<char>, found: Result<Option<KeyModel>, Seq<char>>) -> Result<
    KeyModel,
    Seq<char>,
> {
    match found {
        Ok(Some(k)) => Ok(k),
        Ok(None) => Err(said_of(path, "no PEM private key in this file"@)),
        Err(e) => Err(e),
    }
}

/// What becomes of what was found in the file with the chain.
pub fn checked_chain(path: &str, found: Result<Vec<Vec<u8>>, String>) -> (r: Result<
    Vec<Vec<u8>>,
    String,
>)
    ensures
        chain_model(r) == chain_in(path@, chain_model(found)),
{
    match found {
        Ok(c) => {
            assert(c.deep_view().len() == c@.len());
            if c.len() == 0 {
                Err(invalid(path, "no PEM certificate in this file"))
            } else {
                Ok(c)
            }
        },
        Err(e) => Err(e),
    }
}

/// What becomes of what was found in the file with the key.
pub fn checked_key(path: &str, found: Result<Option<KeyDer>, String>) -> (r: Result<KeyDer, String>)
    ensures
        match (r, key_in(path@, key_model(found))) {
            (Ok(k), Ok(m)) => k@ == m,
            (Err(e), Err(m)) => e@ == m,
            _ => false,
        },
{
    match found {
        Ok(Some(k)) => Ok(k),
        Ok(None) => Err(invalid(path, "no PEM private key in this file")),
        Err(e) => Err(e),
    }
}

/// Reads the file with the chain.
pub fn load_chain(path: &str, pem: &[u8]) -> (r: Result<Vec<Vec<u8>>, String>)
    ensures
        chain_model(r) == chain_in(path@, pem_chain(pem@)),
{
    checked_chain(path, read_certificates(pem))
}

/// Reads the file with the key.
pub fn load_key(path: &str, pem: &[u8]) -> (r: Result<KeyDer, String>)
    ensures
        match (r, key_in(path@, pem_key(pem@))) {
            (Ok(k), Ok(m)) => k@ == m,
            (Err(e), Err(m)) => e@ == m,
            _ => false,
        },
{
    checked_key(path, read_private_key(pem))
}

/// What becomes of what was made of a chain and a key: where nothing was, why is said of the file
/// with the chain.
pub fn usable(cert: &str, said: Result<Certified, String>) -> (r: Result<Certified, String>)
    ensures
        match said {
            Ok(c) => r == Ok::<Certified, String>(c),
            Err(e) => r matches Err(x) && x@ == said_of(
                cert@,
                "unusable certificate and key: "@ + e@,
            ),
        },
{
    match said {
        Ok(c) => Ok(c),
        Err(e) => {
            let mut detail = "unusable certificate and key: ".to_string();
            detail.append(e.as_str());
            Err(invalid(cert, detail.as_str()))
        },
    }
}

/// Makes of the contents of a pair of files what can be served, or says what is wrong with them: with
/// the chain first, then with the key, then with both together.
pub fn certified_key(cert: &str, cert_pem: &[u8], key: &str, key_pem: &[u8]) -> (r: Result<
    Certified,
    String,
>)
    ensures
        match (chain_in(cert@, pem_chain(cert_pem@)), key_in(key@, pem_key(key_pem@))) {
            (Err(e), _) => r matches Err(x) && x@ == e,
            (Ok(_), Err(e)) => r matches Err(x) && x@ == e,
            (Ok(c), Ok(k)) => match r {
                Ok(x) => was_said(c, k, Ok(x)) && x.chain() == c && x.from() == k,
                Err(x) => exists|e: String|
                    #![trigger was_said(c, k, Err(e))]
                    was_said(c, k, Err(e)) && x@ == said_of(
                        cert@,
                        "unusable certificate and key: "@ + e@,
                    ),
            },
        },
{
    let chain = match load_chain(cert, cert_pem) {
        Ok(c) => c,
        Err(e) => {
            return Err(e);
        },
    };
    let secret = match load_key(key, key_pem) {
        Ok(k) => k,
        Err(e) => {
            return Err(e);
        },
    };
    let said = certify(&chain, &secret);
    assert(was_said(chain.deep_view(), secret@, said));
    usable(cert, said)
}

/// A pair is read again exactly where its files were looked at and have another stamp than the pair
/// that is served.
pub proof fn a_pair_is_read_when_it_has_changed(s: Serving, seen: Stamp)
    ensures
        s.wants(None) == Look::Keep,
        s.wants(Some(s.stamp)) == Look::Keep,
        seen != s.stamp ==> s.wants(Some(seen)) == Look::Load,
        s.tried(seen, true).stamp == seen,
        s.tried(seen, false).stamp == s.stamp,
{
}

/// Files without a certificate, or without a key, are refused, each with a message that begins with
/// its own path; what was found is otherwise handed on as it is, and so is why nothing was.
pub proof fn a_refusal_names_its_file(
    path: Seq<char>,
    chain: Seq<Seq<u8>>,
    key: KeyModel,
    why: Seq<char>,
)
    ensures
        chain.len() > 0 ==> chain_in(path, Ok(chain)) == Ok::<Seq<Seq<u8>>, Seq<char>>(chain),
        chain.len() == 0 ==> (chain_in(path, Ok(chain)) matches Err(m) && m.take(path.len() as int)
            == path && m.len() > path.len()),
        chain_in(path, Err(why)) == Err::<Seq<Seq<u8>>, Seq<char>>(why),
        key_in(path, Ok(Some(key))) == Ok::<KeyModel, Seq<char>>(key),
        key_in(path, Ok(None)) matches Err(m) && m.take(path.len() as int) == path && m.len()
            > path.len(),
        key_in(path, Err(why)) == Err::<KeyModel, Seq<char>>(why),
{
    reveal_strlit(": ");
    let a = said_of(path, "no PEM certificate in this file"@);
    let b = said_of(path, "no PEM private key in this file"@);
    assert(a.take(path.len() as int) =~= path);
    assert(b.take(path.len() as int) =~= path);
}

} // verus!

//! The certificates and the key of a TLS listener, as they are read from PEM files.
use tokio_rustls::rustls::pki_types::PrivateKeyDer;
use vstd::prelude::*;

verus! {

/// The encodings of a private key.
#[derive(Clone, Copy, Debug, PartialEq, Eq, Structural)]
pub enum KeyEncoding {
    Pkcs1,
    Sec1,
    Pkcs8,
}

/// A private key.
pub struct PrivateKey {
    pub encoding: KeyEncoding,
    pub der: Vec<u8>,
}

/// The content of a [`PrivateKey`].
pub struct PrivateKeyView {
    pub encoding: KeyEncoding,
    pub der: Seq<u8>,
}

impl View for PrivateKey {
    type V = PrivateKeyView;

    open spec fn view(&self) -> PrivateKeyView {
        PrivateKeyView { encoding: self.encoding, der: self.der@ }
    }
}

/// Why the certificates or the key could not be read.
pub enum TlsError {
    /// The file is not what it should be, and this is what is wrong with it.
    Malformed(String),
    /// There is no private key in the file.
    MissingKey,
    /// The file with the private key cannot be read.
    UnreadKey,
}

/// The content of a [`TlsError`].
pub enum TlsErrorView {
    Malformed(Seq<char>),
    MissingKey,
    UnreadKey,
}

impl View for TlsError {
    type V = TlsErrorView;

    open spec fn view(&self) -> TlsErrorView {
        match self {
            TlsError::Malformed(text) => TlsErrorView::Malformed(text@),
            TlsError::MissingKey => TlsErrorView::MissingKey,
            TlsError::UnreadKey => TlsErrorView::UnreadKey,
        }
    }
}

impl TlsError {
    /// What the operator is told.
    pub open spec fn words(self) -> Seq<char> {
        match self {
            TlsError::Malformed(text) => text@,
            TlsError::MissingKey => "missing TLS private key"@,
            TlsError::UnreadKey => "unreadable TLS private key"@,
        }
    }

    /// What the operator is told.
    pub fn message(&self) -> (text: String)
        ensures
            text@ == self.words(),
    {
        match self {
            TlsError::Malformed(text) => text.clone(),
            TlsError::MissingKey => "missing TLS private key".to_owned(),
            TlsError::UnreadKey => "unreadable TLS private key".to_owned(),
        }
    }
}

/// What `rustls_pemfile::certs` finds in a PEM file: its certificates in their order, or what is
/// wrong with the file.
pub uninterp spec fn pem_certificates(pem: Seq<u8>) -> Result<Seq<Seq<u8>>, Seq<char>>;

/// What `rustls_pemfile::private_key` finds in a PEM file: its first private key, if it has one,
/// or what is wrong with the file.
pub uninterp spec fn pem_private_key(pem: Seq<u8>) -> Result<Option<PrivateKeyView>, Seq<char>>;

/// `rustls_pemfile::certs` on the bytes of a file: the outcome depends on these alone.
#[verifier::external_body]
fn parse_certificates(pem: &[u8]) -> (parsed: Result<Vec<Vec<u8>>, String>)
    ensures
        match parsed {
            Ok(list) => pem_certificates(pem@) == Ok::<Seq<Seq<u8>>, Seq<char>>(list.deep_view()),
            Err(text) => pem_certificates(pem@) == Err::<Seq<Seq<u8>>, Seq<char>>(text@),
        },
{
    let mut source: &[u8] = pem;
    rustls_pemfile::certs(&mut source)
        .map(|found| found.map(|certificate| certificate.to_vec()))
        .collect::<Result<Vec<Vec<u8>>, std::io::Error>>()
        .map_err(|error| error.to_string())
}

/// The content of a private key that may not be there.
pub open spec fn key_view(key: Option<PrivateKey>) -> Option<PrivateKeyView> {
    match key {
        Some(key) => Some(key@),
        None => None,
    }
}

/// `rustls_pemfile::private_key` on the bytes of a file: the outcome depends on these alone.
#[verifier::external_body]
fn parse_private_key(pem: &[u8]) -> (parsed: Result<Option<PrivateKey>, String>)
    ensures
        match parsed {
            Ok(key) => pem_private_key(pem@) == Ok::<Option<PrivateKeyView>, Seq<char>>(
                key_view(key),
            ),
            Err(text) => pem_private_key(pem@) == Err::<Option<PrivateKeyView>, Seq<char>>(text@),
        },
{
    let mut source: &[u8] = pem;
    let (encoding, der) = match rustls_pemfile::private_key(&mut source) {
        Ok(Some(PrivateKeyDer::Pkcs1(key))) => (KeyEncoding::Pkcs1, key.secret_pkcs1_der().to_vec()),
        Ok(Some(PrivateKeyDer::Sec1(key))) => (KeyEncoding::Sec1, key.secret_sec1_der().to_vec()),
        Ok(Some(PrivateKeyDer::Pkcs8(key))) => (KeyEncoding::Pkcs8, key.secret_pkcs8_der().to_vec()),
        Ok(Some(_)) => return Err(String::from("unknown private key encoding")),
        Ok(None) => return Ok(None),
        Err(error) => return Err(error.to_string()),
    };
    Ok(Some(PrivateKey { encoding, der }))
}

/// Reads the certificates in a PEM file.
pub fn certificates(pem: &[u8]) -> (read: Result<Vec<Vec<u8>>, TlsError>)
    ensures
        match read {
            Ok(list) => pem_certificates(pem@) == Ok::<Seq<Seq<u8>>, Seq<char>>(list.deep_view()),
            Err(TlsError::Malformed(text)) => pem_certificates(pem@) == Err::<
                Seq<Seq<u8>>,
                Seq<char>,
            >(text@),
            Err(_) => false,
        },
{
    match parse_certificates(pem) {
        Ok(list) => Ok(list),
        Err(text) => Err(TlsError::Malformed(text)),
    }
}

/// The key that was found, or why there is none.
pub open spec fn key_found(found: Result<Option<PrivateKeyView>, Seq<char>>) -> Result<
    PrivateKeyView,
    TlsErrorView,
> {
    match found {
        Ok(Some(key)) => Ok(key),
        Ok(None) => Err(TlsErrorView::MissingKey),
        Err(text) => Err(TlsErrorView::Malformed(text)),
    }
}

/// Asks for a key where one was looked for.
pub fn require_key(found: Result<Option<PrivateKey>, String>) -> (key: Result<PrivateKey, TlsError>)
    ensures
        match found {
            Ok(Some(there)) => key == Ok::<PrivateKey, TlsError>(there),
            Ok(None) => key == Err::<PrivateKey, TlsError>(TlsError::MissingKey),
            Err(text) => key == Err::<PrivateKey, TlsError>(TlsError::Malformed(text)),
        },
{
    match found {
        Ok(Some(key)) => Ok(key),
        Ok(None) => Err(TlsError::MissingKey),
        Err(text) => Err(TlsError::Malformed(text)),
    }
}

/// Reads the private key in a PEM file.
pub fn private_key(pem: &[u8]) -> (read: Result<PrivateKey, TlsError>)
    ensures
        match read {
            Ok(key) => key_found(pem_private_key(pem@)) == Ok::<PrivateKeyView, TlsErrorView>(key@),
            Err(error) => key_found(pem_private_key(pem@)) == Err::<PrivateKeyView, TlsErrorView>(
                error@,
            ),
        },
{
    require_key(parse_private_key(pem))
}

/// The certificates and the key, if there are both. What is wrong with the certificates comes
/// before what is wrong with the key.
pub fn join_material(
    certificates: Result<Vec<Vec<u8>>, TlsError>,
    key: Result<PrivateKey, TlsError>,
) -> (material: Result<(Vec<Vec<u8>>, PrivateKey), TlsError>)
    ensures
        match certificates {
            Err(error) => material == Err::<(Vec<Vec<u8>>, PrivateKey), TlsError>(error),
            Ok(list) => match key {
                Err(error) => material == Err::<(Vec<Vec<u8>>, PrivateKey), TlsError>(error),
                Ok(there) => material == Ok::<(Vec<Vec<u8>>, PrivateKey), TlsError>((list, there)),
            },
        },
{
    match certificates {
        Err(error) => Err(error),
        Ok(list) => match key {
            Err(error) => Err(error),
            Ok(there) => Ok((list, there)),
        },
    }
}

/// What TLS is set up with, from what was found in the two files. `key` is nothing where the file
/// with the key cannot be read.
pub open spec fn material_found(
    certificates: Result<Seq<Seq<u8>>, Seq<char>>,
    key: Option<Result<Option<PrivateKeyView>, Seq<char>>>,
) -> Result<(Seq<Seq<u8>>, PrivateKeyView), TlsErrorView> {
    match certificates {
        Err(text) => Err(TlsErrorView::Malformed(text)),
        Ok(list) => match key {
            None => Err(TlsErrorView::UnreadKey),
            Some(found) => match key_found(found) {
                Err(error) => Err(error),
                Ok(there) => Ok((list, there)),
            },
        },
    }
}

/// Reads what TLS is set up with: the certificates in one PEM file, and the private key in another,
/// of which there is nothing where it cannot be read. A failure of the certificates wins over one
/// of the key.
pub fn tls_material(cert: &[u8], key: Option<&[u8]>) -> (material: Result<
    (Vec<Vec<u8>>, PrivateKey),
    TlsError,
>)
    ensures
        ({
            let found = material_found(
                pem_certificates(cert@),
                match key {
                    Some(pem) => Some(pem_private_key(pem@)),
                    None => None,
                },
            );
            match material {
                Ok((list, there)) => found == Ok::<(Seq<Seq<u8>>, PrivateKeyView), TlsErrorView>(
                    (list.deep_view(), there@),
                ),
                Err(error) => found == Err::<(Seq<Seq<u8>>, PrivateKeyView), TlsErrorView>(error@),
            }
        }),
{
    let key = match key {
        Some(pem) => private_key(pem),
        None => Err(TlsError::UnreadKey),
    };
    join_material(certificates(cert), key)
}

} // verus!

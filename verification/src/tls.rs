//! The certificate chain and private key the HTTPS listener serves with, read from PEM.
use vstd::prelude::*;

use rustls::pki_types::PrivateKeyDer;

verus! {

/// Why the HTTPS listener's key material could not be read.
#[derive(Debug)]
pub enum RunnerWebhookRuntimeError {
    ReadTlsCertificate { path: String, message: String },
    ReadTlsPrivateKey { path: String, message: String },
    MissingTlsCertificate { path: String },
    MissingTlsPrivateKey { path: String },
}

/// A key-material error, as contracts speak of it.
pub enum TlsErrorView {
    ReadTlsCertificate { path: Seq<char>, message: Seq<char> },
    ReadTlsPrivateKey { path: Seq<char>, message: Seq<char> },
    MissingTlsCertificate { path: Seq<char> },
    MissingTlsPrivateKey { path: Seq<char> },
}

impl View for RunnerWebhookRuntimeError {
    type V = TlsErrorView;

    open spec fn view(&self) -> TlsErrorView {
        match self {
            RunnerWebhookRuntimeError::ReadTlsCertificate { path, message } => TlsErrorView::ReadTlsCertificate {
                path: path@,
                message: message@,
            },
            RunnerWebhookRuntimeError::ReadTlsPrivateKey { path, message } => TlsErrorView::ReadTlsPrivateKey {
                path: path@,
                message: message@,
            },
            RunnerWebhookRuntimeError::MissingTlsCertificate { path } => TlsErrorView::MissingTlsCertificate {
                path: path@,
            },
            RunnerWebhookRuntimeError::MissingTlsPrivateKey { path } => TlsErrorView::MissingTlsPrivateKey {
                path: path@,
            },
        }
    }
}

/// The DER certificates that `rustls_pemfile::certs` reads from PEM bytes, in order, or the
/// message of the error it stops on.
pub uninterp spec fn pem_certs_result(pem: Seq<u8>) -> Result<Seq<Seq<u8>>, Seq<char>>;

/// The encoding of a private key, as the PEM section named it.
#[derive(Clone, Copy, Debug, PartialEq, Eq, Structural)]
pub enum PrivateKeyKind {
    Pkcs1,
    Sec1,
    Pkcs8,
    Other,
}

/// The DER private key that `rustls_pemfile::private_key` reads from PEM bytes (the first
/// key found, with its encoding, or none), or the message of the error it stops on.
pub uninterp spec fn pem_private_key_result(pem: Seq<u8>) -> Result<Option<(PrivateKeyKind, Seq<u8>)>, Seq<char>>;

pub open spec fn byte_views(v: Seq<Vec<u8>>) -> Seq<Seq<u8>> {
    v.map_values(|b: Vec<u8>| b@)
}

/// `rustls_pemfile::certs`: every certificate section of the PEM text, as DER bytes.
#[verifier::external_body]
fn pem_certs(pem: &Vec<u8>) -> (r: Result<Vec<Vec<u8>>, String>)
    ensures
        match r {
            Ok(v) => pem_certs_result(pem@) == Ok::<Seq<Seq<u8>>, Seq<char>>(byte_views(v@)),
            Err(m) => pem_certs_result(pem@) == Err::<Seq<Seq<u8>>, Seq<char>>(m@),
        },
{
    rustls_pemfile::certs(&mut pem.as_slice())
        .map(|c| c.map(|c| c.as_ref().to_vec()))
        .collect::<Result<Vec<_>, _>>()
        .map_err(|e| e.to_string())
}

/// `rustls_pemfile::private_key`: the first private-key section of the PEM text, as its
/// encoding and DER bytes. (`PrivateKeyDer` may grow variants; one it does not name here
/// comes back as `Other`.)
#[verifier::external_body]
fn pem_private_key(pem: &Vec<u8>) -> (r: Result<Option<(PrivateKeyKind, Vec<u8>)>, String>)
    ensures
        match r {
            Ok(Some((kind, k))) => pem_private_key_result(pem@) == Ok::<
                Option<(PrivateKeyKind, Seq<u8>)>,
                Seq<char>,
            >(Some((kind, k@))),
            Ok(None) => pem_private_key_result(pem@) == Ok::<Option<(PrivateKeyKind, Seq<u8>)>, Seq<char>>(None),
            Err(m) => pem_private_key_result(pem@) == Err::<Option<(PrivateKeyKind, Seq<u8>)>, Seq<char>>(m@),
        },
{
    match rustls_pemfile::private_key(&mut pem.as_slice()) {
        Ok(Some(PrivateKeyDer::Pkcs1(k))) => Ok(Some((PrivateKeyKind::Pkcs1, k.secret_pkcs1_der().to_vec()))),
        Ok(Some(PrivateKeyDer::Sec1(k))) => Ok(Some((PrivateKeyKind::Sec1, k.secret_sec1_der().to_vec()))),
        Ok(Some(PrivateKeyDer::Pkcs8(k))) => Ok(Some((PrivateKeyKind::Pkcs8, k.secret_pkcs8_der().to_vec()))),
        Ok(Some(k)) => Ok(Some((PrivateKeyKind::Other, k.secret_der().to_vec()))),
        Ok(None) => Ok(None),
        Err(e) => Err(e.to_string()),
    }
}

/// What reading the key material gives: the certificate chain is read first, then the key;
/// a file that cannot be read as PEM, or that holds no certificate (no key), is refused.
pub open spec fn key_material_spec(
    cert_path: Seq<char>,
    cert_pem: Seq<u8>,
    key_path: Seq<char>,
    key_pem: Seq<u8>,
) -> Result<(Seq<Seq<u8>>, PrivateKeyKind, Seq<u8>), TlsErrorView> {
    match pem_certs_result(cert_pem) {
        Err(m) => Err(TlsErrorView::ReadTlsCertificate { path: cert_path, message: m }),
        Ok(certs) => if certs.len() == 0 {
            Err(TlsErrorView::MissingTlsCertificate { path: cert_path })
        } else {
            match pem_private_key_result(key_pem) {
                Err(m) => Err(TlsErrorView::ReadTlsPrivateKey { path: key_path, message: m }),
                Ok(None) => Err(TlsErrorView::MissingTlsPrivateKey { path: key_path }),
                Ok(Some((kind, key))) => Ok((certs, kind, key)),
            }
        },
    }
}

/// Reads the certificate chain and private key (with its encoding) from the PEM contents of
/// their files.
pub fn tls_key_material(cert_path: &str, cert_pem: &Vec<u8>, key_path: &str, key_pem: &Vec<u8>) -> (r: Result<
    (Vec<Vec<u8>>, PrivateKeyKind, Vec<u8>),
    RunnerWebhookRuntimeError,
>)
    ensures
        match (key_material_spec(cert_path@, cert_pem@, key_path@, key_pem@), r) {
            (Ok((certs, kind, key)), Ok((c, j, k))) => byte_views(c@) == certs && j == kind && k@ == key,
            (Err(e), Err(x)) => x@ == e,
            _ => false,
        },
{
    let certificates = match pem_certs(cert_pem) {
        Ok(c) => c,
        Err(message) => {
            return Err(RunnerWebhookRuntimeError::ReadTlsCertificate { path: String::from_str(cert_path), message });
        },
    };
    if certificates.len() == 0 {
        return Err(RunnerWebhookRuntimeError::MissingTlsCertificate { path: String::from_str(cert_path) });
    }
    match pem_private_key(key_pem) {
        Err(message) => Err(RunnerWebhookRuntimeError::ReadTlsPrivateKey { path: String::from_str(key_path), message }),
        Ok(None) => Err(RunnerWebhookRuntimeError::MissingTlsPrivateKey { path: String::from_str(key_path) }),
        Ok(Some((kind, key))) => Ok((certificates, kind, key)),
    }
}

/// The protocols the listener offers in ALPN: HTTP/2, then HTTP/1.1.
pub open spec fn alpn_spec() -> Seq<Seq<u8>> {
    seq![seq![104u8, 50u8], seq![104u8, 116u8, 116u8, 112u8, 47u8, 49u8, 46u8, 49u8]]
}

/// `[b"h2", b"http/1.1"]`.
pub fn alpn_protocols() -> (r: Vec<Vec<u8>>)
    ensures
        byte_views(r@) == alpn_spec(),
{
    let r = vec![vec![104u8, 50u8], vec![104u8, 116u8, 116u8, 112u8, 47u8, 49u8, 46u8, 49u8]];
    assert(byte_views(r@) =~= alpn_spec());
    r
}

/// The message of a key-material error.
pub open spec fn tls_error_text(e: &RunnerWebhookRuntimeError) -> Seq<char> {
    match e {
        RunnerWebhookRuntimeError::ReadTlsCertificate { path, message } => "failed to read TLS certificate `"@ + path@ + "`: "@ + message@,
        RunnerWebhookRuntimeError::ReadTlsPrivateKey { path, message } => "failed to read TLS private key `"@ + path@ + "`: "@ + message@,
        RunnerWebhookRuntimeError::MissingTlsCertificate { path } => "no TLS certificate found in `"@ + path@ + "`"@,
        RunnerWebhookRuntimeError::MissingTlsPrivateKey { path } => "no TLS private key found in `"@ + path@ + "`"@,
    }
}

impl RunnerWebhookRuntimeError {
    /// The error's message.
    pub fn render(&self) -> (r: String)
        ensures
            r@ == tls_error_text(self),
    {
        match self {
            RunnerWebhookRuntimeError::ReadTlsCertificate { path, message } => {
                let mut s = String::from_str("failed to read TLS certificate `");
                s.append(path.as_str());
                s.append("`: ");
                s.append(message.as_str());
                s
            },
            RunnerWebhookRuntimeError::ReadTlsPrivateKey { path, message } => {
                let mut s = String::from_str("failed to read TLS private key `");
                s.append(path.as_str());
                s.append("`: ");
                s.append(message.as_str());
                s
            },
            RunnerWebhookRuntimeError::MissingTlsCertificate { path } => {
                let mut s = String::from_str("no TLS certificate found in `");
                s.append(path.as_str());
                s.append("`");
                s
            },
            RunnerWebhookRuntimeError::MissingTlsPrivateKey { path } => {
                let mut s = String::from_str("no TLS private key found in `");
                s.append(path.as_str());
                s.append("`");
                s
            },
        }
    }
}

} // verus!

use vstd::prelude::*;

verus! {

/// The first key registered for `name` among `s` from position `i` on.
pub open spec fn key_position(s: Seq<Seq<char>>, name: Seq<char>, i: int) -> Option<int>
    decreases s.len() - i,
{
    if i < 0 || i >= s.len() {
        None
    } else if s[i] == name {
        Some(i)
    } else {
        key_position(s, name, i + 1)
    }
}

/// Picks the certified key for a TLS handshake by its server name (SNI)
/// from the certificate map of the live configuration.
pub struct ReconfigurableCertificateResolver<K> {
    certificates: Vec<(String, K)>,
}

impl<K> ReconfigurableCertificateResolver<K> {
    /// The server names, in order.
    pub closed spec fn names(&self) -> Seq<Seq<char>> {
        self.certificates@.map_values(|e: (String, K)| e.0@)
    }

    /// The keys, in the order of their names.
    pub closed spec fn keys(&self) -> Seq<K> {
        self.certificates@.map_values(|e: (String, K)| e.1)
    }

    pub fn new(certificates: Vec<(String, K)>) -> (r: ReconfigurableCertificateResolver<K>)
        ensures
            r.names() == certificates@.map_values(|e: (String, K)| e.0@),
            r.keys() == certificates@.map_values(|e: (String, K)| e.1),
    {
        ReconfigurableCertificateResolver { certificates }
    }

    /// The key for the server name a client asked for: none without a name,
    /// else the first key registered under it, if any.
    pub fn resolve(&self, server_name: &Option<String>) -> (r: Option<&K>)
        ensures
            match server_name {
                None => r is None,
                Some(n) => match key_position(self.names(), n@, 0) {
                    Some(p) => r matches Some(k) && *k == self.keys()[p],
                    None => r is None,
                },
            },
    {
        match server_name {
            None => None,
            Some(n) => {
                assert(*server_name == Some(*n));
                let mut i: usize = 0;
                while i < self.certificates.len()
                    invariant
                        *server_name == Some(*n),
                        i <= self.certificates@.len(),
                        self.names().len() == self.certificates@.len(),
                        key_position(self.names(), n@, 0) == key_position(self.names(), n@, i as int),
                    decreases self.certificates@.len() - i,
                {
                    if self.certificates[i].0 == *n {
                        assert(self.names()[i as int] == n@);
                        return Some(&self.certificates[i].1);
                    }
                    i = i + 1;
                }
                None
            },
        }
    }
}

/// The DER certificates that `rustls_pemfile::certs` reads from PEM text.
pub uninterp spec fn pem_certificates(pem: Seq<u8>) -> Option<Seq<Seq<u8>>>;

/// The DER keys that `rustls_pemfile::rsa_private_keys` reads from PEM text.
pub uninterp spec fn pem_rsa_keys(pem: Seq<u8>) -> Option<Seq<Seq<u8>>>;

/// The DER keys that `rustls_pemfile::pkcs8_private_keys` reads from PEM text.
pub uninterp spec fn pem_pkcs8_keys(pem: Seq<u8>) -> Option<Seq<Seq<u8>>>;

/// Relies on `rustls_pemfile::certs`: the certificate sections of the
/// text in order, or an error on malformed PEM.
#[verifier::external_body]
fn read_certificates(pem: &[u8]) -> (r: Option<Vec<Vec<u8>>>)
    ensures
        match r {
            Some(v) => pem_certificates(pem@) == Some(v.deep_view()),
            None => pem_certificates(pem@) is None,
        },
{
    let mut reader = pem;
    match rustls_pemfile::certs(&mut reader) {
        Ok(v) => Some(v),
        Err(_) => None,
    }
}

/// Relies on `rustls_pemfile::rsa_private_keys`: the RSA key sections of
/// the text in order, or an error on malformed PEM.
#[verifier::external_body]
fn read_rsa_keys(pem: &[u8]) -> (r: Option<Vec<Vec<u8>>>)
    ensures
        match r {
            Some(v) => pem_rsa_keys(pem@) == Some(v.deep_view()),
            None => pem_rsa_keys(pem@) is None,
        },
{
    let mut reader = pem;
    match rustls_pemfile::rsa_private_keys(&mut reader) {
        Ok(v) => Some(v),
        Err(_) => None,
    }
}

/// Relies on `rustls_pemfile::pkcs8_private_keys`: the PKCS#8 key sections
/// of the text in order, or an error on malformed PEM.
#[verifier::external_body]
fn read_pkcs8_keys(pem: &[u8]) -> (r: Option<Vec<Vec<u8>>>)
    ensures
        match r {
            Some(v) => pem_pkcs8_keys(pem@) == Some(v.deep_view()),
            None => pem_pkcs8_keys(pem@) is None,
        },
{
    let mut reader = pem;
    match rustls_pemfile::pkcs8_private_keys(&mut reader) {
        Ok(v) => Some(v),
        Err(_) => None,
    }
}

/// Why certificate material could not be loaded.
#[derive(Debug, Clone, Copy, PartialEq, Eq, Structural)]
pub enum CertificateError {
    /// The certificate text is not valid PEM.
    InvalidCertificate,
    /// No RSA or PKCS#8 private key was found.
    NoPrivateKeys,
}

/// The certificate chain in PEM text, as DER.
pub fn load_certs(pem: &[u8]) -> (r: Result<Vec<Vec<u8>>, CertificateError>)
    ensures
        match pem_certificates(pem@) {
            Some(c) => r matches Ok(v) && v.deep_view() == c,
            None => r == Err::<Vec<Vec<u8>>, CertificateError>(CertificateError::InvalidCertificate),
        },
{
    match read_certificates(pem) {
        Some(v) => Ok(v),
        None => Err(CertificateError::InvalidCertificate),
    }
}

/// The keys that loading keeps of what the two readers found: the RSA keys
/// if there are any, else the PKCS#8 keys if there are any. A reader that
/// failed found none.
pub open spec fn keys_chosen(rsa: Option<Seq<Seq<u8>>>, pkcs8: Option<Seq<Seq<u8>>>) -> Option<
    Seq<Seq<u8>>,
> {
    if rsa matches Some(k) && k.len() > 0 {
        rsa
    } else if pkcs8 matches Some(k) && k.len() > 0 {
        pkcs8
    } else {
        None
    }
}

/// The private keys that loading takes from PEM text.
pub open spec fn chosen_keys(pem: Seq<u8>) -> Option<Seq<Seq<u8>>> {
    keys_chosen(pem_rsa_keys(pem), pem_pkcs8_keys(pem))
}

pub open spec fn deep_opt(v: Option<Vec<Vec<u8>>>) -> Option<Seq<Seq<u8>>> {
    match v {
        Some(k) => Some(k.deep_view()),
        None => None,
    }
}

/// Picks the keys to use from what the RSA and PKCS#8 readers found.
pub fn choose_keys(rsa: Option<Vec<Vec<u8>>>, pkcs8: Option<Vec<Vec<u8>>>) -> (r: Result<
    Vec<Vec<u8>>,
    CertificateError,
>)
    ensures
        match keys_chosen(deep_opt(rsa), deep_opt(pkcs8)) {
            Some(k) => r matches Ok(v) && v.deep_view() == k,
            None => r == Err::<Vec<Vec<u8>>, CertificateError>(CertificateError::NoPrivateKeys),
        },
{
    if let Some(keys) = rsa {
        if keys.len() > 0 {
            return Ok(keys);
        }
    }
    if let Some(keys) = pkcs8 {
        if keys.len() > 0 {
            return Ok(keys);
        }
    }
    Err(CertificateError::NoPrivateKeys)
}

/// The private keys in PEM text, RSA keys first, else PKCS#8 keys.
pub fn load_keys(pem: &[u8]) -> (r: Result<Vec<Vec<u8>>, CertificateError>)
    ensures
        match chosen_keys(pem@) {
            Some(k) => r matches Ok(v) && v.deep_view() == k,
            None => r == Err::<Vec<Vec<u8>>, CertificateError>(CertificateError::NoPrivateKeys),
        },
{
    let rsa = read_rsa_keys(pem);
    let pkcs8 = read_pkcs8_keys(pem);
    choose_keys(rsa, pkcs8)
}

/// The first private key in PEM text, by the order of `load_keys`.
pub fn load_key(pem: &[u8]) -> (r: Result<Vec<u8>, CertificateError>)
    ensures
        match chosen_keys(pem@) {
            Some(k) => r matches Ok(v) && v@ == k[0],
            None => r == Err::<Vec<u8>, CertificateError>(CertificateError::NoPrivateKeys),
        },
{
    match load_keys(pem) {
        Ok(mut keys) => {
            assert(keys.deep_view()[0] == keys@[0]@);
            Ok(keys.remove(0))
        },
        Err(e) => Err(e),
    }
}

} // verus!

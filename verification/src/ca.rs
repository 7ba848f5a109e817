//! Extra trusted certificate authorities. Whatever is wrong with a bundle is
//! an error: a client that was told to trust an authority never goes on
//! without it.
use reqwest::Certificate;
use vstd::prelude::*;

use crate::error::{ErrorView, ObscuraNetError};
use crate::text::{concat, concat3};

verus! {

/// A certificate, which is only carried along.
#[verifier::external_type_specification]
#[verifier::external_body]
pub struct ExCertificate(Certificate);

/// The certificates that the HTTP library reads from a PEM bundle, or its
/// error message.
pub uninterp spec fn pem_bundle(pem: Seq<u8>) -> Result<Seq<Certificate>, Seq<char>>;

/// Calls `reqwest::Certificate::from_pem_bundle`, which gives one certificate
/// for each certificate block of the bundle; the error is given by its
/// message. What comes out depends on `pem` alone and is named `pem_bundle`.
#[verifier::external_body]
fn certificates_from_pem(pem: &[u8]) -> (r: Result<Vec<Certificate>, String>)
    ensures
        match pem_bundle(pem@) {
            Ok(certificates) => r matches Ok(c) && c@ == certificates,
            Err(reason) => r matches Err(e) && e@ == reason,
        },
{
    Certificate::from_pem_bundle(pem).map_err(|e| e.to_string())
}

/// The certificates of a bundle, or why it cannot be used, from what its PEM
/// text holds.
pub open spec fn usable_certificates(
    path: Seq<char>,
    parsed: Result<Seq<Certificate>, Seq<char>>,
) -> Result<Seq<Certificate>, ErrorView> {
    match parsed {
        Err(reason) => Err(
            ErrorView::Network("invalid CA bundle '"@ + path + "': "@ + reason),
        ),
        Ok(certificates) => if certificates.len() == 0 {
            Err(ErrorView::Network("CA bundle '"@ + path + "' contained no certificates"@))
        } else {
            Ok(certificates)
        },
    }
}

/// The certificates of a bundle, or why it cannot be used, from what reading
/// its file gave.
pub open spec fn ca_certificates(
    path: Seq<char>,
    read: Result<Seq<u8>, Seq<char>>,
) -> Result<Seq<Certificate>, ErrorView> {
    match read {
        Err(reason) => Err(
            ErrorView::Network("failed to read CA bundle '"@ + path + "': "@ + reason),
        ),
        Ok(pem) => usable_certificates(path, pem_bundle(pem)),
    }
}

/// The bytes or the message in what reading something gave.
pub open spec fn read_of(read: Result<Vec<u8>, String>) -> Result<Seq<u8>, Seq<char>> {
    match read {
        Ok(bytes) => Ok(bytes@),
        Err(reason) => Err(reason@),
    }
}

/// The certificates or the message in what parsing a bundle gave.
pub open spec fn parsed_of(parsed: Result<Vec<Certificate>, String>) -> Result<
    Seq<Certificate>,
    Seq<char>,
> {
    match parsed {
        Ok(certificates) => Ok(certificates@),
        Err(reason) => Err(reason@),
    }
}

/// The certificates of the bundle at `path`, from what its PEM text holds:
/// a bundle that is no valid PEM or holds no certificate is an error.
pub fn usable_ca_certs(path: &str, parsed: Result<Vec<Certificate>, String>) -> (r: Result<
    Vec<Certificate>,
    ObscuraNetError,
>)
    ensures
        match usable_certificates(path@, parsed_of(parsed)) {
            Ok(certificates) => r matches Ok(c) && c@ == certificates,
            Err(error) => r matches Err(e) && e@ == error,
        },
{
    match parsed {
        Err(reason) => {
            let start = concat3("invalid CA bundle '", path, "': ");
            Err(ObscuraNetError::Network(concat(start.as_str(), reason.as_str())))
        },
        Ok(certificates) => {
            if certificates.is_empty() {
                Err(
                    ObscuraNetError::Network(
                        concat3("CA bundle '", path, "' contained no certificates"),
                    ),
                )
            } else {
                Ok(certificates)
            }
        },
    }
}

/// Loads every certificate of the PEM bundle at `path`; `read` is what
/// reading that file gave. A file that cannot be read, that is no valid PEM
/// or that holds no certificate is an error.
pub fn load_ca_certs(path: &str, read: Result<Vec<u8>, String>) -> (r: Result<
    Vec<Certificate>,
    ObscuraNetError,
>)
    ensures
        match ca_certificates(path@, read_of(read)) {
            Ok(certificates) => r matches Ok(c) && c@ == certificates,
            Err(error) => r matches Err(e) && e@ == error,
        },
{
    match read {
        Err(reason) => {
            let start = concat3("failed to read CA bundle '", path, "': ");
            Err(ObscuraNetError::Network(concat(start.as_str(), reason.as_str())))
        },
        Ok(pem) => usable_ca_certs(path, certificates_from_pem(pem.as_slice())),
    }
}

} // verus!

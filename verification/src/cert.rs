//! Where a server keeps the certificate that it made for itself.
use crate::text::views;
use vstd::prelude::*;

verus! {

#[verifier::external_type_specification]
#[verifier::external_body]
pub struct ExGenerationError(rcgen::Error);

/// The places of the certificate and of its key, each as the parts of a path.
pub struct CertPaths {
    pub cert: Vec<String>,
    pub key: Vec<String>,
}

/// The directory of both files: the user's application data on Windows, or the
/// working directory where there are none; elsewhere `certs` in the working
/// directory.
pub open spec fn directory(windows: bool, appdata: Option<Seq<char>>) -> Seq<Seq<char>> {
    if windows {
        seq![
            match appdata {
                Some(path) => path,
                None => "."@,
            },
            "WasmBridgeCloud"@,
            "certs"@,
        ]
    } else {
        seq!["./certs"@]
    }
}

/// The application data directory, if it is known, as characters.
pub open spec fn appdata_view(appdata: Option<String>) -> Option<Seq<char>> {
    match appdata {
        Some(path) => Some(path@),
        None => None,
    }
}

/// The parts of the path of the directory that holds both files.
pub fn cert_directory(windows: bool, appdata: Option<String>) -> (parts: Vec<String>)
    ensures
        views(parts@) == directory(windows, appdata_view(appdata)),
{
    let mut parts: Vec<String> = Vec::new();
    if windows {
        let base = match appdata {
            Some(path) => path,
            None => ".".to_owned(),
        };
        parts.push(base);
        parts.push("WasmBridgeCloud".to_owned());
        parts.push("certs".to_owned());
    } else {
        parts.push("./certs".to_owned());
    }
    assert(views(parts@) =~= directory(windows, appdata_view(appdata)));
    parts
}

/// The places of the certificate and of its key.
pub fn get_cert_paths(windows: bool, appdata: Option<String>) -> (paths: CertPaths)
    ensures
        views(paths.cert@) == directory(windows, appdata_view(appdata)).push("cert.pem"@),
        views(paths.key@) == directory(windows, appdata_view(appdata)).push("key.pem"@),
        views(paths.cert@) != views(paths.key@),
{
    proof {
        reveal_strlit("cert.pem");
        reveal_strlit("key.pem");
        assert("cert.pem"@.len() != "key.pem"@.len());
    }
    let mut cert = cert_directory(windows, appdata.clone());
    let mut key = cert_directory(windows, appdata);
    cert.push("cert.pem".to_owned());
    key.push("key.pem".to_owned());
    assert(views(cert@) =~= directory(windows, appdata_view(appdata)).push("cert.pem"@));
    assert(views(key@) =~= directory(windows, appdata_view(appdata)).push("key.pem"@));
    assert(views(cert@).last() != views(key@).last());
    CertPaths { cert, key }
}

/// A certificate and its key, in PEM.
pub struct SelfSigned {
    pub cert_pem: String,
    pub key_pem: String,
}

/// No certificate could be made.
pub struct CertError {
    pub cause: rcgen::Error,
}

/// Whether a call that asked for a certificate of `names` was made and returned
/// `made`.
pub uninterp spec fn generated(
    names: Seq<Seq<char>>,
    made: Result<(String, String), rcgen::Error>,
) -> bool;

/// `rcgen::generate_simple_self_signed`: a new key and a certificate of it for
/// the names, both in PEM. The key is drawn at random, so only the call itself
/// is recorded.
#[verifier::external_body]
fn generate(names: Vec<String>) -> (made: Result<(String, String), rcgen::Error>)
    ensures
        generated(views(names@), made),
{
    let certified = rcgen::generate_simple_self_signed(names)?;
    Ok((certified.cert.pem(), certified.key_pair.serialize_pem()))
}

/// The names that a server's own certificate is for.
pub open spec fn host_names() -> Seq<Seq<char>> {
    seq!["localhost"@, "127.0.0.1"@]
}

/// `certificates` is what follows from `made`.
pub open spec fn follows(
    certificates: Result<SelfSigned, CertError>,
    made: Result<(String, String), rcgen::Error>,
) -> bool {
    match made {
        Ok(pems) => certificates is Ok && certificates->Ok_0 == (SelfSigned {
            cert_pem: pems.0,
            key_pem: pems.1,
        }),
        Err(cause) => certificates is Err && certificates->Err_0 == (CertError { cause }),
    }
}

/// Takes up what was made.
pub fn take_certificates(made: Result<(String, String), rcgen::Error>) -> (certificates: Result<
    SelfSigned,
    CertError,
>)
    ensures
        follows(certificates, made),
{
    match made {
        Ok((cert_pem, key_pem)) => Ok(SelfSigned { cert_pem, key_pem }),
        Err(cause) => Err(CertError { cause }),
    }
}

/// Whether a certificate is to be made: unless both files are there.
pub fn needs_certificates(cert_exists: bool, key_exists: bool) -> (needed: bool)
    ensures
        needed <==> !(cert_exists && key_exists),
{
    !cert_exists || !key_exists
}

/// Makes the certificate and the key that are to be saved: nothing, if both
/// files are there; else both anew.
pub fn ensure_certificates(cert_exists: bool, key_exists: bool) -> (made: Result<
    Option<SelfSigned>,
    CertError,
>)
    ensures
        cert_exists && key_exists ==> made == Ok::<Option<SelfSigned>, CertError>(None),
        !(cert_exists && key_exists) ==> exists|outcome: Result<(String, String), rcgen::Error>|
            {
                &&& #[trigger] generated(host_names(), outcome)
                &&& made is Ok ==> made->Ok_0 is Some && follows(Ok(made->Ok_0->0), outcome)
                &&& made is Err ==> follows(Err(made->Err_0), outcome)
            },
{
    if needs_certificates(cert_exists, key_exists) {
        let mut names: Vec<String> = Vec::new();
        names.push("localhost".to_owned());
        names.push("127.0.0.1".to_owned());
        assert(views(names@) =~= host_names());
        let outcome = generate(names);
        match take_certificates(outcome) {
            Ok(pair) => Ok(Some(pair)),
            Err(error) => Err(error),
        }
    } else {
        Ok(None)
    }
}

} // verus!

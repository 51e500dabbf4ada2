//! Who may connect: bearer tokens in the request's metadata.
use tonic::metadata::{Ascii, MetadataMap, MetadataValue};
use tonic::Status;
use vstd::prelude::*;
use vstd::string::*;

verus! {

#[verifier::external_type_specification]
#[verifier::external_body]
pub struct ExMetadataMap(tonic::metadata::MetadataMap);

/// The bytes of the first value that the metadata hold under a key.
pub uninterp spec fn header_value(metadata: MetadataMap, key: Seq<char>) -> Option<Seq<u8>>;

/// `tonic::metadata::MetadataMap::get`: the first value under the key.
#[verifier::external_body]
fn header(metadata: &MetadataMap, key: &str) -> (value: Option<Vec<u8>>)
    ensures
        value is Some <==> header_value(*metadata, key@) is Some,
        value is Some ==> value->0@ == header_value(*metadata, key@)->0,
{
    metadata.get(key).map(|found| found.as_bytes().to_vec())
}

/// Only printable ASCII characters, spaces and tabs.
pub open spec fn visible(bytes: Seq<u8>) -> bool {
    forall|i: int| 0 <= i < bytes.len() ==> 32 <= #[trigger] bytes[i] < 127 || bytes[i] == 9
}

/// ASCII bytes as characters.
pub open spec fn characters(bytes: Seq<u8>) -> Seq<char> {
    bytes.map_values(|byte: u8| byte as char)
}

/// `tonic::metadata::MetadataValue::to_str`, on the value of these bytes: the
/// text, if all bytes are visible ASCII.
#[verifier::external_body]
fn visible_text(bytes: &[u8]) -> (text: Option<String>)
    ensures
        text is Some <==> visible(bytes@),
        text is Some ==> text->0@ == characters(bytes@),
{
    let value = MetadataValue::<Ascii>::try_from(bytes).ok()?;
    value.to_str().ok().map(|text| text.to_string())
}

/// Why a request is not let in.
#[derive(Clone, Copy, Debug, PartialEq, Eq, Structural)]
pub enum AuthError {
    /// No authorization in the metadata.
    MissingToken,
    /// The authorization is not text.
    InvalidFormat,
    /// The authorization is not a bearer token.
    BearerRequired,
    /// The validator does not know the token.
    InvalidToken,
    /// Not the one token that an interceptor lets in.
    NotAdmitted,
}

impl AuthError {
    /// What the client is told.
    pub open spec fn text(self) -> Seq<char> {
        match self {
            AuthError::MissingToken => "Missing authorization token"@,
            AuthError::InvalidFormat => "Invalid token format"@,
            AuthError::BearerRequired => "Bearer token required"@,
            AuthError::InvalidToken => "Invalid token"@,
            AuthError::NotAdmitted => "Invalid or missing Bearer token"@,
        }
    }

    /// What the client is told.
    pub fn message(&self) -> (text: &'static str)
        ensures
            text@ == self.text(),
    {
        match self {
            AuthError::MissingToken => "Missing authorization token",
            AuthError::InvalidFormat => "Invalid token format",
            AuthError::BearerRequired => "Bearer token required",
            AuthError::InvalidToken => "Invalid token",
            AuthError::NotAdmitted => "Invalid or missing Bearer token",
        }
    }

    /// What the request is answered with.
    pub fn status(&self) -> (status: Status)
        ensures
            unauthenticated_with(status, self.text()),
    {
        unauthenticated(self.message())
    }
}

/// Whether a status says that the caller is not authenticated, with this message.
pub uninterp spec fn unauthenticated_with(status: Status, message: Seq<char>) -> bool;

/// `tonic::Status::unauthenticated`: a status of that code with the message.
#[verifier::external_body]
fn unauthenticated(message: &str) -> (status: Status)
    ensures
        unauthenticated_with(status, message@),
{
    Status::unauthenticated(message)
}

/// The token in an authorization header, or what is wrong with the header.
pub open spec fn token_in(value: Option<Seq<u8>>) -> Result<Seq<char>, AuthError> {
    match value {
        None => Err(AuthError::MissingToken),
        Some(bytes) => if !visible(bytes) {
            Err(AuthError::InvalidFormat)
        } else if "Bearer "@.is_prefix_of(characters(bytes)) {
            Ok(characters(bytes).skip(7))
        } else {
            Err(AuthError::BearerRequired)
        },
    }
}

/// Whether an authorization header is `Bearer` and this token.
pub open spec fn carries(value: Option<Seq<u8>>, token: Seq<char>) -> bool {
    match value {
        None => false,
        Some(bytes) => visible(bytes) && characters(bytes) == "Bearer "@ + token,
    }
}

/// `result` is `expected`, with a string for its characters.
pub open spec fn is_result(
    result: Result<String, AuthError>,
    expected: Result<Seq<char>, AuthError>,
) -> bool {
    match expected {
        Ok(text) => result is Ok && result->Ok_0@ == text,
        Err(error) => result is Err && result->Err_0 == error,
    }
}

/// The bytes of a header, if there is one.
pub open spec fn bytes_of(value: Option<Vec<u8>>) -> Option<Seq<u8>> {
    match value {
        Some(bytes) => Some(bytes@),
        None => None,
    }
}

/// Takes the token out of the value of an authorization header.
pub fn header_token(value: Option<Vec<u8>>) -> (token: Result<String, AuthError>)
    ensures
        is_result(token, token_in(bytes_of(value))),
{
    proof {
        reveal_strlit("Bearer ");
    }
    let bytes = match value {
        Some(bytes) => bytes,
        None => return Err(AuthError::MissingToken),
    };
    let text = match visible_text(bytes.as_slice()) {
        Some(text) => text,
        None => return Err(AuthError::InvalidFormat),
    };
    let text = text.as_str();
    assert(is_ascii(text));
    let len = text.unicode_len();
    if len >= 7 && text.substring_ascii(0, 7).to_owned() == "Bearer ".to_owned() {
        assert("Bearer "@.is_prefix_of(text@));
        Ok(text.substring_ascii(7, len).to_owned())
    } else {
        Err(AuthError::BearerRequired)
    }
}

/// The bearer token in a request's metadata.
pub fn bearer_token(metadata: &MetadataMap) -> (token: Result<String, AuthError>)
    ensures
        is_result(token, token_in(header_value(*metadata, "authorization"@))),
{
    header_token(header(metadata, "authorization"))
}

/// Lets in the requests that carry one token.
#[derive(Clone)]
pub struct AuthInterceptor {
    pub valid_token: String,
}

impl AuthInterceptor {
    /// Lets a request in by the value of its authorization header.
    pub fn check(&self, value: Option<Vec<u8>>) -> (admitted: Result<(), AuthError>)
        ensures
            admitted is Ok <==> carries(bytes_of(value), self.valid_token@),
            admitted is Err ==> admitted->Err_0 == AuthError::NotAdmitted,
    {
        let wanted = "Bearer ".to_owned().concat(self.valid_token.as_str());
        match value {
            Some(bytes) => match visible_text(bytes.as_slice()) {
                Some(text) => if text == wanted {
                    Ok(())
                } else {
                    Err(AuthError::NotAdmitted)
                },
                None => Err(AuthError::NotAdmitted),
            },
            None => Err(AuthError::NotAdmitted),
        }
    }

    /// Lets a request in by its metadata.
    pub fn call(&self, metadata: &MetadataMap) -> (admitted: Result<(), AuthError>)
        ensures
            admitted is Ok <==> carries(
                header_value(*metadata, "authorization"@),
                self.valid_token@,
            ),
            admitted is Err ==> admitted->Err_0 == AuthError::NotAdmitted,
    {
        self.check(header(metadata, "authorization"))
    }
}

} // verus!

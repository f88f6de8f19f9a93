//! The public address of a stored file.
//!
//! An address is `https://`, the host the client itself named in its request,
//! and a path of two segments: the identifier and the file name, both
//! percent-encoded.

use crate::encoding::{
    encode_segment, encoded, is_encoded_char, is_unreserved_char, is_unreserved_text,
    lemma_encode_utf8_concat, lemma_percent_encode_chars, lemma_percent_encode_concat,
    lemma_unreserved_text_encodes_to_itself,
};
use crate::error::ServiceError;
use crate::path::{extension_of, file_extension, FALLBACK_EXTENSION};
use crate::text::ascii_text;
use vstd::prelude::*;
use vstd::utf8::encode_utf8;

verus! {

/// The error of the `http` crate, under the name `actix_web` gives it.
#[verifier::external_type_specification]
#[verifier::external_body]
pub struct ExHttpError(actix_web::error::HttpError);

/// The scheme of every address that is handed out.
pub const URL_SCHEME: &'static str = "https";

/// A byte that may stand in the text of a header: printable ASCII, or a tab.
pub open spec fn is_visible_ascii(b: u8) -> bool {
    (32 <= b && b < 127) || b == 9
}

/// Whether every byte of a header's value may stand in text.
pub open spec fn is_header_text(bytes: Seq<u8>) -> bool {
    forall|i: int| 0 <= i < bytes.len() ==> is_visible_ascii(#[trigger] bytes[i])
}

/// The bytes of a header's value, if the header is there.
pub open spec fn header_bytes(raw: Option<&[u8]>) -> Option<Seq<u8>> {
    match raw {
        Some(bytes) => Some(bytes@),
        None => None,
    }
}

/// The host that a request names, from the raw value of its `Host` header.
pub open spec fn host_of(raw: Option<Seq<u8>>) -> Result<Seq<char>, ServiceError> {
    match raw {
        None => Err(ServiceError::MissingHostHeader),
        Some(bytes) => if is_header_text(bytes) {
            Ok(ascii_text(bytes))
        } else {
            Err(ServiceError::MalformedHost)
        },
    }
}

/// What is put behind the file name in an address: the fallback extension,
/// behind a dot, for a name that has no extension.
pub open spec fn url_suffix(filename: Seq<char>) -> Seq<char> {
    if extension_of(filename) is None {
        seq!['.'] + FALLBACK_EXTENSION@
    } else {
        Seq::empty()
    }
}

/// The file name as an address shows it, before encoding.
pub open spec fn url_filename(filename: Seq<char>) -> Seq<char> {
    filename + url_suffix(filename)
}

/// The path of the address of the upload of `filename` under `id`.
pub open spec fn url_path(id: Seq<char>, filename: Seq<char>) -> Seq<char> {
    seq!['/'] + encoded(id) + seq!['/'] + encoded(filename) + url_suffix(filename)
}

/// A character of percent-encoded text, or a separator.
pub open spec fn is_path_char(c: char) -> bool {
    is_encoded_char(c) || c == '/'
}

/// A path that begins with a separator and holds nothing but separators and
/// percent-encoded text: no query, no fragment.
pub open spec fn is_path_text(path: Seq<char>) -> bool {
    &&& path.len() > 0
    &&& path[0] == '/'
    &&& forall|i: int| 0 <= i < path.len() ==> is_path_char(#[trigger] path[i])
}

/// The text of the URI that the `http` crate's builder makes of a scheme,
/// an authority and a path; `None` where the builder refuses them.
pub uninterp spec fn uri_text(scheme: Seq<char>, authority: Seq<char>, path: Seq<char>) -> Option<
    Seq<char>,
>;

/// Builds a URI with `http::uri::Builder` (`scheme`, `authority`,
/// `path_and_query`, `build`), reached through `actix_web::http::Uri`, and
/// prints it with its `Display`. Whether the builder accepts a scheme and an
/// authority takes its whole parser to say, so the outcome only has a name.
/// What is claimed beyond the name: an accepted URI whose path has neither
/// query nor fragment prints as the scheme, `://`, the authority and the
/// path, each exactly as given.
#[verifier::external_body]
fn format_uri(scheme: &str, authority: &str, path: &str) -> (built: Result<
    String,
    actix_web::error::HttpError,
>)
    ensures
        match built {
            Ok(text) => uri_text(scheme@, authority@, path@) == Some(text@),
            Err(_) => uri_text(scheme@, authority@, path@) is None,
        },
        built is Ok && is_path_text(path@) ==> built->Ok_0@ == scheme@ + "://"@ + authority@
            + path@,
{
    let uri = actix_web::http::Uri::builder()
        .scheme(scheme)
        .authority(authority)
        .path_and_query(path)
        .build()?;
    Ok(uri.to_string())
}

/// The host that a request names. `raw` is the value of its `Host` header,
/// or `None` where the request has no such header.
pub fn get_host_header(raw: Option<&[u8]>) -> (host: Result<String, ServiceError>)
    ensures
        match host {
            Ok(h) => host_of(header_bytes(raw)) == Ok::<Seq<char>, ServiceError>(h@),
            Err(e) => host_of(header_bytes(raw)) == Err::<Seq<char>, ServiceError>(e),
        },
{
    match raw {
        None => Err(ServiceError::MissingHostHeader),
        Some(bytes) => {
            let mut host = String::new();
            let mut i: usize = 0;
            while i < bytes.len()
                invariant
                    raw == Some(bytes),
                    i <= bytes@.len(),
                    host@ == ascii_text(bytes@.take(i as int)),
                    is_header_text(bytes@.take(i as int)),
                decreases bytes@.len() - i,
            {
                let b: u8 = bytes[i];
                if !((32 <= b && b < 127) || b == 9) {
                    assert(!is_visible_ascii(bytes@[i as int]));
                    return Err(ServiceError::MalformedHost);
                }
                host.push(b as char);
                i += 1;
                assert(host@ =~= ascii_text(bytes@.take(i as int)));
            }
            assert(bytes@.take(i as int) =~= bytes@);
            Ok(host)
        },
    }
}

/// The path of the address of the upload of `filename` under `id`.
pub fn build_url_path(id: &str, filename: &str) -> (path: String)
    ensures
        path@ == url_path(id@, filename@),
{
    let mut path = String::new();
    path.push('/');
    path.append(encode_segment(id).as_str());
    path.push('/');
    path.append(encode_segment(filename).as_str());
    if file_extension(filename).is_none() {
        path.push('.');
        path.append(FALLBACK_EXTENSION);
    }
    assert(path@ =~= url_path(id@, filename@));
    path
}

/// Turns what the URI builder answered into what the service answers: the
/// text where there is one, and `MalformedHost` for any refusal.
pub fn url_from_built(built: Result<String, actix_web::error::HttpError>) -> (url: Result<
    String,
    ServiceError,
>)
    ensures
        match built {
            Ok(text) => url == Ok::<String, ServiceError>(text),
            Err(_) => url == Err::<String, ServiceError>(ServiceError::MalformedHost),
        },
{
    match built {
        Ok(text) => Ok(text),
        Err(_) => Err(ServiceError::MalformedHost),
    }
}

/// The address of the upload of `filename` under `id`, for a request whose
/// `Host` header has the value `raw`.
///
/// Fails with `MissingHostHeader` where there is no header, and with
/// `MalformedHost` where its value is not text or is refused as the authority
/// of a URI. Otherwise the address is the scheme, `://`, the host and the
/// path of `url_path`.
pub fn build_file_url(raw: Option<&[u8]>, id: &str, filename: &str) -> (url: Result<
    String,
    ServiceError,
>)
    ensures
        match host_of(header_bytes(raw)) {
            Err(e) => url == Err::<String, ServiceError>(e),
            Ok(host) => match uri_text(URL_SCHEME@, host, url_path(id@, filename@)) {
                Some(text) => {
                    &&& url is Ok
                    &&& url->Ok_0@ == text
                    &&& text == URL_SCHEME@ + "://"@ + host + url_path(id@, filename@)
                },
                None => url == Err::<String, ServiceError>(ServiceError::MalformedHost),
            },
        },
{
    let host = match get_host_header(raw) {
        Ok(host) => host,
        Err(e) => {
            return Err(e);
        },
    };
    let path = build_url_path(id, filename);
    proof {
        lemma_url_path_is_path_text(id@, filename@);
    }
    url_from_built(format_uri(URL_SCHEME, host.as_str(), path.as_str()))
}

/// The path of an address is a plain path: it begins with a separator and
/// has neither query nor fragment.
pub proof fn lemma_url_path_is_path_text(id: Seq<char>, filename: Seq<char>)
    ensures
        is_path_text(url_path(id, filename)),
{
    reveal_strlit("bin");
    lemma_percent_encode_chars(encode_utf8(id));
    lemma_percent_encode_chars(encode_utf8(filename));
}

/// The last segment of the path of an address is the encoding of one name:
/// the file name with what `url_suffix` puts behind it.
pub proof fn lemma_address_shows_url_filename(id: Seq<char>, filename: Seq<char>)
    ensures
        url_path(id, filename) == seq!['/'] + encoded(id) + seq!['/'] + encoded(
            url_filename(filename),
        ),
{
    let suffix = url_suffix(filename);
    reveal_strlit("bin");
    assert(is_unreserved_text(suffix)) by {
        assert forall|i: int| 0 <= i < suffix.len() implies is_unreserved_char(
            #[trigger] suffix[i],
        ) by {}
    }
    lemma_unreserved_text_encodes_to_itself(suffix);
    lemma_encode_utf8_concat(filename, suffix);
    lemma_percent_encode_concat(encode_utf8(filename), encode_utf8(suffix));
    assert(url_path(id, filename) =~= seq!['/'] + encoded(id) + seq!['/'] + encoded(
        url_filename(filename),
    ));
}

} // verus!

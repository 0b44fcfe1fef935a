//! What the client takes from `reqwest` and `url` on trust: the cookie jar,
//! header values and URLs. Nothing here is proved; each contract says what
//! the crate's source shows. Where a result is a function of the arguments
//! alone and too long to spell out, it has a name, and the contract says no
//! more than that the call gives what the name stands for.

use vstd::prelude::*;

verus! {

/// `reqwest`'s cookie jar, which the HTTP client fills from the modem's
/// answers and reads for every request.
#[verifier::external_type_specification]
#[verifier::external_body]
pub struct ExJar(reqwest::cookie::Jar);

/// A parsed URL.
#[verifier::external_type_specification]
#[verifier::external_body]
pub struct ExUrl(reqwest::Url);

/// The value of an HTTP header, as bytes.
#[verifier::external_type_specification]
#[verifier::external_body]
pub struct ExHeaderValue(reqwest::header::HeaderValue);

/// Why a header value is no text.
#[verifier::external_type_specification]
#[verifier::external_body]
pub struct ExToStrError(reqwest::header::ToStrError);

/// Why a text is no URL.
#[verifier::external_type_specification]
#[verifier::external_body]
pub struct ExParseError(url::ParseError);

/// The characters that `HeaderValue::to_str` lets through: printable ASCII,
/// the space and the tab.
pub open spec fn is_visible_ascii(c: char) -> bool {
    (32 <= c as int && (c as int) < 127) || c == '\t'
}

/// `Jar::default`: a new jar. Nothing is claimed of it.
#[verifier::external_body]
pub(crate) fn new_jar() -> (jar: reqwest::cookie::Jar) {
    reqwest::cookie::Jar::default()
}

/// `CookieStore::cookies` of the jar: the `Cookie` header that the jar would
/// send to `url`, if it holds a cookie for it. The jar is shared with the HTTP
/// client and drops cookies as they expire, so nothing is claimed of the
/// result. The call panics only where a panic elsewhere has poisoned the
/// jar's lock.
#[verifier::external_body]
pub(crate) fn jar_cookies(jar: &reqwest::cookie::Jar, url: &reqwest::Url) -> (header: Option<
    reqwest::header::HeaderValue,
>) {
    reqwest::cookie::CookieStore::cookies(jar, url)
}

/// `Jar::add_cookie_str`: stores the cookie that `cookie` describes as if
/// `url` had set it, and nothing where `cookie` describes none. It returns
/// nothing, and nothing is claimed of the jar. The call panics only where a
/// panic elsewhere has poisoned the jar's lock.
#[verifier::external_body]
pub(crate) fn jar_add_cookie_str(jar: &reqwest::cookie::Jar, cookie: &str, url: &reqwest::Url) {
    jar.add_cookie_str(cookie, url)
}

/// What `HeaderValue::to_str` makes of a header value: its bytes as text, or
/// the reason why they are none. It depends on the bytes alone.
pub uninterp spec fn header_text_of(value: reqwest::header::HeaderValue) -> Result<
    Seq<char>,
    reqwest::header::ToStrError,
>;

/// What `Url::parse` makes of a text: the absolute URL that it denotes, or the
/// reason why it denotes none. It depends on the text alone.
pub uninterp spec fn url_parsed(input: Seq<char>) -> Result<reqwest::Url, url::ParseError>;

/// What `Url::join` makes of a URL and a text: the URL that the text denotes
/// when it is read relative to `base`, or the reason why it denotes none. It
/// depends on the two alone.
pub uninterp spec fn url_joined(base: reqwest::Url, input: Seq<char>) -> Result<
    reqwest::Url,
    url::ParseError,
>;

/// `HeaderValue::to_str`: the header's bytes as text, given only where each
/// byte is visible ASCII. The contract names the result, and claims of a text
/// that each of its characters is visible ASCII, and no more.
#[verifier::external_body]
pub(crate) fn header_text(value: &reqwest::header::HeaderValue) -> (r: Result<
    String,
    reqwest::header::ToStrError,
>)
    ensures
        match r {
            Ok(text) => header_text_of(*value) == Ok::<Seq<char>, reqwest::header::ToStrError>(
                text@,
            ),
            Err(e) => header_text_of(*value) == Err::<Seq<char>, reqwest::header::ToStrError>(e),
        },
        r matches Ok(text) ==> forall|i: int|
            0 <= i < text@.len() ==> is_visible_ascii(#[trigger] text@[i]),
{
    match value.to_str() {
        Ok(text) => Ok(text.to_string()),
        Err(e) => Err(e),
    }
}

/// `Url::parse`: the absolute URL that `input` denotes. The contract names
/// the result and claims nothing else of it.
#[verifier::external_body]
pub(crate) fn parse_url(input: &str) -> (r: Result<reqwest::Url, url::ParseError>)
    ensures
        r == url_parsed(input@),
{
    reqwest::Url::parse(input)
}

/// `Url::join`: the URL that `input` denotes when read relative to `base`.
/// The contract names the result and claims nothing else of it.
#[verifier::external_body]
pub(crate) fn join_url(base: &reqwest::Url, input: &str) -> (r: Result<
    reqwest::Url,
    url::ParseError,
>)
    ensures
        r == url_joined(*base, input@),
{
    base.join(input)
}

/// `Url::clone`: a copy, equal to `url`.
#[verifier::external_body]
pub(crate) fn clone_url(url: &reqwest::Url) -> (copy: reqwest::Url)
    ensures
        copy == *url,
{
    url.clone()
}

} // verus!

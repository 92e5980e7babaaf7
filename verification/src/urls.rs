//! Bindings to the `url` crate over plain text, and the construction of
//! the websocket endpoint for task updates.
//!
//! Each binding works from a URL's text to a URL's text, and its result
//! carries a name: parsing, joining, swapping the scheme and setting
//! the query are functions of their text arguments alone. The
//! endpoint construction and the server-URL check are verified
//! functions whose contracts fix their results as compositions of
//! those names.

use vstd::prelude::*;

verus! {

/// What Url::parse makes of a text: the normalized serialization of
/// the URL it denotes, nothing when it does not parse as an absolute
/// URL.
pub uninterp spec fn parse_url_of(s: Seq<char>) -> Option<Seq<char>>;

/// The scheme that Url::parse reads out of a text, in lower case;
/// nothing when the text does not parse.
pub uninterp spec fn url_scheme_of(s: Seq<char>) -> Option<Seq<char>>;

/// What Url::join makes of a base text and a relative reference: the
/// serialization of the resolved URL, nothing when the base does not
/// parse or the reference cannot be resolved against it.
pub uninterp spec fn join_of(base: Seq<char>, rel: Seq<char>) -> Option<Seq<char>>;

/// What Url::set_scheme makes of a URL text and a new scheme: the
/// serialization with the scheme replaced, nothing when the text does
/// not parse or the crate refuses the combination.
pub uninterp spec fn with_scheme_of(u: Seq<char>, scheme: Seq<char>) -> Option<Seq<char>>;

/// What Url::set_query makes of a URL text and a query: the
/// serialization with the query set, nothing when the text does not
/// parse.
pub uninterp spec fn with_query_of(u: Seq<char>, query: Seq<char>) -> Option<Seq<char>>;

/// The `url` crate's parse error type, opaque to the verifier.
#[verifier::external_type_specification]
#[verifier::external_body]
pub struct ExParseError(url::ParseError);

/// Relies on Url::parse and Url::as_str: the normalized serialization
/// of the parsed URL, a function of the text alone.
#[verifier::external_body]
pub fn parse_url(s: &str) -> (r: Option<String>)
    ensures
        match r {
            Some(n) => parse_url_of(s@) == Some(n@),
            None => parse_url_of(s@) is None,
        },
{
    url::Url::parse(s).ok().map(|u| u.as_str().to_string())
}

/// Relies on Url::scheme after Url::parse: the parsed URL's scheme, a
/// function of the text alone; present exactly when the text parses.
#[verifier::external_body]
fn url_scheme(s: &str) -> (r: Option<String>)
    ensures
        match r {
            Some(sch) => parse_url_of(s@) is Some && url_scheme_of(s@) == Some(sch@),
            None => parse_url_of(s@) is None && url_scheme_of(s@) is None,
        },
{
    url::Url::parse(s).ok().map(|u| u.scheme().to_string())
}

/// Relies on Url::join after Url::parse: the resolved reference,
/// serialized, a function of the two texts alone.
#[verifier::external_body]
fn join_url(base: &str, rel: &str) -> (r: Option<String>)
    ensures
        match r {
            Some(j) => join_of(base@, rel@) == Some(j@),
            None => join_of(base@, rel@) is None,
        },
{
    match url::Url::parse(base) {
        Ok(u) => u.join(rel).ok().map(|j| j.as_str().to_string()),
        Err(_) => None,
    }
}

/// Relies on Url::set_scheme after Url::parse: the serialization with
/// the scheme replaced, a function of the two texts alone.
#[verifier::external_body]
fn set_url_scheme(u: &str, scheme: &str) -> (r: Option<String>)
    ensures
        match r {
            Some(w) => with_scheme_of(u@, scheme@) == Some(w@),
            None => with_scheme_of(u@, scheme@) is None,
        },
{
    match url::Url::parse(u) {
        Ok(mut parsed) => match parsed.set_scheme(scheme) {
            Ok(()) => Some(parsed.as_str().to_string()),
            Err(()) => None,
        },
        Err(_) => None,
    }
}

/// Relies on Url::set_query after Url::parse: the serialization with
/// the query set, a function of the two texts alone.
#[verifier::external_body]
fn set_url_query(u: &str, query: &str) -> (r: Option<String>)
    ensures
        match r {
            Some(w) => with_query_of(u@, query@) == Some(w@),
            None => with_query_of(u@, query@) is None,
        },
{
    match url::Url::parse(u) {
        Ok(mut parsed) => {
            parsed.set_query(Some(query));
            Some(parsed.as_str().to_string())
        },
        Err(_) => None,
    }
}

/// Relies on ParseError's Display: the error as displayable text.
#[verifier::external_body]
pub fn report_url_error(e: url::ParseError) -> (r: String) {
    e.to_string()
}

/// Whether two string slices hold the same characters.
pub(crate) fn str_eq(a: &str, b: &str) -> (r: bool)
    ensures
        r == (a@ == b@),
{
    let sa = String::from_str(a);
    let sb = String::from_str(b);
    sa == sb
}

/// Whether the dock accepts this server URL scheme: exactly `http` and
/// `https` are supported.
pub fn scheme_ok(s: &str) -> (r: bool)
    ensures
        r == (s@ == "http"@ || s@ == "https"@),
{
    str_eq(s, "http") || str_eq(s, "https")
}

/// Whether a server URL text is one the dock accepts: it parses, and
/// its scheme is `http` or `https`.
pub open spec fn supported_server_url(s: Seq<char>) -> bool {
    match url_scheme_of(s) {
        Some(sch) => sch == "http"@ || sch == "https"@,
        None => false,
    }
}

/// Whether a server URL text is one the dock accepts, exactly as
/// [`supported_server_url`] states.
pub fn server_url_supported(s: &str) -> (r: bool)
    ensures
        r == supported_server_url(s@),
{
    match url_scheme(s) {
        Some(sch) => scheme_ok(sch.as_str()),
        None => false,
    }
}

/// The websocket scheme that matches the server's: `wss` over `https`,
/// `ws` otherwise.
pub fn ws_scheme(https: bool) -> (r: &'static str)
    ensures
        https ==> r@ == "wss"@,
        !https ==> r@ == "ws"@,
{
    if https {
        "wss"
    } else {
        "ws"
    }
}

/// The task-updates endpoint for a server URL text and an api key: the
/// `ws/task_updates` path resolved under the server URL, the socket
/// scheme that matches the resolved URL's, and the api key as the
/// query; nothing when any step refuses.
pub open spec fn task_updates_endpoint(server: Seq<char>, api_key: Seq<char>) -> Option<
    Seq<char>,
> {
    match join_of(server, "ws/task_updates"@) {
        None => None,
        Some(j) => match url_scheme_of(j) {
            None => None,
            Some(sch) => {
                let socket: Seq<char> = if sch == "https"@ {
                    "wss"@
                } else {
                    "ws"@
                };
                match with_scheme_of(j, socket) {
                    None => None,
                    Some(w) => with_query_of(w, "api_key="@ + api_key),
                }
            },
        },
    }
}

/// Builds the websocket endpoint for task updates, exactly as
/// [`task_updates_endpoint`] states.
pub fn task_updates_url(server: &str, api_key: &str) -> (r: Option<String>)
    ensures
        match r {
            Some(u) => task_updates_endpoint(server@, api_key@) == Some(u@),
            None => task_updates_endpoint(server@, api_key@) is None,
        },
{
    let joined = match join_url(server, "ws/task_updates") {
        Some(j) => j,
        None => {
            return None;
        },
    };
    let sch = match url_scheme(joined.as_str()) {
        Some(s) => s,
        None => {
            return None;
        },
    };
    let https = str_eq(sch.as_str(), "https");
    let swapped = match set_url_scheme(joined.as_str(), ws_scheme(https)) {
        Some(w) => w,
        None => {
            return None;
        },
    };
    let mut query = String::from_str("api_key=");
    query.append(api_key);
    set_url_query(swapped.as_str(), query.as_str())
}

} // verus!

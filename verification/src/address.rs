//! Addresses of the hub.
use vstd::prelude::*;

use crate::protocol;
use crate::text;

verus! {

/// The scheme of a URL, as the `url` crate reads it, or what it says is wrong with the URL.
pub uninterp spec fn url_scheme(url: Seq<char>) -> Result<Seq<char>, Seq<char>>;

/// A URL with another scheme, as the `url` crate writes it; none where that cannot be.
pub uninterp spec fn url_rescheme(url: Seq<char>, scheme: Seq<char>) -> Option<Seq<char>>;

/// A URL with another scheme and one more pair in its query, as the `url` crate writes it; none
/// where it cannot have the scheme.
pub uninterp spec fn url_with_pair(
    url: Seq<char>,
    scheme: Seq<char>,
    key: Seq<char>,
    value: Seq<char>,
) -> Option<Seq<char>>;

/// The greatest number of characters that surely fit into a URL: the `url` crate counts its bytes
/// in 32 bits, and writes a character in no more than some hundred of them.
pub const URL_LIMIT: usize = 10_000_000;

/// The texts of a result.
pub open spec fn texts_of(r: Result<String, String>) -> Result<Seq<char>, Seq<char>> {
    match r {
        Ok(s) => Ok(s@),
        Err(s) => Err(s@),
    }
}

/// `url::Url::scheme`, on the URL that `url::Url::parse` reads; the text of the `url::ParseError`
/// where it reads none. The scheme is the beginning of the URL, in small letters, so it is not longer.
#[verifier::external_body]
fn scheme_of(url: &str) -> (r: Result<String, String>)
    ensures
        texts_of(r) == url_scheme(url@),
        r matches Ok(scheme) ==> scheme@.len() <= url@.len(),
{
    url::Url::parse(url).map(|parsed| parsed.scheme().to_string()).map_err(|error| error.to_string())
}

/// `url::Url::set_scheme`, on the URL that `url::Url::parse` reads: the URL after it, or none where
/// either fails. It does not work on a URL whose length takes more than 32 bits.
#[verifier::external_body]
fn with_scheme(url: &str, scheme: &str) -> (r: Option<String>)
    requires
        url@.len() + scheme@.len() <= URL_LIMIT,
    ensures
        protocol::text_of(r) == url_rescheme(url@, scheme@),
{
    let mut parsed = url::Url::parse(url).ok()?;
    parsed.set_scheme(scheme).ok()?;
    Some(parsed.to_string())
}

/// `append_pair` on `url::Url::query_pairs_mut` after `url::Url::set_scheme`, on the URL that
/// `url::Url::parse` reads: the URL after it, or none where the parsing or the scheme fails. It does
/// not work on a URL whose length takes more than 32 bits.
#[verifier::external_body]
fn with_scheme_and_pair(url: &str, scheme: &str, key: &str, value: &str) -> (r: Option<String>)
    requires
        url@.len() + scheme@.len() + key@.len() + value@.len() <= URL_LIMIT,
    ensures
        protocol::text_of(r) == url_with_pair(url@, scheme@, key@, value@),
{
    let mut parsed = url::Url::parse(url).ok()?;
    parsed.set_scheme(scheme).ok()?;
    parsed.query_pairs_mut().append_pair(key, value);
    Some(parsed.to_string())
}

/// Why there is no address to connect to.
#[derive(Debug, PartialEq, Eq)]
pub enum AddressError {
    /// The base address is no URL; what the `url` crate says of it.
    NotAUrl(String),
    /// The scheme of the base address cannot be changed to one of WebSockets.
    NoWebSocket,
}

/// Why there is no address, as plain text.
pub enum AddressFault {
    NotAUrl(Seq<char>),
    NoWebSocket,
}

impl AddressError {
    pub open spec fn fault(self) -> AddressFault {
        match self {
            AddressError::NotAUrl(m) => AddressFault::NotAUrl(m@),
            AddressError::NoWebSocket => AddressFault::NoWebSocket,
        }
    }

    /// The error in words.
    pub fn message(&self) -> (r: String)
        ensures
            r@ == (match self.fault() {
                AddressFault::NotAUrl(m) => m,
                AddressFault::NoWebSocket => "failed to convert API URL to websocket URL"@,
            }),
    {
        match self {
            AddressError::NotAUrl(m) => m.clone(),
            AddressError::NoWebSocket => "failed to convert API URL to websocket URL".to_owned(),
        }
    }
}

/// The scheme for WebSockets that goes with a scheme.
pub open spec fn ws_scheme_of(scheme: Seq<char>) -> Seq<char> {
    if scheme == "https"@ {
        "wss"@
    } else if scheme == "http"@ {
        "ws"@
    } else {
        scheme
    }
}

/// The scheme for WebSockets that goes with a scheme.
pub fn ws_scheme(scheme: String) -> (r: String)
    ensures
        r@ == ws_scheme_of(scheme@),
{
    if scheme == "https".to_owned() {
        "wss".to_owned()
    } else if scheme == "http".to_owned() {
        "ws".to_owned()
    } else {
        scheme
    }
}

/// An address below a base address, whose slashes at the end do not count.
pub open spec fn below(base: Seq<char>, path: Seq<char>) -> Seq<char> {
    text::trim_end_of(base, '/') + path
}

/// The address of the hub for WebSockets.
pub open spec fn hub_address(base: Seq<char>, auth: Option<(Seq<char>, Seq<char>)>) -> Result<
    Seq<char>,
    AddressFault,
> {
    let api = below(base, "/gameHub"@);
    match url_scheme(api) {
        Err(m) => Err(AddressFault::NotAUrl(m)),
        Ok(scheme) => {
            let url = match auth {
                None => url_rescheme(api, ws_scheme_of(scheme)),
                Some(pair) => url_with_pair(api, ws_scheme_of(scheme), pair.0, pair.1),
            };
            match url {
                Some(full) => Ok(full),
                None => Err(AddressFault::NoWebSocket),
            }
        },
    }
}

/// The texts of an optional pair.
pub open spec fn pair_of(auth: Option<(String, String)>) -> Option<(Seq<char>, Seq<char>)> {
    match auth {
        Some(p) => Some((p.0@, p.1@)),
        None => None,
    }
}

/// How many characters a pair has.
pub open spec fn pair_size(auth: Option<(String, String)>) -> nat {
    match auth {
        Some(p) => p.0@.len() + p.1@.len(),
        None => 0,
    }
}

/// The address of the hub for WebSockets, with the pair that says who connects. All that goes into
/// it has to fit into a URL.
pub fn build_ws_url(base_url: &str, auth: Option<(String, String)>) -> (r: Result<String, AddressError>)
    requires
        2 * base_url@.len() + pair_size(auth) + 100 <= URL_LIMIT,
    ensures
        match r {
            Ok(url) => hub_address(base_url@, pair_of(auth)) == Ok::<Seq<char>, AddressFault>(url@),
            Err(e) => hub_address(base_url@, pair_of(auth)) == Err::<Seq<char>, AddressFault>(e.fault()),
        },
{
    let api = text::trim_end_text(base_url, '/').concat("/gameHub");
    proof {
        text::lemma_trim_end_shortens(base_url@, '/');
        reveal_strlit("/gameHub");
        reveal_strlit("ws");
        reveal_strlit("wss");
    }
    let scheme = match scheme_of(api.as_str()) {
        Ok(scheme) => ws_scheme(scheme),
        Err(m) => {
            return Err(AddressError::NotAUrl(m));
        },
    };
    let url = match auth {
        None => with_scheme(api.as_str(), scheme.as_str()),
        Some((key, value)) => with_scheme_and_pair(api.as_str(), scheme.as_str(), key.as_str(), value.as_str()),
    };
    match url {
        Some(url) => Ok(url),
        None => Err(AddressError::NoWebSocket),
    }
}

/// The address at which registered players log in.
pub fn login_url(base_url: &str) -> (r: String)
    ensures
        r@ == below(base_url@, "/api/auth/login"@),
{
    text::trim_end_text(base_url, '/').concat("/api/auth/login")
}

/// Slashes at the end of the base address make no difference.
pub proof fn law_trailing_slashes_do_not_count(base: Seq<char>, auth: Option<(Seq<char>, Seq<char>)>)
    ensures
        hub_address(base.push('/'), auth) == hub_address(base, auth),
{
    assert(base.push('/').drop_last() =~= base);
}

} // verus!

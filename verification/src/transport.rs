//! Transports: what a connection needs from one, and the WebSocket upgrade
//! handshake the default transport performs.
use vstd::prelude::*;

use crate::error::ModelSocketError;
use crate::protocol::opt_string_view;
use crate::text::{concat_str, decimal, decimal_string};
use vstd::string::StringExecFns;

verus! {

/// A duplex channel to a ModelSocket server, split into the half that sends
/// requests (`TX`) and the half that yields events (`RX`).
pub trait MSTransport<RX, TX> {
    fn split(self) -> (TX, RX);
}

/// The host of `url` read as an HTTP URI (`None` when it does not parse or
/// names no host), as the `http` crate reads it.
pub uninterp spec fn uri_host_of(url: Seq<char>) -> Option<Seq<char>>;

/// The canonical reason phrase of an HTTP status code, as the `http` crate
/// knows it.
pub uninterp spec fn canonical_reason_of(code: u16) -> Option<Seq<char>>;

/// Parses `url` with `<http::Uri as FromStr>::from_str` and takes
/// `http::Uri::host` of the result.
///
/// Trusted: the host is the one the `http` crate reads, named `uri_host_of`;
/// nothing more is claimed of it.
#[verifier::external_body]
fn uri_host(url: &str) -> (r: Option<String>)
    ensures
        opt_string_view(r) == uri_host_of(url@),
{
    match url.parse::<http::Uri>() {
        Ok(uri) => uri.host().map(|h| h.to_string()),
        Err(_) => None,
    }
}

/// `tungstenite::handshake::client::generate_key`: the base64 text of 16
/// random bytes.
///
/// Trusted: the key is random; only its length (24 characters of base64) is
/// claimed.
#[verifier::external_body]
fn generate_key() -> (r: String)
    ensures
        r@.len() == 24,
{
    tokio_tungstenite::tungstenite::handshake::client::generate_key()
}

/// `http::StatusCode::from_u16(code)` followed by `canonical_reason`.
///
/// Trusted: the reason is the one the `http` crate's table gives, named
/// `canonical_reason_of`. `from_u16` accepts exactly the codes 100 to 999.
#[verifier::external_body]
fn canonical_reason(code: u16) -> (r: Option<String>)
    requires
        100 <= code <= 999,
    ensures
        opt_string_view(r) == canonical_reason_of(code),
{
    match http::StatusCode::from_u16(code) {
        Ok(status) => status.canonical_reason().map(|s| s.to_string()),
        Err(_) => None,
    }
}

/// How an HTTP status is displayed: its code and its reason phrase.
pub open spec fn status_display(code: u16) -> Seq<char> {
    decimal(code as nat) + " "@ + match canonical_reason_of(code) {
        Some(r) => r,
        None => "<unknown status code>"@,
    }
}

/// The display text of an HTTP status code: `"404 Not Found"`.
pub fn status_text(code: u16) -> (r: String)
    requires
        100 <= code <= 999,
    ensures
        r@ == status_display(code),
{
    let mut s = decimal_string(code as u64);
    s.append(" ");
    match canonical_reason(code) {
        Some(reason) => s.append(reason.as_str()),
        None => s.append("<unknown status code>"),
    }
    s
}

/// The headers of the WebSocket upgrade request to `host`, with the
/// handshake key `key` and, when given, the API key as a bearer token.
pub open spec fn upgrade_headers(host: Seq<char>, key: Seq<char>, api_key: Option<Seq<char>>) -> Seq<
    (Seq<char>, Seq<char>),
> {
    seq![
        ("Sec-WebSocket-Key"@, key),
        ("host"@, host),
        ("upgrade"@, "websocket"@),
        ("connection"@, "upgrade"@),
        ("sec-websocket-version"@, "13"@),
    ] + match api_key {
        Some(k) => seq![("Authorization"@, "Bearer "@ + k)],
        None => Seq::empty(),
    }
}

/// The views of a list of header name/value pairs.
pub open spec fn header_views(h: Seq<(String, String)>) -> Seq<(Seq<char>, Seq<char>)> {
    h.map_values(|p: (String, String)| (p.0@, p.1@))
}

/// The view of an optional borrowed string.
pub open spec fn opt_key_view(o: Option<&str>) -> Option<Seq<char>> {
    match o {
        Some(s) => Some(s@),
        None => None,
    }
}

fn header(name: &str, value: String) -> (r: (String, String))
    ensures
        r.0@ == name@,
        r.1@ == value@,
{
    (String::from_str(name), value)
}

/// The headers of the WebSocket upgrade request to `host`.
pub fn handshake_headers(host: &str, key: String, api_key: Option<&str>) -> (r: Vec<(String, String)>)
    ensures
        header_views(r@) == upgrade_headers(host@, key@, opt_key_view(api_key)),
{
    let mut h: Vec<(String, String)> = Vec::new();
    h.push(header("Sec-WebSocket-Key", key));
    h.push(header("host", String::from_str(host)));
    h.push(header("upgrade", String::from_str("websocket")));
    h.push(header("connection", String::from_str("upgrade")));
    h.push(header("sec-websocket-version", String::from_str("13")));
    match api_key {
        Some(k) => {
            h.push(header("Authorization", concat_str("Bearer ", k)));
        },
        None => {},
    }
    assert(header_views(h@) =~= upgrade_headers(host@, key@, opt_key_view(api_key)));
    h
}

/// The headers of the WebSocket upgrade request for `url`, with a fresh
/// handshake key; `None` when `url` names no host.
pub fn handshake_request(url: &str, api_key: Option<&str>) -> (r: Option<Vec<(String, String)>>)
    ensures
        match r {
            Some(h) => (uri_host_of(url@) matches Some(host) && exists|key: Seq<char>|
                key.len() == 24 && header_views(h@) == upgrade_headers(
                    host,
                    key,
                    opt_key_view(api_key),
                )),
            None => uri_host_of(url@) is None,
        },
{
    match uri_host(url) {
        Some(host) => {
            let key = generate_key();
            let h = handshake_headers(host.as_str(), key, api_key);
            Some(h)
        },
        None => None,
    }
}

/// Whether the server accepted the upgrade: status 101, else a protocol
/// error naming the status it answered with.
pub fn upgrade_status(code: u16) -> (r: Result<(), ModelSocketError>)
    requires
        100 <= code <= 999,
    ensures
        code == 101 ==> r is Ok,
        code != 101 ==> (r matches Err(ModelSocketError::Protocol(m)) && m@
            == "WebSocket upgrade failed with status: "@ + status_display(code)),
{
    if code != 101 {
        let t = status_text(code);
        Err(ModelSocketError::Protocol(concat_str("WebSocket upgrade failed with status: ", t.as_str())))
    } else {
        Ok(())
    }
}

} // verus!

//! Which browser origins and connections count as local: the default CORS
//! allowance for localhost, the loopback-only desktop integration, and the
//! session cookie's `Secure` attribute.
use vstd::prelude::*;
use vstd::utf8::{decode_utf8, valid_utf8};
use crate::bindings::{parse_url, url_parse, str_from_utf8};
use crate::text::{chars_eq_str, chars_of, push_str};

verus! {

/// Name of the browser session cookie.
pub const SESSION_COOKIE_NAME: &'static str = "holon_session";

/// Whether `host` (as a URL serializes it) names this machine:
/// `localhost`, `127.0.0.1` or `[::1]`.
pub open spec fn local_host(host: Option<Seq<char>>) -> bool {
    host == Some("localhost"@) || host == Some("127.0.0.1"@) || host == Some("[::1]"@)
}

fn is_local_host(host: &Option<String>) -> (b: bool)
    ensures
        b == local_host(match host {
            Some(h) => Some(h@),
            None => None,
        }),
{
    match host {
        Some(h) => {
            let v = chars_of(h.as_str());
            chars_eq_str(&v, "localhost") || chars_eq_str(&v, "127.0.0.1") || chars_eq_str(
                &v,
                "[::1]",
            )
        },
        None => false,
    }
}

fn is_http_scheme(scheme: &String) -> (b: bool)
    ensures
        b == (scheme@ == "http"@ || scheme@ == "https"@),
{
    let v = chars_of(scheme.as_str());
    chars_eq_str(&v, "http") || chars_eq_str(&v, "https")
}

/// Whether an `Origin` is one of the local development origins allowed by
/// default: an `http`/`https` origin on this machine, with no path, query
/// or fragment. For `http` and `https` URLs the host is serialized in its
/// canonical form (lowercase domain, dotted IPv4, bracketed compressed
/// IPv6), so these are the loopback name and addresses.
pub open spec fn default_local_origin(origin: Seq<char>) -> bool {
    match url_parse(origin) {
        None => false,
        Some(u) => {
            &&& (u.scheme == "http"@ || u.scheme == "https"@)
            &&& u.path == "/"@
            &&& u.query is None
            &&& u.fragment is None
            &&& local_host(u.host)
        },
    }
}

/// Whether a CORS `Origin` header (`None` when it is not visible ASCII) is
/// allowed without configuration.
pub fn is_default_localhost_cors_origin(origin: Option<&str>) -> (b: bool)
    ensures
        b == (origin matches Some(o) && default_local_origin(o@)),
{
    let origin = match origin {
        Some(o) => o,
        None => return false,
    };
    let u = match parse_url(origin) {
        Some(u) => u,
        None => return false,
    };
    if !is_http_scheme(&u.scheme) {
        return false;
    }
    let p = chars_of(u.path.as_str());
    if !chars_eq_str(&p, "/") || u.query.is_some() || u.fragment.is_some() {
        return false;
    }
    is_local_host(&u.host)
}

// ------------------------------------------------------------ desktop

/// A peer address: IPv4 or IPv6, as its integer.
#[derive(Debug, Clone, Copy, PartialEq, Eq, Structural)]
pub enum PeerAddr {
    V4(u32),
    V6(u128),
}

/// `IpAddr::is_loopback`: `127.0.0.0/8` or `::1`.
pub open spec fn loopback_addr(peer: PeerAddr) -> bool {
    match peer {
        PeerAddr::V4(a) => 0x7f000000 <= a && a <= 0x7fffffff,
        PeerAddr::V6(a) => a == 1,
    }
}

/// Whether a peer address is a loopback address.
pub fn is_loopback_peer(peer: PeerAddr) -> (b: bool)
    ensures
        b == loopback_addr(peer),
{
    match peer {
        PeerAddr::V4(a) => 0x7f000000 <= a && a <= 0x7fffffff,
        PeerAddr::V6(a) => a == 1,
    }
}

/// Whether `http://{host}` names this machine with nothing but a host and
/// port, spelled exactly as the `Host` header spells it.
pub open spec fn local_host_header(host: Seq<char>) -> bool {
    match url_parse("http://"@ + host) {
        None => false,
        Some(u) => {
            &&& u.username.len() == 0
            &&& u.password is None
            &&& u.authority == host
            &&& u.path == "/"@
            &&& u.query is None
            &&& u.fragment is None
            &&& local_host(u.host)
        },
    }
}

/// Whether an `Origin` header names an `http`/`https` origin with the
/// request's host, serialized exactly as the URL crate serializes it.
pub open spec fn same_origin_header(origin: Seq<char>, host: Seq<char>) -> bool {
    match url_parse(origin) {
        None => false,
        Some(u) => (u.scheme == "http"@ || u.scheme == "https"@) && u.authority == host && u.origin
            == origin,
    }
}

/// Whether a `Sec-Fetch-Site` header value is exactly `same-origin`.
pub open spec fn fetch_site_same_origin(value: Seq<u8>) -> bool {
    valid_utf8(value) && decode_utf8(value) == "same-origin"@
}

/// Whether a request may use the desktop integration: from a loopback
/// peer, addressed to this machine by its `Host` header, not marked
/// cross-site, and with an `Origin` of the same host, which a mutation must
/// carry.
pub open spec fn loopback_allowed(
    peer: Option<PeerAddr>,
    host: Option<Seq<char>>,
    sec_fetch_site: Option<Seq<u8>>,
    origin: Option<Seq<char>>,
    mutation: bool,
) -> bool {
    &&& peer matches Some(p) && loopback_addr(p)
    &&& host matches Some(h) && local_host_header(h)
    &&& (sec_fetch_site matches Some(v) ==> fetch_site_same_origin(v))
    &&& match origin {
        Some(o) => host matches Some(h) && same_origin_header(o, h),
        None => !mutation,
    }
}

pub open spec fn opt_view_str(o: Option<&str>) -> Option<Seq<char>> {
    match o {
        Some(s) => Some(s@),
        None => None,
    }
}

pub open spec fn opt_view_bytes(o: Option<&[u8]>) -> Option<Seq<u8>> {
    match o {
        Some(b) => Some(b@),
        None => None,
    }
}

/// Whether a request comes from this machine for this machine, as the
/// desktop integration requires. `host` and `origin` are the header values
/// (`None` when absent or not visible ASCII); `sec_fetch_site` is the raw
/// header value.
pub fn loopback_request(
    peer: Option<PeerAddr>,
    host: Option<&str>,
    sec_fetch_site: Option<&[u8]>,
    origin: Option<&str>,
    mutation: bool,
) -> (b: bool)
    ensures
        b == loopback_allowed(
            peer,
            opt_view_str(host),
            opt_view_bytes(sec_fetch_site),
            opt_view_str(origin),
            mutation,
        ),
{
    match peer {
        Some(p) => {
            if !is_loopback_peer(p) {
                return false;
            }
        },
        None => return false,
    }
    let host = match host {
        Some(h) => h,
        None => return false,
    };
    let mut full = String::from_str("http://");
    push_str(&mut full, host);
    let u = match parse_url(full.as_str()) {
        Some(u) => u,
        None => return false,
    };
    let authority = chars_of(u.authority.as_str());
    let path = chars_of(u.path.as_str());
    if u.username.as_str().unicode_len() != 0 || u.password.is_some() || !chars_eq_str(&authority, host)
        || !chars_eq_str(&path, "/") || u.query.is_some() || u.fragment.is_some() {
        return false;
    }
    if !is_local_host(&u.host) {
        return false;
    }
    match sec_fetch_site {
        Some(v) => {
            let same = match str_from_utf8(v) {
                Ok(text) => {
                    let t = chars_of(text.as_str());
                    chars_eq_str(&t, "same-origin")
                },
                Err(_) => false,
            };
            if !same {
                return false;
            }
        },
        None => {},
    }
    match origin {
        Some(o) => match parse_url(o) {
            Some(ou) => {
                let oa = chars_of(ou.authority.as_str());
                let os = chars_of(ou.origin.as_str());
                is_http_scheme(&ou.scheme) && chars_eq_str(&oa, host) && chars_eq_str(&os, o)
            },
            None => false,
        },
        None => !mutation,
    }
}

// --------------------------------------------------------- session cookie

/// The session cookie for a credential: `Secure` when the configured OIDC
/// redirect URI is an `https` URL.
pub open spec fn session_cookie_value(credential: Seq<char>, redirect_uri: Option<Seq<char>>) -> Seq<char> {
    let secure = match redirect_uri {
        Some(r) => match url_parse(r) {
            Some(u) => u.scheme == "https"@,
            None => false,
        },
        None => false,
    };
    SESSION_COOKIE_NAME@ + "="@ + credential + "; Path=/; HttpOnly; SameSite=Lax"@ + if secure {
        "; Secure"@
    } else {
        Seq::empty()
    }
}

/// The `Set-Cookie` value that carries a new session credential.
pub fn session_cookie(credential: &str, redirect_uri: Option<&str>) -> (r: String)
    ensures
        r@ == session_cookie_value(credential@, opt_view_str(redirect_uri)),
{
    let secure = match redirect_uri {
        Some(uri) => match parse_url(uri) {
            Some(u) => {
                let s = chars_of(u.scheme.as_str());
                chars_eq_str(&s, "https")
            },
            None => false,
        },
        None => false,
    };
    let mut r = String::from_str(SESSION_COOKIE_NAME);
    push_str(&mut r, "=");
    push_str(&mut r, credential);
    push_str(&mut r, "; Path=/; HttpOnly; SameSite=Lax");
    if secure {
        push_str(&mut r, "; Secure");
    }
    proof {
        assert(r@ =~= session_cookie_value(credential@, opt_view_str(redirect_uri)));
    }
    r
}

} // verus!

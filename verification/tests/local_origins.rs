use holon_http::origins::{
    is_default_localhost_cors_origin, is_loopback_peer, loopback_request, session_cookie, PeerAddr,
};

const LOOPBACK: Option<PeerAddr> = Some(PeerAddr::V4(0x7f00_0001));

#[test]
fn default_cors_origins_are_local() {
    assert!(is_default_localhost_cors_origin(Some("http://localhost:5173")));
    assert!(is_default_localhost_cors_origin(Some("https://LOCALHOST")));
    assert!(is_default_localhost_cors_origin(Some("http://127.0.0.1:8080")));
    assert!(is_default_localhost_cors_origin(Some("http://[::1]:3000")));
    assert!(!is_default_localhost_cors_origin(Some("http://127.0.0.2")));
    assert!(!is_default_localhost_cors_origin(Some("ftp://localhost")));
    assert!(!is_default_localhost_cors_origin(Some("http://localhost/app")));
    assert!(!is_default_localhost_cors_origin(Some("http://localhost/?q=1")));
    assert!(!is_default_localhost_cors_origin(Some("http://evil.test")));
    assert!(!is_default_localhost_cors_origin(Some("null")));
    assert!(!is_default_localhost_cors_origin(None));
}

#[test]
fn loopback_addresses() {
    assert!(is_loopback_peer(PeerAddr::V4(0x7f00_0001)));
    assert!(is_loopback_peer(PeerAddr::V4(0x7fff_ffff)));
    assert!(!is_loopback_peer(PeerAddr::V4(0x0a00_0001)));
    assert!(is_loopback_peer(PeerAddr::V6(1)));
    assert!(!is_loopback_peer(PeerAddr::V6(0)));
}

#[test]
fn desktop_requires_loopback_peer_host_and_same_origin() {
    let peer = LOOPBACK;
    for host in ["localhost:7878", "127.0.0.1:7878", "[::1]:7878"] {
        assert!(loopback_request(peer, Some(host), None, None, false));
        assert!(!loopback_request(peer, Some(host), None, None, true));
        let origin = format!("http://{host}");
        assert!(loopback_request(peer, Some(host), None, Some(&origin), true));
        assert!(!loopback_request(None, Some(host), None, Some(&origin), true));
        assert!(!loopback_request(
            Some(PeerAddr::V4(0x0a00_0001)),
            Some(host),
            None,
            Some(&origin),
            true
        ));
        assert!(!loopback_request(
            peer,
            Some(host),
            Some(b"cross-site"),
            Some(&origin),
            true
        ));
    }
    for (host, origin) in [
        ("evil.test:7878", "http://evil.test:7878"),
        ("localhost:7878", "http://evil.test"),
        ("localhost:7878", "http://localhost:9999"),
        ("localhost:7878", "null"),
        ("localhost:7878", "http://localhost:7878/path"),
    ] {
        assert!(!loopback_request(peer, Some(host), None, Some(origin), true));
    }
}

#[test]
fn same_origin_fetch_site_is_allowed() {
    assert!(loopback_request(
        LOOPBACK,
        Some("localhost:7878"),
        Some(b"same-origin"),
        Some("http://localhost:7878"),
        true
    ));
    assert!(!loopback_request(LOOPBACK, Some("user@localhost:7878"), None, None, false));
    assert!(!loopback_request(LOOPBACK, None, None, None, false));
}

#[test]
fn session_cookie_secure_only_for_https_redirects() {
    assert_eq!(
        session_cookie("abc", Some("https://holon.example/callback")),
        "holon_session=abc; Path=/; HttpOnly; SameSite=Lax; Secure"
    );
    assert_eq!(
        session_cookie("abc", Some("http://localhost/callback")),
        "holon_session=abc; Path=/; HttpOnly; SameSite=Lax"
    );
    assert_eq!(
        session_cookie("abc", None),
        "holon_session=abc; Path=/; HttpOnly; SameSite=Lax"
    );
    assert_eq!(
        session_cookie("abc", Some("not a url")),
        "holon_session=abc; Path=/; HttpOnly; SameSite=Lax"
    );
}

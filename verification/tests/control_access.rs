use holon_http::access::{authorize_control, authorize_remote_access};

#[test]
fn control_token_checks() {
    assert!(authorize_control(false, None, None).is_ok());
    assert_eq!(
        authorize_control(true, None, Some("Bearer x")).unwrap_err(),
        "control token required but not configured"
    );
    assert_eq!(
        authorize_control(true, Some("s3cret"), None).unwrap_err(),
        "missing Authorization header"
    );
    assert_eq!(
        authorize_control(true, Some("s3cret"), Some("Basic s3cret")).unwrap_err(),
        "invalid Authorization scheme"
    );
    assert_eq!(
        authorize_control(true, Some("s3cret"), Some("Bearer wrong")).unwrap_err(),
        "invalid control token"
    );
    assert_eq!(
        authorize_control(true, Some("s3cret"), Some("Bearer s3cret ")).unwrap_err(),
        "invalid control token"
    );
    assert!(authorize_control(true, Some("s3cret"), Some("Bearer s3cret")).is_ok());
    assert!(authorize_remote_access(false, Some("s3cret"), None).is_ok());
    assert!(authorize_remote_access(true, Some("s3cret"), None).is_err());
}

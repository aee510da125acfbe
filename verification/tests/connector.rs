use hyper::Uri;
use simple_hyper_client::connector::http::{connect_params, get_host, plan_connect};
use simple_hyper_client::connector::https::plan_tls;
use simple_hyper_client::{ConnectError, HttpConnector, HttpsConnector};

#[test]
fn http_get_host_correctness() {
    assert_eq!(
        get_host(&Uri::from_static("http://example.com")).ok(),
        Some("example.com".to_owned())
    );
    assert_eq!(
        get_host(&Uri::from_static("http://1.2.3.4:80/test")).ok(),
        Some("1.2.3.4".to_owned())
    );
    assert_eq!(get_host(&Uri::from_static("http://[::1]")).ok(), Some("::1".to_owned()));
    assert_eq!(
        get_host(&Uri::from_static("http://[::1.2.3.4]:8080")).ok(),
        Some("::1.2.3.4".to_owned())
    );
    assert_eq!(get_host(&Uri::from_static("http://[test.com]")).ok(), Some("[test.com]".to_owned()));
}

#[test]
fn connector_impl_get_host_correctness() {
    assert_eq!(
        get_host(&Uri::from_static("http://example.com")).ok(),
        Some("example.com".to_owned())
    );
    assert_eq!(
        get_host(&Uri::from_static("http://1.2.3.4:80/test")).ok(),
        Some("1.2.3.4".to_owned())
    );
    assert_eq!(get_host(&Uri::from_static("http://[::1]")).ok(), Some("::1".to_owned()));
    assert_eq!(
        get_host(&Uri::from_static("http://[::1.2.3.4]:8080")).ok(),
        Some("::1.2.3.4".to_owned())
    );
    assert_eq!(get_host(&Uri::from_static("http://[test.com]")).ok(), Some("[test.com]".to_owned()));
}

#[test]
fn get_host_missing() {
    let err = get_host(&Uri::from_static("/relative/path")).unwrap_err();
    assert_eq!(err.message(), "invalid URI: missing host");
}

#[test]
fn test_connect_invalid_scheme() {
    let uri = Uri::from_static("http://example.com");
    let result = plan_tls(uri.scheme_str(), true);
    match result {
        Err(err) => assert!(
            err.message().contains("invalid URI: expected `https` scheme"),
            "{}",
            err.message()
        ),
        Ok(_) => panic!("Expecting error for invalid URI scheme"),
    }
}

#[test]
fn plan_tls_https_accepted() {
    assert_eq!(plan_tls(Some("https"), true).ok(), Some(true));
    assert_eq!(plan_tls(Some("https"), false).ok(), Some(true));
}

#[test]
fn plan_tls_http_fallthrough() {
    assert_eq!(plan_tls(Some("http"), false).ok(), Some(false));
    assert!(plan_tls(None, true).is_err());
}

#[test]
fn plan_connect_ports() {
    let p = plan_connect(Some("http"), Some("example.com"), None, false).unwrap();
    assert_eq!(p.host, "example.com");
    assert_eq!(p.port, 80);

    let p = plan_connect(Some("https"), Some("example.com"), None, true).unwrap();
    assert_eq!(p.port, 443);

    let p = plan_connect(Some("http"), Some("[::1]"), Some(8080), false).unwrap();
    assert_eq!(p.host, "::1");
    assert_eq!(p.port, 8080);
}

#[test]
fn plan_connect_scheme_errors() {
    let err = plan_connect(None, Some("example.com"), None, false).unwrap_err();
    assert_eq!(err.message(), "invalid URI: missing scheme");

    let err = plan_connect(Some("ftp"), Some("example.com"), None, false).unwrap_err();
    assert_eq!(err.message(), "invalid URI: expected `http` scheme");

    let err = plan_connect(Some("ftp"), Some("example.com"), None, true).unwrap_err();
    assert_eq!(err.message(), "invalid URI: expected `http` or `https` scheme");

    let err = plan_connect(Some("https"), Some("example.com"), None, false).unwrap_err();
    assert_eq!(err.message(), "invalid URI: expected `http` scheme");

    let err = plan_connect(Some("http"), None, None, false).unwrap_err();
    assert_eq!(err.message(), "invalid URI: missing host");
}

#[test]
fn connect_params_extracts_everything() {
    let uri = Uri::from_static("http://[::1.2.3.4]:8080/path?q=1");
    let p = connect_params(&uri, false).unwrap();
    assert_eq!(p.host, "::1.2.3.4");
    assert_eq!(p.port, 8080);
}

#[test]
fn connect_timeout_is_distinguishable() {
    let err = ConnectError::timeout_error();
    assert!(err.is_timeout());
    assert_eq!(err.message(), "I/O error: connection timed out");

    let other = ConnectError::io_error("connection refused".to_owned());
    assert!(!other.is_timeout());
    assert_eq!(other.message(), "I/O error: connection refused");

    let plain = ConnectError::new("invalid URI: missing host");
    assert!(!plain.is_timeout());
}

#[test]
fn connect_error_cause_chain() {
    let err = ConnectError::new("TLS error").cause("handshake failed".to_owned());
    assert_eq!(err.message(), "TLS error: handshake failed");
}

#[test]
fn http_connector_configuration() {
    let c = HttpConnector::new();
    assert_eq!(c.timeout_millis(), None);
    let c = c.connect_timeout(Some(100));
    assert_eq!(c.timeout_millis(), Some(100));
    let c2 = c.clone();
    assert_eq!(c2.timeout_millis(), Some(100));
}

#[test]
fn https_connector_configuration() {
    let c = HttpsConnector::new();
    assert!(c.is_tls_forced());
    assert_eq!(c.timeout_millis(), None);
    let c = c.allow_http_scheme().connect_timeout(Some(250));
    assert!(!c.is_tls_forced());
    assert_eq!(c.timeout_millis(), Some(250));
}

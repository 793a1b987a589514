//! Request-line parsing, path validation and content-type
//! classification.

use nu_php::parsing::{classify_content_type, BodyKind, ServerPath};
use nu_php::request::{HttpMethod, HttpProtocol, Request};
use nu_php::ServerError;

#[test]
fn request_line_parses_into_parts() {
    let req = Request::try_from("GET /shop/cart.nu?item=7&item=9 HTTP/1.1").unwrap();
    assert_eq!(req.method(), HttpMethod::Get);
    assert_eq!(req.protocol(), HttpProtocol::Http1_1);
    assert_eq!(req.path(), "shop/cart.nu");
    assert_eq!(
        req.query_params(),
        &vec![
            ("item".to_string(), "7".to_string()),
            ("item".to_string(), "9".to_string()),
        ]
    );
}

#[test]
fn tokens_match_case_insensitively() {
    let req = Request::try_from("post / http/1.0").unwrap();
    assert_eq!(req.method(), HttpMethod::Post);
    assert_eq!(req.protocol(), HttpProtocol::Http1_0);
    assert_eq!(req.path(), "index.nu");
}

#[test]
fn malformed_request_lines_are_bad_requests() {
    assert_eq!(Request::try_from("GET").unwrap_err(), ServerError::BadRequest);
    assert_eq!(Request::try_from("GET /x").unwrap_err(), ServerError::BadRequest);
    assert_eq!(
        Request::try_from("BREW /x HTTP/1.1").unwrap_err(),
        ServerError::BadRequest
    );
    assert_eq!(
        Request::try_from("GET /x HTTP/9.9").unwrap_err(),
        ServerError::BadRequest
    );
}

#[test]
fn parent_directory_paths_are_rejected() {
    assert_eq!(
        Request::try_from("GET /../etc/passwd HTTP/1.1").unwrap_err(),
        ServerError::BadRequest
    );
    assert_eq!(
        ServerPath::try_from("/a/../b").unwrap_err(),
        ServerError::BadRequest
    );
}

#[test]
fn query_parameter_without_value_keeps_empty_value() {
    let req = Request::try_from("GET /p?flag&x=1 HTTP/2.0").unwrap();
    assert_eq!(
        req.query_params(),
        &vec![
            ("flag".to_string(), "".to_string()),
            ("x".to_string(), "1".to_string()),
        ]
    );
}

#[test]
fn methods_cover_the_full_set() {
    let req = Request::try_from("OPTIONS * HTTP/1.1").unwrap();
    assert_eq!(req.method(), HttpMethod::Options);
    let req = Request::try_from("PATCH /x HTTP/0.9").unwrap();
    assert_eq!(req.method(), HttpMethod::Patch);
    assert_eq!(req.protocol(), HttpProtocol::Http0_9);
}

#[test]
fn empty_path_names_the_index_script() {
    let p = ServerPath::try_from("/").unwrap();
    assert_eq!(p.path(), "index.nu");
    let p = ServerPath::try_from("").unwrap();
    assert_eq!(p.path(), "index.nu");
}

#[test]
fn extension_reads_the_final_component() {
    let p = ServerPath::try_from("/a/b.nu").unwrap();
    assert_eq!(p.extension(), Some("nu"));
    let p = ServerPath::try_from("/a.b/c").unwrap();
    assert_eq!(p.extension(), None);
    let p = ServerPath::try_from("/x.tar.gz").unwrap();
    assert_eq!(p.extension(), Some("gz"));
    let p = ServerPath::try_from("/.hidden").unwrap();
    assert_eq!(p.extension(), None);
    let p = ServerPath::try_from("/plain").unwrap();
    assert_eq!(p.extension(), None);
}

#[test]
fn script_target_appends_default_extension() {
    assert_eq!(ServerPath::try_from("/page").unwrap().script_target(), "page.nu");
    assert_eq!(ServerPath::try_from("/page.nu").unwrap().script_target(), "page.nu");
    assert_eq!(ServerPath::try_from("/").unwrap().script_target(), "index.nu");
}

#[test]
fn script_routing_reads_the_extension() {
    assert!(ServerPath::try_from("/page").unwrap().is_script());
    assert!(ServerPath::try_from("/page.nu").unwrap().is_script());
    assert!(!ServerPath::try_from("/style.css").unwrap().is_script());
}

#[test]
fn content_type_classification() {
    assert!(matches!(classify_content_type(None), Ok(BodyKind::Plain)));
    assert!(matches!(
        classify_content_type(Some("application/x-www-form-urlencoded")),
        Ok(BodyKind::UrlEncoded)
    ));
    assert!(matches!(
        classify_content_type(Some("text/plain")),
        Ok(BodyKind::Plain)
    ));
    match classify_content_type(Some("multipart/form-data; boundary=XyZ")) {
        Ok(BodyKind::Multipart(b)) => assert_eq!(b, "XyZ"),
        _ => panic!("expected a multipart classification"),
    }
    assert_eq!(
        classify_content_type(Some("multipart/form-data")).unwrap_err(),
        ServerError::BadRequest
    );
}

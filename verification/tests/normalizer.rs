//! The Multipart/Urlencoded Normalizer: body and query decoding into the
//! Canonical Request Model.

use std::io::{Read, Write};

use nu_php::literal::nu_list;
use nu_php::multimap::MultiMap;
use nu_php::parsing::{MultipartPart, NuPhpRequest, PartData};
use nu_php::ServerError;

#[test]
fn query_string_groups_repeated_fields() {
    let body: Vec<u8> = Vec::new();
    let req = NuPhpRequest::parse_url_encoded(&body, Some("a=1&a=2&b=3"), MultiMap::new())
        .unwrap();
    assert_eq!(
        req.query_params.get("a").unwrap(),
        &vec!["1".to_string(), "2".to_string()]
    );
    assert_eq!(req.query_params.get("b").unwrap(), &vec!["3".to_string()]);
    assert_eq!(nu_list(req.query_params.get("a").unwrap()), "[\"1\",\"2\",]");
    assert_eq!(nu_list(req.query_params.get("b").unwrap()), "\"3\"");
}

#[test]
fn url_encoded_body_appends_values_in_order() {
    let body = b"name=alice&name=bob&city=berlin".to_vec();
    let req = NuPhpRequest::parse_url_encoded(&body, None, MultiMap::new()).unwrap();
    assert_eq!(
        req.post_body.get("name").unwrap(),
        &vec!["alice".to_string(), "bob".to_string()]
    );
    assert_eq!(req.post_body.get("city").unwrap(), &vec!["berlin".to_string()]);
    assert_eq!(req.query_params.len(), 0);
    assert_eq!(req.files.len(), 0);
}

#[test]
fn url_decoding_really_decodes() {
    let body = b"a%20b=c%26d&x=1+2".to_vec();
    let req = NuPhpRequest::parse_url_encoded(&body, None, MultiMap::new()).unwrap();
    assert_eq!(req.post_body.get("a b").unwrap(), &vec!["c&d".to_string()]);
    assert_eq!(req.post_body.get("x").unwrap(), &vec!["1 2".to_string()]);
}

#[test]
fn oversized_body_is_a_bad_request() {
    let body = vec![b'x'; 65537];
    let r = NuPhpRequest::parse_url_encoded(&body, None, MultiMap::new());
    assert_eq!(r.unwrap_err(), ServerError::BadRequest);
}

#[test]
fn body_at_the_cap_is_accepted() {
    let body = vec![b'x'; 65536];
    assert!(NuPhpRequest::parse_url_encoded(&body, None, MultiMap::new()).is_ok());
}

#[test]
fn headers_are_passed_through() {
    let mut headers = MultiMap::new();
    headers.add("Host".to_string(), "localhost".to_string());
    let body: Vec<u8> = Vec::new();
    let req = NuPhpRequest::parse_url_encoded(&body, None, headers).unwrap();
    assert_eq!(req.headers.get("Host").unwrap(), &vec!["localhost".to_string()]);
}

#[test]
fn uploaded_file_part_records_name_and_real_file() {
    let mut tmp = tempfile::NamedTempFile::new().unwrap();
    tmp.write_all(b"portrait bytes").unwrap();
    let path = tmp.path().to_str().unwrap().to_string();

    let parts = vec![MultipartPart {
        name: "avatar".to_string(),
        data: PartData::File {
            file_name: "me.png".to_string(),
            temp_path: path.clone(),
        },
    }];
    let req = NuPhpRequest::parse_mulitpart(&parts, None, MultiMap::new(), 100).unwrap();
    assert_eq!(req.post_body.get("avatar").unwrap(), &vec!["me.png".to_string()]);
    assert_eq!(req.files.get("avatar").unwrap(), &vec![path]);

    let mut contents = Vec::new();
    tmp.reopen().unwrap().read_to_end(&mut contents).unwrap();
    assert_eq!(contents, b"portrait bytes");
}

#[test]
fn multipart_mixes_fields_and_files() {
    let parts = vec![
        MultipartPart {
            name: "title".to_string(),
            data: PartData::Field("hello".to_string()),
        },
        MultipartPart {
            name: "doc".to_string(),
            data: PartData::File {
                file_name: "a.txt".to_string(),
                temp_path: "/tmp/spill0".to_string(),
            },
        },
        MultipartPart {
            name: "doc".to_string(),
            data: PartData::File {
                file_name: "b.txt".to_string(),
                temp_path: "/tmp/spill1".to_string(),
            },
        },
    ];
    let req =
        NuPhpRequest::parse_mulitpart(&parts, Some("q=1"), MultiMap::new(), 0).unwrap();
    assert_eq!(req.post_body.get("title").unwrap(), &vec!["hello".to_string()]);
    assert_eq!(
        req.post_body.get("doc").unwrap(),
        &vec!["a.txt".to_string(), "b.txt".to_string()]
    );
    assert_eq!(
        req.files.get("doc").unwrap(),
        &vec!["/tmp/spill0".to_string(), "/tmp/spill1".to_string()]
    );
    assert!(req.files.get("title").is_none());
    assert_eq!(req.query_params.get("q").unwrap(), &vec!["1".to_string()]);
}

#[test]
fn oversized_multipart_is_a_bad_request() {
    let parts: Vec<MultipartPart> = Vec::new();
    let r = NuPhpRequest::parse_mulitpart(&parts, None, MultiMap::new(), 65537);
    assert_eq!(r.unwrap_err(), ServerError::BadRequest);
}

#[test]
fn bodyless_request_still_parses_the_query() {
    let req = NuPhpRequest::new(Some("a=1&b=2"), MultiMap::new());
    assert_eq!(req.post_body.len(), 0);
    assert_eq!(req.files.len(), 0);
    assert_eq!(req.query_params.get("a").unwrap(), &vec!["1".to_string()]);
    assert_eq!(req.query_params.get("b").unwrap(), &vec!["2".to_string()]);

    let req = NuPhpRequest::new(None, MultiMap::new());
    assert_eq!(req.query_params.len(), 0);
}

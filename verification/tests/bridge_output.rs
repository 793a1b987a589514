//! The Script Execution Bridge: sentinel derivation, script composition,
//! and demarshalling of the captured interpreter output.

use nu_php::bridge::{
    compose_script, header_sentinel, parse_header_lines, process_output, session_sentinel,
};
use nu_php::multimap::MultiMap;
use nu_php::numeric::u128_to_decimal;
use nu_php::parsing::NuPhpRequest;
use nu_php::session::SessionStore;
use nu_php::ServerError;

#[test]
fn decimal_rendering() {
    assert_eq!(u128_to_decimal(0), "0");
    assert_eq!(u128_to_decimal(9), "9");
    assert_eq!(u128_to_decimal(1234567890), "1234567890");
    assert_eq!(
        u128_to_decimal(u128::MAX),
        "340282366920938463463374607431768211455"
    );
}

#[test]
fn sentinels_carry_token_and_tag() {
    assert_eq!(header_sentinel(7), "---------------------------7HEADER");
    assert_eq!(session_sentinel(7), "---------------------------7SESSION");
    assert_ne!(header_sentinel(7), session_sentinel(7));
}

#[test]
fn composed_script_embeds_all_bindings() {
    let mut headers = MultiMap::new();
    headers.add("Host".to_string(), "localhost".to_string());
    let body = b"name=alice".to_vec();
    let req = NuPhpRequest::parse_url_encoded(&body, Some("q=1"), headers).unwrap();
    let script = compose_script(
        "./site/public/index.nu",
        &req,
        Some(&" {\"n\": 3} \n".to_string()),
        "HB",
        "SB",
    );
    let expected = format!(
        "\n            const PATH = \"{}\"\n            export-env {{\n                $env.GET = {}\n                $env.POST = {}\n                $env.REQ_HEADERS = {}\n                $env.RES_HEADERS = {{}}\n                $env.SESSION = {}\n                $env.FILES = {}\n            }}\n            source $PATH\n\n            print \"{}\"\n            for $it in ($env.RES_HEADERS | transpose key value) {{\n                print $\"($it.key): ($it.value)\"\n            }}\n\n            print \"{}\"\n            print ($env.SESSION | to json -r)\n            ",
        "./site/public/index.nu",
        "{\"q\": \"1\",}",
        "{\"name\": \"alice\",}",
        "{\"Host\": \"localhost\",}",
        "{\"n\": 3}",
        "{}",
        "HB",
        "SB"
    );
    assert_eq!(script, expected);
}

#[test]
fn composed_script_defaults_the_session() {
    let req = NuPhpRequest::new(None, MultiMap::new());
    let script = compose_script("f.nu", &req, None, "HB", "SB");
    assert!(script.contains("$env.SESSION = {}\n"));
}

#[test]
fn header_lines_split_at_first_colon() {
    let parsed = parse_header_lines("X-Test: yes\nplain line\n\nA:b:c\r\n");
    assert_eq!(
        parsed,
        vec![
            ("X-Test".to_string(), " yes".to_string()),
            ("A".to_string(), "b:c".to_string()),
        ]
    );
}

#[test]
fn successful_run_with_session_sets_no_cookie() {
    let mut store = SessionStore::new();
    store.store(9, "old".to_string());
    let output = "BODY TEXT<HB>X-One: a\n<SB>\n {\"k\": 1} ";
    let r = process_output(output, true, "<HB>", "<SB>", Some(9), &mut store).unwrap();
    assert_eq!(r.body, "BODY TEXT");
    assert_eq!(r.headers, vec![("X-One".to_string(), " a".to_string())]);
    assert!(r.new_session.is_none());
    assert_eq!(store.get(9).unwrap(), "{\"k\": 1}");
}

#[test]
fn successful_run_without_session_issues_one_cookie() {
    let mut store = SessionStore::new();
    let output = "hello<HB><SB>{\"fresh\": true}";
    let r = process_output(output, true, "<HB>", "<SB>", None, &mut store).unwrap();
    assert_eq!(r.body, "hello");
    assert_eq!(r.headers, Vec::new());
    let id = r.new_session.expect("a fresh session identifier");
    assert_eq!(store.get(id).unwrap(), "{\"fresh\": true}");
}

#[test]
fn failed_subprocess_is_internal_error_without_mutation() {
    let mut store = SessionStore::new();
    store.store(9, "kept".to_string());
    let output = "BODY<HB>X: y\n<SB>{\"new\": 1}";
    let r = process_output(output, false, "<HB>", "<SB>", Some(9), &mut store);
    assert_eq!(r.unwrap_err(), ServerError::InternalServerError);
    assert_eq!(store.get(9).unwrap(), "kept");
}

#[test]
fn missing_sentinel_is_internal_error_without_mutation() {
    let mut store = SessionStore::new();
    store.store(3, "kept".to_string());
    let r1 = process_output("no sentinels here", true, "<HB>", "<SB>", Some(3), &mut store);
    assert_eq!(r1.unwrap_err(), ServerError::InternalServerError);
    let r2 = process_output("body<HB>headers only", true, "<HB>", "<SB>", Some(3), &mut store);
    assert_eq!(r2.unwrap_err(), ServerError::InternalServerError);
    assert_eq!(store.get(3).unwrap(), "kept");
}

#[test]
fn splits_happen_at_first_occurrence() {
    let mut store = SessionStore::new();
    let output = "a<HB>k: b<HB>c\n<SB>d<SB>e";
    let r = process_output(output, true, "<HB>", "<SB>", Some(1), &mut store).unwrap();
    assert_eq!(r.body, "a");
    assert_eq!(r.headers, vec![("k".to_string(), " b<HB>c".to_string())]);
    assert_eq!(store.get(1).unwrap(), "d<SB>e");
}

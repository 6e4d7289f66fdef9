use yadl::failure::Failure;
use yadl::json::{parse_json, parse_reply, Json, JsonNumber, Reply};
use yadl::page::{cut_store_prefetch, extract_store_prefetch, read_page, Page};
use yadl::web::{check_password, download_url, link_body, password_body, retry_sk, Answer};

fn json(text: &str) -> Json {
    parse_json(text).unwrap()
}

fn reply(text: &str) -> Reply {
    parse_reply(text).unwrap()
}

fn s(text: &str) -> String {
    text.to_string()
}

#[test]
fn json_is_read_value_by_value() {
    assert_eq!(
        json(r#" {"b": [null, true, "x\u00e9\n"], "a": {"n": 7, "m": -7, "f": 1.50}} "#),
        Json::Object(vec![
            (
                s("a"),
                Json::Object(vec![
                    (s("f"), Json::Number(JsonNumber { unsigned: None, signed: None, text: s("1.5") })),
                    (s("m"), Json::Number(JsonNumber { unsigned: None, signed: Some(-7), text: s("-7") })),
                    (s("n"), Json::Number(JsonNumber { unsigned: Some(7), signed: Some(7), text: s("7") })),
                ])
            ),
            (s("b"), Json::Array(vec![Json::Null, Json::Bool(true), Json::Str(s("xé\n"))])),
        ])
    );
}

#[test]
fn json_numbers_at_the_limits() {
    let v = json(r#"{"u": 18446744073709551615, "i": -9223372036854775808, "big": 18446744073709551616}"#);
    assert_eq!(v.at("u").as_u64(), Some(u64::MAX));
    assert_eq!(v.at("u").as_i64(), None);
    assert_eq!(v.at("i").as_i64(), Some(i64::MIN));
    assert_eq!(v.at("i").as_u64(), None);
    assert_eq!(v.at("big").as_u64(), None);
    assert_eq!(v.at("big").as_i64(), None);
}

#[test]
fn json_errors_carry_their_message() {
    assert_eq!(parse_json("{"), Err(s("EOF while parsing an object at line 1 column 1")));
    assert_eq!(parse_json("1 2"), Err(s("trailing characters at line 1 column 3")));
    assert_eq!(parse_reply("oops").err(), Some(s("expected value at line 1 column 1")));
}

#[test]
fn json_members_are_looked_up_like_by_serde() {
    let v = json(r#"{"a": {"b": "c"}, "l": ["x"], "t": true, "z": null}"#);
    assert_eq!(v.at("a").at("b").as_str(), Some("c"));
    assert_eq!(v.at("a").at("x"), &Json::Null);
    assert_eq!(v.at("l").at("0"), &Json::Null);
    assert_eq!(v.at("missing").at("b"), &Json::Null);
    assert_eq!(v.at("t").as_bool(), Some(true));
    assert_eq!(v.at("t").as_str(), None);
    assert_eq!(v.at("z").as_bool(), None);
    assert_eq!(v.first_value(), Some(v.at("a")));
    assert_eq!(json("{}").first_value(), None);
    assert_eq!(json("[1]").first_value(), None);
}

#[test]
fn reply_is_rendered_compactly() {
    let r = reply(" { \"b\" : [ 1 , 2.50 ],\n \"a\" : \"q\\\"\" } ");
    assert_eq!(r.text, r#"{"a":"q\"","b":[1,2.5]}"#);
    assert_eq!(r.json.at("a").as_str(), Some("q\""));
}

#[test]
fn password_body_is_the_record() {
    let body = password_body("h==", "p\"\\я\u{1}", "/d/abc", "k");
    assert_eq!(
        body,
        "{\"hash\":\"h==\",\"password\":\"p\\\"\\\\я\\u0001\",\"short_url\":\"/d/abc\",\"sk\":\"k\"}"
    );
    let read = json(&body);
    assert_eq!(read.at("hash").as_str(), Some("h=="));
    assert_eq!(read.at("password").as_str(), Some("p\"\\я\u{1}"));
    assert_eq!(read.at("short_url").as_str(), Some("/d/abc"));
    assert_eq!(read.at("sk").as_str(), Some("k"));
}

#[test]
fn link_body_is_the_record() {
    assert_eq!(link_body("h", "k", None), r#"{"hash":"h","inline":false,"sk":"k"}"#);
    let body = link_body("h", "k", Some("t"));
    assert_eq!(body, r#"{"hash":"h","inline":false,"passToken":"t","sk":"k"}"#);
    assert_eq!(json(&body).at("inline").as_bool(), Some(false));
    assert_eq!(json(&body).at("passToken").as_str(), Some("t"));
}

#[test]
fn retry_sk_only_on_the_first_attempt() {
    let v = json(r#"{"wrongSk": true, "newSk": "n"}"#);
    assert_eq!(retry_sk(&v, 0).as_deref(), Some("n"));
    assert_eq!(retry_sk(&v, 1), None);
    assert_eq!(retry_sk(&v, 7), None);
}

#[test]
fn retry_sk_wants_both_members() {
    assert_eq!(retry_sk(&json(r#"{"wrongSk": false, "newSk": "n"}"#), 0), None);
    assert_eq!(retry_sk(&json(r#"{"wrongSk": "true", "newSk": "n"}"#), 0), None);
    assert_eq!(retry_sk(&json(r#"{"newSk": "n"}"#), 0), None);
    assert_eq!(retry_sk(&json(r#"{"wrongSk": true}"#), 0), None);
    assert_eq!(retry_sk(&json(r#"{"wrongSk": true, "newSk": 1}"#), 0), None);
}

#[test]
fn check_password_answers() {
    let granted = reply(r#"{"token": "t", "wrongSk": true, "newSk": "n"}"#);
    assert_eq!(check_password(&granted, 0), Answer::Granted(s("t")));
    let wrong_sk = reply(r#"{"wrongSk": true, "newSk": "n"}"#);
    assert_eq!(check_password(&wrong_sk, 0), Answer::Retry(s("n")));
    assert_eq!(
        check_password(&wrong_sk, 1),
        Answer::Refused(Failure::CheckRefused { reply: s(r#"{"newSk":"n","wrongSk":true}"#) })
    );
    let invalid = reply(r#"{"data": {"code": 309}}"#);
    assert_eq!(check_password(&invalid, 0), Answer::Refused(Failure::WrongPassword));
    let other = reply(r#"{"data": {"code": 317}}"#);
    assert_eq!(
        check_password(&other, 0),
        Answer::Refused(Failure::CheckRefused { reply: s(r#"{"data":{"code":317}}"#) })
    );
}

#[test]
fn download_url_answers() {
    let granted = reply(r#"{"data": {"url": "https://x"}}"#);
    assert_eq!(download_url(&granted, 1), Answer::Granted(s("https://x")));
    let wrong_sk = reply(r#"{"wrongSk": true, "newSk": "n", "data": {"code": 317}}"#);
    assert_eq!(download_url(&wrong_sk, 0), Answer::Retry(s("n")));
    assert_eq!(download_url(&wrong_sk, 1), Answer::Refused(Failure::PasswordNeeded));
    let other = reply(r#"{"data": {"code": 309}}"#);
    assert_eq!(
        download_url(&other, 0),
        Answer::Refused(Failure::LinkRefused { reply: s(r#"{"data":{"code":309}}"#) })
    );
}

#[test]
fn refusals_quote_three_hundred_characters() {
    let long = Reply { json: Json::Null, text: "ж".repeat(400) };
    assert_eq!(
        check_password(&long, 0),
        Answer::Refused(Failure::CheckRefused { reply: "ж".repeat(300) })
    );
    assert_eq!(
        download_url(&long, 0),
        Answer::Refused(Failure::LinkRefused { reply: "ж".repeat(300) })
    );
}

#[test]
fn prefetch_is_cut_out_of_the_page() {
    let html = "<html></script><script id=\"store-prefetch\">\n {\"a\": 1} \u{a0}</script></html>";
    assert_eq!(cut_store_prefetch(html), Ok(s("{\"a\": 1}")));
    assert_eq!(extract_store_prefetch(html).unwrap().at("a").as_u64(), Some(1));
}

#[test]
fn prefetch_starts_at_the_first_mark_and_ends_at_the_first_end() {
    let html = "я id=\"store-prefetch\">[1]</script>id=\"store-prefetch\">[2]</script>";
    assert_eq!(cut_store_prefetch(html), Ok(s("[1]")));
    let empty = "id=\"store-prefetch\"></script>";
    assert_eq!(cut_store_prefetch(empty), Ok(s("")));
}

#[test]
fn prefetch_failures() {
    assert_eq!(cut_store_prefetch("<html></html>"), Err(Failure::PrefetchMissing));
    assert_eq!(cut_store_prefetch(""), Err(Failure::PrefetchMissing));
    assert_eq!(cut_store_prefetch("id=\"store-prefetch\">{}"), Err(Failure::PrefetchTorn));
    assert_eq!(
        extract_store_prefetch("id=\"store-prefetch\">{]</script>"),
        Err(Failure::PrefetchMalformed { cause: s("key must be a string at line 1 column 2") })
    );
}

#[test]
fn page_shows_the_first_resource() {
    let state = json(
        r#"{"environment": {"sk": "k"}, "rootResourceId": "r1", "resources": {
            "r2": {"hash": "other"},
            "r1": {"id": "r1", "hash": "h", "name": "f.bin", "type": "file", "meta": {"size": 5}}}}"#,
    );
    assert_eq!(
        read_page(&state),
        Ok(Page {
            sk: s("k"),
            hash: s("h"),
            locked: false,
            name: Some(s("f.bin")),
            kind: Some(s("file")),
            size: Some(5),
        })
    );
}

#[test]
fn page_behind_a_password() {
    let by_root = json(
        r#"{"environment": {"sk": "k"}, "rootResourceId": "password-protected",
            "resources": {"x": {"hash": "h"}}}"#,
    );
    let page = read_page(&by_root).unwrap();
    assert!(page.locked);
    assert_eq!((page.name, page.kind, page.size), (None, None, None));
    let by_id = json(
        r#"{"environment": {"sk": "k"},
            "resources": {"x": {"hash": "h", "id": "password-protected"}}}"#,
    );
    assert!(read_page(&by_id).unwrap().locked);
}

#[test]
fn page_failures_in_order() {
    assert_eq!(read_page(&json("{}")), Err(Failure::SkMissing));
    assert_eq!(
        read_page(&json(r#"{"environment": {"sk": 1}, "resources": {"x": {"hash": "h"}}}"#)),
        Err(Failure::SkMissing)
    );
    assert_eq!(
        read_page(&json(r#"{"environment": {"sk": "k"}, "resources": {}}"#)),
        Err(Failure::ResourcesMissing)
    );
    assert_eq!(
        read_page(&json(r#"{"environment": {"sk": "k"}, "resources": [{"hash": "h"}]}"#)),
        Err(Failure::ResourcesMissing)
    );
    assert_eq!(
        read_page(&json(r#"{"environment": {"sk": "k"}, "resources": {"x": null}}"#)),
        Err(Failure::HashMissing)
    );
}

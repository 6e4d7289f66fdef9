use yadl::failure::{ApiMethod, Failure};
use yadl::http::Status;
use yadl::json::Json;
use yadl::page::Page;
use yadl::resolve::{begin, begin_web, describe, on_href, on_meta};
use yadl::session::{Awaiting, Backend, PublicMeta, Query, Request, Resolved, Step};

fn s(text: &str) -> String {
    text.to_string()
}

fn status(code: u16) -> Status {
    Status::new(code).unwrap()
}

fn query(password: Option<&str>, path: Option<&str>) -> Query<String> {
    Query {
        url: s("https://yadi.sk/d/abc?x=1"),
        password: password.map(s),
        path: path.map(s),
    }
}

fn sent(step: Step<String>) -> (Request<String>, Awaiting<String>) {
    match step {
        Step::Send { request, next } => (request, next),
        other => panic!("no request: {:?}", other),
    }
}

fn failed(step: Step<String>) -> Failure<String> {
    match step {
        Step::Fail { failure } => failure,
        other => panic!("no failure: {:?}", other),
    }
}

fn page_html(state: &str) -> String {
    format!("<script id=\"store-prefetch\">{state}</script>")
}

const OPEN: &str = r#"{"environment": {"sk": "k0"}, "rootResourceId": "r", "resources":
    {"r": {"id": "r", "hash": "h", "name": "f.bin", "type": "file", "meta": {"size": 9}}}}"#;
const LOCKED: &str = r#"{"environment": {"sk": "k0"}, "rootResourceId": "password-protected",
    "resources": {"p": {"id": "password-protected", "hash": "h"}}}"#;

fn meta() -> PublicMeta<String> {
    PublicMeta {
        name: s("f.bin"),
        kind: s("file"),
        size: Some(3),
        md5: Some(s("m")),
        sha256: Some(s("s")),
    }
}

#[test]
fn status_has_three_digits() {
    assert_eq!(Status::new(99), None);
    assert_eq!(Status::new(1000), None);
    assert_eq!(Status::new(206).map(|x| x.code()), Some(206));
    assert!(status(200).is_success() && status(299).is_success());
    assert!(!status(199).is_success() && !status(300).is_success());
    assert!(status(400).is_error() && status(599).is_error());
    assert!(!status(399).is_error() && !status(600).is_error());
}

#[test]
fn cloud_session_resolves() {
    let (request, next) = sent(begin(Backend::Cloud, query(None, Some("/f"))));
    assert_eq!(
        request.address(),
        "https://cloud-api.yandex.net/v1/disk/public/resources?public_key=https%3A%2F%2Fyadi%2Esk%2Fd%2Fabc%3Fx%3D1&path=%2Ff"
    );
    assert_eq!(request.headers(), vec![]);
    assert_eq!(request.body(), None);
    assert!(!request.posts());
    assert_eq!(request.context().as_deref(), Some("запрос метаданных"));
    assert!(!request.demands_success());
    let step = next.on_response(status(200), "", s("{}"));
    assert_eq!(step, Step::Decode { body: s("{}"), query: query(None, Some("/f")) });
    let (request, next) = sent(on_meta(query(None, Some("/f")), Ok(meta())));
    assert_eq!(
        request.address(),
        "https://cloud-api.yandex.net/v1/disk/public/resources/download?public_key=https%3A%2F%2Fyadi%2Esk%2Fd%2Fabc%3Fx%3D1&path=%2Ff"
    );
    assert_eq!(request.context().as_deref(), Some("запрос download-ссылки"));
    let step = next.on_response(status(200), "", s(r#"{"href": "https://d/x", "method": "GET"}"#));
    assert_eq!(
        step,
        Step::Done {
            resolved: Resolved {
                name: s("f.bin"),
                kind: s("file"),
                size: Some(3),
                md5: Some(s("m")),
                sha256: Some(s("s")),
                href: s("https://d/x"),
                via: s("cloud-api"),
            }
        }
    );
}

#[test]
fn cloud_falls_back_to_the_web_page() {
    let (_, next) = sent(begin(Backend::Cloud, query(Some("pw"), None)));
    let step = next.on_response(status(403), "", s(r#"{"error":"DiskSymlinkPasswordRequiredError"}"#));
    assert_eq!(step, Step::FallBack { query: query(Some("pw"), None) });
    assert_eq!(
        begin_web(query(Some("pw"), None)),
        begin(Backend::Web, query(Some("pw"), None))
    );
}

#[test]
fn cloud_needs_the_password() {
    let (_, next) = sent(begin(Backend::Cloud, query(None, None)));
    let step = next.on_response(status(403), "", s(r#"{"error":"DiskSymlinkPasswordRequiredError"}"#));
    assert_eq!(failed(step).message(), "ссылка защищена паролем — укажите --password");
}

#[test]
fn cloud_refusals_quote_status_and_body() {
    let (_, next) = sent(begin(Backend::Cloud, query(None, None)));
    let step = next.on_response(status(403), "", s("forbidden"));
    assert_eq!(failed(step).message(), "cloud-api вернул 403 Forbidden: forbidden");
    let (_, next) = sent(begin(Backend::Cloud, query(Some("p"), None)));
    let step = next.on_response(status(404), "", s("PasswordRequired"));
    assert_eq!(failed(step).message(), "cloud-api вернул 404 Not Found: PasswordRequired");
    let next = Awaiting::Href { meta: meta() };
    let step = next.on_response(status(599), "", "я".repeat(301));
    assert_eq!(
        failed(step).message(),
        format!("cloud-api /download вернул 599 <unknown status code>: {}", "я".repeat(300))
    );
}

#[test]
fn cloud_replies_that_cannot_be_read() {
    let failure = failed(on_meta(query(None, None), Err(s("bad"))));
    assert_eq!(failure.message(), "разбор метаданных");
    assert_eq!(failure.cause(), Some("bad"));
    let failure = failed(Awaiting::Href { meta: meta() }.on_response(status(200), "", s("nope")));
    assert_eq!(failure.message(), "expected ident at line 1 column 2");
    assert_eq!(failure.cause(), None);
    let failure = failed(Awaiting::Href { meta: meta() }.on_response(status(200), "", s(r#"{"href": 1}"#)));
    assert_eq!(failure, Failure::HrefMissing);
    assert_eq!(failure.message(), "в ответе cloud-api нет href");
}

#[test]
fn web_takes_no_path() {
    let failure = failed(begin(Backend::Web, query(None, Some("/f"))));
    assert_eq!(failure.message(), "--path поддерживается только backend'ом cloud");
}

#[test]
fn web_session_resolves() {
    let (request, next) = sent(begin(Backend::Web, query(None, None)));
    assert_eq!(request, Request::Page { url: s("https://yadi.sk/d/abc?x=1") });
    assert_eq!(request.headers(), vec![(s("Accept-Language"), s("ru-RU,ru;q=0.9"))]);
    assert_eq!(request.context(), None);
    assert!(request.demands_success());
    assert!(!request.posts());
    let (request, next) = sent(next.on_response(status(200), "", page_html(OPEN)));
    assert_eq!(request.address(), "https://disk.yandex.ru/public/api/download-url");
    assert_eq!(
        request.headers(),
        vec![
            (s("Content-Type"), s("text/plain")),
            (s("X-Requested-With"), s("XMLHttpRequest")),
            (s("Origin"), s("https://disk.yandex.ru")),
            (s("Referer"), s("https://yadi.sk/d/abc?x=1")),
        ]
    );
    assert_eq!(request.body(), Some(r#"{"hash":"h","inline":false,"sk":"k0"}"#));
    assert!(request.posts());
    assert_eq!(request.context().as_deref(), Some("запрос download-url"));
    let step = next.on_response(status(200), "", s(r#"{"data": {"url": "https://d/x?fsize=1"}}"#));
    assert_eq!(
        step,
        Step::Done {
            resolved: Resolved {
                name: s("f.bin"),
                kind: s("file"),
                size: Some(9),
                md5: None,
                sha256: None,
                href: s("https://d/x?fsize=1"),
                via: s("web"),
            }
        }
    );
}

#[test]
fn web_session_with_password_and_both_retries() {
    let (_, next) = sent(begin_web(query(Some("pw"), None)));
    let (request, next) = sent(next.on_response(status(200), "", page_html(LOCKED)));
    assert_eq!(request.address(), "https://disk.yandex.ru/public/api/check-password");
    assert_eq!(
        request.body(),
        Some(r#"{"hash":"h","password":"pw","short_url":"/d/abc","sk":"k0"}"#)
    );
    assert_eq!(request.context().as_deref(), Some("запрос check-password"));
    let (request, next) = sent(next.on_response(status(400), "", s(r#"{"wrongSk":true,"newSk":"k1"}"#)));
    assert_eq!(
        request.body(),
        Some(r#"{"hash":"h","password":"pw","short_url":"/d/abc","sk":"k1"}"#)
    );
    let (request, next) = sent(next.on_response(status(200), "", s(r#"{"token":"t"}"#)));
    assert_eq!(
        request.body(),
        Some(r#"{"hash":"h","inline":false,"passToken":"t","sk":"k1"}"#)
    );
    let (request, next) = sent(next.on_response(status(200), "", s(r#"{"wrongSk":true,"newSk":"k2"}"#)));
    assert_eq!(
        request.body(),
        Some(r#"{"hash":"h","inline":false,"passToken":"t","sk":"k2"}"#)
    );
    let step = next.on_response(
        status(200),
        "",
        s(r#"{"data":{"url":"https://d/x?filename=%D1%84.bin&fsize=77"}}"#),
    );
    assert_eq!(
        step,
        Step::Done {
            resolved: Resolved {
                name: s("ф.bin"),
                kind: s("file"),
                size: Some(77),
                md5: None,
                sha256: None,
                href: s("https://d/x?filename=%D1%84.bin&fsize=77"),
                via: s("web (с паролем)"),
            }
        }
    );
}

#[test]
fn web_locked_page_needs_the_password() {
    let (_, next) = sent(begin_web(query(None, None)));
    assert_eq!(
        failed(next.on_response(status(200), "", page_html(LOCKED))),
        Failure::PasswordNeeded
    );
}

#[test]
fn web_second_wrong_sk_ends_the_session() {
    let page = || Page {
        sk: s("k"),
        hash: s("h"),
        locked: true,
        name: None,
        kind: None,
        size: None,
    };
    let wrong = r#"{"wrongSk":true,"newSk":"n"}"#;
    let next = Awaiting::Password { url: s("u"), password: s("p"), page: page(), attempt: 1 };
    assert_eq!(
        failed(next.on_response(status(200), "", s(wrong))).message(),
        r#"check-password отказал: {"newSk":"n","wrongSk":true}"#
    );
    let next = Awaiting::Link { url: s("u"), page: page(), token: Some(s("t")), attempt: 1 };
    assert_eq!(
        failed(next.on_response(status(200), "", s(wrong))).message(),
        r#"download-url отказал: {"newSk":"n","wrongSk":true}"#
    );
}

#[test]
fn web_replies_that_cannot_be_read() {
    let (_, next) = sent(begin_web(query(None, None)));
    let failure = failed(next.on_response(status(200), "", s("<html>")));
    assert_eq!(failure.message(), "на странице нет store-prefetch (ссылка невалидна?)");
    let (_, next) = sent(begin_web(query(None, None)));
    let failure = failed(next.on_response(status(200), "", page_html("")));
    assert_eq!(failure.message(), "разбор store-prefetch");
    assert_eq!(failure.cause(), Some("EOF while parsing a value at line 1 column 0"));
    let (_, next) = sent(begin_web(query(None, None)));
    let (_, next) = sent(next.on_response(status(200), "", page_html(OPEN)));
    let failure = failed(next.on_response(status(200), "", s("<html>")));
    assert_eq!(
        failure,
        Failure::ReplyMalformed {
            method: ApiMethod::DownloadUrl,
            cause: s("expected value at line 1 column 1"),
        }
    );
    assert_eq!(failure.message(), "разбор ответа download-url");
    let (_, next) = sent(begin_web(query(Some("p"), None)));
    let (_, next) = sent(next.on_response(status(200), "", page_html(LOCKED)));
    let failure = failed(next.on_response(status(200), "", s("")));
    assert_eq!(failure.message(), "разбор ответа check-password");
    assert_eq!(failure.cause(), Some("EOF while parsing a value at line 1 column 0"));
}

#[test]
fn failures_have_their_messages() {
    let texts: Vec<(Failure<String>, &str)> = vec![
        (Failure::PrefetchTorn, "повреждённый store-prefetch"),
        (Failure::SkMissing, "в store-prefetch нет environment.sk"),
        (Failure::ResourcesMissing, "в store-prefetch нет resources"),
        (Failure::HashMissing, "в store-prefetch нет resources[].hash"),
        (Failure::WrongPassword, "неверный пароль"),
    ];
    for (failure, text) in texts {
        assert_eq!(failure.message(), text);
        assert_eq!(failure.cause(), None);
    }
}

#[test]
fn hidden_facts_come_from_the_link() {
    let page = || Page {
        sk: s("k"),
        hash: s("h"),
        locked: false,
        name: None,
        kind: Some(s("dir")),
        size: None,
    };
    let found = describe(page(), s("https://d/x?filename=a%26b&fsize=18446744073709551615"));
    assert_eq!(found.name, "a&b");
    assert_eq!(found.size, Some(u64::MAX));
    assert_eq!(found.kind, "dir");
    let unknown = describe(page(), s("https://d/x?fsize=many"));
    assert_eq!(unknown.name, "download.bin");
    assert_eq!(unknown.size, None);
}

#[test]
fn href_is_read_from_the_document() {
    let json = Json::Object(vec![(s("href"), Json::Str(s("https://d/x")))]);
    match on_href(meta(), &json) {
        Step::Done { resolved } => {
            assert_eq!(resolved.href, "https://d/x");
            assert_eq!(resolved.via, "cloud-api");
            assert_eq!(resolved.md5, Some(s("m")));
        }
        other => panic!("not resolved: {:?}", other),
    }
    assert_eq!(failed(on_href(meta(), &Json::Null)), Failure::HrefMissing);
}

/// Follows a session with the given responses; gives the number of requests made, and whether
/// the session still waits for another response.
fn follow(backend: Backend, responses: &[(u16, String)]) -> (usize, bool) {
    let mut step = begin(backend, query(Some("pw"), None));
    let mut made = 0;
    let mut left = responses.iter();
    loop {
        step = match step {
            Step::Send { next, .. } => {
                if let Awaiting::Link { page, token, .. } = &next {
                    assert_eq!(page.locked, token.is_some());
                }
                if let Awaiting::Password { page, .. } = &next {
                    assert!(page.locked);
                }
                made += 1;
                match left.next() {
                    Some((code, body)) => next.on_response(status(*code), "", body.clone()),
                    None => return (made, true),
                }
            }
            Step::Decode { query, .. } => on_meta(query, Ok(meta())),
            Step::FallBack { query } => begin_web(query),
            _ => return (made, false),
        };
    }
}

fn explore(backend: Backend, prefix: &mut Vec<(u16, String)>, most: &mut usize) {
    let (made, waiting) = follow(backend, prefix);
    *most = (*most).max(made);
    if !waiting {
        return;
    }
    for (code, body) in [
        (200, page_html(OPEN)),
        (200, page_html(LOCKED)),
        (403, s("PasswordRequired")),
        (200, s(r#"{"wrongSk":true,"newSk":"n"}"#)),
        (200, s(r#"{"token":"t"}"#)),
        (200, s(r#"{"data":{"url":"https://d/x"},"href":"https://d/x"}"#)),
        (500, s("oops")),
    ] {
        prefix.push((code, body));
        explore(backend, prefix, most);
        prefix.pop();
    }
}

#[test]
fn every_session_ends() {
    let mut most = 0;
    explore(Backend::Cloud, &mut vec![], &mut most);
    assert_eq!(most, 6);
    let mut most = 0;
    explore(Backend::Web, &mut vec![], &mut most);
    assert_eq!(most, 5);
}

#[test]
fn page_with_an_error_status_ends_the_session() {
    for (code, report) in [
        (404, "HTTP status client error (404 Not Found) for url (https://yadi.sk/d/abc?x=1)"),
        (503, "HTTP status server error (503 Busy) for url (https://disk.yandex.ru/d/abc)"),
    ] {
        let (_, next) = sent(begin_web(query(Some("pw"), None)));
        let failure = failed(next.on_response(status(code), report, page_html(OPEN)));
        assert_eq!(failure, Failure::StatusRefused { code, report: s(report) });
        assert_eq!(failure.message(), report);
        assert_eq!(failure.cause(), None);
    }
    let (_, next) = sent(begin_web(query(None, None)));
    let (request, _) = sent(next.on_response(status(304), "", page_html(OPEN)));
    assert!(request.posts());
}

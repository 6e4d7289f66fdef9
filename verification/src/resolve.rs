//! The steps of a session: which request comes first, and what follows on each response.

use vstd::prelude::*;

use crate::failure::{message_of, ApiMethod, Failure};
use crate::http::{is_error, is_success, status_line, status_text, Status};
use crate::json::{
    parse_json, parse_reply, parsed_json, read_err, reads_as, rendered_json, Json, JsonView,
};
use crate::page::{extract_store_prefetch, page_of, prefetch_of, read_page, Page};
use crate::session::{
    address_of, Awaiting, Backend, PublicMeta, Query, Request, Resolved, Step,
};
use crate::text::{
    contains, contains_text, decimal, law_cut_is_beginning, law_decimal_round_trip,
    law_text_stands_where_put, lemma_decimal_value, parse_u64, parsed_u64, text_of, truncate,
    truncated,
};
use crate::url::{
    cloud_address, cloud_url, encoded_text, law_both_params_are_found, law_cloud_address_params,
    law_cloud_address_starts_with_call, law_encoded_text_is_one_value, law_percent_round_trip, law_plain_text_decodes_to_itself,
    param_of, query_param, short_path, short_url_of,
};
use crate::web::{
    check_password, download_url, law_link_answer, law_link_record_holds, law_password_answer,
    law_password_record_holds, link_answer, link_body, link_record, password_answer,
    password_body, password_record, Answer, QUOTED,
};

verus! {

// ---------------------------------------------------------------- the web page

/// The first step on the way through the web page.
pub open spec fn web_start(query: Query<Seq<char>>) -> Step<Seq<char>> {
    if query.path is Some {
        Step::Fail { failure: Failure::PathUnsupported }
    } else {
        Step::Send {
            request: Request::Page { url: query.url },
            next: Awaiting::Page { url: query.url, given: query.password },
        }
    }
}

/// The step that asks for the check of the password.
pub open spec fn password_call(
    url: Seq<char>,
    password: Seq<char>,
    page: Page<Seq<char>>,
    attempt: usize,
) -> Step<Seq<char>> {
    Step::Send {
        request: Request::Api {
            method: ApiMethod::CheckPassword,
            referer: url,
            body: rendered_json(password_record(page.hash, password, short_path(url), page.sk)),
        },
        next: Awaiting::Password { url, password, page, attempt },
    }
}

/// The step that asks for the direct link.
pub open spec fn link_call(
    url: Seq<char>,
    page: Page<Seq<char>>,
    token: Option<Seq<char>>,
    attempt: usize,
) -> Step<Seq<char>> {
    Step::Send {
        request: Request::Api {
            method: ApiMethod::DownloadUrl,
            referer: url,
            body: rendered_json(link_record(page.hash, page.sk, token)),
        },
        next: Awaiting::Link { url, page, token, attempt },
    }
}

/// The step after the page of a link is known: the check of the password where the link has
/// one, the direct link at once where it has none.
pub open spec fn page_opened(
    url: Seq<char>,
    password: Option<Seq<char>>,
    page: Page<Seq<char>>,
) -> Step<Seq<char>> {
    if page.locked {
        match password {
            Some(p) => password_call(url, p, page, 0),
            None => Step::Fail { failure: Failure::PasswordNeeded },
        }
    } else {
        link_call(url, page, None, 0)
    }
}

/// The step after the response to the request of a page. A page with the status of an error
/// is not looked at; what the HTTP client reports of the status is the failure.
pub open spec fn page_step(
    url: Seq<char>,
    password: Option<Seq<char>>,
    code: u16,
    report: Seq<char>,
    html: Seq<char>,
) -> Step<Seq<char>> {
    if is_error(code) {
        Step::Fail { failure: Failure::StatusRefused { code, report } }
    } else {
        match prefetch_of(html) {
            Err(failure) => Step::Fail { failure },
            Ok(state) => match page_of(state) {
                Err(failure) => Step::Fail { failure },
                Ok(page) => page_opened(url, password, page),
            },
        }
    }
}

/// A page with another session key.
pub open spec fn with_sk(page: Page<Seq<char>>, sk: Seq<char>) -> Page<Seq<char>> {
    Page { sk, ..page }
}

/// The step after the meaning of the reply to the check of a password.
pub open spec fn password_answered(
    url: Seq<char>,
    password: Seq<char>,
    page: Page<Seq<char>>,
    answer: Answer<Seq<char>>,
) -> Step<Seq<char>> {
    match answer {
        Answer::Granted(token) => link_call(url, page, Some(token), 0),
        Answer::Retry(sk) => password_call(url, password, with_sk(page, sk), 1),
        Answer::Refused(failure) => Step::Fail { failure },
    }
}

/// The step after the meaning of the reply to the request of a direct link.
pub open spec fn link_answered(
    url: Seq<char>,
    page: Page<Seq<char>>,
    token: Option<Seq<char>>,
    answer: Answer<Seq<char>>,
) -> Step<Seq<char>> {
    match answer {
        Answer::Granted(href) => Step::Done { resolved: web_resolved(page, href) },
        Answer::Retry(sk) => link_call(url, with_sk(page, sk), token, 1),
        Answer::Refused(failure) => Step::Fail { failure },
    }
}

/// What is known of the file behind a direct link from the web page. The name and the size
/// come from the page where it shows them, else from the parameters of the link.
pub open spec fn web_resolved(page: Page<Seq<char>>, href: Seq<char>) -> Resolved<Seq<char>> {
    Resolved {
        name: match page.name {
            Some(name) => name,
            None => match param_of(href, "filename"@) {
                Some(name) => name,
                None => "download.bin"@,
            },
        },
        kind: match page.kind {
            Some(kind) => kind,
            None => "file"@,
        },
        size: match page.size {
            Some(size) => Some(size),
            None => match param_of(href, "fsize"@) {
                Some(text) => parsed_u64(text),
                None => None,
            },
        },
        md5: None,
        sha256: None,
        href,
        via: if page.locked {
            "web (с паролем)"@
        } else {
            "web"@
        },
    }
}

// ---------------------------------------------------------------- the REST API

/// The first step on the way through the REST API.
pub open spec fn cloud_start(query: Query<Seq<char>>) -> Step<Seq<char>> {
    Step::Send {
        request: Request::Meta { url: cloud_address(""@, query.url, query.path) },
        next: Awaiting::Meta { query },
    }
}

/// The response says that the link has a password.
pub open spec fn asks_password(code: u16, body: Seq<char>) -> bool {
    code == 403 && contains_text(body, "PasswordRequired"@)
}

/// The step after the response to the request of a description. The REST API takes no
/// password, so a link that has one is resolved through the web page.
pub open spec fn meta_step(query: Query<Seq<char>>, code: u16, body: Seq<char>) -> Step<Seq<char>> {
    if asks_password(code, body) {
        if query.password is None {
            Step::Fail { failure: Failure::PasswordNeeded }
        } else {
            Step::FallBack { query }
        }
    } else if !is_success(code) {
        Step::Fail {
            failure: Failure::MetaRefused {
                status: status_line(code),
                body: truncated(body, QUOTED as nat),
            },
        }
    } else {
        Step::Decode { body, query }
    }
}

/// The step after a description was decoded, or could not be.
pub open spec fn decoded_step(
    query: Query<Seq<char>>,
    meta: Result<PublicMeta<Seq<char>>, Seq<char>>,
) -> Step<Seq<char>> {
    match meta {
        Err(cause) => Step::Fail { failure: Failure::MetaMalformed { cause } },
        Ok(meta) => Step::Send {
            request: Request::Href { url: cloud_address("/download"@, query.url, query.path) },
            next: Awaiting::Href { meta },
        },
    }
}

/// The step after the reply that should hold the direct link was read.
pub open spec fn href_read(meta: PublicMeta<Seq<char>>, json: JsonView) -> Step<Seq<char>> {
    match json.at("href"@).as_str() {
        None => Step::Fail { failure: Failure::HrefMissing },
        Some(href) => Step::Done {
            resolved: Resolved {
                name: meta.name,
                kind: meta.kind,
                size: meta.size,
                md5: meta.md5,
                sha256: meta.sha256,
                href,
                via: "cloud-api"@,
            },
        },
    }
}

/// The step after the response to the request of the direct link.
pub open spec fn href_step(
    meta: PublicMeta<Seq<char>>,
    code: u16,
    body: Seq<char>,
) -> Step<Seq<char>> {
    if !is_success(code) {
        Step::Fail {
            failure: Failure::HrefRefused {
                status: status_line(code),
                body: truncated(body, QUOTED as nat),
            },
        }
    } else {
        match parsed_json(body) {
            Err(cause) => Step::Fail { failure: Failure::HrefMalformed { cause } },
            Ok(json) => href_read(meta, json),
        }
    }
}

// ---------------------------------------------------------------- the session

/// The first step of a session.
pub open spec fn first_step(backend: Backend, query: Query<Seq<char>>) -> Step<Seq<char>> {
    match backend {
        Backend::Cloud => cloud_start(query),
        Backend::Web => web_start(query),
    }
}

/// The step after a response with the status `code` and the text `body`. `report` is what the
/// HTTP client says of the status where it is one of an error.
pub open spec fn next_step(
    awaiting: Awaiting<Seq<char>>,
    code: u16,
    report: Seq<char>,
    body: Seq<char>,
) -> Step<Seq<char>> {
    match awaiting {
        Awaiting::Meta { query } => meta_step(query, code, body),
        Awaiting::Href { meta } => href_step(meta, code, body),
        Awaiting::Page { url, given } => page_step(url, given, code, report, body),
        Awaiting::Password { url, password, page, attempt } => match parsed_json(body) {
            Err(cause) => Step::Fail {
                failure: Failure::ReplyMalformed { method: ApiMethod::CheckPassword, cause },
            },
            Ok(json) => password_answered(
                url,
                password,
                page,
                password_answer(json, rendered_json(json), attempt as nat),
            ),
        },
        Awaiting::Link { url, page, token, attempt } => match parsed_json(body) {
            Err(cause) => Step::Fail {
                failure: Failure::ReplyMalformed { method: ApiMethod::DownloadUrl, cause },
            },
            Ok(json) => link_answered(
                url,
                page,
                token,
                link_answer(json, rendered_json(json), attempt as nat),
            ),
        },
    }
}

/// A call of the internal API carries a body that the server reads as the record that the
/// session means.
pub open spec fn carries_record(step: Step<Seq<char>>) -> bool {
    match step {
        Step::Send { request: Request::Api { body, .. }, next } => match next {
            Awaiting::Password { url, password, page, .. } => reads_as(
                body,
                password_record(page.hash, password, short_path(url), page.sk),
            ),
            Awaiting::Link { page, token, .. } => reads_as(
                body,
                link_record(page.hash, page.sk, token),
            ),
            _ => false,
        },
        _ => true,
    }
}

/// The first step on the way through the web page.
pub fn begin_web(query: Query<String>) -> (step: Step<String>)
    ensures
        step@ == web_start(query@),
{
    if query.path.is_some() {
        Step::Fail { failure: Failure::PathUnsupported }
    } else {
        Step::Send {
            request: Request::Page { url: query.url.clone() },
            next: Awaiting::Page { url: query.url, given: query.password },
        }
    }
}

/// The address of a REST call on the link of a query.
fn address_for(suffix: &str, query: &Query<String>) -> (url: String)
    ensures
        url@ == cloud_address(suffix@, query@.url, query@.path),
{
    let path = match &query.path {
        Some(p) => Some(p.as_str()),
        None => None,
    };
    cloud_url(suffix, query.url.as_str(), path)
}

/// The first step on the way through the REST API.
pub fn begin_cloud(query: Query<String>) -> (step: Step<String>)
    ensures
        step@ == cloud_start(query@),
{
    Step::Send {
        request: Request::Meta { url: address_for("", &query) },
        next: Awaiting::Meta { query },
    }
}

/// The first step of a session.
pub fn begin(backend: Backend, query: Query<String>) -> (step: Step<String>)
    ensures
        step@ == first_step(backend, query@),
{
    match backend {
        Backend::Cloud => begin_cloud(query),
        Backend::Web => begin_web(query),
    }
}

/// The step after the description of a link was decoded, or could not be for the cause given.
pub fn on_meta(query: Query<String>, meta: Result<PublicMeta<String>, String>) -> (step: Step<
    String,
>)
    ensures
        step@ == decoded_step(
            query@,
            match meta {
                Ok(m) => Ok(m@),
                Err(cause) => Err(cause@),
            },
        ),
{
    match meta {
        Err(cause) => Step::Fail { failure: Failure::MetaMalformed { cause } },
        Ok(meta) => Step::Send {
            request: Request::Href { url: address_for("/download", &query) },
            next: Awaiting::Href { meta },
        },
    }
}

/// The step after the response to the request of a description.
pub fn on_meta_response(query: Query<String>, status: Status, body: String) -> (step: Step<String>)
    ensures
        step@ == meta_step(query@, status.number(), body@),
{
    if status.code() == 403 && contains(body.as_str(), "PasswordRequired") {
        if query.password.is_none() {
            return Step::Fail { failure: Failure::PasswordNeeded };
        }
        return Step::FallBack { query };
    }
    if !status.is_success() {
        return Step::Fail {
            failure: Failure::MetaRefused {
                status: status_text(status.code()),
                body: truncate(body.as_str(), QUOTED).to_string(),
            },
        };
    }
    Step::Decode { body, query }
}

/// The step after the response to the request of the direct link.
pub fn on_href_response(meta: PublicMeta<String>, status: Status, body: &str) -> (step: Step<
    String,
>)
    ensures
        step@ == href_step(meta@, status.number(), body@),
{
    if !status.is_success() {
        return Step::Fail {
            failure: Failure::HrefRefused {
                status: status_text(status.code()),
                body: truncate(body, QUOTED).to_string(),
            },
        };
    }
    match parse_json(body) {
        Ok(json) => on_href(meta, &json),
        Err(cause) => Step::Fail { failure: Failure::HrefMalformed { cause } },
    }
}

/// The step after the reply that should hold the direct link was read.
pub fn on_href(meta: PublicMeta<String>, json: &Json) -> (step: Step<String>)
    ensures
        step@ == href_read(meta@, json@),
{
    let href = match json.at("href").as_str() {
        Some(href) => href.to_string(),
        None => return Step::Fail { failure: Failure::HrefMissing },
    };
    Step::Done {
        resolved: Resolved {
            name: meta.name,
            kind: meta.kind,
            size: meta.size,
            md5: meta.md5,
            sha256: meta.sha256,
            href,
            via: "cloud-api".to_string(),
        },
    }
}

/// The step that asks for the check of the password.
pub fn call_password(url: String, password: String, page: Page<String>, attempt: usize) -> (step:
    Step<String>)
    ensures
        step@ == password_call(url@, password@, page@, attempt),
        carries_record(step@),
{
    let short_url = short_url_of(url.as_str());
    let body = password_body(
        page.hash.as_str(),
        password.as_str(),
        short_url.as_str(),
        page.sk.as_str(),
    );
    Step::Send {
        request: Request::Api { method: ApiMethod::CheckPassword, referer: url.clone(), body },
        next: Awaiting::Password { url, password, page, attempt },
    }
}

/// The step that asks for the direct link.
pub fn call_link(url: String, page: Page<String>, token: Option<String>, attempt: usize) -> (step:
    Step<String>)
    ensures
        step@ == link_call(url@, page@, text_of(token), attempt),
        carries_record(step@),
{
    let pass_token = match &token {
        Some(t) => Some(t.as_str()),
        None => None,
    };
    let body = link_body(page.hash.as_str(), page.sk.as_str(), pass_token);
    Step::Send {
        request: Request::Api { method: ApiMethod::DownloadUrl, referer: url.clone(), body },
        next: Awaiting::Link { url, page, token, attempt },
    }
}

/// The step after the page of a link is known.
pub fn open_page(url: String, password: Option<String>, page: Page<String>) -> (step: Step<String>)
    ensures
        step@ == page_opened(url@, text_of(password), page@),
        carries_record(step@),
{
    if page.locked {
        match password {
            Some(p) => call_password(url, p, page, 0),
            None => Step::Fail { failure: Failure::PasswordNeeded },
        }
    } else {
        call_link(url, page, None, 0)
    }
}

/// The step after the response to the request of a page.
pub fn on_page(
    url: String,
    password: Option<String>,
    status: Status,
    report: &str,
    html: &str,
) -> (step: Step<String>)
    ensures
        step@ == page_step(url@, text_of(password), status.number(), report@, html@),
        carries_record(step@),
{
    if status.is_error() {
        return Step::Fail {
            failure: Failure::StatusRefused { code: status.code(), report: report.to_string() },
        };
    }
    let state = match extract_store_prefetch(html) {
        Ok(state) => state,
        Err(failure) => return Step::Fail { failure },
    };
    match read_page(&state) {
        Ok(page) => open_page(url, password, page),
        Err(failure) => Step::Fail { failure },
    }
}

/// The step after the meaning of the reply to the check of a password.
pub fn on_password_answer(
    url: String,
    password: String,
    page: Page<String>,
    answer: Answer<String>,
) -> (step: Step<String>)
    ensures
        step@ == password_answered(url@, password@, page@, answer@),
        carries_record(step@),
{
    match answer {
        Answer::Granted(token) => call_link(url, page, Some(token), 0),
        Answer::Retry(sk) => {
            let renewed = Page { sk, ..page };
            call_password(url, password, renewed, 1)
        },
        Answer::Refused(failure) => Step::Fail { failure },
    }
}

/// The step after the meaning of the reply to the request of a direct link.
pub fn on_link_answer(
    url: String,
    page: Page<String>,
    token: Option<String>,
    answer: Answer<String>,
) -> (step: Step<String>)
    ensures
        step@ == link_answered(url@, page@, text_of(token), answer@),
        carries_record(step@),
{
    match answer {
        Answer::Granted(href) => Step::Done { resolved: describe(page, href) },
        Answer::Retry(sk) => {
            let renewed = Page { sk, ..page };
            call_link(url, renewed, token, 1)
        },
        Answer::Refused(failure) => Step::Fail { failure },
    }
}

/// What is known of the file behind a direct link from the web page.
pub fn describe(page: Page<String>, href: String) -> (resolved: Resolved<String>)
    ensures
        resolved@ == web_resolved(page@, href@),
{
    let name = match page.name {
        Some(name) => name,
        None => match query_param(href.as_str(), "filename") {
            Some(name) => name,
            None => "download.bin".to_string(),
        },
    };
    let kind = match page.kind {
        Some(kind) => kind,
        None => "file".to_string(),
    };
    let size = match page.size {
        Some(size) => Some(size),
        None => match query_param(href.as_str(), "fsize") {
            Some(text) => parse_u64(text.as_str()),
            None => None,
        },
    };
    let via = if page.locked {
        "web (с паролем)".to_string()
    } else {
        "web".to_string()
    };
    Resolved { name, kind, size, md5: None, sha256: None, href, via }
}

impl Awaiting<String> {
    /// The step after the response to the request of the session. `report` is what the HTTP
    /// client says of the status where it is one of an error; it names the address and the
    /// server's own words, which only the client knows.
    pub fn on_response(self, status: Status, report: &str, body: String) -> (step: Step<String>)
        ensures
            step@ == next_step(self@, status.number(), report@, body@),
            carries_record(step@),
    {
        match self {
            Awaiting::Meta { query } => on_meta_response(query, status, body),
            Awaiting::Href { meta } => on_href_response(meta, status, body.as_str()),
            Awaiting::Page { url, given } => on_page(url, given, status, report, body.as_str()),
            Awaiting::Password { url, password, page, attempt } => {
                match parse_reply(body.as_str()) {
                    Ok(reply) => {
                        let answer = check_password(&reply, attempt);
                        on_password_answer(url, password, page, answer)
                    },
                    Err(cause) => Step::Fail {
                        failure: Failure::ReplyMalformed {
                            method: ApiMethod::CheckPassword,
                            cause,
                        },
                    },
                }
            },
            Awaiting::Link { url, page, token, attempt } => {
                match parse_reply(body.as_str()) {
                    Ok(reply) => {
                        let answer = download_url(&reply, attempt);
                        on_link_answer(url, page, token, answer)
                    },
                    Err(cause) => Step::Fail {
                        failure: Failure::ReplyMalformed { method: ApiMethod::DownloadUrl, cause },
                    },
                }
            },
        }
    }
}

// ---------------------------------------------------------------- laws

/// How many requests a session makes at most from here on, the awaited one among them.
pub open spec fn requests_left(awaiting: Awaiting<Seq<char>>) -> nat {
    match awaiting {
        Awaiting::Meta { .. } => 6,
        Awaiting::Href { .. } => 1,
        Awaiting::Page { .. } => 5,
        Awaiting::Password { attempt, .. } => if attempt == 0 {
            4
        } else {
            3
        },
        Awaiting::Link { attempt, .. } => if attempt == 0 {
            2
        } else {
            1
        },
    }
}

/// Whatever the responses are, and however descriptions are decoded, the session is resolved
/// or has failed after at most `n` more requests.
pub open spec fn settles(step: Step<Seq<char>>, n: nat) -> bool
    decreases
            n,
            if step is Decode || step is FallBack {
                1int
            } else {
                0int
            },
{
    match step {
        Step::Done { .. } => true,
        Step::Fail { .. } => true,
        Step::Send { next, .. } => n > 0 && forall|code: u16, report: Seq<char>, body: Seq<char>|
            settles(#[trigger] next_step(next, code, report, body), (n - 1) as nat),
        Step::Decode { query, .. } => forall|meta: Result<PublicMeta<Seq<char>>, Seq<char>>|
            settles(#[trigger] decoded_step(query, meta), n),
        Step::FallBack { query } => settles(web_start(query), n),
    }
}

/// A session that waits settles within the requests it has left.
proof fn lemma_settles(request: Request<Seq<char>>, next: Awaiting<Seq<char>>, n: nat)
    requires
        requests_left(next) <= n,
    ensures
        settles(Step::Send { request, next }, n),
    decreases n,
{
    assert forall|code: u16, report: Seq<char>, body: Seq<char>|
        settles(#[trigger] next_step(next, code, report, body), (n - 1) as nat) by {
        let m = (n - 1) as nat;
        match next_step(next, code, report, body) {
            Step::Send { request: r, next: a } => {
                lemma_settles(r, a, m);
            },
            Step::Decode { query, body: b } => {
                assert forall|meta: Result<PublicMeta<Seq<char>>, Seq<char>>|
                    settles(#[trigger] decoded_step(query, meta), m) by {
                    if let Step::Send { request: r, next: a } = decoded_step(query, meta) {
                        lemma_settles(r, a, m);
                    }
                }
            },
            Step::FallBack { query } => {
                if let Step::Send { request: r, next: a } = web_start(query) {
                    lemma_settles(r, a, m);
                }
                assert(settles(web_start(query), m));
            },
            _ => {},
        }
    }
}

/// Every session ends: a session through the REST API after at most six requests, one
/// through the web page after at most five.
pub proof fn law_session_ends(query: Query<Seq<char>>)
    ensures
        settles(first_step(Backend::Cloud, query), 6),
        settles(first_step(Backend::Web, query), 5),
{
    if let Step::Send { request, next } = first_step(Backend::Cloud, query) {
        lemma_settles(request, next, 6);
    }
    if let Step::Send { request, next } = first_step(Backend::Web, query) {
        lemma_settles(request, next, 5);
    }
}

/// The password of a link is checked only where the link has one, and the direct link is
/// asked for with a token exactly where the link has a password.
pub open spec fn token_fits(awaiting: Awaiting<Seq<char>>) -> bool {
    match awaiting {
        Awaiting::Password { page, .. } => page.locked,
        Awaiting::Link { page, token, .. } => page.locked <==> token is Some,
        _ => true,
    }
}

/// No session starts with a token, and every response keeps [`token_fits`]: a link with a
/// password is never asked for before the password was accepted, and a link without one never
/// brings a token.
pub proof fn law_token_fits(
    backend: Backend,
    query: Query<Seq<char>>,
    meta: Result<PublicMeta<Seq<char>>, Seq<char>>,
    awaiting: Awaiting<Seq<char>>,
    code: u16,
    report: Seq<char>,
    body: Seq<char>,
)
    requires
        token_fits(awaiting),
    ensures
        first_step(backend, query) matches Step::Send { next, .. } ==> token_fits(next),
        decoded_step(query, meta) matches Step::Send { next, .. } ==> token_fits(next),
        next_step(awaiting, code, report, body) matches Step::Send { next, .. } ==> token_fits(next),
{
}

/// A page with the status of an error ends the session, whatever stands in it: nothing is
/// asked of the internal API, and the message is what the HTTP client reports.
pub proof fn law_refused_page(
    url: Seq<char>,
    given: Option<Seq<char>>,
    code: u16,
    report: Seq<char>,
    body: Seq<char>,
)
    requires
        is_error(code),
    ensures
        next_step(Awaiting::Page { url, given }, code, report, body) == (Step::<Seq<char>>::Fail {
            failure: Failure::StatusRefused { code, report },
        }),
        message_of(Failure::StatusRefused { code, report }) == report,
{
}

/// A link with a password fails where none was given, before anything is asked of the
/// internal API; where one was given, it is checked first.
pub proof fn law_locked_page(url: Seq<char>, password: Option<Seq<char>>, page: Page<Seq<char>>)
    requires
        page.locked,
    ensures
        password is None ==> page_opened(url, password, page) == (Step::<Seq<char>>::Fail {
            failure: Failure::PasswordNeeded,
        }),
        password is Some ==> page_opened(url, password, page) == password_call(
            url,
            password->0,
            page,
            0,
        ),
{
}

/// A reply to the check of a password that the session key was wrong, with a new key, repeats
/// the call with the new key; a second such reply ends the session.
pub proof fn law_password_retry(
    url: Seq<char>,
    password: Seq<char>,
    page: Page<Seq<char>>,
    attempt: usize,
    code: u16,
    report: Seq<char>,
    body: Seq<char>,
    json: JsonView,
    sk: Seq<char>,
)
    requires
        reads_as(body, json),
        json.at("token"@).as_str() is None,
        json.at("wrongSk"@).as_bool() == Some(true),
        json.at("newSk"@).as_str() == Some(sk),
    ensures
        ({
            let step = next_step(
                Awaiting::Password { url, password, page, attempt },
                code,
                report,
                body,
            );
            if attempt == 0 {
                step == password_call(url, password, with_sk(page, sk), 1)
            } else {
                step is Fail
            }
        }),
{
}

/// A reply to the request of a direct link that the session key was wrong, with a new key,
/// repeats the call with the new key and the same token; a second such reply ends the session.
pub proof fn law_link_retry(
    url: Seq<char>,
    page: Page<Seq<char>>,
    token: Option<Seq<char>>,
    attempt: usize,
    code: u16,
    report: Seq<char>,
    body: Seq<char>,
    json: JsonView,
    sk: Seq<char>,
)
    requires
        reads_as(body, json),
        json.at("data"@).at("url"@).as_str() is None,
        json.at("wrongSk"@).as_bool() == Some(true),
        json.at("newSk"@).as_str() == Some(sk),
    ensures
        ({
            let step = next_step(Awaiting::Link { url, page, token, attempt }, code, report, body);
            if attempt == 0 {
                step == link_call(url, with_sk(page, sk), token, 1)
            } else {
                step is Fail
            }
        }),
{
}

/// The session key that a retry of the password check brought is the one with which the
/// direct link is asked for.
pub proof fn law_renewed_sk_is_kept(
    url: Seq<char>,
    password: Seq<char>,
    page: Page<Seq<char>>,
    sk: Seq<char>,
    code: u16,
    report: Seq<char>,
    body: Seq<char>,
    json: JsonView,
    token: Seq<char>,
)
    requires
        reads_as(body, json),
        json.at("token"@).as_str() == Some(token),
    ensures
        next_step(
            Awaiting::Password { url, password, page: with_sk(page, sk), attempt: 1 },
            code,
            report,
            body,
        ) == link_call(url, with_sk(page, sk), Some(token), 0),
{
}

/// A link that the REST API refuses for want of a password is resolved as if the web page
/// had been chosen from the start, where a password was given; any other refusal fails, and
/// only success goes on.
pub proof fn law_fall_back(query: Query<Seq<char>>, code: u16, body: Seq<char>)
    ensures
        meta_step(query, code, body) is FallBack <==> asks_password(code, body) && query.password
            is Some,
        meta_step(query, code, body) matches Step::FallBack { query: q } ==> web_start(q)
            == first_step(Backend::Web, query),
        meta_step(query, code, body) is Decode <==> is_success(code),
{
}

/// A file resolved through the web page is marked as one behind a password exactly where the
/// page is locked, and comes without checksums.
pub proof fn law_web_result(page: Page<Seq<char>>, href: Seq<char>)
    ensures
        web_resolved(page, href).href == href,
        web_resolved(page, href).md5 is None && web_resolved(page, href).sha256 is None,
        web_resolved(page, href).via == "web (с паролем)"@ <==> page.locked,
{
    reveal_strlit("web");
    reveal_strlit("web (с паролем)");
    assert("web"@.len() != "web (с паролем)"@.len());
}

/// Where the page hides the name and the size of a file, both are read from the parameters
/// `filename` and `fsize` of the direct link.
pub proof fn law_hidden_facts_come_from_link(
    page: Page<Seq<char>>,
    base: Seq<char>,
    name: Seq<char>,
    size: u64,
)
    requires
        page.name is None,
        page.size is None,
        !base.contains('?'),
    ensures
        ({
            let href = base + seq!['?'] + "filename"@ + seq!['='] + encoded_text(name) + seq!['&']
                + "fsize"@ + seq!['='] + decimal(size as nat);
            &&& web_resolved(page, href).name == name
            &&& web_resolved(page, href).size == Some(size)
        }),
{
    reveal_strlit("filename");
    reveal_strlit("fsize");
    let digits = decimal(size as nat);
    assert("filename"@.len() != "fsize"@.len());
    law_encoded_text_is_one_value(name);
    law_percent_round_trip(name);
    lemma_decimal_value(size as nat);
    law_decimal_round_trip(size);
    law_plain_text_decodes_to_itself(digits);
    law_both_params_are_found(base, "filename"@, encoded_text(name), "fsize"@, digits);
}

/// The REST resource, with and without the suffix of a download, up to the query.
proof fn lemma_rest_resources()
    ensures
        "https://cloud-api.yandex.net/v1/disk/public/resources"@ + ""@ + "?"@
            == "https://cloud-api.yandex.net/v1/disk/public/resources?"@,
        "https://cloud-api.yandex.net/v1/disk/public/resources"@ + "/download"@ + "?"@
            == "https://cloud-api.yandex.net/v1/disk/public/resources/download?"@,
        !""@.contains('?'),
        !"/download"@.contains('?'),
        ""@ != "public_key"@,
        ""@ != "path"@,
{
    reveal_strlit("https://cloud-api.yandex.net/v1/disk/public/resources");
    reveal_strlit("https://cloud-api.yandex.net/v1/disk/public/resources?");
    reveal_strlit("https://cloud-api.yandex.net/v1/disk/public/resources/download?");
    reveal_strlit("/download");
    reveal_strlit("?");
    reveal_strlit("");
    reveal_strlit("public_key");
    reveal_strlit("path");
    assert("https://cloud-api.yandex.net/v1/disk/public/resources"@ + ""@ + "?"@
        =~= "https://cloud-api.yandex.net/v1/disk/public/resources?"@);
    assert("https://cloud-api.yandex.net/v1/disk/public/resources"@ + "/download"@ + "?"@
        =~= "https://cloud-api.yandex.net/v1/disk/public/resources/download?"@);
    assert("public_key"@.len() == 10 && "path"@.len() == 4 && ""@.len() == 0);
}

/// A session over the REST API asks for the description of the link first: the parameters of
/// the request read back as the link and the path of the query, and nothing of the query is
/// lost while the response is waited for.
pub proof fn law_rest_session_asks_description(query: Query<Seq<char>>)
    ensures
        first_step(Backend::Cloud, query) matches Step::Send { request, next } && {
            let address = address_of(request);
            &&& request is Meta
            &&& next == (Awaiting::Meta { query })
            &&& "https://cloud-api.yandex.net/v1/disk/public/resources?"@.is_prefix_of(address)
            &&& param_of(address, "public_key"@) == Some(query.url)
            &&& param_of(address, "path"@) == query.path
        },
{
    lemma_rest_resources();
    law_cloud_address_starts_with_call(""@, query.url, query.path, ""@);
    law_cloud_address_params(""@, query.url, query.path);
}

/// Once the description of a link is decoded, the download of the same link and path is asked
/// for, whether there is a path or not, and the description is kept for the result. One that
/// cannot be decoded ends the session with the cause.
pub proof fn law_direct_link_is_asked(
    query: Query<Seq<char>>,
    meta: PublicMeta<Seq<char>>,
    cause: Seq<char>,
)
    ensures
        decoded_step(query, Ok(meta)) matches Step::Send { request, next } && {
            let address = address_of(request);
            &&& request is Href
            &&& next == (Awaiting::Href { meta })
            &&& "https://cloud-api.yandex.net/v1/disk/public/resources/download?"@.is_prefix_of(
                address,
            )
            &&& param_of(address, "public_key"@) == Some(query.url)
            &&& param_of(address, "path"@) == query.path
        },
        decoded_step(query, Err(cause)) == (Step::<Seq<char>>::Fail {
            failure: Failure::MetaMalformed { cause },
        }),
{
    lemma_rest_resources();
    law_cloud_address_starts_with_call("/download"@, query.url, query.path, ""@);
    law_cloud_address_params("/download"@, query.url, query.path);
}

/// What a response to the request of a description means. The status 403 with the word
/// `PasswordRequired` anywhere in the text means a password: the session goes over to the web
/// page with the same query, or fails where no password was given. A status of success leaves
/// the text to be decoded. Any other status fails, with the status and the first 300 characters
/// of the text.
pub proof fn law_description_response(
    query: Query<Seq<char>>,
    code: u16,
    report: Seq<char>,
    before: Seq<char>,
    after: Seq<char>,
    body: Seq<char>,
)
    ensures
        ({
            let step = next_step(
                Awaiting::Meta { query },
                403,
                report,
                before + "PasswordRequired"@ + after,
            );
            &&& query.password is Some ==> step == (Step::<Seq<char>>::FallBack { query })
            &&& query.password is None ==> step == (Step::<Seq<char>>::Fail {
                failure: Failure::PasswordNeeded,
            })
        }),
        ({
            let step = next_step(Awaiting::Meta { query }, code, report, body);
            let refused = code != 403 || !contains_text(body, "PasswordRequired"@);
            &&& 200 <= code <= 299 ==> step == (Step::<Seq<char>>::Decode { body, query })
            &&& !(200 <= code <= 299) && refused ==> (step matches Step::Fail {
                failure: Failure::MetaRefused { status, body: quote },
            } && status == status_line(code) && quote.is_prefix_of(body) && quote.len() == (
            if body.len() < 300 {
                body.len()
            } else {
                300
            }))
        }),
{
    law_text_stands_where_put(before, "PasswordRequired"@, after);
    law_cut_is_beginning(body, 300);
}

/// What a response to the request of the direct link means. With a status of success, the
/// `href` of its document resolves the link to that address, with every fact of the
/// description unchanged; without it, or without a document, the session fails. With any other
/// status it fails with the status and the first 300 characters of the text.
pub proof fn law_direct_link_response(
    meta: PublicMeta<Seq<char>>,
    code: u16,
    report: Seq<char>,
    body: Seq<char>,
    json: JsonView,
    href: Seq<char>,
    cause: Seq<char>,
)
    ensures
        ({
            let step = next_step(Awaiting::Href { meta }, code, report, body);
            &&& 200 <= code <= 299 && reads_as(body, json) && json.at("href"@) == JsonView::Str(
                href,
            ) ==> (step matches Step::Done { resolved } && {
                &&& resolved.name == meta.name
                &&& resolved.kind == meta.kind
                &&& resolved.size == meta.size
                &&& resolved.md5 == meta.md5
                &&& resolved.sha256 == meta.sha256
                &&& resolved.href == href
                &&& resolved.via == "cloud-api"@
            })
            &&& 200 <= code <= 299 && reads_as(body, json) && !(json.at("href"@) is Str) ==> step
                == (Step::<Seq<char>>::Fail { failure: Failure::HrefMissing })
            &&& 200 <= code <= 299 && parsed_json(body) == read_err(cause) ==> step == (Step::<
                Seq<char>,
            >::Fail { failure: Failure::HrefMalformed { cause } })
            &&& !(200 <= code <= 299) ==> (step matches Step::Fail {
                failure: Failure::HrefRefused { status, body: quote },
            } && status == status_line(code) && quote.is_prefix_of(body) && quote.len() == (
            if body.len() < 300 {
                body.len()
            } else {
                300
            }))
        }),
{
    law_cut_is_beginning(body, 300);
}

/// A session over the web page asks for the page of the link, and keeps the link and the
/// password. It takes no path.
pub proof fn law_web_session_asks_page(query: Query<Seq<char>>)
    ensures
        query.path is Some ==> first_step(Backend::Web, query) == (Step::<Seq<char>>::Fail {
            failure: Failure::PathUnsupported,
        }),
        query.path is None ==> (first_step(Backend::Web, query) matches Step::Send {
            request,
            next,
        } && {
            &&& request is Page
            &&& address_of(request) == query.url
            &&& next == (Awaiting::Page { url: query.url, given: query.password })
        }),
        web_start(query) == first_step(Backend::Web, query),
{
}

/// The check of a password is asked of the method of that name for the public link, with a
/// record that holds the whole password, the hash and the session key of the page and the path
/// of the link. Nothing is lost while the reply is waited for.
pub proof fn law_password_is_sent(
    url: Seq<char>,
    password: Seq<char>,
    page: Page<Seq<char>>,
    attempt: usize,
)
    ensures
        password_call(url, password, page, attempt) matches Step::Send { request, next } && {
            &&& next == (Awaiting::Password { url, password, page, attempt })
            &&& request matches Request::Api { method, referer, body }
            &&& method == ApiMethod::CheckPassword
            &&& referer == url
            &&& exists|v: JsonView|
                body == #[trigger] rendered_json(v) && v.at("password"@).as_str() == Some(password)
                    && v.at("hash"@).as_str() == Some(page.hash) && v.at("short_url"@).as_str()
                    == Some(short_path(url)) && v.at("sk"@).as_str() == Some(page.sk) && (v matches
                    JsonView::Object(members) && members.len() == 4)
        },
{
    law_password_record_holds(page.hash, password, short_path(url), page.sk);
    let v = password_record(page.hash, password, short_path(url), page.sk);
    assert(rendered_json(v) == rendered_json(v));
}

/// The direct link is asked of the method of that name for the public link, with a record that
/// holds the hash and the session key of the page, and the token of a password exactly where
/// there is one. Nothing is lost while the reply is waited for.
pub proof fn law_link_is_asked(
    url: Seq<char>,
    page: Page<Seq<char>>,
    token: Option<Seq<char>>,
    attempt: usize,
)
    ensures
        link_call(url, page, token, attempt) matches Step::Send { request, next } && {
            &&& next == (Awaiting::Link { url, page, token, attempt })
            &&& request matches Request::Api { method, referer, body }
            &&& method == ApiMethod::DownloadUrl
            &&& referer == url
            &&& exists|v: JsonView|
                body == #[trigger] rendered_json(v) && v.at("hash"@).as_str() == Some(page.hash)
                    && v.at("sk"@).as_str() == Some(page.sk) && v.at("inline"@).as_bool() == Some(
                    false,
                ) && v.at("passToken"@).as_str() == token && (v matches JsonView::Object(members)
                    && members.len() == (if token is Some {
                    4int
                } else {
                    3int
                }))
        },
{
    law_link_record_holds(page.hash, page.sk, token);
    let v = link_record(page.hash, page.sk, token);
    assert(rendered_json(v) == rendered_json(v));
}

/// The server reads in the body of a call what the session means by it: the whole password with
/// the hash and the session key of the page and the path of the link, or the hash and the
/// session key with the token.
pub proof fn law_sent_record_is_read(
    method: ApiMethod,
    referer: Seq<char>,
    body: Seq<char>,
    url: Seq<char>,
    password: Seq<char>,
    page: Page<Seq<char>>,
    token: Option<Seq<char>>,
    attempt: usize,
)
    ensures
        carries_record(
            Step::Send {
                request: Request::Api { method, referer, body },
                next: Awaiting::Password { url, password, page, attempt },
            },
        ) ==> (parsed_json(body) matches Ok(v) && {
            &&& v.at("password"@).as_str() == Some(password)
            &&& v.at("hash"@).as_str() == Some(page.hash)
            &&& v.at("short_url"@).as_str() == Some(short_path(url))
            &&& v.at("sk"@).as_str() == Some(page.sk)
        }),
        carries_record(
            Step::Send {
                request: Request::Api { method, referer, body },
                next: Awaiting::Link { url, page, token, attempt },
            },
        ) ==> (parsed_json(body) matches Ok(v) && {
            &&& v.at("hash"@).as_str() == Some(page.hash)
            &&& v.at("sk"@).as_str() == Some(page.sk)
            &&& v.at("inline"@).as_bool() == Some(false)
            &&& v.at("passToken"@).as_str() == token
        }),
{
    law_password_record_holds(page.hash, password, short_path(url), page.sk);
    law_link_record_holds(page.hash, page.sk, token);
}

/// What a page without the status of an error means. Where it cannot be read, the session fails
/// as the reading does. Else the direct link is asked for at once where the page is open; where
/// it is locked, the password is checked, or the session fails where none was given.
pub proof fn law_page_response(
    url: Seq<char>,
    given: Option<Seq<char>>,
    code: u16,
    report: Seq<char>,
    html: Seq<char>,
)
    requires
        !(400 <= code <= 599),
    ensures
        ({
            let step = next_step(Awaiting::Page { url, given }, code, report, html);
            &&& prefetch_of(html) matches Err(failure) ==> step == (Step::Fail { failure })
            &&& prefetch_of(html) matches Ok(state) ==> {
                &&& page_of(state) matches Err(failure) ==> step == (Step::Fail { failure })
                &&& page_of(state) matches Ok(page) ==> {
                    &&& !page.locked ==> step == link_call(url, page, None, 0)
                    &&& page.locked ==> (given matches Some(password) ==> step == password_call(
                        url,
                        password,
                        page,
                        0,
                    ))
                    &&& page.locked && given is None ==> step == (Step::<Seq<char>>::Fail {
                        failure: Failure::PasswordNeeded,
                    })
                }
            }
        }),
{
}

/// What a reply to the check of a password means, whatever its status is. A token is passed on
/// with the request of the direct link. Without one, a first reply with a new session key
/// repeats the check with that key, and all else of the page and the password unchanged. Any
/// other reply ends the session, and so does one that cannot be read.
pub proof fn law_password_reply(
    url: Seq<char>,
    password: Seq<char>,
    page: Page<Seq<char>>,
    attempt: usize,
    code: u16,
    report: Seq<char>,
    body: Seq<char>,
    json: JsonView,
    text: Seq<char>,
)
    ensures
        ({
            let step = next_step(
                Awaiting::Password { url, password, page, attempt },
                code,
                report,
                body,
            );
            let renewed = Page {
                sk: text,
                hash: page.hash,
                locked: page.locked,
                name: page.name,
                kind: page.kind,
                size: page.size,
            };
            let retried = attempt == 0 && json.at("wrongSk"@) == JsonView::Bool(true) && json.at(
                "newSk"@,
            ) is Str;
            &&& reads_as(body, json) && json.at("token"@) == JsonView::Str(text) ==> step
                == link_call(url, page, Some(text), 0)
            &&& reads_as(body, json) && !(json.at("token"@) is Str) && retried && json.at("newSk"@)
                == JsonView::Str(text) ==> step == password_call(url, password, renewed, 1)
            &&& reads_as(body, json) && !(json.at("token"@) is Str) && !retried ==> {
                &&& json.at("data"@).at("code"@).as_i64() == Some(309i64) ==> step == (Step::<
                    Seq<char>,
                >::Fail { failure: Failure::WrongPassword })
                &&& json.at("data"@).at("code"@).as_i64() != Some(309i64) ==> (step matches
                    Step::Fail { failure: Failure::CheckRefused { reply } } && reply.is_prefix_of(
                    rendered_json(json),
                ) && reply.len() == (if rendered_json(json).len() < 300 {
                    rendered_json(json).len()
                } else {
                    300
                }))
            }
            &&& parsed_json(body) == read_err(text) ==> step == (Step::<Seq<char>>::Fail {
                failure: Failure::ReplyMalformed { method: ApiMethod::CheckPassword, cause: text },
            })
        }),
{
    law_password_answer(json, rendered_json(json), attempt as nat, text);
}

/// What a reply to the request of the direct link means, whatever its status is. The address in
/// it resolves the link. Without one, a first reply with a new session key repeats the request
/// with that key, and all else of the page and the token unchanged. Any other reply ends the
/// session, and so does one that cannot be read.
pub proof fn law_link_reply(
    url: Seq<char>,
    page: Page<Seq<char>>,
    token: Option<Seq<char>>,
    attempt: usize,
    code: u16,
    report: Seq<char>,
    body: Seq<char>,
    json: JsonView,
    text: Seq<char>,
)
    ensures
        ({
            let step = next_step(Awaiting::Link { url, page, token, attempt }, code, report, body);
            let renewed = Page {
                sk: text,
                hash: page.hash,
                locked: page.locked,
                name: page.name,
                kind: page.kind,
                size: page.size,
            };
            let granted = json.at("data"@).at("url"@);
            let retried = attempt == 0 && json.at("wrongSk"@) == JsonView::Bool(true) && json.at(
                "newSk"@,
            ) is Str;
            &&& reads_as(body, json) && granted == JsonView::Str(text) ==> step == (Step::Done {
                resolved: web_resolved(page, text),
            })
            &&& reads_as(body, json) && !(granted is Str) && retried && json.at("newSk"@)
                == JsonView::Str(text) ==> step == link_call(url, renewed, token, 1)
            &&& reads_as(body, json) && !(granted is Str) && !retried ==> {
                &&& json.at("data"@).at("code"@).as_i64() == Some(317i64) ==> step == (Step::<
                    Seq<char>,
                >::Fail { failure: Failure::PasswordNeeded })
                &&& json.at("data"@).at("code"@).as_i64() != Some(317i64) ==> (step matches
                    Step::Fail { failure: Failure::LinkRefused { reply } } && reply.is_prefix_of(
                    rendered_json(json),
                ) && reply.len() == (if rendered_json(json).len() < 300 {
                    rendered_json(json).len()
                } else {
                    300
                }))
            }
            &&& parsed_json(body) == read_err(text) ==> step == (Step::<Seq<char>>::Fail {
                failure: Failure::ReplyMalformed { method: ApiMethod::DownloadUrl, cause: text },
            })
        }),
{
    law_link_answer(json, rendered_json(json), attempt as nat, text);
}

/// What the page shows of a file is what is said of it: its name, its type and its size. A name
/// that the page hides is the parameter `filename` of the direct link, or else the default; a
/// hidden size is the number in the parameter `fsize`, or else unknown; and what has no type is
/// a file.
pub proof fn law_shown_facts_are_kept(page: Page<Seq<char>>, href: Seq<char>)
    ensures
        ({
            let resolved = web_resolved(page, href);
            let name = param_of(href, "filename"@);
            let size = param_of(href, "fsize"@);
            &&& page.name matches Some(shown) ==> resolved.name == shown
            &&& page.name is None ==> {
                &&& name matches Some(text) ==> resolved.name == text
                &&& name is None ==> resolved.name == "download.bin"@
            }
            &&& page.kind matches Some(shown) ==> resolved.kind == shown
            &&& page.kind is None ==> resolved.kind == "file"@
            &&& page.size is Some ==> resolved.size == page.size
            &&& page.size is None ==> {
                &&& size matches Some(text) ==> resolved.size == parsed_u64(text)
                &&& size is None ==> resolved.size is None
            }
            &&& resolved.href == href
            &&& resolved.via == (if page.locked {
                "web (с паролем)"@
            } else {
                "web"@
            })
        }),
{
}

} // verus!

//! The resolution of a public link as a sequence of steps. A step names the next request;
//! the response to it gives the next step, until the link is resolved or has failed.
//!
//! Records hold texts of type `S`: `String` in code, `Seq<char>` in contracts.

use vstd::prelude::*;

use crate::failure::{ApiMethod, Failure};
use crate::page::Page;
use crate::text::{str_of, text_of};

verus! {

/// The site that serves the web page of a public link.
pub const WEB_ORIGIN: &'static str = "https://disk.yandex.ru";

/// What the user is told when the resolution goes over to the web page.
pub const FALL_BACK_NOTE: &'static str =
    "note: публичный REST API не принимает пароль, переключаюсь на web-путь";

// ---------------------------------------------------------------- records

/// The way in which a public link is resolved.
#[derive(Debug, Clone, Copy, PartialEq, Eq)]
pub enum Backend {
    /// The public REST API.
    Cloud,
    /// The internal API of the web page.
    Web,
}

/// What is to be resolved: a public link, its password and a path inside it.
#[derive(Debug, PartialEq, Eq)]
pub struct Query<S> {
    pub url: S,
    pub password: Option<S>,
    pub path: Option<S>,
}

impl View for Query<String> {
    type V = Query<Seq<char>>;

    open spec fn view(&self) -> Query<Seq<char>> {
        Query { url: self.url@, password: text_of(self.password), path: text_of(self.path) }
    }
}

/// The description of a resource by the REST API.
#[derive(Debug, PartialEq, Eq)]
pub struct PublicMeta<S> {
    pub name: S,
    pub kind: S,
    pub size: Option<u64>,
    pub md5: Option<S>,
    pub sha256: Option<S>,
}

impl View for PublicMeta<String> {
    type V = PublicMeta<Seq<char>>;

    open spec fn view(&self) -> PublicMeta<Seq<char>> {
        PublicMeta {
            name: self.name@,
            kind: self.kind@,
            size: self.size,
            md5: text_of(self.md5),
            sha256: text_of(self.sha256),
        }
    }
}

/// A resolved link: what is known of the file, the direct link to it and the way in which
/// that was obtained.
#[derive(Debug, PartialEq, Eq)]
pub struct Resolved<S> {
    pub name: S,
    pub kind: S,
    pub size: Option<u64>,
    pub md5: Option<S>,
    pub sha256: Option<S>,
    pub href: S,
    pub via: S,
}

impl View for Resolved<String> {
    type V = Resolved<Seq<char>>;

    open spec fn view(&self) -> Resolved<Seq<char>> {
        Resolved {
            name: self.name@,
            kind: self.kind@,
            size: self.size,
            md5: text_of(self.md5),
            sha256: text_of(self.sha256),
            href: self.href@,
            via: self.via@,
        }
    }
}

/// A request of a session.
#[derive(Debug, PartialEq, Eq)]
pub enum Request<S> {
    /// The description of a link by the REST API.
    Meta { url: S },
    /// The direct link from the REST API.
    Href { url: S },
    /// The web page of a link.
    Page { url: S },
    /// A call of the internal API of the page.
    Api { method: ApiMethod, referer: S, body: S },
}

impl View for Request<String> {
    type V = Request<Seq<char>>;

    open spec fn view(&self) -> Request<Seq<char>> {
        match self {
            Request::Meta { url } => Request::Meta { url: url@ },
            Request::Href { url } => Request::Href { url: url@ },
            Request::Page { url } => Request::Page { url: url@ },
            Request::Api { method, referer, body } => Request::Api {
                method: *method,
                referer: referer@,
                body: body@,
            },
        }
    }
}

/// A session that waits for the response to its request.
#[derive(Debug, PartialEq, Eq)]
pub enum Awaiting<S> {
    /// The description of the link.
    Meta { query: Query<S> },
    /// The direct link to what `meta` describes.
    Href { meta: PublicMeta<S> },
    /// The web page of the link, for which a password may have been given.
    Page { url: S, given: Option<S> },
    /// The check of the password.
    Password { url: S, password: S, page: Page<S>, attempt: usize },
    /// The direct link to what the page shows, with the token of the password.
    Link { url: S, page: Page<S>, token: Option<S>, attempt: usize },
}

impl View for Awaiting<String> {
    type V = Awaiting<Seq<char>>;

    open spec fn view(&self) -> Awaiting<Seq<char>> {
        match self {
            Awaiting::Meta { query } => Awaiting::Meta { query: query@ },
            Awaiting::Href { meta } => Awaiting::Href { meta: meta@ },
            Awaiting::Page { url, given } => Awaiting::Page { url: url@, given: text_of(*given) },
            Awaiting::Password { url, password, page, attempt } => Awaiting::Password {
                url: url@,
                password: password@,
                page: page@,
                attempt: *attempt,
            },
            Awaiting::Link { url, page, token, attempt } => Awaiting::Link {
                url: url@,
                page: page@,
                token: text_of(*token),
                attempt: *attempt,
            },
        }
    }
}

/// The next step of a session.
#[derive(Debug, PartialEq, Eq)]
pub enum Step<S> {
    /// Send the request and go on with the response.
    Send { request: Request<S>, next: Awaiting<S> },
    /// Decode the description of the link in `body` and go on with
    /// [`crate::resolve::on_meta`].
    Decode { body: S, query: Query<S> },
    /// Tell the user [`FALL_BACK_NOTE`] and go on with [`crate::resolve::begin_web`].
    FallBack { query: Query<S> },
    /// The link is resolved.
    Done { resolved: Resolved<S> },
    /// The link cannot be resolved.
    Fail { failure: Failure<S> },
}

impl View for Step<String> {
    type V = Step<Seq<char>>;

    open spec fn view(&self) -> Step<Seq<char>> {
        match self {
            Step::Send { request, next } => Step::Send { request: request@, next: next@ },
            Step::Decode { body, query } => Step::Decode { body: body@, query: query@ },
            Step::FallBack { query } => Step::FallBack { query: query@ },
            Step::Done { resolved } => Step::Done { resolved: resolved@ },
            Step::Fail { failure } => Step::Fail { failure: failure@ },
        }
    }
}

// ---------------------------------------------------------------- requests

/// The address of a request.
pub open spec fn address_of(request: Request<Seq<char>>) -> Seq<char> {
    match request {
        Request::Meta { url } => url,
        Request::Href { url } => url,
        Request::Page { url } => url,
        Request::Api { method, .. } => WEB_ORIGIN@ + "/public/api/"@ + method.title(),
    }
}

/// The headers of a request, in order. A call of the internal API carries JSON, but names it
/// plain text, as a browser does.
pub open spec fn headers_of(request: Request<Seq<char>>) -> Seq<(Seq<char>, Seq<char>)> {
    match request {
        Request::Meta { .. } => seq![],
        Request::Href { .. } => seq![],
        Request::Page { .. } => seq![("Accept-Language"@, "ru-RU,ru;q=0.9"@)],
        Request::Api { referer, .. } => seq![
            ("Content-Type"@, "text/plain"@),
            ("X-Requested-With"@, "XMLHttpRequest"@),
            ("Origin"@, WEB_ORIGIN@),
            ("Referer"@, referer),
        ],
    }
}

/// The words that go before the cause where a request cannot be sent.
pub open spec fn context_of(request: Request<Seq<char>>) -> Option<Seq<char>> {
    match request {
        Request::Meta { .. } => Some("запрос метаданных"@),
        Request::Href { .. } => Some("запрос download-ссылки"@),
        Request::Page { .. } => None,
        Request::Api { method, .. } => Some("запрос "@ + method.title()),
    }
}

/// The texts of a list of pairs.
pub open spec fn pairs_view(pairs: Seq<(String, String)>) -> Seq<(Seq<char>, Seq<char>)> {
    pairs.map_values(|pair: (String, String)| (pair.0@, pair.1@))
}

/// A pair of texts.
fn pair(name: &str, value: &str) -> (p: (String, String))
    ensures
        p.0@ == name@,
        p.1@ == value@,
{
    (name.to_string(), value.to_string())
}

impl Request<String> {
    /// The address of the request.
    pub fn address(&self) -> (address: String)
        ensures
            address@ == address_of(self@),
    {
        match self {
            Request::Meta { url } => url.clone(),
            Request::Href { url } => url.clone(),
            Request::Page { url } => url.clone(),
            Request::Api { method, .. } => {
                let mut s = WEB_ORIGIN.to_string();
                s.append("/public/api/");
                s.append(method.name());
                s
            },
        }
    }

    /// The headers of the request, in order.
    pub fn headers(&self) -> (headers: Vec<(String, String)>)
        ensures
            pairs_view(headers@) == headers_of(self@),
    {
        let mut headers: Vec<(String, String)> = Vec::new();
        match self {
            Request::Page { .. } => {
                headers.push(pair("Accept-Language", "ru-RU,ru;q=0.9"));
            },
            Request::Api { referer, .. } => {
                headers.push(pair("Content-Type", "text/plain"));
                headers.push(pair("X-Requested-With", "XMLHttpRequest"));
                headers.push(pair("Origin", WEB_ORIGIN));
                headers.push(pair("Referer", referer.as_str()));
            },
            _ => {},
        }
        assert(pairs_view(headers@) =~= headers_of(self@));
        headers
    }

    /// Whether the request is a POST; else it is a GET. A POST has a body, a GET has none.
    pub fn posts(&self) -> (posts: bool)
        ensures
            posts == (self@ is Api),
    {
        match self {
            Request::Api { .. } => true,
            _ => false,
        }
    }

    /// The body of the request.
    pub fn body(&self) -> (body: Option<&str>)
        ensures
            str_of(body) == (match self@ {
                Request::Api { body, .. } => Some(body),
                _ => None,
            }),
    {
        match self {
            Request::Api { body, .. } => Some(body.as_str()),
            _ => None,
        }
    }

    /// The words that go before the cause where the request cannot be sent.
    pub fn context(&self) -> (context: Option<String>)
        ensures
            text_of(context) == context_of(self@),
    {
        match self {
            Request::Meta { .. } => Some("запрос метаданных".to_string()),
            Request::Href { .. } => Some("запрос download-ссылки".to_string()),
            Request::Page { .. } => None,
            Request::Api { method, .. } => {
                let mut s = "запрос ".to_string();
                s.append(method.name());
                Some(s)
            },
        }
    }

    /// Whether a response with the status of an error ends the session before its body is
    /// looked at.
    pub fn demands_success(&self) -> (demands: bool)
        ensures
            demands == (self@ is Page),
    {
        match self {
            Request::Page { .. } => true,
            _ => false,
        }
    }
}

// ---------------------------------------------------------------- laws

/// A request goes to the address that it names; a call of the internal API goes to the method
/// of its name on the site of the web page.
pub proof fn law_request_address(url: Seq<char>, referer: Seq<char>, body: Seq<char>)
    ensures
        address_of(Request::Meta { url }) == url,
        address_of(Request::Href { url }) == url,
        address_of(Request::Page { url }) == url,
        address_of(Request::Api { method: ApiMethod::CheckPassword, referer, body })
            == "https://disk.yandex.ru/public/api/check-password"@,
        address_of(Request::Api { method: ApiMethod::DownloadUrl, referer, body })
            == "https://disk.yandex.ru/public/api/download-url"@,
{
    reveal_strlit("https://disk.yandex.ru");
    reveal_strlit("/public/api/");
    reveal_strlit("check-password");
    reveal_strlit("download-url");
    reveal_strlit("https://disk.yandex.ru/public/api/check-password");
    reveal_strlit("https://disk.yandex.ru/public/api/download-url");
    let site = "https://disk.yandex.ru"@ + "/public/api/"@;
    assert(site + "check-password"@ =~= "https://disk.yandex.ru/public/api/check-password"@);
    assert(site + "download-url"@ =~= "https://disk.yandex.ru/public/api/download-url"@);
}

/// A call of the internal API names the site it comes from, the public link it belongs to and
/// plain text as its type; the page is asked for in Russian; a REST call has no headers.
pub proof fn law_request_headers(url: Seq<char>, method: ApiMethod, referer: Seq<char>, body: Seq<char>)
    ensures
        headers_of(Request::Meta { url }).len() == 0,
        headers_of(Request::Href { url }).len() == 0,
        ({
            let headers = headers_of(Request::Page { url });
            headers.len() == 1 && headers[0] == ("Accept-Language"@, "ru-RU,ru;q=0.9"@)
        }),
        ({
            let headers = headers_of(Request::Api { method, referer, body });
            &&& headers.len() == 4
            &&& headers.contains(("Referer"@, referer))
            &&& headers.contains(("Origin"@, "https://disk.yandex.ru"@))
            &&& headers.contains(("Content-Type"@, "text/plain"@))
            &&& headers.contains(("X-Requested-With"@, "XMLHttpRequest"@))
        }),
{
    let headers = headers_of(Request::Api { method, referer, body });
    assert(headers[0] == ("Content-Type"@, "text/plain"@));
    assert(headers[1] == ("X-Requested-With"@, "XMLHttpRequest"@));
    assert(headers[2] == ("Origin"@, "https://disk.yandex.ru"@));
    assert(headers[3] == ("Referer"@, referer));
}

/// A request that cannot be sent is reported by what it asked for; a page is not.
pub proof fn law_request_context(url: Seq<char>, referer: Seq<char>, body: Seq<char>)
    ensures
        context_of(Request::Meta { url }) == Some("запрос метаданных"@),
        context_of(Request::Href { url }) == Some("запрос download-ссылки"@),
        context_of(Request::Page { url }) is None,
        context_of(Request::Api { method: ApiMethod::CheckPassword, referer, body }) == Some(
            "запрос "@ + "check-password"@,
        ),
        context_of(Request::Api { method: ApiMethod::DownloadUrl, referer, body }) == Some(
            "запрос "@ + "download-url"@,
        ),
{
}

/// What contracts say of a list of pairs they say of its own pairs, one for one.
pub proof fn law_pairs_are_their_texts(pairs: Seq<(String, String)>)
    ensures
        pairs_view(pairs).len() == pairs.len(),
        forall|i: int|
            0 <= i < pairs.len() ==> #[trigger] pairs_view(pairs)[i] == (pairs[i].0@, pairs[i].1@),
{
}

/// What contracts say of a query, of the description of a resource and of a resolved link they
/// say of the texts and numbers in it.
pub proof fn law_records_are_their_texts(
    query: Query<String>,
    meta: PublicMeta<String>,
    resolved: Resolved<String>,
)
    ensures
        query@.url == query.url@,
        query@.password == text_of(query.password),
        query@.path == text_of(query.path),
        meta@.name == meta.name@,
        meta@.kind == meta.kind@,
        meta@.size == meta.size,
        meta@.md5 == text_of(meta.md5),
        meta@.sha256 == text_of(meta.sha256),
        resolved@.name == resolved.name@,
        resolved@.kind == resolved.kind@,
        resolved@.size == resolved.size,
        resolved@.md5 == text_of(resolved.md5),
        resolved@.sha256 == text_of(resolved.sha256),
        resolved@.href == resolved.href@,
        resolved@.via == resolved.via@,
{
}

/// What contracts say of a request and of a session that waits they say of what is in it.
pub proof fn law_requests_are_their_texts(
    url: String,
    text: String,
    method: ApiMethod,
    query: Query<String>,
    meta: PublicMeta<String>,
    page: Page<String>,
    given: Option<String>,
    attempt: usize,
)
    ensures
        (Request::Meta { url })@ == (Request::Meta { url: url@ }),
        (Request::Href { url })@ == (Request::Href { url: url@ }),
        (Request::Page { url })@ == (Request::Page { url: url@ }),
        (Request::Api { method, referer: url, body: text })@ == (Request::Api {
            method,
            referer: url@,
            body: text@,
        }),
        (Awaiting::Meta { query })@ == (Awaiting::Meta { query: query@ }),
        (Awaiting::Href { meta })@ == (Awaiting::Href { meta: meta@ }),
        (Awaiting::Page { url, given })@ == (Awaiting::Page { url: url@, given: text_of(given) }),
        (Awaiting::Password { url, password: text, page, attempt })@ == (Awaiting::Password {
            url: url@,
            password: text@,
            page: page@,
            attempt,
        }),
        (Awaiting::Link { url, page, token: given, attempt })@ == (Awaiting::Link {
            url: url@,
            page: page@,
            token: text_of(given),
            attempt,
        }),
{
}

/// What contracts say of a step they say of what is in it.
pub proof fn law_steps_are_their_contents(
    request: Request<String>,
    next: Awaiting<String>,
    body: String,
    query: Query<String>,
    resolved: Resolved<String>,
    failure: Failure<String>,
)
    ensures
        (Step::Send { request, next })@ == (Step::Send { request: request@, next: next@ }),
        (Step::Decode { body, query })@ == (Step::Decode { body: body@, query: query@ }),
        (Step::FallBack { query })@ == (Step::FallBack { query: query@ }),
        (Step::Done { resolved })@ == (Step::Done { resolved: resolved@ }),
        (Step::Fail { failure })@ == (Step::Fail { failure: failure@ }),
{
}

/// The user is told why the resolution goes over to the web page.
pub proof fn law_fall_back_is_told()
    ensures
        FALL_BACK_NOTE@ == "note: публичный REST API не принимает пароль, переключаюсь на web-путь"@,
{
}

} // verus!

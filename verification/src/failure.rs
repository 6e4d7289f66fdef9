//! What can go wrong while a public link is resolved and its file received.

use vstd::prelude::*;

use crate::text::{decimal, decimal_text, law_decimal_round_trip, parsed_u64, str_of};

verus! {

/// A method of the internal API of the web page.
#[derive(Debug, Clone, Copy, PartialEq, Eq)]
pub enum ApiMethod {
    CheckPassword,
    DownloadUrl,
}

impl ApiMethod {
    /// The name of the method in addresses and messages.
    pub open spec fn title(self) -> Seq<char> {
        match self {
            ApiMethod::CheckPassword => "check-password"@,
            ApiMethod::DownloadUrl => "download-url"@,
        }
    }

    /// The name of the method in addresses and messages.
    pub fn name(self) -> (name: &'static str)
        ensures
            name@ == self.title(),
    {
        match self {
            ApiMethod::CheckPassword => "check-password",
            ApiMethod::DownloadUrl => "download-url",
        }
    }
}

/// A failure. Its texts are of type `S`: `String` in code, `Seq<char>` in contracts.
#[derive(Debug, PartialEq, Eq)]
pub enum Failure<S> {
    /// The web page or the file was answered with the status of an error, which the HTTP
    /// client reports in its own words.
    StatusRefused { code: u16, report: S },
    /// The link has a password and none was given.
    PasswordNeeded,
    /// The REST API refused to describe the link.
    MetaRefused { status: S, body: S },
    /// The description of the link could not be read.
    MetaMalformed { cause: S },
    /// The REST API refused to give the direct link.
    HrefRefused { status: S, body: S },
    /// The reply that should hold the direct link could not be read.
    HrefMalformed { cause: S },
    /// The reply holds no direct link.
    HrefMissing,
    /// A path inside the link was given to the web page, which takes none.
    PathUnsupported,
    /// The page has no store-prefetch.
    PrefetchMissing,
    /// The store-prefetch of the page has no end.
    PrefetchTorn,
    /// The store-prefetch of the page could not be read.
    PrefetchMalformed { cause: S },
    /// The store-prefetch has no session key.
    SkMissing,
    /// The store-prefetch has no resource.
    ResourcesMissing,
    /// The resource has no hash.
    HashMissing,
    /// The reply of the internal API could not be read.
    ReplyMalformed { method: ApiMethod, cause: S },
    /// The password is wrong.
    WrongPassword,
    /// The internal API refused to check the password.
    CheckRefused { reply: S },
    /// The internal API refused to give the direct link.
    LinkRefused { reply: S },
    /// The file does not have the size that was announced.
    SizeMismatch { received: u64, expected: u64 },
}

impl View for Failure<String> {
    type V = Failure<Seq<char>>;

    open spec fn view(&self) -> Failure<Seq<char>> {
        match self {
            Failure::StatusRefused { code, report } => Failure::StatusRefused {
                code: *code,
                report: report@,
            },
            Failure::PasswordNeeded => Failure::PasswordNeeded,
            Failure::MetaRefused { status, body } => Failure::MetaRefused {
                status: status@,
                body: body@,
            },
            Failure::MetaMalformed { cause } => Failure::MetaMalformed { cause: cause@ },
            Failure::HrefRefused { status, body } => Failure::HrefRefused {
                status: status@,
                body: body@,
            },
            Failure::HrefMalformed { cause } => Failure::HrefMalformed { cause: cause@ },
            Failure::HrefMissing => Failure::HrefMissing,
            Failure::PathUnsupported => Failure::PathUnsupported,
            Failure::PrefetchMissing => Failure::PrefetchMissing,
            Failure::PrefetchTorn => Failure::PrefetchTorn,
            Failure::PrefetchMalformed { cause } => Failure::PrefetchMalformed { cause: cause@ },
            Failure::SkMissing => Failure::SkMissing,
            Failure::ResourcesMissing => Failure::ResourcesMissing,
            Failure::HashMissing => Failure::HashMissing,
            Failure::ReplyMalformed { method, cause } => Failure::ReplyMalformed {
                method: *method,
                cause: cause@,
            },
            Failure::WrongPassword => Failure::WrongPassword,
            Failure::CheckRefused { reply } => Failure::CheckRefused { reply: reply@ },
            Failure::LinkRefused { reply } => Failure::LinkRefused { reply: reply@ },
            Failure::SizeMismatch { received, expected } => Failure::SizeMismatch {
                received: *received,
                expected: *expected,
            },
        }
    }
}

/// The message of a failure.
pub open spec fn message_of(error: Failure<Seq<char>>) -> Seq<char> {
    match error {
        Failure::StatusRefused { report, .. } => report,
        Failure::PasswordNeeded => "ссылка защищена паролем — укажите --password"@,
        Failure::MetaRefused { status, body } => "cloud-api вернул "@ + status + ": "@ + body,
        Failure::MetaMalformed { .. } => "разбор метаданных"@,
        Failure::HrefRefused { status, body } => "cloud-api /download вернул "@ + status + ": "@
            + body,
        Failure::HrefMalformed { cause } => cause,
        Failure::HrefMissing => "в ответе cloud-api нет href"@,
        Failure::PathUnsupported => "--path поддерживается только backend'ом cloud"@,
        Failure::PrefetchMissing => "на странице нет store-prefetch (ссылка невалидна?)"@,
        Failure::PrefetchTorn => "повреждённый store-prefetch"@,
        Failure::PrefetchMalformed { .. } => "разбор store-prefetch"@,
        Failure::SkMissing => "в store-prefetch нет environment.sk"@,
        Failure::ResourcesMissing => "в store-prefetch нет resources"@,
        Failure::HashMissing => "в store-prefetch нет resources[].hash"@,
        Failure::ReplyMalformed { method, .. } => "разбор ответа "@ + method.title(),
        Failure::WrongPassword => "неверный пароль"@,
        Failure::CheckRefused { reply } => "check-password отказал: "@ + reply,
        Failure::LinkRefused { reply } => "download-url отказал: "@ + reply,
        Failure::SizeMismatch { received, expected } => "размер не совпал: получено "@ + decimal(
            received as nat,
        ) + ", ожидалось "@ + decimal(expected as nat),
    }
}

/// The cause behind the message of a failure.
pub open spec fn cause_of(error: Failure<Seq<char>>) -> Option<Seq<char>> {
    match error {
        Failure::MetaMalformed { cause } => Some(cause),
        Failure::PrefetchMalformed { cause } => Some(cause),
        Failure::ReplyMalformed { cause, .. } => Some(cause),
        _ => None,
    }
}

/// `head` followed by `tail`.
fn joined(head: &str, tail: &str) -> (s: String)
    ensures
        s@ == head@ + tail@,
{
    let mut s = head.to_string();
    s.append(tail);
    s
}

/// `head`, then `first`, `middle` and `last`.
fn joined_pair(head: &str, first: &str, middle: &str, last: &str) -> (s: String)
    ensures
        s@ == head@ + first@ + middle@ + last@,
{
    let mut s = joined(head, first);
    s.append(middle);
    s.append(last);
    s
}

impl Failure<String> {
    /// The message of the failure.
    pub fn message(&self) -> (message: String)
        ensures
            message@ == message_of(self@),
    {
        match self {
            Failure::StatusRefused { report, .. } => report.clone(),
            Failure::PasswordNeeded => {
                "ссылка защищена паролем — укажите --password".to_string()
            },
            Failure::MetaRefused { status, body } => joined_pair(
                "cloud-api вернул ",
                status.as_str(),
                ": ",
                body.as_str(),
            ),
            Failure::MetaMalformed { .. } => "разбор метаданных".to_string(),
            Failure::HrefRefused { status, body } => joined_pair(
                "cloud-api /download вернул ",
                status.as_str(),
                ": ",
                body.as_str(),
            ),
            Failure::HrefMalformed { cause } => cause.clone(),
            Failure::HrefMissing => "в ответе cloud-api нет href".to_string(),
            Failure::PathUnsupported => {
                "--path поддерживается только backend'ом cloud".to_string()
            },
            Failure::PrefetchMissing => {
                "на странице нет store-prefetch (ссылка невалидна?)".to_string()
            },
            Failure::PrefetchTorn => "повреждённый store-prefetch".to_string(),
            Failure::PrefetchMalformed { .. } => "разбор store-prefetch".to_string(),
            Failure::SkMissing => "в store-prefetch нет environment.sk".to_string(),
            Failure::ResourcesMissing => "в store-prefetch нет resources".to_string(),
            Failure::HashMissing => "в store-prefetch нет resources[].hash".to_string(),
            Failure::ReplyMalformed { method, .. } => joined("разбор ответа ", method.name()),
            Failure::WrongPassword => "неверный пароль".to_string(),
            Failure::CheckRefused { reply } => joined("check-password отказал: ", reply.as_str()),
            Failure::LinkRefused { reply } => joined("download-url отказал: ", reply.as_str()),
            Failure::SizeMismatch { received, expected } => joined_pair(
                "размер не совпал: получено ",
                decimal_text(*received).as_str(),
                ", ожидалось ",
                decimal_text(*expected).as_str(),
            ),
        }
    }

    /// The cause behind the message of the failure.
    pub fn cause(&self) -> (cause: Option<&str>)
        ensures
            str_of(cause) == cause_of(self@),
    {
        match self {
            Failure::MetaMalformed { cause } => Some(cause.as_str()),
            Failure::PrefetchMalformed { cause } => Some(cause.as_str()),
            Failure::ReplyMalformed { cause, .. } => Some(cause.as_str()),
            _ => None,
        }
    }
}

// ---------------------------------------------------------------- laws

/// A refusal says who refused and quotes the status and the reply whole, and a file of the
/// wrong size is reported with both sizes, each as a numeral that reads back.
pub proof fn law_refusals_are_quoted(status: Seq<char>, body: Seq<char>, received: u64, expected: u64)
    ensures
        message_of(Failure::MetaRefused { status, body }) == "cloud-api вернул "@ + status + ": "@
            + body,
        message_of(Failure::HrefRefused { status, body }) == "cloud-api /download вернул "@ + status
            + ": "@ + body,
        message_of(Failure::CheckRefused { reply: body }) == "check-password отказал: "@ + body,
        message_of(Failure::LinkRefused { reply: body }) == "download-url отказал: "@ + body,
        message_of(Failure::SizeMismatch { received, expected }) == "размер не совпал: получено "@
            + decimal(received as nat) + ", ожидалось "@ + decimal(expected as nat),
        parsed_u64(decimal(received as nat)) == Some(received),
        parsed_u64(decimal(expected as nat)) == Some(expected),
{
    law_decimal_round_trip(received);
    law_decimal_round_trip(expected);
}

/// A text that could not be read is reported by what it was, with the cause behind it; where
/// it was to hold the direct link the cause is the message. No other failure has a cause.
pub proof fn law_causes_are_kept(failure: Failure<Seq<char>>, cause: Seq<char>)
    ensures
        cause_of(failure) == Some(cause) <==> {
            ||| failure == (Failure::MetaMalformed { cause })
            ||| failure == (Failure::PrefetchMalformed { cause })
            ||| failure == (Failure::ReplyMalformed { method: ApiMethod::CheckPassword, cause })
            ||| failure == (Failure::ReplyMalformed { method: ApiMethod::DownloadUrl, cause })
        },
        message_of(Failure::HrefMalformed { cause }) == cause,
        message_of(Failure::MetaMalformed { cause }) == "разбор метаданных"@,
        message_of(Failure::PrefetchMalformed { cause }) == "разбор store-prefetch"@,
        message_of(Failure::ReplyMalformed { method: ApiMethod::CheckPassword, cause })
            == "разбор ответа "@ + "check-password"@,
        message_of(Failure::ReplyMalformed { method: ApiMethod::DownloadUrl, cause })
            == "разбор ответа "@ + "download-url"@,
{
}

/// A failure that is no quote has words of its own.
pub proof fn law_plain_messages(failure: Failure<Seq<char>>)
    ensures
        failure is PasswordNeeded ==> message_of(failure)
            == "ссылка защищена паролем — укажите --password"@,
        failure is HrefMissing ==> message_of(failure) == "в ответе cloud-api нет href"@,
        failure is PathUnsupported ==> message_of(failure)
            == "--path поддерживается только backend'ом cloud"@,
        failure is PrefetchMissing ==> message_of(failure)
            == "на странице нет store-prefetch (ссылка невалидна?)"@,
        failure is PrefetchTorn ==> message_of(failure) == "повреждённый store-prefetch"@,
        failure is SkMissing ==> message_of(failure) == "в store-prefetch нет environment.sk"@,
        failure is ResourcesMissing ==> message_of(failure) == "в store-prefetch нет resources"@,
        failure is HashMissing ==> message_of(failure) == "в store-prefetch нет resources[].hash"@,
        failure is WrongPassword ==> message_of(failure) == "неверный пароль"@,
{
}

/// What contracts say of a failure they say of its own texts and numbers.
pub proof fn law_failure_is_its_texts(
    failure: Failure<String>,
    code: u16,
    method: ApiMethod,
    one: String,
    two: String,
    received: u64,
    expected: u64,
)
    ensures
        (Failure::StatusRefused { code, report: one })@ == (Failure::StatusRefused {
            code,
            report: one@,
        }),
        (Failure::MetaRefused { status: one, body: two })@ == (Failure::MetaRefused {
            status: one@,
            body: two@,
        }),
        (Failure::HrefRefused { status: one, body: two })@ == (Failure::HrefRefused {
            status: one@,
            body: two@,
        }),
        (Failure::MetaMalformed { cause: one })@ == (Failure::MetaMalformed { cause: one@ }),
        (Failure::HrefMalformed { cause: one })@ == (Failure::HrefMalformed { cause: one@ }),
        (Failure::PrefetchMalformed { cause: one })@ == (Failure::PrefetchMalformed { cause: one@ }),
        (Failure::ReplyMalformed { method, cause: one })@ == (Failure::ReplyMalformed {
            method,
            cause: one@,
        }),
        (Failure::CheckRefused { reply: one })@ == (Failure::CheckRefused { reply: one@ }),
        (Failure::LinkRefused { reply: one })@ == (Failure::LinkRefused { reply: one@ }),
        (Failure::<String>::SizeMismatch { received, expected })@ == (Failure::<
            Seq<char>,
        >::SizeMismatch { received, expected }),
        failure is PasswordNeeded <==> failure@ is PasswordNeeded,
        failure is HrefMissing <==> failure@ is HrefMissing,
        failure is PathUnsupported <==> failure@ is PathUnsupported,
        failure is PrefetchMissing <==> failure@ is PrefetchMissing,
        failure is PrefetchTorn <==> failure@ is PrefetchTorn,
        failure is SkMissing <==> failure@ is SkMissing,
        failure is ResourcesMissing <==> failure@ is ResourcesMissing,
        failure is HashMissing <==> failure@ is HashMissing,
        failure is WrongPassword <==> failure@ is WrongPassword,
{
}

} // verus!

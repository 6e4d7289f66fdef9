//! The internal API of the web page: the records that its calls carry and what its replies
//! mean.

use vstd::prelude::*;

use crate::failure::Failure;
use crate::json::{
    fields_view, lookup, names_ascend, parsed_json, reads_as, record_text, rendered_json,
    text_less, Field, Json, JsonView, Reply,
};
use crate::page::owned;
use crate::text::{law_cut_is_beginning, str_of, text_of, truncate, truncated};

verus! {

/// The `data.code` of a reply to a wrong password.
pub const ERR_INVALID_PASSWORD: i64 = 309;

/// The `data.code` of a reply to a call without the token of a password.
pub const ERR_PASSWORD_REQUIRED: i64 = 317;

/// How many characters of a reply a message quotes.
pub const QUOTED: usize = 300;

// ---------------------------------------------------------------- requests

/// The record that asks for the check of a password.
pub open spec fn password_record(
    hash: Seq<char>,
    password: Seq<char>,
    short_url: Seq<char>,
    sk: Seq<char>,
) -> JsonView {
    JsonView::Object(
        seq![
            ("hash"@, JsonView::Str(hash)),
            ("password"@, JsonView::Str(password)),
            ("short_url"@, JsonView::Str(short_url)),
            ("sk"@, JsonView::Str(sk)),
        ],
    )
}

/// The record that asks for the direct link, with the token of a password where there is one.
pub open spec fn link_record(
    hash: Seq<char>,
    sk: Seq<char>,
    pass_token: Option<Seq<char>>,
) -> JsonView {
    match pass_token {
        Some(token) => JsonView::Object(
            seq![
                ("hash"@, JsonView::Str(hash)),
                ("inline"@, JsonView::Bool(false)),
                ("passToken"@, JsonView::Str(token)),
                ("sk"@, JsonView::Str(sk)),
            ],
        ),
        None => JsonView::Object(
            seq![
                ("hash"@, JsonView::Str(hash)),
                ("inline"@, JsonView::Bool(false)),
                ("sk"@, JsonView::Str(sk)),
            ],
        ),
    }
}

/// The names that records use stand in lexicographic order.
proof fn lemma_names()
    ensures
        text_less("hash"@, "password"@),
        text_less("hash"@, "short_url"@),
        text_less("hash"@, "sk"@),
        text_less("password"@, "short_url"@),
        text_less("password"@, "sk"@),
        text_less("short_url"@, "sk"@),
        text_less("hash"@, "inline"@),
        text_less("hash"@, "passToken"@),
        text_less("inline"@, "passToken"@),
        text_less("inline"@, "sk"@),
        text_less("passToken"@, "sk"@),
{
    reveal_strlit("hash");
    reveal_strlit("inline");
    reveal_strlit("passToken");
    reveal_strlit("password");
    reveal_strlit("short_url");
    reveal_strlit("sk");
    reveal_with_fuel(text_less, 3);
}

/// A field with a text.
fn text_field(name: &str, text: &str) -> (field: (String, Field))
    ensures
        field.0@ == name@,
        field.1@ == JsonView::Str(text@),
{
    (name.to_string(), Field::Text(text.to_string()))
}

/// The body of the call that checks a password. The server reads it as the record.
pub fn password_body(hash: &str, password: &str, short_url: &str, sk: &str) -> (body: String)
    ensures
        body@ == rendered_json(password_record(hash@, password@, short_url@, sk@)),
        reads_as(body@, password_record(hash@, password@, short_url@, sk@)),
        parsed_json(body@) matches Ok(v) && v.at("hash"@).as_str() == Some(hash@) && v.at(
            "password"@,
        ).as_str() == Some(password@) && v.at("short_url"@).as_str() == Some(short_url@) && v.at(
            "sk"@,
        ).as_str() == Some(sk@),
{
    let mut fields: Vec<(String, Field)> = Vec::new();
    fields.push(text_field("hash", hash));
    fields.push(text_field("password", password));
    fields.push(text_field("short_url", short_url));
    fields.push(text_field("sk", sk));
    proof {
        lemma_names();
        let view = fields_view(fields@);
        assert(JsonView::Object(view) == password_record(hash@, password@, short_url@, sk@)) by {
            assert(view =~= seq![
                ("hash"@, JsonView::Str(hash@)),
                ("password"@, JsonView::Str(password@)),
                ("short_url"@, JsonView::Str(short_url@)),
                ("sk"@, JsonView::Str(sk@)),
            ]);
        }
        assert(names_ascend(view));
        law_password_record_holds(hash@, password@, short_url@, sk@);
    }
    record_text(fields)
}

/// The body of the call that gives the direct link. The server reads it as the record.
pub fn link_body(hash: &str, sk: &str, pass_token: Option<&str>) -> (body: String)
    ensures
        body@ == rendered_json(link_record(hash@, sk@, str_of(pass_token))),
        reads_as(body@, link_record(hash@, sk@, str_of(pass_token))),
        parsed_json(body@) matches Ok(v) && v.at("hash"@).as_str() == Some(hash@) && v.at(
            "sk"@,
        ).as_str() == Some(sk@) && v.at("inline"@).as_bool() == Some(false) && v.at(
            "passToken"@,
        ).as_str() == str_of(pass_token),
{
    let mut fields: Vec<(String, Field)> = Vec::new();
    fields.push(text_field("hash", hash));
    fields.push(("inline".to_string(), Field::Flag(false)));
    if let Some(token) = pass_token {
        fields.push(text_field("passToken", token));
    }
    fields.push(text_field("sk", sk));
    proof {
        lemma_names();
        let view = fields_view(fields@);
        match pass_token {
            Some(token) => {
                assert(view =~= seq![
                    ("hash"@, JsonView::Str(hash@)),
                    ("inline"@, JsonView::Bool(false)),
                    ("passToken"@, JsonView::Str(token@)),
                    ("sk"@, JsonView::Str(sk@)),
                ]);
            },
            None => {
                assert(view =~= seq![
                    ("hash"@, JsonView::Str(hash@)),
                    ("inline"@, JsonView::Bool(false)),
                    ("sk"@, JsonView::Str(sk@)),
                ]);
            },
        }
        assert(names_ascend(view));
        law_link_record_holds(hash@, sk@, str_of(pass_token));
    }
    record_text(fields)
}

// ---------------------------------------------------------------- replies

/// The session key with which a call is to be made once more: where the first attempt is
/// answered that the key was wrong, and a new one is given.
pub open spec fn new_sk(v: JsonView, attempt: nat) -> Option<Seq<char>> {
    if attempt == 0 && v.at("wrongSk"@).as_bool() == Some(true) {
        v.at("newSk"@).as_str()
    } else {
        None
    }
}

/// The session key with which a call is to be made once more. Only the first attempt is
/// repeated.
pub fn retry_sk(v: &Json, attempt: usize) -> (sk: Option<String>)
    ensures
        text_of(sk) == new_sk(v@, attempt as nat),
{
    if attempt == 0 {
        if let Some(wrong) = v.at("wrongSk").as_bool() {
            if wrong {
                return owned(v.at("newSk").as_str());
            }
        }
    }
    None
}

/// What a reply asks for or gives. Texts are of type `S`: `String` in code, `Seq<char>` in
/// contracts.
#[derive(Debug, PartialEq, Eq)]
pub enum Answer<S> {
    /// What the call was made for.
    Granted(S),
    /// The session key with which the call is to be made once more.
    Retry(S),
    /// The call failed.
    Refused(Failure<S>),
}

impl View for Answer<String> {
    type V = Answer<Seq<char>>;

    open spec fn view(&self) -> Answer<Seq<char>> {
        match self {
            Answer::Granted(s) => Answer::Granted(s@),
            Answer::Retry(s) => Answer::Retry(s@),
            Answer::Refused(f) => Answer::Refused(f@),
        }
    }
}

/// What the reply `v`, whose compact text is `text`, to the check of a password means: the
/// token it holds, or one more attempt, or the refusal.
pub open spec fn password_answer(v: JsonView, text: Seq<char>, attempt: nat) -> Answer<Seq<char>> {
    if v.at("token"@).as_str() is Some {
        Answer::Granted(v.at("token"@).as_str()->0)
    } else if new_sk(v, attempt) is Some {
        Answer::Retry(new_sk(v, attempt)->0)
    } else if v.at("data"@).at("code"@).as_i64() == Some(ERR_INVALID_PASSWORD) {
        Answer::Refused(Failure::WrongPassword)
    } else {
        Answer::Refused(Failure::CheckRefused { reply: truncated(text, QUOTED as nat) })
    }
}

/// What the reply `v`, whose compact text is `text`, to the request of a direct link means:
/// the link it holds, or one more attempt, or the refusal.
pub open spec fn link_answer(v: JsonView, text: Seq<char>, attempt: nat) -> Answer<Seq<char>> {
    if v.at("data"@).at("url"@).as_str() is Some {
        Answer::Granted(v.at("data"@).at("url"@).as_str()->0)
    } else if new_sk(v, attempt) is Some {
        Answer::Retry(new_sk(v, attempt)->0)
    } else if v.at("data"@).at("code"@).as_i64() == Some(ERR_PASSWORD_REQUIRED) {
        Answer::Refused(Failure::PasswordNeeded)
    } else {
        Answer::Refused(Failure::LinkRefused { reply: truncated(text, QUOTED as nat) })
    }
}

/// Whether the `data.code` of a reply is `code`.
fn has_code(v: &Json, code: i64) -> (same: bool)
    ensures
        same == (v@.at("data"@).at("code"@).as_i64() == Some(code)),
{
    match v.at("data").at("code").as_i64() {
        Some(c) => c == code,
        None => false,
    }
}

/// What a reply to the check of a password means.
pub fn check_password(reply: &Reply, attempt: usize) -> (answer: Answer<String>)
    ensures
        answer@ == password_answer(reply.json@, reply.text@, attempt as nat),
{
    let v = &reply.json;
    if let Some(token) = v.at("token").as_str() {
        return Answer::Granted(token.to_string());
    }
    if let Some(sk) = retry_sk(v, attempt) {
        return Answer::Retry(sk);
    }
    if has_code(v, ERR_INVALID_PASSWORD) {
        return Answer::Refused(Failure::WrongPassword);
    }
    let quote = truncate(reply.text.as_str(), QUOTED).to_string();
    Answer::Refused(Failure::CheckRefused { reply: quote })
}

/// What a reply to the request of a direct link means.
pub fn download_url(reply: &Reply, attempt: usize) -> (answer: Answer<String>)
    ensures
        answer@ == link_answer(reply.json@, reply.text@, attempt as nat),
{
    let v = &reply.json;
    if let Some(url) = v.at("data").at("url").as_str() {
        return Answer::Granted(url.to_string());
    }
    if let Some(sk) = retry_sk(v, attempt) {
        return Answer::Retry(sk);
    }
    if has_code(v, ERR_PASSWORD_REQUIRED) {
        return Answer::Refused(Failure::PasswordNeeded);
    }
    let quote = truncate(reply.text.as_str(), QUOTED).to_string();
    Answer::Refused(Failure::LinkRefused { reply: quote })
}

// ---------------------------------------------------------------- laws

/// Only a first attempt is repeated: the answer to any later one is what the call was made
/// for or a refusal.
pub proof fn law_one_retry(v: JsonView, text: Seq<char>, attempt: nat)
    ensures
        password_answer(v, text, attempt) is Retry ==> attempt == 0,
        link_answer(v, text, attempt) is Retry ==> attempt == 0,
{
}

/// The names that records use differ from one another.
proof fn lemma_names_differ()
    ensures
        "hash"@.len() == 4,
        "password"@.len() == 8,
        "short_url"@.len() == 9,
        "sk"@.len() == 2,
        "inline"@.len() == 6,
        "passToken"@.len() == 9,
{
    reveal_strlit("hash");
    reveal_strlit("inline");
    reveal_strlit("passToken");
    reveal_strlit("password");
    reveal_strlit("short_url");
    reveal_strlit("sk");
}

/// The record of a password check holds the hash, the password, the path of the link and the
/// session key, each whole and under its own name, and nothing else.
pub proof fn law_password_record_holds(
    hash: Seq<char>,
    password: Seq<char>,
    short_url: Seq<char>,
    sk: Seq<char>,
)
    ensures
        ({
            let v = password_record(hash, password, short_url, sk);
            &&& v.at("hash"@).as_str() == Some(hash)
            &&& v.at("password"@).as_str() == Some(password)
            &&& v.at("short_url"@).as_str() == Some(short_url)
            &&& v.at("sk"@).as_str() == Some(sk)
            &&& v matches JsonView::Object(members) && members.len() == 4
        }),
{
    lemma_names_differ();
    reveal_with_fuel(lookup, 5);
}

/// The record that asks for a direct link holds the hash, the session key and the wish not to
/// show the file inline; it holds the token of a password exactly where there is one, and
/// nothing else.
pub proof fn law_link_record_holds(
    hash: Seq<char>,
    sk: Seq<char>,
    pass_token: Option<Seq<char>>,
)
    ensures
        ({
            let v = link_record(hash, sk, pass_token);
            &&& v.at("hash"@).as_str() == Some(hash)
            &&& v.at("sk"@).as_str() == Some(sk)
            &&& v.at("inline"@).as_bool() == Some(false)
            &&& v.at("passToken"@).as_str() == pass_token
            &&& pass_token is None ==> v.at("passToken"@) is Null
            &&& v matches JsonView::Object(members) && members.len() == (if pass_token is Some {
                4int
            } else {
                3int
            })
        }),
{
    lemma_names_differ();
    reveal_with_fuel(lookup, 5);
}

/// A new session key is taken from the reply to a first attempt that says that the key was
/// wrong, and from no other.
pub proof fn law_new_sk(v: JsonView, attempt: nat, sk: Seq<char>)
    ensures
        new_sk(v, attempt) == Some(sk) <==> attempt == 0 && v.at("wrongSk"@) == JsonView::Bool(true)
            && v.at("newSk"@) == JsonView::Str(sk),
{
}

/// A reply to the check of a password grants the token in it, whatever else it holds. Without
/// one, the first attempt is made again with a new session key where the reply brings one; else
/// the code 309 means a wrong password, and any other reply is quoted, cut to 300 characters.
pub proof fn law_password_answer(v: JsonView, text: Seq<char>, attempt: nat, given: Seq<char>)
    ensures
        password_answer(v, text, attempt) == Answer::Granted(given) <==> v.at("token"@)
            == JsonView::Str(given),
        password_answer(v, text, attempt) == Answer::Retry(given) <==> !(v.at("token"@) is Str)
            && attempt == 0 && v.at("wrongSk"@) == JsonView::Bool(true) && v.at("newSk"@)
            == JsonView::Str(given),
        password_answer(v, text, attempt) matches Answer::Refused(failure) ==> {
            &&& v.at("data"@).at("code"@).as_i64() == Some(309i64) ==> failure
                == Failure::<Seq<char>>::WrongPassword
            &&& v.at("data"@).at("code"@).as_i64() != Some(309i64) ==> (failure matches
                Failure::CheckRefused { reply } && reply.is_prefix_of(text) && reply.len() == (
            if text.len() < 300 {
                text.len()
            } else {
                300
            }))
        },
{
    law_cut_is_beginning(text, 300);
}

/// A reply to the request of a direct link grants the link in it, whatever else it holds.
/// Without one, the first attempt is made again with a new session key where the reply brings
/// one; else the code 317 means that a password is needed, and any other reply is quoted, cut
/// to 300 characters.
pub proof fn law_link_answer(v: JsonView, text: Seq<char>, attempt: nat, given: Seq<char>)
    ensures
        link_answer(v, text, attempt) == Answer::Granted(given) <==> v.at("data"@).at("url"@)
            == JsonView::Str(given),
        link_answer(v, text, attempt) == Answer::Retry(given) <==> !(v.at("data"@).at("url"@) is
            Str) && attempt == 0 && v.at("wrongSk"@) == JsonView::Bool(true) && v.at("newSk"@)
            == JsonView::Str(given),
        link_answer(v, text, attempt) matches Answer::Refused(failure) ==> {
            &&& v.at("data"@).at("code"@).as_i64() == Some(317i64) ==> failure
                == Failure::<Seq<char>>::PasswordNeeded
            &&& v.at("data"@).at("code"@).as_i64() != Some(317i64) ==> (failure matches
                Failure::LinkRefused { reply } && reply.is_prefix_of(text) && reply.len() == (
            if text.len() < 300 {
                text.len()
            } else {
                300
            }))
        },
{
    law_cut_is_beginning(text, 300);
}

/// What contracts say of an answer they say of its own text or failure.
pub proof fn law_answer_is_its_text(text: String, failure: Failure<String>)
    ensures
        Answer::Granted(text)@ == Answer::Granted(text@),
        Answer::Retry(text)@ == Answer::Retry(text@),
        Answer::Refused(failure)@ == Answer::Refused(failure@),
{
}

} // verus!

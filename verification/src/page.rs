//! The web page of a public link: the JSON that it carries for its own scripts, and what
//! that JSON says of the resource behind the link.

use vstd::prelude::*;

use crate::failure::Failure;
use crate::json::{lookup, parse_json, parsed_json, read_err, reads_as, Json, JsonView};
use crate::text::{
    chars_of, contains_text, find, find_from, find_text, is_white, law_trimmed_is_core,
    lemma_find_from, lemma_find_is, occurs_at, same_text, str_of, string_of, text_of, trim_bounds,
    trimmed,
};

verus! {

/// What stands right before the store-prefetch in a page.
pub const PREFETCH_MARK: &'static str = "id=\"store-prefetch\">";

/// What stands right behind the store-prefetch in a page.
pub const PREFETCH_END: &'static str = "</script>";

/// The identifier of the resource in a page that is shown without access to the contents.
pub const PASSWORD_STUB: &'static str = "password-protected";

// ---------------------------------------------------------------- the store-prefetch

/// The text of the store-prefetch of a page: what stands between the first mark and the
/// first end behind it, without white space at either end.
pub open spec fn prefetch_text(html: Seq<char>) -> Result<Seq<char>, Failure<Seq<char>>> {
    match find(html, PREFETCH_MARK@) {
        None => Err(Failure::PrefetchMissing),
        Some(i) => {
            let rest = html.skip(i + PREFETCH_MARK@.len());
            match find(rest, PREFETCH_END@) {
                None => Err(Failure::PrefetchTorn),
                Some(j) => Ok(trimmed(rest.take(j))),
            }
        },
    }
}

/// The document in the store-prefetch of a page.
pub open spec fn prefetch_of(html: Seq<char>) -> Result<JsonView, Failure<Seq<char>>> {
    match prefetch_text(html) {
        Err(failure) => Err(failure),
        Ok(text) => match parsed_json(text) {
            Ok(json) => Ok(json),
            Err(cause) => Err(Failure::PrefetchMalformed { cause }),
        },
    }
}

/// A search behind a position is a search in what is left when all before it is dropped.
proof fn lemma_find_in_rest(s: Seq<char>, pat: Seq<char>, from: int)
    requires
        0 <= from <= s.len(),
    ensures
        match find(s.skip(from), pat) {
            Some(j) => find_from(s, pat, from) == Some(from + j),
            None => find_from(s, pat, from) is None,
        },
{
    let rest = s.skip(from);
    lemma_find_from(rest, pat, 0);
    lemma_find_from(s, pat, from);
    assert forall|j: int| 0 <= j implies occurs_at(rest, pat, j) == occurs_at(s, pat, from + j) by {
        if j + pat.len() <= rest.len() {
            assert(rest.subrange(j, j + pat.len()) =~= s.subrange(from + j, from + j + pat.len()));
        }
    }
    match find(rest, pat) {
        Some(j) => {
            assert forall|k: int| from <= k < from + j implies !occurs_at(s, pat, k) by {
                assert(!occurs_at(rest, pat, k - from));
            }
            lemma_find_is(s, pat, from, from + j);
        },
        None => {
            if let Some(i) = find_from(s, pat, from) {
                assert(occurs_at(rest, pat, i - from));
            }
        },
    }
}

/// The store-prefetch text of a page, cut out and trimmed.
pub fn cut_store_prefetch(html: &str) -> (text: Result<String, Failure<String>>)
    ensures
        match text {
            Ok(t) => prefetch_text(html@) == Ok::<Seq<char>, Failure<Seq<char>>>(t@),
            Err(f) => prefetch_text(html@) == Err::<Seq<char>, Failure<Seq<char>>>(f@),
        },
{
    let chars = chars_of(html);
    let mark = chars_of(PREFETCH_MARK);
    match find_text(&chars, &mark, 0) {
        None => Err(Failure::PrefetchMissing),
        Some(i) => {
            proof {
                lemma_find_from(html@, mark@, 0);
                assert(i + mark.len() <= chars.len());
            }
            let start: usize = i + mark.len();
            let ghost rest = html@.skip(start as int);
            proof {
                lemma_find_in_rest(html@, PREFETCH_END@, start as int);
                lemma_find_from(html@, PREFETCH_END@, start as int);
            }
            match find_text(&chars, &chars_of(PREFETCH_END), start) {
                None => Err(Failure::PrefetchTorn),
                Some(end) => {
                    assert(rest.take(end - start) == chars@.subrange(start as int, end as int));
                    let bounds = trim_bounds(&chars, start, end);
                    Ok(string_of(&chars, bounds.0, bounds.1))
                },
            }
        },
    }
}

/// The document in the store-prefetch of a page.
pub fn extract_store_prefetch(html: &str) -> (state: Result<Json, Failure<String>>)
    ensures
        match state {
            Ok(json) => prefetch_of(html@) == Ok::<JsonView, Failure<Seq<char>>>(json@),
            Err(f) => prefetch_of(html@) == Err::<JsonView, Failure<Seq<char>>>(f@),
        },
{
    match cut_store_prefetch(html) {
        Err(failure) => Err(failure),
        Ok(text) => match parse_json(text.as_str()) {
            Ok(json) => Ok(json),
            Err(cause) => Err(Failure::PrefetchMalformed { cause }),
        },
    }
}

// ---------------------------------------------------------------- the resource

/// What the store-prefetch says of a public link. Texts are of type `S`: `String` in code,
/// `Seq<char>` in contracts.
#[derive(Debug, PartialEq, Eq)]
pub struct Page<S> {
    /// The session key that calls of the internal API carry.
    pub sk: S,
    /// The hash that names the resource.
    pub hash: S,
    /// The contents are behind a password.
    pub locked: bool,
    /// The name of the resource, where it is shown.
    pub name: Option<S>,
    /// The kind of the resource, where it is shown.
    pub kind: Option<S>,
    /// The size of the resource, where it is shown.
    pub size: Option<u64>,
}

impl View for Page<String> {
    type V = Page<Seq<char>>;

    open spec fn view(&self) -> Page<Seq<char>> {
        Page {
            sk: self.sk@,
            hash: self.hash@,
            locked: self.locked,
            name: text_of(self.name),
            kind: text_of(self.kind),
            size: self.size,
        }
    }
}

/// The resource, or the root, is the stub that stands for a resource behind a password.
pub open spec fn is_locked(state: JsonView, resource: JsonView) -> bool {
    ||| state.at("rootResourceId"@).as_str() == Some(PASSWORD_STUB@)
    ||| resource.at("id"@).as_str() == Some(PASSWORD_STUB@)
}

/// What a store-prefetch says of a link: the session key of the environment, and the facts
/// on the first of the resources.
pub open spec fn page_of(state: JsonView) -> Result<Page<Seq<char>>, Failure<Seq<char>>> {
    match state.at("environment"@).at("sk"@).as_str() {
        None => Err(Failure::SkMissing),
        Some(sk) => match state.at("resources"@).first_value() {
            None => Err(Failure::ResourcesMissing),
            Some(resource) => match resource.at("hash"@).as_str() {
                None => Err(Failure::HashMissing),
                Some(hash) => Ok(
                    Page {
                        sk,
                        hash,
                        locked: is_locked(state, resource),
                        name: resource.at("name"@).as_str(),
                        kind: resource.at("type"@).as_str(),
                        size: resource.at("meta"@).at("size"@).as_u64(),
                    },
                ),
            },
        },
    }
}

/// An optional slice as an optional string of its own.
pub(crate) fn owned(s: Option<&str>) -> (text: Option<String>)
    ensures
        text_of(text) == str_of(s),
{
    match s {
        Some(t) => Some(t.to_string()),
        None => None,
    }
}

/// Whether a JSON value is the string `text`.
fn is_text(json: &Json, text: &str) -> (same: bool)
    ensures
        same == (json@.as_str() == Some(text@)),
{
    match json.as_str() {
        Some(s) => same_text(s, text),
        None => false,
    }
}

/// Reads from a store-prefetch what the resolution of a link needs.
pub fn read_page(state: &Json) -> (page: Result<Page<String>, Failure<String>>)
    ensures
        match page {
            Ok(p) => page_of(state@) == Ok::<Page<Seq<char>>, Failure<Seq<char>>>(p@),
            Err(f) => page_of(state@) == Err::<Page<Seq<char>>, Failure<Seq<char>>>(f@),
        },
{
    let sk = match state.at("environment").at("sk").as_str() {
        Some(s) => s.to_string(),
        None => return Err(Failure::SkMissing),
    };
    let resource = match state.at("resources").first_value() {
        Some(r) => r,
        None => return Err(Failure::ResourcesMissing),
    };
    let hash = match resource.at("hash").as_str() {
        Some(s) => s.to_string(),
        None => return Err(Failure::HashMissing),
    };
    let locked = is_text(state.at("rootResourceId"), PASSWORD_STUB) || is_text(
        resource.at("id"),
        PASSWORD_STUB,
    );
    Ok(
        Page {
            sk,
            hash,
            locked,
            name: owned(resource.at("name").as_str()),
            kind: owned(resource.at("type").as_str()),
            size: resource.at("meta").at("size").as_u64(),
        },
    )
}

// ---------------------------------------------------------------- laws

/// The first place of a pattern stays the first when text is added at the end.
proof fn lemma_find_survives(s: Seq<char>, pat: Seq<char>, tail: Seq<char>)
    requires
        find(s, pat) is Some,
    ensures
        find(s + tail, pat) == find(s, pat),
{
    lemma_find_from(s, pat, 0);
    let i = find(s, pat)->0;
    let whole = s + tail;
    assert(whole.subrange(i, i + pat.len()) =~= s.subrange(i, i + pat.len()));
    assert forall|j: int| 0 <= j < i implies !occurs_at(whole, pat, j) by {
        assert(!occurs_at(s, pat, j));
        assert(whole.subrange(j, j + pat.len()) =~= s.subrange(j, j + pat.len()));
    }
    lemma_find_is(whole, pat, 0, i);
}

/// A page gives back the text that was framed in it: whatever stands before the first mark
/// and behind the end, the store-prefetch is what stands between them, trimmed. The mark
/// must not occur earlier than where it was put, nor the end inside the text.
pub proof fn law_prefetch_is_framed_text(before: Seq<char>, text: Seq<char>, after: Seq<char>)
    requires
        find(before + PREFETCH_MARK@, PREFETCH_MARK@) == Some(before.len() as int),
        find(text + PREFETCH_END@, PREFETCH_END@) == Some(text.len() as int),
    ensures
        prefetch_text(before + PREFETCH_MARK@ + text + PREFETCH_END@ + after) == Ok::<
            Seq<char>,
            Failure<Seq<char>>,
        >(trimmed(text)),
{
    let html = before + PREFETCH_MARK@ + text + PREFETCH_END@ + after;
    let head = before + PREFETCH_MARK@;
    let rest = text + PREFETCH_END@ + after;
    lemma_find_survives(head, PREFETCH_MARK@, rest);
    assert(html =~= head + rest);
    assert(html.skip(head.len() as int) =~= rest);
    lemma_find_survives(text + PREFETCH_END@, PREFETCH_END@, after);
    assert(rest.take(text.len() as int) =~= text);
}

/// The store-prefetch of a page is missing exactly where the page does not hold the mark, and
/// torn where it holds no end behind the first mark. Else it is what was framed by the tags,
/// without the white space around it.
pub proof fn law_prefetch_between_tags(
    before: Seq<char>,
    left: Seq<char>,
    core: Seq<char>,
    right: Seq<char>,
    after: Seq<char>,
)
    requires
        find(before + "id=\"store-prefetch\">"@, "id=\"store-prefetch\">"@) == Some(
            before.len() as int,
        ),
        forall|i: int| 0 <= i < left.len() ==> is_white(left[i]),
        forall|i: int| 0 <= i < right.len() ==> is_white(right[i]),
        core.len() > 0 ==> !is_white(core.first()) && !is_white(core.last()),
    ensures
        find(left + core + right + "</script>"@, "</script>"@) == Some(
            (left + core + right).len() as int,
        ) ==> prefetch_text(
            before + "id=\"store-prefetch\">"@ + (left + core + right) + "</script>"@ + after,
        ) == Ok::<Seq<char>, Failure<Seq<char>>>(core),
        !contains_text(after, "</script>"@) ==> prefetch_text(
            before + "id=\"store-prefetch\">"@ + after,
        ) == Err::<Seq<char>, Failure<Seq<char>>>(Failure::PrefetchTorn),
        prefetch_text(after) == Err::<Seq<char>, Failure<Seq<char>>>(Failure::PrefetchMissing)
            <==> !contains_text(after, "id=\"store-prefetch\">"@),
{
    let text = left + core + right;
    law_trimmed_is_core(left, core, right);
    if find(text + "</script>"@, "</script>"@) == Some(text.len() as int) {
        law_prefetch_is_framed_text(before, text, after);
    }
    let head = before + PREFETCH_MARK@;
    lemma_find_survives(head, PREFETCH_MARK@, after);
    assert((head + after).skip(head.len() as int) =~= after);
    lemma_find_from(after, PREFETCH_END@, 0);
    lemma_find_from(after, PREFETCH_MARK@, 0);
}

/// The document of a page is what the text of its store-prefetch reads as. A page without such
/// a text fails as the text does, and a text that is no document fails with the cause.
pub proof fn law_prefetch_is_read(html: Seq<char>, text: Seq<char>, json: JsonView, cause: Seq<char>)
    ensures
        prefetch_text(html) == Ok::<Seq<char>, Failure<Seq<char>>>(text) ==> {
            &&& reads_as(text, json) ==> prefetch_of(html) == Ok::<JsonView, Failure<Seq<char>>>(
                json,
            )
            &&& parsed_json(text) == read_err(cause) ==> prefetch_of(html) == Err::<
                JsonView,
                Failure<Seq<char>>,
            >(Failure::PrefetchMalformed { cause })
        },
        prefetch_text(html) matches Err(failure) ==> prefetch_of(html) == Err::<
            JsonView,
            Failure<Seq<char>>,
        >(failure),
{
}

/// What contracts say of a page they say of the page's own facts.
pub proof fn law_page_is_its_facts(page: Page<String>)
    ensures
        page@.sk == page.sk@,
        page@.hash == page.hash@,
        page@.locked == page.locked,
        page.name matches Some(name) ==> page@.name == Some(name@),
        page.name is None ==> page@.name is None,
        page.kind matches Some(kind) ==> page@.kind == Some(kind@),
        page.kind is None ==> page@.kind is None,
        page@.size == page.size,
{
}

/// The facts of a page are the members of the first resource, unchanged, whatever they are;
/// it is locked exactly where the root or that resource is the stub for a password.
pub proof fn law_page_shows_first_resource(
    state: JsonView,
    sk: Seq<char>,
    resources: Seq<(Seq<char>, JsonView)>,
    hash: Seq<char>,
)
    requires
        state.at("environment"@).at("sk"@) == JsonView::Str(sk),
        state.at("resources"@) == JsonView::Object(resources),
        resources.len() > 0,
        resources[0].1.at("hash"@) == JsonView::Str(hash),
    ensures
        page_of(state) matches Ok(page) && {
            let resource = resources[0].1;
            &&& page.sk == sk
            &&& page.hash == hash
            &&& forall|name: Seq<char>|
                resource.at("name"@) == JsonView::Str(name) <==> page.name == Some(name)
            &&& forall|kind: Seq<char>|
                resource.at("type"@) == JsonView::Str(kind) <==> page.kind == Some(kind)
            &&& resource.at("meta"@).at("size"@) matches JsonView::Number { unsigned, .. }
                ==> page.size == unsigned
            &&& !(resource.at("meta"@).at("size"@) is Number) ==> page.size is None
            &&& page.locked <==> state.at("rootResourceId"@) == JsonView::Str(
                "password-protected"@,
            ) || resource.at("id"@) == JsonView::Str("password-protected"@)
        },
{
}

/// A store-prefetch without a session key, without a resource, or whose first resource has no
/// hash gives no page; the failure names the first of these that is missing.
pub proof fn law_page_faults(state: JsonView)
    ensures
        page_of(state) == Err::<Page<Seq<char>>, Failure<Seq<char>>>(Failure::SkMissing)
            <==> !(state.at("environment"@).at("sk"@) is Str),
        page_of(state) == Err::<Page<Seq<char>>, Failure<Seq<char>>>(Failure::ResourcesMissing)
            <==> state.at("environment"@).at("sk"@) is Str && !(state.at("resources"@) matches
            JsonView::Object(resources) && resources.len() > 0),
        page_of(state) == Err::<Page<Seq<char>>, Failure<Seq<char>>>(Failure::HashMissing)
            <==> state.at("environment"@).at("sk"@) is Str && (state.at("resources"@) matches
            JsonView::Object(resources) && resources.len() > 0 && !(resources[0].1.at("hash"@) is
            Str)),
{
}

/// The names of the members that a store-prefetch is read by.
proof fn lemma_prefetch_names()
    ensures
        "environment"@ != "resources"@,
        "environment"@ != "rootResourceId"@,
        "resources"@ != "rootResourceId"@,
        "hash"@ != "id"@,
        "hash"@ != "meta"@,
        "hash"@ != "name"@,
        "hash"@ != "type"@,
        "id"@ != "meta"@,
        "id"@ != "name"@,
        "id"@ != "type"@,
        "meta"@ != "name"@,
        "meta"@ != "type"@,
        "name"@ != "type"@,
{
    reveal_strlit("environment");
    reveal_strlit("resources");
    reveal_strlit("rootResourceId");
    reveal_strlit("hash");
    reveal_strlit("id");
    reveal_strlit("meta");
    reveal_strlit("name");
    reveal_strlit("type");
    assert("environment"@.len() == 11 && "resources"@.len() == 9 && "rootResourceId"@.len() == 14);
    assert("id"@.len() == 2 && "hash"@.len() == 4 && "meta"@.len() == 4);
    assert("name"@.len() == 4 && "type"@.len() == 4);
    assert("hash"@[0] == 'h' && "meta"@[0] == 'm' && "name"@[0] == 'n' && "type"@[0] == 't');
}

/// A store-prefetch gives back what it was built from: the session key, and the hash, name,
/// type and size of its first resource, be it a file or a folder.
pub proof fn law_page_of_document(
    sk: Seq<char>,
    root: Seq<char>,
    key: Seq<char>,
    id: Seq<char>,
    hash: Seq<char>,
    name: Seq<char>,
    kind: Seq<char>,
    size: JsonView,
    others: Seq<(Seq<char>, JsonView)>,
)
    requires
        size is Number,
    ensures
        ({
            let resource = JsonView::Object(
                seq![
                    ("hash"@, JsonView::Str(hash)),
                    ("id"@, JsonView::Str(id)),
                    ("meta"@, JsonView::Object(seq![("size"@, size)])),
                    ("name"@, JsonView::Str(name)),
                    ("type"@, JsonView::Str(kind)),
                ],
            );
            let state = JsonView::Object(
                seq![
                    ("environment"@, JsonView::Object(seq![("sk"@, JsonView::Str(sk))])),
                    ("resources"@, JsonView::Object(seq![(key, resource)] + others)),
                    ("rootResourceId"@, JsonView::Str(root)),
                ],
            );
            page_of(state) == Ok::<Page<Seq<char>>, Failure<Seq<char>>>(
                Page {
                    sk,
                    hash,
                    locked: root == "password-protected"@ || id == "password-protected"@,
                    name: Some(name),
                    kind: Some(kind),
                    size: size->unsigned,
                },
            )
        }),
{
    lemma_prefetch_names();
    reveal_with_fuel(lookup, 6);
    let members = seq![
        ("hash"@, JsonView::Str(hash)),
        ("id"@, JsonView::Str(id)),
        ("meta"@, JsonView::Object(seq![("size"@, size)])),
        ("name"@, JsonView::Str(name)),
        ("type"@, JsonView::Str(kind)),
    ];
    let resource = JsonView::Object(members);
    let resources = seq![(key, resource)] + others;
    let state = JsonView::Object(
        seq![
            ("environment"@, JsonView::Object(seq![("sk"@, JsonView::Str(sk))])),
            ("resources"@, JsonView::Object(resources)),
            ("rootResourceId"@, JsonView::Str(root)),
        ],
    );
    assert(state.at("environment"@).at("sk"@) == JsonView::Str(sk));
    assert(state.at("resources"@) == JsonView::Object(resources));
    assert(state.at("rootResourceId"@) == JsonView::Str(root));
    assert(resources[0].1 == resource);
    assert(resource.at("hash"@) == JsonView::Str(hash));
    assert(resource.at("id"@) == JsonView::Str(id));
    assert(resource.at("meta"@).at("size"@) == size);
    assert(resource.at("name"@) == JsonView::Str(name));
    assert(resource.at("type"@) == JsonView::Str(kind));
}

/// A resource that shows no more than its hash has neither a name nor a type nor a size.
pub proof fn law_page_of_bare_document(sk: Seq<char>, key: Seq<char>, hash: Seq<char>)
    ensures
        page_of(
            JsonView::Object(
                seq![
                    ("environment"@, JsonView::Object(seq![("sk"@, JsonView::Str(sk))])),
                    (
                        "resources"@,
                        JsonView::Object(
                            seq![(key, JsonView::Object(seq![("hash"@, JsonView::Str(hash))]))],
                        ),
                    ),
                ],
            ),
        ) == Ok::<Page<Seq<char>>, Failure<Seq<char>>>(
            Page { sk, hash, locked: false, name: None, kind: None, size: None },
        ),
{
    lemma_prefetch_names();
    reveal_with_fuel(lookup, 4);
}

} // verus!

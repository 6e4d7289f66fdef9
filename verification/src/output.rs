//! What the user sees of a resolved link: the name of the file it is saved to and the lines
//! that describe it.

use vstd::prelude::*;

use crate::json::JsonView;
use crate::page::{law_page_of_document, page_of};
use crate::resolve::web_resolved;
use crate::session::Resolved;
use crate::text::{
    chars_of, decimal, decimal_text, is_white, law_trimmed_bounds, law_trimmed_is_core, occurs_at,
    same_text, string_of, trim_bounds, trimmed, trimmed_end, trimmed_start,
};

verus! {

/// The name of a file whose own name cannot be used.
pub const DEFAULT_NAME: &'static str = "download.bin";

// ---------------------------------------------------------------- file names

/// A character that a file name cannot hold.
pub open spec fn is_forbidden(c: char) -> bool {
    c == '/' || c == '\\' || c == '\0'
}

/// `s` with every forbidden character replaced by an underscore.
pub open spec fn replaced(s: Seq<char>) -> Seq<char> {
    s.map_values(
        |c: char|
            if is_forbidden(c) {
                '_'
            } else {
                c
            },
    )
}

/// Nothing but dots is left of `s` without the white space around it.
pub open spec fn is_blank(s: Seq<char>) -> bool {
    forall|i: int| 0 <= i < trimmed(s).len() ==> trimmed(s)[i] == '.'
}

/// A name that can stand as a file name: forbidden characters are replaced, and a name that
/// is only dots and white space gives way to the default.
pub open spec fn sanitized(name: Seq<char>) -> Seq<char> {
    let n = replaced(name);
    if is_blank(n) {
        DEFAULT_NAME@
    } else {
        n
    }
}

/// Makes a name fit to be a file name.
pub fn sanitize(name: &str) -> (clean: String)
    ensures
        clean@ == sanitized(name@),
{
    let mut chars = chars_of(name);
    let ghost before = chars@;
    let mut i: usize = 0;
    while i < chars.len()
        invariant
            i <= chars@.len() == before.len(),
            forall|j: int| 0 <= j < i ==> chars@[j] == replaced(before)[j],
            forall|j: int| i <= j < before.len() ==> chars@[j] == before[j],
        decreases chars@.len() - i,
    {
        let c = chars[i];
        if c == '/' || c == '\\' || c == '\0' {
            chars.set(i, '_');
        }
        i = i + 1;
    }
    assert(chars@ =~= replaced(name@));
    let len: usize = chars.len();
    let bounds = trim_bounds(&chars, 0, len);
    assert(chars@.subrange(0, len as int) == chars@);
    let ghost inner = trimmed(chars@);
    let mut k: usize = bounds.0;
    while k < bounds.1
        invariant
            bounds.0 <= k <= bounds.1 <= chars@.len() == len,
            chars@ == replaced(name@),
            inner == trimmed(chars@),
            inner == chars@.subrange(bounds.0 as int, bounds.1 as int),
            forall|j: int| 0 <= j < k - bounds.0 ==> inner[j] == '.',
        decreases bounds.1 - k,
    {
        if chars[k] != '.' {
            assert(inner[k - bounds.0] != '.');
            assert(chars@.subrange(0, len as int) == chars@);
            return string_of(&chars, 0, len);
        }
        assert(inner[k - bounds.0] == '.');
        k = k + 1;
    }
    DEFAULT_NAME.to_string()
}

/// `s` ends with `tail`.
pub open spec fn ends_with(s: Seq<char>, tail: Seq<char>) -> bool {
    occurs_at(s, tail, s.len() - tail.len())
}

/// The name under which a resource arrives: a folder comes as an archive.
pub open spec fn arrival_name(name: Seq<char>, kind: Seq<char>) -> Seq<char> {
    if kind == "dir"@ && !ends_with(name, ".zip"@) {
        name + ".zip"@
    } else {
        name
    }
}

/// The name of the file that a resource is saved to where the user names none.
pub open spec fn file_name(name: Seq<char>, kind: Seq<char>) -> Seq<char> {
    sanitized(arrival_name(name, kind))
}

/// The name of the file that a resource is saved to where the user names none.
pub fn output_name(name: &str, kind: &str) -> (file: String)
    ensures
        file@ == file_name(name@, kind@),
{
    let mut full = name.to_string();
    if same_text(kind, "dir") && !has_ending(name, ".zip") {
        full.append(".zip");
    }
    sanitize(full.as_str())
}

/// Whether `s` ends with `tail`.
fn has_ending(s: &str, tail: &str) -> (has: bool)
    ensures
        has == ends_with(s@, tail@),
{
    let len: usize = s.unicode_len();
    let n: usize = tail.unicode_len();
    if n > len {
        return false;
    }
    same_text(s.substring_char(len - n, len), tail)
}

// ---------------------------------------------------------------- descriptions

/// The texts of a list of strings.
pub open spec fn lines_view(lines: Seq<String>) -> Seq<Seq<char>> {
    lines.map_values(|line: String| line@)
}

/// The line for a fact that may be unknown: none where it is.
pub open spec fn optional_line(label: Seq<char>, fact: Option<Seq<char>>) -> Seq<Seq<char>> {
    match fact {
        Some(text) => seq![label + text],
        None => seq![],
    }
}

/// The lines that describe a resolved link.
pub open spec fn description(res: Resolved<Seq<char>>) -> Seq<Seq<char>> {
    let size = match res.size {
        Some(n) => Some(decimal(n as nat) + " bytes"@),
        None => None,
    };
    seq!["name:   "@ + res.name, "type:   "@ + res.kind] + optional_line("size:   "@, size)
        + optional_line("md5:    "@, res.md5) + optional_line("sha256: "@, res.sha256) + seq![
        "via:    "@ + res.via,
        "href:   "@ + res.href,
    ]
}

/// Adds the line made of a label and a fact.
fn push_line(lines: &mut Vec<String>, label: &str, fact: &str)
    ensures
        lines_view(final(lines)@) == lines_view(old(lines)@).push(label@ + fact@),
{
    let mut line = label.to_string();
    line.append(fact);
    lines.push(line);
    assert(lines_view(lines@) =~= lines_view(old(lines)@).push(label@ + fact@));
}

/// The lines that describe a resolved link.
pub fn info_lines(res: &Resolved<String>) -> (lines: Vec<String>)
    ensures
        lines_view(lines@) == description(res@),
{
    let mut lines: Vec<String> = Vec::new();
    assert(lines_view(lines@) =~= Seq::<Seq<char>>::empty());
    push_line(&mut lines, "name:   ", res.name.as_str());
    push_line(&mut lines, "type:   ", res.kind.as_str());
    if let Some(n) = res.size {
        let mut text = decimal_text(n);
        text.append(" bytes");
        push_line(&mut lines, "size:   ", text.as_str());
    }
    if let Some(hash) = &res.md5 {
        push_line(&mut lines, "md5:    ", hash.as_str());
    }
    if let Some(hash) = &res.sha256 {
        push_line(&mut lines, "sha256: ", hash.as_str());
    }
    push_line(&mut lines, "via:    ", res.via.as_str());
    push_line(&mut lines, "href:   ", res.href.as_str());
    assert(lines_view(lines@) =~= description(res@));
    lines
}

// ---------------------------------------------------------------- laws

/// A text that holds something other than dots and white space is not blank.
proof fn lemma_not_blank(s: Seq<char>, i: int)
    requires
        0 <= i < s.len(),
        s[i] != '.',
        !is_white(s[i]),
    ensures
        !is_blank(s),
{
    lemma_trimmed_start_keeps(s, i);
    let t = trimmed_start(s);
    let k = i - (s.len() - t.len());
    lemma_trimmed_end_keeps(t, k);
    assert(trimmed(s)[k] == s[i]);
}

/// Trimming the start keeps every character from the first that is not white on.
proof fn lemma_trimmed_start_keeps(s: Seq<char>, i: int)
    requires
        0 <= i < s.len(),
        !is_white(s[i]),
    ensures
        trimmed_start(s).len() <= s.len(),
        0 <= i - (s.len() - trimmed_start(s).len()) < trimmed_start(s).len(),
        trimmed_start(s)[i - (s.len() - trimmed_start(s).len())] == s[i],
    decreases s.len(),
{
    if is_white(s[0]) {
        lemma_trimmed_start_keeps(s.drop_first(), i - 1);
    }
}

/// Trimming the end keeps every character up to the last that is not white.
proof fn lemma_trimmed_end_keeps(s: Seq<char>, i: int)
    requires
        0 <= i < s.len(),
        !is_white(s[i]),
    ensures
        i < trimmed_end(s).len() <= s.len(),
        trimmed_end(s)[i] == s[i],
    decreases s.len(),
{
    if is_white(s.last()) {
        lemma_trimmed_end_keeps(s.drop_last(), i);
    }
}

/// The default name needs no cleaning.
proof fn lemma_default_name()
    ensures
        DEFAULT_NAME@.len() > 0,
        forall|i: int| 0 <= i < DEFAULT_NAME@.len() ==> !is_forbidden(DEFAULT_NAME@[i]),
        !is_blank(DEFAULT_NAME@),
{
    reveal_strlit("download.bin");
    lemma_not_blank(DEFAULT_NAME@, 0);
}

/// A sanitized name is not empty, holds no forbidden character and is more than dots and
/// white space.
pub proof fn law_sanitized_is_safe(name: Seq<char>)
    ensures
        sanitized(name).len() > 0,
        forall|i: int| 0 <= i < sanitized(name).len() ==> !is_forbidden(sanitized(name)[i]),
        !is_blank(sanitized(name)),
{
    lemma_default_name();
    let n = replaced(name);
    if n.len() == 0 {
        assert(trimmed(n) == n);
        assert(is_blank(n));
    }
}

/// Sanitizing a name twice changes nothing more.
pub proof fn law_sanitize_is_idempotent(name: Seq<char>)
    ensures
        sanitized(sanitized(name)) == sanitized(name),
{
    law_sanitized_is_safe(name);
    let s = sanitized(name);
    assert(replaced(s) =~= s);
}

/// The file that a folder is saved to ends in `.zip`.
pub proof fn law_folder_is_archive(name: Seq<char>)
    ensures
        ends_with(file_name(name, "dir"@), ".zip"@),
{
    reveal_strlit(".zip");
    let full = arrival_name(name, "dir"@);
    let zip = ".zip"@;
    let at = full.len() - zip.len();
    if !ends_with(name, zip) {
        assert(full.subrange(at, full.len() as int) =~= zip);
    }
    let n = replaced(full);
    assert forall|k: int| 0 <= k < 4 implies full[at + k] == #[trigger] zip[k] by {
        assert(full.subrange(at, at + 4)[k] == full[at + k]);
    }
    assert(n[at + 1] == 'z') by {
        assert(full[at + 1] == zip[1]);
    }
    lemma_not_blank(n, at + 1);
    assert(n.subrange(at, at + 4) =~= zip) by {
        assert forall|k: int| 0 <= k < 4 implies n.subrange(at, at + 4)[k] == zip[k] by {
            assert(full[at + k] == zip[k]);
        }
    }
}

/// A name of dots with white space around them gives way to the default.
pub proof fn law_blank_name_gives_way(left: Seq<char>, dots: Seq<char>, right: Seq<char>)
    requires
        forall|i: int| 0 <= i < left.len() ==> is_white(left[i]),
        forall|i: int| 0 <= i < dots.len() ==> dots[i] == '.',
        forall|i: int| 0 <= i < right.len() ==> is_white(right[i]),
    ensures
        sanitized(left + dots + right) == "download.bin"@,
{
    let name = left + dots + right;
    assert(replaced(name) =~= name);
    law_trimmed_is_core(left, dots, right);
}

/// Any other name keeps its length and every character but three: a slash, a backslash and a
/// zero become underscores. Where it holds none of these, it stays as it is.
pub proof fn law_name_is_kept(name: Seq<char>)
    requires
        forall|i: int, j: int|
            #![trigger name.subrange(i, j)]
            0 <= i <= j <= name.len() ==> exists|k: int|
                0 <= k < name.len() && (if i <= k < j {
                    #[trigger] name[k] != '.'
                } else {
                    !is_white(name[k])
                }),
    ensures
        sanitized(name).len() == name.len(),
        forall|i: int|
            0 <= i < name.len() ==> sanitized(name)[i] == (if #[trigger] name[i] == '/' || name[i]
                == '\\' || name[i] == '\0' {
                '_'
            } else {
                name[i]
            }),
        !name.contains('/') && !name.contains('\\') && !name.contains('\0') ==> sanitized(name)
            == name,
{
    let n = replaced(name);
    if is_blank(n) {
        let (i, j) = law_trimmed_bounds(n);
        let part = name.subrange(i, j);
        let k = choose|k: int|
            0 <= k < name.len() && (if i <= k < j {
                #[trigger] name[k] != '.'
            } else {
                !is_white(name[k])
            });
        if i <= k < j {
            assert(trimmed(n)[k - i] == n[k]);
        } else {
            assert(is_white(n[k]));
        }
    }
    if !name.contains('/') && !name.contains('\\') && !name.contains('\0') {
        assert forall|i: int| 0 <= i < name.len() implies n[i] == name[i] by {
            assert(name.contains(name[i]));
        }
        assert(n =~= name);
    }
}

/// A name that holds any character besides dots and white space is kept in the same way.
pub proof fn law_ordinary_name_is_kept(name: Seq<char>, k: int)
    requires
        0 <= k < name.len(),
        name[k] != '.',
        !is_white(name[k]),
    ensures
        sanitized(name).len() == name.len(),
        forall|i: int|
            0 <= i < name.len() ==> sanitized(name)[i] == (if #[trigger] name[i] == '/' || name[i]
                == '\\' || name[i] == '\0' {
                '_'
            } else {
                name[i]
            }),
        !name.contains('/') && !name.contains('\\') && !name.contains('\0') ==> sanitized(name)
            == name,
{
    assert forall|i: int, j: int|
        #![trigger name.subrange(i, j)]
        0 <= i <= j <= name.len() implies exists|k: int|
        0 <= k < name.len() && (if i <= k < j {
            #[trigger] name[k] != '.'
        } else {
            !is_white(name[k])
        }) by {
        assert(name[k] != '.' && !is_white(name[k]));
    }
    law_name_is_kept(name);
}

/// A text ends with another exactly where it is something with the other behind it.
pub proof fn law_ending_is_behind(s: Seq<char>, tail: Seq<char>)
    ensures
        ends_with(s, tail) <==> exists|stem: Seq<char>| s == #[trigger] (stem + tail),
{
    if ends_with(s, tail) {
        assert(s =~= s.take(s.len() - tail.len()) + tail) by {
            let at = s.len() - tail.len();
            assert(s =~= s.take(at) + s.subrange(at, s.len() as int));
        }
    }
    if exists|stem: Seq<char>| s == #[trigger] (stem + tail) {
        let stem = choose|stem: Seq<char>| s == #[trigger] (stem + tail);
        assert(s.subrange(stem.len() as int, s.len() as int) =~= tail);
    }
}

/// A folder is saved under its name with `.zip` behind it, once: the ending is not added to a
/// name that has it. Whatever is no folder is saved under its own name.
pub proof fn law_only_folders_become_archives(name: Seq<char>, kind: Seq<char>)
    ensures
        kind != "dir"@ ==> file_name(name, kind) == sanitized(name),
        file_name(name + ".zip"@, kind) == sanitized(name + ".zip"@),
        kind == "dir"@ && (forall|stem: Seq<char>| name != #[trigger] (stem + ".zip"@))
            ==> file_name(name, kind) == sanitized(name + ".zip"@),
{
    law_ending_is_behind(name + ".zip"@, ".zip"@);
    law_ending_is_behind(name, ".zip"@);
}

/// A folder with an ordinary name is saved under that name with `.zip` behind it, and a file
/// with an ordinary name is saved under that name.
pub proof fn law_ordinary_file_names(name: Seq<char>, k: int)
    requires
        0 <= k < name.len(),
        name[k] != '.',
        !is_white(name[k]),
        !name.contains('/') && !name.contains('\\') && !name.contains('\0'),
    ensures
        file_name(name, "file"@) == name,
        (forall|stem: Seq<char>| name != #[trigger] (stem + ".zip"@)) ==> file_name(name, "dir"@)
            == name + ".zip"@,
        (exists|stem: Seq<char>| name == #[trigger] (stem + ".zip"@)) ==> file_name(name, "dir"@)
            == name,
{
    reveal_strlit("dir");
    reveal_strlit("file");
    reveal_strlit(".zip");
    assert("dir"@.len() != "file"@.len());
    law_only_folders_become_archives(name, "file"@);
    law_only_folders_become_archives(name, "dir"@);
    law_ordinary_name_is_kept(name, k);
    let full = name + ".zip"@;
    assert(full[k] == name[k]);
    assert forall|c: char| full.contains(c) implies name.contains(c) || ".zip"@.contains(c) by {
        let i = choose|i: int| 0 <= i < full.len() && full[i] == c;
        if i < name.len() {
            assert(name[i] == c);
        } else {
            assert(".zip"@[i - name.len()] == c);
        }
    }
    assert forall|c: char| ".zip"@.contains(c) implies c != '/' && c != '\\' && c != '\0' by {
        let i = choose|i: int| 0 <= i < ".zip"@.len() && ".zip"@[i] == c;
        assert(i == 0 || i == 1 || i == 2 || i == 3);
    }
    law_ordinary_name_is_kept(full, k);
    law_ending_is_behind(name, ".zip"@);
    if exists|stem: Seq<char>| name == #[trigger] (stem + ".zip"@) {
        let stem = choose|stem: Seq<char>| name == #[trigger] (stem + ".zip"@);
        law_only_folders_become_archives(stem, "dir"@);
    }
}

/// A shared folder is saved as an archive, and a shared file as itself: the name and the type
/// that the page of the link shows decide, whatever the direct link says.
pub proof fn law_shared_folder_is_saved_as_archive(
    sk: Seq<char>,
    root: Seq<char>,
    key: Seq<char>,
    id: Seq<char>,
    hash: Seq<char>,
    name: Seq<char>,
    kind: Seq<char>,
    size: JsonView,
    others: Seq<(Seq<char>, JsonView)>,
    href: Seq<char>,
)
    requires
        size is Number,
    ensures
        ({
            let resource = JsonView::Object(
                seq![
                    ("hash"@, JsonView::Str(hash)),
                    ("id"@, JsonView::Str(id)),
                    ("meta"@, JsonView::Object(seq![("size"@, size)])),
                    ("name"@, JsonView::Str(name)),
                    ("type"@, JsonView::Str(kind)),
                ],
            );
            let state = JsonView::Object(
                seq![
                    ("environment"@, JsonView::Object(seq![("sk"@, JsonView::Str(sk))])),
                    ("resources"@, JsonView::Object(seq![(key, resource)] + others)),
                    ("rootResourceId"@, JsonView::Str(root)),
                ],
            );
            &&& page_of(state) matches Ok(page)
            &&& {
                let resolved = web_resolved(page, href);
                &&& resolved.name == name
                &&& resolved.kind == kind
                &&& kind != "dir"@ ==> file_name(resolved.name, resolved.kind) == sanitized(name)
                &&& kind == "dir"@ && (forall|stem: Seq<char>|
                    name != #[trigger] (stem + ".zip"@)) ==> file_name(resolved.name, resolved.kind)
                    == sanitized(name + ".zip"@)
            }
        }),
{
    law_page_of_document(sk, root, key, id, hash, name, kind, size, others);
    law_only_folders_become_archives(name, kind);
}

/// What contracts say of a list of lines they say of its own lines, one for one.
pub proof fn law_lines_are_their_texts(lines: Seq<String>)
    ensures
        lines_view(lines).len() == lines.len(),
        forall|i: int| 0 <= i < lines.len() ==> #[trigger] lines_view(lines)[i] == lines[i]@,
{
}

/// The description of a link has a line for every fact that is known, in a fixed order: the
/// name and the type, then the size and the checksums as far as they are known, then the way
/// and the direct link.
pub proof fn law_description_lists_facts(res: Resolved<Seq<char>>)
    ensures
        ({
            let lines = description(res);
            let a: int = if res.size is Some {
                3
            } else {
                2
            };
            let b: int = if res.md5 is Some {
                a + 1
            } else {
                a
            };
            let c: int = if res.sha256 is Some {
                b + 1
            } else {
                b
            };
            &&& lines.len() == c + 2
            &&& lines[0] == "name:   "@ + res.name
            &&& lines[1] == "type:   "@ + res.kind
            &&& res.size matches Some(n) ==> lines[2] == "size:   "@ + (decimal(n as nat)
                + " bytes"@)
            &&& res.md5 matches Some(sum) ==> lines[a] == "md5:    "@ + sum
            &&& res.sha256 matches Some(sum) ==> lines[b] == "sha256: "@ + sum
            &&& lines[c] == "via:    "@ + res.via
            &&& lines[c + 1] == "href:   "@ + res.href
        }),
{
}

} // verus!

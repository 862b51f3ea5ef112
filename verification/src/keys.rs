//! Which identifiers are accepted, and the names derived from them.
use vstd::prelude::*;
use vstd::string::*;

use crate::number::all_digits;
use crate::text::{
    alphanumeric, chars_of, copy_chars, digit, is_alphanumeric, joined_pair, same_text, starts_with,
    text_of,
};

verus! {

/// A Zotero key: one to 32 ASCII letters and digits.
pub open spec fn is_key(key: Seq<char>) -> bool {
    &&& 0 < key.len() <= 32
    &&& forall|i: int| 0 <= i < key.len() ==> is_alphanumeric(#[trigger] key[i])
}

/// Whether `key` can be a Zotero key.
pub fn valid_key(key: &str) -> (valid: bool)
    ensures
        valid == is_key(key@),
{
    let chars = chars_of(key);
    for i in 0..chars.len()
        invariant
            chars@ == key@,
            forall|j: int| 0 <= j < i ==> is_alphanumeric(#[trigger] chars@[j]),
    {
        if !alphanumeric(chars[i]) {
            return false;
        }
    }
    chars.len() > 0 && chars.len() <= 32
}

/// A Zotero user ID: one to 20 digits.
pub open spec fn is_user_id(user_id: Seq<char>) -> bool {
    0 < user_id.len() <= 20 && all_digits(user_id)
}

/// Whether every character is a digit.
fn only_digits(chars: &Vec<char>) -> (found: bool)
    ensures
        found == all_digits(chars@),
{
    for i in 0..chars.len()
        invariant
            forall|j: int| 0 <= j < i ==> crate::text::is_digit(#[trigger] chars@[j]),
    {
        if !digit(chars[i]) {
            return false;
        }
    }
    true
}

/// Whether `user_id` can be a Zotero user ID.
pub fn valid_user_id(user_id: &str) -> (valid: bool)
    ensures
        valid == is_user_id(user_id@),
{
    let chars = chars_of(user_id);
    chars.len() > 0 && chars.len() <= 20 && only_digits(&chars)
}

/// A figure's file name: `figure-`, three digits, and `.png` or `.jpg`.
pub open spec fn is_figure(name: Seq<char>) -> bool {
    &&& name.len() == 14
    &&& name.take(7) == "figure-"@
    &&& all_digits(name.subrange(7, 10))
    &&& (name.skip(10) == ".png"@ || name.skip(10) == ".jpg"@)
}

/// Whether `name` is the file name of a figure.
pub fn valid_figure(name: &str) -> (valid: bool)
    ensures
        valid == is_figure(name@),
{
    let chars = chars_of(name);
    if chars.len() != 14 {
        return false;
    }
    let start = text_of(&copy_chars(&chars, 0, 7));
    let number = copy_chars(&chars, 7, 10);
    let end = text_of(&copy_chars(&chars, 10, 14));
    assert(start@ =~= name@.take(7));
    assert(end@ =~= name@.skip(10));
    same_text(&start, "figure-") && only_digits(&number) && (same_text(&end, ".png") || same_text(
        &end,
        ".jpg",
    ))
}

pub open spec fn is_host_char(c: char) -> bool {
    is_alphanumeric(c) || c == '.' || c == '-'
}

/// A bare HTTPS origin: `https://` and a host, without port, user, path or
/// query.
pub open spec fn is_origin(origin: Seq<char>) -> bool {
    &&& "https://"@.is_prefix_of(origin)
    &&& origin.len() > "https://"@.len()
    &&& forall|i: int|
        "https://"@.len() <= i < origin.len() ==> is_host_char(#[trigger] origin[i])
}

/// Whether `origin` is a bare HTTPS origin.
pub fn valid_origin(origin: &str) -> (valid: bool)
    ensures
        valid == is_origin(origin@),
{
    let chars = chars_of(origin);
    proof {
        reveal_strlit("https://");
    }
    if !starts_with(&chars, "https://") {
        return false;
    }
    for i in 8..chars.len()
        invariant
            chars@ == origin@,
            "https://"@.len() == 8,
            forall|j: int| 8 <= j < i ==> is_host_char(#[trigger] chars@[j]),
    {
        let c = chars[i];
        if !(alphanumeric(c) || c == '.' || c == '-') {
            assert(!is_host_char(chars@[i as int]));
            return false;
        }
    }
    chars.len() > 8
}

/// An ASCII capital as the small letter, every other character as it is.
pub open spec fn small(c: char) -> char {
    if 'A' <= c <= 'Z' {
        (c as u32 + 32) as char
    } else {
        c
    }
}

pub open spec fn lowered(text: Seq<char>) -> Seq<char> {
    text.map_values(|c: char| small(c))
}

/// `text` with ASCII capitals as small letters.
pub fn lower(text: &str) -> (small_text: String)
    ensures
        small_text@ == lowered(text@),
{
    let chars = chars_of(text);
    let mut small_text = String::new();
    for i in 0..chars.len()
        invariant
            chars@ == text@,
            small_text@ == lowered(chars@).take(i as int),
    {
        let c = chars[i];
        if 'A' <= c && c <= 'Z' {
            small_text.push(((c as u32 + 32) as u8) as char);
        } else {
            small_text.push(c);
        }
        assert(small_text@ =~= lowered(chars@).take(i + 1));
    }
    assert(small_text@ =~= lowered(text@));
    small_text
}

pub open spec fn document_name(key: Seq<char>) -> Seq<char> {
    "document."@ + lowered(key)
}

pub open spec fn snapshot_name(collection_key: Seq<char>) -> Seq<char> {
    "snapshot."@ + lowered(collection_key)
}

pub open spec fn memory_name(key: Seq<char>) -> Seq<char> {
    "memory."@ + lowered(key)
}

/// The name under which the text of a paper is kept.
pub fn document_blob(key: &str) -> (name: String)
    ensures
        name@ == document_name(key@),
{
    joined_pair("document.", &lower(key))
}

/// The name under which the papers of a collection are kept.
pub fn snapshot_blob(collection_key: &str) -> (name: String)
    ensures
        name@ == snapshot_name(collection_key@),
{
    joined_pair("snapshot.", &lower(collection_key))
}

/// The name under which the reading position in a paper is kept.
pub fn memory_blob(key: &str) -> (name: String)
    ensures
        name@ == memory_name(key@),
{
    joined_pair("memory.", &lower(key))
}

/// What a stored name is made of: small letters, digits and full stops.
pub open spec fn is_shelf_char(c: char) -> bool {
    'a' <= c <= 'z' || '0' <= c <= '9' || c == '.'
}

/// Names derived from Zotero keys hold only small letters, digits and full
/// stops, start with a letter, and stay below 42 characters.
pub proof fn law_key_names_are_plain(key: Seq<char>)
    requires
        is_key(key),
    ensures
        forall|i: int|
            0 <= i < document_name(key).len() ==> is_shelf_char(#[trigger] document_name(key)[i]),
        forall|i: int|
            0 <= i < snapshot_name(key).len() ==> is_shelf_char(#[trigger] snapshot_name(key)[i]),
        forall|i: int|
            0 <= i < memory_name(key).len() ==> is_shelf_char(#[trigger] memory_name(key)[i]),
        0 < document_name(key).len() < 42,
        0 < snapshot_name(key).len() < 42,
        0 < memory_name(key).len() < 42,
{
    reveal_strlit("document.");
    reveal_strlit("snapshot.");
    reveal_strlit("memory.");
    assert forall|i: int| 0 <= i < key.len() implies is_shelf_char(#[trigger] lowered(key)[i]) by {
        assert(is_alphanumeric(key[i]));
    }
}

/// The three kinds of stored names never coincide.
pub proof fn law_stored_names_do_not_collide(a: Seq<char>, b: Seq<char>)
    ensures
        document_name(a) != snapshot_name(b),
        document_name(a) != memory_name(b),
        snapshot_name(a) != memory_name(b),
{
    reveal_strlit("document.");
    reveal_strlit("snapshot.");
    reveal_strlit("memory.");
    assert(document_name(a)[0] == 'd');
    assert(snapshot_name(a)[0] == 's');
    assert(snapshot_name(b)[0] == 's');
    assert(memory_name(b)[0] == 'm');
}

/// Two papers share a stored name exactly if their keys are the same up to the
/// case of letters.
pub proof fn law_stored_names_follow_keys(a: Seq<char>, b: Seq<char>)
    ensures
        document_name(a) == document_name(b) <==> lowered(a) == lowered(b),
        snapshot_name(a) == snapshot_name(b) <==> lowered(a) == lowered(b),
        memory_name(a) == memory_name(b) <==> lowered(a) == lowered(b),
{
    lemma_same_tail("document."@, lowered(a), lowered(b));
    lemma_same_tail("snapshot."@, lowered(a), lowered(b));
    lemma_same_tail("memory."@, lowered(a), lowered(b));
}

proof fn lemma_same_tail(start: Seq<char>, a: Seq<char>, b: Seq<char>)
    ensures
        start + a == start + b <==> a == b,
{
    if start + a == start + b {
        assert((start + a).skip(start.len() as int) =~= a);
        assert((start + b).skip(start.len() as int) =~= b);
    }
}

/// An accepted origin holds no character that could start a port, a user, a
/// path, a query or a fragment after its scheme.
pub proof fn law_origin_is_bare(origin: Seq<char>, i: int)
    requires
        is_origin(origin),
        8 <= i < origin.len(),
    ensures
        origin[i] != ':',
        origin[i] != '@',
        origin[i] != '/',
        origin[i] != '?',
        origin[i] != '#',
{
    reveal_strlit("https://");
    assert(is_host_char(origin[i]));
}

/// A figure's file name cannot leave its directory.
pub proof fn law_figures_do_not_walk(name: Seq<char>, i: int)
    requires
        is_figure(name),
        0 <= i < name.len(),
    ensures
        name[i] != '/',
        name[i] != '\\',
        name[i] == '.' ==> i == 10,
{
    reveal_strlit("figure-");
    reveal_strlit(".png");
    reveal_strlit(".jpg");
    if i < 7 {
        assert(name[i] == name.take(7)[i]);
    } else if i < 10 {
        assert(name[i] == name.subrange(7, 10)[i - 7]);
    } else {
        assert(name[i] == name.skip(10)[i - 10]);
    }
}

} // verus!

//! JSON values as the reader looks at them.
use vstd::prelude::*;

use crate::text::{clean, cleaned, same_text, seen};

verus! {

/// A parsed JSON value.
#[derive(Debug, PartialEq, Eq)]
pub enum Value {
    /// Null, and every number that is not a 64-bit integer.
    Null,
    Bool(bool),
    Number(i64),
    Text(String),
    Array(Vec<Value>),
    Object(Vec<Member>),
}

/// One member of an object.
#[derive(Debug, PartialEq, Eq)]
pub struct Member {
    pub name: String,
    pub value: Value,
}

/// The value of the first member called `name`.
pub open spec fn named(members: Seq<Member>, name: Seq<char>) -> Option<&'static Value>
    decreases members.len(),
{
    if members.len() == 0 {
        None
    } else if members[0].name@ == name {
        Some(&members[0].value)
    } else {
        named(members.drop_first(), name)
    }
}

/// The names of the members that the reader looks at.
pub open spec fn is_member(name: Seq<char>) -> bool {
    ||| name == "DOI"@
    ||| name == "abstractNote"@
    ||| name == "bookTitle"@
    ||| name == "collection_key"@
    ||| name == "conferenceName"@
    ||| name == "content"@
    ||| name == "contentType"@
    ||| name == "creator_summary"@
    ||| name == "creators"@
    ||| name == "data"@
    ||| name == "date"@
    ||| name == "dateAdded"@
    ||| name == "date_added"@
    ||| name == "document_version"@
    ||| name == "firstName"@
    ||| name == "has_stored_pdf"@
    ||| name == "indexedChars"@
    ||| name == "indexedPages"@
    ||| name == "itemType"@
    ||| name == "items"@
    ||| name == "key"@
    ||| name == "lastName"@
    ||| name == "linkMode"@
    ||| name == "message"@
    ||| name == "name"@
    ||| name == "proceedingsTitle"@
    ||| name == "publicationTitle"@
    ||| name == "publisher"@
    ||| name == "revision"@
    ||| name == "state"@
    ||| name == "tag"@
    ||| name == "tags"@
    ||| name == "title"@
    ||| name == "total"@
    ||| name == "totalChars"@
    ||| name == "totalPages"@
    ||| name == "truncated"@
    ||| name == "url"@
    ||| name == "version"@
    ||| name == "websiteTitle"@
    ||| name == "year"@
}

/// Lists the names of the members that the reader looks at.
pub fn member_names() -> (names: Vec<&'static str>)
    ensures
        forall|name: Seq<char>| is_member(name) <==> #[trigger] seen(names@).contains(name),
{
    let names = vec![
        "DOI",
        "abstractNote",
        "bookTitle",
        "collection_key",
        "conferenceName",
        "content",
        "contentType",
        "creator_summary",
        "creators",
        "data",
        "date",
        "dateAdded",
        "date_added",
        "document_version",
        "firstName",
        "has_stored_pdf",
        "indexedChars",
        "indexedPages",
        "itemType",
        "items",
        "key",
        "lastName",
        "linkMode",
        "message",
        "name",
        "proceedingsTitle",
        "publicationTitle",
        "publisher",
        "revision",
        "state",
        "tag",
        "tags",
        "title",
        "total",
        "totalChars",
        "totalPages",
        "truncated",
        "url",
        "version",
        "websiteTitle",
        "year",
    ];
    proof {
        assert(seen(names@)[0] == "DOI"@);
        assert(seen(names@)[1] == "abstractNote"@);
        assert(seen(names@)[2] == "bookTitle"@);
        assert(seen(names@)[3] == "collection_key"@);
        assert(seen(names@)[4] == "conferenceName"@);
        assert(seen(names@)[5] == "content"@);
        assert(seen(names@)[6] == "contentType"@);
        assert(seen(names@)[7] == "creator_summary"@);
        assert(seen(names@)[8] == "creators"@);
        assert(seen(names@)[9] == "data"@);
        assert(seen(names@)[10] == "date"@);
        assert(seen(names@)[11] == "dateAdded"@);
        assert(seen(names@)[12] == "date_added"@);
        assert(seen(names@)[13] == "document_version"@);
        assert(seen(names@)[14] == "firstName"@);
        assert(seen(names@)[15] == "has_stored_pdf"@);
        assert(seen(names@)[16] == "indexedChars"@);
        assert(seen(names@)[17] == "indexedPages"@);
        assert(seen(names@)[18] == "itemType"@);
        assert(seen(names@)[19] == "items"@);
        assert(seen(names@)[20] == "key"@);
        assert(seen(names@)[21] == "lastName"@);
        assert(seen(names@)[22] == "linkMode"@);
        assert(seen(names@)[23] == "message"@);
        assert(seen(names@)[24] == "name"@);
        assert(seen(names@)[25] == "proceedingsTitle"@);
        assert(seen(names@)[26] == "publicationTitle"@);
        assert(seen(names@)[27] == "publisher"@);
        assert(seen(names@)[28] == "revision"@);
        assert(seen(names@)[29] == "state"@);
        assert(seen(names@)[30] == "tag"@);
        assert(seen(names@)[31] == "tags"@);
        assert(seen(names@)[32] == "title"@);
        assert(seen(names@)[33] == "total"@);
        assert(seen(names@)[34] == "totalChars"@);
        assert(seen(names@)[35] == "totalPages"@);
        assert(seen(names@)[36] == "truncated"@);
        assert(seen(names@)[37] == "url"@);
        assert(seen(names@)[38] == "version"@);
        assert(seen(names@)[39] == "websiteTitle"@);
        assert(seen(names@)[40] == "year"@);
    }
    names
}

impl Value {
    /// The member of an object that is called `name`.
    pub open spec fn field(&self, name: Seq<char>) -> Option<&Value> {
        match self {
            Value::Object(members) => named(members@, name),
            _ => None,
        }
    }

    /// Looks up a member, one of those that `member_names` lists.
    pub(crate) fn get(&self, name: &str) -> (found: Option<&Value>)
        requires
            is_member(name@),
        ensures
            found == self.field(name@),
    {
        match self {
            Value::Object(members) => {
                assert(members@.skip(0) =~= members@);
                for i in 0..members.len()
                    invariant
                        self.field(name@) == named(members@.skip(i as int), name@),
                {
                    assert(members@.skip(i as int)[0] == members@[i as int]);
                    if same_text(&members[i].name, name) {
                        return Some(&members[i].value);
                    }
                    assert(members@.skip(i as int).drop_first() =~= members@.skip(i + 1));
                }
                None
            },
            _ => None,
        }
    }
}

/// The text of a value, reduced to one line of at most `maximum` characters;
/// empty where there is no text.
pub open spec fn text_in(value: Option<&Value>, maximum: nat) -> Seq<char> {
    match value {
        Some(Value::Text(text)) => cleaned(text@, maximum),
        _ => Seq::empty(),
    }
}

/// Reads a text.
pub fn text(value: Option<&Value>, maximum: usize) -> (line: String)
    ensures
        line@ == text_in(value, maximum as nat),
{
    match value {
        Some(Value::Text(text)) => clean(text, maximum),
        _ => String::new(),
    }
}

/// The text of a value as it stands.
pub open spec fn raw_text(value: Option<&Value>) -> Option<Seq<char>> {
    match value {
        Some(Value::Text(text)) => Some(text@),
        _ => None,
    }
}

/// The number of a value; zero where there is none that a `usize` can hold.
pub open spec fn number_in(value: Option<&Value>) -> usize {
    match value {
        Some(Value::Number(number)) => if 0 <= *number <= usize::MAX {
            *number as usize
        } else {
            0
        },
        _ => 0,
    }
}

/// Reads a number.
pub fn number(value: Option<&Value>) -> (count: usize)
    ensures
        count == number_in(value),
{
    match value {
        Some(Value::Number(number)) => if 0 <= *number && (*number as u64) <= (usize::MAX as u64) {
            *number as usize
        } else {
            0
        },
        _ => 0,
    }
}

/// The number of a value, held at the largest 32-bit number.
pub open spec fn version_in(value: Option<&Value>) -> u32 {
    if number_in(value) <= u32::MAX {
        number_in(value) as u32
    } else {
        u32::MAX
    }
}

/// Reads a version.
pub fn version(value: Option<&Value>) -> (read: u32)
    ensures
        read == version_in(value),
{
    let count = number(value);
    if count <= u32::MAX as usize {
        count as u32
    } else {
        u32::MAX
    }
}

/// The truth value of a value; false where there is none.
pub open spec fn flag_in(value: Option<&Value>) -> bool {
    match value {
        Some(Value::Bool(flag)) => *flag,
        _ => false,
    }
}

/// Reads a truth value.
pub fn flag(value: Option<&Value>) -> (read: bool)
    ensures
        read == flag_in(value),
{
    match value {
        Some(Value::Bool(flag)) => *flag,
        _ => false,
    }
}

/// The items of an array; none where the value is no array.
pub open spec fn items_in(value: Option<&Value>) -> Seq<Value> {
    match value {
        Some(Value::Array(items)) => items@,
        _ => Seq::empty(),
    }
}

/// The first of two values that is there.
pub open spec fn either<'a>(first: Option<&'a Value>, second: Option<&'a Value>) -> Option<&'a Value> {
    if first is Some {
        first
    } else {
        second
    }
}

/// Takes the second value where the first is missing.
pub fn or_other<'a>(first: Option<&'a Value>, second: Option<&'a Value>) -> (found: Option<&'a Value>)
    ensures
        found == either(first, second),
{
    match first {
        Some(_) => first,
        None => second,
    }
}

} // verus!

//! What the reader takes from the answers of the Zotero API.
use vstd::prelude::*;
use vstd::string::*;

use crate::json::{
    either, is_member, items_in, or_other, raw_text, text, text_in, version, version_in, Value,
};
use crate::keys::{is_key, valid_key};
use crate::model::{
    Attachment, AttachmentView, Collection, CollectionView, Detail, DetailView, Paper, PaperView,
};
use crate::number::all_digits;
use crate::text::{
    chars_of, clean, cleaned, copy_chars, digit, joined_pair, prefix, same_text, seen, text_of,
};

verus! {

pub const MAX_COLLECTIONS: usize = 100;

pub const MAX_TAGS: usize = 10;

pub const MAX_AUTHORS: usize = 64;

/// The key of an item: from its data, or else from the item itself.
pub open spec fn key_in(data: &Value, item: &Value) -> Seq<char> {
    text_in(either(data.field("key"@), item.field("key"@)), 32)
}

/// Reads the key of an item.
fn item_key(data: &Value, item: &Value) -> (key: String)
    ensures
        key@ == key_in(data, item),
{
    text(or_other(data.get("key"), item.get("key")), 32)
}

/// One more item on both sides of a length limit.
pub proof fn lemma_prefix_push<A>(items: Seq<A>, item: A, maximum: nat)
    ensures
        prefix(items.push(item), maximum) == if items.len() < maximum {
            prefix(items, maximum).push(item)
        } else {
            prefix(items, maximum)
        },
{
    assert(prefix(items.push(item), maximum) =~= if items.len() < maximum {
        prefix(items, maximum).push(item)
    } else {
        prefix(items, maximum)
    });
}

/// The collection that a row of the collection list describes, if its key and
/// its name are usable.
pub open spec fn collection_in(row: &Value) -> Option<CollectionView> {
    match row.field("data"@) {
        Some(data) => {
            let key = key_in(data, row);
            let name = text_in(data.field("name"@), 160);
            if is_key(key) && name.len() > 0 {
                Some(CollectionView { key, name })
            } else {
                None
            }
        },
        None => None,
    }
}

pub open spec fn collection_row() -> spec_fn(Value) -> Option<CollectionView> {
    |row: Value| collection_in(&row)
}

/// The collections in a collection list: its first rows, each of which must
/// have data; rows without a usable key or name are left out.
pub open spec fn collections_in(root: &Value) -> Option<Seq<CollectionView>> {
    match root {
        Value::Array(rows) => {
            let read = prefix(rows@, MAX_COLLECTIONS as nat);
            if forall|i: int| 0 <= i < read.len() ==> (#[trigger] read[i]).field("data"@) is Some {
                Some(read.filter_map(collection_row()))
            } else {
                None
            }
        },
        _ => None,
    }
}

/// Reads a list of collections.
pub fn zotero_collections(root: &Value) -> (collections: Option<Vec<Collection>>)
    ensures
        match collections {
            Some(collections) => collections_in(root) == Some(seen(collections@)),
            None => collections_in(root) is None,
        },
{
    match root {
        Value::Array(rows) => {
            let last: usize = if rows.len() < MAX_COLLECTIONS {
                rows.len()
            } else {
                MAX_COLLECTIONS
            };
            let ghost read = prefix(rows@, MAX_COLLECTIONS as nat);
            assert(read =~= rows@.take(last as int));
            let mut parsed: Vec<Collection> = Vec::new();
            assert(seen(parsed@) =~= read.take(0).filter_map(collection_row()));
            for i in 0..last
                invariant
                    last <= rows@.len(),
                    root matches Value::Array(all) && all == rows,
                    read == prefix(rows@, MAX_COLLECTIONS as nat),
                    read == rows@.take(last as int),
                    seen(parsed@) == read.take(i as int).filter_map(collection_row()),
                    forall|j: int|
                        0 <= j < i ==> (#[trigger] read[j]).field("data"@) is Some,
            {
                let row = &rows[i];
                assert(*row == read[i as int]);
                proof {
                    read.lemma_filter_map_take_succ(collection_row(), i as int);
                }
                let data = match row.get("data") {
                    Some(data) => data,
                    None => {
                        return None;
                    },
                };
                let key = item_key(data, row);
                let name = text(data.get("name"), 160);
                if valid_key(&key) && !name.as_str().is_empty() {
                    let ghost before = parsed@;
                    let collection = Collection { key, name };
                    let ghost added = collection@;
                    parsed.push(collection);
                    assert(seen(parsed@) =~= seen(before).push(added));
                    assert(seen(before).push(added) =~= seen(before) + seq![added]);
                } else {
                    assert(seen(parsed@) + Seq::<CollectionView>::empty() =~= seen(parsed@));
                }
            }
            assert(read.take(last as int) =~= read);
            Some(parsed)
        },
        _ => None,
    }
}

/// The name of a creator: the single name, or else first and last name.
pub open spec fn creator_in(creator: &Value) -> Option<Seq<char>> {
    let single = text_in(creator.field("name"@), 128);
    let both = cleaned(
        text_in(creator.field("firstName"@), 64) + " "@ + text_in(creator.field("lastName"@), 64),
        128,
    );
    if single.len() > 0 {
        Some(single)
    } else if both.len() > 0 {
        Some(both)
    } else {
        None
    }
}

pub open spec fn creator_row() -> spec_fn(Value) -> Option<Seq<char>> {
    |creator: Value| creator_in(&creator)
}

/// The names of the first creators that have one.
pub open spec fn creators_in(data: &Value, maximum: nat) -> Seq<Seq<char>> {
    prefix(items_in(data.field("creators"@)).filter_map(creator_row()), maximum)
}

/// Reads the name of a creator.
fn creator_name(creator: &Value) -> (name: Option<String>)
    ensures
        match name {
            Some(name) => creator_in(creator) == Some(name@),
            None => creator_in(creator) is None,
        },
{
    let single = text(creator.get("name"), 128);
    if !single.as_str().is_empty() {
        return Some(single);
    }
    let mut both = text(creator.get("firstName"), 64);
    both.append(" ");
    let last = text(creator.get("lastName"), 64);
    both.append(&last);
    let joined = clean(&both, 128);
    if joined.as_str().is_empty() {
        None
    } else {
        Some(joined)
    }
}

/// Reads the names of the creators.
pub fn creator_names(data: &Value, maximum: usize) -> (names: Vec<String>)
    ensures
        seen(names@) == creators_in(data, maximum as nat),
{
    let mut names: Vec<String> = Vec::new();
    let ghost rows = items_in(data.field("creators"@));
    assert(seen(names@) =~= prefix(rows.take(0).filter_map(creator_row()), maximum as nat));
    if let Some(Value::Array(creators)) = data.get("creators") {
        for i in 0..creators.len()
            invariant
                rows == creators@,
                seen(names@) == prefix(
                    rows.take(i as int).filter_map(creator_row()),
                    maximum as nat,
                ),
        {
            let ghost done = rows.take(i as int).filter_map(creator_row());
            proof {
                rows.lemma_filter_map_take_succ(creator_row(), i as int);
            }
            let found = creator_name(&creators[i]);
            match found {
                Some(name) => {
                    let ghost added = name@;
                    proof {
                        assert(done + seq![added] =~= done.push(added));
                        lemma_prefix_push(done, added, maximum as nat);
                    }
                    if names.len() < maximum {
                        let ghost before = names@;
                        names.push(name);
                        assert(seen(names@) =~= seen(before).push(added));
                    }
                },
                None => {
                    assert(done + Seq::<Seq<char>>::empty() =~= done);
                },
            }
        }
        assert(rows.take(rows.len() as int) =~= rows);
    } else {
        assert(rows.take(0) =~= rows);
    }
    names
}

pub open spec fn tag_in(tag: &Value) -> Option<Seq<char>> {
    match raw_text(tag.field("tag"@)) {
        Some(text) => {
            let line = cleaned(text, 48);
            if line.len() > 0 {
                Some(line)
            } else {
                None
            }
        },
        None => None,
    }
}

pub open spec fn tag_row() -> spec_fn(Value) -> Option<Seq<char>> {
    |tag: Value| tag_in(&tag)
}

/// The first tags that are not empty.
pub open spec fn tags_in(data: &Value) -> Seq<Seq<char>> {
    prefix(items_in(data.field("tags"@)).filter_map(tag_row()), MAX_TAGS as nat)
}

/// Reads the tags of an item.
pub fn tags(data: &Value) -> (names: Vec<String>)
    ensures
        seen(names@) == tags_in(data),
{
    let mut names: Vec<String> = Vec::new();
    let ghost rows = items_in(data.field("tags"@));
    assert(seen(names@) =~= prefix(rows.take(0).filter_map(tag_row()), MAX_TAGS as nat));
    if let Some(Value::Array(tags)) = data.get("tags") {
        for i in 0..tags.len()
            invariant
                rows == tags@,
                seen(names@) == prefix(rows.take(i as int).filter_map(tag_row()), MAX_TAGS as nat),
        {
            let ghost done = rows.take(i as int).filter_map(tag_row());
            proof {
                rows.lemma_filter_map_take_succ(tag_row(), i as int);
                assert(done + Seq::<Seq<char>>::empty() =~= done);
            }
            if let Some(Value::Text(tag)) = tags[i].get("tag") {
                let name = clean(tag, 48);
                if !name.as_str().is_empty() {
                    let ghost added = name@;
                    proof {
                        assert(done + seq![added] =~= done.push(added));
                        lemma_prefix_push(done, added, MAX_TAGS as nat);
                    }
                    if names.len() < MAX_TAGS {
                        let ghost before = names@;
                        names.push(name);
                        assert(seen(names@) =~= seen(before).push(added));
                    }
                }
            }
        }
        assert(rows.take(rows.len() as int) =~= rows);
    } else {
        assert(rows.take(0) =~= rows);
    }
    names
}

/// Whether four digits stand at `at`.
pub open spec fn year_at(text: Seq<char>, at: int) -> bool {
    0 <= at <= text.len() - 4 && all_digits(text.subrange(at, at + 4))
}

/// The first four digits in a row; nothing where there are none.
pub open spec fn year_in(text: Seq<char>) -> Seq<char>
    decreases text.len(),
{
    if text.len() < 4 {
        Seq::empty()
    } else if year_at(text, 0) {
        text.take(4)
    } else {
        year_in(text.drop_first())
    }
}

/// Finds the year in a date.
pub fn year(value: &str) -> (found: String)
    ensures
        found@ == year_in(value@),
{
    let chars = chars_of(value);
    let mut at: usize = 0;
    let total: usize = chars.len();
    assert(chars@.skip(0) =~= chars@);
    while total - at >= 4
        invariant
            total == chars@.len(),
            chars@ == value@,
            at <= total,
            year_in(value@) == year_in(chars@.skip(at as int)),
        decreases total - at,
    {
        let ghost rest = chars@.skip(at as int);
        let ghost four = rest.subrange(0, 4);
        assert(four[0] == chars@[at as int]);
        assert(four[1] == chars@[at + 1]);
        assert(four[2] == chars@[at + 2]);
        assert(four[3] == chars@[at + 3]);
        if digit(chars[at]) && digit(chars[at + 1]) && digit(chars[at + 2]) && digit(
            chars[at + 3],
        ) {
            assert(all_digits(four));
            let found = copy_chars(&chars, at, at + 4);
            assert(found@ =~= rest.take(4));
            return text_of(&found);
        }
        assert(!all_digits(four));
        assert(rest.drop_first() =~= chars@.skip(at + 1));
        at = at + 1;
    }
    String::new()
}

/// The creators as a list shows them: both of two, the first of more.
pub open spec fn credited(authors: Seq<Seq<char>>) -> Seq<char> {
    if authors.len() == 0 {
        Seq::empty()
    } else if authors.len() == 1 {
        authors[0]
    } else if authors.len() == 2 {
        authors[0] + ", "@ + authors[1]
    } else {
        authors[0] + " et al."@
    }
}

/// Sums the creators up.
fn credit(authors: &Vec<String>) -> (line: String)
    ensures
        line@ == credited(seen(authors@)),
{
    if authors.len() == 0 {
        String::new()
    } else if authors.len() == 1 {
        authors[0].clone()
    } else if authors.len() == 2 {
        let mut line = authors[0].clone();
        line.append(", ");
        line.append(&authors[1]);
        line
    } else {
        joined_pair(&authors[0], " et al.")
    }
}

/// The paper that a Zotero item describes, if its key and its title are
/// usable.
pub open spec fn paper_in(item: &Value) -> Option<PaperView> {
    match item.field("data"@) {
        Some(data) => {
            let key = key_in(data, item);
            let title = text_in(data.field("title"@), 512);
            if is_key(key) && title.len() > 0 {
                Some(
                    PaperView {
                        key,
                        version: version_in(either(data.field("version"@), item.field("version"@))),
                        title,
                        creators: cleaned(credited(creators_in(data, MAX_AUTHORS as nat)), 160),
                        year: year_in(text_in(data.field("date"@), 128)),
                        date_added: text_in(data.field("dateAdded"@), 64),
                        tags: tags_in(data),
                        has_pdf: false,
                    },
                )
            } else {
                None
            }
        },
        None => None,
    }
}

pub open spec fn paper_row() -> spec_fn(Value) -> Option<PaperView> {
    |item: Value| paper_in(&item)
}

/// Reads a Zotero item.
pub fn zotero_paper(value: &Value) -> (paper: Option<Paper>)
    ensures
        match paper {
            Some(paper) => paper_in(value) == Some(paper@),
            None => paper_in(value) is None,
        },
{
    match value.get("data") {
        Some(data) => {
            let key = item_key(data, value);
            let title = text(data.get("title"), 512);
            if !valid_key(&key) || title.as_str().is_empty() {
                return None;
            }
            let authors = creator_names(data, MAX_AUTHORS);
            let creators = clean(&credit(&authors), 160);
            let publication_date = text(data.get("date"), 128);
            Some(
                Paper {
                    key,
                    version: version(or_other(data.get("version"), value.get("version"))),
                    title,
                    creators,
                    year: year(&publication_date),
                    date_added: text(data.get("dateAdded"), 64),
                    tags: tags(data),
                    has_pdf: false,
                },
            )
        },
        None => None,
    }
}

/// The papers on a page of items; items that are no usable paper are left out.
pub open spec fn papers_in(root: &Value) -> Option<Seq<PaperView>> {
    match root {
        Value::Array(rows) => Some(rows@.filter_map(paper_row())),
        _ => None,
    }
}

/// Reads one page of top-level items.
pub fn zotero_items(root: &Value) -> (papers: Option<Vec<Paper>>)
    ensures
        match papers {
            Some(papers) => papers_in(root) == Some(seen(papers@)),
            None => papers_in(root) is None,
        },
{
    match root {
        Value::Array(rows) => {
            let mut papers: Vec<Paper> = Vec::new();
            assert(seen(papers@) =~= rows@.take(0).filter_map(paper_row()));
            for i in 0..rows.len()
                invariant
                    seen(papers@) == rows@.take(i as int).filter_map(paper_row()),
            {
                proof {
                    rows@.lemma_filter_map_take_succ(paper_row(), i as int);
                    assert(seen(papers@) + Seq::<PaperView>::empty() =~= seen(papers@));
                }
                if let Some(paper) = zotero_paper(&rows[i]) {
                    let ghost before = papers@;
                    let ghost added = paper@;
                    papers.push(paper);
                    assert(seen(papers@) =~= seen(before).push(added));
                    assert(seen(before).push(added) =~= seen(before) + seq![added]);
                }
            }
            assert(rows@.take(rows@.len() as int) =~= rows@);
            Some(papers)
        },
        _ => None,
    }
}

/// The first text, or else the second where the first is empty.
pub open spec fn or_text(first: Seq<char>, second: Seq<char>) -> Seq<char> {
    if first.len() > 0 {
        first
    } else {
        second
    }
}

/// Where the item appeared: the first of the fields for it that is not empty.
pub open spec fn venue_in(data: &Value) -> Seq<char> {
    or_text(
        text_in(data.field("publicationTitle"@), 512),
        or_text(
            text_in(data.field("bookTitle"@), 512),
            or_text(
                text_in(data.field("proceedingsTitle"@), 512),
                or_text(
                    text_in(data.field("conferenceName"@), 512),
                    or_text(
                        text_in(data.field("websiteTitle"@), 512),
                        text_in(data.field("publisher"@), 512),
                    ),
                ),
            ),
        ),
    )
}

/// Takes a field where nothing was found yet.
fn fill(found: String, data: &Value, field: &str) -> (filled: String)
    requires
        is_member(field@),
    ensures
        filled@ == or_text(found@, text_in(data.field(field@), 512)),
{
    if found.as_str().is_empty() {
        text(data.get(field), 512)
    } else {
        found
    }
}

/// The details that a Zotero item describes, if it is a usable paper.
pub open spec fn detail_in(root: &Value) -> Option<DetailView> {
    match (paper_in(root), root.field("data"@)) {
        (Some(paper), Some(data)) => Some(
            DetailView {
                paper,
                authors: creators_in(data, MAX_AUTHORS as nat),
                abstract_text: text_in(data.field("abstractNote"@), 96_000),
                venue: venue_in(data),
                doi: text_in(data.field("DOI"@), 512),
                url: text_in(data.field("url"@), 2_048),
            },
        ),
        _ => None,
    }
}

/// Reads a single bibliographic item.
pub fn zotero_detail(root: &Value) -> (detail: Option<Detail>)
    ensures
        match detail {
            Some(detail) => detail_in(root) == Some(detail@),
            None => detail_in(root) is None,
        },
{
    match zotero_paper(root) {
        Some(paper) => match root.get("data") {
            Some(data) => {
                let authors = creator_names(data, MAX_AUTHORS);
                let mut venue = text(data.get("publicationTitle"), 512);
                venue = fill(venue, data, "bookTitle");
                venue = fill(venue, data, "proceedingsTitle");
                venue = fill(venue, data, "conferenceName");
                venue = fill(venue, data, "websiteTitle");
                venue = fill(venue, data, "publisher");
                Some(
                    Detail {
                        paper,
                        authors,
                        abstract_text: text(data.get("abstractNote"), 96_000),
                        venue,
                        doi: text(data.get("DOI"), 512),
                        url: text(data.get("url"), 2_048),
                    },
                )
            },
            None => None,
        },
        None => None,
    }
}

/// The stored PDF that a child of an item describes: an attachment of that
/// type whose file Zotero holds itself, with a usable key.
pub open spec fn attachment_in(row: &Value) -> Option<AttachmentView> {
    match row.field("data"@) {
        Some(data) => {
            let mode = raw_text(data.field("linkMode"@));
            let key = key_in(data, row);
            if raw_text(data.field("itemType"@)) == Some("attachment"@) && raw_text(
                data.field("contentType"@),
            ) == Some("application/pdf"@) && (mode == Some("imported_file"@) || mode == Some(
                "imported_url"@,
            )) && is_key(key) {
                Some(
                    AttachmentView {
                        key,
                        version: version_in(either(data.field("version"@), row.field("version"@))),
                    },
                )
            } else {
                None
            }
        },
        None => None,
    }
}

/// The first stored PDF among the rows.
pub open spec fn first_attachment(rows: Seq<Value>) -> Option<AttachmentView>
    decreases rows.len(),
{
    if rows.len() == 0 {
        None
    } else if attachment_in(&rows[0]) is Some {
        attachment_in(&rows[0])
    } else {
        first_attachment(rows.drop_first())
    }
}

/// Whether a value is the given text.
fn says(value: Option<&Value>, wanted: &str) -> (found: bool)
    ensures
        found == (raw_text(value) == Some(wanted@)),
{
    match value {
        Some(Value::Text(text)) => same_text(text, wanted),
        _ => false,
    }
}

/// Reads a child of an item.
fn stored_pdf(row: &Value) -> (attachment: Option<Attachment>)
    ensures
        match attachment {
            Some(attachment) => attachment_in(row) == Some(attachment@),
            None => attachment_in(row) is None,
        },
{
    match row.get("data") {
        Some(data) => {
            if !says(data.get("itemType"), "attachment") || !says(
                data.get("contentType"),
                "application/pdf",
            ) {
                return None;
            }
            let mode = data.get("linkMode");
            if !says(mode, "imported_file") && !says(mode, "imported_url") {
                return None;
            }
            let key = item_key(data, row);
            if !valid_key(&key) {
                return None;
            }
            Some(
                Attachment {
                    key,
                    version: version(or_other(data.get("version"), row.get("version"))),
                },
            )
        },
        None => None,
    }
}

/// Selects the first stored PDF from an item's children. The error says that
/// the children are no list.
pub fn zotero_pdf_attachment(root: &Value) -> (attachment: Result<Option<Attachment>, ()>)
    ensures
        match root {
            Value::Array(rows) => match attachment {
                Ok(Some(attachment)) => first_attachment(rows@) == Some(attachment@),
                Ok(None) => first_attachment(rows@) is None,
                Err(_) => false,
            },
            _ => attachment is Err,
        },
{
    match root {
        Value::Array(rows) => {
            assert(rows@.skip(0) =~= rows@);
            for i in 0..rows.len()
                invariant
                    root matches Value::Array(all) && all == rows,
                    first_attachment(rows@) == first_attachment(rows@.skip(i as int)),
            {
                assert(rows@.skip(i as int)[0] == rows@[i as int]);
                if let Some(attachment) = stored_pdf(&rows[i]) {
                    return Ok(Some(attachment));
                }
                assert(rows@.skip(i as int).drop_first() =~= rows@.skip(i + 1));
            }
            Ok(None)
        },
        _ => Err(()),
    }
}

/// An attachment that is only linked is never taken for a stored file.
pub proof fn law_linked_files_are_not_stored(row: &Value, data: &Value)
    requires
        row.field("data"@) == Some(data),
        raw_text(data.field("linkMode"@)) != Some("imported_file"@),
        raw_text(data.field("linkMode"@)) != Some("imported_url"@),
    ensures
        attachment_in(row) is None,
{
}

/// Every paper that comes from the API has a usable key and a title, and no
/// text longer than its limit.
pub proof fn law_papers_are_bounded(item: &Value)
    ensures
        paper_in(item) matches Some(paper) ==> {
            &&& is_key(paper.key)
            &&& 0 < paper.title.len() <= 512
            &&& paper.creators.len() <= 160
            &&& paper.year.len() <= 4
            &&& paper.date_added.len() <= 64
            &&& paper.tags.len() <= MAX_TAGS
            &&& forall|i: int|
                0 <= i < paper.tags.len() ==> 0 < (#[trigger] paper.tags[i]).len() <= 48
        },
{
    if let Some(data) = item.field("data"@) {
        lemma_year_short(text_in(data.field("date"@), 128));
        let rows = items_in(data.field("tags"@));
        assert forall|i: int| 0 <= i < tags_in(data).len() implies 0 < (#[trigger] tags_in(
            data,
        )[i]).len() <= 48 by {
            let tag = tags_in(data)[i];
            assert(rows.filter_map(tag_row())[i] == tag);
            assert(rows.filter_map(tag_row()).contains(tag));
            rows.lemma_filter_map_contains(tag_row(), tag);
        }
    }
}

pub proof fn lemma_year_short(text: Seq<char>)
    ensures
        year_in(text).len() == 0 || year_in(text).len() == 4,
        all_digits(year_in(text)),
    decreases text.len(),
{
    if text.len() >= 4 {
        if year_at(text, 0) {
            assert(text.take(4) =~= text.subrange(0, 4));
        } else {
            lemma_year_short(text.drop_first());
        }
    }
}

} // verus!

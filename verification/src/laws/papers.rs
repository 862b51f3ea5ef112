//! What becomes of the items that Zotero sends: each fact about a paper comes
//! from the member that holds it.
use vstd::prelude::*;

use crate::bridge::conversion_in;
use crate::cache::lemma_filter_map_agrees;
use crate::json::{text_in, Value};
use crate::keys::is_key;
use crate::laws::members::{
    holds, holds_list, holds_text, lacks, law_clean_lines_are_read, law_flags_are_read,
    law_lists_are_read, law_members_are_found, law_missing_members_are_not_found,
    law_numbers_are_read, law_texts_are_found,
};
use crate::laws::texts::{law_blank_texts_are_empty, law_spaces_at_the_ends_go};
use crate::model::{CollectionView, PaperView};
use crate::number::all_digits;
use crate::text::{cleaned, is_alphanumeric, is_digit, prefix, Mark};
use crate::tidy::{law_tidy_lines_stay, lemma_plain_is_tidy, tidy};
use crate::zotero::{
    attachment_in, collection_in, collection_row, collections_in, creator_in, creator_row,
    detail_in, first_attachment, key_in, paper_in, paper_row, papers_in, tag_in, tag_row, year_at,
    year_in,
};

verus! {

/// One to 32 ASCII letters and digits.
pub open spec fn key_like(key: Seq<char>) -> bool {
    &&& 1 <= key.len() <= 32
    &&& forall|i: int|
        0 <= i < key.len() ==> ('0' <= #[trigger] key[i] <= '9' || 'a' <= key[i] <= 'z' || 'A'
            <= key[i] <= 'Z')
}

/// A text of this many characters at most, on one clean line, that says
/// something.
pub open spec fn says(text: Seq<char>, maximum: nat) -> bool {
    tidy(text) && 1 <= text.len() <= maximum
}

/// Whether the key stands in the data of an item, or else in the item itself.
pub open spec fn keyed(item: Value, data: Value, key: Seq<char>) -> bool {
    ||| holds_text(data, "key"@, key)
    ||| lacks(data, "key"@) && holds_text(item, "key"@, key)
}

/// A key is usable exactly if it is one to 32 ASCII letters and digits.
pub proof fn law_keys_are_letters_and_digits(key: Seq<char>)
    ensures
        is_key(key) <==> key_like(key),
{
    if is_key(key) {
        assert forall|i: int| 0 <= i < key.len() implies ('0' <= #[trigger] key[i] <= '9' || 'a'
            <= key[i] <= 'z' || 'A' <= key[i] <= 'Z') by {
            assert(is_alphanumeric(key[i]));
        }
    }
}

proof fn lemma_key(item: Value, data: Value, key: Seq<char>)
    requires
        keyed(item, data, key),
        key_like(key),
    ensures
        key_in(&data, &item) == key,
        is_key(key),
{
    law_keys_are_letters_and_digits(key);
    lemma_plain_is_tidy(key);
    law_tidy_lines_stay(key, 32);
    if holds_text(data, "key"@, key) {
        law_texts_are_found(data, "key"@, key);
    } else {
        law_missing_members_are_not_found(data, "key"@);
        law_texts_are_found(item, "key"@, key);
    }
}

/// An item with a usable key and a title is a paper with this key and this
/// title; the key may stand in its data or beside it.
pub proof fn law_items_become_papers(item: Value, data: Value, key: Seq<char>, title: Seq<char>)
    requires
        holds(item, "data"@, data),
        keyed(item, data, key),
        key_like(key),
        holds_text(data, "title"@, title),
        says(title, 512),
    ensures
        paper_in(&item) matches Some(paper) && paper.key == key && paper.title == title
            && !paper.has_pdf,
{
    law_members_are_found(item, "data"@, data);
    lemma_key(item, data, key);
    law_clean_lines_are_read(data, "title"@, title, 512);
}

/// Without data, without a key or without a title there is no paper.
pub proof fn law_items_need_a_key_and_a_title(item: Value, data: Value)
    ensures
        lacks(item, "data"@) ==> paper_in(&item) is None && detail_in(&item) is None,
        holds(item, "data"@, data) && lacks(data, "key"@) && lacks(item, "key"@) ==> paper_in(
            &item,
        ) is None,
        holds(item, "data"@, data) && lacks(data, "title"@) ==> paper_in(&item) is None,
{
    if lacks(item, "data"@) {
        law_missing_members_are_not_found(item, "data"@);
    }
    if holds(item, "data"@, data) {
        law_members_are_found(item, "data"@, data);
        if lacks(data, "key"@) && lacks(item, "key"@) {
            law_missing_members_are_not_found(data, "key"@);
            law_missing_members_are_not_found(item, "key"@);
        }
        if lacks(data, "title"@) {
            law_missing_members_are_not_found(data, "title"@);
        }
    }
}

/// The date on which a paper was added is the text of `dateAdded`.
pub proof fn law_papers_keep_their_dates(item: Value, data: Value, date: Seq<char>)
    requires
        paper_in(&item) is Some,
        holds(item, "data"@, data),
        holds_text(data, "dateAdded"@, date),
        tidy(date),
        date.len() <= 64,
    ensures
        paper_in(&item)->0.date_added == date,
{
    law_members_are_found(item, "data"@, data);
    law_clean_lines_are_read(data, "dateAdded"@, date, 64);
}

/// The version of a paper is the number in its data, or else the one beside
/// them.
pub proof fn law_papers_keep_their_versions(item: Value, data: Value, version: i64)
    requires
        paper_in(&item) is Some,
        holds(item, "data"@, data),
        0 <= version <= u32::MAX,
        holds(data, "version"@, Value::Number(version)) || (lacks(data, "version"@) && holds(
            item,
            "version"@,
            Value::Number(version),
        )),
    ensures
        paper_in(&item)->0.version == version,
{
    law_members_are_found(item, "data"@, data);
    if holds(data, "version"@, Value::Number(version)) {
        law_members_are_found(data, "version"@, Value::Number(version));
        law_numbers_are_read(data, "version"@, version);
    } else {
        law_missing_members_are_not_found(data, "version"@);
        law_members_are_found(item, "version"@, Value::Number(version));
        law_numbers_are_read(item, "version"@, version);
    }
}

/// Whether four digits stand in a row.
pub open spec fn four_digits(text: Seq<char>, at: int) -> bool {
    &&& 0 <= at <= text.len() - 4
    &&& forall|k: int| at <= k < at + 4 ==> '0' <= #[trigger] text[k] <= '9'
}

proof fn lemma_year_at(text: Seq<char>, at: int)
    ensures
        year_at(text, at) <==> four_digits(text, at),
{
    if 0 <= at <= text.len() - 4 {
        let four = text.subrange(at, at + 4);
        if all_digits(four) {
            assert forall|k: int| at <= k < at + 4 implies '0' <= #[trigger] text[k] <= '9' by {
                assert(is_digit(four[k - at]));
            }
        }
        if four_digits(text, at) {
            assert forall|i: int| 0 <= i < four.len() implies is_digit(#[trigger] four[i]) by {
                assert(four[i] == text[at + i]);
            }
        }
    }
}

/// The year is the first four digits in a row of a date, and nothing where
/// there are none.
pub proof fn law_years_are_found(date: Seq<char>, at: int)
    requires
        forall|earlier: int| 0 <= earlier < at ==> !#[trigger] four_digits(date, earlier),
        four_digits(date, at) || at == date.len(),
    ensures
        year_in(date) == if four_digits(date, at) {
            date.subrange(at, at + 4)
        } else {
            Seq::<char>::empty()
        },
    decreases date.len(),
{
    lemma_year_at(date, 0);
    if date.len() < 4 {
    } else if at == 0 {
        assert(date.take(4) =~= date.subrange(0, 4));
    } else {
        let rest = date.drop_first();
        assert(!four_digits(date, 0));
        assert forall|earlier: int| 0 <= earlier < at - 1 implies !#[trigger] four_digits(
            rest,
            earlier,
        ) by {
            if four_digits(rest, earlier) {
                assert forall|k: int| earlier + 1 <= k < earlier + 5 implies '0'
                    <= #[trigger] date[k] <= '9' by {
                    assert(rest[k - 1] == date[k]);
                }
                assert(four_digits(date, earlier + 1));
            }
        }
        if four_digits(date, at) {
            assert forall|k: int| at - 1 <= k < at + 3 implies '0' <= #[trigger] rest[k] <= '9' by {
                assert(rest[k] == date[k + 1]);
            }
            assert(four_digits(rest, at - 1));
            assert(rest.subrange(at - 1, at + 3) =~= date.subrange(at, at + 4));
        }
        law_years_are_found(rest, at - 1);
    }
}

/// The year of a paper is the one in its `date`.
pub proof fn law_papers_keep_their_years(item: Value, data: Value, date: Seq<char>, at: int)
    requires
        paper_in(&item) is Some,
        holds(item, "data"@, data),
        holds_text(data, "date"@, date),
        tidy(date),
        date.len() <= 128,
        forall|earlier: int| 0 <= earlier < at ==> !#[trigger] four_digits(date, earlier),
        four_digits(date, at) || at == date.len(),
    ensures
        paper_in(&item)->0.year == if four_digits(date, at) {
            date.subrange(at, at + 4)
        } else {
            Seq::<char>::empty()
        },
{
    law_members_are_found(item, "data"@, data);
    law_clean_lines_are_read(data, "date"@, date, 128);
    law_years_are_found(date, at);
}

/// What is there among what may be there, in order.
pub open spec fn those_there<A>(items: Seq<Option<A>>) -> Seq<A> {
    items.filter_map(|item: Option<A>| item)
}

/// The first ones of a sequence, as many as there may be.
pub open spec fn at_most_first<A>(items: Seq<A>, maximum: int) -> Seq<A> {
    if items.len() <= maximum {
        items
    } else {
        items.take(maximum)
    }
}

/// The tags of a paper are the texts in its list of tags, in order, the first
/// ten of them; a row without a text is left out, and no other.
pub proof fn law_papers_keep_their_tags(
    item: Value,
    data: Value,
    rows: Seq<Value>,
    tags: Seq<Option<Seq<char>>>,
)
    requires
        paper_in(&item) is Some,
        holds(item, "data"@, data),
        holds_list(data, "tags"@, rows),
        rows.len() == tags.len(),
        forall|i: int|
            #![trigger rows[i]]
            #![trigger tags[i]]
            0 <= i < rows.len() ==> match tags[i] {
                Some(tag) => holds_text(rows[i], "tag"@, tag) && says(tag, 48),
                None => lacks(rows[i], "tag"@),
            },
    ensures
        paper_in(&item)->0.tags == at_most_first(those_there(tags), 10),
{
    law_members_are_found(item, "data"@, data);
    law_lists_are_read(data, "tags"@, rows);
    let same = |tag: Option<Seq<char>>| tag;
    assert forall|i: int| 0 <= i < rows.len() implies #[trigger] tag_row()(rows[i]) == same(
        tags[i],
    ) by {
        match tags[i] {
            Some(tag) => {
                law_texts_are_found(rows[i], "tag"@, tag);
                law_tidy_lines_stay(tag, 48);
            },
            None => law_missing_members_are_not_found(rows[i], "tag"@),
        }
    }
    lemma_filter_map_agrees(rows, tag_row(), tags, same);
}

/// Whether a row names a creator: by a single name, by first and last name, or
/// by one of these where the other is missing.
pub open spec fn names_creator(row: Value, name: Seq<char>) -> bool {
    ||| holds_text(row, "name"@, name) && says(name, 128)
    ||| lacks(row, "name"@) && lacks(row, "firstName"@) && holds_text(row, "lastName"@, name)
        && says(name, 64)
    ||| lacks(row, "name"@) && lacks(row, "lastName"@) && holds_text(row, "firstName"@, name)
        && says(name, 64)
    ||| lacks(row, "name"@) && exists|first: Seq<char>, last: Seq<char>|
        {
            &&& #[trigger] holds_text(row, "firstName"@, first)
            &&& #[trigger] holds_text(row, "lastName"@, last)
            &&& says(first, 64)
            &&& says(last, 64)
            &&& first.len() + last.len() < 128
            &&& name == first + seq![' '] + last
        }
}

proof fn lemma_tidy_pair(first: Seq<char>, last: Seq<char>)
    requires
        tidy(first),
        tidy(last),
        first.len() > 0,
        last.len() > 0,
    ensures
        tidy(first + seq![' '] + last),
{
    let both = first + seq![' '] + last;
    let n = first.len();
    assert forall|i: int| 0 <= i < both.len() && Mark::Gap.hits(#[trigger] both[i]) implies both[i]
        == ' ' by {
        if i < n {
            assert(both[i] == first[i]);
        } else if i > n {
            assert(both[i] == last[i - n - 1]);
        }
    }
    assert(both[0] == first[0]);
    assert forall|i: int| 0 < i < both.len() && #[trigger] both[i] == ' ' implies both[i - 1]
        != ' ' by {
        if i < n {
            assert(both[i] == first[i] && both[i - 1] == first[i - 1]);
        } else if i == n {
            assert(both[i - 1] == first[n - 1]);
        } else {
            assert(both[i] == last[i - n - 1]);
            assert(last[0] != ' ');
            assert(both[i - 1] == last[i - n - 2]);
        }
    }
    assert(both[both.len() - 1] == last[last.len() - 1]);
}

proof fn lemma_one_name(name: Seq<char>)
    requires
        says(name, 64),
    ensures
        cleaned(Seq::<char>::empty() + " "@ + name, 128) == name,
        cleaned(name + " "@ + Seq::<char>::empty(), 128) == name,
{
    let space = seq![' '];
    reveal_strlit(" ");
    assert(" "@ =~= space);
    assert(Seq::<char>::empty() + " "@ + name =~= space + name);
    assert(name + " "@ + Seq::<char>::empty() =~= name + space);
    law_spaces_at_the_ends_go(name, space, 128);
}

proof fn lemma_creator(row: Value, name: Seq<char>)
    requires
        names_creator(row, name),
    ensures
        creator_in(&row) == Some(name),
{
    if holds_text(row, "name"@, name) && says(name, 128) {
        law_clean_lines_are_read(row, "name"@, name, 128);
    } else if lacks(row, "name"@) && lacks(row, "firstName"@) && holds_text(
        row,
        "lastName"@,
        name,
    ) && says(name, 64) {
        law_missing_members_are_not_found(row, "name"@);
        law_missing_members_are_not_found(row, "firstName"@);
        law_clean_lines_are_read(row, "lastName"@, name, 64);
        lemma_one_name(name);
    } else if lacks(row, "name"@) && lacks(row, "lastName"@) && holds_text(
        row,
        "firstName"@,
        name,
    ) && says(name, 64) {
        law_missing_members_are_not_found(row, "name"@);
        law_missing_members_are_not_found(row, "lastName"@);
        law_clean_lines_are_read(row, "firstName"@, name, 64);
        lemma_one_name(name);
    } else {
        let (first, last) = choose|first: Seq<char>, last: Seq<char>|
            {
                &&& #[trigger] holds_text(row, "firstName"@, first)
                &&& #[trigger] holds_text(row, "lastName"@, last)
                &&& says(first, 64)
                &&& says(last, 64)
                &&& first.len() + last.len() < 128
                &&& name == first + seq![' '] + last
            };
        law_missing_members_are_not_found(row, "name"@);
        law_clean_lines_are_read(row, "firstName"@, first, 64);
        law_clean_lines_are_read(row, "lastName"@, last, 64);
        lemma_tidy_pair(first, last);
        law_tidy_lines_stay(name, 128);
        reveal_strlit(" ");
        assert(" "@ =~= seq![' ']);
    }
}

/// The authors in the details of a paper are its creators, in order, the first
/// 64 of them; a row without a name is left out, and no other. A list names one
/// or both of one or two, and the first of more.
pub proof fn law_papers_keep_their_creators(
    item: Value,
    data: Value,
    rows: Seq<Value>,
    given: Seq<Option<Seq<char>>>,
)
    requires
        paper_in(&item) is Some,
        holds(item, "data"@, data),
        holds_list(data, "creators"@, rows),
        rows.len() == given.len(),
        forall|i: int|
            #![trigger rows[i]]
            #![trigger given[i]]
            0 <= i < rows.len() ==> match given[i] {
                Some(name) => names_creator(rows[i], name),
                None => lacks(rows[i], "name"@) && lacks(rows[i], "firstName"@) && lacks(
                    rows[i],
                    "lastName"@,
                ),
            },
    ensures
        ({
            let names = at_most_first(those_there(given), 64);
            let creators = paper_in(&item)->0.creators;
            &&& detail_in(&item) matches Some(detail) && detail.authors == names
            &&& names.len() == 0 ==> creators == Seq::<char>::empty()
            &&& names.len() == 1 ==> creators == cleaned(names[0], 160)
            &&& names.len() == 2 ==> creators == cleaned(names[0] + ", "@ + names[1], 160)
            &&& names.len() >= 3 ==> creators == cleaned(names[0] + " et al."@, 160)
        }),
{
    law_members_are_found(item, "data"@, data);
    law_lists_are_read(data, "creators"@, rows);
    let same = |name: Option<Seq<char>>| name;
    reveal_strlit(" ");
    assert forall|i: int| 0 <= i < rows.len() implies #[trigger] creator_row()(rows[i]) == same(
        given[i],
    ) by {
        match given[i] {
            Some(name) => lemma_creator(rows[i], name),
            None => {
                law_missing_members_are_not_found(rows[i], "name"@);
                law_missing_members_are_not_found(rows[i], "firstName"@);
                law_missing_members_are_not_found(rows[i], "lastName"@);
                law_blank_texts_are_empty(
                    Seq::<char>::empty() + " "@ + Seq::<char>::empty(),
                    128,
                );
            },
        }
    }
    lemma_filter_map_agrees(rows, creator_row(), given, same);
    law_tidy_lines_stay(Seq::empty(), 160);
}

/// The facts in the details come from the member of each: the DOI from `DOI`,
/// the source from `url`, the abstract from `abstractNote`.
pub proof fn law_details_come_from_their_members(
    root: Value,
    data: Value,
    doi: Seq<char>,
    url: Seq<char>,
    summary: Seq<char>,
)
    requires
        paper_in(&root) is Some,
        holds(root, "data"@, data),
    ensures
        detail_in(&root) matches Some(detail) && {
            &&& detail.paper == paper_in(&root)->0
            &&& holds_text(data, "DOI"@, doi) && tidy(doi) && doi.len() <= 512 ==> detail.doi == doi
            &&& holds_text(data, "url"@, url) && tidy(url) && url.len() <= 2048 ==> detail.url
                == url
            &&& holds_text(data, "abstractNote"@, summary) && tidy(summary) && summary.len()
                <= 96000 ==> detail.abstract_text == summary
            &&& lacks(data, "DOI"@) ==> detail.doi.len() == 0
            &&& lacks(data, "url"@) ==> detail.url.len() == 0
            &&& lacks(data, "abstractNote"@) ==> detail.abstract_text.len() == 0
        },
{
    law_members_are_found(root, "data"@, data);
    if holds_text(data, "DOI"@, doi) && tidy(doi) && doi.len() <= 512 {
        law_clean_lines_are_read(data, "DOI"@, doi, 512);
    }
    if holds_text(data, "url"@, url) && tidy(url) && url.len() <= 2048 {
        law_clean_lines_are_read(data, "url"@, url, 2048);
    }
    if holds_text(data, "abstractNote"@, summary) && tidy(summary) && summary.len() <= 96000 {
        law_clean_lines_are_read(data, "abstractNote"@, summary, 96000);
    }
    if lacks(data, "DOI"@) {
        law_missing_members_are_not_found(data, "DOI"@);
    }
    if lacks(data, "url"@) {
        law_missing_members_are_not_found(data, "url"@);
    }
    if lacks(data, "abstractNote"@) {
        law_missing_members_are_not_found(data, "abstractNote"@);
    }
}

/// Two items that agree on a member agree on the fact that comes from it,
/// whatever else differs: changing the source never changes the DOI.
pub proof fn law_facts_depend_on_their_own_members(a: Value, in_a: Value, b: Value, in_b: Value)
    requires
        paper_in(&a) is Some,
        paper_in(&b) is Some,
        holds(a, "data"@, in_a),
        holds(b, "data"@, in_b),
    ensures
        in_a.field("DOI"@) == in_b.field("DOI"@) ==> detail_in(&a)->0.doi == detail_in(&b)->0.doi,
        in_a.field("url"@) == in_b.field("url"@) ==> detail_in(&a)->0.url == detail_in(&b)->0.url,
        in_a.field("abstractNote"@) == in_b.field("abstractNote"@) ==> detail_in(
            &a,
        )->0.abstract_text == detail_in(&b)->0.abstract_text,
        in_a.field("creators"@) == in_b.field("creators"@) ==> detail_in(&a)->0.authors
            == detail_in(&b)->0.authors && paper_in(&a)->0.creators == paper_in(&b)->0.creators,
        in_a.field("title"@) == in_b.field("title"@) ==> paper_in(&a)->0.title == paper_in(
            &b,
        )->0.title,
        in_a.field("date"@) == in_b.field("date"@) ==> paper_in(&a)->0.year == paper_in(&b)->0.year,
        in_a.field("dateAdded"@) == in_b.field("dateAdded"@) ==> paper_in(&a)->0.date_added
            == paper_in(&b)->0.date_added,
        in_a.field("tags"@) == in_b.field("tags"@) ==> paper_in(&a)->0.tags == paper_in(&b)->0.tags,
{
    law_members_are_found(a, "data"@, in_a);
    law_members_are_found(b, "data"@, in_b);
}

/// The members that can say where an item appeared, the best first.
pub open spec fn venue_members() -> Seq<Seq<char>> {
    seq![
        "publicationTitle"@,
        "bookTitle"@,
        "proceedingsTitle"@,
        "conferenceName"@,
        "websiteTitle"@,
        "publisher"@,
    ]
}

/// Whether a member says nothing: it is not there, or its text is empty.
pub open spec fn is_silent(data: Value, name: Seq<char>) -> bool {
    lacks(data, name) || holds_text(data, name, Seq::empty())
}

/// The venue is the text of the first of these members that says something, and
/// nothing where none does.
pub proof fn law_venues_are_found(root: Value, data: Value, at: int, venue: Seq<char>)
    requires
        paper_in(&root) is Some,
        holds(root, "data"@, data),
        0 <= at <= venue_members().len(),
        forall|earlier: int|
            0 <= earlier < at ==> is_silent(data, #[trigger] venue_members()[earlier]),
        at < venue_members().len() ==> holds_text(data, venue_members()[at], venue) && says(
            venue,
            512,
        ),
    ensures
        detail_in(&root) matches Some(detail) && if at < venue_members().len() {
            detail.venue == venue
        } else {
            detail.venue.len() == 0
        },
{
    law_members_are_found(root, "data"@, data);
    let names = venue_members();
    assert forall|earlier: int| 0 <= earlier < at implies text_in(
        data.field(#[trigger] names[earlier]),
        512,
    ).len() == 0 by {
        if lacks(data, names[earlier]) {
            law_missing_members_are_not_found(data, names[earlier]);
        } else {
            law_clean_lines_are_read(data, names[earlier], Seq::empty(), 512);
        }
    }
    if at < names.len() {
        law_clean_lines_are_read(data, names[at], venue, 512);
    }
    assert(names[0] == "publicationTitle"@ && names[1] == "bookTitle"@ && names[2]
        == "proceedingsTitle"@ && names[3] == "conferenceName"@ && names[4] == "websiteTitle"@
        && names[5] == "publisher"@);
}

/// Whether a row is an attached PDF whose file Zotero holds itself.
pub open spec fn is_stored_pdf(row: Value, data: Value) -> bool {
    &&& holds(row, "data"@, data)
    &&& holds_text(data, "itemType"@, "attachment"@)
    &&& holds_text(data, "contentType"@, "application/pdf"@)
    &&& holds_text(data, "linkMode"@, "imported_file"@) || holds_text(
        data,
        "linkMode"@,
        "imported_url"@,
    )
}

/// Whether a row is a stored PDF with this key.
pub open spec fn stores_pdf(row: Value, key: Seq<char>) -> bool {
    exists|data: Value| #[trigger] is_stored_pdf(row, data) && keyed(row, data, key)
}

proof fn lemma_stored_pdf(row: Value, data: Value, key: Seq<char>)
    requires
        is_stored_pdf(row, data),
        keyed(row, data, key),
        key_like(key),
    ensures
        attachment_in(&row) matches Some(attachment) && attachment.key == key,
{
    law_members_are_found(row, "data"@, data);
    law_texts_are_found(data, "itemType"@, "attachment"@);
    law_texts_are_found(data, "contentType"@, "application/pdf"@);
    if holds_text(data, "linkMode"@, "imported_file"@) {
        law_texts_are_found(data, "linkMode"@, "imported_file"@);
    } else {
        law_texts_are_found(data, "linkMode"@, "imported_url"@);
    }
    lemma_key(row, data, key);
}

proof fn lemma_text_is_held(object: Value, name: Seq<char>, text: Seq<char>)
    requires
        crate::json::raw_text(object.field(name)) == Some(text),
    ensures
        holds_text(object, name, text),
{
    if let Value::Object(members) = object {
        lemma_named_first(members@, name);
    }
}

proof fn lemma_named_first(members: Seq<crate::json::Member>, name: Seq<char>)
    requires
        crate::json::named(members, name) is Some,
    ensures
        exists|at: int|
            #[trigger] crate::laws::members::first_called(members, name, at)
                && crate::json::named(members, name) == Some(&members[at].value),
    decreases members.len(),
{
    if members[0].name@ == name {
        assert(crate::laws::members::first_called(members, name, 0));
    } else {
        let rest = members.drop_first();
        lemma_named_first(rest, name);
        let at = choose|at: int|
            #[trigger] crate::laws::members::first_called(rest, name, at) && crate::json::named(
                rest,
                name,
            ) == Some(&rest[at].value);
        assert(rest[at] == members[at + 1]);
        assert forall|j: int| 0 <= j < at + 1 implies (#[trigger] members[j]).name@ != name by {
            if j > 0 {
                assert(rest[j - 1] == members[j]);
            }
        }
        assert(crate::laws::members::first_called(members, name, at + 1));
    }
}

proof fn lemma_attachment_is_stored_pdf(row: Value)
    requires
        attachment_in(&row) is Some,
    ensures
        exists|data: Value|
            #[trigger] is_stored_pdf(row, data) && attachment_in(&row)->0.key == key_in(&data, &row),
        key_like(attachment_in(&row)->0.key),
{
    let data = *(row.field("data"@)->0);
    assert(holds(row, "data"@, data)) by {
        if let Value::Object(members) = row {
            lemma_named_first(members@, "data"@);
        }
    }
    lemma_text_is_held(data, "itemType"@, "attachment"@);
    lemma_text_is_held(data, "contentType"@, "application/pdf"@);
    if crate::json::raw_text(data.field("linkMode"@)) == Some("imported_file"@) {
        lemma_text_is_held(data, "linkMode"@, "imported_file"@);
    } else {
        lemma_text_is_held(data, "linkMode"@, "imported_url"@);
    }
    assert(is_stored_pdf(row, data));
    law_keys_are_letters_and_digits(attachment_in(&row)->0.key);
}

/// What is selected among attachments is a stored PDF: an attachment of that
/// content type whose file Zotero holds. It is the first one with a usable
/// key, and there is none only if no row is one.
pub proof fn law_the_first_stored_pdf_is_selected(rows: Seq<Value>)
    ensures
        match first_attachment(rows) {
            Some(attachment) => exists|i: int, data: Value|
                {
                    &&& 0 <= i < rows.len()
                    &&& #[trigger] is_stored_pdf(rows[i], data)
                    &&& key_like(attachment.key)
                    &&& forall|key: Seq<char>|
                        keyed(rows[i], data, key) && key_like(key) ==> attachment.key == key
                    &&& forall|j: int, key: Seq<char>|
                        0 <= j < i && key_like(key) ==> !#[trigger] stores_pdf(rows[j], key)
                },
            None => forall|j: int, key: Seq<char>|
                0 <= j < rows.len() && key_like(key) ==> !#[trigger] stores_pdf(rows[j], key),
        },
    decreases rows.len(),
{
    if rows.len() > 0 {
        let first = rows[0];
        if attachment_in(&first) is Some {
            lemma_attachment_is_stored_pdf(first);
            let data = choose|data: Value|
                #[trigger] is_stored_pdf(first, data) && attachment_in(&first)->0.key == key_in(
                    &data,
                    &first,
                );
            assert forall|key: Seq<char>| keyed(rows[0], data, key) && key_like(key) implies
                first_attachment(rows)->0.key == key by {
                lemma_key(rows[0], data, key);
            }
            assert(is_stored_pdf(rows[0], data));
        } else {
            let rest = rows.drop_first();
            law_the_first_stored_pdf_is_selected(rest);
            assert forall|key: Seq<char>| key_like(key) implies !#[trigger] stores_pdf(
                rows[0],
                key,
            ) by {
                if stores_pdf(rows[0], key) {
                    let data = choose|data: Value|
                        #[trigger] is_stored_pdf(rows[0], data) && keyed(rows[0], data, key);
                    lemma_stored_pdf(rows[0], data, key);
                }
            }
            match first_attachment(rows) {
                Some(attachment) => {
                    let (i, data) = choose|i: int, data: Value|
                        {
                            &&& 0 <= i < rest.len()
                            &&& #[trigger] is_stored_pdf(rest[i], data)
                            &&& key_like(attachment.key)
                            &&& forall|key: Seq<char>|
                                keyed(rest[i], data, key) && key_like(key) ==> attachment.key
                                    == key
                            &&& forall|j: int, key: Seq<char>|
                                0 <= j < i && key_like(key) ==> !#[trigger] stores_pdf(rest[j], key)
                        };
                    assert(rows[i + 1] == rest[i]);
                    assert forall|j: int, key: Seq<char>| 0 <= j < i + 1 && key_like(
                        key,
                    ) implies !#[trigger] stores_pdf(rows[j], key) by {
                        if j > 0 {
                            assert(rows[j] == rest[j - 1]);
                        }
                    }
                    assert(is_stored_pdf(rows[i + 1], data));
                },
                None => {
                    assert forall|j: int, key: Seq<char>| 0 <= j < rows.len() && key_like(
                        key,
                    ) implies !#[trigger] stores_pdf(rows[j], key) by {
                        if j > 0 {
                            assert(rows[j] == rest[j - 1]);
                        }
                    }
                },
            }
        }
    }
}

/// Rows of another content type, or of another item type, never give a result.
pub proof fn law_other_files_are_no_pdf(row: Value, data: Value, other: Seq<char>)
    requires
        holds(row, "data"@, data),
        holds_text(data, "contentType"@, other) && other != "application/pdf"@ || holds_text(
            data,
            "itemType"@,
            other,
        ) && other != "attachment"@,
    ensures
        attachment_in(&row) is None,
{
    law_members_are_found(row, "data"@, data);
    if holds_text(data, "contentType"@, other) && other != "application/pdf"@ {
        law_texts_are_found(data, "contentType"@, other);
    } else {
        law_texts_are_found(data, "itemType"@, other);
    }
}

/// The version of a stored PDF is the number in its data, or else the one
/// beside them.
pub proof fn law_attachments_keep_their_versions(row: Value, data: Value, version: i64)
    requires
        attachment_in(&row) is Some,
        holds(row, "data"@, data),
        0 <= version <= u32::MAX,
        holds(data, "version"@, Value::Number(version)) || (lacks(data, "version"@) && holds(
            row,
            "version"@,
            Value::Number(version),
        )),
    ensures
        attachment_in(&row)->0.version == version,
{
    law_members_are_found(row, "data"@, data);
    if holds(data, "version"@, Value::Number(version)) {
        law_members_are_found(data, "version"@, Value::Number(version));
        law_numbers_are_read(data, "version"@, version);
    } else {
        law_missing_members_are_not_found(data, "version"@);
        law_members_are_found(row, "version"@, Value::Number(version));
        law_numbers_are_read(row, "version"@, version);
    }
}

/// Whether a row describes a collection.
pub open spec fn describes_collection(row: Value, collection: CollectionView) -> bool {
    exists|data: Value|
        {
            &&& #[trigger] holds(row, "data"@, data)
            &&& keyed(row, data, collection.key)
            &&& key_like(collection.key)
            &&& holds_text(data, "name"@, collection.name)
            &&& says(collection.name, 160)
        }
}

/// Whether a row has data but no usable name or key.
pub open spec fn describes_nothing(row: Value) -> bool {
    exists|data: Value|
        {
            &&& #[trigger] holds(row, "data"@, data)
            &&& lacks(data, "name"@) || (lacks(data, "key"@) && lacks(row, "key"@))
        }
}

/// The collections are those that the first hundred rows describe, in order,
/// each with its own key and name; a row without a name or a key is left out,
/// and no other.
pub proof fn law_collections_are_listed(rows: Vec<Value>, found: Seq<Option<CollectionView>>)
    requires
        rows@.len() == found.len(),
        forall|i: int|
            #![trigger rows@[i]]
            #![trigger found[i]]
            0 <= i < found.len() ==> match found[i] {
                Some(collection) => describes_collection(rows@[i], collection),
                None => describes_nothing(rows@[i]),
            },
    ensures
        collections_in(&Value::Array(rows)) == Some(those_there(at_most_first(found, 100))),
{
    let read = prefix(rows@, 100);
    let wanted = at_most_first(found, 100);
    let same = |collection: Option<CollectionView>| collection;
    assert forall|i: int| 0 <= i < read.len() implies #[trigger] collection_row()(read[i])
        == same(wanted[i]) && read[i].field("data"@) is Some by {
        let row = rows@[i];
        assert(read[i] == row && wanted[i] == found[i]);
        match found[i] {
            Some(collection) => {
                assert(describes_collection(row, collection));
                let data = choose|data: Value|
                    {
                        &&& #[trigger] holds(row, "data"@, data)
                        &&& keyed(row, data, collection.key)
                        &&& key_like(collection.key)
                        &&& holds_text(data, "name"@, collection.name)
                        &&& says(collection.name, 160)
                    };
                law_members_are_found(row, "data"@, data);
                lemma_key(row, data, collection.key);
                law_clean_lines_are_read(data, "name"@, collection.name, 160);
            },
            None => {
                assert(describes_nothing(row));
                let data = choose|data: Value|
                    {
                        &&& #[trigger] holds(row, "data"@, data)
                        &&& lacks(data, "name"@) || (lacks(data, "key"@) && lacks(row, "key"@))
                    };
                law_members_are_found(row, "data"@, data);
                if lacks(data, "name"@) {
                    law_missing_members_are_not_found(data, "name"@);
                } else {
                    law_missing_members_are_not_found(data, "key"@);
                    law_missing_members_are_not_found(row, "key"@);
                }
            },
        }
    }
    lemma_filter_map_agrees(read, collection_row(), wanted, same);
    assert(forall|i: int| 0 <= i < read.len() ==> (#[trigger] read[i]).field("data"@) is Some) by {
        assert forall|i: int| 0 <= i < read.len() implies (#[trigger] read[i]).field(
            "data"@,
        ) is Some by {
            assert(collection_row()(read[i]) == same(wanted[i]));
        }
    }
}

/// A row without data makes the list unreadable.
pub proof fn law_collections_need_data(rows: Vec<Value>, at: int)
    requires
        0 <= at < rows@.len(),
        at < 100,
        lacks(rows@[at], "data"@),
    ensures
        collections_in(&Value::Array(rows)) is None,
{
    law_missing_members_are_not_found(rows@[at], "data"@);
    let read = prefix(rows@, 100);
    assert(read[at] == rows@[at]);
}

proof fn lemma_filter_map_adds<A, B>(front: Seq<A>, rest: Seq<A>, f: spec_fn(A) -> Option<B>)
    ensures
        (front + rest).filter_map(f) == front.filter_map(f) + rest.filter_map(f),
    decreases rest.len(),
{
    if rest.len() == 0 {
        assert(front + rest =~= front);
        assert(front.filter_map(f) + rest.filter_map(f) =~= front.filter_map(f));
    } else {
        lemma_filter_map_adds(front, rest.drop_last(), f);
        assert((front + rest).drop_last() =~= front + rest.drop_last());
        assert((front + rest).filter_map(f) =~= front.filter_map(f) + rest.filter_map(f));
    }
}

/// A page lists the papers of its rows in order and leaves out no paper: the
/// papers of two halves are those of the whole, and a row alone gives its
/// paper.
pub proof fn law_pages_list_every_paper(whole: Vec<Value>, half: Vec<Value>, other: Vec<Value>)
    requires
        whole@ == half@ + other@,
    ensures
        papers_in(&Value::Array(whole)) matches Some(papers) && papers == papers_in(
            &Value::Array(half),
        )->0 + papers_in(&Value::Array(other))->0,
        half@.len() == 0 ==> papers_in(&Value::Array(half))->0.len() == 0,
        half@.len() == 1 ==> papers_in(&Value::Array(half))->0 == match paper_in(&half@[0]) {
            Some(paper) => seq![paper],
            None => Seq::<PaperView>::empty(),
        },
{
    lemma_filter_map_adds(half@, other@, paper_row());
    if half@.len() == 1 {
        assert(half@.drop_last() =~= Seq::<Value>::empty());
        assert(half@.drop_last().filter_map(paper_row()) =~= Seq::<PaperView>::empty());
        assert(half@.filter_map(paper_row()) =~= match paper_in(&half@[0]) {
            Some(paper) => seq![paper],
            None => Seq::<PaperView>::empty(),
        });
    }
}

/// Only a list is a page, a list of collections or a list of attachments.
pub proof fn law_only_lists_are_pages(root: Value)
    requires
        !(root is Array),
    ensures
        papers_in(&root) is None,
        collections_in(&root) is None,
{
}

/// The five states of a conversion are known, and no other; what the bridge
/// says of it comes from the member of each.
pub proof fn law_conversions_come_from_their_members(
    root: Value,
    state: Seq<char>,
    message: Seq<char>,
    document: Seq<char>,
    truncated: bool,
)
    requires
        holds_text(root, "state"@, state),
        says(state, 32),
    ensures
        conversion_in(&root) is Some <==> (state == "missing_pdf"@ || state == "queued"@ || state
            == "running"@ || state == "ready"@ || state == "failed"@),
        conversion_in(&root) matches Some(conversion) ==> {
            &&& conversion.state == state
            &&& holds_text(root, "message"@, message) && tidy(message) && message.len() <= 512
                ==> conversion.message == Some(message)
            &&& lacks(root, "message"@) ==> conversion.message is None
            &&& holds_text(root, "document_version"@, document) && tidy(document)
                && document.len() <= 64 ==> conversion.document_version == Some(document)
            &&& lacks(root, "document_version"@) ==> conversion.document_version is None
            &&& holds(root, "truncated"@, Value::Bool(truncated)) ==> conversion.truncated
                == truncated
            &&& lacks(root, "truncated"@) ==> !conversion.truncated
        },
{
    law_clean_lines_are_read(root, "state"@, state, 32);
    if holds_text(root, "message"@, message) && tidy(message) && message.len() <= 512 {
        law_texts_are_found(root, "message"@, message);
        law_tidy_lines_stay(message, 512);
    }
    if holds_text(root, "document_version"@, document) && tidy(document) && document.len() <= 64 {
        law_texts_are_found(root, "document_version"@, document);
        law_tidy_lines_stay(document, 64);
    }
    if holds(root, "truncated"@, Value::Bool(truncated)) {
        law_flags_are_read(root, "truncated"@, truncated);
    }
    if lacks(root, "message"@) {
        law_missing_members_are_not_found(root, "message"@);
    }
    if lacks(root, "document_version"@) {
        law_missing_members_are_not_found(root, "document_version"@);
    }
    if lacks(root, "truncated"@) {
        law_missing_members_are_not_found(root, "truncated"@);
    }
}

/// Every text of a paper is read on one clean line of at most so many
/// characters, whatever it holds.
pub proof fn law_texts_of_papers_are_cleaned(
    item: Value,
    data: Value,
    title: Seq<char>,
    added: Seq<char>,
    date: Seq<char>,
    doi: Seq<char>,
    url: Seq<char>,
    summary: Seq<char>,
)
    requires
        paper_in(&item) is Some,
        holds(item, "data"@, data),
    ensures
        holds_text(data, "title"@, title) ==> paper_in(&item)->0.title == cleaned(title, 512),
        holds_text(data, "dateAdded"@, added) ==> paper_in(&item)->0.date_added == cleaned(
            added,
            64,
        ),
        holds_text(data, "date"@, date) ==> paper_in(&item)->0.year == year_in(cleaned(date, 128)),
        holds_text(data, "DOI"@, doi) ==> detail_in(&item)->0.doi == cleaned(doi, 512),
        holds_text(data, "url"@, url) ==> detail_in(&item)->0.url == cleaned(url, 2048),
        holds_text(data, "abstractNote"@, summary) ==> detail_in(&item)->0.abstract_text == cleaned(
            summary,
            96000,
        ),
{
    law_members_are_found(item, "data"@, data);
    if holds_text(data, "title"@, title) {
        law_texts_are_found(data, "title"@, title);
    }
    if holds_text(data, "dateAdded"@, added) {
        law_texts_are_found(data, "dateAdded"@, added);
    }
    if holds_text(data, "date"@, date) {
        law_texts_are_found(data, "date"@, date);
    }
    if holds_text(data, "DOI"@, doi) {
        law_texts_are_found(data, "DOI"@, doi);
    }
    if holds_text(data, "url"@, url) {
        law_texts_are_found(data, "url"@, url);
    }
    if holds_text(data, "abstractNote"@, summary) {
        law_texts_are_found(data, "abstractNote"@, summary);
    }
}

/// The text of a row is cleaned too: of a tag, of a collection's name, and of a
/// creator's.
pub proof fn law_texts_of_rows_are_cleaned(row: Value, data: Value, text: Seq<char>)
    ensures
        holds_text(row, "tag"@, text) && cleaned(text, 48).len() > 0 ==> tag_in(&row) == Some(
            cleaned(text, 48),
        ),
        holds_text(row, "tag"@, text) && cleaned(text, 48).len() == 0 ==> tag_in(&row) is None,
        holds_text(row, "name"@, text) && cleaned(text, 128).len() > 0 ==> creator_in(&row) == Some(
            cleaned(text, 128),
        ),
        holds(row, "data"@, data) && holds_text(data, "name"@, text) && collection_in(&row) is Some
            ==> collection_in(&row)->0.name == cleaned(text, 160),
{
    if holds_text(row, "tag"@, text) {
        law_texts_are_found(row, "tag"@, text);
    }
    if holds_text(row, "name"@, text) {
        law_texts_are_found(row, "name"@, text);
    }
    if holds(row, "data"@, data) && holds_text(data, "name"@, text) {
        law_members_are_found(row, "data"@, data);
        law_texts_are_found(data, "name"@, text);
    }
}

} // verus!

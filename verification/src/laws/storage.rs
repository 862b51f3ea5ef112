//! Lists that are stored hold every fact under its own name, and are read from
//! there again.
use vstd::prelude::*;

use crate::cache::{
    is_text, snapshot_in, stored_paper_in, stored_paper_row, stored_tag_row, stores_paper,
    stores_snapshot,
};
use crate::json::Value;
use crate::laws::members::{
    first_called, holds, holds_list, holds_text, lacks, law_clean_lines_are_read,
    law_flags_are_read, law_lists_are_read, law_members_are_found,
    law_missing_members_are_not_found, law_numbers_are_read,
};
use crate::laws::papers::{key_like, law_keys_are_letters_and_digits, says};
use crate::model::{PaperView, SnapshotView};
use crate::order::newest_first;
use crate::records::lemma_all_read;
use crate::tidy::{law_tidy_lines_stay, lemma_plain_is_tidy, tidy};

verus! {

proof fn lemma_paper_names()
    ensures
        "key"@.len() == 3,
        "version"@.len() == 7,
        "title"@.len() == 5,
        "creator_summary"@.len() == 15,
        "year"@.len() == 4 && "year"@[0] == 'y',
        "date_added"@.len() == 10,
        "tags"@.len() == 4 && "tags"@[0] == 't',
        "has_stored_pdf"@.len() == 14,
{
    reveal_strlit("key");
    reveal_strlit("version");
    reveal_strlit("title");
    reveal_strlit("creator_summary");
    reveal_strlit("year");
    reveal_strlit("date_added");
    reveal_strlit("tags");
    reveal_strlit("has_stored_pdf");
}

/// Each fact about a stored paper stands under its own name.
pub proof fn law_stored_papers_hold_their_facts(value: Value, paper: PaperView)
    requires
        stores_paper(value, paper),
    ensures
        holds_text(value, "key"@, paper.key),
        holds_text(value, "title"@, paper.title),
        holds_text(value, "creator_summary"@, paper.creators),
        holds_text(value, "year"@, paper.year),
        holds_text(value, "date_added"@, paper.date_added),
        holds(value, "version"@, Value::Number(paper.version as i64)),
        holds(value, "has_stored_pdf"@, Value::Bool(paper.has_pdf)),
        exists|items: Seq<Value>|
            #[trigger] holds_list(value, "tags"@, items) && items.len() == paper.tags.len()
                && forall|i: int|
                0 <= i < items.len() ==> (#[trigger] items[i] matches Value::Text(held) && held@
                    == paper.tags[i]),
{
    lemma_paper_names();
    if let Value::Object(members) = value {
        assert(first_called(members@, "key"@, 0));
        assert(first_called(members@, "version"@, 1));
        assert(first_called(members@, "title"@, 2));
        assert(first_called(members@, "creator_summary"@, 3));
        assert(first_called(members@, "year"@, 4));
        assert(first_called(members@, "date_added"@, 5));
        assert(first_called(members@, "tags"@, 6));
        assert(first_called(members@, "has_stored_pdf"@, 7));
        if let Value::Array(items) = members@[6].value {
            assert(holds_list(value, "tags"@, items@));
            assert forall|i: int| 0 <= i < items@.len() implies (#[trigger] items@[i] matches
                Value::Text(held) && held@ == paper.tags[i]) by {
                assert(is_text(items@[i], paper.tags[i]));
            }
        }
    }
}

/// Each fact about a stored list stands under its own name, and every paper is
/// in it, in order.
pub proof fn law_stored_lists_hold_their_facts(value: Value, snapshot: SnapshotView)
    requires
        stores_snapshot(value, snapshot),
    ensures
        holds_text(value, "collection_key"@, snapshot.collection_key),
        holds_text(value, "revision"@, snapshot.revision),
        holds(value, "truncated"@, Value::Bool(snapshot.truncated)),
        snapshot.total <= u32::MAX ==> holds(
            value,
            "total"@,
            Value::Number(snapshot.total as i64),
        ),
        snapshot.total > u32::MAX ==> holds(value, "total"@, Value::Number(4294967295)),
        exists|items: Seq<Value>|
            #[trigger] holds_list(value, "items"@, items) && items.len() == snapshot.papers.len()
                && forall|i: int|
                0 <= i < items.len() ==> stores_paper(#[trigger] items[i], snapshot.papers[i]),
{
    reveal_strlit("collection_key");
    reveal_strlit("revision");
    reveal_strlit("total");
    reveal_strlit("truncated");
    reveal_strlit("items");
    assert("collection_key"@.len() == 14 && "revision"@.len() == 8 && "truncated"@.len() == 9);
    assert("total"@[0] == 't' && "items"@[0] == 'i');
    assert("total"@.len() == 5 && "items"@.len() == 5);
    if let Value::Object(members) = value {
        assert(first_called(members@, "collection_key"@, 0));
        assert(first_called(members@, "revision"@, 1));
        assert(first_called(members@, "total"@, 2));
        assert(first_called(members@, "truncated"@, 3));
        assert(first_called(members@, "items"@, 4));
        if let Value::Array(items) = members@[4].value {
            assert(holds_list(value, "items"@, items@));
        }
    }
}

/// A stored paper is read from its members: each fact from the one that holds
/// it.
pub proof fn law_stored_papers_are_read(
    value: Value,
    paper: PaperView,
    tags: Seq<Value>,
)
    requires
        holds_text(value, "key"@, paper.key),
        key_like(paper.key),
        holds_text(value, "title"@, paper.title),
        says(paper.title, 512),
        holds_text(value, "creator_summary"@, paper.creators),
        tidy(paper.creators),
        paper.creators.len() <= 160,
        holds_text(value, "year"@, paper.year),
        tidy(paper.year),
        paper.year.len() <= 16,
        holds_text(value, "date_added"@, paper.date_added),
        tidy(paper.date_added),
        paper.date_added.len() <= 64,
        holds(value, "version"@, Value::Number(paper.version as i64)),
        holds(value, "has_stored_pdf"@, Value::Bool(paper.has_pdf)),
        holds_list(value, "tags"@, tags),
        tags.len() == paper.tags.len() <= 10,
        forall|i: int|
            #![trigger tags[i]]
            #![trigger paper.tags[i]]
            0 <= i < tags.len() ==> (tags[i] matches Value::Text(held) && held@ == paper.tags[i])
                && says(paper.tags[i], 48),
    ensures
        stored_paper_in(&value) == Some(paper),
{
    law_keys_are_letters_and_digits(paper.key);
    lemma_plain_is_tidy(paper.key);
    law_clean_lines_are_read(value, "key"@, paper.key, 32);
    law_clean_lines_are_read(value, "title"@, paper.title, 512);
    law_clean_lines_are_read(value, "creator_summary"@, paper.creators, 160);
    law_clean_lines_are_read(value, "year"@, paper.year, 16);
    law_clean_lines_are_read(value, "date_added"@, paper.date_added, 64);
    law_numbers_are_read(value, "version"@, paper.version as i64);
    law_flags_are_read(value, "has_stored_pdf"@, paper.has_pdf);
    law_lists_are_read(value, "tags"@, tags);
    assert forall|i: int| 0 <= i < tags.len() implies stored_tag_row()(#[trigger] tags[i]) == Some(
        paper.tags[i],
    ) by {
        law_tidy_lines_stay(paper.tags[i], 48);
    }
    lemma_all_read(tags, stored_tag_row(), paper.tags);
}

/// A stored list is read from its members: every usable paper of its first 500
/// rows, the newest first.
pub proof fn law_stored_lists_are_read(
    value: Value,
    rows: Seq<Value>,
    papers: Seq<PaperView>,
    collection_key: Seq<char>,
    revision: Seq<char>,
    total: i64,
    truncated: bool,
)
    requires
        holds_list(value, "items"@, rows),
        rows.len() == papers.len() <= 500,
        forall|i: int|
            #![trigger rows[i]]
            #![trigger papers[i]]
            0 <= i < rows.len() ==> stored_paper_in(&rows[i]) == Some(papers[i]),
        holds_text(value, "collection_key"@, collection_key),
        key_like(collection_key),
        holds_text(value, "revision"@, revision),
        tidy(revision),
        revision.len() <= 32,
        holds(value, "total"@, Value::Number(total)),
        0 <= total <= u32::MAX,
        holds(value, "truncated"@, Value::Bool(truncated)),
    ensures
        snapshot_in(&value) == Some(
            SnapshotView {
                collection_key,
                revision,
                total: total as usize,
                truncated,
                papers: newest_first(papers),
            },
        ),
{
    law_keys_are_letters_and_digits(collection_key);
    lemma_plain_is_tidy(collection_key);
    law_clean_lines_are_read(value, "collection_key"@, collection_key, 32);
    law_clean_lines_are_read(value, "revision"@, revision, 32);
    law_numbers_are_read(value, "total"@, total);
    law_flags_are_read(value, "truncated"@, truncated);
    law_lists_are_read(value, "items"@, rows);
    assert forall|i: int| 0 <= i < rows.len() implies stored_paper_row()(#[trigger] rows[i])
        == Some(papers[i]) by {}
    lemma_all_read(rows, stored_paper_row(), papers);
    assert(value.field("items"@) is Some) by {
        if let Value::Object(members) = value {
            let at = choose|at: int|
                first_called(members@, "items"@, at) && (members@[at].value matches Value::Array(
                    held,
                ) && held@ == rows);
            law_members_are_found(value, "items"@, members@[at].value);
        }
    }
    if let Value::Object(members) = value {
        let at = choose|at: int|
            first_called(members@, "items"@, at) && (members@[at].value matches Value::Array(held)
                && held@ == rows);
        law_members_are_found(value, "items"@, members@[at].value);
    }
}

/// Stored rows without a usable key or without a title are no papers, and what
/// holds no items is no list.
pub proof fn law_stored_rows_need_a_key_and_a_title(value: Value)
    ensures
        lacks(value, "key"@) ==> stored_paper_in(&value) is None,
        lacks(value, "title"@) ==> stored_paper_in(&value) is None,
        lacks(value, "items"@) ==> snapshot_in(&value) is None,
{
    if lacks(value, "key"@) {
        law_missing_members_are_not_found(value, "key"@);
    }
    if lacks(value, "title"@) {
        law_missing_members_are_not_found(value, "title"@);
    }
    if lacks(value, "items"@) {
        law_missing_members_are_not_found(value, "items"@);
    }
}

} // verus!

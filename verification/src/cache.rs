//! The list of a collection's papers as it is kept on the reader.
use vstd::prelude::*;

use crate::json::{
    flag, flag_in, items_in, number, number_in, text, text_in, version, version_in, Member, Value,
};
use crate::keys::{is_key, valid_key};
use crate::model::{Paper, PaperView, Snapshot, SnapshotView, MAX_ITEMS};
use crate::order::{law_sorted_papers_stay, newest_first, newest_lead, sort_newest};
use crate::text::{clean, cleaned, prefix, seen};
use crate::zotero::{lemma_prefix_push, MAX_TAGS};

verus! {

/// Whether a value is the given text.
pub open spec fn is_text(value: Value, text: Seq<char>) -> bool {
    value matches Value::Text(held) && held@ == text
}

/// Whether a value is the list of the given texts.
pub open spec fn is_texts(value: Value, texts: Seq<Seq<char>>) -> bool {
    value matches Value::Array(items) && items@.len() == texts.len() && forall|i: int|
        0 <= i < texts.len() ==> is_text(#[trigger] items@[i], texts[i])
}

/// Whether a value is the stored form of a paper: an object with these
/// members, in this order.
pub open spec fn stores_paper(value: Value, paper: PaperView) -> bool {
    &&& value matches Value::Object(members)
    &&& members@.len() == 8
    &&& members@[0].name@ == "key"@ && is_text(members@[0].value, paper.key)
    &&& members@[1].name@ == "version"@ && members@[1].value == Value::Number(paper.version as i64)
    &&& members@[2].name@ == "title"@ && is_text(members@[2].value, paper.title)
    &&& members@[3].name@ == "creator_summary"@ && is_text(members@[3].value, paper.creators)
    &&& members@[4].name@ == "year"@ && is_text(members@[4].value, paper.year)
    &&& members@[5].name@ == "date_added"@ && is_text(members@[5].value, paper.date_added)
    &&& members@[6].name@ == "tags"@ && is_texts(members@[6].value, paper.tags)
    &&& members@[7].name@ == "has_stored_pdf"@ && members@[7].value == Value::Bool(paper.has_pdf)
}

/// Whether a value is the list of the stored forms of the papers.
pub open spec fn stores_papers(value: Value, papers: Seq<PaperView>) -> bool {
    value matches Value::Array(items) && items@.len() == papers.len() && forall|i: int|
        0 <= i < papers.len() ==> stores_paper(#[trigger] items@[i], papers[i])
}

/// `total`, held at the largest 32-bit number.
pub open spec fn stored_total(total: usize) -> i64 {
    if total <= u32::MAX {
        total as i64
    } else {
        u32::MAX as i64
    }
}

/// Whether a value is the stored form of a snapshot: an object with these
/// members, in this order.
pub open spec fn stores_snapshot(value: Value, snapshot: SnapshotView) -> bool {
    &&& value matches Value::Object(members)
    &&& members@.len() == 5
    &&& members@[0].name@ == "collection_key"@ && is_text(
        members@[0].value,
        snapshot.collection_key,
    )
    &&& members@[1].name@ == "revision"@ && is_text(members@[1].value, snapshot.revision)
    &&& members@[2].name@ == "total"@ && members@[2].value == Value::Number(
        stored_total(snapshot.total),
    )
    &&& members@[3].name@ == "truncated"@ && members@[3].value == Value::Bool(snapshot.truncated)
    &&& members@[4].name@ == "items"@ && stores_papers(members@[4].value, snapshot.papers)
}

/// A member of an object.
fn member(name: &str, value: Value) -> (made: Member)
    ensures
        made.name@ == name@,
        made.value == value,
{
    Member { name: name.to_owned(), value }
}

/// The stored form of texts.
fn store_texts(texts: &Vec<String>) -> (value: Value)
    ensures
        is_texts(value, seen(texts@)),
{
    let mut items: Vec<Value> = Vec::new();
    for i in 0..texts.len()
        invariant
            items@.len() == i,
            forall|j: int| 0 <= j < i ==> is_text(#[trigger] items@[j], seen(texts@)[j]),
    {
        items.push(Value::Text(texts[i].clone()));
    }
    Value::Array(items)
}

/// The stored form of a paper.
fn store_paper(paper: &Paper) -> (value: Value)
    ensures
        stores_paper(value, paper@),
{
    let mut members: Vec<Member> = Vec::new();
    members.push(member("key", Value::Text(paper.key.clone())));
    members.push(member("version", Value::Number(paper.version as i64)));
    members.push(member("title", Value::Text(paper.title.clone())));
    members.push(member("creator_summary", Value::Text(paper.creators.clone())));
    members.push(member("year", Value::Text(paper.year.clone())));
    members.push(member("date_added", Value::Text(paper.date_added.clone())));
    members.push(member("tags", store_texts(&paper.tags)));
    members.push(member("has_stored_pdf", Value::Bool(paper.has_pdf)));
    Value::Object(members)
}

/// The normalized form of a snapshot that is stored on the reader.
pub fn encode_snapshot(snapshot: &Snapshot) -> (value: Value)
    ensures
        stores_snapshot(value, snapshot@),
{
    let mut items: Vec<Value> = Vec::new();
    for i in 0..snapshot.papers.len()
        invariant
            items@.len() == i,
            forall|j: int|
                0 <= j < i ==> stores_paper(#[trigger] items@[j], seen(snapshot.papers@)[j]),
    {
        items.push(store_paper(&snapshot.papers[i]));
    }
    let total: i64 = if snapshot.total <= u32::MAX as usize {
        snapshot.total as i64
    } else {
        u32::MAX as i64
    };
    let mut members: Vec<Member> = Vec::new();
    members.push(member("collection_key", Value::Text(snapshot.collection_key.clone())));
    members.push(member("revision", Value::Text(snapshot.revision.clone())));
    members.push(member("total", Value::Number(total)));
    members.push(member("truncated", Value::Bool(snapshot.truncated)));
    members.push(member("items", Value::Array(items)));
    Value::Object(members)
}

pub open spec fn stored_tag_in(tag: &Value) -> Option<Seq<char>> {
    match tag {
        Value::Text(text) => {
            let line = cleaned(text@, 48);
            if line.len() > 0 {
                Some(line)
            } else {
                None
            }
        },
        _ => None,
    }
}

pub open spec fn stored_tag_row() -> spec_fn(Value) -> Option<Seq<char>> {
    |tag: Value| stored_tag_in(&tag)
}

/// The first stored tags that are not empty.
pub open spec fn stored_tags_in(value: &Value) -> Seq<Seq<char>> {
    prefix(items_in(value.field("tags"@)).filter_map(stored_tag_row()), MAX_TAGS as nat)
}

/// Reads stored tags.
fn stored_tags(value: &Value) -> (names: Vec<String>)
    ensures
        seen(names@) == stored_tags_in(value),
{
    let mut names: Vec<String> = Vec::new();
    let ghost rows = items_in(value.field("tags"@));
    assert(seen(names@) =~= prefix(rows.take(0).filter_map(stored_tag_row()), MAX_TAGS as nat));
    if let Some(Value::Array(tags)) = value.get("tags") {
        for i in 0..tags.len()
            invariant
                rows == tags@,
                seen(names@) == prefix(
                    rows.take(i as int).filter_map(stored_tag_row()),
                    MAX_TAGS as nat,
                ),
        {
            let ghost done = rows.take(i as int).filter_map(stored_tag_row());
            proof {
                rows.lemma_filter_map_take_succ(stored_tag_row(), i as int);
                assert(done + Seq::<Seq<char>>::empty() =~= done);
            }
            if let Value::Text(tag) = &tags[i] {
                let name = clean(tag, 48);
                if !name.as_str().is_empty() {
                    let ghost added = name@;
                    proof {
                        assert(done + seq![added] =~= done.push(added));
                        lemma_prefix_push(done, added, MAX_TAGS as nat);
                    }
                    if names.len() < MAX_TAGS {
                        let ghost before = names@;
                        names.push(name);
                        assert(seen(names@) =~= seen(before).push(added));
                    }
                }
            }
        }
        assert(rows.take(rows.len() as int) =~= rows);
    } else {
        assert(rows.take(0) =~= rows);
    }
    names
}

/// The paper in its stored form, if its key and its title are usable.
pub open spec fn stored_paper_in(value: &Value) -> Option<PaperView> {
    let key = text_in(value.field("key"@), 32);
    let title = text_in(value.field("title"@), 512);
    if is_key(key) && title.len() > 0 {
        Some(
            PaperView {
                key,
                version: version_in(value.field("version"@)),
                title,
                creators: text_in(value.field("creator_summary"@), 160),
                year: text_in(value.field("year"@), 16),
                date_added: text_in(value.field("date_added"@), 64),
                tags: stored_tags_in(value),
                has_pdf: flag_in(value.field("has_stored_pdf"@)),
            },
        )
    } else {
        None
    }
}

pub open spec fn stored_paper_row() -> spec_fn(Value) -> Option<PaperView> {
    |value: Value| stored_paper_in(&value)
}

/// Reads a stored paper.
pub fn normalized_paper(value: &Value) -> (paper: Option<Paper>)
    ensures
        match paper {
            Some(paper) => stored_paper_in(value) == Some(paper@),
            None => stored_paper_in(value) is None,
        },
{
    let key = text(value.get("key"), 32);
    let title = text(value.get("title"), 512);
    if !valid_key(&key) || title.as_str().is_empty() {
        return None;
    }
    Some(
        Paper {
            key,
            version: version(value.get("version")),
            title,
            creators: text(value.get("creator_summary"), 160),
            year: text(value.get("year"), 16),
            date_added: text(value.get("date_added"), 64),
            tags: stored_tags(value),
            has_pdf: flag(value.get("has_stored_pdf")),
        },
    )
}

/// The snapshot in its stored form: the usable ones of its first papers, the
/// newest first.
pub open spec fn snapshot_in(root: &Value) -> Option<SnapshotView> {
    match root.field("items"@) {
        Some(Value::Array(rows)) => Some(
            SnapshotView {
                collection_key: text_in(root.field("collection_key"@), 32),
                revision: text_in(root.field("revision"@), 32),
                total: number_in(root.field("total"@)),
                truncated: flag_in(root.field("truncated"@)),
                papers: newest_first(
                    prefix(rows@, MAX_ITEMS as nat).filter_map(stored_paper_row()),
                ),
            },
        ),
        _ => None,
    }
}

/// Reads a stored snapshot.
pub fn snapshot(root: &Value) -> (stored: Option<Snapshot>)
    ensures
        match stored {
            Some(stored) => snapshot_in(root) == Some(stored@),
            None => snapshot_in(root) is None,
        },
{
    match root.get("items") {
        Some(Value::Array(rows)) => {
            let last: usize = if rows.len() < MAX_ITEMS {
                rows.len()
            } else {
                MAX_ITEMS
            };
            let ghost read = prefix(rows@, MAX_ITEMS as nat);
            assert(read =~= rows@.take(last as int));
            let mut papers: Vec<Paper> = Vec::new();
            assert(seen(papers@) =~= read.take(0).filter_map(stored_paper_row()));
            for i in 0..last
                invariant
                    last <= rows@.len(),
                    read == rows@.take(last as int),
                    seen(papers@) == read.take(i as int).filter_map(stored_paper_row()),
            {
                proof {
                    read.lemma_filter_map_take_succ(stored_paper_row(), i as int);
                    assert(seen(papers@) + Seq::<PaperView>::empty() =~= seen(papers@));
                    assert(read[i as int] == rows@[i as int]);
                }
                if let Some(paper) = normalized_paper(&rows[i]) {
                    let ghost before = papers@;
                    let ghost added = paper@;
                    papers.push(paper);
                    assert(seen(papers@) =~= seen(before).push(added));
                    assert(seen(before).push(added) =~= seen(before) + seq![added]);
                }
            }
            assert(read.take(last as int) =~= read);
            let papers = sort_newest(papers);
            Some(
                Snapshot {
                    collection_key: text(root.get("collection_key"), 32),
                    revision: text(root.get("revision"), 32),
                    total: number(root.get("total")),
                    truncated: flag(root.get("truncated")),
                    papers,
                },
            )
        },
        _ => None,
    }
}

/// Two ways through two sequences that agree item by item keep the same items.
pub proof fn lemma_filter_map_agrees<A, B, C>(
    left: Seq<A>,
    f: spec_fn(A) -> Option<C>,
    right: Seq<B>,
    g: spec_fn(B) -> Option<C>,
)
    requires
        left.len() == right.len(),
        forall|i: int| 0 <= i < left.len() ==> #[trigger] f(left[i]) == g(right[i]),
    ensures
        left.filter_map(f) == right.filter_map(g),
    decreases left.len(),
{
    if left.len() > 0 {
        let n = left.len() - 1;
        assert(f(left[n]) == g(right[n]));
        assert forall|i: int| 0 <= i < left.drop_last().len() implies #[trigger] f(
            left.drop_last()[i],
        ) == g(right.drop_last()[i]) by {
            assert(f(left[i]) == g(right[i]));
        }
        lemma_filter_map_agrees(left.drop_last(), f, right.drop_last(), g);
    }
}

pub open spec fn reloaded_tag() -> spec_fn(Seq<char>) -> Option<Seq<char>> {
    |tag: Seq<char>|
        if cleaned(tag, 48).len() > 0 {
            Some(cleaned(tag, 48))
        } else {
            None
        }
}

/// What storing a paper and reading it again makes of it.
pub open spec fn reloaded_paper(paper: PaperView) -> Option<PaperView> {
    let key = cleaned(paper.key, 32);
    let title = cleaned(paper.title, 512);
    if is_key(key) && title.len() > 0 {
        Some(
            PaperView {
                key,
                version: paper.version,
                title,
                creators: cleaned(paper.creators, 160),
                year: cleaned(paper.year, 16),
                date_added: cleaned(paper.date_added, 64),
                tags: prefix(paper.tags.filter_map(reloaded_tag()), MAX_TAGS as nat),
                has_pdf: paper.has_pdf,
            },
        )
    } else {
        None
    }
}

pub open spec fn reloaded_row() -> spec_fn(PaperView) -> Option<PaperView> {
    |paper: PaperView| reloaded_paper(paper)
}

/// What storing a snapshot and reading it again makes of it.
pub open spec fn reloaded(snapshot: SnapshotView) -> SnapshotView {
    SnapshotView {
        collection_key: cleaned(snapshot.collection_key, 32),
        revision: cleaned(snapshot.revision, 32),
        total: stored_total(snapshot.total) as usize,
        truncated: snapshot.truncated,
        papers: newest_first(prefix(snapshot.papers, MAX_ITEMS as nat).filter_map(reloaded_row())),
    }
}

proof fn lemma_paper_members(value: Value, paper: PaperView)
    requires
        stores_paper(value, paper),
    ensures
        value matches Value::Object(members) && {
            &&& value.field("key"@) == Some(&members@[0].value)
            &&& value.field("version"@) == Some(&members@[1].value)
            &&& value.field("title"@) == Some(&members@[2].value)
            &&& value.field("creator_summary"@) == Some(&members@[3].value)
            &&& value.field("year"@) == Some(&members@[4].value)
            &&& value.field("date_added"@) == Some(&members@[5].value)
            &&& value.field("tags"@) == Some(&members@[6].value)
            &&& value.field("has_stored_pdf"@) == Some(&members@[7].value)
        },
{
    reveal_strlit("key");
    reveal_strlit("version");
    reveal_strlit("title");
    reveal_strlit("creator_summary");
    reveal_strlit("year");
    reveal_strlit("date_added");
    reveal_strlit("tags");
    reveal_strlit("has_stored_pdf");
    assert("version"@.len() == 7 && "title"@.len() == 5 && "creator_summary"@.len() == 15);
    assert("key"@.len() == 3 && "date_added"@.len() == 10 && "has_stored_pdf"@.len() == 14);
    assert("year"@[0] == 'y' && "tags"@[0] == 't');
    reveal_with_fuel(crate::json::named, 9);
}

/// A stored paper reads as the paper with its texts cleaned.
pub proof fn law_stored_paper_reads_back(value: Value, paper: PaperView)
    requires
        stores_paper(value, paper),
    ensures
        stored_paper_in(&value) == reloaded_paper(paper),
{
    lemma_paper_members(value, paper);
    let items = items_in(value.field("tags"@));
    assert forall|i: int| 0 <= i < items.len() implies #[trigger] stored_tag_row()(items[i])
        == reloaded_tag()(paper.tags[i]) by {
        assert(is_text(items[i], paper.tags[i]));
    }
    lemma_filter_map_agrees(items, stored_tag_row(), paper.tags, reloaded_tag());
}

proof fn lemma_snapshot_members(value: Value, snapshot: SnapshotView)
    requires
        stores_snapshot(value, snapshot),
    ensures
        value matches Value::Object(members) && {
            &&& value.field("collection_key"@) == Some(&members@[0].value)
            &&& value.field("revision"@) == Some(&members@[1].value)
            &&& value.field("total"@) == Some(&members@[2].value)
            &&& value.field("truncated"@) == Some(&members@[3].value)
            &&& value.field("items"@) == Some(&members@[4].value)
        },
{
    reveal_strlit("collection_key");
    reveal_strlit("revision");
    reveal_strlit("total");
    reveal_strlit("truncated");
    reveal_strlit("items");
    assert("collection_key"@.len() == 14 && "revision"@.len() == 8 && "truncated"@.len() == 9);
    assert("total"@[0] == 't' && "items"@[0] == 'i');
    assert("total"@.len() == 5 && "items"@.len() == 5);
    reveal_with_fuel(crate::json::named, 6);
}

/// A stored snapshot reads as the snapshot with its texts cleaned, at most as
/// many papers as a list shows, and the newest first.
pub proof fn law_stored_snapshot_reads_back(value: Value, snapshot: SnapshotView)
    requires
        stores_snapshot(value, snapshot),
    ensures
        snapshot_in(&value) == Some(reloaded(snapshot)),
{
    lemma_snapshot_members(value, snapshot);
    let rows = items_in(value.field("items"@));
    let read = prefix(rows, MAX_ITEMS as nat);
    let papers = prefix(snapshot.papers, MAX_ITEMS as nat);
    assert forall|i: int| 0 <= i < read.len() implies #[trigger] stored_paper_row()(read[i])
        == reloaded_row()(papers[i]) by {
        assert(stores_paper(rows[i], snapshot.papers[i]));
        law_stored_paper_reads_back(rows[i], snapshot.papers[i]);
    }
    lemma_filter_map_agrees(read, stored_paper_row(), papers, reloaded_row());
}

/// A paper that storing does not change: its texts are clean lines within
/// their limits, its key is usable, its title and tags are not empty.
pub open spec fn settled_paper(paper: PaperView) -> bool {
    &&& is_key(paper.key)
    &&& cleaned(paper.key, 32) == paper.key
    &&& paper.title.len() > 0
    &&& cleaned(paper.title, 512) == paper.title
    &&& cleaned(paper.creators, 160) == paper.creators
    &&& cleaned(paper.year, 16) == paper.year
    &&& cleaned(paper.date_added, 64) == paper.date_added
    &&& paper.tags.len() <= MAX_TAGS
    &&& forall|i: int|
        0 <= i < paper.tags.len() ==> (#[trigger] paper.tags[i]).len() > 0 && cleaned(
            paper.tags[i],
            48,
        ) == paper.tags[i]
}

/// A snapshot that storing does not change.
pub open spec fn settled(snapshot: SnapshotView) -> bool {
    &&& cleaned(snapshot.collection_key, 32) == snapshot.collection_key
    &&& cleaned(snapshot.revision, 32) == snapshot.revision
    &&& snapshot.total <= u32::MAX
    &&& snapshot.papers.len() <= MAX_ITEMS
    &&& newest_lead(snapshot.papers)
    &&& forall|i: int|
        0 <= i < snapshot.papers.len() ==> settled_paper(#[trigger] snapshot.papers[i])
}

/// Where every item stays as it is, the sequence does.
pub proof fn lemma_filter_map_keeps<A>(items: Seq<A>, f: spec_fn(A) -> Option<A>)
    requires
        forall|i: int| 0 <= i < items.len() ==> #[trigger] f(items[i]) == Some(items[i]),
    ensures
        items.filter_map(f) == items,
    decreases items.len(),
{
    if items.len() > 0 {
        let front = items.drop_last();
        assert(f(items[items.len() - 1]) == Some(items[items.len() - 1]));
        assert forall|i: int| 0 <= i < front.len() implies #[trigger] f(front[i]) == Some(
            front[i],
        ) by {
            assert(f(items[i]) == Some(items[i]));
        }
        lemma_filter_map_keeps(front, f);
        assert(front + seq![items.last()] =~= items);
    } else {
        assert(items.filter_map(f) =~= items);
    }
}

/// A settled snapshot survives being stored and read again, unchanged.
pub proof fn law_settled_snapshot_round_trips(value: Value, snapshot: SnapshotView)
    requires
        stores_snapshot(value, snapshot),
        settled(snapshot),
    ensures
        snapshot_in(&value) == Some(snapshot),
{
    law_stored_snapshot_reads_back(value, snapshot);
    let papers = snapshot.papers;
    assert forall|i: int| 0 <= i < papers.len() implies #[trigger] reloaded_row()(papers[i])
        == Some(papers[i]) by {
        let paper = papers[i];
        assert(settled_paper(paper));
        assert forall|j: int| 0 <= j < paper.tags.len() implies #[trigger] reloaded_tag()(
            paper.tags[j],
        ) == Some(paper.tags[j]) by {
            assert(paper.tags[j].len() > 0);
        }
        lemma_filter_map_keeps(paper.tags, reloaded_tag());
    }
    lemma_filter_map_keeps(papers, reloaded_row());
    law_sorted_papers_stay(papers);
}

/// A snapshot that was read holds at most as many papers as a list shows, the
/// newest first, each with a usable key and a title.
pub proof fn law_read_snapshots_are_ordered(root: &Value)
    ensures
        snapshot_in(root) matches Some(snapshot) ==> {
            &&& snapshot.papers.len() <= MAX_ITEMS
            &&& newest_lead(snapshot.papers)
            &&& forall|i: int|
                0 <= i < snapshot.papers.len() ==> is_key((#[trigger] snapshot.papers[i]).key)
                    && snapshot.papers[i].title.len() > 0
        },
{
    if let Some(Value::Array(rows)) = root.field("items"@) {
        let read = prefix(rows@, MAX_ITEMS as nat);
        let papers = read.filter_map(stored_paper_row());
        lemma_filter_map_short(read, stored_paper_row());
        crate::order::law_sorting_orders(papers);
        assert forall|i: int| 0 <= i < papers.len() implies is_key(
            (#[trigger] newest_first(papers)[i]).key,
        ) && newest_first(papers)[i].title.len() > 0 by {
            let paper = newest_first(papers)[i];
            assert(papers.contains(paper));
            read.lemma_filter_map_contains(stored_paper_row(), paper);
        }
    }
}

/// A selection is no longer than what it was made from.
pub proof fn lemma_filter_map_short<A, B>(items: Seq<A>, f: spec_fn(A) -> Option<B>)
    ensures
        items.filter_map(f).len() <= items.len(),
    decreases items.len(),
{
    if items.len() > 0 {
        lemma_filter_map_short(items.drop_last(), f);
    }
}

} // verus!

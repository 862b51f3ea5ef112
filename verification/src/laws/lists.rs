//! A collection is listed whole, the newest paper first, and what is searched
//! for is found in it.
use vstd::prelude::*;
use vstd::utf8::encode_utf8;

use crate::actions::{Pressed, PressView};
use crate::bytes::at_most;
use crate::cache::snapshot_in;
use crate::feed::newest_version;
use crate::json::Value;
use crate::keys::snapshot_name;
use crate::model::{CollectionView, PaperView};
use crate::number::decimal;
use crate::order::{law_sorting_orders, newest_first, no_older};
use crate::paper::{lowercase, lowercasing};
use crate::promises::law_search_lists_what_matches;
use crate::reader::{Pane, ReaderView};
use crate::text::{is_blank, occurs_in, prefix, trimmed, trimmed_end, trimmed_start};
use crate::work::{Awaiting, CommandView, Credential, HeaderView, WorkView};

verus! {

/// Whether a phrase is a run of characters of a text.
pub open spec fn is_run_of(phrase: Seq<char>, text: Seq<char>) -> bool {
    exists|at: int|
        0 <= at <= text.len() - phrase.len() && phrase == #[trigger] text.subrange(
            at,
            at + phrase.len(),
        )
}

/// Whether a text holds a phrase without regard to case.
pub open spec fn tells_of(text: Seq<char>, phrase: Seq<char>) -> bool {
    is_run_of(lowercase(phrase), lowercase(text))
}

/// A phrase in the title, in the creators or in any of the tags finds the
/// paper, and a paper that is found has it in one of these.
pub proof fn law_every_text_can_be_searched(paper: PaperView, phrase: Seq<char>)
    ensures
        tells_of(paper.title, phrase) ==> paper.matches_phrase(phrase),
        tells_of(paper.creators, phrase) ==> paper.matches_phrase(phrase),
        forall|i: int|
            0 <= i < paper.tags.len() && tells_of(#[trigger] paper.tags[i], phrase)
                ==> paper.matches_phrase(phrase),
        paper.matches_phrase(phrase) ==> tells_of(paper.title, phrase) || tells_of(
            paper.creators,
            phrase,
        ) || exists|i: int| 0 <= i < paper.tags.len() && tells_of(#[trigger] paper.tags[i], phrase),
{
    let lower = paper.tags.map_values(lowercasing());
    let wanted = lowercase(phrase);
    assert forall|text: Seq<char>| #[trigger] tells_of(text, phrase) <==> occurs_in(
        wanted,
        lowercase(text),
    ) by {
        let low = lowercase(text);
        if tells_of(text, phrase) {
            let at = choose|at: int|
                0 <= at <= low.len() - wanted.len() && wanted == #[trigger] low.subrange(
                    at,
                    at + wanted.len(),
                );
            assert(low.subrange(at, at + wanted.len()) == wanted);
        }
        if occurs_in(wanted, low) {
            let at = choose|at: int|
                0 <= at <= low.len() - wanted.len() && #[trigger] low.subrange(
                    at,
                    at + wanted.len(),
                ) == wanted;
            assert(wanted == low.subrange(at, at + wanted.len()));
        }
    }
    assert forall|i: int| 0 <= i < paper.tags.len() && tells_of(
        #[trigger] paper.tags[i],
        phrase,
    ) implies paper.matches_phrase(phrase) by {
        assert(lower[i] == lowercase(paper.tags[i]));
        assert(occurs_in(wanted, lower[i]));
    }
    if paper.matches_phrase(phrase) && !tells_of(paper.title, phrase) && !tells_of(
        paper.creators,
        phrase,
    ) {
        let i = choose|i: int| 0 <= i < lower.len() && occurs_in(wanted, #[trigger] lower[i]);
        assert(tells_of(paper.tags[i], phrase));
    }
}

/// Two phrases that differ in case alone find the same papers.
pub proof fn law_searching_ignores_case(paper: PaperView, phrase: Seq<char>, other: Seq<char>)
    requires
        lowercase(phrase) == lowercase(other),
    ensures
        paper.matches_phrase(phrase) == paper.matches_phrase(other),
{
}

proof fn lemma_trim_start(before: Seq<char>, rest: Seq<char>)
    requires
        forall|i: int| 0 <= i < before.len() ==> is_blank(#[trigger] before[i]),
        rest.len() == 0 || !is_blank(rest[0]),
    ensures
        trimmed_start(before + rest) == rest,
    decreases before.len(),
{
    if before.len() == 0 {
        assert(before + rest =~= rest);
    } else {
        assert(is_blank(before[0]));
        assert((before + rest).drop_first() =~= before.drop_first() + rest);
        assert forall|i: int| 0 <= i < before.drop_first().len() implies is_blank(
            #[trigger] before.drop_first()[i],
        ) by {
            assert(before.drop_first()[i] == before[i + 1]);
        }
        lemma_trim_start(before.drop_first(), rest);
    }
}

proof fn lemma_trim_end(rest: Seq<char>, after: Seq<char>)
    requires
        forall|i: int| 0 <= i < after.len() ==> is_blank(#[trigger] after[i]),
        rest.len() == 0 || !is_blank(rest[rest.len() - 1]),
    ensures
        trimmed_end(rest + after) == rest,
    decreases after.len(),
{
    if after.len() == 0 {
        assert(rest + after =~= rest);
    } else {
        assert(is_blank(after[after.len() - 1]));
        assert((rest + after).drop_last() =~= rest + after.drop_last());
        lemma_trim_end(rest, after.drop_last());
    }
}

proof fn lemma_trim_all(text: Seq<char>)
    requires
        forall|i: int| 0 <= i < text.len() ==> is_blank(#[trigger] text[i]),
    ensures
        trimmed(text) == Seq::<char>::empty(),
{
    lemma_trim_start(text, Seq::empty());
    assert(text + Seq::<char>::empty() =~= text);
}

/// Trimming takes the white space off both ends of a text and nothing else.
pub proof fn law_trimming_takes_white_space_off(
    before: Seq<char>,
    core: Seq<char>,
    after: Seq<char>,
)
    requires
        forall|i: int| 0 <= i < before.len() ==> is_blank(#[trigger] before[i]),
        forall|i: int| 0 <= i < after.len() ==> is_blank(#[trigger] after[i]),
        core.len() > 0 ==> !is_blank(core[0]) && !is_blank(core[core.len() - 1]),
    ensures
        trimmed(before + core + after) == core,
{
    if core.len() == 0 {
        assert(before + core + after =~= before + after);
        assert forall|i: int| 0 <= i < (before + after).len() implies is_blank(
            #[trigger] (before + after)[i],
        ) by {
            if i < before.len() {
                assert((before + after)[i] == before[i]);
            } else {
                assert((before + after)[i] == after[i - before.len()]);
            }
        }
        lemma_trim_all(before + after);
        assert(core =~= Seq::<char>::empty());
    } else {
        assert(before + core + after =~= before + (core + after));
        assert((core + after)[0] == core[0]);
        lemma_trim_start(before, core + after);
        lemma_trim_end(core, after);
    }
}

/// A phrase that is submitted lists exactly the papers that tell of it, in
/// title, creators or any tag, in their order and from the first page; white
/// space around the phrase does not count.
pub proof fn law_submitted_phrases_are_searched(s: ReaderView, press: PressView, i: int)
    requires
        s.pane is Search,
        press.pressed == Some(Pressed::Submitted),
        s.snapshot.papers.len() <= usize::MAX,
        0 <= i < s.snapshot.papers.len(),
    ensures
        s.on_action(press).filtered.contains(i as usize) <==> {
            let paper = s.snapshot.papers[i];
            let phrase = trimmed(press.typed);
            ||| tells_of(paper.title, phrase)
            ||| tells_of(paper.creators, phrase)
            ||| exists|k: int| 0 <= k < paper.tags.len() && tells_of(#[trigger] paper.tags[k], phrase)
        },
        forall|k: int, l: int|
            0 <= k < l < s.on_action(press).filtered.len() ==> #[trigger] s.on_action(
                press,
            ).filtered[k] < #[trigger] s.on_action(press).filtered[l],
        s.on_action(press).pane is Feed,
        s.on_action(press).list_page == 0,
        s.on_action(press).snapshot == s.snapshot,
{
    reveal(ReaderView::on_action);
    reveal(ReaderView::typed_phrase);
    let heard = ReaderView { typed: press.typed, ..s };
    law_search_lists_what_matches(heard, i);
    law_every_text_can_be_searched(s.snapshot.papers[i], trimmed(press.typed));
}

/// Whether one byte sequence comes before another in a dictionary, or is the
/// same.
pub open spec fn no_later(a: Seq<u8>, b: Seq<u8>) -> bool {
    ||| a.is_prefix_of(b)
    ||| exists|k: int|
        0 <= k < a.len() && k < b.len() && #[trigger] a[k] < b[k] && a.take(k) == b.take(k)
}

proof fn lemma_at_most(a: Seq<u8>, b: Seq<u8>)
    requires
        at_most(a, b),
    ensures
        no_later(a, b),
    decreases a.len(),
{
    if a.len() == 0 {
        assert(a =~= b.take(0));
    } else if a[0] != b[0] {
        assert(a.take(0) =~= b.take(0));
        assert(a[0] < b[0]);
    } else {
        let c = a.drop_first();
        let d = b.drop_first();
        lemma_at_most(c, d);
        if c.is_prefix_of(d) {
            assert(a =~= b.take(a.len() as int)) by {
                assert forall|i: int| 0 <= i < a.len() implies a[i] == b[i] by {
                    if i > 0 {
                        assert(c[i - 1] == d.take(c.len() as int)[i - 1]);
                    }
                }
            }
        } else {
            let k = choose|k: int|
                0 <= k < c.len() && k < d.len() && #[trigger] c[k] < d[k] && c.take(k) == d.take(k);
            assert(a[k + 1] < b[k + 1]);
            assert(a.take(k + 1) =~= b.take(k + 1)) by {
                assert forall|i: int| 0 <= i < k + 1 implies a[i] == b[i] by {
                    if i > 0 {
                        assert(c.take(k)[i - 1] == d.take(k)[i - 1]);
                    }
                }
            }
        }
    }
}

/// The newest paper stands first: the date of a paper comes no later than the
/// dates before it. Sorting loses no paper and adds none.
pub proof fn law_the_newest_paper_leads(papers: Seq<PaperView>, i: int, j: int)
    ensures
        newest_first(papers).to_multiset() == papers.to_multiset(),
        newest_first(papers).len() == papers.len(),
        0 <= i < j < papers.len() ==> no_later(
            encode_utf8(newest_first(papers)[j].date_added),
            encode_utf8(newest_first(papers)[i].date_added),
        ),
{
    law_sorting_orders(papers);
    if 0 <= i < j < papers.len() {
        assert(no_older(newest_first(papers)[i], newest_first(papers)[j]));
        lemma_at_most(
            encode_utf8(newest_first(papers)[j].date_added),
            encode_utf8(newest_first(papers)[i].date_added),
        );
    }
}

/// The revision of a list is the highest version of its papers.
pub proof fn law_revisions_are_the_highest_versions(papers: Seq<PaperView>, i: int)
    ensures
        0 <= i < papers.len() ==> papers[i].version <= newest_version(papers),
        newest_version(papers) == 0 || exists|k: int|
            0 <= k < papers.len() && (#[trigger] papers[k]).version == newest_version(papers),
    decreases papers.len(),
{
    if papers.len() > 0 {
        let front = papers.drop_last();
        law_revisions_are_the_highest_versions(front, i);
        if 0 <= i < front.len() {
            assert(front[i] == papers[i]);
        }
        assert(papers[papers.len() - 1] == papers.last());
        if newest_version(papers) == newest_version(front) && newest_version(front) != 0 {
            let k = choose|k: int|
                0 <= k < front.len() && (#[trigger] front[k]).version == newest_version(front);
            assert(papers[k] == front[k]);
        }
    }
}

/// The request for one page of a collection.
pub open spec fn page_request(user: Seq<char>, collection: Seq<char>, start: usize) -> CommandView {
    CommandView::Spawn {
        work: WorkView::Fetch {
            url: "https://api.zotero.org"@ + ("/users/"@ + user + ("/collections/"@ + collection
                + "/items/top?format=json&itemType=-attachment&limit="@ + decimal(
                if start >= 500 {
                    1
                } else {
                    25
                },
            ) + "&start="@ + decimal(start as nat) + "&sort=dateAdded&direction=desc"@)),
            max_bytes: 4194304,
            credential: Credential::Zotero,
            headers: seq![HeaderView { name: "Zotero-API-Version"@, value: "3"@ }],
        },
        awaiting: Awaiting::SnapshotPage(start),
    }
}

/// Whether the last thing that was asked for is a page, and which.
pub open spec fn asked(s: ReaderView) -> Option<usize> {
    if s.outbox.len() > 0 {
        match s.outbox.last() {
            CommandView::Spawn { work, awaiting: Awaiting::SnapshotPage(start) } => Some(start),
            _ => None,
        }
    } else {
        None
    }
}

/// What Zotero answers to the request for a page of these papers.
pub open spec fn answer(papers: Seq<PaperView>, start: usize) -> Seq<PaperView> {
    let limit: int = if start >= 500 {
        1
    } else {
        25
    };
    if start >= papers.len() {
        Seq::empty()
    } else if start + limit <= papers.len() {
        papers.subrange(start as int, start + limit)
    } else {
        papers.subrange(start as int, papers.len() as int)
    }
}

/// The reader after Zotero has answered a number of requests, as long as the
/// reader asks for pages.
pub open spec fn served(s: ReaderView, papers: Seq<PaperView>, turns: nat) -> ReaderView
    decreases turns,
{
    match asked(s) {
        Some(start) => if turns == 0 {
            s
        } else {
            served(
                s.took_snapshot_page(start, Some(answer(papers, start))),
                papers,
                (turns - 1) as nat,
            )
        },
        None => s,
    }
}

/// A request for a page goes to the chosen collection of the user and carries
/// the position at which the page starts.
pub proof fn law_pages_are_asked_for_by_position(
    s: ReaderView,
    user: Seq<char>,
    collection: Seq<char>,
    start: usize,
)
    requires
        s.user_id == Some(user),
    ensures
        s.fetch_snapshot_page(collection, start).outbox.last() == page_request(
            user,
            collection,
            start,
        ),
        asked(s.fetch_snapshot_page(collection, start)) == Some(start),
        s.fetch_snapshot_page(collection, start) == (ReaderView {
            task: None,
            outbox: s.fetch_snapshot_page(collection, start).outbox,
            ..s
        }),
{
    reveal(ReaderView::fetch_snapshot_page);
    reveal(ReaderView::fetch_zotero);
    reveal(ReaderView::spawn_fetch);
    reveal(ReaderView::stop_task);
}

/// A full page leads to the next one: its papers join those that came before,
/// and what is asked for next starts behind it. At the limit a single paper is
/// asked for.
pub proof fn law_full_pages_lead_to_the_next(
    s: ReaderView,
    user: Seq<char>,
    collection: CollectionView,
    start: usize,
    page: Seq<PaperView>,
)
    requires
        s.user_id == Some(user),
        s.selected == Some(collection),
        start < 500,
        page.len() == 25,
        s.pending_snapshot.len() + 25 <= 500,
    ensures
        s.took_snapshot_page(start, Some(page)).pending_snapshot == s.pending_snapshot + page,
        s.pending_snapshot.len() + 25 < 500 ==> s.took_snapshot_page(
            start,
            Some(page),
        ).outbox.last() == page_request(user, collection.key, (start + 25) as usize),
        s.pending_snapshot.len() + 25 == 500 ==> s.took_snapshot_page(
            start,
            Some(page),
        ).outbox.last() == page_request(user, collection.key, 500),
        s.took_snapshot_page(start, Some(page)).user_id == s.user_id,
        s.took_snapshot_page(start, Some(page)).selected == s.selected,
        s.took_snapshot_page(start, Some(page)).snapshot == s.snapshot,
        s.took_snapshot_page(start, Some(page)).pane == s.pane,
        s.took_snapshot_page(start, Some(page)).outbox.len() > 0,
{
    reveal(ReaderView::took_snapshot_page);
    let next = s.with_page(page);
    assert(prefix(page, s.room()) == page);
    law_pages_are_asked_for_by_position(next, user, collection.key, (start + 25) as usize);
    law_pages_are_asked_for_by_position(next, user, collection.key, 500);
    lemma_page_adds_to_outbox(next, collection.key, (start + 25) as usize);
    lemma_page_adds_to_outbox(next, collection.key, 500);
}

proof fn lemma_page_adds_to_outbox(s: ReaderView, collection: Seq<char>, start: usize)
    requires
        s.user_id is Some,
    ensures
        s.fetch_snapshot_page(collection, start).outbox.len() > 0,
{
    reveal(ReaderView::fetch_snapshot_page);
    reveal(ReaderView::fetch_zotero);
    reveal(ReaderView::spawn_fetch);
    reveal(ReaderView::stop_task);
}

/// Whether the reader lists these papers of a collection: all of them, the
/// newest first, and the list is to be stored under the collection's name.
pub open spec fn lists(
    s: ReaderView,
    collection: CollectionView,
    papers: Seq<PaperView>,
    truncated: bool,
) -> bool {
    &&& s.snapshot.papers.to_multiset() == papers.to_multiset()
    &&& s.snapshot.papers == newest_first(papers)
    &&& s.snapshot.collection_key == collection.key
    &&& s.snapshot.revision == decimal(newest_version(papers) as nat)
    &&& s.snapshot.truncated == truncated
    &&& s.snapshot.total == papers.len() + if truncated {
        1int
    } else {
        0int
    }
    &&& s.filtered.len() == papers.len()
    &&& forall|i: int| 0 <= i < papers.len() ==> #[trigger] s.filtered[i] == i
    &&& s.list_page == 0
    &&& s.fresh_snapshot
    &&& s.pending_snapshot.len() == 0
    &&& s.snapshot_upload
    &&& s.outbox.len() > 0
    &&& s.outbox.last() == (CommandView::UploadSnapshot {
        name: snapshot_name(collection.key),
        snapshot: s.snapshot,
    })
}

/// When the last page has come, everything that came is listed and stored.
pub proof fn law_finished_lists_hold_what_came(
    s: ReaderView,
    collection: CollectionView,
    truncated: bool,
)
    requires
        s.selected == Some(collection),
        s.pending_snapshot.len() <= 500,
    ensures
        lists(s.finish_snapshot(truncated), collection, s.pending_snapshot, truncated),
        s.finish_snapshot(truncated).pane == s.pane,
        s.finish_snapshot(truncated).selected == s.selected,
{
    reveal(ReaderView::finish_snapshot);
    reveal(ReaderView::save_snapshot);
    law_sorting_orders(s.pending_snapshot);
}

/// A page that is not full is the last one. Past the limit no paper is taken,
/// but one that is there tells that there are more.
pub proof fn law_the_last_page_ends_the_list(
    s: ReaderView,
    collection: CollectionView,
    start: usize,
    page: Seq<PaperView>,
)
    requires
        s.selected == Some(collection),
        s.pending_snapshot.len() + page.len() <= 500 || start >= 500 && s.pending_snapshot.len()
            <= 500,
        page.len() != 25 || start >= 500,
    ensures
        start < 500 ==> lists(
            s.took_snapshot_page(start, Some(page)),
            collection,
            s.pending_snapshot + page,
            false,
        ),
        start >= 500 ==> lists(
            s.took_snapshot_page(start, Some(page)),
            collection,
            s.pending_snapshot,
            page.len() > 0,
        ),
        s.took_snapshot_page(start, Some(page)).pane == s.pane,
{
    reveal(ReaderView::took_snapshot_page);
    if start >= 500 {
        law_finished_lists_hold_what_came(s, collection, page.len() > 0);
    } else {
        assert(prefix(page, s.room()) == page);
        law_finished_lists_hold_what_came(s.with_page(page), collection, false);
    }
}

proof fn lemma_served(
    s: ReaderView,
    user: Seq<char>,
    collection: CollectionView,
    papers: Seq<PaperView>,
    pages: nat,
    turns: nat,
)
    requires
        s.user_id == Some(user),
        s.selected == Some(collection),
        s.pane is Feed,
        pages <= 20,
        pages * 25 <= papers.len(),
        asked(s) == Some((pages * 25) as usize),
        s.pending_snapshot == papers.take((pages * 25) as int),
        turns >= 21 - pages,
    ensures
        papers.len() <= 500 ==> lists(served(s, papers, turns), collection, papers, false),
        papers.len() > 500 ==> lists(
            served(s, papers, turns),
            collection,
            papers.take(500),
            true,
        ),
        served(s, papers, turns).pane is Feed,
    decreases 20 - pages,
{
    let start = (pages * 25) as usize;
    let page = answer(papers, start);
    let next = s.took_snapshot_page(start, Some(page));
    let left = (turns - 1) as nat;
    assert(served(s, papers, turns) == served(next, papers, left));
    if start >= 500 || page.len() != 25 {
        law_the_last_page_ends_the_list(s, collection, start, page);
        assert(asked(next) is None);
        assert(served(next, papers, left) == next);
        if start >= 500 {
            assert(papers.take(500).len() == 500);
            if papers.len() <= 500 {
                assert(papers.take(500) =~= papers);
            }
        } else {
            assert(s.pending_snapshot + page =~= papers);
        }
    } else {
        law_full_pages_lead_to_the_next(s, user, collection, start, page);
        assert(s.pending_snapshot + page =~= papers.take(((pages + 1) * 25) as int));
        lemma_served(next, user, collection, papers, pages + 1, left);
    }
}

/// Refreshing covers the collection: answered page by page, the reader ends
/// with a list that holds every paper of the collection, the newest first. Of
/// more than 500 papers it holds the first 500 that Zotero sent, and says that
/// there are more.
pub proof fn law_refreshing_lists_the_whole_collection(
    s: ReaderView,
    user: Seq<char>,
    collection: CollectionView,
    papers: Seq<PaperView>,
)
    requires
        s.user_id == Some(user),
        s.selected == Some(collection),
    ensures
        s.refresh().outbox.last() == page_request(user, collection.key, 0),
        papers.len() <= 500 ==> lists(served(s.refresh(), papers, 21), collection, papers, false),
        papers.len() > 500 ==> lists(
            served(s.refresh(), papers, 21),
            collection,
            papers.take(500),
            true,
        ),
        served(s.refresh(), papers, 21).pane is Feed,
        s.refresh().snapshot == s.snapshot,
        s.refresh().filtered == s.filtered,
{
    reveal(ReaderView::refresh);
    let emptied = ReaderView {
        trouble: None,
        pane: Pane::Feed,
        pending_snapshot: Seq::empty(),
        ..s
    };
    law_pages_are_asked_for_by_position(emptied, user, collection.key, 0);
    assert(papers.take(0) =~= Seq::<PaperView>::empty());
    lemma_served(s.refresh(), user, collection, papers, 0, 21);
}

/// An unreadable page changes nothing but the message.
pub proof fn law_unreadable_pages_change_nothing(s: ReaderView, start: usize)
    ensures
        s.took_snapshot_page(start, None) == (ReaderView {
            trouble: Some("Zotero returned an unreadable item page."@),
            ..s
        }),
{
    reveal(ReaderView::took_snapshot_page);
    reveal(ReaderView::troubled);
}

/// The stored list of the chosen collection is shown, all of it and from the
/// start, as long as none has come from Zotero.
pub proof fn law_the_own_stored_list_is_shown(
    s: ReaderView,
    root: Value,
    collection: CollectionView,
)
    requires
        s.selected == Some(collection),
        s.snapshot_loading == Some(collection.key),
        !s.fresh_snapshot,
        snapshot_in(&root) is Some,
        snapshot_in(&root)->0.collection_key == collection.key,
        snapshot_in(&root)->0.papers.len() <= usize::MAX,
    ensures
        s.took_stored_snapshot(Some(root)).snapshot == snapshot_in(&root)->0,
        s.took_stored_snapshot(Some(root)).filtered.len() == snapshot_in(&root)->0.papers.len(),
        forall|i: int|
            0 <= i < snapshot_in(&root)->0.papers.len() ==> #[trigger] s.took_stored_snapshot(
                Some(root),
            ).filtered[i] == i,
        s.took_stored_snapshot(Some(root)).list_page == 0,
        s.took_stored_snapshot(Some(root)).pane is Feed,
        s.took_stored_snapshot(Some(root)).snapshot_loading is None,
        !s.took_stored_snapshot(Some(root)).fresh_snapshot,
{
    reveal(ReaderView::took_stored_snapshot);
}

} // verus!

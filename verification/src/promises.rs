//! What the reader promises to whoever uses it.
use vstd::prelude::*;
use vstd::utf8::*;

use crate::actions::{fixed_actions, Action};
use crate::answers::{ReplyView, Step};
use crate::bytes::law_utf8_round_trip;
use crate::cache::{law_settled_snapshot_round_trips, settled_paper, snapshot_in, stores_snapshot};
use crate::feed::{found_positions, newest_version, snapshot_of};
use crate::json::{raw_text, Value};
use crate::keys::{document_name, is_key, is_user_id, memory_name};
use crate::model::{PaperView, SnapshotView, MAX_ITEMS};
use crate::number::{decimal, law_decimal_reads_back};
use crate::order::{law_sorting_orders, newest_first};
use crate::reader::{Pane, ReaderView, DOCUMENT_BYTES, ZOTERO_RESPONSE_BYTES};
use crate::reading::{MAX_POLLS, POLL_SECONDS};
use crate::records::{
    distinct, law_library_reads_back, law_reading_state_reads_back, law_selection_reads_back,
    library_in, library_text, reread, rereading, selection_in, selection_text, state_in, state_text,
    usable, MAX_KEPT,
};
use crate::safety::{all_keys, writable};
use crate::screen::{Glyph, PartView};
use crate::screens::{button, page_at, shown_page};
use crate::shelf::{keeps, keyed_otherwise, orphaned, removing, shelved, unlike, with_read};
use crate::stored::user_in;
use crate::text::{cleaned, flattened, is_alphanumeric, is_digit, prefix, trimmed, Mark};
use crate::tidy::{law_cleaning_gives_one_line, law_tidy_lines_stay, lemma_plain_is_tidy};
use crate::work::{Awaiting, CommandView, Credential, HeaderView, Transfer, WorkView, ZOTERO_API};
use crate::zotero::collection_in;

verus! {

proof fn lemma_found(papers: Seq<PaperView>, phrase: Seq<char>)
    requires
        papers.len() <= usize::MAX,
    ensures
        forall|i: int|
            0 <= i < papers.len() ==> (found_positions(papers, phrase).contains(i as usize)
                <==> (#[trigger] papers[i]).matches_phrase(phrase)),
        forall|k: int|
            0 <= k < found_positions(papers, phrase).len() ==> #[trigger] found_positions(
                papers,
                phrase,
            )[k] < papers.len(),
        forall|k: int, l: int|
            0 <= k < l < found_positions(papers, phrase).len() ==> #[trigger] found_positions(
                papers,
                phrase,
            )[k] < #[trigger] found_positions(papers, phrase)[l],
    decreases papers.len(),
{
    if papers.len() > 0 {
        let front = papers.drop_last();
        let before = found_positions(front, phrase);
        let found = found_positions(papers, phrase);
        let last = (papers.len() - 1) as usize;
        lemma_found(front, phrase);
        assert forall|k: int| 0 <= k < found.len() implies #[trigger] found[k] < papers.len() by {
            if k < before.len() {
                assert(found[k] == before[k]);
            }
        }
        assert forall|k: int, l: int| 0 <= k < l < found.len() implies #[trigger] found[k]
            < #[trigger] found[l] by {
            assert(found[k] == before[k]);
            if l < before.len() {
                assert(found[l] == before[l]);
            }
        }
        assert forall|i: int| 0 <= i < papers.len() implies (found.contains(i as usize) <==> (
        #[trigger] papers[i]).matches_phrase(phrase)) by {
            if i < front.len() {
                assert(front[i] == papers[i]);
                if before.contains(i as usize) {
                    let k = choose|k: int| 0 <= k < before.len() && before[k] == i as usize;
                    assert(found[k] == i as usize);
                }
                if found.contains(i as usize) {
                    let k = choose|k: int| 0 <= k < found.len() && found[k] == i as usize;
                    assert(k < before.len() && before[k] == i as usize);
                }
            } else {
                if papers[i].matches_phrase(phrase) {
                    assert(found[found.len() - 1] == last);
                }
                if found.contains(last) {
                    let k = choose|k: int| 0 <= k < found.len() && found[k] == last;
                    if k < before.len() {
                        assert(before[k] < front.len());
                    }
                }
            }
        }
    }
}

/// A search lists the papers that match the phrase, no others, in their order.
pub proof fn law_search_lists_what_matches(s: ReaderView, i: int)
    requires
        s.snapshot.papers.len() <= usize::MAX,
        0 <= i < s.snapshot.papers.len(),
    ensures
        s.apply_search().filtered.contains(i as usize) <==> s.snapshot.papers[i].matches_phrase(
            trimmed(s.typed),
        ),
        forall|k: int, l: int|
            0 <= k < l < s.apply_search().filtered.len() ==> #[trigger] s.apply_search().filtered[k]
                < #[trigger] s.apply_search().filtered[l],
        s.apply_search().snapshot == s.snapshot,
        s.apply_search().list_page == 0,
{
    reveal(ReaderView::apply_search);
    lemma_found(s.snapshot.papers, trimmed(s.typed));
}

/// What is remembered of the reading and not yet saved: what waits, or else
/// what was being saved.
pub open spec fn latest_memory(s: ReaderView) -> Option<(Seq<char>, Seq<u8>)> {
    match s.pending_memory {
        Some(pending) => Some(pending),
        None => s.active_memory,
    }
}

/// When a reading memory cannot be saved, the latest one waits for another try
/// and the reader says so.
pub proof fn law_failed_save_keeps_the_latest_memory(s: ReaderView, reason: Seq<char>)
    ensures
        s.unsaved_memory(reason).pending_memory == latest_memory(s),
        s.unsaved_memory(reason).active_memory is None,
        !s.unsaved_memory(reason).memory_upload,
        s.unsaved_memory(reason).trouble is Some,
        s.unsaved_memory(reason).outbox == s.outbox,
{
    reveal(ReaderView::unsaved_memory);
    reveal(ReaderView::troubled);
}

/// Another try saves exactly what waits, and the message goes away.
pub proof fn law_retry_saves_what_waits(s: ReaderView)
    requires
        s.pending_memory is Some,
        !s.memory_upload,
    ensures
        s.retry_memory().outbox == s.outbox.push(
            CommandView::Upload {
                transfer: Transfer::MemorySave,
                name: (s.pending_memory->0).0,
                bytes: (s.pending_memory->0).1,
            },
        ),
        s.retry_memory().pending_memory is None,
        s.retry_memory().active_memory == s.pending_memory,
        s.retry_memory().memory_upload,
        s.retry_memory().trouble is None,
{
    reveal(ReaderView::retry_memory);
}

/// A reading memory that comes while another is being saved is saved next, and
/// replaces any that waited.
pub proof fn law_latest_memory_is_saved_next(s: ReaderView, bytes: Seq<u8>)
    requires
        s.opened_key is Some,
        s.memory_upload,
    ensures
        s.save_memory(Some(bytes)).saved_memory().outbox == s.outbox.push(
            CommandView::Upload {
                transfer: Transfer::MemorySave,
                name: memory_name(s.opened_key->0),
                bytes,
            },
        ),
        s.save_memory(Some(bytes)).saved_memory().memory_upload,
        s.save_memory(Some(bytes)).saved_memory().pending_memory is None,
{
    reveal(ReaderView::save_memory);
    reveal(ReaderView::saved_memory);
}

/// No paper is opened while a reading memory is being saved or waits: nothing
/// changes but the message.
pub proof fn law_opening_waits_for_the_memory(
    s: ReaderView,
    index: nat,
    memory: Option<Seq<u8>>,
)
    requires
        s.owes_memory(),
    ensures
        s.open_paper(index, memory) == (ReaderView {
            trouble: s.open_paper(index, memory).trouble,
            ..s
        }),
        s.open_kept(index, memory) == (ReaderView {
            trouble: s.open_kept(index, memory).trouble,
            ..s
        }),
        s.start_conversion() == (ReaderView { trouble: s.start_conversion().trouble, ..s }),
{
    reveal(ReaderView::open_paper);
    reveal(ReaderView::open_kept);
    reveal(ReaderView::start_conversion);
    reveal(ReaderView::troubled);
}

/// Nothing of a paper that was open is left when another one is opened.
pub open spec fn nothing_left(s: ReaderView) -> bool {
    &&& s.fetched_html is None
    &&& s.conversion is None
    &&& s.attachment is None
    &&& s.detail is None
    &&& s.place is None
    &&& s.figures.len() == 0
    &&& s.figure_task is None
    &&& s.memory_loading is None
}

/// Opening a listed paper drops everything of the one before.
pub proof fn law_opening_drops_the_previous_paper(
    s: ReaderView,
    index: nat,
    memory: Option<Seq<u8>>,
)
    requires
        !s.owes_memory(),
        index < s.snapshot.papers.len(),
    ensures
        nothing_left(s.open_paper(index, memory)),
        s.open_paper(index, memory).opened_key == Some(s.snapshot.papers[index as int].key),
        s.open_paper(index, memory).opened_title == s.snapshot.papers[index as int].title,
        !s.open_paper(index, memory).from_library,
{
    reveal(ReaderView::open_paper);
    reveal(ReaderView::close_book);
    reveal(ReaderView::save_memory);
    reveal(ReaderView::fetch_zotero);
    reveal(ReaderView::spawn_fetch);
    reveal(ReaderView::stop_task);
    reveal(ReaderView::troubled);
}

/// Opening a kept paper drops everything of the one before.
pub proof fn law_opening_a_kept_paper_drops_the_previous(
    s: ReaderView,
    index: nat,
    memory: Option<Seq<u8>>,
)
    requires
        !s.owes_memory(),
        index < s.library.len(),
    ensures
        nothing_left(s.open_kept(index, memory)),
        s.open_kept(index, memory).opened_key == Some(s.library[index as int].key),
        s.open_kept(index, memory).from_library,
        s.open_kept(index, memory).pane is Detail,
{
    reveal(ReaderView::open_kept);
    reveal(ReaderView::close_book);
    reveal(ReaderView::save_memory);
}

/// Leaving a document saves its reading memory, at once or after the one that
/// is being saved.
pub proof fn law_closing_saves_the_memory(s: ReaderView, bytes: Seq<u8>)
    requires
        s.opened_key is Some,
    ensures
        s.memory_upload ==> s.close_book(Some(bytes)).pending_memory == Some(
            (memory_name(s.opened_key->0), bytes),
        ),
        !s.memory_upload ==> {
            &&& s.close_book(Some(bytes)).memory_upload
            &&& s.close_book(Some(bytes)).active_memory == Some(
                (memory_name(s.opened_key->0), bytes),
            )
            &&& s.close_book(Some(bytes)).outbox[s.outbox.len() as int] == (CommandView::Upload {
                transfer: Transfer::MemorySave,
                name: memory_name(s.opened_key->0),
                bytes,
            })
        },
{
    reveal(ReaderView::close_book);
    reveal(ReaderView::save_memory);
}

/// How many steps back lead to the feed or to the setup at most.
pub open spec fn depth(pane: Pane) -> nat {
    match pane {
        Pane::Feed | Pane::Setup => 0,
        Pane::Collections | Pane::Search | Pane::Library => 1,
        Pane::Detail => 2,
        Pane::Converting | Pane::FullText => 3,
    }
}

/// Going back always leads closer to where the reader is left, and only there
/// it is the device's business: there the reader does nothing.
pub proof fn law_back_leads_out(s: ReaderView, memory: Option<Seq<u8>>)
    ensures
        s.owns_back() ==> depth(s.back(memory).pane) < depth(s.pane),
        !s.owns_back() ==> s.back(memory) == s,
        s.owns_back() <==> depth(s.pane) > 0,
{
    reveal(ReaderView::back);
    reveal(ReaderView::stop_waiting);
    reveal(ReaderView::leave_book);
}

/// Back from a text leads to where it was opened from.
pub proof fn law_back_returns_to_the_list(s: ReaderView, memory: Option<Seq<u8>>)
    requires
        s.pane is FullText || s.pane is Detail,
    ensures
        s.pane is FullText && s.from_library ==> s.back(memory).pane is Library,
        s.pane is FullText && !s.from_library ==> s.back(memory).pane is Detail,
        s.pane is Detail && s.from_library ==> s.back(memory).pane is Library,
        s.pane is Detail && !s.from_library ==> s.back(memory).pane is Feed,
{
    reveal(ReaderView::back);
    reveal(ReaderView::leave_book);
}

/// Marking a paper changes whether that paper counts as read, and no other.
pub proof fn law_marking_changes_one_paper(s: ReaderView, key: Seq<char>)
    requires
        s.opened_key is Some,
    ensures
        s.toggle_read().read_keys.contains(key) <==> (if key == s.opened_key->0 {
            !s.read_keys.contains(key)
        } else {
            s.read_keys.contains(key)
        }),
        s.toggle_read().last_opened == s.last_opened,
{
    reveal(ReaderView::toggle_read);
    let opened = s.opened_key->0;
    if s.read_keys.contains(opened) {
        let rest = s.read_keys.filter(unlike(opened));
        if rest.contains(key) {
            s.read_keys.lemma_filter_contains_rev(unlike(opened), key);
            let k = choose|k: int| 0 <= k < rest.len() && rest[k] == key;
            s.read_keys.lemma_filter_pred(unlike(opened), k);
        }
        if s.read_keys.contains(key) && key != opened {
            let k = choose|k: int| 0 <= k < s.read_keys.len() && s.read_keys[k] == key;
            s.read_keys.lemma_filter_contains(unlike(opened), k);
        }
    } else {
        let longer = s.read_keys.push(opened);
        assert(longer[s.read_keys.len() as int] == opened);
        if longer.contains(key) && key != opened {
            let k = choose|k: int| 0 <= k < longer.len() && longer[k] == key;
            assert(s.read_keys[k] == key);
        }
        if s.read_keys.contains(key) {
            let k = choose|k: int| 0 <= k < s.read_keys.len() && s.read_keys[k] == key;
            assert(longer[k] == key);
        }
    }
}

/// A paper that was opened counts as read and is the one opened last.
pub proof fn law_opened_papers_count_as_read(s: ReaderView, key: Seq<char>)
    ensures
        s.mark_opened(key).read_keys.contains(key),
        s.mark_opened(key).last_opened == Some(key),
        s.read_keys.len() <= MAX_ITEMS ==> s.mark_opened(key).read_keys.len() <= MAX_ITEMS,
{
    reveal(ReaderView::mark_opened);
    let next = with_read(s.read_keys, key);
    if !s.read_keys.contains(key) {
        assert(next[next.len() - 1] == key);
    }
}

/// Once the shelf and the library are known, every kept paper has its document
/// on the shelf.
pub proof fn law_kept_papers_have_documents(s: ReaderView, i: int)
    requires
        s.library_loaded,
        s.shelf_documents is Some,
        0 <= i < s.reconcile_shelf().library.len(),
    ensures
        (s.shelf_documents->0).contains(document_name(s.reconcile_shelf().library[i].key)),
        s.library.contains(s.reconcile_shelf().library[i]),
{
    reveal(ReaderView::reconcile_shelf);
    let documents = s.shelf_documents->0;
    let rest = s.library.filter(shelved(documents));
    s.library.lemma_filter_pred(shelved(documents), i);
    assert(rest.contains(rest[i]));
    s.library.lemma_filter_contains_rev(shelved(documents), rest[i]);
}

/// Making the shelf and the library agree removes the documents of no kept
/// paper, and never the document of a kept one.
pub proof fn law_only_orphans_are_removed(s: ReaderView, document: Seq<char>)
    requires
        s.library_loaded,
        s.shelf_documents is Some,
        !s.outbox.contains(CommandView::Remove { name: document }),
    ensures
        s.reconcile_shelf().outbox.contains(CommandView::Remove { name: document }) <==> {
            &&& (s.shelf_documents->0).contains(document)
            &&& orphaned(s.library)(document)
        },
{
    reveal(ReaderView::reconcile_shelf);
    let documents = s.shelf_documents->0;
    let lost = documents.filter(orphaned(s.library));
    let removed = lost.map_values(removing());
    let command = CommandView::Remove { name: document };
    let after = s.reconcile_shelf().outbox;
    if documents.contains(document) && orphaned(s.library)(document) {
        let k = choose|k: int| 0 <= k < documents.len() && documents[k] == document;
        documents.lemma_filter_contains(orphaned(s.library), k);
        let l = choose|l: int| 0 <= l < lost.len() && lost[l] == document;
        assert(removed[l] == command);
        assert(after[s.outbox.len() + l] == command);
    }
    if after.contains(command) {
        let k = choose|k: int| 0 <= k < after.len() && after[k] == command;
        if k < s.outbox.len() {
            assert(s.outbox[k] == command);
        } else {
            assert(k - s.outbox.len() < removed.len());
            assert(after[k] == removed[k - s.outbox.len()]);
            let l = k - s.outbox.len();
            assert(lost[l] == document);
            assert(lost.contains(document));
            documents.lemma_filter_contains_rev(orphaned(s.library), document);
            documents.lemma_filter_pred(orphaned(s.library), l);
        }
    }
}

/// The end of a task that nothing waits for changes nothing.
pub proof fn law_stale_answers_are_ignored(s: ReaderView, task: u64, reply: ReplyView)
    requires
        s.task is None || (s.task->0).0 != task,
        s.figure_task is None || (s.figure_task->0).0 != task,
    ensures
        s.on_task(Step::Elsewhere, task, reply) == s,
{
    reveal(ReaderView::on_task);
}

/// A paper whose text was kept is found in the library afterwards, and its text
/// is loaded from where it was saved, without the network.
pub proof fn law_kept_text_is_found_again(s: ReaderView)
    requires
        s.opened_key is Some,
        s.fetched_html is Some,
        !s.is_kept(s.opened_key->0),
        !s.document_upload,
        s.library.len() < MAX_KEPT,
        !s.owes_memory(),
    ensures
        s.keep_document().outbox == s.outbox.push(
            CommandView::Upload {
                transfer: Transfer::DocumentSave,
                name: document_name(s.opened_key->0),
                bytes: s.fetched_html->0,
            },
        ),
        s.keep_document().saved_document().is_kept(s.opened_key->0),
        s.keep_document().saved_document().start_conversion().outbox.last() == (
        CommandView::Download {
            transfer: Transfer::DocumentLoad,
            name: document_name(s.opened_key->0),
            at_most: Some(DOCUMENT_BYTES as usize),
        }),
        s.keep_document().saved_document().start_conversion().task == s.task,
{
    reveal(ReaderView::keep_document);
    reveal(ReaderView::saved_document);
    reveal(ReaderView::kept_document);
    reveal(ReaderView::start_conversion);
    reveal(ReaderView::load_document);
    let after = s.keep_document().saved_document();
    assert(after.library[0].key == s.opened_key->0);
}

/// A paper that is not kept any longer is not in the library, and both its text
/// and what was remembered of it are removed.
pub proof fn law_discarded_text_is_gone(s: ReaderView)
    requires
        s.opened_key is Some,
    ensures
        !s.discard_document().is_kept(s.opened_key->0),
        s.discard_document().outbox[s.outbox.len() as int] == (CommandView::Remove {
            name: document_name(s.opened_key->0),
        }),
        s.discard_document().outbox[s.outbox.len() as int + 1] == (CommandView::Remove {
            name: memory_name(s.opened_key->0),
        }),
{
    reveal(ReaderView::discard_document);
    let key = s.opened_key->0;
    let rest = s.library.filter(keyed_otherwise(key));
    if keeps(rest, key) {
        let k = choose|k: int| 0 <= k < rest.len() && #[trigger] rest[k].key == key;
        s.library.lemma_filter_pred(keyed_otherwise(key), k);
    }
}

/// Without a bridge, the text of a paper with a stored PDF comes from Zotero's
/// index: no bridge is needed for reading.
pub proof fn law_reading_needs_no_bridge(s: ReaderView)
    requires
        s.bridge is None,
        s.user_id is Some,
        s.opened_key is Some,
        s.attachment is Some,
        !s.is_kept(s.opened_key->0),
        !s.owes_memory(),
    ensures
        s.start_conversion().pane is Converting,
        s.start_conversion().outbox.last() == (CommandView::Spawn {
            work: WorkView::Fetch {
                url: ZOTERO_API@ + ("/users/"@ + s.user_id->0 + ("/items/"@ + (
                s.attachment->0).key + "/fulltext"@)),
                max_bytes: ZOTERO_RESPONSE_BYTES,
                credential: Credential::Zotero,
                headers: seq![HeaderView { name: "Zotero-API-Version"@, value: "3"@ }],
            },
            awaiting: Awaiting::ZoteroFullText,
        }),
{
    reveal(ReaderView::start_conversion);
    reveal(ReaderView::await_text);
    reveal(ReaderView::fetch_indexed_text);
    reveal(ReaderView::fetch_zotero);
    reveal(ReaderView::spawn_fetch);
    reveal(ReaderView::stop_task);
}

/// A stored list is shown only for the collection it belongs to, while that
/// collection is chosen, and never in place of a list that came from Zotero.
pub proof fn law_only_the_own_stored_list_is_shown(s: ReaderView, json: Option<Value>)
    requires
        s.took_stored_snapshot(json).snapshot != s.snapshot,
    ensures
        !s.fresh_snapshot,
        s.selected is Some,
        s.took_stored_snapshot(json).snapshot.collection_key == (s.selected->0).key,
        s.snapshot_loading == Some((s.selected->0).key),
{
    reveal(ReaderView::took_stored_snapshot);
}

/// Choosing another collection leaves nothing of the list before.
pub proof fn law_choosing_a_collection_empties_the_list(s: ReaderView, index: nat)
    requires
        index < s.collections.len(),
        s.user_id is Some,
    ensures
        s.select_collection(index).selected == Some(s.collections[index as int]),
        s.select_collection(index).snapshot == SnapshotView::blank(),
        s.select_collection(index).filtered.len() == 0,
        s.select_collection(index).pending_snapshot.len() == 0,
        !s.select_collection(index).fresh_snapshot,
        s.select_collection(index).snapshot_loading == Some(s.collections[index as int].key),
        s.select_collection(index).pane is Feed,
{
    reveal(ReaderView::select_collection);
    reveal(ReaderView::start_snapshot_load);
    reveal(ReaderView::refresh);
    reveal(ReaderView::fetch_snapshot_page);
    reveal(ReaderView::fetch_zotero);
    reveal(ReaderView::spawn_fetch);
    reveal(ReaderView::stop_task);
}

/// The reader waits for a conversion for ten minutes: it asks again a limited
/// number of times, and then gives up.
pub proof fn law_polling_ends(s: ReaderView)
    ensures
        MAX_POLLS * POLL_SECONDS == 600,
        s.poll_count < MAX_POLLS ==> s.wait_to_poll().poll_count == s.poll_count + 1,
        s.poll_count >= MAX_POLLS ==> s.wait_to_poll().pane is Detail && s.wait_to_poll().outbox
            == s.outbox,
{
    reveal(ReaderView::wait_to_poll);
    reveal(ReaderView::fail_detail);
}

proof fn lemma_decimal_short(n: nat)
    requires
        n <= u32::MAX,
    ensures
        0 < decimal(n).len() <= 10,
{
    reveal_with_fuel(decimal, 11);
}

proof fn lemma_decimal_settles(n: nat)
    requires
        n <= u32::MAX,
    ensures
        cleaned(decimal(n), 32) == decimal(n),
{
    lemma_decimal_short(n);
    law_decimal_reads_back(n);
    assert forall|i: int| 0 <= i < decimal(n).len() implies is_alphanumeric(
        #[trigger] decimal(n)[i],
    ) by {
        assert(is_digit(decimal(n)[i]));
    }
    lemma_plain_is_tidy(decimal(n));
    law_tidy_lines_stay(decimal(n), 32);
}

/// A list that came from Zotero, once stored, is read again as it was: sorted,
/// with the same papers. The papers are those that storing does not change.
pub proof fn law_lists_survive_storing(
    value: Value,
    collection_key: Seq<char>,
    papers: Seq<PaperView>,
    truncated: bool,
)
    requires
        is_key(collection_key),
        papers.len() <= MAX_ITEMS,
        forall|i: int| 0 <= i < papers.len() ==> settled_paper(#[trigger] papers[i]),
        stores_snapshot(value, snapshot_of(collection_key, papers, truncated)),
    ensures
        snapshot_in(&value) == Some(snapshot_of(collection_key, papers, truncated)),
{
    let snapshot = snapshot_of(collection_key, papers, truncated);
    law_sorting_orders(papers);
    assert forall|i: int| 0 <= i < snapshot.papers.len() implies settled_paper(
        #[trigger] snapshot.papers[i],
    ) by {
        assert(papers.contains(newest_first(papers)[i]));
        let j = choose|j: int| 0 <= j < papers.len() && papers[j] == newest_first(papers)[i];
        assert(settled_paper(papers[j]));
    }
    lemma_plain_is_tidy(collection_key);
    law_tidy_lines_stay(collection_key, 32);
    lemma_decimal_settles(newest_version(papers) as nat);
    law_settled_snapshot_round_trips(value, snapshot);
}

/// The feed offers refreshing and searching together, and the other
/// collections, whenever its list is there.
pub proof fn law_feed_offers_its_actions(s: ReaderView, pages: Seq<Seq<usize>>)
    requires
        !s.expects_papers(),
    ensures
        s.feed_screen(pages).parts.contains(PartView::ActionBar(s.feed_actions())),
        s.feed_screen(pages).parts.contains(
            PartView::TopBarButton(button("library"@, "Offline"@, Glyph::Bookmark)),
        ),
        s.feed_screen(pages).parts.contains(
            PartView::TopBarButton(button("change-collection"@, "Collections"@, Glyph::Folder)),
        ),
        s.feed_actions().contains(button("refresh"@, "Refresh"@, Glyph::Download)),
        s.feed_actions().contains(button("search"@, "Search"@, Glyph::Search)),
        s.may_retry() ==> s.feed_actions().contains(
            button("retry-memory"@, "Retry position"@, Glyph::Download),
        ),
{
    let start = s.feed_start();
    let shown = if s.filtered.len() == 0 {
        start.with(PartView::EmptyState("No cached papers match this list or search."@))
    } else {
        let page = shown_page(s.list_page, pages.len());
        start.with(
            PartView::Rows(
                page_at(pages, page).filter_map(s.paper_rows()),
            ),
        )
    };
    let n = shown.parts.len() as int;
    let parts = s.feed_screen(pages).parts;
    assert(parts[n] == PartView::TopBarButton(button("library"@, "Offline"@, Glyph::Bookmark)));
    assert(parts[n + 1] == PartView::TopBarButton(
        button("change-collection"@, "Collections"@, Glyph::Folder),
    ));
    assert(parts[n + 2] == PartView::ActionBar(s.feed_actions()));
    assert(s.feed_actions()[0] == button("refresh"@, "Refresh"@, Glyph::Download));
    assert(s.feed_actions()[1] == button("search"@, "Search"@, Glyph::Search));
    if s.may_retry() {
        assert(s.feed_actions()[2] == button(
            "retry-memory"@,
            "Retry position"@,
            Glyph::Download,
        ));
    }
}

/// A paper with a text to open can be opened from its details, whether it
/// counts as read or not; that stands in the header.
pub proof fn law_details_offer_the_text(s: ReaderView)
    requires
        s.opened_has_pdf() || s.opened_is_kept(),
    ensures
        s.detail_actions().len() > 0,
        s.detail_actions()[0].action == "full-text"@,
        s.detail_start().parts[1] == PartView::TopBarButton(
            button(
                "toggle-read"@,
                if s.opened_is_read() {
                    "Mark unread"@
                } else {
                    "Mark read"@
                },
                Glyph::Check,
            ),
        ),
{
}

proof fn lemma_trimmed_plain(text: Seq<char>)
    requires
        forall|i: int| 0 <= i < text.len() ==> is_alphanumeric(#[trigger] text[i]),
    ensures
        trimmed(text) == text,
{
    if text.len() > 0 {
        assert(is_alphanumeric(text[0]));
        assert(is_alphanumeric(text[text.len() - 1]));
    }
}

/// A user whose number was saved is known again.
pub proof fn law_user_is_remembered(user_id: Seq<char>)
    requires
        is_user_id(user_id),
    ensures
        user_in(Some(encode_utf8(user_id))) == Some(user_id),
{
    law_utf8_round_trip(user_id);
    assert forall|i: int| 0 <= i < user_id.len() implies is_alphanumeric(#[trigger] user_id[i]) by {
        assert(is_digit(user_id[i]));
    }
    lemma_trimmed_plain(user_id);
}

/// A collection that came from Zotero and was chosen is known again as it was.
pub proof fn law_chosen_collection_is_remembered(row: &Value)
    requires
        collection_in(row) is Some,
    ensures
        selection_in(encode_utf8(selection_text(collection_in(row)->0))) == collection_in(row),
{
    let collection = collection_in(row)->0;
    law_selection_reads_back(collection);
    let data = row.field("data"@)->0;
    let name = collection.name;
    if let Some(text) = raw_text(data.field("name"@)) {
        law_cleaning_gives_one_line(text, 160);
        assert forall|i: int| 0 <= i < name.len() implies #[trigger] flattened(name)[i] == name[i] by {
            if name[i] == '\t' || name[i] == '\r' || name[i] == '\n' {
                assert(Mark::Gap.hits(name[i]));
            }
        }
        assert(flattened(name) =~= name);
    }
}

/// The list of kept papers that a sound reader saves is read again as it was,
/// as far as there is room.
pub proof fn law_library_is_remembered(s: ReaderView)
    requires
        s.sound(),
    ensures
        library_in(encode_utf8(library_text(s.library))) == prefix(s.library, MAX_KEPT as nat),
        s.library.len() <= MAX_KEPT ==> library_in(encode_utf8(library_text(s.library)))
            == s.library,
{
    let kept = prefix(s.library, MAX_KEPT as nat);
    assert forall|i: int| 0 <= i < s.library.len() implies is_key(#[trigger] s.library[i].key) by {
        assert(writable(s.library[i]));
    }
    law_library_reads_back(s.library);
    assert forall|i: int| 0 <= i < kept.len() implies #[trigger] reread(kept[i]) == kept[i] by {
        assert(kept[i] == s.library[i]);
        assert(writable(s.library[i]));
    }
    assert(kept.map_values(rereading()) =~= kept);
}

proof fn lemma_distinct_stays(keys: Seq<Seq<char>>)
    requires
        keys.no_duplicates(),
    ensures
        distinct(keys) == keys,
    decreases keys.len(),
{
    if keys.len() > 0 {
        let front = keys.drop_last();
        assert(front.no_duplicates());
        lemma_distinct_stays(front);
        if front.contains(keys.last()) {
            let i = choose|i: int| 0 <= i < front.len() && front[i] == keys.last();
            assert(keys[i] == keys[keys.len() - 1]);
        }
        assert(front.push(keys.last()) =~= keys);
    } else {
        assert(distinct(keys) =~= keys);
    }
}

proof fn lemma_all_usable(keys: Seq<Seq<char>>)
    requires
        all_keys(keys),
    ensures
        keys.filter(usable()) == keys,
    decreases keys.len(),
{
    reveal(Seq::filter);
    if keys.len() > 0 {
        let front = keys.drop_last();
        assert forall|i: int| 0 <= i < front.len() implies is_key(#[trigger] front[i]) by {
            assert(front[i] == keys[i]);
        }
        lemma_all_usable(front);
        assert(is_key(keys[keys.len() - 1]));
        assert(front.push(keys.last()) =~= keys);
    } else {
        assert(keys.filter(usable()) =~= keys);
    }
}

/// What a sound reader saves of what was read is read again as it was.
pub proof fn law_reading_state_is_remembered(s: ReaderView)
    requires
        s.sound(),
        s.read_keys.len() <= MAX_ITEMS,
    ensures
        state_in(encode_utf8(state_text(s.read_keys, s.last_opened))) == (
            s.read_keys,
            s.last_opened,
        ),
{
    law_reading_state_reads_back(s.read_keys, s.last_opened);
    lemma_all_usable(s.read_keys);
    lemma_distinct_stays(s.read_keys);
}

proof fn lemma_fixed_names(k: int)
    requires
        0 <= k < fixed_actions().len(),
    ensures
        fixed_actions()[k].0.len() > 3,
        fixed_actions()[k].0[0] != 'p',
        fixed_actions()[k].0[0] == 'c' ==> fixed_actions()[k].0[1] == 'h',
        fixed_actions()[k].0[0] == 'k' ==> fixed_actions()[k].0[2] == 'e',
{
    lemma_name_letters();
}

proof fn lemma_name_letters()
    ensures
        "refresh"@.len() == 7 && "refresh"@[0] == 'r',
        "search"@.len() == 6 && "search"@[0] == 's',
        "library"@.len() == 7 && "library"@[0] == 'l',
        "change-collection"@.len() == 17 && "change-collection"@[0] == 'c'
            && "change-collection"@[1] == 'h',
        "full-text"@.len() == 9 && "full-text"@[0] == 'f',
        "keep"@.len() == 4 && "keep"@[0] == 'k' && "keep"@[2] == 'e',
        "discard"@.len() == 7 && "discard"@[0] == 'd',
        "toggle-read"@.len() == 11 && "toggle-read"@[0] == 't',
        "retry-memory"@.len() == 12 && "retry-memory"@[0] == 'r',
        "list-back"@.len() == 9 && "list-back"@[0] == 'l' && "list-back"@[5] == 'b',
        "read-back"@.len() == 9 && "read-back"@[0] == 'r' && "read-back"@[5] == 'b',
        "list-next"@.len() == 9 && "list-next"@[0] == 'l' && "list-next"@[5] == 'n',
        "read-next"@.len() == 9 && "read-next"@[0] == 'r' && "read-next"@[5] == 'n',
{
    reveal_strlit("refresh");
    reveal_strlit("search");
    reveal_strlit("library");
    reveal_strlit("change-collection");
    reveal_strlit("full-text");
    reveal_strlit("keep");
    reveal_strlit("discard");
    reveal_strlit("toggle-read");
    reveal_strlit("retry-memory");
    reveal_strlit("list-back");
    reveal_strlit("read-back");
    reveal_strlit("list-next");
    reveal_strlit("read-next");
}

proof fn lemma_fixed_names_differ(k: int, l: int)
    requires
        0 <= k < l < fixed_actions().len(),
    ensures
        fixed_actions()[k].0 != fixed_actions()[l].0,
{
    lemma_name_letters();
}

proof fn lemma_numbers_differ(start: Seq<char>, i: nat, j: nat)
    requires
        i != j,
    ensures
        start + decimal(i) != start + decimal(j),
{
    law_decimal_reads_back(i);
    law_decimal_reads_back(j);
    if start + decimal(i) == start + decimal(j) {
        assert((start + decimal(i)).skip(start.len() as int) =~= decimal(i));
        assert((start + decimal(j)).skip(start.len() as int) =~= decimal(j));
    }
}

/// No two actions have the same name: what is pressed is what is done.
pub proof fn law_action_names_differ(s: ReaderView, k: int, l: int)
    requires
        0 <= k < l < s.actions().len(),
    ensures
        s.actions()[k].0 != s.actions()[l].0,
{
    let fixed = fixed_actions().len() as int;
    let collections = s.collections.len() as int;
    let papers = s.snapshot.papers.len() as int;
    reveal_strlit("collection-");
    reveal_strlit("paper-");
    reveal_strlit("kept-");
    let first = s.actions()[k].0;
    let second = s.actions()[l].0;
    if l < fixed {
        lemma_fixed_names_differ(k, l);
    } else {
        if k < fixed {
            lemma_fixed_names(k);
        }
        if l < fixed + collections {
            assert(second == "collection-"@ + decimal((l - fixed) as nat));
            assert(second[0] == 'c' && second[1] == 'o');
            if k >= fixed {
                lemma_numbers_differ("collection-"@, (k - fixed) as nat, (l - fixed) as nat);
            }
        } else if l < fixed + collections + papers {
            let number = (l - fixed - collections) as nat;
            assert(second == "paper-"@ + decimal(number));
            assert(second[0] == 'p');
            if k >= fixed + collections {
                lemma_numbers_differ("paper-"@, (k - fixed - collections) as nat, number);
            } else if k >= fixed {
                assert(first == "collection-"@ + decimal((k - fixed) as nat));
                assert(first[0] == 'c');
            }
        } else {
            let number = (l - fixed - collections - papers) as nat;
            assert(second == "kept-"@ + decimal(number));
            assert(second[0] == 'k' && second[2] == 'p');
            if k >= fixed + collections + papers {
                lemma_numbers_differ(
                    "kept-"@,
                    (k - fixed - collections - papers) as nat,
                    number,
                );
            } else if k >= fixed + collections {
                assert(first == "paper-"@ + decimal((k - fixed - collections) as nat));
                assert(first[0] == 'p');
            } else if k >= fixed {
                assert(first == "collection-"@ + decimal((k - fixed) as nat));
                assert(first[0] == 'c');
            }
        }
    }
}

/// A row of the feed, pressed, opens the paper that it shows.
pub proof fn law_rows_open_their_papers(s: ReaderView, shown: usize)
    requires
        s.paper_row(shown) is Some,
    ensures
        s.actions().contains(
            ((s.paper_row(shown)->0).action, Action::Paper(s.filtered[shown as int])),
        ),
        (s.paper_row(shown)->0).title == s.snapshot.papers[s.filtered[shown as int] as int].title,
{
    let index = s.filtered[shown as int];
    let at = fixed_actions().len() + s.collections.len() + index;
    assert(s.actions()[at] == ("paper-"@ + decimal(index as nat), Action::Paper(index)));
}

} // verus!

//! Nothing that happens to the reader leads out of the states in which it is
//! sound.
use vstd::prelude::*;
use vstd::utf8::*;

use crate::actions::{turned, Action, Outcome, PressView, Pressed, USER_ID_CHARS, USER_ID_KEY};
use crate::answers::{children_in, read_with, ReplyView, Step};
use crate::bridge::conversion_in;
use crate::cache::{law_read_snapshots_are_ordered, lemma_filter_map_short};
use crate::feed::{found_positions, page_in, page_path, snapshot_of, ITEMS_PER_PAGE, SELECTED_KEY};
use crate::fulltext::fulltext_in;
use crate::json::Value;
use crate::keys::{
    document_name, is_figure, is_key, is_origin, is_user_id, law_key_names_are_plain, memory_name,
    snapshot_name,
};
use crate::model::{
    AttachmentView, CollectionView, ConversionView, DetailView, PaperView, SnapshotView, MAX_ITEMS,
};
use crate::order::{law_sorting_orders, newest_first, newest_lead};
use crate::reader::{
    Pane, ReaderView, CONVERSION_BYTES, DOCUMENT_BYTES, LIST_BYTES, SNAPSHOT_BYTES,
    ZOTERO_RESPONSE_BYTES,
};
use crate::reading::{bridge_path, figure_of, from_first_figure, MAX_POLLS, POLL_SECONDS};
use crate::records::{
    kept_in, kept_row, law_compacting_twice, library_in, library_text, selection_in, selection_text,
    state_of, state_text, KeptView, MAX_KEPT,
};
use crate::safety::{
    all_keys, allowed, bridge_address, bridge_route, brings_library, collections_keyed, interferes,
    is_library, key_or_none, library_writable, list_read, papers_keyed, showable, spoils_nothing,
    spoils_nothing_if, takes_no_room, undisturbed, usable_name, writable, zotero_route, zotero_url,
    Event,
};
use crate::shelf::{
    clamped, keyed_otherwise, orphaned, removing, shelved, unlike, with_read, LIBRARY_KEY,
    STATE_KEY,
};
use crate::stored::{is_document, unsaved_text, user_in, ProgressView, ReportView, StoredView};
use crate::text::{compacted, flattened, lines_of, pieces, prefix, trimmed, Mark};
use crate::work::{
    failure_text, Awaiting, CommandView, Credential, HeaderView, PlaceView, Transfer, WorkView,
    ZOTERO_API,
};
use crate::zotero::{
    collection_row, collections_in, detail_in, first_attachment, paper_row, MAX_COLLECTIONS,
};

verus! {

// Each of the lemmas speaks of one step of the reader and shows that it spoils
// nothing; the laws at the end put them together.
proof fn lemma_emits(s: ReaderView, command: CommandView)
    ensures
        spoils_nothing_if(allowed(s.bridge, command), s, s.emits(command)),
{
    let t = s.emits(command);
    if s.sound() && allowed(s.bridge, command) {
        assert forall|i: int| 0 <= i < t.outbox.len() implies allowed(
            t.bridge,
            #[trigger] t.outbox[i],
        ) by {
            if i < s.outbox.len() {
                assert(t.outbox[i] == s.outbox[i]);
            }
        }
    }
}

proof fn lemma_shows(s: ReaderView)
    ensures
        spoils_nothing(s, s.shows()),
{
    lemma_emits(s, CommandView::Show);
}

proof fn lemma_troubled(s: ReaderView, message: Seq<char>)
    ensures
        spoils_nothing(s, s.troubled(message)),
{
    reveal(ReaderView::troubled);
}

proof fn lemma_fail_detail(s: ReaderView, message: Seq<char>)
    ensures
        spoils_nothing(s, s.fail_detail(message)),
{
    reveal(ReaderView::fail_detail);
}

proof fn lemma_stop_task(s: ReaderView)
    ensures
        spoils_nothing(s, s.stop_task()),
        s.stop_task().user_id == s.user_id,
{
    reveal(ReaderView::stop_task);
    if let Some((task, _)) = s.task {
        lemma_emits((ReaderView { task: None, ..s }), CommandView::Cancel(task));
    }
}

proof fn lemma_spawned(s: ReaderView, awaiting: Awaiting, task: Option<u64>)
    ensures
        spoils_nothing(s, s.spawned(awaiting, task)),
{
    lemma_troubled(s, "The device is busy. Try again."@);
}

proof fn lemma_fetch_zotero(s: ReaderView, suffix: Seq<char>, max_bytes: u32, awaiting: Awaiting)
    ensures
        spoils_nothing_if(
            zotero_route(suffix),
            s,
            s.fetch_zotero(suffix, max_bytes, awaiting),
        ),
{
    reveal(ReaderView::fetch_zotero);
    reveal(ReaderView::spawn_fetch);
    match s.user_id {
        Some(user) => {
            let stopped = s.stop_task();
            lemma_stop_task(s);
            let url = ZOTERO_API@ + ("/users/"@ + user + suffix);
            let headers = seq![HeaderView { name: "Zotero-API-Version"@, value: "3"@ }];
            if s.sound() && zotero_route(suffix) {
                assert(is_user_id(user) && zotero_route(suffix));
                assert(zotero_url(url));
            }
            lemma_emits(
                stopped,
                CommandView::Spawn {
                    work: WorkView::Fetch {
                        url,
                        max_bytes,
                        credential: Credential::Zotero,
                        headers,
                    },
                    awaiting,
                },
            );
        },
        None => {
            lemma_troubled(
                (ReaderView { pane: Pane::Setup, ..s }),
                "Enter the numeric Zotero user ID first."@,
            );
        },
    }
}

proof fn lemma_bridge_address(s: ReaderView, key: Seq<char>, rest: Seq<char>)
    requires
        s.sound(),
        s.bridge is Some,
        is_key(key),
        bridge_route(rest),
    ensures
        bridge_address(s.bridge, s.bridge->0 + bridge_path(key, rest)),
{
}

proof fn lemma_fetch_bridge(
    s: ReaderView,
    key: Seq<char>,
    rest: Seq<char>,
    max_bytes: u32,
    awaiting: Awaiting,
)
    ensures
        spoils_nothing_if(
            is_key(key) && bridge_route(rest),
            s,
            s.fetch_bridge(bridge_path(key, rest), max_bytes, awaiting),
        ),
{
    reveal(ReaderView::fetch_bridge);
    reveal(ReaderView::spawn_fetch);
    match s.bridge {
        Some(origin) => {
            lemma_stop_task(s);
            let url = origin + bridge_path(key, rest);
            if s.sound() && is_key(key) && bridge_route(rest) {
                lemma_bridge_address(s, key, rest);
            }
            lemma_emits(
                s.stop_task(),
                CommandView::Spawn {
                    work: WorkView::Fetch {
                        url,
                        max_bytes,
                        credential: Credential::Bridge,
                        headers: Seq::empty(),
                    },
                    awaiting,
                },
            );
        },
        None => lemma_troubled(s, "No optional conversion bridge is configured."@),
    }
}

proof fn lemma_post_bridge(s: ReaderView, key: Seq<char>, rest: Seq<char>, awaiting: Awaiting)
    ensures
        spoils_nothing_if(
            is_key(key) && bridge_route(rest),
            s,
            s.post_bridge(bridge_path(key, rest), awaiting),
        ),
{
    reveal(ReaderView::post_bridge);
    match s.bridge {
        Some(origin) => {
            lemma_stop_task(s);
            let url = origin + bridge_path(key, rest);
            if s.sound() && is_key(key) && bridge_route(rest) {
                lemma_bridge_address(s, key, rest);
            }
            lemma_emits(
                s.stop_task(),
                CommandView::Spawn {
                    work: WorkView::Post {
                        url,
                        body: "{}"@,
                        content_type: "application/json"@,
                        credential: Credential::Bridge,
                        max_bytes: CONVERSION_BYTES,
                    },
                    awaiting,
                },
            );
        },
        None => lemma_troubled(s, "No optional conversion bridge is configured."@),
    }
}

proof fn lemma_fetch_collections(s: ReaderView)
    ensures
        spoils_nothing(s, s.fetch_collections()),
{
    reveal(ReaderView::fetch_collections);
    lemma_fetch_zotero(
        (ReaderView { trouble: None, pane: Pane::Collections, ..s }),
        "/collections?format=json&limit=100&sort=title&direction=asc"@,
        LIST_BYTES,
        Awaiting::Collections,
    );
}

proof fn lemma_fetch_snapshot_page(s: ReaderView, collection: Seq<char>, start: usize)
    ensures
        spoils_nothing_if(is_key(collection), s, s.fetch_snapshot_page(collection, start)),
{
    reveal(ReaderView::fetch_snapshot_page);
    if is_key(collection) {
        assert(zotero_route(page_path(collection, start)));
    }
    lemma_fetch_zotero(
        s,
        page_path(collection, start),
        ZOTERO_RESPONSE_BYTES,
        Awaiting::SnapshotPage(start),
    );
}

proof fn lemma_refresh(s: ReaderView)
    ensures
        spoils_nothing(s, s.refresh()),
{
    reveal(ReaderView::refresh);
    match s.selected {
        Some(collection) => lemma_fetch_snapshot_page(
            (ReaderView {
                trouble: None,
                pane: Pane::Feed,
                pending_snapshot: Seq::empty(),
                ..s
            }),
            collection.key,
            0,
        ),
        None => lemma_fetch_collections(s),
    }
}

proof fn lemma_start_snapshot_load(s: ReaderView)
    ensures
        spoils_nothing(s, s.start_snapshot_load()),
{
    reveal(ReaderView::start_snapshot_load);
    if let (None, Some(collection)) = (s.snapshot_loading, s.selected) {
        if s.sound() {
            law_key_names_are_plain(collection.key);
        }
        lemma_emits(
            (ReaderView { snapshot_loading: Some(collection.key), ..s }),
            CommandView::Download {
                transfer: Transfer::SnapshotLoad,
                name: snapshot_name(collection.key),
                at_most: Some(SNAPSHOT_BYTES),
            },
        );
    }
}

proof fn lemma_begin_after_config(s: ReaderView)
    ensures
        spoils_nothing(s, s.begin_after_config()),
{
    reveal(ReaderView::begin_after_config);
    let feed = ReaderView { pane: Pane::Feed, ..s };
    lemma_start_snapshot_load(feed);
    lemma_refresh(feed.start_snapshot_load());
    lemma_fetch_collections(s);
}

proof fn lemma_blank_is_showable()
    ensures
        showable(SnapshotView::blank()),
{
}

proof fn lemma_select_collection(s: ReaderView, index: nat)
    ensures
        spoils_nothing(s, s.select_collection(index)),
{
    reveal(ReaderView::select_collection);
    if index < s.collections.len() {
        let collection = s.collections[index as int];
        let chosen = ReaderView {
            selected: Some(collection),
            snapshot: SnapshotView::blank(),
            fresh_snapshot: false,
            filtered: Seq::empty(),
            snapshot_loading: None,
            ..s
        };
        lemma_blank_is_showable();
        assert(spoils_nothing(s, chosen));
        let save = CommandView::Save {
            key: SELECTED_KEY@,
            value: encode_utf8(selection_text(collection)),
        };
        lemma_emits(chosen, save);
        lemma_start_snapshot_load(chosen.emits(save));
        lemma_refresh(chosen.emits(save).start_snapshot_load());
    }
}

proof fn lemma_apply_snapshot(s: ReaderView, snapshot: SnapshotView)
    ensures
        spoils_nothing_if(showable(snapshot), s, s.apply_snapshot(snapshot)),
{
}

proof fn lemma_save_snapshot(s: ReaderView, snapshot: SnapshotView)
    ensures
        spoils_nothing(s, s.save_snapshot(snapshot)),
{
    reveal(ReaderView::save_snapshot);
    if let Some(collection) = s.selected {
        if s.sound() {
            law_key_names_are_plain(collection.key);
        }
        lemma_emits(
            (ReaderView { snapshot_upload: true, ..s }),
            CommandView::UploadSnapshot {
                name: snapshot_name(collection.key),
                snapshot,
            },
        );
    }
}

proof fn lemma_sorted_papers_keyed(papers: Seq<PaperView>)
    requires
        papers_keyed(papers),
    ensures
        papers_keyed(newest_first(papers)),
        newest_lead(newest_first(papers)),
        newest_first(papers).len() == papers.len(),
{
    law_sorting_orders(papers);
    let sorted = newest_first(papers);
    assert forall|i: int| 0 <= i < sorted.len() implies is_key((#[trigger] sorted[i]).key) by {
        assert(papers.contains(sorted[i]));
        let j = choose|j: int| 0 <= j < papers.len() && papers[j] == sorted[i];
        assert(is_key(papers[j].key));
    }
}

proof fn lemma_finish_snapshot(s: ReaderView, truncated: bool)
    ensures
        spoils_nothing(s, s.finish_snapshot(truncated)),
{
    reveal(ReaderView::finish_snapshot);
    if let Some(collection) = s.selected {
        let snapshot = snapshot_of(collection.key, s.pending_snapshot, truncated);
        let next = ReaderView { pending_snapshot: Seq::empty(), fresh_snapshot: true, ..s };
        if s.sound() {
            lemma_sorted_papers_keyed(s.pending_snapshot);
        }
        lemma_apply_snapshot(next, snapshot);
        lemma_save_snapshot(next.apply_snapshot(snapshot), snapshot);
    }
}

proof fn lemma_with_page(s: ReaderView, page: Seq<PaperView>)
    requires
        papers_keyed(page),
    ensures
        spoils_nothing(s, s.with_page(page)),
{
    let t = s.with_page(page);
    if s.sound() {
        assert forall|i: int| 0 <= i < t.pending_snapshot.len() implies is_key(
            (#[trigger] t.pending_snapshot[i]).key,
        ) by {
            if i < s.pending_snapshot.len() {
                assert(t.pending_snapshot[i] == s.pending_snapshot[i]);
            } else {
                assert(t.pending_snapshot[i] == page[i - s.pending_snapshot.len()]);
            }
        }
    }
}

proof fn lemma_took_snapshot_page(s: ReaderView, start: usize, page: Option<Seq<PaperView>>)
    requires
        page matches Some(page) ==> papers_keyed(page),
    ensures
        spoils_nothing(s, s.took_snapshot_page(start, page)),
{
    reveal(ReaderView::took_snapshot_page);
    match page {
        None => lemma_troubled(s, "Zotero returned an unreadable item page."@),
        Some(page) => {
            lemma_finish_snapshot(s, page.len() > 0);
            let next = s.with_page(page);
            lemma_with_page(s, page);
            lemma_finish_snapshot(next, false);
            if let Some(collection) = s.selected {
                lemma_fetch_snapshot_page(next, collection.key, MAX_ITEMS);
                lemma_fetch_snapshot_page(
                    next,
                    collection.key,
                    (start + ITEMS_PER_PAGE) as usize,
                );
            }
        },
    }
}

proof fn lemma_found_positions(papers: Seq<PaperView>, phrase: Seq<char>)
    requires
        papers.len() <= usize::MAX,
    ensures
        forall|i: int|
            0 <= i < found_positions(papers, phrase).len() ==> #[trigger] found_positions(
                papers,
                phrase,
            )[i] < papers.len(),
    decreases papers.len(),
{
    if papers.len() > 0 {
        let before = found_positions(papers.drop_last(), phrase);
        let found = found_positions(papers, phrase);
        lemma_found_positions(papers.drop_last(), phrase);
        assert forall|i: int| 0 <= i < found.len() implies #[trigger] found[i] < papers.len() by {
            if i < before.len() {
                assert(found[i] == before[i]);
            }
        }
    }
}

proof fn lemma_apply_search(s: ReaderView)
    ensures
        spoils_nothing(s, s.apply_search()),
{
    reveal(ReaderView::apply_search);
    if s.sound() {
        lemma_found_positions(s.snapshot.papers, trimmed(s.typed));
    }
}

proof fn lemma_took_stored_snapshot(s: ReaderView, json: Option<Value>)
    ensures
        spoils_nothing(s, s.took_stored_snapshot(json)),
{
    reveal(ReaderView::took_stored_snapshot);
    if let Some(root) = json {
        law_read_snapshots_are_ordered(&root);
    }
}

proof fn lemma_save_library(s: ReaderView)
    ensures
        spoils_nothing(s, s.save_library()),
{
    lemma_emits(
        s,
        CommandView::Save {
            key: LIBRARY_KEY@,
            value: encode_utf8(library_text(s.library)),
        },
    );
}

proof fn lemma_save_state(s: ReaderView)
    ensures
        spoils_nothing(s, s.save_state()),
{
    lemma_emits(
        s,
        CommandView::Save {
            key: STATE_KEY@,
            value: encode_utf8(
                state_text(s.read_keys, s.last_opened),
            ),
        },
    );
}

proof fn lemma_keep_document(s: ReaderView)
    ensures
        spoils_nothing(s, s.keep_document()),
{
    reveal(ReaderView::keep_document);
    lemma_troubled(s, "The offline copy is still being saved."@);
    lemma_troubled(s, "Offline library full. Remove a paper before keeping another."@);
    lemma_troubled(s, "Open the full text before keeping it offline."@);
    if let (Some(key), Some(html)) = (s.opened_key, s.fetched_html) {
        if s.sound() {
            law_key_names_are_plain(key);
        }
        law_compacting_twice(s.opened_title, 160);
        law_compacting_twice(s.opened_creators, 256);
        let next = ReaderView {
            document_upload: true,
            document_transfer: Some(
                KeptView {
                    key,
                    title: compacted(s.opened_title, 160),
                    creators: compacted(s.opened_creators, 256),
                    bytes: clamped(html.len()),
                },
            ),
            ..s
        };
        lemma_emits(
            next,
            CommandView::Upload {
                transfer: Transfer::DocumentSave,
                name: document_name(key),
                bytes: html,
            },
        );
    }
}

proof fn lemma_filtered_library(library: Seq<KeptView>, wanted: spec_fn(KeptView) -> bool)
    ensures
        library.filter(wanted).len() <= library.len(),
        library_writable(library) ==> library_writable(library.filter(wanted)),
{
    library.lemma_filter_len(wanted);
    let rest = library.filter(wanted);
    assert forall|i: int| 0 <= i < rest.len() && library_writable(library) implies writable(
        #[trigger] rest[i],
    ) by {
        library.lemma_filter_contains_rev(wanted, rest[i]);
        let j = choose|j: int| 0 <= j < library.len() && library[j] == rest[i];
        assert(writable(library[j]));
    }
}

proof fn lemma_without_kept(s: ReaderView, key: Seq<char>)
    ensures
        spoils_nothing(s, s.without_kept(key)),
{
    lemma_filtered_library(s.library, keyed_otherwise(key));
}

proof fn lemma_discard_document(s: ReaderView)
    ensures
        spoils_nothing(s, s.discard_document()),
{
    reveal(ReaderView::discard_document);
    if let Some(key) = s.opened_key {
        lemma_without_kept(s, key);
        let next = ReaderView {
            shelf_documents: match s.shelf_documents {
                Some(documents) => Some(
                    documents.filter(unlike(document_name(key))),
                ),
                None => None,
            },
            ..s.without_kept(key)
        };
        let document = CommandView::Remove { name: document_name(key) };
        let memory = CommandView::Remove { name: memory_name(key) };
        lemma_emits(next, document);
        lemma_emits(next.emits(document), memory);
        lemma_save_library(next.emits(document).emits(memory));
    }
}

proof fn lemma_reconcile_shelf(s: ReaderView)
    ensures
        spoils_nothing(s, s.reconcile_shelf()),
{
    reveal(ReaderView::reconcile_shelf);
    if let Some(documents) = s.shelf_documents {
        let library = s.library.filter(shelved(documents));
        let removed = documents.filter(orphaned(s.library)).map_values(removing());
        let next = ReaderView { library, outbox: s.outbox + removed, ..s };
        lemma_filtered_library(s.library, shelved(documents));
        assert(spoils_nothing(s, next)) by {
            if s.sound() {
                assert forall|i: int| 0 <= i < next.outbox.len() implies allowed(
                    next.bridge,
                    #[trigger] next.outbox[i],
                ) by {
                    if i < s.outbox.len() {
                        assert(next.outbox[i] == s.outbox[i]);
                    } else {
                        assert(next.outbox[i] == removed[i - s.outbox.len()]);
                    }
                }
            }
        }
        lemma_save_library(next);
    }
}

/// Adding the paper whose text was saved makes the library longer by one.
proof fn lemma_kept_document(s: ReaderView)
    ensures
        s.kept_document().bridge == s.bridge,
        s.sound() ==> s.kept_document().sound(),
        s.kept_document().library.len() <= s.library.len() + 1,
        s.kept_document().document_upload == s.document_upload,
{
    reveal(ReaderView::kept_document);
    if let Some(kept) = s.document_transfer {
        let next = ReaderView {
            document_transfer: None,
            library: seq![kept] + s.library,
            shelf_documents: match s.shelf_documents {
                Some(documents) => if documents.contains(document_name(kept.key)) {
                    Some(documents)
                } else {
                    Some(documents.push(document_name(kept.key)))
                },
                None => None,
            },
            ..s
        };
        if s.sound() {
            assert forall|i: int| 0 <= i < next.library.len() implies writable(
                #[trigger] next.library[i],
            ) by {
                if i > 0 {
                    assert(next.library[i] == s.library[i - 1]);
                }
            }
        }
        lemma_save_library(next);
    }
}

proof fn lemma_with_read(read_keys: Seq<Seq<char>>, key: Seq<char>)
    requires
        all_keys(read_keys),
        read_keys.no_duplicates(),
        is_key(key),
    ensures
        all_keys(with_read(read_keys, key)),
        with_read(read_keys, key).no_duplicates(),
{
    let next = with_read(read_keys, key);
    if !read_keys.contains(key) {
        let skipped: int = if read_keys.len() >= MAX_ITEMS {
            1
        } else {
            0
        };
        assert forall|i: int| 0 <= i < next.len() - 1 implies #[trigger] next[i] == read_keys[i
            + skipped] by {}
        assert forall|i: int| 0 <= i < next.len() implies is_key(#[trigger] next[i]) by {
            if i < next.len() - 1 {
                assert(is_key(read_keys[i + skipped]));
            }
        }
        assert forall|i: int, j: int| 0 <= i < j < next.len() implies next[i] != next[j] by {
            assert(next[i] == read_keys[i + skipped]);
            if j == next.len() - 1 {
                assert(read_keys.contains(read_keys[i + skipped]));
            } else {
                assert(next[j] == read_keys[j + skipped]);
            }
        }
    }
}

proof fn lemma_filter_distinct(keys: Seq<Seq<char>>, wanted: spec_fn(Seq<char>) -> bool)
    requires
        keys.no_duplicates(),
    ensures
        keys.filter(wanted).no_duplicates(),
    decreases keys.len(),
{
    reveal(Seq::filter);
    if keys.len() > 0 {
        let front = keys.drop_last();
        assert(front.no_duplicates());
        lemma_filter_distinct(front, wanted);
        let before = front.filter(wanted);
        if before.contains(keys.last()) {
            front.lemma_filter_contains_rev(wanted, keys.last());
            let i = choose|i: int| 0 <= i < front.len() && front[i] == keys.last();
            assert(keys[i] == keys[keys.len() - 1]);
        }
        let after = before.push(keys.last());
        assert forall|i: int, j: int| 0 <= i < j < after.len() implies after[i] != after[j] by {
            assert(before.contains(before[i]));
        }
    }
}

proof fn lemma_mark_opened(s: ReaderView, key: Seq<char>)
    ensures
        spoils_nothing_if(is_key(key), s, s.mark_opened(key)),
{
    reveal(ReaderView::mark_opened);
    if s.sound() && is_key(key) {
        lemma_with_read(s.read_keys, key);
    }
    lemma_save_state(
        (ReaderView {
            last_opened: Some(key),
            read_keys: with_read(s.read_keys, key),
            ..s
        }),
    );
}

proof fn lemma_toggle_read(s: ReaderView)
    ensures
        spoils_nothing(s, s.toggle_read()),
{
    reveal(ReaderView::toggle_read);
    if let Some(key) = s.opened_key {
        let rest = s.read_keys.filter(unlike(key));
        if s.sound() {
            lemma_filter_distinct(s.read_keys, unlike(key));
            assert forall|i: int| 0 <= i < rest.len() implies is_key(#[trigger] rest[i]) by {
                s.read_keys.lemma_filter_contains_rev(unlike(key), rest[i]);
                let j = choose|j: int| 0 <= j < s.read_keys.len() && s.read_keys[j] == rest[i];
                assert(is_key(s.read_keys[j]));
            }
            let longer = s.read_keys.push(key);
            assert forall|i: int| 0 <= i < longer.len() implies is_key(#[trigger] longer[i]) by {
                if i < s.read_keys.len() {
                    assert(longer[i] == s.read_keys[i]);
                }
            }
            if !s.read_keys.contains(key) {
                assert forall|i: int, j: int| 0 <= i < j < longer.len() implies longer[i]
                    != longer[j] by {
                    assert(s.read_keys.contains(s.read_keys[i]));
                }
            }
        }
        lemma_save_state((ReaderView { read_keys: rest, ..s }));
        lemma_save_state((ReaderView { read_keys: s.read_keys.push(key), ..s }));
    }
}

proof fn lemma_start_memory_upload(s: ReaderView, name: Seq<char>, bytes: Seq<u8>)
    ensures
        spoils_nothing_if(usable_name(name), s, s.start_memory_upload(name, bytes)),
{
    lemma_emits(
        (ReaderView { memory_upload: true, active_memory: Some((name, bytes)), ..s }),
        CommandView::Upload { transfer: Transfer::MemorySave, name, bytes },
    );
}

proof fn lemma_save_memory(s: ReaderView, memory: Option<Seq<u8>>)
    ensures
        spoils_nothing(s, s.save_memory(memory)),
{
    reveal(ReaderView::save_memory);
    if let Some((name, bytes)) = s.memory_payload(memory) {
        if s.sound() {
            law_key_names_are_plain(s.opened_key->0);
        }
        lemma_start_memory_upload((ReaderView { pending_memory: None, ..s }), name, bytes);
    }
}

proof fn lemma_retry_memory(s: ReaderView)
    ensures
        spoils_nothing(s, s.retry_memory()),
{
    reveal(ReaderView::retry_memory);
    lemma_troubled(s, "Reading memory is still being saved."@);
    if let Some((name, bytes)) = s.pending_memory {
        lemma_start_memory_upload(
            (ReaderView { pending_memory: None, trouble: None, ..s }),
            name,
            bytes,
        );
    }
}

proof fn lemma_close_book(s: ReaderView, memory: Option<Seq<u8>>)
    ensures
        spoils_nothing(s, s.close_book(memory)),
{
    reveal(ReaderView::close_book);
    lemma_save_memory(s, memory);
    lemma_emits(s.save_memory(memory), CommandView::CloseBook);
    let closed = ReaderView {
        figures: Seq::empty(),
        figure_task: None,
        place: None,
        memory_loading: None,
        ..s.save_memory(memory).emits(CommandView::CloseBook)
    };
    assert(spoils_nothing(s, closed));
    if let Some((task, _)) = s.figure_task {
        lemma_emits(closed, CommandView::Cancel(task));
    }
}

proof fn lemma_reset_item_content(s: ReaderView)
    ensures
        spoils_nothing(s, s.reset_item_content()),
{
}

proof fn lemma_open_paper(s: ReaderView, index: nat, memory: Option<Seq<u8>>)
    ensures
        spoils_nothing(s, s.open_paper(index, memory)),
{
    reveal(ReaderView::open_paper);
    lemma_troubled(
        s,
        "Finish or retry the pending reading-memory save before opening another paper."@,
    );
    if !s.owes_memory() && index < s.snapshot.papers.len() {
        let paper = s.snapshot.papers[index as int];
        lemma_close_book(s, memory);
        lemma_reset_item_content(s.close_book(memory));
        let next = ReaderView {
            opened_key: Some(paper.key),
            opened_title: paper.title,
            opened_creators: paper.creators,
            detail: None,
            detail_pages: Seq::empty(),
            detail_page: 0,
            from_library: false,
            pane: Pane::Detail,
            trouble: None,
            ..s.close_book(memory).reset_item_content()
        };
        assert(spoils_nothing(s, next));
        let suffix = "/items/"@ + paper.key + "?format=json"@;
        if s.sound() {
            assert(is_key(paper.key));
            assert(zotero_route(suffix));
        }
        lemma_fetch_zotero(
            next,
            suffix,
            ZOTERO_RESPONSE_BYTES,
            Awaiting::Detail,
        );
    }
}

proof fn lemma_open_kept(s: ReaderView, index: nat, memory: Option<Seq<u8>>)
    ensures
        spoils_nothing(s, s.open_kept(index, memory)),
{
    reveal(ReaderView::open_kept);
    lemma_troubled(
        s,
        "Finish or retry the pending reading-memory save before opening another paper."@,
    );
    if index < s.library.len() {
        lemma_close_book(s, memory);
        lemma_reset_item_content(s.close_book(memory));
    }
}

proof fn lemma_ask_memory(s: ReaderView, key: Seq<char>)
    ensures
        spoils_nothing_if(is_key(key), s, s.ask_memory(key)),
{
    if is_key(key) {
        law_key_names_are_plain(key);
    }
    lemma_emits(
        (ReaderView { place: None, memory_loading: Some(key), ..s }),
        CommandView::Download {
            transfer: Transfer::MemoryLoad,
            name: memory_name(key),
            at_most: None,
        },
    );
}

proof fn lemma_load_document(s: ReaderView, key: Seq<char>)
    ensures
        spoils_nothing_if(is_key(key), s, s.load_document(key)),
{
    reveal(ReaderView::load_document);
    if is_key(key) {
        law_key_names_are_plain(key);
    }
    lemma_ask_memory(s, key);
    let next = ReaderView {
        document_loading: true,
        pane: Pane::Converting,
        ..s.ask_memory(key)
    };
    assert(spoils_nothing_if(is_key(key), s, next));
    lemma_emits(
        next,
        CommandView::Download {
            transfer: Transfer::DocumentLoad,
            name: document_name(key),
            at_most: Some(DOCUMENT_BYTES as usize),
        },
    );
}

proof fn lemma_await_text(s: ReaderView, key: Seq<char>)
    ensures
        spoils_nothing_if(is_key(key), s, s.await_text(key)),
{
    reveal(ReaderView::await_text);
    lemma_ask_memory(s, key);
}

proof fn lemma_fetch_indexed_text(s: ReaderView)
    ensures
        spoils_nothing(s, s.fetch_indexed_text()),
{
    reveal(ReaderView::fetch_indexed_text);
    match s.attachment {
        Some(attachment) => {
            let suffix = "/items/"@ + attachment.key + "/fulltext"@;
            if s.sound() {
                assert(is_key(attachment.key));
                assert(zotero_route(suffix));
            }
            lemma_fetch_zotero(
                s,
                suffix,
                ZOTERO_RESPONSE_BYTES,
                Awaiting::ZoteroFullText,
            );
        },
        None => lemma_fail_detail(
            s,
            "No stored PDF with indexed text is attached to this Zotero item."@,
        ),
    }
}

proof fn lemma_start_conversion(s: ReaderView)
    ensures
        spoils_nothing(s, s.start_conversion()),
{
    reveal(ReaderView::start_conversion);
    lemma_troubled(
        s,
        "Finish or retry the pending reading-memory save before reopening the paper."@,
    );
    if let Some(key) = s.opened_key {
        lemma_load_document(s, key);
        lemma_await_text(s, key);
        let waiting = s.await_text(key);
        assert(bridge_route("/conversion"@));
        lemma_post_bridge(waiting, key, "/conversion"@, Awaiting::StartConversion);
        lemma_fetch_indexed_text(waiting);
    }
}

proof fn lemma_poll_conversion(s: ReaderView)
    ensures
        spoils_nothing(s, s.poll_conversion()),
{
    reveal(ReaderView::poll_conversion);
    if let Some(key) = s.opened_key {
        assert(bridge_route("/conversion"@));
        lemma_fetch_bridge(
            s,
            key,
            "/conversion"@,
            CONVERSION_BYTES,
            Awaiting::PollConversion,
        );
    }
}

proof fn lemma_wait_to_poll(s: ReaderView)
    ensures
        spoils_nothing(s, s.wait_to_poll()),
{
    reveal(ReaderView::wait_to_poll);
    if s.poll_count >= MAX_POLLS {
        lemma_fail_detail(s, "Conversion took longer than ten minutes. Try again later."@);
    } else {
        lemma_emits(
            (ReaderView { poll_count: (s.poll_count + 1) as u16, ..s }),
            CommandView::Spawn {
                work: WorkView::Sleep { seconds: POLL_SECONDS },
                awaiting: Awaiting::PollWait,
            },
        );
    }
}

proof fn lemma_fetch_document(s: ReaderView)
    ensures
        spoils_nothing(s, s.fetch_document()),
{
    reveal(ReaderView::fetch_document);
    if let Some(key) = s.opened_key {
        assert(bridge_route("/document"@));
        lemma_fetch_bridge(
            s,
            key,
            "/document"@,
            DOCUMENT_BYTES,
            Awaiting::Document,
        );
    }
}

proof fn lemma_took_conversion(s: ReaderView, read: Option<ConversionView>)
    ensures
        spoils_nothing(s, s.took_conversion(read)),
{
    reveal(ReaderView::took_conversion);
    reveal(ReaderView::follow_conversion);
    match read {
        None => lemma_fail_detail(s, "The bridge returned an unreadable conversion state."@),
        Some(conversion) => {
            let next = ReaderView { conversion: Some(conversion), ..s };
            lemma_fetch_document(next);
            lemma_wait_to_poll(next);
            lemma_fail_detail(next, "No PDF is stored with this Zotero item."@);
            lemma_fail_detail(
                next,
                match conversion.message {
                    Some(message) => message,
                    None => "The stored PDF could not be converted."@,
                },
            );
            lemma_fail_detail(next, "The bridge returned an unknown conversion state."@);
        },
    }
}

proof fn lemma_first_figure(figures: Seq<Seq<char>>)
    ensures
        from_first_figure(figures).len() > 0 ==> figure_of(from_first_figure(figures)[0]) is Some,
    decreases figures.len(),
{
    if figures.len() > 0 && figure_of(figures[0]) is None {
        lemma_first_figure(figures.drop_first());
    }
}

proof fn lemma_fetch_next_figure(s: ReaderView)
    ensures
        spoils_nothing(s, s.fetch_next_figure()),
{
    reveal(ReaderView::fetch_next_figure);
    reveal(ReaderView::asks_for_figure);
    if let (None, Some(key)) = (s.figure_task, s.opened_key) {
        let rest = from_first_figure(s.figures);
        lemma_first_figure(s.figures);
        lemma_emits(
            (ReaderView { figures: Seq::empty(), ..s }),
            CommandView::SettlePictures,
        );
        if rest.len() > 0 {
            let next = ReaderView { figures: rest.drop_first(), ..s };
            let name = figure_of(rest[0])->0;
            let path = bridge_path(key, "/figures/"@ + name);
            if let Some(origin) = s.bridge {
                if s.sound() {
                    assert(is_figure(name));
                    assert(bridge_route("/figures/"@ + name));
                    lemma_bridge_address(s, key, "/figures/"@ + name);
                }
                lemma_emits(
                    next,
                    CommandView::SpawnFigure {
                        url: origin + path,
                        credential: Credential::Bridge,
                        name: rest[0],
                    },
                );
            }
        }
    }
}

proof fn lemma_book_opened(s: ReaderView, missing: Seq<Seq<char>>)
    ensures
        spoils_nothing(s, s.book_opened(missing)),
{
    lemma_fetch_next_figure((ReaderView { figures: missing, ..s }));
}

proof fn lemma_took_document(s: ReaderView, html: Seq<u8>, readable: bool)
    ensures
        spoils_nothing(s, s.took_document(html, readable)),
{
    reveal(ReaderView::took_document);
    reveal(ReaderView::open_book);
    reveal(ReaderView::show_book);
    lemma_fail_detail(s, "The paper text was not valid UTF-8."@);
    lemma_fail_detail(s, "The response contained no readable paper text."@);
    let next = ReaderView { fetched_html: Some(html), place: None, ..s };
    let open = CommandView::OpenBook {
        html,
        place: match s.place {
            Some(place) => place,
            None => PlaceView::Fresh,
        },
        truncated: s.conversion is Some && s.conversion->0.truncated,
    };
    lemma_emits(next, open);
    let opened = s.open_book(html);
    assert(opened == next.emits(open));
    assert(spoils_nothing(s, opened));
    let marked = match opened.opened_key {
        Some(key) => opened.mark_opened(key),
        None => opened,
    };
    if let Some(key) = opened.opened_key {
        lemma_mark_opened(opened, key);
    }
    assert(spoils_nothing(opened, marked));
    lemma_emits((ReaderView { pane: Pane::FullText, ..marked }), CommandView::ReadFrontlight);
}

proof fn lemma_took_zotero_fulltext(s: ReaderView, json: Option<Value>)
    ensures
        spoils_nothing(s, s.took_zotero_fulltext(json)),
{
    reveal(ReaderView::took_zotero_fulltext);
    lemma_fail_detail(s, "Zotero returned unreadable indexed text for this attachment."@);
    if let Some(root) = json {
        if let Some(text) = fulltext_in(
            &root,
            s.opened_title,
            DOCUMENT_BYTES as nat,
        ) {
            lemma_emits(
                (ReaderView {
                    conversion: Some(
                        ConversionView {
                            state: "ready"@,
                            document_version: None,
                            truncated: text.truncated,
                            message: None,
                        },
                    ),
                    ..s
                }),
                CommandView::Parse { html: text.html },
            );
        }
    }
}

proof fn lemma_took_memory(s: ReaderView, bytes: Seq<u8>)
    ensures
        spoils_nothing(s, s.took_memory(bytes)),
{
    reveal(ReaderView::took_memory);
    lemma_emits((ReaderView { memory_loading: None, ..s }), CommandView::Restore { bytes });
}

proof fn lemma_take_user(s: ReaderView, user_id: Seq<char>)
    ensures
        spoils_nothing_if(is_user_id(user_id), s, s.take_user(user_id)),
{
    reveal(ReaderView::take_user);
    let next = ReaderView { user_id: Some(user_id), typed: Seq::empty(), ..s };
    let save = CommandView::Save {
        key: USER_ID_KEY@,
        value: encode_utf8(user_id),
    };
    lemma_emits(next, save);
    lemma_emits(next.emits(save), CommandView::ClearKeyboard);
    lemma_fetch_collections(next.emits(save).emits(CommandView::ClearKeyboard));
}

proof fn lemma_typed_user(s: ReaderView, pressed: Pressed)
    ensures
        spoils_nothing(s, s.typed_user(pressed)),
{
    reveal(ReaderView::typed_user);
    reveal(ReaderView::limit_typed);
    let user_id = trimmed(s.typed);
    let message = "The Zotero user ID must contain only digits and is not your username."@;
    lemma_take_user(s, user_id);
    lemma_shows(s.take_user(user_id));
    lemma_troubled(s, message);
    lemma_shows(s.troubled(message));
    let kept = prefix(s.typed, USER_ID_CHARS as nat);
    lemma_emits(
        (ReaderView { typed: kept, ..s }),
        CommandView::RetypeKeyboard { text: kept },
    );
    lemma_shows(s.limit_typed());
}

proof fn lemma_typed_phrase(s: ReaderView, pressed: Pressed)
    ensures
        spoils_nothing(s, s.typed_phrase(pressed)),
{
    reveal(ReaderView::typed_phrase);
    lemma_apply_search(s);
    let next = ReaderView { pane: Pane::Feed, ..s.apply_search() };
    assert(spoils_nothing(s, next));
    lemma_shows(next);
    lemma_shows(s);
}

proof fn lemma_stop_waiting(s: ReaderView)
    ensures
        spoils_nothing(s, s.stop_waiting()),
{
    reveal(ReaderView::stop_waiting);
    lemma_stop_task(s);
}

proof fn lemma_leave_book(s: ReaderView, memory: Option<Seq<u8>>)
    ensures
        spoils_nothing(s, s.leave_book(memory)),
{
    reveal(ReaderView::leave_book);
    lemma_close_book(s, memory);
}

proof fn lemma_back(s: ReaderView, memory: Option<Seq<u8>>)
    ensures
        spoils_nothing(s, s.back(memory)),
{
    reveal(ReaderView::back);
    match s.pane {
        Pane::Converting => {
            lemma_stop_waiting(s);
            lemma_shows(s.stop_waiting());
        },
        Pane::FullText => {
            lemma_leave_book(s, memory);
            lemma_shows(s.leave_book(memory));
        },
        _ => {
            lemma_shows((ReaderView { pane: Pane::Feed, ..s }));
            lemma_shows((ReaderView { pane: Pane::Setup, ..s }));
            lemma_shows((ReaderView { pane: Pane::Library, ..s }));
        },
    }
}

proof fn lemma_turn(s: ReaderView, forward: bool)
    ensures
        spoils_nothing(s, s.turn(forward)),
{
    reveal(ReaderView::turn);
    lemma_shows(
        (ReaderView { list_page: turned(s.list_page, forward), ..s }),
    );
    lemma_shows(
        (ReaderView { library_page: turned(s.library_page, forward), ..s }),
    );
    lemma_shows(
        (ReaderView { detail_page: turned(s.detail_page, forward), ..s }),
    );
}

proof fn lemma_follow_book(s: ReaderView, outcome: Outcome, memory: Option<Seq<u8>>)
    ensures
        spoils_nothing(s, s.follow_book(outcome, memory)),
{
    reveal(ReaderView::follow_book);
    lemma_back(s, memory);
    lemma_save_memory(s, memory);
    lemma_shows(s);
    if let Outcome::Light(level) = outcome {
        lemma_emits(s, CommandView::SetFrontlight(level));
    }
}

proof fn lemma_act(s: ReaderView, action: Action, memory: Option<Seq<u8>>)
    ensures
        spoils_nothing(s, s.act(action, memory)),
{
    reveal(ReaderView::act);
    match action {
        Action::Back => lemma_back(s, memory),
        Action::Refresh => {
            lemma_fetch_collections(s);
            lemma_shows(s.fetch_collections());
            lemma_refresh(s);
            lemma_shows(s.refresh());
        },
        Action::Search => {
            reveal(ReaderView::start_search);
            lemma_emits(
                (ReaderView { typed: Seq::empty(), pane: Pane::Search, ..s }),
                CommandView::ClearKeyboard,
            );
            lemma_shows(s.start_search());
        },
        Action::Library => {
            reveal(ReaderView::open_library);
            lemma_shows(s.open_library());
        },
        Action::ChangeCollection => {
            lemma_fetch_collections(s);
            lemma_shows(s.fetch_collections());
        },
        Action::FullText => {
            lemma_start_conversion(s);
            lemma_shows(s.start_conversion());
        },
        Action::Keep => {
            lemma_keep_document(s);
            lemma_shows(s.keep_document());
        },
        Action::Discard => {
            lemma_discard_document(s);
            lemma_shows(s.discard_document());
        },
        Action::ToggleRead => {
            lemma_toggle_read(s);
            lemma_shows(s.toggle_read());
        },
        Action::RetryMemory => {
            lemma_retry_memory(s);
            lemma_shows(s.retry_memory());
        },
        Action::PageBack => lemma_turn(s, false),
        Action::PageNext => lemma_turn(s, true),
        Action::Collection(index) => {
            lemma_select_collection(s, index as nat);
            lemma_shows(s.select_collection(index as nat));
        },
        Action::Paper(index) => {
            lemma_open_paper(s, index as nat, memory);
            lemma_shows(s.open_paper(index as nat, memory));
        },
        Action::Kept(index) => {
            lemma_open_kept(s, index as nat, memory);
            lemma_shows(s.open_kept(index as nat, memory));
        },
    }
}

proof fn lemma_on_action(s: ReaderView, press: PressView)
    ensures
        spoils_nothing(s, s.on_action(press)),
{
    reveal(ReaderView::on_action);
    let heard = ReaderView { typed: press.typed, ..s };
    if let Some(pressed) = press.pressed {
        lemma_typed_user(heard, pressed);
        lemma_typed_phrase(heard, pressed);
    }
    if let Some(outcome) = press.outcome {
        lemma_follow_book(heard, outcome, press.memory);
    }
    if let Some(action) = press.action {
        lemma_act(heard, action, press.memory);
    }
}

proof fn lemma_collections_keyed(root: &Value)
    ensures
        collections_in(root) matches Some(collections) ==> collections_keyed(
            collections,
        ),
{
    if let Some(collections) = collections_in(root) {
        if let Value::Array(rows) = root {
            let read = prefix(rows@, MAX_COLLECTIONS as nat);
            assert forall|i: int| 0 <= i < collections.len() implies is_key(
                (#[trigger] collections[i]).key,
            ) by {
                assert(collections.contains(collections[i]));
                read.lemma_filter_map_contains(collection_row(), collections[i]);
            }
        }
    }
}

proof fn lemma_page_keyed(json: Option<Value>)
    ensures
        page_in(json) matches Some(page) ==> papers_keyed(page),
{
    if let Some(Value::Array(rows)) = json {
        let page = rows@.filter_map(paper_row());
        assert forall|i: int| 0 <= i < page.len() implies is_key((#[trigger] page[i]).key) by {
            assert(page.contains(page[i]));
            rows@.lemma_filter_map_contains(paper_row(), page[i]);
        }
    }
}

proof fn lemma_attachment_keyed(rows: Seq<Value>)
    ensures
        first_attachment(rows) matches Some(attachment) ==> is_key(attachment.key),
    decreases rows.len(),
{
    if rows.len() > 0 {
        lemma_attachment_keyed(rows.drop_first());
    }
}

proof fn lemma_took_collections(s: ReaderView, collections: Option<Seq<CollectionView>>)
    requires
        collections matches Some(collections) ==> collections_keyed(collections),
    ensures
        spoils_nothing(s, s.took_collections(collections)),
{
    reveal(ReaderView::took_collections);
    match collections {
        Some(collections) => lemma_select_collection((ReaderView { collections, ..s }), 0),
        None => lemma_troubled(s, "The collection list was unreadable."@),
    }
}

proof fn lemma_took_detail(s: ReaderView, detail: Option<DetailView>)
    requires
        detail matches Some(detail) ==> is_key(detail.paper.key),
    ensures
        spoils_nothing(s, s.took_detail(detail)),
{
    reveal(ReaderView::took_detail);
    match detail {
        Some(detail) => {
            let suffix = "/items/"@ + detail.paper.key
                + "/children?format=json&itemType=attachment&limit=100"@;
            assert(is_key(detail.paper.key));
            assert(zotero_route(suffix));
            lemma_fetch_zotero(
                (ReaderView {
                    opened_creators: detail.paper.creators,
                    detail: Some(detail),
                    ..s
                }),
                suffix,
                LIST_BYTES,
                Awaiting::DetailChildren,
            );
        },
        None => lemma_troubled(s, "The paper details were unreadable."@),
    }
}

proof fn lemma_took_children(s: ReaderView, children: Option<Option<AttachmentView>>)
    requires
        children matches Some(Some(attachment)) ==> is_key(attachment.key),
    ensures
        spoils_nothing(s, s.took_children(children)),
{
    reveal(ReaderView::took_children);
    match children {
        Some(attachment) => {
            if let Some(detail) = s.detail {
                let known = DetailView {
                    paper: PaperView { has_pdf: attachment is Some, ..detail.paper },
                    ..detail
                };
                lemma_emits(
                    (ReaderView { attachment, detail: Some(known), ..s }),
                    CommandView::PaginateDetail { text: known.written() },
                );
            }
        },
        None => lemma_troubled(s, "The Zotero attachment list was unreadable."@),
    }
}

proof fn lemma_took_answer(
    s: ReaderView,
    awaiting: Awaiting,
    bytes: Seq<u8>,
    json: Option<Value>,
    readable: bool,
)
    ensures
        spoils_nothing(s, s.took_answer(awaiting, bytes, json, readable)),
{
    reveal(ReaderView::took_answer);
    match awaiting {
        Awaiting::Collections => {
            if let Some(root) = json {
                lemma_collections_keyed(&root);
            }
            lemma_took_collections(
                s,
                read_with(
                    json,
                    |root: &Value| collections_in(root),
                ),
            );
        },
        Awaiting::SnapshotPage(start) => {
            lemma_page_keyed(json);
            lemma_took_snapshot_page(s, start, page_in(json));
        },
        Awaiting::Detail => {
            lemma_took_detail(
                s,
                read_with(json, |root: &Value| detail_in(root)),
            );
        },
        Awaiting::DetailChildren => {
            if let Some(Value::Array(rows)) = json {
                lemma_attachment_keyed(rows@);
            }
            lemma_took_children(s, children_in(json));
        },
        Awaiting::ZoteroFullText => lemma_took_zotero_fulltext(s, json),
        Awaiting::StartConversion | Awaiting::PollConversion => lemma_took_conversion(
            s,
            match json {
                Some(root) => conversion_in(&root),
                None => None,
            },
        ),
        Awaiting::PollWait => lemma_poll_conversion(s),
        Awaiting::Document => lemma_took_document(s, bytes, readable),
    }
}

proof fn lemma_took_reply(s: ReaderView, awaiting: Awaiting, reply: ReplyView)
    ensures
        spoils_nothing(s, s.took_reply(awaiting, reply)),
{
    reveal(ReaderView::took_reply);
    reveal(ReaderView::took_failure);
    match reply {
        ReplyView::Completed { bytes, json, readable } => {
            lemma_took_answer(s, awaiting, bytes, json, readable);
        },
        ReplyView::Failed(error) => {
            lemma_fail_detail(s, failure_text(awaiting, error));
            lemma_troubled(s, failure_text(awaiting, error));
        },
        ReplyView::Cancelled => {},
    }
}

proof fn lemma_took_figure(s: ReaderView, name: Seq<char>, reply: ReplyView)
    ensures
        spoils_nothing(s, s.took_figure(name, reply)),
{
    reveal(ReaderView::took_figure);
    let idle = ReaderView { figure_task: None, ..s };
    lemma_fetch_next_figure(idle);
    if let ReplyView::Completed { bytes, json, readable } = reply {
        let picture = CommandView::ProvidePicture { name, bytes };
        lemma_emits(idle, picture);
        lemma_fetch_next_figure(idle.emits(picture));
    }
}

proof fn lemma_on_task(s: ReaderView, step: Step, task: u64, reply: ReplyView)
    ensures
        spoils_nothing(s, s.on_task(step, task, reply)),
{
    reveal(ReaderView::on_task);
    lemma_shows(s);
    if let Some((_, name)) = s.figure_task {
        lemma_took_figure(s, name, reply);
        lemma_shows(s.took_figure(name, reply));
    }
    if let Some((_, awaiting)) = s.task {
        let idle = ReaderView { task: None, ..s };
        lemma_took_reply(idle, awaiting, reply);
        lemma_shows(idle.took_reply(awaiting, reply));
    }
}

proof fn lemma_done(
    s: ReaderView,
    transfer: Transfer,
    bytes: Seq<u8>,
    json: Option<Value>,
    readable: bool,
)
    requires
        s.waits_for(transfer),
    ensures
        spoils_nothing(s, s.done(transfer, bytes, json, readable)),
{
    reveal(ReaderView::done);
    match transfer {
        Transfer::SnapshotLoad => lemma_took_stored_snapshot(s, json),
        Transfer::DocumentLoad => {
            reveal(ReaderView::loaded_document);
            lemma_took_document((ReaderView { document_loading: false, ..s }), bytes, readable);
        },
        Transfer::MemoryLoad => lemma_took_memory(s, bytes),
        Transfer::SnapshotSave => {},
        Transfer::DocumentSave => {
            reveal(ReaderView::saved_document);
            lemma_kept_document((ReaderView { document_upload: false, ..s }));
        },
        Transfer::MemorySave => {
            reveal(ReaderView::saved_memory);
            let next = ReaderView {
                memory_upload: false,
                active_memory: None,
                pending_memory: None,
                ..s
            };
            if let Some((name, bytes)) = s.pending_memory {
                lemma_start_memory_upload(next, name, bytes);
            }
        },
    }
}

proof fn lemma_failed(s: ReaderView, transfer: Transfer, missing: bool, reason: Seq<char>)
    ensures
        spoils_nothing(s, s.failed(transfer, missing, reason)),
{
    reveal(ReaderView::failed);
    match transfer {
        Transfer::DocumentLoad => {
            reveal(ReaderView::unloaded_document);
            reveal(ReaderView::lost_document);
            let next = ReaderView { document_loading: false, ..s };
            let message = "The interrupted offline copy was removed. Convert or keep it again."@;
            lemma_fail_detail(next, "The offline text could not be read from storage."@);
            lemma_fail_detail(next, message);
            if let Some(key) = s.opened_key {
                lemma_without_kept(next, key);
                lemma_save_library(next.without_kept(key));
                lemma_fail_detail(next.without_kept(key).save_library(), message);
            }
        },
        Transfer::MemoryLoad => {
            reveal(ReaderView::unloaded_memory);
            lemma_troubled(
                (ReaderView { memory_loading: None, ..s }),
                "Reading position and annotations could not be loaded."@,
            );
        },
        Transfer::DocumentSave => {
            reveal(ReaderView::unsaved_document);
            lemma_troubled(
                (ReaderView { document_upload: false, document_transfer: None, ..s }),
                "The paper text could not be kept."@,
            );
        },
        Transfer::MemorySave => {
            reveal(ReaderView::unsaved_memory);
            lemma_troubled(
                (ReaderView {
                    memory_upload: false,
                    active_memory: None,
                    pending_memory: match s.pending_memory {
                        Some(pending) => Some(pending),
                        None => s.active_memory,
                    },
                    ..s
                }),
                unsaved_text(reason),
            );
        },
        _ => {},
    }
}

proof fn lemma_took_report(s: ReaderView, report: ReportView)
    ensures
        spoils_nothing(s, s.took_report(report)),
{
    reveal(ReaderView::took_report);
    if s.waits_for(report.transfer) {
        match report.progress {
            ProgressView::Done { bytes, json, readable } => {
                lemma_done(s, report.transfer, bytes, json, readable);
            },
            ProgressView::Failed { missing, reason } => {
                lemma_failed(s, report.transfer, missing, reason);
            },
            _ => {},
        }
    }
}

proof fn lemma_took_reports(s: ReaderView, reports: Seq<ReportView>)
    ensures
        spoils_nothing(s, s.took_reports(reports).0),
    decreases reports.len(),
{
    if reports.len() > 0 && !s.only_moves(reports[0]) {
        lemma_took_report(s, reports[0]);
        lemma_took_reports(s.took_report(reports[0]), reports.drop_first());
    }
}

proof fn lemma_library_in(bytes: Seq<u8>)
    ensures
        library_writable(library_in(bytes)),
        library_in(bytes).len() <= MAX_KEPT,
{
    let library = library_in(bytes);
    if valid_utf8(bytes) {
        let read = prefix(
            lines_of(decode_utf8(bytes)),
            MAX_KEPT as nat,
        );
        lemma_filter_map_short(read, kept_row());
        assert forall|i: int| 0 <= i < library.len() implies writable(#[trigger] library[i]) by {
            assert(library.contains(library[i]));
            read.lemma_filter_map_contains(kept_row(), library[i]);
            let line = choose|line: Seq<char>|
                read.contains(line) && kept_in(line) == Some(library[i]);
            let fields = pieces(line, Mark::At('\t'));
            law_compacting_twice(fields[2], 160);
            law_compacting_twice(fields[3], 256);
            law_compacting_twice(Seq::empty(), 256);
            assert(flattened(Seq::empty()) =~= Seq::<char>::empty());
        }
    }
}

proof fn lemma_state_of_keyed(all: Seq<Seq<char>>)
    ensures
        all_keys(state_of(all).0),
        state_of(all).0.no_duplicates(),
        key_or_none(state_of(all).1),
    decreases all.len(),
{
    if all.len() > 0 {
        lemma_state_of_keyed(all.drop_last());
        let before = state_of(all.drop_last()).0;
        let after = state_of(all).0;
        assert forall|i: int| 0 <= i < after.len() implies is_key(#[trigger] after[i]) by {
            if i < before.len() {
                assert(after[i] == before[i]);
            }
        }
        assert forall|i: int, j: int| 0 <= i < j < after.len() implies after[i] != after[j] by {
            assert(before.contains(before[i]));
        }
    }
}

/// The list that comes from the storage takes the place of the one before.
proof fn lemma_loaded_library(s: ReaderView, value: Option<Seq<u8>>)
    ensures
        s.loaded_library(value).library == list_read(value, s.shelf_documents),
        s.loaded_library(value).library.len() <= MAX_KEPT,
        s.loaded_library(value).document_upload == s.document_upload,
{
    reveal(ReaderView::loaded_library);
    reveal(ReaderView::reconcile_shelf);
    let library = match value {
        Some(bytes) => library_in(bytes),
        None => Seq::empty(),
    };
    if let Some(bytes) = value {
        lemma_library_in(bytes);
    }
    if let Some(documents) = s.shelf_documents {
        library.lemma_filter_len(shelved(documents));
    }
}

/// The names under which small values are kept differ.
proof fn lemma_keys_differ()
    ensures
        LIBRARY_KEY@ != USER_ID_KEY@,
        LIBRARY_KEY@ != SELECTED_KEY@,
{
    reveal_strlit("library");
    reveal_strlit("zotero-user-id");
    reveal_strlit("selected");
    assert(LIBRARY_KEY@.len() != USER_ID_KEY@.len());
    assert(LIBRARY_KEY@.len() != SELECTED_KEY@.len());
}

/// A list that comes from the storage replaces the kept papers, and nothing
/// else that comes takes room.
proof fn lemma_stored_room(s: ReaderView, stored: StoredView)
    ensures
        !is_library(stored) ==> takes_no_room(s, s.took_stored(stored)),
        is_library(stored) ==> {
            let after = s.took_stored(stored);
            &&& after.library == list_read(stored->value, s.shelf_documents)
            &&& after.library.len() <= MAX_KEPT
            &&& after.document_upload == s.document_upload
        },
{
    reveal(ReaderView::took_stored);
    match stored {
        StoredView::Loaded { key, value } => {
            if is_library(stored) {
                lemma_keys_differ();
                lemma_loaded_library(s, value);
            } else {
                reveal(ReaderView::loaded_user);
                reveal(ReaderView::loaded_selection);
                reveal(ReaderView::loaded_state);
                lemma_begin_after_config(
                    (ReaderView { user_id: user_in(value), user_id_loaded: true, ..s }),
                );
                let selected = match value {
                    Some(bytes) => selection_in(bytes),
                    None => None,
                };
                lemma_begin_after_config((ReaderView { selected, selection_loaded: true, ..s }));
            }
        },
        StoredView::Shelf(names) => {
            reveal(ReaderView::listed_shelf);
            lemma_reconcile_shelf(
                (ReaderView { shelf_documents: Some(names.filter(is_document())), ..s }),
            );
        },
        StoredView::Other => {},
    }
}

proof fn lemma_took_stored(s: ReaderView, stored: StoredView)
    ensures
        s.took_stored(stored).bridge == s.bridge,
        s.sound() ==> s.took_stored(stored).sound(),
{
    reveal(ReaderView::took_stored);
    match stored {
        StoredView::Loaded { key, value } => {
            reveal(ReaderView::loaded_user);
            reveal(ReaderView::loaded_selection);
            reveal(ReaderView::loaded_library);
            reveal(ReaderView::loaded_state);
            lemma_begin_after_config(
                (ReaderView {
                    user_id: user_in(value),
                    user_id_loaded: true,
                    ..s
                }),
            );
            let selected = match value {
                Some(bytes) => selection_in(bytes),
                None => None,
            };
            lemma_begin_after_config((ReaderView { selected, selection_loaded: true, ..s }));
            let library = match value {
                Some(bytes) => library_in(bytes),
                None => Seq::empty(),
            };
            if let Some(bytes) = value {
                lemma_library_in(bytes);
                if valid_utf8(bytes) {
                    lemma_state_of_keyed(
                        prefix(
                            lines_of(decode_utf8(bytes)),
                            (MAX_ITEMS + 1) as nat,
                        ),
                    );
                }
            }
            lemma_reconcile_shelf((ReaderView { library, library_loaded: true, ..s }));
        },
        StoredView::Shelf(names) => {
            reveal(ReaderView::listed_shelf);
            lemma_reconcile_shelf(
                (ReaderView {
                    shelf_documents: Some(names.filter(is_document())),
                    ..s
                }),
            );
        },
        StoredView::Other => {},
    }
}

/// A reader that has just been made is sound.
pub proof fn law_new_reader_is_sound(bridge: Option<Seq<char>>)
    requires
        bridge matches Some(origin) ==> is_origin(origin),
    ensures
        (ReaderView { bridge, ..ReaderView::fresh() }).sound(),
        (ReaderView { bridge, ..ReaderView::fresh() }).library_bounded(),
{
    lemma_blank_is_showable();
}

/// Nothing that happens makes a sound reader unsound: every key stays usable,
/// the list stays within the snapshot, the snapshot keeps its order and its
/// limit, polling ends, and nothing is asked of the device that may not be.
pub proof fn law_every_event_keeps_the_reader_sound(s: ReaderView, event: Event)
    requires
        s.sound(),
    ensures
        s.after(event).sound(),
        s.after(event).bridge == s.bridge,
{
    lemma_after(s, event);
}

proof fn lemma_after(s: ReaderView, event: Event)
    ensures
        s.after(event).bridge == s.bridge,
        s.sound() ==> s.after(event).sound(),
        brings_library(s, event) ==> s.after(event).library.len() <= MAX_KEPT,
        !interferes(s, event) ==> takes_no_room(s, s.after(event)),
        interferes(s, event) ==> s.after(event).places_taken() == MAX_KEPT + 1,
{
    match event {
        Event::Started => {
            reveal(ReaderView::on_start);
            let one = s.emits(CommandView::Load { key: USER_ID_KEY@ });
            lemma_emits(s, CommandView::Load { key: USER_ID_KEY@ });
            let two = one.emits(CommandView::Load { key: SELECTED_KEY@ });
            lemma_emits(one, CommandView::Load { key: SELECTED_KEY@ });
            let three = two.emits(CommandView::Load { key: LIBRARY_KEY@ });
            lemma_emits(two, CommandView::Load { key: LIBRARY_KEY@ });
            let four = three.emits(CommandView::Load { key: STATE_KEY@ });
            lemma_emits(three, CommandView::Load { key: STATE_KEY@ });
            lemma_emits(four, CommandView::ListShelf);
            lemma_shows(four.emits(CommandView::ListShelf));
        },
        Event::Pressed(press) => lemma_on_action(s, press),
        Event::TaskEnded { step, task, reply } => lemma_on_task(s, step, task, reply),
        Event::StorageAnswered { reports, stored } => {
            reveal(ReaderView::on_store);
            lemma_took_reports(s, reports);
            let next = s.took_reports(reports).0;
            lemma_took_stored(next, stored);
            lemma_stored_room(next, stored);
            lemma_shows(next.took_stored(stored));
        },
        Event::Left { memory } => lemma_save_memory(s, memory),
        Event::Exited => lemma_emits(s, CommandView::CloseBook),
        Event::CommandsTaken => {},
        Event::Spawned { awaiting, started } => lemma_spawned(s, awaiting, started),
        Event::FigureSpawned { name, started } => {},
        Event::DocumentParsed { html, readable } => lemma_took_document(s, html, readable),
        Event::BookOpened { missing } => lemma_book_opened(s, missing),
        Event::Restored { bytes, took } => {},
        Event::DetailPaginated { pages } => {},
    }
}

/// Whatever happens to a reader from its start, it is sound: everything that
/// it asks of the device may be asked. Zotero is only ever read, and only the
/// bridge sees the bridge's credential.
pub proof fn law_every_reachable_reader_is_sound(bridge: Option<Seq<char>>, events: Seq<Event>)
    requires
        bridge matches Some(origin) ==> is_origin(origin),
    ensures
        (ReaderView { bridge, ..ReaderView::fresh() }).after_all(events).sound(),
        (ReaderView { bridge, ..ReaderView::fresh() }).after_all(events).bridge == bridge,
    decreases events.len(),
{
    let start = ReaderView { bridge, ..ReaderView::fresh() };
    if events.len() == 0 {
        law_new_reader_is_sound(bridge);
    } else {
        law_every_reachable_reader_is_sound(bridge, events.drop_last());
        lemma_after(start.after_all(events.drop_last()), events.last());
    }
}

/// There is room for every kept paper and for the one that is being kept,
/// unless a full list of kept papers comes from the storage while the text of
/// another one is being saved. Even there the list holds no more papers than
/// the limit allows; only the one that is being kept has no room.
pub proof fn law_library_stays_bounded(s: ReaderView, event: Event)
    requires
        s.library_bounded(),
    ensures
        s.after(event).library_bounded() <==> !interferes(s, event),
        s.after(event).library.len() <= MAX_KEPT,
{
    lemma_after(s, event);
}

/// A list of kept papers that comes from the storage never holds too many,
/// whatever the reader held before.
pub proof fn law_lists_read_are_bounded(s: ReaderView, event: Event)
    requires
        brings_library(s, event),
    ensures
        s.after(event).library.len() <= MAX_KEPT,
{
    lemma_after(s, event);
}

/// Whatever happens to a reader from its start, it keeps at most one paper more
/// than the limit, with the one that is being kept.
pub proof fn law_every_reachable_library_nearly_fits(bridge: Option<Seq<char>>, events: Seq<Event>)
    ensures
        (ReaderView { bridge, ..ReaderView::fresh() }).after_all(events).places_taken() <= MAX_KEPT
            + 1,
    decreases events.len(),
{
    let start = ReaderView { bridge, ..ReaderView::fresh() };
    if events.len() > 0 {
        law_every_reachable_library_nearly_fits(bridge, events.drop_last());
        lemma_after(start.after_all(events.drop_last()), events.last());
    }
}

/// A reader to which no full list of kept papers comes while another text is
/// being saved never keeps more papers than the limit allows.
pub proof fn law_every_undisturbed_library_fits(bridge: Option<Seq<char>>, events: Seq<Event>)
    requires
        undisturbed((ReaderView { bridge, ..ReaderView::fresh() }), events),
    ensures
        (ReaderView { bridge, ..ReaderView::fresh() }).after_all(events).library_bounded(),
    decreases events.len(),
{
    let start = ReaderView { bridge, ..ReaderView::fresh() };
    if events.len() > 0 {
        law_every_undisturbed_library_fits(bridge, events.drop_last());
        lemma_after(start.after_all(events.drop_last()), events.last());
    }
}

} // verus!

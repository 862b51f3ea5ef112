//! What each thing that happens leaves as it was: everything that is not named
//! here stays.
use vstd::prelude::*;

use crate::actions::{Pressed, PressView};
use crate::json::Value;
use crate::model::{AttachmentView, CollectionView, ConversionView, DetailView, PaperView};
use crate::reader::{Pane, ReaderView};
use crate::work::{Awaiting, CommandView};

verus! {

proof fn lemma_fetch_zotero(s: ReaderView, rest: Seq<char>, max_bytes: u32, awaiting: Awaiting)
    ensures
        ({
            let after = s.fetch_zotero(rest, max_bytes, awaiting);
            after == (ReaderView {
                pane: after.pane,
                trouble: after.trouble,
                task: after.task,
                outbox: after.outbox,
                ..s
            })
        }),
{
    reveal(ReaderView::fetch_zotero);
    reveal(ReaderView::spawn_fetch);
    reveal(ReaderView::stop_task);
    reveal(ReaderView::troubled);
}

proof fn lemma_fetch_bridge(s: ReaderView, path: Seq<char>, max_bytes: u32, awaiting: Awaiting)
    ensures
        ({
            let after = s.fetch_bridge(path, max_bytes, awaiting);
            after == (ReaderView {
                trouble: after.trouble,
                task: after.task,
                outbox: after.outbox,
                ..s
            })
        }),
        ({
            let after = s.post_bridge(path, awaiting);
            after == (ReaderView {
                trouble: after.trouble,
                task: after.task,
                outbox: after.outbox,
                ..s
            })
        }),
{
    reveal(ReaderView::fetch_bridge);
    reveal(ReaderView::post_bridge);
    reveal(ReaderView::spawn_fetch);
    reveal(ReaderView::stop_task);
    reveal(ReaderView::troubled);
}

/// Asking for lists changes what is shown and asked for, and the papers that
/// are on their way.
pub proof fn law_asking_for_lists_keeps_the_rest(s: ReaderView)
    ensures
        ({
            let after = s.fetch_collections();
            after == (ReaderView {
                pane: after.pane,
                trouble: after.trouble,
                task: after.task,
                outbox: after.outbox,
                ..s
            })
        }),
        ({
            let after = s.refresh();
            after == (ReaderView {
                pane: after.pane,
                trouble: after.trouble,
                task: after.task,
                outbox: after.outbox,
                pending_snapshot: after.pending_snapshot,
                ..s
            })
        }),
        ({
            let after = s.start_snapshot_load();
            after == (ReaderView {
                snapshot_loading: after.snapshot_loading,
                outbox: after.outbox,
                ..s
            })
        }),
{
    reveal(ReaderView::fetch_collections);
    reveal(ReaderView::refresh);
    reveal(ReaderView::fetch_snapshot_page);
    reveal(ReaderView::start_snapshot_load);
    let path = "/collections?format=json&limit=100&sort=title&direction=asc"@;
    lemma_fetch_zotero(
        (ReaderView { trouble: None, pane: Pane::Collections, ..s }),
        path,
        524288,
        Awaiting::Collections,
    );
    if let Some(collection) = s.selected {
        lemma_fetch_zotero(
            (ReaderView {
                trouble: None,
                pane: Pane::Feed,
                pending_snapshot: Seq::empty(),
                ..s
            }),
            crate::feed::page_path(collection.key, 0),
            4194304,
            Awaiting::SnapshotPage(0),
        );
    }
}

/// Starting to read, and choosing a collection, keep what belongs to papers.
pub proof fn law_choosing_keeps_what_belongs_to_papers(s: ReaderView, index: nat)
    ensures
        ({
            let after = s.begin_after_config();
            after == (ReaderView {
                pane: after.pane,
                trouble: after.trouble,
                task: after.task,
                outbox: after.outbox,
                pending_snapshot: after.pending_snapshot,
                snapshot_loading: after.snapshot_loading,
                ..s
            })
        }),
        ({
            let after = s.select_collection(index);
            after == (ReaderView {
                pane: after.pane,
                trouble: after.trouble,
                task: after.task,
                outbox: after.outbox,
                pending_snapshot: after.pending_snapshot,
                snapshot_loading: after.snapshot_loading,
                selected: after.selected,
                snapshot: after.snapshot,
                fresh_snapshot: after.fresh_snapshot,
                filtered: after.filtered,
                ..s
            })
        }),
{
    reveal(ReaderView::begin_after_config);
    law_asking_for_lists_keeps_the_rest(s);
    let feed = ReaderView { pane: Pane::Feed, ..s };
    law_asking_for_lists_keeps_the_rest(feed);
    law_asking_for_lists_keeps_the_rest(feed.start_snapshot_load());
    reveal(ReaderView::select_collection);
    if index < s.collections.len() {
        let collection = s.collections[index as int];
        let chosen = ReaderView {
            selected: Some(collection),
            snapshot: crate::model::SnapshotView::blank(),
            fresh_snapshot: false,
            filtered: Seq::empty(),
            snapshot_loading: None,
            ..s
        }.emits(
            CommandView::Save {
                key: crate::feed::SELECTED_KEY@,
                value: vstd::utf8::encode_utf8(crate::records::selection_text(collection)),
            },
        );
        law_asking_for_lists_keeps_the_rest(chosen);
        law_asking_for_lists_keeps_the_rest(chosen.start_snapshot_load());
    }
}

/// A page changes the list and what is asked for, and nothing else.
pub proof fn law_pages_keep_the_rest(
    s: ReaderView,
    start: usize,
    page: Option<Seq<PaperView>>,
    json: Option<Value>,
)
    ensures
        ({
            let after = s.took_snapshot_page(start, page);
            after == (ReaderView {
                pane: after.pane,
                trouble: after.trouble,
                task: after.task,
                outbox: after.outbox,
                pending_snapshot: after.pending_snapshot,
                snapshot: after.snapshot,
                filtered: after.filtered,
                list_page: after.list_page,
                fresh_snapshot: after.fresh_snapshot,
                snapshot_upload: after.snapshot_upload,
                ..s
            })
        }),
        ({
            let after = s.took_stored_snapshot(json);
            after == (ReaderView {
                pane: after.pane,
                snapshot: after.snapshot,
                filtered: after.filtered,
                list_page: after.list_page,
                snapshot_loading: None,
                ..s
            })
        }),
        ({
            let after = s.apply_search();
            after == (ReaderView { filtered: after.filtered, list_page: 0, ..s })
        }),
{
    reveal(ReaderView::took_snapshot_page);
    reveal(ReaderView::finish_snapshot);
    reveal(ReaderView::save_snapshot);
    reveal(ReaderView::fetch_snapshot_page);
    reveal(ReaderView::troubled);
    reveal(ReaderView::took_stored_snapshot);
    reveal(ReaderView::apply_search);
    if let Some(page) = page {
        if let Some(collection) = s.selected {
            let next = s.with_page(page);
            lemma_fetch_zotero(
                next,
                crate::feed::page_path(collection.key, (start + 25) as usize),
                4194304,
                Awaiting::SnapshotPage((start + 25) as usize),
            );
            lemma_fetch_zotero(
                next,
                crate::feed::page_path(collection.key, 500),
                4194304,
                Awaiting::SnapshotPage(500),
            );
        }
    }
}

/// Opening a paper keeps the lists, the kept papers and what was read.
pub proof fn law_opening_keeps_the_lists(s: ReaderView, index: nat, memory: Option<Seq<u8>>)
    ensures
        ({
            let after = s.open_paper(index, memory);
            after == (ReaderView {
                opened_key: after.opened_key,
                opened_title: after.opened_title,
                opened_creators: after.opened_creators,
                detail: after.detail,
                detail_pages: after.detail_pages,
                detail_page: after.detail_page,
                from_library: after.from_library,
                pane: after.pane,
                trouble: after.trouble,
                task: after.task,
                outbox: after.outbox,
                fetched_html: after.fetched_html,
                conversion: after.conversion,
                attachment: after.attachment,
                place: after.place,
                figures: after.figures,
                figure_task: after.figure_task,
                memory_loading: after.memory_loading,
                memory_upload: after.memory_upload,
                active_memory: after.active_memory,
                pending_memory: after.pending_memory,
                ..s
            })
        }),
        ({
            let after = s.open_kept(index, memory);
            after == (ReaderView {
                opened_key: after.opened_key,
                opened_title: after.opened_title,
                opened_creators: after.opened_creators,
                detail: after.detail,
                detail_pages: after.detail_pages,
                detail_page: after.detail_page,
                from_library: after.from_library,
                pane: after.pane,
                trouble: after.trouble,
                outbox: after.outbox,
                fetched_html: after.fetched_html,
                conversion: after.conversion,
                attachment: after.attachment,
                place: after.place,
                figures: after.figures,
                figure_task: after.figure_task,
                memory_loading: after.memory_loading,
                memory_upload: after.memory_upload,
                active_memory: after.active_memory,
                pending_memory: after.pending_memory,
                ..s
            })
        }),
{
    reveal(ReaderView::open_paper);
    reveal(ReaderView::open_kept);
    reveal(ReaderView::troubled);
    lemma_close(s, memory);
    if index < s.snapshot.papers.len() {
        let paper = s.snapshot.papers[index as int];
        lemma_fetch_zotero(
            (ReaderView {
                opened_key: Some(paper.key),
                opened_title: paper.title,
                opened_creators: paper.creators,
                detail: None,
                detail_pages: Seq::empty(),
                detail_page: 0,
                from_library: false,
                pane: Pane::Detail,
                trouble: None,
                ..s.close_book(memory).reset_item_content()
            }),
            "/items/"@ + paper.key + "?format=json"@,
            4194304,
            Awaiting::Detail,
        );
    }
}

proof fn lemma_close(s: ReaderView, memory: Option<Seq<u8>>)
    ensures
        ({
            let after = s.close_book(memory);
            after == (ReaderView {
                outbox: after.outbox,
                place: after.place,
                figures: after.figures,
                figure_task: after.figure_task,
                memory_loading: after.memory_loading,
                memory_upload: after.memory_upload,
                active_memory: after.active_memory,
                pending_memory: after.pending_memory,
                ..s
            })
        }),
{
    reveal(ReaderView::close_book);
    reveal(ReaderView::save_memory);
}

/// Saving what was remembered changes that and nothing else.
pub proof fn law_saving_memories_keeps_the_rest(
    s: ReaderView,
    memory: Option<Seq<u8>>,
    reason: Seq<char>,
)
    ensures
        ({
            let after = s.save_memory(memory);
            after == (ReaderView {
                outbox: after.outbox,
                memory_upload: after.memory_upload,
                active_memory: after.active_memory,
                pending_memory: after.pending_memory,
                ..s
            })
        }),
        ({
            let after = s.saved_memory();
            after == (ReaderView {
                outbox: after.outbox,
                memory_upload: after.memory_upload,
                active_memory: after.active_memory,
                pending_memory: after.pending_memory,
                ..s
            })
        }),
        ({
            let after = s.retry_memory();
            after == (ReaderView {
                outbox: after.outbox,
                trouble: after.trouble,
                memory_upload: after.memory_upload,
                active_memory: after.active_memory,
                pending_memory: after.pending_memory,
                ..s
            })
        }),
        s.unsaved_memory(reason) == (ReaderView {
            memory_upload: false,
            active_memory: None,
            pending_memory: match s.pending_memory {
                Some(pending) => Some(pending),
                None => s.active_memory,
            },
            trouble: Some(
                "Reading position and annotations are not saved ("@ + reason
                    + "). Use Retry position below."@,
            ),
            ..s
        }),
{
    reveal(ReaderView::save_memory);
    reveal(ReaderView::saved_memory);
    reveal(ReaderView::retry_memory);
    reveal(ReaderView::unsaved_memory);
    reveal(ReaderView::troubled);
}

/// Details and attachments change those and what is asked for.
pub proof fn law_details_keep_the_rest(
    s: ReaderView,
    detail: Option<DetailView>,
    children: Option<Option<AttachmentView>>,
    collections: Option<Seq<CollectionView>>,
)
    ensures
        ({
            let after = s.took_detail(detail);
            after == (ReaderView {
                detail: after.detail,
                opened_creators: after.opened_creators,
                pane: after.pane,
                trouble: after.trouble,
                task: after.task,
                outbox: after.outbox,
                ..s
            })
        }),
        ({
            let after = s.took_children(children);
            after == (ReaderView {
                detail: after.detail,
                attachment: after.attachment,
                trouble: after.trouble,
                outbox: after.outbox,
                ..s
            })
        }),
        collections is None ==> s.took_collections(collections) == (ReaderView {
            trouble: Some("The collection list was unreadable."@),
            ..s
        }),
{
    reveal(ReaderView::took_detail);
    reveal(ReaderView::took_children);
    reveal(ReaderView::took_collections);
    reveal(ReaderView::troubled);
    if let Some(detail) = detail {
        lemma_fetch_zotero(
            (ReaderView { opened_creators: detail.paper.creators, detail: Some(detail), ..s }),
            "/items/"@ + detail.paper.key + "/children?format=json&itemType=attachment&limit=100"@,
            524288,
            Awaiting::DetailChildren,
        );
    }
}

/// Asking for a text changes what is waited for, and nothing of the lists or of
/// the paper.
pub proof fn law_asking_for_texts_keeps_the_rest(s: ReaderView, conversion: Option<ConversionView>)
    ensures
        ({
            let after = s.start_conversion();
            after == (ReaderView {
                place: after.place,
                memory_loading: after.memory_loading,
                document_loading: after.document_loading,
                poll_count: after.poll_count,
                pane: after.pane,
                trouble: after.trouble,
                task: after.task,
                outbox: after.outbox,
                ..s
            })
        }),
        ({
            let after = s.took_conversion(conversion);
            after == (ReaderView {
                conversion: after.conversion,
                poll_count: after.poll_count,
                pane: after.pane,
                trouble: after.trouble,
                task: after.task,
                outbox: after.outbox,
                ..s
            })
        }),
        ({
            let after = s.poll_conversion();
            after == (ReaderView {
                trouble: after.trouble,
                task: after.task,
                outbox: after.outbox,
                ..s
            })
        }),
{
    reveal(ReaderView::start_conversion);
    reveal(ReaderView::load_document);
    reveal(ReaderView::await_text);
    reveal(ReaderView::fetch_indexed_text);
    reveal(ReaderView::took_conversion);
    reveal(ReaderView::follow_conversion);
    reveal(ReaderView::fetch_document);
    reveal(ReaderView::wait_to_poll);
    reveal(ReaderView::poll_conversion);
    reveal(ReaderView::fail_detail);
    reveal(ReaderView::troubled);
    if let Some(key) = s.opened_key {
        let waiting = s.await_text(key);
        lemma_fetch_bridge(
            waiting,
            crate::reading::bridge_path(key, "/conversion"@),
            16384,
            Awaiting::StartConversion,
        );
        lemma_fetch_bridge(
            s,
            crate::reading::bridge_path(key, "/conversion"@),
            16384,
            Awaiting::PollConversion,
        );
        if let Some(attachment) = s.attachment {
            lemma_fetch_zotero(
                waiting,
                "/items/"@ + attachment.key + "/fulltext"@,
                4194304,
                Awaiting::ZoteroFullText,
            );
        }
        if let Some(conversion) = conversion {
            lemma_fetch_bridge(
                (ReaderView { conversion: Some(conversion), ..s }),
                crate::reading::bridge_path(key, "/document"@),
                786432,
                Awaiting::Document,
            );
        }
    }
}

/// Texts that come change the text, what was read and what is shown.
pub proof fn law_texts_keep_the_rest(
    s: ReaderView,
    html: Seq<u8>,
    readable: bool,
    json: Option<Value>,
)
    ensures
        ({
            let after = s.took_document(html, readable);
            after == (ReaderView {
                fetched_html: after.fetched_html,
                place: after.place,
                read_keys: after.read_keys,
                last_opened: after.last_opened,
                pane: after.pane,
                trouble: after.trouble,
                outbox: after.outbox,
                ..s
            })
        }),
        ({
            let after = s.took_zotero_fulltext(json);
            after == (ReaderView {
                conversion: after.conversion,
                pane: after.pane,
                trouble: after.trouble,
                outbox: after.outbox,
                ..s
            })
        }),
        ({
            let after = s.fetch_next_figure();
            after == (ReaderView { figures: after.figures, outbox: after.outbox, ..s })
        }),
{
    reveal(ReaderView::took_document);
    reveal(ReaderView::open_book);
    reveal(ReaderView::show_book);
    reveal(ReaderView::mark_opened);
    reveal(ReaderView::took_zotero_fulltext);
    reveal(ReaderView::fail_detail);
    reveal(ReaderView::fetch_next_figure);
    reveal(ReaderView::asks_for_figure);
}

/// Keeping a text changes what is being saved, and nothing else.
pub proof fn law_keeping_keeps_the_rest(s: ReaderView)
    ensures
        ({
            let after = s.keep_document();
            after == (ReaderView {
                document_upload: after.document_upload,
                document_transfer: after.document_transfer,
                trouble: after.trouble,
                outbox: after.outbox,
                ..s
            })
        }),
{
    reveal(ReaderView::keep_document);
    reveal(ReaderView::troubled);
}

/// A text that was saved joins the kept papers, and nothing else changes.
pub proof fn law_saved_texts_keep_the_rest(s: ReaderView)
    ensures
        ({
            let after = s.saved_document();
            after == (ReaderView {
                document_upload: after.document_upload,
                document_transfer: after.document_transfer,
                library: after.library,
                shelf_documents: after.shelf_documents,
                outbox: after.outbox,
                ..s
            })
        }),
{
    reveal(ReaderView::saved_document);
    reveal(ReaderView::kept_document);
}

/// Discarding a text, and finding out which texts are there, change what is
/// kept and nothing else.
pub proof fn law_discarding_keeps_the_rest(s: ReaderView)
    ensures
        ({
            let after = s.discard_document();
            after == (ReaderView {
                library: after.library,
                shelf_documents: after.shelf_documents,
                outbox: after.outbox,
                ..s
            })
        }),
        ({
            let after = s.reconcile_shelf();
            after == (ReaderView { library: after.library, outbox: after.outbox, ..s })
        }),
{
    reveal(ReaderView::discard_document);
    reveal(ReaderView::reconcile_shelf);
}

/// A text that could not be read ends the wait for it and may take its paper off
/// the kept ones.
pub proof fn law_unread_texts_keep_the_rest(s: ReaderView, missing: bool)
    ensures
        ({
            let after = s.unloaded_document(missing);
            after == (ReaderView {
                library: after.library,
                document_loading: false,
                pane: after.pane,
                trouble: after.trouble,
                outbox: after.outbox,
                ..s
            })
        }),
{
    reveal(ReaderView::unloaded_document);
    reveal(ReaderView::lost_document);
    reveal(ReaderView::fail_detail);
    reveal(ReaderView::troubled);
}

/// Marking a paper as read changes the marks and the last paper, and nothing
/// else.
pub proof fn law_marking_keeps_the_rest(s: ReaderView, key: Seq<char>)
    ensures
        ({
            let after = s.mark_opened(key);
            after == (ReaderView {
                read_keys: after.read_keys,
                last_opened: Some(key),
                outbox: after.outbox,
                ..s
            })
        }),
{
    reveal(ReaderView::mark_opened);
}

/// A submitted user changes the user and what is shown, a submitted phrase the
/// list that is shown.
pub proof fn law_submitting_keeps_the_rest(s: ReaderView, press: PressView)
    requires
        press.pressed == Some(Pressed::Submitted),
    ensures
        s.pane is Setup ==> {
            let after = s.on_action(press);
            after == (ReaderView {
                user_id: after.user_id,
                typed: after.typed,
                pane: after.pane,
                trouble: after.trouble,
                task: after.task,
                outbox: after.outbox,
                ..s
            })
        },
        s.pane is Search ==> {
            let after = s.on_action(press);
            after == (ReaderView {
                typed: press.typed,
                filtered: after.filtered,
                list_page: 0,
                pane: Pane::Feed,
                outbox: s.outbox.push(CommandView::Show),
                ..s
            })
        },
{
    reveal(ReaderView::on_action);
    reveal(ReaderView::typed_user);
    reveal(ReaderView::typed_phrase);
    reveal(ReaderView::take_user);
    reveal(ReaderView::apply_search);
    reveal(ReaderView::troubled);
    if s.pane is Setup {
        let user = crate::text::trimmed(press.typed);
        law_asking_for_lists_keeps_the_rest(
            (ReaderView { user_id: Some(user), typed: Seq::empty(), ..s }).emits(
                CommandView::Save {
                    key: crate::actions::USER_ID_KEY@,
                    value: vstd::utf8::encode_utf8(user),
                },
            ).emits(CommandView::ClearKeyboard),
        );
    }
}

/// Leaving a wait ends it and keeps everything else.
pub proof fn law_leaving_a_wait_keeps_the_rest(s: ReaderView, memory: Option<Seq<u8>>)
    requires
        s.pane is Converting,
    ensures
        ({
            let after = s.back(memory);
            after == (ReaderView {
                document_loading: false,
                memory_loading: None,
                pane: Pane::Detail,
                task: None,
                outbox: after.outbox,
                ..s
            })
        }),
{
    reveal(ReaderView::back);
    reveal(ReaderView::stop_waiting);
    reveal(ReaderView::stop_task);
}

} // verus!

//! What the reader does when something happens: whom it asks for what, what it
//! keeps, and what it shows next.
use vstd::prelude::*;
use vstd::utf8::*;

use crate::actions::{Action, Outcome, PressView, Pressed, USER_ID_KEY};
use crate::answers::{ReplyView, Step};
use crate::feed::SELECTED_KEY;
use crate::fulltext::fulltext_in;
use crate::json::Value;
use crate::keys::{document_name, is_user_id, memory_name, snapshot_name};
use crate::laws::lists::page_request;
use crate::model::{
    AttachmentView, CollectionView, ConversionView, DetailView, PaperView, SnapshotView,
};
use crate::reader::{Pane, ReaderView};
use crate::reading::{figure_of, from_first_figure};
use crate::records::{selection_text, state_text, KeptView};
use crate::shelf::{keeps, keyed_otherwise, unlike, with_read};
use crate::stored::{user_in, ProgressView, ReportView, StoredView};
use crate::text::{compacted, trimmed};
use crate::work::{
    Awaiting, CommandView, Credential, HeaderView, PlaceView, TaskError, Transfer, WorkView,
};

verus! {

/// The request for something in a user's library at Zotero: read only, in
/// version 3 of the API, under Zotero's own credential.
pub open spec fn zotero_request(
    user: Seq<char>,
    rest: Seq<char>,
    max_bytes: u32,
    awaiting: Awaiting,
) -> CommandView {
    CommandView::Spawn {
        work: WorkView::Fetch {
            url: "https://api.zotero.org"@ + ("/users/"@ + user + rest),
            max_bytes,
            credential: Credential::Zotero,
            headers: seq![HeaderView { name: "Zotero-API-Version"@, value: "3"@ }],
        },
        awaiting,
    }
}

/// The request for something at the bridge, under the bridge's own credential.
pub open spec fn bridge_request(
    origin: Seq<char>,
    key: Seq<char>,
    rest: Seq<char>,
    max_bytes: u32,
    awaiting: Awaiting,
) -> CommandView {
    CommandView::Spawn {
        work: WorkView::Fetch {
            url: origin + ("/v1/items/"@ + key + rest),
            max_bytes,
            credential: Credential::Bridge,
            headers: Seq::empty(),
        },
        awaiting,
    }
}

/// The commands that something added to those that were there.
pub open spec fn added(before: ReaderView, after: ReaderView) -> Seq<CommandView> {
    after.outbox.skip(before.outbox.len() as int)
}

/// Whether a command was added.
pub open spec fn asks(before: ReaderView, after: ReaderView, command: CommandView) -> bool {
    exists|i: int|
        before.outbox.len() <= i < after.outbox.len() && #[trigger] after.outbox[i] == command
}

proof fn lemma_zotero_request(
    s: ReaderView,
    user: Seq<char>,
    rest: Seq<char>,
    max_bytes: u32,
    awaiting: Awaiting,
)
    requires
        s.user_id == Some(user),
    ensures
        s.fetch_zotero(rest, max_bytes, awaiting) == (ReaderView {
            task: None,
            outbox: s.fetch_zotero(rest, max_bytes, awaiting).outbox,
            ..s
        }),
        s.fetch_zotero(rest, max_bytes, awaiting).outbox == (match s.task {
            Some((task, _)) => s.outbox.push(CommandView::Cancel(task)),
            None => s.outbox,
        }).push(zotero_request(user, rest, max_bytes, awaiting)),
{
    reveal(ReaderView::fetch_zotero);
    reveal(ReaderView::spawn_fetch);
    reveal(ReaderView::stop_task);
}

/// At its start the reader asks for everything that it keeps: the user, the
/// chosen collection, the kept papers, what was read, and the shelf.
pub proof fn law_the_start_asks_for_what_is_kept(s: ReaderView)
    ensures
        s.on_start() == (ReaderView { outbox: s.on_start().outbox, ..s }),
        s.on_start().outbox == s.outbox + seq![
            CommandView::Load { key: "zotero-user-id"@ },
            CommandView::Load { key: "selected"@ },
            CommandView::Load { key: "library"@ },
            CommandView::Load { key: "reading-state"@ },
            CommandView::ListShelf,
            CommandView::Show,
        ],
{
    reveal(ReaderView::on_start);
    assert(s.on_start().outbox =~= s.outbox + seq![
        CommandView::Load { key: "zotero-user-id"@ },
        CommandView::Load { key: "selected"@ },
        CommandView::Load { key: "library"@ },
        CommandView::Load { key: "reading-state"@ },
        CommandView::ListShelf,
        CommandView::Show,
    ]);
}

proof fn lemma_four_keys()
    ensures
        "zotero-user-id"@ != "selected"@,
        "zotero-user-id"@ != "library"@,
        "zotero-user-id"@ != "reading-state"@,
        "selected"@ != "library"@,
        "selected"@ != "reading-state"@,
        "library"@ != "reading-state"@,
{
    reveal_strlit("zotero-user-id");
    reveal_strlit("selected");
    reveal_strlit("library");
    reveal_strlit("reading-state");
    assert("zotero-user-id"@.len() == 14 && "selected"@.len() == 8 && "library"@.len() == 7
        && "reading-state"@.len() == 13);
}

/// The user that was kept is the user.
pub proof fn law_the_kept_user_is_taken(s: ReaderView, value: Option<Seq<u8>>)
    ensures
        ({
            let after = s.took_stored(StoredView::Loaded { key: "zotero-user-id"@, value });
            &&& after.user_id == user_in(value)
            &&& after.user_id_loaded
            &&& after.selected == s.selected
            &&& after.library == s.library
            &&& after.read_keys == s.read_keys
        }),
        s.took_stored(StoredView::Loaded { key: "zotero-user-id"@, value }) == (ReaderView {
            user_id: user_in(value),
            user_id_loaded: true,
            ..s
        }).begin_after_config(),
{
    reveal(ReaderView::took_stored);
    reveal(ReaderView::loaded_user);
    lemma_begin_keeps((ReaderView { user_id: user_in(value), user_id_loaded: true, ..s }));
}

/// The collection that was kept is the chosen one.
pub proof fn law_the_kept_collection_is_taken(s: ReaderView, value: Option<Seq<u8>>)
    ensures
        ({
            let after = s.took_stored(StoredView::Loaded { key: "selected"@, value });
            let chosen = match value {
                Some(bytes) => crate::records::selection_in(bytes),
                None => None,
            };
            &&& after.selected == chosen
            &&& after.selection_loaded
            &&& after.user_id == s.user_id
            &&& after.library == s.library
            &&& after.read_keys == s.read_keys
            &&& after == (ReaderView {
                selected: chosen,
                selection_loaded: true,
                ..s
            }).begin_after_config()
        }),
{
    reveal(ReaderView::took_stored);
    reveal(ReaderView::loaded_selection);
    lemma_four_keys();
    lemma_begin_keeps(
        (ReaderView {
            selected: match value {
                Some(bytes) => crate::records::selection_in(bytes),
                None => None,
            },
            selection_loaded: true,
            ..s
        }),
    );
}

/// What was read is what was kept of it, and nothing else changes.
pub proof fn law_the_kept_reading_state_is_taken(s: ReaderView, value: Option<Seq<u8>>)
    ensures
        ({
            let after = s.took_stored(StoredView::Loaded { key: "reading-state"@, value });
            let state = match value {
                Some(bytes) => crate::records::state_in(bytes),
                None => (Seq::<Seq<char>>::empty(), None),
            };
            after == (ReaderView { read_keys: state.0, last_opened: state.1, ..s })
        }),
{
    reveal(ReaderView::took_stored);
    reveal(ReaderView::loaded_state);
    lemma_four_keys();
}

/// The papers that were kept are the kept ones, without those whose document is
/// not on the shelf.
pub proof fn law_the_kept_papers_are_taken(s: ReaderView, value: Option<Seq<u8>>)
    ensures
        ({
            let after = s.took_stored(StoredView::Loaded { key: "library"@, value });
            &&& after.library_loaded
            &&& after.library == crate::safety::list_read(value, s.shelf_documents)
            &&& after.read_keys == s.read_keys
            &&& after.user_id == s.user_id
            &&& after.selected == s.selected
        }),
{
    reveal(ReaderView::took_stored);
    reveal(ReaderView::loaded_library);
    reveal(ReaderView::reconcile_shelf);
    lemma_four_keys();
}

proof fn lemma_refresh_keeps(s: ReaderView)
    ensures
        s.refresh().user_id == s.user_id,
        s.refresh().user_id_loaded == s.user_id_loaded,
        s.refresh().selection_loaded == s.selection_loaded,
        s.refresh().selected == s.selected,
        s.refresh().library == s.library,
        s.refresh().read_keys == s.read_keys,
        s.fetch_collections().user_id == s.user_id,
        s.fetch_collections().user_id_loaded == s.user_id_loaded,
        s.fetch_collections().selection_loaded == s.selection_loaded,
        s.fetch_collections().selected == s.selected,
        s.fetch_collections().library == s.library,
        s.fetch_collections().read_keys == s.read_keys,
{
    reveal(ReaderView::refresh);
    reveal(ReaderView::fetch_snapshot_page);
    reveal(ReaderView::fetch_collections);
    reveal(ReaderView::fetch_zotero);
    reveal(ReaderView::spawn_fetch);
    reveal(ReaderView::stop_task);
    reveal(ReaderView::troubled);
}

proof fn lemma_begin_keeps(s: ReaderView)
    ensures
        s.begin_after_config().user_id == s.user_id,
        s.begin_after_config().user_id_loaded == s.user_id_loaded,
        s.begin_after_config().selection_loaded == s.selection_loaded,
        s.begin_after_config().selected == s.selected,
        s.begin_after_config().library == s.library,
        s.begin_after_config().read_keys == s.read_keys,
{
    reveal(ReaderView::begin_after_config);
    reveal(ReaderView::start_snapshot_load);
    lemma_refresh_keeps(s);
    lemma_refresh_keeps((ReaderView { pane: Pane::Feed, ..s }).start_snapshot_load());
}

/// The list of collections of a user is asked for.
pub proof fn law_collections_are_asked_for(s: ReaderView, user: Seq<char>)
    requires
        s.user_id == Some(user),
    ensures
        s.fetch_collections().outbox.last() == zotero_request(
            user,
            "/collections?format=json&limit=100&sort=title&direction=asc"@,
            524288,
            Awaiting::Collections,
        ),
        s.fetch_collections().pane is Collections,
        s.fetch_collections().trouble is None,
        s.fetch_collections().selected == s.selected,
        s.fetch_collections().snapshot == s.snapshot,
{
    reveal(ReaderView::fetch_collections);
    lemma_zotero_request(
        (ReaderView { trouble: None, pane: Pane::Collections, ..s }),
        user,
        "/collections?format=json&limit=100&sort=title&direction=asc"@,
        524288,
        Awaiting::Collections,
    );
}

/// Once the user and the chosen collection are known, the stored list of that
/// collection is got and a new one is asked for. Without a user the user is
/// asked; without a collection the collections are listed.
pub proof fn law_reading_starts_when_all_is_known(
    s: ReaderView,
    user: Seq<char>,
    collection: CollectionView,
)
    requires
        s.user_id_loaded,
        s.selection_loaded,
    ensures
        s.user_id is None ==> s.begin_after_config() == (ReaderView { pane: Pane::Setup, ..s }),
        s.user_id == Some(user) && s.selected is None ==> s.begin_after_config()
            == s.fetch_collections(),
        s.user_id == Some(user) && s.selected == Some(collection) && s.snapshot_loading is None
            ==> {
            &&& s.begin_after_config().pane is Feed
            &&& s.begin_after_config().snapshot_loading == Some(collection.key)
            &&& s.begin_after_config().outbox[s.outbox.len() as int] == (CommandView::Download {
                transfer: Transfer::SnapshotLoad,
                name: snapshot_name(collection.key),
                at_most: Some(4194304),
            })
            &&& s.begin_after_config().outbox.last() == page_request(user, collection.key, 0)
        },
{
    reveal(ReaderView::begin_after_config);
    if s.user_id == Some(user) && s.selected == Some(collection) && s.snapshot_loading is None {
        reveal(ReaderView::start_snapshot_load);
        reveal(ReaderView::refresh);
        reveal(ReaderView::fetch_snapshot_page);
        let loading = (ReaderView { pane: Pane::Feed, ..s }).start_snapshot_load();
        let emptied = ReaderView {
            trouble: None,
            pane: Pane::Feed,
            pending_snapshot: Seq::empty(),
            ..loading
        };
        lemma_zotero_request(
            emptied,
            user,
            crate::feed::page_path(collection.key, 0),
            4194304,
            Awaiting::SnapshotPage(0),
        );
    }
}

/// Until both are known nothing is done.
pub proof fn law_reading_waits_until_all_is_known(s: ReaderView)
    requires
        !s.user_id_loaded || !s.selection_loaded,
    ensures
        s.begin_after_config() == s,
{
    reveal(ReaderView::begin_after_config);
}

/// A user's number that is submitted is taken without the white space around
/// it, is saved, and that user's collections are asked for. Anything else is
/// refused, and the user stays as it was.
pub proof fn law_submitted_users_are_taken(s: ReaderView, press: PressView)
    requires
        s.pane is Setup,
        press.pressed == Some(Pressed::Submitted),
    ensures
        is_user_id(trimmed(press.typed)) ==> {
            let user = trimmed(press.typed);
            let after = s.on_action(press);
            &&& after.user_id == Some(user)
            &&& after.outbox[s.outbox.len() as int] == (CommandView::Save {
                key: "zotero-user-id"@,
                value: encode_utf8(user),
            })
            &&& after.typed.len() == 0
            &&& after.pane is Collections
            &&& after.outbox[after.outbox.len() - 2] == zotero_request(
                user,
                "/collections?format=json&limit=100&sort=title&direction=asc"@,
                524288,
                Awaiting::Collections,
            )
        },
        !is_user_id(trimmed(press.typed)) ==> s.on_action(press) == (ReaderView {
            typed: press.typed,
            trouble: Some(
                "The Zotero user ID must contain only digits and is not your username."@,
            ),
            outbox: s.outbox.push(CommandView::Show),
            ..s
        }),
{
    reveal(ReaderView::on_action);
    reveal(ReaderView::typed_user);
    reveal(ReaderView::troubled);
    let user = trimmed(press.typed);
    if is_user_id(user) {
        reveal(ReaderView::take_user);
        let saved = ReaderView { user_id: Some(user), typed: Seq::empty(), ..s }.emits(
            CommandView::Save { key: USER_ID_KEY@, value: encode_utf8(user) },
        ).emits(CommandView::ClearKeyboard);
        law_collections_are_asked_for(saved, user);
        reveal(ReaderView::fetch_collections);
        lemma_zotero_request(
            (ReaderView { trouble: None, pane: Pane::Collections, ..saved }),
            user,
            "/collections?format=json&limit=100&sort=title&direction=asc"@,
            524288,
            Awaiting::Collections,
        );
    }
}

/// Of what is typed for a user no more than twenty characters stay.
pub proof fn law_typed_users_are_short(s: ReaderView, press: PressView)
    requires
        s.pane is Setup,
        press.pressed == Some(Pressed::Edited),
    ensures
        press.typed.len() <= 20 ==> s.on_action(press).typed == press.typed,
        press.typed.len() > 20 ==> s.on_action(press).typed == press.typed.take(20) && asks(
            s,
            s.on_action(press),
            CommandView::RetypeKeyboard { text: press.typed.take(20) },
        ),
        s.on_action(press).pane is Setup,
        s.on_action(press).user_id == s.user_id,
{
    reveal(ReaderView::on_action);
    reveal(ReaderView::typed_user);
    reveal(ReaderView::limit_typed);
    if press.typed.len() > 20 {
        assert(s.on_action(press).outbox[s.outbox.len() as int] == (CommandView::RetypeKeyboard {
            text: press.typed.take(20),
        }));
    }
}

/// The collections that came are listed; a single one is chosen at once if
/// none was.
pub proof fn law_collections_that_come_are_listed(
    s: ReaderView,
    collections: Seq<CollectionView>,
)
    ensures
        s.took_collections(Some(collections)).collections == collections,
        collections.len() != 1 || s.selected is Some ==> s.took_collections(Some(collections)) == (
        ReaderView { collections, ..s }),
        collections.len() == 1 && s.selected is None ==> s.took_collections(
            Some(collections),
        ).selected == Some(collections[0]),
{
    reveal(ReaderView::took_collections);
    if collections.len() == 1 && s.selected is None {
        lemma_chosen((ReaderView { collections, ..s }), 0);
    }
}

proof fn lemma_chosen(s: ReaderView, index: nat)
    requires
        index < s.collections.len(),
    ensures
        s.select_collection(index).collections == s.collections,
        s.select_collection(index).selected == Some(s.collections[index as int]),
{
    reveal(ReaderView::select_collection);
    reveal(ReaderView::start_snapshot_load);
    reveal(ReaderView::refresh);
    reveal(ReaderView::fetch_snapshot_page);
    reveal(ReaderView::fetch_zotero);
    reveal(ReaderView::spawn_fetch);
    reveal(ReaderView::stop_task);
    reveal(ReaderView::troubled);
}

/// The row of a collection that is pressed chooses that collection: it is
/// saved, its stored list is got, and its first page is asked for.
pub proof fn law_pressing_a_collection_chooses_it(
    s: ReaderView,
    press: PressView,
    index: usize,
    user: Seq<char>,
)
    requires
        s.pane is Collections,
        press.action == Some(Action::Collection(index)),
        index < s.collections.len(),
        s.user_id == Some(user),
    ensures
        ({
            let after = s.on_action(press);
            let collection = s.collections[index as int];
            &&& after.selected == Some(collection)
            &&& after.pane is Feed
            &&& after.snapshot.papers.len() == 0
            &&& after.filtered.len() == 0
            &&& after.pending_snapshot.len() == 0
            &&& !after.fresh_snapshot
            &&& after.outbox[s.outbox.len() as int] == (CommandView::Save {
                key: "selected"@,
                value: encode_utf8(selection_text(collection)),
            })
            &&& after.outbox[s.outbox.len() as int + 1] == (CommandView::Download {
                transfer: Transfer::SnapshotLoad,
                name: snapshot_name(collection.key),
                at_most: Some(4194304),
            })
            &&& after.outbox[after.outbox.len() - 2] == page_request(user, collection.key, 0)
        }),
{
    reveal(ReaderView::on_action);
    reveal(ReaderView::act);
    reveal(ReaderView::select_collection);
    reveal(ReaderView::start_snapshot_load);
    reveal(ReaderView::refresh);
    reveal(ReaderView::fetch_snapshot_page);
    let collection = s.collections[index as int];
    let heard = ReaderView { typed: press.typed, ..s };
    let loading = (ReaderView {
        selected: Some(collection),
        snapshot: SnapshotView::blank(),
        fresh_snapshot: false,
        filtered: Seq::empty(),
        snapshot_loading: None,
        ..heard
    }.emits(
        CommandView::Save { key: SELECTED_KEY@, value: encode_utf8(selection_text(collection)) },
    )).start_snapshot_load();
    lemma_zotero_request(
        (ReaderView {
            trouble: None,
            pane: Pane::Feed,
            pending_snapshot: Seq::empty(),
            ..loading
        }),
        user,
        crate::feed::page_path(collection.key, 0),
        4194304,
        Awaiting::SnapshotPage(0),
    );
}

/// The row of a paper that is pressed opens that paper: its details are asked
/// for under its key, and its title and creators are shown.
pub proof fn law_pressing_a_paper_opens_it(
    s: ReaderView,
    press: PressView,
    index: usize,
    user: Seq<char>,
)
    requires
        s.pane is Feed,
        press.action == Some(Action::Paper(index)),
        index < s.snapshot.papers.len(),
        s.user_id == Some(user),
        !s.memory_upload,
        s.pending_memory is None,
    ensures
        ({
            let after = s.on_action(press);
            let paper = s.snapshot.papers[index as int];
            &&& after.opened_key == Some(paper.key)
            &&& after.opened_title == paper.title
            &&& after.opened_creators == paper.creators
            &&& !after.from_library
            &&& after.pane is Detail
            &&& after.trouble is None
            &&& after.detail is None
            &&& after.attachment is None
            &&& after.fetched_html is None
            &&& after.conversion is None
            &&& after.outbox[after.outbox.len() - 2] == zotero_request(
                user,
                "/items/"@ + paper.key + "?format=json"@,
                4194304,
                Awaiting::Detail,
            )
            &&& after.snapshot == s.snapshot
            &&& after.filtered == s.filtered
            &&& asks(s, after, CommandView::CloseBook)
            &&& s.opened_key is Some && press.memory is Some ==> asks(
                s,
                after,
                CommandView::Upload {
                    transfer: Transfer::MemorySave,
                    name: memory_name(s.opened_key->0),
                    bytes: press.memory->0,
                },
            )
        }),
{
    reveal(ReaderView::on_action);
    reveal(ReaderView::act);
    reveal(ReaderView::open_paper);
    law_closing_asks_what_it_must((ReaderView { typed: press.typed, ..s }), press.memory);
    let heard = ReaderView { typed: press.typed, ..s };
    let paper = s.snapshot.papers[index as int];
    lemma_close_book(heard, press.memory);
    lemma_zotero_request(
        (ReaderView {
            opened_key: Some(paper.key),
            opened_title: paper.title,
            opened_creators: paper.creators,
            detail: None,
            detail_pages: Seq::empty(),
            detail_page: 0,
            from_library: false,
            pane: Pane::Detail,
            trouble: None,
            ..heard.close_book(press.memory).reset_item_content()
        }),
        user,
        "/items/"@ + paper.key + "?format=json"@,
        4194304,
        Awaiting::Detail,
    );
    let closed = heard.close_book(press.memory);
    let after = s.on_action(press);
    assert forall|i: int| s.outbox.len() <= i < closed.outbox.len() implies after.outbox[i]
        == #[trigger] closed.outbox[i] by {}
    let k = choose|k: int|
        heard.outbox.len() <= k < closed.outbox.len() && #[trigger] closed.outbox[k]
            == CommandView::CloseBook;
    assert(after.outbox[k] == CommandView::CloseBook);
    if s.opened_key is Some && press.memory is Some {
        let upload = CommandView::Upload {
            transfer: Transfer::MemorySave,
            name: memory_name(s.opened_key->0),
            bytes: press.memory->0,
        };
        let m = choose|m: int|
            heard.outbox.len() <= m < closed.outbox.len() && #[trigger] closed.outbox[m] == upload;
        assert(after.outbox[m] == upload);
    }
}

/// Closing a document closes it, stops the picture that is on its way, and
/// saves what was remembered.
pub proof fn law_closing_asks_what_it_must(s: ReaderView, memory: Option<Seq<u8>>)
    ensures
        asks(s, s.close_book(memory), CommandView::CloseBook),
        s.figure_task matches Some((task, name)) ==> asks(
            s,
            s.close_book(memory),
            CommandView::Cancel(task),
        ),
        s.opened_key is Some && memory is Some && !s.memory_upload ==> asks(
            s,
            s.close_book(memory),
            CommandView::Upload {
                transfer: Transfer::MemorySave,
                name: memory_name(s.opened_key->0),
                bytes: memory->0,
            },
        ),
        s.close_book(memory).outbox.len() >= s.outbox.len(),
        forall|i: int|
            0 <= i < s.outbox.len() ==> #[trigger] s.close_book(memory).outbox[i] == s.outbox[i],
{
    reveal(ReaderView::close_book);
    reveal(ReaderView::save_memory);
    let saved = s.save_memory(memory);
    let after = s.close_book(memory);
    assert(after.outbox[saved.outbox.len() as int] == CommandView::CloseBook);
    if let Some((task, _)) = s.figure_task {
        assert(after.outbox[saved.outbox.len() as int + 1] == CommandView::Cancel(task));
    }
    if s.opened_key is Some && memory is Some && !s.memory_upload {
        assert(after.outbox[s.outbox.len() as int] == (CommandView::Upload {
            transfer: Transfer::MemorySave,
            name: memory_name(s.opened_key->0),
            bytes: memory->0,
        }));
    }
}

proof fn lemma_close_book(s: ReaderView, memory: Option<Seq<u8>>)
    ensures
        s.close_book(memory) == (ReaderView {
            figures: Seq::empty(),
            figure_task: None,
            place: None,
            memory_loading: None,
            memory_upload: s.close_book(memory).memory_upload,
            active_memory: s.close_book(memory).active_memory,
            pending_memory: s.close_book(memory).pending_memory,
            outbox: s.close_book(memory).outbox,
            ..s
        }),
{
    reveal(ReaderView::close_book);
    reveal(ReaderView::save_memory);
}

/// The row of a kept paper that is pressed opens that paper without the
/// network: nothing is asked of Zotero or of the bridge.
pub proof fn law_pressing_a_kept_paper_opens_it(s: ReaderView, press: PressView, index: usize)
    requires
        s.pane is Library,
        press.action == Some(Action::Kept(index)),
        index < s.library.len(),
        !s.memory_upload,
        s.pending_memory is None,
    ensures
        ({
            let after = s.on_action(press);
            let kept = s.library[index as int];
            &&& after.opened_key == Some(kept.key)
            &&& after.opened_title == kept.title
            &&& after.opened_creators == kept.creators
            &&& after.from_library
            &&& after.pane is Detail
            &&& after.detail is None
            &&& after.fetched_html is None
            &&& after.task == s.task
            &&& after.library == s.library
            &&& asks(s, after, CommandView::CloseBook)
            &&& forall|i: int|
                s.outbox.len() <= i < after.outbox.len() ==> !(#[trigger] after.outbox[i] is Spawn)
        }),
{
    law_closing_asks_what_it_must((ReaderView { typed: press.typed, ..s }), press.memory);
    let closed = (ReaderView { typed: press.typed, ..s }).close_book(press.memory);
    let k = choose|k: int|
        s.outbox.len() <= k < closed.outbox.len() && #[trigger] closed.outbox[k]
            == CommandView::CloseBook;
    reveal(ReaderView::on_action);
    reveal(ReaderView::act);
    reveal(ReaderView::open_kept);
    assert(s.on_action(press).outbox[k] == CommandView::CloseBook);
    reveal(ReaderView::close_book);
    reveal(ReaderView::save_memory);
}

/// The details that came are those of the open paper; its attachments are asked
/// for under the key of the details.
pub proof fn law_details_lead_to_attachments(s: ReaderView, detail: DetailView, user: Seq<char>)
    requires
        s.user_id == Some(user),
    ensures
        s.took_detail(Some(detail)).detail == Some(detail),
        s.took_detail(Some(detail)).opened_creators == detail.paper.creators,
        s.took_detail(Some(detail)).opened_key == s.opened_key,
        s.took_detail(Some(detail)).outbox.last() == zotero_request(
            user,
            "/items/"@ + detail.paper.key + "/children?format=json&itemType=attachment&limit=100"@,
            524288,
            Awaiting::DetailChildren,
        ),
        s.took_detail(None) == (ReaderView {
            trouble: Some("The paper details were unreadable."@),
            ..s
        }),
{
    reveal(ReaderView::took_detail);
    reveal(ReaderView::troubled);
    lemma_zotero_request(
        (ReaderView { opened_creators: detail.paper.creators, detail: Some(detail), ..s }),
        user,
        "/items/"@ + detail.paper.key + "/children?format=json&itemType=attachment&limit=100"@,
        524288,
        Awaiting::DetailChildren,
    );
}

/// The attachment that came is the one whose text can be opened, and the
/// details say whether there is one; they are then written out.
pub proof fn law_attachments_complete_the_details(
    s: ReaderView,
    detail: DetailView,
    attachment: Option<AttachmentView>,
)
    requires
        s.detail == Some(detail),
    ensures
        ({
            let after = s.took_children(Some(attachment));
            &&& after.attachment == attachment
            &&& after.detail is Some
            &&& (after.detail->0).paper.has_pdf == (attachment is Some)
            &&& (after.detail->0).paper == (PaperView {
                has_pdf: attachment is Some,
                ..detail.paper
            })
            &&& (after.detail->0).authors == detail.authors
            &&& (after.detail->0).doi == detail.doi
            &&& (after.detail->0).url == detail.url
            &&& (after.detail->0).venue == detail.venue
            &&& (after.detail->0).abstract_text == detail.abstract_text
            &&& after.outbox == s.outbox.push(
                CommandView::PaginateDetail { text: (after.detail->0).written() },
            )
        }),
        s.took_children(None) == (ReaderView {
            trouble: Some("The Zotero attachment list was unreadable."@),
            ..s
        }),
{
    reveal(ReaderView::took_children);
    reveal(ReaderView::troubled);
}

/// The text of a kept paper comes from the shelf, under that paper's key; so
/// does where it was left.
pub proof fn law_kept_texts_come_from_the_shelf(s: ReaderView, key: Seq<char>)
    requires
        s.opened_key == Some(key),
        keeps(s.library, key),
        !s.memory_upload,
        s.pending_memory is None,
    ensures
        s.start_conversion().outbox == s.outbox + seq![
            CommandView::Download {
                transfer: Transfer::MemoryLoad,
                name: memory_name(key),
                at_most: None,
            },
            CommandView::Download {
                transfer: Transfer::DocumentLoad,
                name: document_name(key),
                at_most: Some(786432),
            },
        ],
        s.start_conversion().document_loading,
        s.start_conversion().memory_loading == Some(key),
        s.start_conversion().pane is Converting,
{
    reveal(ReaderView::start_conversion);
    reveal(ReaderView::load_document);
    assert(s.start_conversion().outbox =~= s.outbox + seq![
        CommandView::Download {
            transfer: Transfer::MemoryLoad,
            name: memory_name(key),
            at_most: None,
        },
        CommandView::Download {
            transfer: Transfer::DocumentLoad,
            name: document_name(key),
            at_most: Some(786432),
        },
    ]);
}

/// With a bridge, the bridge is told to convert the open paper.
pub proof fn law_the_bridge_converts_the_open_paper(
    s: ReaderView,
    key: Seq<char>,
    origin: Seq<char>,
)
    requires
        s.opened_key == Some(key),
        s.bridge == Some(origin),
        !keeps(s.library, key),
        !s.memory_upload,
        s.pending_memory is None,
    ensures
        s.start_conversion().outbox.last() == (CommandView::Spawn {
            work: WorkView::Post {
                url: origin + ("/v1/items/"@ + key + "/conversion"@),
                body: "{}"@,
                content_type: "application/json"@,
                credential: Credential::Bridge,
                max_bytes: 16384,
            },
            awaiting: Awaiting::StartConversion,
        }),
        s.start_conversion().outbox[s.outbox.len() as int] == (CommandView::Download {
            transfer: Transfer::MemoryLoad,
            name: memory_name(key),
            at_most: None,
        }),
        s.start_conversion().memory_loading == Some(key),
        s.start_conversion().pane is Converting,
        s.start_conversion().poll_count == 0,
        s.start_conversion().trouble is None,
{
    reveal(ReaderView::start_conversion);
    reveal(ReaderView::await_text);
    reveal(ReaderView::post_bridge);
    reveal(ReaderView::stop_task);
}

/// A bridge is asked again for the state, and for the text, of the open paper.
pub proof fn law_the_bridge_is_asked_about_the_open_paper(
    s: ReaderView,
    key: Seq<char>,
    origin: Seq<char>,
)
    requires
        s.opened_key == Some(key),
        s.bridge == Some(origin),
    ensures
        s.poll_conversion().outbox.last() == bridge_request(
            origin,
            key,
            "/conversion"@,
            16384,
            Awaiting::PollConversion,
        ),
        s.fetch_document().outbox.last() == bridge_request(
            origin,
            key,
            "/document"@,
            786432,
            Awaiting::Document,
        ),
{
    reveal(ReaderView::poll_conversion);
    reveal(ReaderView::fetch_document);
    reveal(ReaderView::fetch_bridge);
    reveal(ReaderView::spawn_fetch);
    reveal(ReaderView::stop_task);
}

/// What the bridge says is followed: a text that is ready is got, one that is
/// not yet is waited for, and a failure leads back to the details with the
/// bridge's message.
pub proof fn law_the_state_of_a_conversion_is_followed(s: ReaderView, conversion: ConversionView)
    ensures
        conversion.state == "ready"@ ==> s.took_conversion(Some(conversion)) == (ReaderView {
            conversion: Some(conversion),
            ..s
        }).fetch_document(),
        conversion.state == "queued"@ || conversion.state == "running"@ ==> s.took_conversion(
            Some(conversion),
        ) == (ReaderView { conversion: Some(conversion), ..s }).wait_to_poll(),
        conversion.state == "missing_pdf"@ ==> s.took_conversion(Some(conversion)) == (ReaderView {
            conversion: Some(conversion),
            pane: Pane::Detail,
            trouble: Some("No PDF is stored with this Zotero item."@),
            ..s
        }),
        conversion.state == "failed"@ ==> s.took_conversion(Some(conversion)) == (ReaderView {
            conversion: Some(conversion),
            pane: Pane::Detail,
            trouble: Some(
                match conversion.message {
                    Some(message) => message,
                    None => "The stored PDF could not be converted."@,
                },
            ),
            ..s
        }),
        s.took_conversion(None) == (ReaderView {
            pane: Pane::Detail,
            trouble: Some("The bridge returned an unreadable conversion state."@),
            ..s
        }),
{
    reveal(ReaderView::took_conversion);
    reveal(ReaderView::follow_conversion);
    reveal(ReaderView::fail_detail);
    reveal_strlit("ready");
    reveal_strlit("queued");
    reveal_strlit("running");
    reveal_strlit("missing_pdf");
    reveal_strlit("failed");
    assert("ready"@.len() == 5 && "queued"@.len() == 6 && "running"@.len() == 7
        && "missing_pdf"@.len() == 11 && "failed"@.len() == 6);
    assert("queued"@[0] == 'q' && "failed"@[0] == 'f');
}

/// Waiting is for three seconds at a time, and no more than 200 times.
pub proof fn law_waiting_goes_in_steps(s: ReaderView)
    ensures
        s.poll_count < 200 ==> s.wait_to_poll() == (ReaderView {
            poll_count: (s.poll_count + 1) as u16,
            outbox: s.outbox.push(
                CommandView::Spawn {
                    work: WorkView::Sleep { seconds: 3 },
                    awaiting: Awaiting::PollWait,
                },
            ),
            ..s
        }),
        s.poll_count >= 200 ==> s.wait_to_poll() == (ReaderView {
            pane: Pane::Detail,
            trouble: Some("Conversion took longer than ten minutes. Try again later."@),
            ..s
        }),
{
    reveal(ReaderView::wait_to_poll);
    reveal(ReaderView::fail_detail);
}

/// A text with something to read in it is opened: where its reader left it, or
/// at its start. The paper then counts as read, and that is saved.
pub proof fn law_readable_texts_are_opened(s: ReaderView, html: Seq<u8>, key: Seq<char>)
    requires
        valid_utf8(html),
        s.opened_key == Some(key),
    ensures
        ({
            let after = s.took_document(html, true);
            &&& after.fetched_html == Some(html)
            &&& after.pane is FullText
            &&& after.place is None
            &&& after.read_keys.contains(key)
            &&& after.last_opened == Some(key)
            &&& after.outbox == s.outbox + seq![
                CommandView::OpenBook {
                    html,
                    place: match s.place {
                        Some(place) => place,
                        None => PlaceView::Fresh,
                    },
                    truncated: s.conversion is Some && (s.conversion->0).truncated,
                },
                CommandView::Save {
                    key: "reading-state"@,
                    value: encode_utf8(state_text(after.read_keys, Some(key))),
                },
                CommandView::ReadFrontlight,
            ]
            &&& after.library == s.library
            &&& after.opened_key == s.opened_key
        }),
{
    reveal(ReaderView::took_document);
    reveal(ReaderView::open_book);
    reveal(ReaderView::show_book);
    reveal(ReaderView::mark_opened);
    let next = with_read(s.read_keys, key);
    if !s.read_keys.contains(key) {
        assert(next[next.len() - 1] == key);
    }
    let after = s.took_document(html, true);
    assert(after.outbox =~= s.outbox + seq![
        CommandView::OpenBook {
            html,
            place: match s.place {
                Some(place) => place,
                None => PlaceView::Fresh,
            },
            truncated: s.conversion is Some && (s.conversion->0).truncated,
        },
        CommandView::Save {
            key: "reading-state"@,
            value: encode_utf8(state_text(after.read_keys, Some(key))),
        },
        CommandView::ReadFrontlight,
    ]);
}

/// A text that cannot be read is not opened: the details are shown with the
/// reason, and nothing else changes.
pub proof fn law_unreadable_texts_are_not_opened(s: ReaderView, html: Seq<u8>, readable: bool)
    ensures
        !valid_utf8(html) ==> s.took_document(html, readable) == (ReaderView {
            pane: Pane::Detail,
            trouble: Some("The paper text was not valid UTF-8."@),
            ..s
        }),
        valid_utf8(html) && !readable ==> s.took_document(html, readable) == (ReaderView {
            pane: Pane::Detail,
            trouble: Some("The response contained no readable paper text."@),
            ..s
        }),
{
    reveal(ReaderView::took_document);
    reveal(ReaderView::fail_detail);
}

/// Indexed text becomes a document under the title of the open paper, of at
/// most 768 KiB; whether it is truncated is remembered for the reader.
pub proof fn law_indexed_texts_become_documents(s: ReaderView, root: Value)
    ensures
        match fulltext_in(&root, s.opened_title, 786432) {
            Some(text) => {
                let after = s.took_zotero_fulltext(Some(root));
                &&& after.outbox == s.outbox.push(CommandView::Parse { html: text.html })
                &&& after.conversion is Some
                &&& (after.conversion->0).truncated == text.truncated
                &&& (after.conversion->0).state == "ready"@
                &&& after.pane == s.pane
            },
            None => s.took_zotero_fulltext(Some(root)) == (ReaderView {
                pane: Pane::Detail,
                trouble: Some("Zotero returned unreadable indexed text for this attachment."@),
                ..s
            }),
        },
        s.took_zotero_fulltext(None) == (ReaderView {
            pane: Pane::Detail,
            trouble: Some("Zotero returned unreadable indexed text for this attachment."@),
            ..s
        }),
{
    reveal(ReaderView::took_zotero_fulltext);
    reveal(ReaderView::fail_detail);
}

proof fn lemma_skipped_figures(figures: Seq<Seq<char>>, at: int)
    requires
        0 <= at <= figures.len(),
        forall|i: int| 0 <= i < at ==> figure_of(#[trigger] figures[i]) is None,
        at < figures.len() ==> figure_of(figures[at]) is Some,
    ensures
        from_first_figure(figures) == figures.skip(at),
    decreases figures.len(),
{
    if at == 0 {
        assert(figures.skip(0) =~= figures);
    } else {
        let rest = figures.drop_first();
        assert(figure_of(figures[0]) is None);
        assert forall|i: int| 0 <= i < at - 1 implies figure_of(#[trigger] rest[i]) is None by {
            assert(rest[i] == figures[i + 1]);
        }
        lemma_skipped_figures(rest, at - 1);
        assert(rest.skip(at - 1) =~= figures.skip(at));
    }
}

/// A picture is asked for by its name within `figures/`, if it has one there
/// that the bridge serves.
pub proof fn law_pictures_are_found_by_their_names(name: Seq<char>)
    ensures
        crate::keys::is_figure(name) ==> figure_of("figures/"@ + name) == Some(name),
        figure_of(name) matches Some(found) ==> name == "figures/"@ + found
            && crate::keys::is_figure(found),
{
    reveal_strlit("figures/");
    let whole = "figures/"@ + name;
    assert(whole.skip(8) =~= name);
    assert("figures/"@ =~= whole.take(8));
    if let Some(found) = figure_of(name) {
        assert(name =~= "figures/"@ + found);
    }
}

/// The pictures of a document are asked for one after the other, in order; one
/// that the bridge does not serve is left out, and no other. When none is left
/// the document hears of it.
pub proof fn law_pictures_come_in_order(
    s: ReaderView,
    key: Seq<char>,
    origin: Seq<char>,
    at: int,
)
    requires
        s.opened_key == Some(key),
        s.bridge == Some(origin),
        s.figure_task is None,
        0 <= at <= s.figures.len(),
        forall|i: int| 0 <= i < at ==> figure_of(#[trigger] s.figures[i]) is None,
        at < s.figures.len() ==> figure_of(s.figures[at]) is Some,
    ensures
        at < s.figures.len() ==> s.fetch_next_figure() == (ReaderView {
            figures: s.figures.skip(at + 1),
            outbox: s.outbox.push(
                CommandView::SpawnFigure {
                    url: origin + ("/v1/items/"@ + key + ("/figures/"@ + figure_of(
                        s.figures[at],
                    )->0)),
                    credential: Credential::Bridge,
                    name: s.figures[at],
                },
            ),
            ..s
        }),
        at == s.figures.len() ==> s.fetch_next_figure() == (ReaderView {
            figures: Seq::empty(),
            outbox: s.outbox.push(CommandView::SettlePictures),
            ..s
        }),
{
    reveal(ReaderView::fetch_next_figure);
    reveal(ReaderView::asks_for_figure);
    lemma_skipped_figures(s.figures, at);
    if at < s.figures.len() {
        assert(s.figures.skip(at).drop_first() =~= s.figures.skip(at + 1));
    }
}

/// A picture that came is given to the document under its name, and the next
/// one is asked for; one that cannot be had is passed over.
pub proof fn law_pictures_are_given_to_the_document(
    s: ReaderView,
    task: u64,
    name: Seq<char>,
    bytes: Seq<u8>,
    json: Option<Value>,
    readable: bool,
    error: TaskError,
)
    requires
        s.figure_task == Some((task, name)),
    ensures
        s.on_task(Step::Elsewhere, task, ReplyView::Completed { bytes, json, readable }) == (
        ReaderView {
            figure_task: None,
            outbox: s.outbox.push(CommandView::ProvidePicture { name, bytes }),
            ..s
        }).fetch_next_figure().shows(),
        s.on_task(Step::Elsewhere, task, ReplyView::Failed(error)) == (ReaderView {
            figure_task: None,
            ..s
        }).fetch_next_figure().shows(),
{
    reveal(ReaderView::on_task);
    reveal(ReaderView::took_figure);
}

/// An answer is taken for what was asked: each request leads to what it was
/// for, and is then no longer waited for.
pub proof fn law_answers_go_where_they_were_asked(
    s: ReaderView,
    task: u64,
    awaiting: Awaiting,
    bytes: Seq<u8>,
    json: Option<Value>,
    readable: bool,
)
    requires
        s.task == Some((task, awaiting)),
        s.figure_task is None || (s.figure_task->0).0 != task,
    ensures
        ({
            let idle = ReaderView { task: None, ..s };
            let after = s.on_task(
                Step::Elsewhere,
                task,
                ReplyView::Completed { bytes, json, readable },
            );
            match awaiting {
                Awaiting::Collections => after == idle.took_collections(
                    match json {
                        Some(root) => crate::zotero::collections_in(&root),
                        None => None,
                    },
                ).shows(),
                Awaiting::SnapshotPage(start) => after == idle.took_snapshot_page(
                    start,
                    match json {
                        Some(root) => crate::zotero::papers_in(&root),
                        None => None,
                    },
                ).shows(),
                Awaiting::Detail => after == idle.took_detail(
                    match json {
                        Some(root) => crate::zotero::detail_in(&root),
                        None => None,
                    },
                ).shows(),
                Awaiting::DetailChildren => after == idle.took_children(
                    match json {
                        Some(Value::Array(rows)) => Some(
                            crate::zotero::first_attachment(rows@),
                        ),
                        _ => None,
                    },
                ).shows(),
                Awaiting::ZoteroFullText => after == idle.took_zotero_fulltext(json).shows(),
                Awaiting::StartConversion | Awaiting::PollConversion => after
                    == idle.took_conversion(
                    match json {
                        Some(root) => crate::bridge::conversion_in(&root),
                        None => None,
                    },
                ).shows(),
                Awaiting::PollWait => after == idle.poll_conversion().shows(),
                Awaiting::Document => after == idle.took_document(bytes, readable).shows(),
            }
        }),
{
    reveal(ReaderView::on_task);
    reveal(ReaderView::took_reply);
    reveal(ReaderView::took_answer);
}

/// A request that fails is explained. One for a text leads back to the details;
/// any other leaves everything where it is.
pub proof fn law_failures_are_explained(
    s: ReaderView,
    task: u64,
    awaiting: Awaiting,
    error: TaskError,
)
    requires
        s.task == Some((task, awaiting)),
        s.figure_task is None || (s.figure_task->0).0 != task,
    ensures
        s.on_task(Step::Elsewhere, task, ReplyView::Failed(error)) == (ReaderView {
            task: None,
            trouble: Some(crate::work::failure_text(awaiting, error)),
            pane: match awaiting {
                Awaiting::ZoteroFullText
                | Awaiting::StartConversion
                | Awaiting::PollConversion
                | Awaiting::Document => Pane::Detail,
                _ => s.pane,
            },
            outbox: s.outbox.push(CommandView::Show),
            ..s
        }),
        s.on_task(Step::Elsewhere, task, ReplyView::Cancelled) == (ReaderView {
            task: None,
            outbox: s.outbox.push(CommandView::Show),
            ..s
        }),
{
    reveal(ReaderView::on_task);
    reveal(ReaderView::took_reply);
    reveal(ReaderView::took_failure);
    reveal(ReaderView::fail_detail);
    reveal(ReaderView::troubled);
}

/// A new request takes the place of the one that runs, which is stopped.
pub proof fn law_a_new_request_stops_the_running_one(
    s: ReaderView,
    task: u64,
    awaited: Awaiting,
    url: Seq<char>,
    max_bytes: u32,
    credential: Credential,
    headers: Seq<HeaderView>,
    awaiting: Awaiting,
    number: u64,
)
    requires
        s.task == Some((task, awaited)),
    ensures
        s.spawn_fetch(url, max_bytes, credential, headers, awaiting) == (ReaderView {
            task: None,
            outbox: s.outbox.push(CommandView::Cancel(task)).push(
                CommandView::Spawn {
                    work: WorkView::Fetch { url, max_bytes, credential, headers },
                    awaiting,
                },
            ),
            ..s
        }),
        s.spawned(awaiting, Some(number)) == (ReaderView { task: Some((number, awaiting)), ..s }),
{
    reveal(ReaderView::spawn_fetch);
    reveal(ReaderView::stop_task);
}

/// A text is kept under the title and the creators of its paper, with its size;
/// a full shelf, a missing text and a running save are refused without any
/// change but the message.
pub proof fn law_keeping_saves_the_open_text(s: ReaderView, key: Seq<char>)
    requires
        s.opened_key == Some(key),
        !keeps(s.library, key),
    ensures
        s.document_upload ==> s.keep_document() == (ReaderView {
            trouble: Some("The offline copy is still being saved."@),
            ..s
        }),
        !s.document_upload && s.library.len() >= 96 ==> s.keep_document() == (ReaderView {
            trouble: Some("Offline library full. Remove a paper before keeping another."@),
            ..s
        }),
        !s.document_upload && s.library.len() < 96 && s.fetched_html is None ==> s.keep_document()
            == (ReaderView {
            trouble: Some("Open the full text before keeping it offline."@),
            ..s
        }),
        !s.document_upload && s.library.len() < 96 && s.fetched_html is Some ==> {
            let after = s.keep_document();
            &&& after.document_upload
            &&& after.library == s.library
            &&& after.document_transfer == Some(
                KeptView {
                    key,
                    title: compacted(s.opened_title, 160),
                    creators: compacted(s.opened_creators, 256),
                    bytes: if (s.fetched_html->0).len() <= u32::MAX {
                        (s.fetched_html->0).len() as u32
                    } else {
                        u32::MAX
                    },
                },
            )
            &&& after.outbox == s.outbox.push(
                CommandView::Upload {
                    transfer: Transfer::DocumentSave,
                    name: document_name(key),
                    bytes: s.fetched_html->0,
                },
            )
        },
{
    reveal(ReaderView::keep_document);
    reveal(ReaderView::troubled);
}

/// A text that was saved makes its paper the first of the kept ones; the others
/// stay, in order, and the list is saved.
pub proof fn law_saved_texts_are_kept_first(s: ReaderView, kept: KeptView)
    requires
        s.document_transfer == Some(kept),
    ensures
        s.saved_document().library == seq![kept] + s.library,
        s.saved_document().document_transfer is None,
        !s.saved_document().document_upload,
        s.saved_document().outbox == s.outbox.push(
            CommandView::Save {
                key: "library"@,
                value: encode_utf8(crate::records::library_text(seq![kept] + s.library)),
            },
        ),
        s.shelf_documents matches Some(documents) ==> s.saved_document().shelf_documents is Some
            && (s.saved_document().shelf_documents->0).contains(document_name(kept.key)),
        s.unsaved_document().library == s.library,
        s.unsaved_document().document_transfer is None,
        !s.unsaved_document().document_upload,
        s.unsaved_document().trouble == Some("The paper text could not be kept."@),
{
    reveal(ReaderView::saved_document);
    reveal(ReaderView::kept_document);
    reveal(ReaderView::unsaved_document);
    reveal(ReaderView::troubled);
    if let Some(documents) = s.shelf_documents {
        let name = document_name(kept.key);
        if !documents.contains(name) {
            assert(documents.push(name)[documents.len() as int] == name);
        }
    }
}

/// Discarding a paper removes it from the kept ones, and no other.
pub proof fn law_discarding_removes_one_paper(s: ReaderView, key: Seq<char>, kept: KeptView)
    requires
        s.opened_key == Some(key),
    ensures
        s.discard_document().library.contains(kept) <==> s.library.contains(kept) && kept.key
            != key,
        s.discard_document().outbox == s.outbox + seq![
            CommandView::Remove { name: document_name(key) },
            CommandView::Remove { name: memory_name(key) },
            CommandView::Save {
                key: "library"@,
                value: encode_utf8(
                    crate::records::library_text(s.discard_document().library),
                ),
            },
        ],
        s.discard_document().read_keys == s.read_keys,
        s.discard_document().opened_key == s.opened_key,
{
    reveal(ReaderView::discard_document);
    let rest = s.library.filter(keyed_otherwise(key));
    if rest.contains(kept) {
        s.library.lemma_filter_contains_rev(keyed_otherwise(key), kept);
        let k = choose|k: int| 0 <= k < rest.len() && rest[k] == kept;
        s.library.lemma_filter_pred(keyed_otherwise(key), k);
    }
    if s.library.contains(kept) && kept.key != key {
        let k = choose|k: int| 0 <= k < s.library.len() && s.library[k] == kept;
        s.library.lemma_filter_contains(keyed_otherwise(key), k);
    }
    assert(s.discard_document().outbox =~= s.outbox + seq![
        CommandView::Remove { name: document_name(key) },
        CommandView::Remove { name: memory_name(key) },
        CommandView::Save {
            key: "library"@,
            value: encode_utf8(crate::records::library_text(s.discard_document().library)),
        },
    ]);
}

/// Making the shelf and the kept papers agree keeps every paper whose document
/// is on the shelf, and drops exactly the others; a change is saved.
pub proof fn law_papers_with_documents_stay(s: ReaderView, kept: KeptView, documents: Seq<Seq<char>>)
    requires
        s.library_loaded,
        s.shelf_documents == Some(documents),
    ensures
        s.reconcile_shelf().library.contains(kept) <==> s.library.contains(kept)
            && documents.contains(document_name(kept.key)),
        s.reconcile_shelf().library.len() != s.library.len() ==> s.reconcile_shelf().outbox.last()
            == (CommandView::Save {
            key: "library"@,
            value: encode_utf8(crate::records::library_text(s.reconcile_shelf().library)),
        }),
        s.reconcile_shelf().shelf_documents == s.shelf_documents,
{
    reveal(ReaderView::reconcile_shelf);
    let f = crate::shelf::shelved(documents);
    let rest = s.library.filter(f);
    if rest.contains(kept) {
        s.library.lemma_filter_contains_rev(f, kept);
        let k = choose|k: int| 0 <= k < rest.len() && rest[k] == kept;
        s.library.lemma_filter_pred(f, k);
    }
    if s.library.contains(kept) && documents.contains(document_name(kept.key)) {
        let k = choose|k: int| 0 <= k < s.library.len() && s.library[k] == kept;
        s.library.lemma_filter_contains(f, k);
    }
}

/// Until both the shelf and the kept papers are known, neither is changed.
pub proof fn law_nothing_is_dropped_before_all_is_known(s: ReaderView)
    requires
        !s.library_loaded || s.shelf_documents is None,
    ensures
        s.reconcile_shelf() == s,
{
    reveal(ReaderView::reconcile_shelf);
}

/// Opening a paper adds it to those that were read; no other is forgotten
/// unless 500 are known, and then only the one that was read longest ago.
pub proof fn law_opening_forgets_no_paper(s: ReaderView, key: Seq<char>, other: Seq<char>)
    ensures
        s.mark_opened(key).read_keys.contains(key),
        s.read_keys.contains(key) ==> s.mark_opened(key).read_keys == s.read_keys,
        !s.read_keys.contains(key) && s.read_keys.len() < 500 ==> s.mark_opened(key).read_keys
            == s.read_keys.push(key),
        !s.read_keys.contains(key) && s.read_keys.len() >= 500 ==> s.mark_opened(key).read_keys
            == s.read_keys.skip(1).push(key),
        s.read_keys.len() < 500 && s.read_keys.contains(other) ==> s.mark_opened(
            key,
        ).read_keys.contains(other),
        s.read_keys.contains(other) && other != s.read_keys[0] ==> s.mark_opened(
            key,
        ).read_keys.contains(other),
        s.mark_opened(key).read_keys.contains(other) ==> other == key || s.read_keys.contains(
            other,
        ),
{
    reveal(ReaderView::mark_opened);
    let next = with_read(s.read_keys, key);
    if !s.read_keys.contains(key) {
        assert(next[next.len() - 1] == key);
        if s.read_keys.contains(other) {
            let k = choose|k: int| 0 <= k < s.read_keys.len() && s.read_keys[k] == other;
            if s.read_keys.len() < 500 {
                assert(next[k] == other);
            } else if k > 0 {
                assert(next[k - 1] == other);
            }
        }
        if next.contains(other) && other != key {
            let k = choose|k: int| 0 <= k < next.len() && next[k] == other;
            if s.read_keys.len() < 500 {
                assert(s.read_keys[k] == other);
            } else {
                assert(s.read_keys[k + 1] == other);
            }
        }
    }
}

/// Turning a page moves by one, in the list that is shown and in no other; a
/// page turned on and back is the same page.
pub proof fn law_pages_turn_by_one(s: ReaderView)
    ensures
        s.pane is Feed && s.list_page < usize::MAX ==> s.turn(true) == (ReaderView {
            list_page: (s.list_page + 1) as usize,
            outbox: s.outbox.push(CommandView::Show),
            ..s
        }) && s.turn(true).turn(false).list_page == s.list_page,
        s.pane is Library && s.library_page < usize::MAX ==> s.turn(true) == (ReaderView {
            library_page: (s.library_page + 1) as usize,
            outbox: s.outbox.push(CommandView::Show),
            ..s
        }) && s.turn(true).turn(false).library_page == s.library_page,
        s.pane is Detail && s.detail_page < usize::MAX ==> s.turn(true) == (ReaderView {
            detail_page: (s.detail_page + 1) as usize,
            outbox: s.outbox.push(CommandView::Show),
            ..s
        }) && s.turn(true).turn(false).detail_page == s.detail_page,
        s.pane is Feed ==> s.turn(false).list_page == if s.list_page > 0 {
            s.list_page - 1
        } else {
            0
        },
        s.pane is Library ==> s.turn(false).library_page == if s.library_page > 0 {
            s.library_page - 1
        } else {
            0
        },
        s.pane is Detail ==> s.turn(false).detail_page == if s.detail_page > 0 {
            s.detail_page - 1
        } else {
            0
        },
{
    reveal(ReaderView::turn);
}

/// What is pressed is what is done.
pub proof fn law_presses_do_what_they_say(s: ReaderView, press: PressView)
    requires
        (s.pane is Setup || s.pane is Search) ==> press.pressed is None,
        s.pane is FullText ==> press.outcome is None,
        press.action is Some,
    ensures
        ({
            let heard = ReaderView { typed: press.typed, ..s };
            let after = s.on_action(press);
            match press.action->0 {
                Action::Back => after == heard.back(press.memory),
                Action::Refresh => after == if s.pane is Collections {
                    heard.fetch_collections().shows()
                } else {
                    heard.refresh().shows()
                },
                Action::Search => after == (ReaderView {
                    typed: Seq::empty(),
                    pane: Pane::Search,
                    outbox: s.outbox.push(CommandView::ClearKeyboard).push(CommandView::Show),
                    ..s
                }),
                Action::Library => after == (ReaderView {
                    trouble: None,
                    pane: Pane::Library,
                    library_page: 0,
                    outbox: s.outbox.push(CommandView::Show),
                    ..heard
                }),
                Action::ChangeCollection => after == heard.fetch_collections().shows(),
                Action::FullText => after == heard.start_conversion().shows(),
                Action::Keep => after == heard.keep_document().shows(),
                Action::Discard => after == heard.discard_document().shows(),
                Action::ToggleRead => after == heard.toggle_read().shows(),
                Action::RetryMemory => after == heard.retry_memory().shows(),
                Action::PageBack => after == heard.turn(false),
                Action::PageNext => after == heard.turn(true),
                Action::Collection(index) => index >= s.collections.len() ==> after == heard,
                Action::Paper(index) => index >= s.snapshot.papers.len() ==> after == heard,
                Action::Kept(index) => index >= s.library.len() ==> after == heard,
            }
        }),
{
    reveal(ReaderView::on_action);
    reveal(ReaderView::act);
    reveal(ReaderView::start_search);
    reveal(ReaderView::open_library);
}

/// Names stand for what they say.
pub proof fn law_names_stand_for_their_actions(s: ReaderView)
    ensures
        s.actions().contains(("refresh"@, Action::Refresh)),
        s.actions().contains(("search"@, Action::Search)),
        s.actions().contains(("library"@, Action::Library)),
        s.actions().contains(("change-collection"@, Action::ChangeCollection)),
        s.actions().contains(("full-text"@, Action::FullText)),
        s.actions().contains(("keep"@, Action::Keep)),
        s.actions().contains(("discard"@, Action::Discard)),
        s.actions().contains(("toggle-read"@, Action::ToggleRead)),
        s.actions().contains(("retry-memory"@, Action::RetryMemory)),
        s.actions().contains(("list-back"@, Action::PageBack)),
        s.actions().contains(("read-back"@, Action::PageBack)),
        s.actions().contains(("list-next"@, Action::PageNext)),
        s.actions().contains(("read-next"@, Action::PageNext)),
{
    let all = s.actions();
    assert(all[0] == ("refresh"@, Action::Refresh));
    assert(all[1] == ("search"@, Action::Search));
    assert(all[2] == ("library"@, Action::Library));
    assert(all[3] == ("change-collection"@, Action::ChangeCollection));
    assert(all[4] == ("full-text"@, Action::FullText));
    assert(all[5] == ("keep"@, Action::Keep));
    assert(all[6] == ("discard"@, Action::Discard));
    assert(all[7] == ("toggle-read"@, Action::ToggleRead));
    assert(all[8] == ("retry-memory"@, Action::RetryMemory));
    assert(all[9] == ("list-back"@, Action::PageBack));
    assert(all[10] == ("read-back"@, Action::PageBack));
    assert(all[11] == ("list-next"@, Action::PageNext));
    assert(all[12] == ("read-next"@, Action::PageNext));
}

/// Back leads to what was shown before. Leaving a wait stops the request;
/// leaving a text saves where it was left.
pub proof fn law_back_leads_to_what_was_before(s: ReaderView, memory: Option<Seq<u8>>)
    ensures
        s.pane is Collections ==> s.back(memory) == (ReaderView {
            pane: if s.selected is Some {
                Pane::Feed
            } else {
                Pane::Setup
            },
            outbox: s.outbox.push(CommandView::Show),
            ..s
        }),
        s.pane is Search || s.pane is Library ==> s.back(memory) == (ReaderView {
            pane: Pane::Feed,
            outbox: s.outbox.push(CommandView::Show),
            ..s
        }),
        s.pane is Detail ==> s.back(memory) == (ReaderView {
            pane: if s.from_library {
                Pane::Library
            } else {
                Pane::Feed
            },
            outbox: s.outbox.push(CommandView::Show),
            ..s
        }),
        s.pane is Converting ==> {
            let after = s.back(memory);
            &&& after.pane is Detail
            &&& after.task is None
            &&& !after.document_loading
            &&& after.memory_loading is None
            &&& s.task matches Some((task, awaiting)) ==> after.outbox == s.outbox.push(
                CommandView::Cancel(task),
            ).push(CommandView::Show)
        },
        s.pane is FullText ==> {
            let after = s.back(memory);
            &&& after == (ReaderView {
                pane: if s.from_library {
                    Pane::Library
                } else {
                    Pane::Detail
                },
                ..s.close_book(memory)
            }).shows()
            &&& after.opened_key == s.opened_key
        },
{
    reveal(ReaderView::back);
    reveal(ReaderView::stop_waiting);
    reveal(ReaderView::stop_task);
    reveal(ReaderView::leave_book);
    if s.pane is FullText {
        lemma_close_book(s, memory);
    }
}

/// The document is closed with what was remembered of it saved under the key of
/// its paper.
pub proof fn law_closing_saves_under_the_key_of_the_paper(
    s: ReaderView,
    key: Seq<char>,
    bytes: Seq<u8>,
)
    requires
        s.opened_key == Some(key),
        !s.memory_upload,
    ensures
        s.save_memory(Some(bytes)) == (ReaderView {
            memory_upload: true,
            active_memory: Some((memory_name(key), bytes)),
            pending_memory: None,
            outbox: s.outbox.push(
                CommandView::Upload {
                    transfer: Transfer::MemorySave,
                    name: memory_name(key),
                    bytes,
                },
            ),
            ..s
        }),
        s.save_memory(None) == s,
{
    reveal(ReaderView::save_memory);
}

/// What was remembered of the open paper moves its document there; what was
/// remembered of another one is dropped. Where nothing was remembered reading
/// starts afresh.
pub proof fn law_memories_go_to_their_own_paper(
    s: ReaderView,
    key: Seq<char>,
    bytes: Seq<u8>,
)
    requires
        s.memory_loading == Some(key),
    ensures
        s.opened_key == Some(key) ==> s.took_memory(bytes) == (ReaderView {
            memory_loading: None,
            outbox: s.outbox.push(CommandView::Restore { bytes }),
            ..s
        }),
        s.opened_key != Some(key) ==> s.took_memory(bytes) == (ReaderView {
            memory_loading: None,
            ..s
        }),
        s.restored(bytes, false) == (ReaderView { place: Some(PlaceView::Saved(bytes)), ..s }),
        s.restored(bytes, true) == s,
        s.unloaded_memory(true) == (ReaderView {
            memory_loading: None,
            place: Some(PlaceView::Fresh),
            ..s
        }),
        s.unloaded_memory(false) == (ReaderView {
            memory_loading: None,
            trouble: Some("Reading position and annotations could not be loaded."@),
            ..s
        }),
{
    reveal(ReaderView::took_memory);
    reveal(ReaderView::unloaded_memory);
    reveal(ReaderView::troubled);
}

/// A kept text that is missing is no longer kept, and only that one.
pub proof fn law_missing_texts_are_not_kept(s: ReaderView, key: Seq<char>, kept: KeptView)
    requires
        s.opened_key == Some(key),
    ensures
        s.unloaded_document(true).library.contains(kept) <==> s.library.contains(kept) && kept.key
            != key,
        s.unloaded_document(true).pane is Detail,
        !s.unloaded_document(true).document_loading,
        s.unloaded_document(true).trouble == Some(
            "The interrupted offline copy was removed. Convert or keep it again."@,
        ),
        s.unloaded_document(false) == (ReaderView {
            document_loading: false,
            pane: Pane::Detail,
            trouble: Some("The offline text could not be read from storage."@),
            ..s
        }),
{
    reveal(ReaderView::unloaded_document);
    reveal(ReaderView::lost_document);
    reveal(ReaderView::fail_detail);
    let rest = s.library.filter(keyed_otherwise(key));
    if rest.contains(kept) {
        s.library.lemma_filter_contains_rev(keyed_otherwise(key), kept);
        let k = choose|k: int| 0 <= k < rest.len() && rest[k] == kept;
        s.library.lemma_filter_pred(keyed_otherwise(key), k);
    }
    if s.library.contains(kept) && kept.key != key {
        let k = choose|k: int| 0 <= k < s.library.len() && s.library[k] == kept;
        s.library.lemma_filter_contains(keyed_otherwise(key), k);
    }
}

/// A transfer that ends is taken for what it was; one that nobody waits for is
/// not taken.
pub proof fn law_transfers_end_as_what_they_were(
    s: ReaderView,
    transfer: Transfer,
    bytes: Seq<u8>,
    json: Option<Value>,
    readable: bool,
    missing: bool,
    reason: Seq<char>,
)
    ensures
        ({
            let done = s.took_report(
                ReportView { transfer, progress: ProgressView::Done { bytes, json, readable } },
            );
            let failed = s.took_report(
                ReportView { transfer, progress: ProgressView::Failed { missing, reason } },
            );
            match transfer {
                Transfer::SnapshotLoad => if s.snapshot_loading is Some {
                    done == s.took_stored_snapshot(json) && failed == (ReaderView {
                        snapshot_loading: None,
                        ..s
                    })
                } else {
                    done == s && failed == s
                },
                Transfer::DocumentLoad => if s.document_loading {
                    done == (ReaderView { document_loading: false, ..s }).took_document(
                        bytes,
                        readable,
                    ) && failed == s.unloaded_document(missing)
                } else {
                    done == s && failed == s
                },
                Transfer::MemoryLoad => if s.memory_loading is Some {
                    done == s.took_memory(bytes) && failed == s.unloaded_memory(missing)
                } else {
                    done == s && failed == s
                },
                Transfer::SnapshotSave => if s.snapshot_upload {
                    done == (ReaderView { snapshot_upload: false, ..s }) && failed == (ReaderView {
                        snapshot_upload: false,
                        ..s
                    })
                } else {
                    done == s && failed == s
                },
                Transfer::DocumentSave => if s.document_upload {
                    done == s.saved_document() && failed == s.unsaved_document()
                } else {
                    done == s && failed == s
                },
                Transfer::MemorySave => if s.memory_upload {
                    done == s.saved_memory() && failed == s.unsaved_memory(reason)
                } else {
                    done == s && failed == s
                },
            }
        }),
{
    reveal(ReaderView::took_report);
    reveal(ReaderView::done);
    reveal(ReaderView::failed);
    reveal(ReaderView::loaded_document);
}

/// An answer of the storage is taken whole: first by the transfers, then as a
/// value or as the shelf; then the screen is shown. An answer that only moves a
/// transfer on is not looked at further.
pub proof fn law_storage_answers_are_taken(s: ReaderView, transfer: Transfer, stored: StoredView)
    ensures
        s.on_store(Seq::empty(), stored) == s.took_stored(stored).shows(),
        s.waits_for(transfer) ==> s.on_store(
            seq![ReportView { transfer, progress: ProgressView::Moving }],
            stored,
        ) == s,
        s.took_stored(StoredView::Other) == s,
{
    reveal(ReaderView::on_store);
    reveal(ReaderView::took_stored);
    reveal_with_fuel(ReaderView::took_reports, 2);
}

/// The documents on the shelf are the names that belong to papers.
pub proof fn law_the_shelf_is_known_by_its_documents(
    s: ReaderView,
    names: Seq<Seq<char>>,
    name: Seq<char>,
)
    ensures
        ({
            let after = s.took_stored(StoredView::Shelf(names));
            &&& after.shelf_documents is Some
            &&& (after.shelf_documents->0).contains(name) <==> names.contains(name) && (
            "document."@.is_prefix_of(name) && crate::keys::is_key(name.skip(9)))
        }),
{
    reveal(ReaderView::took_stored);
    reveal(ReaderView::listed_shelf);
    reveal(ReaderView::reconcile_shelf);
    reveal_strlit("document.");
    let f = crate::stored::is_document();
    let documents = names.filter(f);
    if documents.contains(name) {
        names.lemma_filter_contains_rev(f, name);
        let k = choose|k: int| 0 <= k < documents.len() && documents[k] == name;
        names.lemma_filter_pred(f, k);
    }
    if names.contains(name) && f(name) {
        let k = choose|k: int| 0 <= k < names.len() && names[k] == name;
        names.lemma_filter_contains(f, k);
    }
}

/// What the open document makes of a press is followed.
pub proof fn law_the_open_document_decides(s: ReaderView, press: PressView, level: u8)
    requires
        s.pane is FullText,
        press.outcome is Some,
    ensures
        ({
            let heard = ReaderView { typed: press.typed, ..s };
            let after = s.on_action(press);
            match press.outcome->0 {
                Outcome::Close => after == heard.back(press.memory),
                Outcome::Light(level) => after == heard.emits(CommandView::SetFrontlight(level)),
                Outcome::Save => after == heard.save_memory(press.memory),
                Outcome::Elsewhere | Outcome::Repaint => after == heard.shows(),
            }
        }),
{
    reveal(ReaderView::on_action);
    reveal(ReaderView::follow_book);
}

/// A document on the shelf is removed exactly if no kept paper has it.
pub proof fn law_documents_of_no_paper_are_removed(
    s: ReaderView,
    documents: Seq<Seq<char>>,
    document: Seq<char>,
)
    requires
        s.library_loaded,
        s.shelf_documents == Some(documents),
        !s.outbox.contains(CommandView::Remove { name: document }),
    ensures
        s.reconcile_shelf().outbox.contains(CommandView::Remove { name: document }) <==> {
            &&& documents.contains(document)
            &&& forall|i: int|
                0 <= i < s.library.len() ==> document_name((#[trigger] s.library[i]).key)
                    != document
        },
{
    crate::promises::law_only_orphans_are_removed(s, document);
}

/// Without a user nothing is asked of Zotero: the user is asked for instead.
pub proof fn law_without_a_user_nothing_is_asked(
    s: ReaderView,
    rest: Seq<char>,
    max_bytes: u32,
    awaiting: Awaiting,
)
    requires
        s.user_id is None,
    ensures
        s.fetch_zotero(rest, max_bytes, awaiting) == (ReaderView {
            pane: Pane::Setup,
            trouble: Some("Enter the numeric Zotero user ID first."@),
            ..s
        }),
{
    reveal(ReaderView::fetch_zotero);
    reveal(ReaderView::troubled);
}

/// Without a bridge nothing is asked of one.
pub proof fn law_without_a_bridge_nothing_is_asked(
    s: ReaderView,
    path: Seq<char>,
    max_bytes: u32,
    awaiting: Awaiting,
)
    requires
        s.bridge is None,
    ensures
        s.fetch_bridge(path, max_bytes, awaiting) == (ReaderView {
            trouble: Some("No optional conversion bridge is configured."@),
            ..s
        }),
        s.post_bridge(path, awaiting) == (ReaderView {
            trouble: Some("No optional conversion bridge is configured."@),
            ..s
        }),
{
    reveal(ReaderView::fetch_bridge);
    reveal(ReaderView::post_bridge);
    reveal(ReaderView::troubled);
}

/// A task that could not be started is reported, but for a wait.
pub proof fn law_tasks_that_do_not_start_are_reported(s: ReaderView, awaiting: Awaiting)
    ensures
        s.spawned(awaiting, None) == if awaiting is PollWait {
            s
        } else {
            ReaderView { trouble: Some("The device is busy. Try again."@), ..s }
        },
{
    reveal(ReaderView::troubled);
}

/// Without a bridge and without a stored PDF there is no text, and the reader
/// says so.
pub proof fn law_without_a_pdf_there_is_no_text(s: ReaderView, key: Seq<char>)
    requires
        s.opened_key == Some(key),
        s.bridge is None,
        s.attachment is None,
        !keeps(s.library, key),
        !s.memory_upload,
        s.pending_memory is None,
    ensures
        s.start_conversion().pane is Detail,
        s.start_conversion().trouble == Some(
            "No stored PDF with indexed text is attached to this Zotero item."@,
        ),
        s.start_conversion().task == s.task,
        s.start_conversion().fetched_html == s.fetched_html,
{
    reveal(ReaderView::start_conversion);
    reveal(ReaderView::await_text);
    reveal(ReaderView::fetch_indexed_text);
    reveal(ReaderView::fail_detail);
}

/// Attachments that come without details are remembered all the same.
pub proof fn law_attachments_are_remembered(s: ReaderView, attachment: Option<AttachmentView>)
    requires
        s.detail is None,
    ensures
        s.took_children(Some(attachment)) == (ReaderView { attachment, ..s }),
{
    reveal(ReaderView::took_children);
}

/// A picture whose task runs is waited for; one whose task could not be started
/// comes first again. A document that was opened has its pictures asked for.
pub proof fn law_pictures_wait_their_turn(
    s: ReaderView,
    name: Seq<char>,
    task: u64,
    missing: Seq<Seq<char>>,
)
    ensures
        s.figure_spawned(name, Some(task)) == (ReaderView {
            figure_task: Some((task, name)),
            ..s
        }),
        s.figure_spawned(name, None) == (ReaderView { figures: seq![name] + s.figures, ..s }),
        s.book_opened(missing) == (ReaderView { figures: missing, ..s }).fetch_next_figure(),
        s.figure_task is Some ==> s.fetch_next_figure() == s,
{
    reveal(ReaderView::fetch_next_figure);
}

/// Marking is saved; a paper that is kept is not kept again; what is being
/// saved is not saved again.
pub proof fn law_what_is_done_is_not_done_twice(s: ReaderView, key: Seq<char>)
    requires
        s.opened_key == Some(key),
    ensures
        s.toggle_read().outbox == s.outbox.push(
            CommandView::Save {
                key: "reading-state"@,
                value: encode_utf8(state_text(s.toggle_read().read_keys, s.last_opened)),
            },
        ),
        s.toggle_read() == (ReaderView {
            read_keys: s.toggle_read().read_keys,
            outbox: s.toggle_read().outbox,
            ..s
        }),
        keeps(s.library, key) ==> s.keep_document() == s,
        s.memory_upload ==> s.retry_memory() == (ReaderView {
            trouble: Some("Reading memory is still being saved."@),
            ..s
        }),
        !s.memory_upload && s.pending_memory is None ==> s.retry_memory() == s,
{
    reveal(ReaderView::toggle_read);
    reveal(ReaderView::keep_document);
    reveal(ReaderView::retry_memory);
    reveal(ReaderView::troubled);
}

/// Without an open paper nothing is kept, discarded, marked, converted or
/// asked for.
pub proof fn law_nothing_is_done_without_a_paper(s: ReaderView)
    requires
        s.opened_key is None,
    ensures
        s.keep_document() == s,
        s.discard_document() == s,
        s.toggle_read() == s,
        s.poll_conversion() == s,
        s.fetch_document() == s,
        s.fetch_next_figure() == s,
        !s.memory_upload && s.pending_memory is None ==> s.start_conversion() == s,
{
    reveal(ReaderView::keep_document);
    reveal(ReaderView::discard_document);
    reveal(ReaderView::toggle_read);
    reveal(ReaderView::poll_conversion);
    reveal(ReaderView::fetch_document);
    reveal(ReaderView::fetch_next_figure);
    reveal(ReaderView::start_conversion);
}

/// A reading memory that was saved is no longer being saved; where none waits
/// nothing more is done.
pub proof fn law_saved_memories_are_done(s: ReaderView)
    requires
        s.pending_memory is None,
    ensures
        s.saved_memory() == (ReaderView { memory_upload: false, active_memory: None, ..s }),
{
    reveal(ReaderView::saved_memory);
}

/// The pages of the details are those that came.
pub proof fn law_pages_of_details_are_taken(s: ReaderView, pages: Seq<Seq<Seq<char>>>)
    ensures
        s.detail_paginated(pages) == (ReaderView { detail_pages: pages, ..s }),
{
}

/// Typing changes what is typed, and nothing else, until it is submitted.
pub proof fn law_typing_changes_what_is_typed(s: ReaderView, press: PressView)
    requires
        s.pane is Search && (press.pressed == Some(Pressed::Edited) || press.pressed == Some(
            Pressed::Shifted,
        )),
    ensures
        s.on_action(press) == (ReaderView {
            typed: press.typed,
            outbox: s.outbox.push(CommandView::Show),
            ..s
        }),
{
    reveal(ReaderView::on_action);
    reveal(ReaderView::typed_phrase);
}

/// The reports of an answer are taken one after the other: a report that does
/// not only move its transfer on is taken, then the rest.
pub proof fn law_reports_are_taken_in_turn(
    s: ReaderView,
    report: ReportView,
    rest: Seq<ReportView>,
    stored: StoredView,
)
    requires
        !(report.progress is Moving),
    ensures
        s.on_store(seq![report] + rest, stored) == s.took_report(report).on_store(rest, stored),
        report.progress is Elsewhere ==> s.took_report(report) == s,
{
    reveal(ReaderView::on_store);
    reveal(ReaderView::took_report);
    let all = seq![report] + rest;
    assert(all.drop_first() =~= rest);
    assert(all[0] == report);
}

/// The transfers that are looked at are those that the reader waits for.
pub proof fn law_transfers_that_run_are_looked_at(s: ReaderView, transfer: Transfer)
    ensures
        s.transfers().contains(transfer) <==> match transfer {
            Transfer::SnapshotLoad => s.snapshot_loading is Some,
            Transfer::DocumentLoad => s.document_loading,
            Transfer::MemoryLoad => s.memory_loading is Some,
            Transfer::SnapshotSave => s.snapshot_upload,
            Transfer::DocumentSave => s.document_upload,
            Transfer::MemorySave => s.memory_upload,
        },
{
    let f = |transfer: Transfer| s.waits_for(transfer);
    let order = crate::stored::transfer_order();
    let at: int = match transfer {
        Transfer::SnapshotLoad => 0,
        Transfer::DocumentLoad => 1,
        Transfer::MemoryLoad => 2,
        Transfer::SnapshotSave => 3,
        Transfer::DocumentSave => 4,
        Transfer::MemorySave => 5,
    };
    assert(order[at] == transfer);
    if f(transfer) {
        order.lemma_filter_contains(f, at);
    }
    if s.transfers().contains(transfer) {
        let k = choose|k: int| 0 <= k < s.transfers().len() && s.transfers()[k] == transfer;
        order.lemma_filter_pred(f, k);
    }
}

/// A paper that is marked as read joins the others at the end, and one that is
/// not read any more leaves them as they stood.
pub proof fn law_marks_keep_their_order(s: ReaderView, key: Seq<char>)
    requires
        s.opened_key == Some(key),
    ensures
        !s.read_keys.contains(key) ==> s.toggle_read().read_keys == s.read_keys.push(key),
        s.read_keys.contains(key) ==> s.toggle_read().read_keys == s.read_keys.filter(
            |other: Seq<char>| other != key,
        ),
{
    reveal(ReaderView::toggle_read);
    assert(unlike(key) =~= |other: Seq<char>| other != key);
}

/// When a reading memory was saved the one that waited is saved next.
pub proof fn law_waiting_memories_are_saved_next(s: ReaderView, name: Seq<char>, bytes: Seq<u8>)
    requires
        s.pending_memory == Some((name, bytes)),
    ensures
        s.saved_memory() == (ReaderView {
            memory_upload: true,
            active_memory: Some((name, bytes)),
            pending_memory: None,
            outbox: s.outbox.push(
                CommandView::Upload { transfer: Transfer::MemorySave, name, bytes },
            ),
            ..s
        }),
        !s.memory_upload ==> s.retry_memory() == (ReaderView {
            memory_upload: true,
            active_memory: Some((name, bytes)),
            pending_memory: None,
            trouble: None,
            outbox: s.outbox.push(
                CommandView::Upload { transfer: Transfer::MemorySave, name, bytes },
            ),
            ..s
        }),
{
    reveal(ReaderView::saved_memory);
    reveal(ReaderView::retry_memory);
}

} // verus!

//! What the reader may ask of the device, and what holds in every state that it
//! can reach.
use vstd::prelude::*;

use crate::actions::{PressView, USER_ID_KEY};
use crate::answers::{ReplyView, Step};
use crate::feed::{page_path, SELECTED_KEY};
use crate::keys::{is_figure, is_key, is_origin, is_shelf_char, is_user_id};
use crate::model::{CollectionView, PaperView, SnapshotView, MAX_ITEMS};
use crate::order::newest_lead;
use crate::reader::ReaderView;
use crate::reading::{bridge_path, MAX_POLLS};
use crate::records::{library_in, reread, KeptView, MAX_KEPT};
use crate::shelf::{shelved, LIBRARY_KEY, STATE_KEY};
use crate::stored::{ReportView, StoredView};
use crate::work::{Awaiting, CommandView, Credential, HeaderView, WorkView, ZOTERO_API};

verus! {

/// The paths of a user's library that the reader reads.
pub open spec fn zotero_route(suffix: Seq<char>) -> bool {
    ||| suffix == "/collections?format=json&limit=100&sort=title&direction=asc"@
    ||| exists|key: Seq<char>, start: usize|
        is_key(key) && suffix == #[trigger] page_path(key, start)
    ||| exists|key: Seq<char>| #[trigger]
        is_key(key) && {
            ||| suffix == "/items/"@ + key + "?format=json"@
            ||| suffix == "/items/"@ + key + "/children?format=json&itemType=attachment&limit=100"@
            ||| suffix == "/items/"@ + key + "/fulltext"@
        }
}

/// The addresses at Zotero that the reader reads.
pub open spec fn zotero_url(url: Seq<char>) -> bool {
    exists|user: Seq<char>, suffix: Seq<char>|
        #![trigger is_user_id(user), zotero_route(suffix)]
        is_user_id(user) && zotero_route(suffix) && url == ZOTERO_API@ + ("/users/"@ + user
            + suffix)
}

/// The paths of an item on the bridge.
pub open spec fn bridge_route(rest: Seq<char>) -> bool {
    ||| rest == "/conversion"@
    ||| rest == "/document"@
    ||| exists|name: Seq<char>| #[trigger] is_figure(name) && rest == "/figures/"@ + name
}

/// The addresses at the bridge that the reader uses.
pub open spec fn bridge_address(bridge: Option<Seq<char>>, url: Seq<char>) -> bool {
    bridge is Some && is_origin(bridge->0) && exists|key: Seq<char>, rest: Seq<char>|
        #![trigger is_key(key), bridge_route(rest)]
        is_key(key) && bridge_route(rest) && url == bridge->0 + bridge_path(key, rest)
}

/// Whether a blob can have this name.
pub open spec fn usable_name(name: Seq<char>) -> bool {
    &&& 0 < name.len() < 42
    &&& forall|i: int| 0 <= i < name.len() ==> is_shelf_char(#[trigger] name[i])
}

/// Where the reader keeps small values.
pub open spec fn known_key(key: Seq<char>) -> bool {
    ||| key == USER_ID_KEY@
    ||| key == SELECTED_KEY@
    ||| key == LIBRARY_KEY@
    ||| key == STATE_KEY@
}

/// Whether the reader may ask this of the device. Blobs have usable names and
/// small values known ones. Zotero is only ever read, on known routes, in
/// version 3 of its API, under its own credential; only the bridge is ever told
/// to do something, and its credential goes nowhere else.
pub open spec fn allowed(bridge: Option<Seq<char>>, command: CommandView) -> bool {
    match command {
        CommandView::Spawn { work, awaiting } => match work {
            WorkView::Fetch { url, max_bytes, credential, headers } => match credential {
                Credential::Zotero => zotero_url(url) && headers == seq![
                    HeaderView { name: "Zotero-API-Version"@, value: "3"@ },
                ],
                Credential::Bridge => bridge_address(bridge, url),
            },
            WorkView::Post { url, body, content_type, credential, max_bytes } => credential
                is Bridge && bridge_address(bridge, url),
            WorkView::Sleep { seconds } => true,
        },
        CommandView::SpawnFigure { url, credential, name } => credential is Bridge
            && bridge_address(bridge, url),
        CommandView::Save { key, value } => known_key(key),
        CommandView::Load { key } => known_key(key),
        CommandView::Upload { transfer, name, bytes } => usable_name(name),
        CommandView::UploadSnapshot { name, snapshot } => usable_name(name),
        CommandView::Download { transfer, name, at_most } => usable_name(name),
        _ => true,
    }
}

pub open spec fn key_or_none(key: Option<Seq<char>>) -> bool {
    key matches Some(key) ==> is_key(key)
}

pub open spec fn all_keys(keys: Seq<Seq<char>>) -> bool {
    forall|i: int| 0 <= i < keys.len() ==> is_key(#[trigger] keys[i])
}

pub open spec fn papers_keyed(papers: Seq<PaperView>) -> bool {
    forall|i: int| 0 <= i < papers.len() ==> is_key((#[trigger] papers[i]).key)
}

pub open spec fn collections_keyed(collections: Seq<CollectionView>) -> bool {
    forall|i: int| 0 <= i < collections.len() ==> is_key((#[trigger] collections[i]).key)
}

/// Whether a kept paper can be written to the list of kept papers as it is.
pub open spec fn writable(kept: KeptView) -> bool {
    is_key(kept.key) && reread(kept) == kept
}

pub open spec fn library_writable(library: Seq<KeptView>) -> bool {
    forall|i: int| 0 <= i < library.len() ==> writable(#[trigger] library[i])
}

/// Whether a reading memory has a usable name.
pub open spec fn memory_named(memory: Option<(Seq<char>, Seq<u8>)>) -> bool {
    memory matches Some((name, bytes)) ==> usable_name(name)
}

/// Whether a snapshot can be shown: usable keys, not too many papers, the
/// newest first.
pub open spec fn showable(snapshot: SnapshotView) -> bool {
    &&& papers_keyed(snapshot.papers)
    &&& snapshot.papers.len() <= MAX_ITEMS
    &&& newest_lead(snapshot.papers)
}

impl ReaderView {
    /// Every name in the state that goes into an address or into the name of a
    /// blob is usable.
    pub open spec fn keyed(self) -> bool {
        &&& self.bridge matches Some(origin) ==> is_origin(origin)
        &&& self.user_id matches Some(user) ==> is_user_id(user)
        &&& collections_keyed(self.collections)
        &&& self.selected matches Some(collection) ==> is_key(collection.key)
        &&& papers_keyed(self.pending_snapshot)
        &&& self.detail matches Some(detail) ==> is_key(detail.paper.key)
        &&& self.attachment matches Some(attachment) ==> is_key(attachment.key)
        &&& key_or_none(self.opened_key)
        &&& library_writable(self.library)
        &&& self.document_transfer matches Some(kept) ==> writable(kept)
        &&& all_keys(self.read_keys)
        &&& self.read_keys.no_duplicates()
        &&& key_or_none(self.last_opened)
        &&& memory_named(self.active_memory)
        &&& memory_named(self.pending_memory)
    }

    /// The list holds papers of the snapshot, and nothing grows beyond its
    /// limit.
    pub open spec fn listed_well(self) -> bool {
        &&& showable(self.snapshot)
        &&& self.pending_snapshot.len() <= MAX_ITEMS
        &&& self.poll_count <= MAX_POLLS
        &&& forall|i: int|
            0 <= i < self.filtered.len() ==> #[trigger] self.filtered[i]
                < self.snapshot.papers.len()
    }

    /// Everything that is to be asked of the device may be asked.
    pub open spec fn polite(self) -> bool {
        forall|i: int|
            0 <= i < self.outbox.len() ==> allowed(self.bridge, #[trigger] self.outbox[i])
    }

    pub open spec fn sound(self) -> bool {
        &&& self.keyed()
        &&& self.listed_well()
        &&& self.polite()
    }

    /// How many papers are kept, with the one that is being kept.
    pub open spec fn places_taken(self) -> int {
        self.library.len() + if self.document_upload {
            1int
        } else {
            0int
        }
    }

    /// The kept papers and the one that is being kept are not too many.
    pub open spec fn library_bounded(self) -> bool {
        self.places_taken() <= MAX_KEPT
    }
}

/// Going from one state to another takes no place among the kept papers that is
/// not there.
pub open spec fn takes_no_room(before: ReaderView, after: ReaderView) -> bool {
    after.places_taken() <= before.places_taken() || after.library_bounded()
}

/// Going from one state to another spoils nothing.
pub open spec fn spoils_nothing(before: ReaderView, after: ReaderView) -> bool {
    &&& after.bridge == before.bridge
    &&& before.sound() ==> after.sound()
    &&& takes_no_room(before, after)
}

/// Going from one state to another spoils nothing if a condition holds.
pub open spec fn spoils_nothing_if(
    condition: bool,
    before: ReaderView,
    after: ReaderView,
) -> bool {
    &&& after.bridge == before.bridge
    &&& condition && before.sound() ==> after.sound()
    &&& takes_no_room(before, after)
}

/// Whether the storage answers with the list of kept papers.
pub open spec fn is_library(stored: StoredView) -> bool {
    stored matches StoredView::Loaded { key, value } && key == LIBRARY_KEY@
}

/// Everything that can happen to the reader.
pub enum Event {
    Started,
    Pressed(PressView),
    TaskEnded { step: Step, task: u64, reply: ReplyView },
    StorageAnswered { reports: Seq<ReportView>, stored: StoredView },
    /// The reader is left for a while.
    Left { memory: Option<Seq<u8>> },
    Exited,
    CommandsTaken,
    Spawned { awaiting: Awaiting, started: Option<u64> },
    FigureSpawned { name: Seq<char>, started: Option<u64> },
    DocumentParsed { html: Seq<u8>, readable: bool },
    BookOpened { missing: Seq<Seq<char>> },
    Restored { bytes: Seq<u8>, took: bool },
    DetailPaginated { pages: Seq<Seq<Seq<char>>> },
}

impl ReaderView {
    /// The reader after something happened.
    pub open spec fn after(self, event: Event) -> ReaderView {
        match event {
            Event::Started => self.on_start(),
            Event::Pressed(press) => self.on_action(press),
            Event::TaskEnded { step, task, reply } => self.on_task(step, task, reply),
            Event::StorageAnswered { reports, stored } => self.on_store(reports, stored),
            Event::Left { memory } => self.save_memory(memory),
            Event::Exited => self.emits(CommandView::CloseBook),
            Event::CommandsTaken => ReaderView { outbox: Seq::empty(), ..self },
            Event::Spawned { awaiting, started } => self.spawned(awaiting, started),
            Event::FigureSpawned { name, started } => self.figure_spawned(name, started),
            Event::DocumentParsed { html, readable } => self.took_document(html, readable),
            Event::BookOpened { missing } => self.book_opened(missing),
            Event::Restored { bytes, took } => self.restored(bytes, took),
            Event::DetailPaginated { pages } => self.detail_paginated(pages),
        }
    }

    /// The reader after several things happened.
    pub open spec fn after_all(self, events: Seq<Event>) -> ReaderView
        decreases events.len(),
    {
        if events.len() == 0 {
            self
        } else {
            self.after_all(events.drop_last()).after(events.last())
        }
    }
}

/// The list of kept papers that the storage holds: without those that have no
/// document on the shelf, once the shelf is known.
pub open spec fn list_read(
    value: Option<Seq<u8>>,
    shelf_documents: Option<Seq<Seq<char>>>,
) -> Seq<KeptView> {
    let library = match value {
        Some(bytes) => library_in(bytes),
        None => Seq::empty(),
    };
    match shelf_documents {
        Some(documents) => library.filter(shelved(documents)),
        None => library,
    }
}

/// Whether the list of kept papers comes from the storage and is taken.
pub open spec fn brings_library(s: ReaderView, event: Event) -> bool {
    event matches Event::StorageAnswered { reports, stored } && is_library(stored)
        && s.took_reports(reports).1
}

/// Whether a full list of kept papers comes from the storage while the text of
/// another one is being saved.
pub open spec fn interferes(s: ReaderView, event: Event) -> bool {
    match event {
        Event::StorageAnswered { reports, stored: StoredView::Loaded { key, value } } => {
            let next = s.took_reports(reports).0;
            &&& brings_library(s, event)
            &&& next.document_upload
            &&& list_read(value, next.shelf_documents).len() >= MAX_KEPT
        },
        _ => false,
    }
}

/// Whether a full list of kept papers never comes while another text is being
/// saved.
pub open spec fn undisturbed(start: ReaderView, events: Seq<Event>) -> bool
    decreases events.len(),
{
    events.len() > 0 ==> {
        &&& undisturbed(start, events.drop_last())
        &&& !interferes(start.after_all(events.drop_last()), events.last())
    }
}

} // verus!

//! The reader's state, and the requests it makes.
use std::collections::VecDeque;

use vstd::prelude::*;
use vstd::string::*;

use crate::keys::{is_origin, valid_origin};
use crate::model::{
    Attachment, AttachmentView, Collection, CollectionView, Conversion, ConversionView, Detail,
    DetailView, Paper, PaperView, Snapshot, SnapshotView,
};
use crate::records::{Kept, KeptView};
use crate::text::{joined_pair, maybe, same_text, seen};
use crate::work::{
    Awaiting, Command, CommandView, Credential, Header, HeaderView, Place, PlaceView, Work,
    WorkView, ZOTERO_API,
};

verus! {

/// The most bytes of an answer from Zotero.
pub const ZOTERO_RESPONSE_BYTES: u32 = 4194304;

/// The most bytes of a list of collections or of attachments.
pub const LIST_BYTES: u32 = 524288;

/// The most bytes of a paper's text.
pub const DOCUMENT_BYTES: u32 = 786432;

/// The most bytes of a conversion's state.
pub const CONVERSION_BYTES: u32 = 16384;

/// The most bytes of a stored snapshot.
pub const SNAPSHOT_BYTES: usize = 4194304;

/// What the reader shows.
#[derive(Clone, Copy, Debug, PartialEq, Eq, Structural)]
pub enum Pane {
    Setup,
    Collections,
    Feed,
    Search,
    Detail,
    Converting,
    FullText,
    Library,
}

/// The reader: what it knows, what it waits for, and what it has still to ask
/// of the device.
#[derive(Debug, PartialEq, Eq)]
pub struct ReadingList {
    pub pane: Pane,
    /// The origin of the conversion bridge, if there is one.
    pub bridge: Option<String>,
    pub user_id: Option<String>,
    pub user_id_loaded: bool,
    pub selection_loaded: bool,
    pub collections: Vec<Collection>,
    pub selected: Option<Collection>,
    pub snapshot: Snapshot,
    /// The papers of the pages that have come so far.
    pub pending_snapshot: Vec<Paper>,
    /// Whether the snapshot came from Zotero rather than from the shelf.
    pub fresh_snapshot: bool,
    /// The papers of the snapshot that are listed, by their positions.
    pub filtered: Vec<usize>,
    /// What the keyboard holds.
    pub typed: String,
    pub list_page: usize,
    pub library_page: usize,
    pub detail_pages: Vec<Vec<String>>,
    pub detail_page: usize,
    pub detail: Option<Detail>,
    pub attachment: Option<Attachment>,
    pub opened_key: Option<String>,
    pub opened_title: String,
    pub opened_creators: String,
    /// The running task and what it is for.
    pub task: Option<(u64, Awaiting)>,
    pub poll_count: u16,
    pub conversion: Option<Conversion>,
    pub trouble: Option<String>,
    pub fetched_html: Option<Vec<u8>>,
    pub library: Vec<Kept>,
    pub library_loaded: bool,
    /// The names of the documents on the shelf, once they are known.
    pub shelf_documents: Option<Vec<String>>,
    pub read_keys: Vec<String>,
    pub last_opened: Option<String>,
    /// Whether the open paper was chosen from the library.
    pub from_library: bool,
    /// The collection whose snapshot is on its way from the shelf.
    pub snapshot_loading: Option<String>,
    pub snapshot_upload: bool,
    pub document_loading: bool,
    pub document_upload: bool,
    /// The entry that a saved document will get in the library.
    pub document_transfer: Option<Kept>,
    /// The paper whose reading memory is on its way from the shelf.
    pub memory_loading: Option<String>,
    pub memory_upload: bool,
    /// The name and the bytes of the reading memory that is being saved.
    pub active_memory: Option<(String, Vec<u8>)>,
    /// The name and the bytes of the reading memory that is still to be saved.
    pub pending_memory: Option<(String, Vec<u8>)>,
    /// Where the next document opens.
    pub place: Option<Place>,
    pub figure_task: Option<(u64, String)>,
    /// The pictures that are still to be read.
    pub figures: VecDeque<String>,
    /// What is still to be asked of the device.
    pub outbox: Vec<Command>,
}

pub struct ReaderView {
    pub pane: Pane,
    pub bridge: Option<Seq<char>>,
    pub user_id: Option<Seq<char>>,
    pub user_id_loaded: bool,
    pub selection_loaded: bool,
    pub collections: Seq<CollectionView>,
    pub selected: Option<CollectionView>,
    pub snapshot: SnapshotView,
    pub pending_snapshot: Seq<PaperView>,
    pub fresh_snapshot: bool,
    pub filtered: Seq<usize>,
    pub typed: Seq<char>,
    pub list_page: usize,
    pub library_page: usize,
    pub detail_pages: Seq<Seq<Seq<char>>>,
    pub detail_page: usize,
    pub detail: Option<DetailView>,
    pub attachment: Option<AttachmentView>,
    pub opened_key: Option<Seq<char>>,
    pub opened_title: Seq<char>,
    pub opened_creators: Seq<char>,
    pub task: Option<(u64, Awaiting)>,
    pub poll_count: u16,
    pub conversion: Option<ConversionView>,
    pub trouble: Option<Seq<char>>,
    pub fetched_html: Option<Seq<u8>>,
    pub library: Seq<KeptView>,
    pub library_loaded: bool,
    pub shelf_documents: Option<Seq<Seq<char>>>,
    pub read_keys: Seq<Seq<char>>,
    pub last_opened: Option<Seq<char>>,
    pub from_library: bool,
    pub snapshot_loading: Option<Seq<char>>,
    pub snapshot_upload: bool,
    pub document_loading: bool,
    pub document_upload: bool,
    pub document_transfer: Option<KeptView>,
    pub memory_loading: Option<Seq<char>>,
    pub memory_upload: bool,
    pub active_memory: Option<(Seq<char>, Seq<u8>)>,
    pub pending_memory: Option<(Seq<char>, Seq<u8>)>,
    pub place: Option<PlaceView>,
    pub figure_task: Option<(u64, Seq<char>)>,
    pub figures: Seq<Seq<char>>,
    pub outbox: Seq<CommandView>,
}

/// The lines of pages.
pub open spec fn paged(pages: Seq<Vec<String>>) -> Seq<Seq<Seq<char>>> {
    pages.map_values(|page: Vec<String>| seen(page@))
}

/// Optional texts.
pub open spec fn maybe_all(texts: Option<Vec<String>>) -> Option<Seq<Seq<char>>> {
    match texts {
        Some(texts) => Some(seen(texts@)),
        None => None,
    }
}

impl View for ReadingList {
    type V = ReaderView;

    open spec fn view(&self) -> ReaderView {
        ReaderView {
            pane: self.pane,
            bridge: maybe(self.bridge),
            user_id: maybe(self.user_id),
            user_id_loaded: self.user_id_loaded,
            selection_loaded: self.selection_loaded,
            collections: seen(self.collections@),
            selected: maybe(self.selected),
            snapshot: self.snapshot@,
            pending_snapshot: seen(self.pending_snapshot@),
            fresh_snapshot: self.fresh_snapshot,
            filtered: self.filtered@,
            typed: self.typed@,
            list_page: self.list_page,
            library_page: self.library_page,
            detail_pages: paged(self.detail_pages@),
            detail_page: self.detail_page,
            detail: maybe(self.detail),
            attachment: maybe(self.attachment),
            opened_key: maybe(self.opened_key),
            opened_title: self.opened_title@,
            opened_creators: self.opened_creators@,
            task: self.task,
            poll_count: self.poll_count,
            conversion: maybe(self.conversion),
            trouble: maybe(self.trouble),
            fetched_html: maybe(self.fetched_html),
            library: seen(self.library@),
            library_loaded: self.library_loaded,
            shelf_documents: maybe_all(self.shelf_documents),
            read_keys: seen(self.read_keys@),
            last_opened: maybe(self.last_opened),
            from_library: self.from_library,
            snapshot_loading: maybe(self.snapshot_loading),
            snapshot_upload: self.snapshot_upload,
            document_loading: self.document_loading,
            document_upload: self.document_upload,
            document_transfer: maybe(self.document_transfer),
            memory_loading: maybe(self.memory_loading),
            memory_upload: self.memory_upload,
            active_memory: maybe(self.active_memory),
            pending_memory: maybe(self.pending_memory),
            place: maybe(self.place),
            figure_task: maybe(self.figure_task),
            figures: seen(self.figures@),
            outbox: seen(self.outbox@),
        }
    }
}

impl ReaderView {
    /// A reader that knows nothing yet.
    pub open spec fn fresh() -> ReaderView {
        ReaderView {
            pane: Pane::Setup,
            bridge: None,
            user_id: None,
            user_id_loaded: false,
            selection_loaded: false,
            collections: Seq::empty(),
            selected: None,
            snapshot: SnapshotView::blank(),
            pending_snapshot: Seq::empty(),
            fresh_snapshot: false,
            filtered: Seq::empty(),
            typed: Seq::empty(),
            list_page: 0,
            library_page: 0,
            detail_pages: Seq::empty(),
            detail_page: 0,
            detail: None,
            attachment: None,
            opened_key: None,
            opened_title: Seq::empty(),
            opened_creators: Seq::empty(),
            task: None,
            poll_count: 0,
            conversion: None,
            trouble: None,
            fetched_html: None,
            library: Seq::empty(),
            library_loaded: false,
            shelf_documents: None,
            read_keys: Seq::empty(),
            last_opened: None,
            from_library: false,
            snapshot_loading: None,
            snapshot_upload: false,
            document_loading: false,
            document_upload: false,
            document_transfer: None,
            memory_loading: None,
            memory_upload: false,
            active_memory: None,
            pending_memory: None,
            place: None,
            figure_task: None,
            figures: Seq::empty(),
            outbox: Seq::empty(),
        }
    }

    /// The reader with one more command to be performed.
    pub open spec fn emits(self, command: CommandView) -> ReaderView {
        ReaderView { outbox: self.outbox.push(command), ..self }
    }

    pub open spec fn shows(self) -> ReaderView {
        self.emits(CommandView::Show)
    }

    #[verifier::opaque]
    pub open spec fn troubled(self, message: Seq<char>) -> ReaderView {
        ReaderView { trouble: Some(message), ..self }
    }

    /// The reader back at the details with a message.
    #[verifier::opaque]
    pub open spec fn fail_detail(self, message: Seq<char>) -> ReaderView {
        ReaderView { trouble: Some(message), pane: Pane::Detail, ..self }
    }

    /// The running task is stopped.
    #[verifier::opaque]
    pub open spec fn stop_task(self) -> ReaderView {
        match self.task {
            Some((task, _)) => (ReaderView { task: None, ..self }).emits(CommandView::Cancel(task)),
            None => self,
        }
    }

    /// What follows when the device has started a task or has not.
    pub open spec fn spawned(self, awaiting: Awaiting, task: Option<u64>) -> ReaderView {
        match task {
            Some(task) => ReaderView { task: Some((task, awaiting)), ..self },
            None => if awaiting is PollWait {
                self
            } else {
                self.troubled("The device is busy. Try again."@)
            },
        }
    }

    #[verifier::opaque]
    pub open spec fn spawn_fetch(
        self,
        url: Seq<char>,
        max_bytes: u32,
        credential: Credential,
        headers: Seq<HeaderView>,
        awaiting: Awaiting,
    ) -> ReaderView {
        self.stop_task().emits(
            CommandView::Spawn {
                work: WorkView::Fetch { url, max_bytes, credential, headers },
                awaiting,
            },
        )
    }

    /// The path of the user's library, if the user is known.
    pub open spec fn zotero_path(self, suffix: Seq<char>) -> Option<Seq<char>> {
        match self.user_id {
            Some(user) => Some("/users/"@ + user + suffix),
            None => None,
        }
    }

    /// Zotero is asked for something of the user's library.
    #[verifier::opaque]
    pub open spec fn fetch_zotero(
        self,
        suffix: Seq<char>,
        max_bytes: u32,
        awaiting: Awaiting,
    ) -> ReaderView {
        match self.zotero_path(suffix) {
            Some(path) => self.spawn_fetch(
                ZOTERO_API@ + path,
                max_bytes,
                Credential::Zotero,
                seq![HeaderView { name: "Zotero-API-Version"@, value: "3"@ }],
                awaiting,
            ),
            None => (ReaderView { pane: Pane::Setup, ..self }).troubled(
                "Enter the numeric Zotero user ID first."@,
            ),
        }
    }

    /// An address of the bridge, if there is a bridge.
    pub open spec fn bridge_url(self, path: Seq<char>) -> Option<Seq<char>> {
        match self.bridge {
            Some(origin) => Some(origin + path),
            None => None,
        }
    }

    /// The bridge is asked for something.
    #[verifier::opaque]
    pub open spec fn fetch_bridge(
        self,
        path: Seq<char>,
        max_bytes: u32,
        awaiting: Awaiting,
    ) -> ReaderView {
        match self.bridge_url(path) {
            Some(url) => self.spawn_fetch(
                url,
                max_bytes,
                Credential::Bridge,
                Seq::empty(),
                awaiting,
            ),
            None => self.troubled("No optional conversion bridge is configured."@),
        }
    }

    /// The bridge is told to do something.
    #[verifier::opaque]
    pub open spec fn post_bridge(self, path: Seq<char>, awaiting: Awaiting) -> ReaderView {
        match self.bridge_url(path) {
            Some(url) => self.stop_task().emits(
                CommandView::Spawn {
                    work: WorkView::Post {
                        url,
                        body: "{}"@,
                        content_type: "application/json"@,
                        credential: Credential::Bridge,
                        max_bytes: CONVERSION_BYTES,
                    },
                    awaiting,
                },
            ),
            None => self.troubled("No optional conversion bridge is configured."@),
        }
    }
}

impl Default for ReadingList {
    fn default() -> (list: Self)
        ensures
            list@ == ReaderView::fresh(),
    {
        let list = ReadingList {
            pane: Pane::Setup,
            bridge: None,
            user_id: None,
            user_id_loaded: false,
            selection_loaded: false,
            collections: Vec::new(),
            selected: None,
            snapshot: Snapshot::default(),
            pending_snapshot: Vec::new(),
            fresh_snapshot: false,
            filtered: Vec::new(),
            typed: String::new(),
            list_page: 0,
            library_page: 0,
            detail_pages: Vec::new(),
            detail_page: 0,
            detail: None,
            attachment: None,
            opened_key: None,
            opened_title: String::new(),
            opened_creators: String::new(),
            task: None,
            poll_count: 0,
            conversion: None,
            trouble: None,
            fetched_html: None,
            library: Vec::new(),
            library_loaded: false,
            shelf_documents: None,
            read_keys: Vec::new(),
            last_opened: None,
            from_library: false,
            snapshot_loading: None,
            snapshot_upload: false,
            document_loading: false,
            document_upload: false,
            document_transfer: None,
            memory_loading: None,
            memory_upload: false,
            active_memory: None,
            pending_memory: None,
            place: None,
            figure_task: None,
            figures: VecDeque::new(),
            outbox: Vec::new(),
        };
        assert(list@.collections =~= Seq::empty());
        assert(list@.pending_snapshot =~= Seq::empty());
        assert(list@.detail_pages =~= Seq::empty());
        assert(list@.library =~= Seq::empty());
        assert(list@.read_keys =~= Seq::empty());
        assert(list@.figures =~= Seq::empty());
        assert(list@.outbox =~= Seq::empty());
        list
    }
}

impl ReadingList {
    /// A reader that knows the bridge at `origin`, if that is a bare origin.
    pub fn new(origin: Option<&str>) -> (list: Self)
        ensures
            list@ == (ReaderView {
                bridge: match origin {
                    Some(origin) => if is_origin(origin@) {
                        Some(origin@)
                    } else {
                        None
                    },
                    None => None,
                },
                ..ReaderView::fresh()
            }),
    {
        let mut list = ReadingList::default();
        if let Some(origin) = origin {
            if valid_origin(origin) {
                list.bridge = Some(origin.to_owned());
            }
        }
        list
    }

    /// Adds a command to those that are to be performed.
    pub fn emit(&mut self, command: Command)
        ensures
            final(self)@ == old(self)@.emits(command@),
    {
        let ghost before = self.outbox@;
        self.outbox.push(command);
        assert(seen(self.outbox@) =~= seen(before).push(command@));
    }

    /// Hands out the commands that are to be performed.
    pub fn take_commands(&mut self) -> (commands: Vec<Command>)
        ensures
            seen(commands@) == old(self)@.outbox,
            final(self)@ == (ReaderView { outbox: Seq::empty(), ..old(self)@ }),
    {
        let mut commands: Vec<Command> = Vec::new();
        commands.append(&mut self.outbox);
        assert(seen(self.outbox@) =~= Seq::empty());
        commands
    }

    pub fn show(&mut self)
        ensures
            final(self)@ == old(self)@.shows(),
    {
        self.emit(Command::Show);
    }

    /// Says what went wrong.
    pub fn complain(&mut self, message: &str)
        ensures
            final(self)@ == old(self)@.troubled(message@),
    {
        reveal(ReaderView::troubled);
        self.trouble = Some(message.to_owned());
    }

    /// Says what went wrong, and goes back to the details.
    pub fn fail_detail(&mut self, message: &str)
        ensures
            final(self)@ == old(self)@.fail_detail(message@),
    {
        reveal(ReaderView::fail_detail);
        self.trouble = Some(message.to_owned());
        self.pane = Pane::Detail;
    }

    /// The key of the open paper.
    pub fn opened(&self) -> (key: Option<String>)
        ensures
            maybe(key) == self@.opened_key,
    {
        self.opened_key.clone()
    }

    /// Whether a paper is the open one.
    pub fn is_open(&self, key: &str) -> (open: bool)
        ensures
            open == (self@.opened_key == Some(key@)),
    {
        match &self.opened_key {
            Some(opened) => same_text(opened, key),
            None => false,
        }
    }

    /// The chosen collection.
    pub fn chosen(&self) -> (collection: Option<Collection>)
        ensures
            maybe(collection) == self@.selected,
    {
        self.selected.clone()
    }

    /// Stops the running task.
    pub fn stop_task(&mut self)
        ensures
            final(self)@ == old(self)@.stop_task(),
    {
        reveal(ReaderView::stop_task);
        if let Some((task, _)) = self.task {
            self.task = None;
            self.emit(Command::Cancel(task));
        }
    }

    /// Takes the number of a task that was asked for, or that there is none.
    pub fn spawned(&mut self, awaiting: Awaiting, task: Option<u64>)
        ensures
            final(self)@ == old(self)@.spawned(awaiting, task),
    {
        match task {
            Some(task) => {
                self.task = Some((task, awaiting));
            },
            None => match awaiting {
                Awaiting::PollWait => {},
                _ => self.complain("The device is busy. Try again."),
            },
        }
    }

    /// Asks for an address in place of what the reader waited for.
    pub fn spawn_fetch(
        &mut self,
        url: String,
        maximum: u32,
        credential: Credential,
        headers: Vec<Header>,
        awaiting: Awaiting,
    )
        ensures
            final(self)@ == old(self)@.spawn_fetch(
                url@,
                maximum,
                credential,
                seen(headers@),
                awaiting,
            ),
    {
        reveal(ReaderView::spawn_fetch);
        self.stop_task();
        self.emit(
            Command::Spawn {
                work: Work::Fetch { url, max_bytes: maximum, credential, headers },
                awaiting,
            },
        );
    }

    /// The path of something in the user's library.
    pub fn zotero_path(&self, suffix: &str) -> (path: Option<String>)
        ensures
            maybe(path) == self@.zotero_path(suffix@),
    {
        match &self.user_id {
            Some(user) => {
                let start = joined_pair("/users/", user);
                Some(joined_pair(&start, suffix))
            },
            None => None,
        }
    }

    /// Asks Zotero for something in the user's library.
    pub fn fetch_zotero(&mut self, suffix: &str, maximum: u32, awaiting: Awaiting)
        ensures
            final(self)@ == old(self)@.fetch_zotero(suffix@, maximum, awaiting),
    {
        reveal(ReaderView::fetch_zotero);
        match self.zotero_path(suffix) {
            Some(path) => {
                let mut headers: Vec<Header> = Vec::new();
                headers.push(
                    Header { name: "Zotero-API-Version".to_owned(), value: "3".to_owned() },
                );
                assert(seen(headers@) =~= seq![
                    HeaderView { name: "Zotero-API-Version"@, value: "3"@ },
                ]);
                self.spawn_fetch(
                    joined_pair(ZOTERO_API, &path),
                    maximum,
                    Credential::Zotero,
                    headers,
                    awaiting,
                );
            },
            None => {
                self.pane = Pane::Setup;
                self.complain("Enter the numeric Zotero user ID first.");
            },
        }
    }

    /// An address of the bridge.
    pub fn bridge_url(&self, path: &str) -> (url: Option<String>)
        ensures
            maybe(url) == self@.bridge_url(path@),
    {
        match &self.bridge {
            Some(origin) => Some(joined_pair(origin, path)),
            None => None,
        }
    }

    /// Asks the bridge for something.
    pub fn fetch_bridge(&mut self, path: &str, maximum: u32, awaiting: Awaiting)
        ensures
            final(self)@ == old(self)@.fetch_bridge(path@, maximum, awaiting),
    {
        reveal(ReaderView::fetch_bridge);
        match self.bridge_url(path) {
            Some(url) => {
                let headers: Vec<Header> = Vec::new();
                assert(seen(headers@) =~= Seq::<HeaderView>::empty());
                self.spawn_fetch(url, maximum, Credential::Bridge, headers, awaiting);
            },
            None => self.complain("No optional conversion bridge is configured."),
        }
    }

    /// Tells the bridge to do something.
    pub fn post_bridge(&mut self, path: &str, awaiting: Awaiting)
        ensures
            final(self)@ == old(self)@.post_bridge(path@, awaiting),
    {
        reveal(ReaderView::post_bridge);
        match self.bridge_url(path) {
            Some(url) => {
                self.stop_task();
                self.emit(
                    Command::Spawn {
                        work: Work::Post {
                            url,
                            body: "{}".to_owned(),
                            content_type: "application/json".to_owned(),
                            credential: Credential::Bridge,
                            max_bytes: CONVERSION_BYTES,
                        },
                        awaiting,
                    },
                );
            },
            None => self.complain("No optional conversion bridge is configured."),
        }
    }
}

} // verus!

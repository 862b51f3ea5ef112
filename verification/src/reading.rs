//! Opening papers, getting their text, and remembering places in it.
use std::collections::VecDeque;

use vstd::prelude::*;
use vstd::string::*;
use vstd::utf8::*;

use crate::bridge::{conversion, conversion_in};
use crate::bytes::utf8_text;
use crate::fulltext::{fulltext_in, zotero_fulltext};
use crate::json::Value;
use crate::keys::{document_blob, document_name, is_figure, memory_blob, memory_name, valid_figure};
use crate::model::{Conversion, ConversionView};
use crate::reader::{
    paged, Pane, ReaderView, ReadingList, CONVERSION_BYTES, DOCUMENT_BYTES, ZOTERO_RESPONSE_BYTES,
};
use crate::text::{chars_of, copy_chars, joined_pair, maybe, same_text, seen, starts_with, text_of};
use crate::work::{
    Awaiting, Command, CommandView, Credential, Place, PlaceView, Transfer, WorkView, Work,
};

verus! {

/// How long the reader waits before it asks for a conversion again.
pub const POLL_SECONDS: u32 = 3;

/// How often the reader asks for a conversion.
pub const MAX_POLLS: u16 = 200;

/// Where the pictures of a document stand.
pub const FIGURES: &'static str = "figures/";

/// The path of something about an item on the bridge.
pub open spec fn bridge_path(key: Seq<char>, rest: Seq<char>) -> Seq<char> {
    "/v1/items/"@ + key + rest
}

/// The name of a picture within its directory, if it is one that the bridge
/// serves.
pub open spec fn figure_of(picture: Seq<char>) -> Option<Seq<char>> {
    if FIGURES@.is_prefix_of(picture) && is_figure(picture.skip(FIGURES@.len() as int)) {
        Some(picture.skip(FIGURES@.len() as int))
    } else {
        None
    }
}

/// The pictures from the first one that the bridge serves.
pub open spec fn from_first_figure(figures: Seq<Seq<char>>) -> Seq<Seq<char>>
    decreases figures.len(),
{
    if figures.len() == 0 || figure_of(figures[0]) is Some {
        figures
    } else {
        from_first_figure(figures.drop_first())
    }
}

impl ReaderView {
    /// Whether a reading memory is being saved or waits to be saved.
    pub open spec fn owes_memory(self) -> bool {
        self.memory_upload || self.pending_memory is Some
    }

    /// The name and the bytes of the open paper's reading memory.
    pub open spec fn memory_payload(self, memory: Option<Seq<u8>>) -> Option<
        (Seq<char>, Seq<u8>),
    > {
        match (self.opened_key, memory) {
            (Some(key), Some(bytes)) => Some((memory_name(key), bytes)),
            _ => None,
        }
    }

    pub open spec fn start_memory_upload(self, name: Seq<char>, bytes: Seq<u8>) -> ReaderView {
        (ReaderView { memory_upload: true, active_memory: Some((name, bytes)), ..self }).emits(
            CommandView::Upload { transfer: Transfer::MemorySave, name, bytes },
        )
    }

    /// The reading memory is saved at once, or after the one that is being
    /// saved.
    #[verifier::opaque]
    pub open spec fn save_memory(self, memory: Option<Seq<u8>>) -> ReaderView {
        match self.memory_payload(memory) {
            Some((name, bytes)) => if self.memory_upload {
                ReaderView { pending_memory: Some((name, bytes)), ..self }
            } else {
                (ReaderView { pending_memory: None, ..self }).start_memory_upload(name, bytes)
            },
            None => self,
        }
    }

    #[verifier::opaque]
    pub open spec fn retry_memory(self) -> ReaderView {
        if self.memory_upload {
            self.troubled("Reading memory is still being saved."@)
        } else {
            match self.pending_memory {
                Some((name, bytes)) => (ReaderView {
                    pending_memory: None,
                    trouble: None,
                    ..self
                }).start_memory_upload(name, bytes),
                None => self,
            }
        }
    }

    /// Nothing of the document that was open is left.
    pub open spec fn without_book(self) -> ReaderView {
        ReaderView {
            figures: Seq::empty(),
            figure_task: None,
            place: None,
            memory_loading: None,
            ..self
        }
    }

    /// The document is closed and its pictures are no longer read.
    #[verifier::opaque]
    pub open spec fn close_book(self, memory: Option<Seq<u8>>) -> ReaderView {
        let closed = self.save_memory(memory).emits(CommandView::CloseBook).without_book();
        match self.figure_task {
            Some((task, _)) => closed.emits(CommandView::Cancel(task)),
            None => closed,
        }
    }

    /// Nothing of the paper that was open is left.
    pub open spec fn reset_item_content(self) -> ReaderView {
        ReaderView {
            fetched_html: None,
            conversion: None,
            attachment: None,
            place: None,
            figures: Seq::empty(),
            memory_loading: None,
            ..self
        }
    }

    #[verifier::opaque]
    pub open spec fn open_paper(self, index: nat, memory: Option<Seq<u8>>) -> ReaderView {
        if self.owes_memory() {
            self.troubled(
                "Finish or retry the pending reading-memory save before opening another paper."@,
            )
        } else if index < self.snapshot.papers.len() {
            let paper = self.snapshot.papers[index as int];
            (ReaderView {
                opened_key: Some(paper.key),
                opened_title: paper.title,
                opened_creators: paper.creators,
                detail: None,
                detail_pages: Seq::empty(),
                detail_page: 0,
                from_library: false,
                pane: Pane::Detail,
                trouble: None,
                ..self.close_book(memory).reset_item_content()
            }).fetch_zotero(
                "/items/"@ + paper.key + "?format=json"@,
                ZOTERO_RESPONSE_BYTES,
                Awaiting::Detail,
            )
        } else {
            self
        }
    }

    /// A kept paper is opened.
    #[verifier::opaque]
    pub open spec fn open_kept(self, index: nat, memory: Option<Seq<u8>>) -> ReaderView {
        if self.owes_memory() {
            self.troubled(
                "Finish or retry the pending reading-memory save before opening another paper."@,
            )
        } else if index < self.library.len() {
            let kept = self.library[index as int];
            ReaderView {
                opened_key: Some(kept.key),
                opened_title: kept.title,
                opened_creators: kept.creators,
                from_library: true,
                detail: None,
                detail_page: 0,
                detail_pages: seq![seq!["This paper text is kept for offline reading."@]],
                pane: Pane::Detail,
                ..self.close_book(memory).reset_item_content()
            }
        } else {
            self
        }
    }

    pub open spec fn ask_memory(self, key: Seq<char>) -> ReaderView {
        (ReaderView { place: None, memory_loading: Some(key), ..self }).emits(
            CommandView::Download {
                transfer: Transfer::MemoryLoad,
                name: memory_name(key),
                at_most: None,
            },
        )
    }

    #[verifier::opaque]
    pub open spec fn load_document(self, key: Seq<char>) -> ReaderView {
        (ReaderView {
            document_loading: true,
            pane: Pane::Converting,
            ..self.ask_memory(key)
        }).emits(
            CommandView::Download {
                transfer: Transfer::DocumentLoad,
                name: document_name(key),
                at_most: Some(DOCUMENT_BYTES as usize),
            },
        )
    }

    /// The reader waits for a paper's text, and asks where it was left.
    #[verifier::opaque]
    pub open spec fn await_text(self, key: Seq<char>) -> ReaderView {
        ReaderView {
            poll_count: 0,
            trouble: None,
            pane: Pane::Converting,
            ..self.ask_memory(key)
        }
    }

    /// Zotero's index is asked for the text of the stored PDF.
    #[verifier::opaque]
    pub open spec fn fetch_indexed_text(self) -> ReaderView {
        match self.attachment {
            Some(attachment) => self.fetch_zotero(
                "/items/"@ + attachment.key + "/fulltext"@,
                ZOTERO_RESPONSE_BYTES,
                Awaiting::ZoteroFullText,
            ),
            None => self.fail_detail(
                "No stored PDF with indexed text is attached to this Zotero item."@,
            ),
        }
    }

    /// The text of the open paper is asked for: from the shelf, from the
    /// bridge, or from Zotero's index.
    #[verifier::opaque]
    pub open spec fn start_conversion(self) -> ReaderView {
        if self.owes_memory() {
            self.troubled(
                "Finish or retry the pending reading-memory save before reopening the paper."@,
            )
        } else {
            match self.opened_key {
                Some(key) => if self.is_kept(key) {
                    self.load_document(key)
                } else {
                    let waiting = self.await_text(key);
                    if self.bridge is Some {
                        waiting.post_bridge(
                            bridge_path(key, "/conversion"@),
                            Awaiting::StartConversion,
                        )
                    } else {
                        waiting.fetch_indexed_text()
                    }
                },
                None => self,
            }
        }
    }

    #[verifier::opaque]
    pub open spec fn poll_conversion(self) -> ReaderView {
        match self.opened_key {
            Some(key) => self.fetch_bridge(
                bridge_path(key, "/conversion"@),
                CONVERSION_BYTES,
                Awaiting::PollConversion,
            ),
            None => self,
        }
    }

    #[verifier::opaque]
    pub open spec fn wait_to_poll(self) -> ReaderView {
        if self.poll_count >= MAX_POLLS {
            self.fail_detail("Conversion took longer than ten minutes. Try again later."@)
        } else {
            (ReaderView { poll_count: (self.poll_count + 1) as u16, ..self }).emits(
                CommandView::Spawn {
                    work: WorkView::Sleep { seconds: POLL_SECONDS },
                    awaiting: Awaiting::PollWait,
                },
            )
        }
    }

    #[verifier::opaque]
    pub open spec fn fetch_document(self) -> ReaderView {
        match self.opened_key {
            Some(key) => self.fetch_bridge(
                bridge_path(key, "/document"@),
                DOCUMENT_BYTES,
                Awaiting::Document,
            ),
            None => self,
        }
    }

    /// What follows from the state of a conversion.
    #[verifier::opaque]
    pub open spec fn follow_conversion(self, conversion: ConversionView) -> ReaderView {
        let state = conversion.state;
        if state == "ready"@ {
            self.fetch_document()
        } else if state == "queued"@ || state == "running"@ {
            self.wait_to_poll()
        } else if state == "missing_pdf"@ {
            self.fail_detail("No PDF is stored with this Zotero item."@)
        } else if state == "failed"@ {
            self.fail_detail(
                match conversion.message {
                    Some(message) => message,
                    None => "The stored PDF could not be converted."@,
                },
            )
        } else {
            self.fail_detail("The bridge returned an unknown conversion state."@)
        }
    }

    #[verifier::opaque]
    pub open spec fn took_conversion(self, read: Option<ConversionView>) -> ReaderView {
        match read {
            None => self.fail_detail("The bridge returned an unreadable conversion state."@),
            Some(conversion) => (ReaderView {
                conversion: Some(conversion),
                ..self
            }).follow_conversion(conversion),
        }
    }

    /// The bridge is asked for a picture of a paper.
    #[verifier::opaque]
    pub open spec fn asks_for_figure(
        self,
        key: Seq<char>,
        picture: Seq<char>,
        name: Seq<char>,
    ) -> ReaderView {
        match self.bridge_url(bridge_path(key, "/figures/"@ + name)) {
            Some(url) => self.emits(
                CommandView::SpawnFigure { url, credential: Credential::Bridge, name: picture },
            ),
            None => self,
        }
    }

    /// The next picture that the bridge serves is asked for, unless one is on
    /// its way; the document hears when there are none left.
    #[verifier::opaque]
    pub open spec fn fetch_next_figure(self) -> ReaderView {
        match (self.figure_task, self.opened_key) {
            (None, Some(key)) => {
                let rest = from_first_figure(self.figures);
                if rest.len() == 0 {
                    (ReaderView { figures: Seq::empty(), ..self }).emits(
                        CommandView::SettlePictures,
                    )
                } else {
                    (ReaderView { figures: rest.drop_first(), ..self }).asks_for_figure(
                        key,
                        rest[0],
                        figure_of(rest[0])->0,
                    )
                }
            },
            _ => self,
        }
    }

    /// A picture that the device could not ask for comes next again.
    pub open spec fn figure_spawned(self, name: Seq<char>, task: Option<u64>) -> ReaderView {
        match task {
            Some(task) => ReaderView { figure_task: Some((task, name)), ..self },
            None => ReaderView { figures: seq![name] + self.figures, ..self },
        }
    }

    pub open spec fn book_opened(self, missing: Seq<Seq<char>>) -> ReaderView {
        (ReaderView { figures: missing, ..self }).fetch_next_figure()
    }

    /// A document is opened where its reader left it.
    #[verifier::opaque]
    pub open spec fn open_book(self, html: Seq<u8>) -> ReaderView {
        (ReaderView { fetched_html: Some(html), place: None, ..self }).emits(
            CommandView::OpenBook {
                html,
                place: match self.place {
                    Some(place) => place,
                    None => PlaceView::Fresh,
                },
                truncated: self.conversion is Some && self.conversion->0.truncated,
            },
        )
    }

    /// The open paper counts as read and its text is shown.
    #[verifier::opaque]
    pub open spec fn show_book(self) -> ReaderView {
        let marked = match self.opened_key {
            Some(key) => self.mark_opened(key),
            None => self,
        };
        (ReaderView { pane: Pane::FullText, ..marked }).emits(CommandView::ReadFrontlight)
    }

    /// A text is opened, if it is text and there is something to read in it.
    #[verifier::opaque]
    pub open spec fn took_document(self, html: Seq<u8>, readable: bool) -> ReaderView {
        if !valid_utf8(html) {
            self.fail_detail("The paper text was not valid UTF-8."@)
        } else if !readable {
            self.fail_detail("The response contained no readable paper text."@)
        } else {
            self.open_book(html).show_book()
        }
    }

    /// Indexed text becomes a document whose text is then read.
    #[verifier::opaque]
    pub open spec fn took_zotero_fulltext(self, json: Option<Value>) -> ReaderView {
        let read = match json {
            Some(root) => fulltext_in(&root, self.opened_title, DOCUMENT_BYTES as nat),
            None => None,
        };
        match read {
            Some(text) => (ReaderView {
                conversion: Some(
                    ConversionView {
                        state: "ready"@,
                        document_version: None,
                        truncated: text.truncated,
                        message: None,
                    },
                ),
                ..self
            }).emits(CommandView::Parse { html: text.html }),
            None => self.fail_detail(
                "Zotero returned unreadable indexed text for this attachment."@,
            ),
        }
    }

    /// A stored reading memory has arrived.
    #[verifier::opaque]
    pub open spec fn took_memory(self, bytes: Seq<u8>) -> ReaderView {
        match self.memory_loading {
            Some(key) => {
                let next = ReaderView { memory_loading: None, ..self };
                if self.opened_key == Some(key) {
                    next.emits(CommandView::Restore { bytes })
                } else {
                    next
                }
            },
            None => self,
        }
    }

    /// A place that no open document took is where the next one opens.
    pub open spec fn restored(self, bytes: Seq<u8>, took: bool) -> ReaderView {
        if took {
            self
        } else {
            ReaderView { place: Some(PlaceView::Saved(bytes)), ..self }
        }
    }
}

/// The name of a picture within its directory.
fn figure_name(picture: &str) -> (name: Option<String>)
    ensures
        maybe(name) == figure_of(picture@),
{
    let chars = chars_of(picture);
    if !starts_with(&chars, FIGURES) {
        return None;
    }
    proof {
        reveal_strlit("figures/");
    }
    let rest = copy_chars(&chars, 8, chars.len());
    assert(rest@ =~= picture@.skip(FIGURES@.len() as int));
    let name = text_of(&rest);
    if valid_figure(&name) {
        Some(name)
    } else {
        None
    }
}

/// Takes the next picture that the bridge serves, with its name there, and
/// drops those before it.
fn next_figure(figures: &mut VecDeque<String>) -> (next: Option<(String, String)>)
    ensures
        match next {
            Some((picture, name)) => {
                let rest = from_first_figure(seen(old(figures)@));
                &&& rest.len() > 0
                &&& rest[0] == picture@
                &&& figure_of(picture@) == Some(name@)
                &&& seen(final(figures)@) == rest.drop_first()
            },
            None => {
                &&& from_first_figure(seen(old(figures)@)).len() == 0
                &&& seen(final(figures)@) == Seq::<Seq<char>>::empty()
            },
        },
{
    loop
        invariant
            from_first_figure(seen(figures@)) == from_first_figure(seen(old(figures)@)),
        decreases figures@.len(),
    {
        let ghost before = figures@;
        match figures.pop_front() {
            Some(picture) => {
                assert(seen(figures@) =~= seen(before).drop_first());
                assert(seen(before)[0] == picture@);
                if let Some(name) = figure_name(&picture) {
                    return Some((picture, name));
                }
            },
            None => {
                assert(seen(figures@) =~= Seq::empty());
                return None;
            },
        }
    }
}

/// Writes the path of something about an item on the bridge.
fn item_path(key: &str, rest: &str) -> (path: String)
    ensures
        path@ == bridge_path(key@, rest@),
{
    let start = joined_pair("/v1/items/", key);
    joined_pair(&start, rest)
}

impl ReadingList {
    /// Starts to save a reading memory.
    pub fn start_memory_upload(&mut self, name: String, bytes: Vec<u8>)
        ensures
            final(self)@ == old(self)@.start_memory_upload(name@, bytes@),
    {
        let active = (name.clone(), bytes.clone());
        assert(active.1@ =~= bytes@);
        self.emit(Command::Upload { transfer: Transfer::MemorySave, name, bytes });
        self.memory_upload = true;
        self.active_memory = Some(active);
    }

    /// Saves the open document's reading memory.
    pub fn save_memory(&mut self, memory: Option<Vec<u8>>)
        ensures
            final(self)@ == old(self)@.save_memory(maybe(memory)),
    {
        reveal(ReaderView::save_memory);
        let bytes = match memory {
            Some(bytes) => bytes,
            None => {
                return;
            },
        };
        let name = match &self.opened_key {
            Some(key) => memory_blob(key),
            None => {
                return;
            },
        };
        if self.memory_upload {
            self.pending_memory = Some((name, bytes));
            return;
        }
        self.pending_memory = None;
        self.start_memory_upload(name, bytes);
    }

    /// Tries again to save the reading memory that could not be saved.
    pub fn retry_memory(&mut self)
        ensures
            final(self)@ == old(self)@.retry_memory(),
    {
        reveal(ReaderView::retry_memory);
        if self.memory_upload {
            self.complain("Reading memory is still being saved.");
            return;
        }
        if let Some((name, bytes)) = self.pending_memory.take() {
            self.trouble = None;
            self.start_memory_upload(name, bytes);
        }
    }

    /// The number of the task that reads a picture.
    fn figure_number(&self) -> (number: Option<u64>)
        ensures
            number == (match self@.figure_task {
                Some((task, _)) => Some(task),
                None => None,
            }),
    {
        match &self.figure_task {
            Some((task, _)) => Some(*task),
            None => None,
        }
    }

    /// Drops what belongs to the document that was open.
    fn forget_book(&mut self)
        ensures
            final(self)@ == old(self)@.without_book(),
    {
        self.figures.clear();
        assert(seen(self.figures@) =~= Seq::empty());
        self.figure_task = None;
        self.place = None;
        self.memory_loading = None;
    }

    /// Closes the document.
    pub fn close_book(&mut self, memory: Option<Vec<u8>>)
        ensures
            final(self)@ == old(self)@.close_book(maybe(memory)),
    {
        reveal(ReaderView::close_book);
        let figure = self.figure_number();
        self.save_memory(memory);
        self.emit(Command::CloseBook);
        self.forget_book();
        if let Some(task) = figure {
            self.emit(Command::Cancel(task));
        }
    }

    /// Drops what belongs to the paper that was open.
    pub fn reset_item_content(&mut self)
        ensures
            final(self)@ == old(self)@.reset_item_content(),
    {
        self.fetched_html = None;
        self.conversion = None;
        self.attachment = None;
        self.place = None;
        self.figures.clear();
        self.memory_loading = None;
        assert(seen(self.figures@) =~= Seq::empty());
    }

    /// Opens a listed paper.
    pub fn open_paper(&mut self, index: usize, memory: Option<Vec<u8>>)
        ensures
            final(self)@ == old(self)@.open_paper(index as nat, maybe(memory)),
    {
        reveal(ReaderView::open_paper);
        if self.memory_upload || self.pending_memory.is_some() {
            self.complain("Finish or retry the pending reading-memory save before opening another paper.");
            return;
        }
        if index >= self.snapshot.papers.len() {
            return;
        }
        let paper = self.snapshot.papers[index].clone();
        self.close_book(memory);
        self.reset_item_content();
        let start = joined_pair("/items/", &paper.key);
        let suffix = joined_pair(&start, "?format=json");
        self.opened_key = Some(paper.key);
        self.opened_title = paper.title;
        self.opened_creators = paper.creators;
        self.detail = None;
        self.detail_pages.clear();
        assert(paged(self.detail_pages@) =~= Seq::empty());
        self.detail_page = 0;
        self.from_library = false;
        self.pane = Pane::Detail;
        self.trouble = None;
        self.fetch_zotero(&suffix, ZOTERO_RESPONSE_BYTES, Awaiting::Detail);
    }

    /// Opens a kept paper.
    pub fn open_kept(&mut self, index: usize, memory: Option<Vec<u8>>)
        ensures
            final(self)@ == old(self)@.open_kept(index as nat, maybe(memory)),
    {
        reveal(ReaderView::open_kept);
        if self.memory_upload || self.pending_memory.is_some() {
            self.complain("Finish or retry the pending reading-memory save before opening another paper.");
            return;
        }
        if index >= self.library.len() {
            return;
        }
        let kept = self.library[index].clone();
        self.close_book(memory);
        self.reset_item_content();
        let mut page: Vec<String> = Vec::new();
        page.push("This paper text is kept for offline reading.".to_owned());
        assert(seen(page@) =~= seq!["This paper text is kept for offline reading."@]);
        let ghost lines = seen(page@);
        let mut pages: Vec<Vec<String>> = Vec::new();
        pages.push(page);
        assert(paged(pages@) =~= seq![lines]);
        self.opened_key = Some(kept.key);
        self.opened_title = kept.title;
        self.opened_creators = kept.creators;
        self.from_library = true;
        self.detail = None;
        self.detail_page = 0;
        self.detail_pages = pages;
        self.pane = Pane::Detail;
    }

    /// Gets the reading memory of a paper.
    pub fn ask_memory(&mut self, key: &str)
        ensures
            final(self)@ == old(self)@.ask_memory(key@),
    {
        self.place = None;
        let name = memory_blob(key);
        self.emit(Command::Download { transfer: Transfer::MemoryLoad, name, at_most: None });
        self.memory_loading = Some(key.to_owned());
    }

    /// Gets the text of a kept paper.
    pub fn load_document(&mut self, key: &str)
        ensures
            final(self)@ == old(self)@.load_document(key@),
    {
        reveal(ReaderView::load_document);
        self.ask_memory(key);
        let name = document_blob(key);
        self.emit(
            Command::Download {
                transfer: Transfer::DocumentLoad,
                name,
                at_most: Some(DOCUMENT_BYTES as usize),
            },
        );
        self.document_loading = true;
        self.pane = Pane::Converting;
    }

    /// Waits for a paper's text.
    fn await_text(&mut self, key: &str)
        ensures
            final(self)@ == old(self)@.await_text(key@),
    {
        reveal(ReaderView::await_text);
        self.ask_memory(key);
        self.poll_count = 0;
        self.trouble = None;
        self.pane = Pane::Converting;
    }

    /// Asks Zotero for the indexed text of the stored PDF.
    fn fetch_indexed_text(&mut self)
        ensures
            final(self)@ == old(self)@.fetch_indexed_text(),
    {
        reveal(ReaderView::fetch_indexed_text);
        let suffix = match &self.attachment {
            Some(attachment) => {
                let start = joined_pair("/items/", &attachment.key);
                joined_pair(&start, "/fulltext")
            },
            None => {
                self.fail_detail(
                    "No stored PDF with indexed text is attached to this Zotero item.",
                );
                return;
            },
        };
        self.fetch_zotero(&suffix, ZOTERO_RESPONSE_BYTES, Awaiting::ZoteroFullText);
    }

    /// Asks for the text of the open paper.
    pub fn start_conversion(&mut self)
        ensures
            final(self)@ == old(self)@.start_conversion(),
    {
        reveal(ReaderView::start_conversion);
        if self.memory_upload || self.pending_memory.is_some() {
            self.complain("Finish or retry the pending reading-memory save before reopening the paper.");
            return;
        }
        let key = match self.opened() {
            Some(key) => key,
            None => {
                return;
            },
        };
        if self.is_kept(&key) {
            self.load_document(&key);
            return;
        }
        let bridged = self.bridge.is_some();
        self.await_text(&key);
        if bridged {
            let path = item_path(&key, "/conversion");
            self.post_bridge(&path, Awaiting::StartConversion);
            return;
        }
        self.fetch_indexed_text();
    }

    /// Asks the bridge how a conversion stands.
    pub fn poll_conversion(&mut self)
        ensures
            final(self)@ == old(self)@.poll_conversion(),
    {
        reveal(ReaderView::poll_conversion);
        if let Some(key) = self.opened() {
            let path = item_path(&key, "/conversion");
            self.fetch_bridge(&path, CONVERSION_BYTES, Awaiting::PollConversion);
        }
    }

    /// Waits before asking again, as often as it makes sense.
    pub fn wait_to_poll(&mut self)
        ensures
            final(self)@ == old(self)@.wait_to_poll(),
    {
        reveal(ReaderView::wait_to_poll);
        if self.poll_count >= MAX_POLLS {
            self.fail_detail("Conversion took longer than ten minutes. Try again later.");
            return;
        }
        self.poll_count = self.poll_count + 1;
        self.emit(
            Command::Spawn {
                work: Work::Sleep { seconds: POLL_SECONDS },
                awaiting: Awaiting::PollWait,
            },
        );
    }

    /// Gets a converted text.
    pub fn fetch_document(&mut self)
        ensures
            final(self)@ == old(self)@.fetch_document(),
    {
        reveal(ReaderView::fetch_document);
        if let Some(key) = self.opened() {
            let path = item_path(&key, "/document");
            self.fetch_bridge(&path, DOCUMENT_BYTES, Awaiting::Document);
        }
    }

    /// Does what follows from the state of a conversion.
    fn follow_conversion(&mut self, conversion: &Conversion)
        ensures
            final(self)@ == old(self)@.follow_conversion(conversion@),
    {
        reveal(ReaderView::follow_conversion);
        if same_text(&conversion.state, "ready") {
            self.fetch_document();
        } else if same_text(&conversion.state, "queued") || same_text(
            &conversion.state,
            "running",
        ) {
            self.wait_to_poll();
        } else if same_text(&conversion.state, "missing_pdf") {
            self.fail_detail("No PDF is stored with this Zotero item.");
        } else if same_text(&conversion.state, "failed") {
            match &conversion.message {
                Some(message) => self.fail_detail(message),
                None => self.fail_detail("The stored PDF could not be converted."),
            }
        } else {
            self.fail_detail("The bridge returned an unknown conversion state.");
        }
    }

    /// Takes what the bridge says of a conversion.
    pub fn took_conversion(&mut self, json: &Option<Value>)
        ensures
            final(self)@ == old(self)@.took_conversion(
                match *json {
                    Some(root) => conversion_in(&root),
                    None => None,
                },
            ),
    {
        reveal(ReaderView::took_conversion);
        let read = match json {
            Some(root) => conversion(root),
            None => None,
        };
        match read {
            Some(conversion) => {
                self.conversion = Some(conversion.clone());
                self.follow_conversion(&conversion);
            },
            None => self.fail_detail("The bridge returned an unreadable conversion state."),
        }
    }

    /// Asks for the next picture.
    pub fn fetch_next_figure(&mut self)
        ensures
            final(self)@ == old(self)@.fetch_next_figure(),
    {
        reveal(ReaderView::fetch_next_figure);
        if self.figure_task.is_some() {
            return;
        }
        if let Some(key) = self.opened() {
            match next_figure(&mut self.figures) {
                Some((picture, name)) => self.ask_for_figure(&key, picture, &name),
                None => self.emit(Command::SettlePictures),
            }
        }
    }

    /// Asks the bridge for a picture of a paper.
    fn ask_for_figure(&mut self, key: &str, picture: String, name: &str)
        ensures
            final(self)@ == old(self)@.asks_for_figure(key@, picture@, name@),
    {
        reveal(ReaderView::asks_for_figure);
        let rest = joined_pair("/figures/", name);
        let path = item_path(key, &rest);
        if let Some(url) = self.bridge_url(&path) {
            self.emit(
                Command::SpawnFigure { url, credential: Credential::Bridge, name: picture },
            );
        }
    }

    /// Takes the number of the task that reads a picture, or that there is
    /// none.
    pub fn figure_spawned(&mut self, name: String, task: Option<u64>)
        ensures
            final(self)@ == old(self)@.figure_spawned(name@, task),
    {
        match task {
            Some(task) => {
                self.figure_task = Some((task, name));
            },
            None => {
                let ghost before = self.figures@;
                let ghost first = name@;
                self.figures.push_front(name);
                assert(seen(self.figures@) =~= seq![first] + seen(before));
            },
        }
    }

    /// Takes the names of the pictures that an opened document lacks.
    pub fn book_opened(&mut self, missing: Vec<String>)
        ensures
            final(self)@ == old(self)@.book_opened(seen(missing@)),
    {
        self.figures.clear();
        for i in 0..missing.len()
            invariant
                seen(self.figures@) == seen(missing@).take(i as int),
                self@ == (ReaderView { figures: self@.figures, ..old(self)@ }),
        {
            let ghost before = self.figures@;
            self.figures.push_back(missing[i].clone());
            assert(seen(self.figures@) =~= seen(before).push(missing@[i as int]@));
            assert(seen(self.figures@) =~= seen(missing@).take(i + 1));
        }
        assert(seen(missing@).take(missing@.len() as int) =~= seen(missing@));
        self.fetch_next_figure();
    }

    /// Opens a document.
    fn open_book(&mut self, html: Vec<u8>)
        ensures
            final(self)@ == old(self)@.open_book(html@),
    {
        reveal(ReaderView::open_book);
        let copy = html.clone();
        assert(copy@ =~= html@);
        self.fetched_html = Some(copy);
        let place = match self.place.take() {
            Some(place) => place,
            None => Place::Fresh,
        };
        let truncated = match &self.conversion {
            Some(conversion) => conversion.truncated,
            None => false,
        };
        self.emit(Command::OpenBook { html, place, truncated });
    }

    /// Shows the open document.
    fn show_book(&mut self)
        ensures
            final(self)@ == old(self)@.show_book(),
    {
        reveal(ReaderView::show_book);
        if let Some(key) = self.opened() {
            self.mark_opened(&key);
        }
        self.pane = Pane::FullText;
        self.emit(Command::ReadFrontlight);
    }

    /// Takes a text and opens it, if there is something to read in it.
    pub fn took_document(&mut self, html: Vec<u8>, readable: bool)
        ensures
            final(self)@ == old(self)@.took_document(html@, readable),
    {
        reveal(ReaderView::took_document);
        if utf8_text(&html).is_none() {
            self.fail_detail("The paper text was not valid UTF-8.");
        } else if !readable {
            self.fail_detail("The response contained no readable paper text.");
        } else {
            self.open_book(html);
            self.show_book();
        }
    }

    /// Takes indexed text and makes a document of it.
    pub fn took_zotero_fulltext(&mut self, json: &Option<Value>)
        ensures
            final(self)@ == old(self)@.took_zotero_fulltext(*json),
    {
        reveal(ReaderView::took_zotero_fulltext);
        let read = match json {
            Some(root) => zotero_fulltext(root, &self.opened_title, DOCUMENT_BYTES as usize),
            None => None,
        };
        match read {
            Some(text) => {
                self.conversion = Some(
                    Conversion {
                        state: "ready".to_owned(),
                        document_version: None,
                        truncated: text.truncated,
                        message: None,
                    },
                );
                self.emit(Command::Parse { html: text.html });
            },
            None => {
                self.fail_detail("Zotero returned unreadable indexed text for this attachment.");
            },
        }
    }

    /// Takes a stored reading memory.
    pub fn took_memory(&mut self, bytes: Vec<u8>)
        ensures
            final(self)@ == old(self)@.took_memory(bytes@),
    {
        reveal(ReaderView::took_memory);
        if let Some(key) = self.memory_loading.take() {
            if self.is_open(&key) {
                self.emit(Command::Restore { bytes });
            }
        }
    }

    /// Takes whether an open document took the place it was given.
    pub fn restored(&mut self, bytes: Vec<u8>, took: bool)
        ensures
            final(self)@ == old(self)@.restored(bytes@, took),
    {
        if !took {
            self.place = Some(Place::Saved(bytes));
        }
    }
}

} // verus!

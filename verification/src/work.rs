//! What the reader asks of the device, and what it says when a request fails.
use vstd::prelude::*;
use vstd::string::*;

use crate::model::{Snapshot, SnapshotView};
use crate::text::seen;

verus! {

/// Where every Zotero request goes.
pub const ZOTERO_API: &'static str = "https://api.zotero.org";

/// What a running request is for.
#[derive(Clone, Copy, Debug, PartialEq, Eq, Structural)]
pub enum Awaiting {
    Collections,
    SnapshotPage(usize),
    Detail,
    DetailChildren,
    ZoteroFullText,
    StartConversion,
    PollWait,
    PollConversion,
    Document,
}

/// Why a request failed.
#[derive(Clone, Copy, Debug, PartialEq, Eq, Structural)]
pub enum TaskError {
    NoCredential,
    Offline,
    Denied,
    Unauthorized,
    TooLarge,
    TimedOut,
    NotFound,
    Unreachable,
}

/// A credential by which the device answers for a request. The reader knows
/// its name and never its value.
#[derive(Clone, Copy, Debug, PartialEq, Eq, Structural)]
pub enum Credential {
    Zotero,
    Bridge,
}

impl Credential {
    pub open spec fn named(self) -> Seq<char> {
        match self {
            Credential::Zotero => "zotero"@,
            Credential::Bridge => "zotero-bridge"@,
        }
    }

    /// The name under which the device holds the credential.
    pub fn name(&self) -> (name: &'static str)
        ensures
            name@ == self.named(),
    {
        match self {
            Credential::Zotero => "zotero",
            Credential::Bridge => "zotero-bridge",
        }
    }
}

/// A request header.
#[derive(Debug, PartialEq, Eq)]
pub struct Header {
    pub name: String,
    pub value: String,
}

#[verifier::ext_equal]
pub struct HeaderView {
    pub name: Seq<char>,
    pub value: Seq<char>,
}

impl View for Header {
    type V = HeaderView;

    open spec fn view(&self) -> HeaderView {
        HeaderView { name: self.name@, value: self.value@ }
    }
}

/// Work that the device does in the background.
#[derive(Debug, PartialEq, Eq)]
pub enum Work {
    /// Reads an address, again if that failed in passing.
    Fetch { url: String, max_bytes: u32, credential: Credential, headers: Vec<Header> },
    /// Sends a body to an address, once.
    Post { url: String, body: String, content_type: String, credential: Credential, max_bytes: u32 },
    /// Waits.
    Sleep { seconds: u32 },
}

#[verifier::ext_equal]
pub enum WorkView {
    Fetch { url: Seq<char>, max_bytes: u32, credential: Credential, headers: Seq<HeaderView> },
    Post {
        url: Seq<char>,
        body: Seq<char>,
        content_type: Seq<char>,
        credential: Credential,
        max_bytes: u32,
    },
    Sleep { seconds: u32 },
}

impl View for Work {
    type V = WorkView;

    open spec fn view(&self) -> WorkView {
        match self {
            Work::Fetch { url, max_bytes, credential, headers } => WorkView::Fetch {
                url: url@,
                max_bytes: *max_bytes,
                credential: *credential,
                headers: seen(headers@),
            },
            Work::Post { url, body, content_type, credential, max_bytes } => WorkView::Post {
                url: url@,
                body: body@,
                content_type: content_type@,
                credential: *credential,
                max_bytes: *max_bytes,
            },
            Work::Sleep { seconds } => WorkView::Sleep { seconds: *seconds },
        }
    }
}

/// A blob on its way between the reader and the device's shelf.
#[derive(Clone, Copy, Debug, PartialEq, Eq, Structural)]
pub enum Transfer {
    SnapshotLoad,
    DocumentLoad,
    MemoryLoad,
    SnapshotSave,
    DocumentSave,
    MemorySave,
}

/// Where reading starts.
#[derive(Debug, PartialEq, Eq)]
pub enum Place {
    /// At the start, without annotations.
    Fresh,
    /// Where these bytes say.
    Saved(Vec<u8>),
}

#[verifier::ext_equal]
pub enum PlaceView {
    Fresh,
    Saved(Seq<u8>),
}

impl View for Place {
    type V = PlaceView;

    open spec fn view(&self) -> PlaceView {
        match self {
            Place::Fresh => PlaceView::Fresh,
            Place::Saved(bytes) => PlaceView::Saved(bytes@),
        }
    }
}

/// What the reader asks of the device. Commands are performed in order, and
/// what one of them leads to is performed before the next.
#[derive(Debug, PartialEq, Eq)]
pub enum Command {
    /// Stops a task.
    Cancel(u64),
    /// Starts the task that the reader waits for; `spawned` takes its number.
    Spawn { work: Work, awaiting: Awaiting },
    /// Starts reading a picture; `figure_spawned` takes the task's number.
    SpawnFigure { url: String, credential: Credential, name: String },
    /// Keeps a small value.
    Save { key: &'static str, value: Vec<u8> },
    /// Asks for a small value.
    Load { key: &'static str },
    /// Asks for the names on the shelf.
    ListShelf,
    /// Takes a blob from the shelf.
    Remove { name: String },
    /// Puts a blob on the shelf.
    Upload { transfer: Transfer, name: String, bytes: Vec<u8> },
    /// Puts the encoding of a snapshot on the shelf.
    UploadSnapshot { name: String, snapshot: Snapshot },
    /// Gets a blob from the shelf, of at most this many bytes or as many as the
    /// device allows.
    Download { transfer: Transfer, name: String, at_most: Option<usize> },
    /// Reads a document; `took_document` takes whether there is something to
    /// read in it.
    Parse { html: Vec<u8> },
    /// Opens a document; `book_opened` takes the names of its pictures.
    OpenBook { html: Vec<u8>, place: Place, truncated: bool },
    /// Closes the document.
    CloseBook,
    /// Tells the document that no more pictures come.
    SettlePictures,
    /// Gives the document a picture.
    ProvidePicture { name: String, bytes: Vec<u8> },
    /// Moves the open document to a place; `restored` takes whether one was
    /// open.
    Restore { bytes: Vec<u8> },
    /// Divides the details of a paper into pages; `detail_paginated` takes
    /// them.
    PaginateDetail { text: String },
    /// Asks for the front light's level.
    ReadFrontlight,
    /// Sets the front light's level.
    SetFrontlight(u8),
    /// Empties the keyboard's text.
    ClearKeyboard,
    /// Replaces the keyboard's text.
    RetypeKeyboard { text: String },
    /// Shows the screen.
    Show,
}

#[verifier::ext_equal]
pub enum CommandView {
    Cancel(u64),
    Spawn { work: WorkView, awaiting: Awaiting },
    SpawnFigure { url: Seq<char>, credential: Credential, name: Seq<char> },
    Save { key: Seq<char>, value: Seq<u8> },
    Load { key: Seq<char> },
    ListShelf,
    Remove { name: Seq<char> },
    Upload { transfer: Transfer, name: Seq<char>, bytes: Seq<u8> },
    UploadSnapshot { name: Seq<char>, snapshot: SnapshotView },
    Download { transfer: Transfer, name: Seq<char>, at_most: Option<usize> },
    Parse { html: Seq<u8> },
    OpenBook { html: Seq<u8>, place: PlaceView, truncated: bool },
    CloseBook,
    SettlePictures,
    ProvidePicture { name: Seq<char>, bytes: Seq<u8> },
    Restore { bytes: Seq<u8> },
    PaginateDetail { text: Seq<char> },
    ReadFrontlight,
    SetFrontlight(u8),
    ClearKeyboard,
    RetypeKeyboard { text: Seq<char> },
    Show,
}

impl View for Command {
    type V = CommandView;

    open spec fn view(&self) -> CommandView {
        match self {
            Command::Cancel(task) => CommandView::Cancel(*task),
            Command::Spawn { work, awaiting } => CommandView::Spawn {
                work: work@,
                awaiting: *awaiting,
            },
            Command::SpawnFigure { url, credential, name } => CommandView::SpawnFigure {
                url: url@,
                credential: *credential,
                name: name@,
            },
            Command::Save { key, value } => CommandView::Save { key: key@, value: value@ },
            Command::Load { key } => CommandView::Load { key: key@ },
            Command::ListShelf => CommandView::ListShelf,
            Command::Remove { name } => CommandView::Remove { name: name@ },
            Command::Upload { transfer, name, bytes } => CommandView::Upload {
                transfer: *transfer,
                name: name@,
                bytes: bytes@,
            },
            Command::UploadSnapshot { name, snapshot } => CommandView::UploadSnapshot {
                name: name@,
                snapshot: snapshot@,
            },
            Command::Download { transfer, name, at_most } => CommandView::Download {
                transfer: *transfer,
                name: name@,
                at_most: *at_most,
            },
            Command::Parse { html } => CommandView::Parse { html: html@ },
            Command::OpenBook { html, place, truncated } => CommandView::OpenBook {
                html: html@,
                place: place@,
                truncated: *truncated,
            },
            Command::CloseBook => CommandView::CloseBook,
            Command::SettlePictures => CommandView::SettlePictures,
            Command::ProvidePicture { name, bytes } => CommandView::ProvidePicture {
                name: name@,
                bytes: bytes@,
            },
            Command::Restore { bytes } => CommandView::Restore { bytes: bytes@ },
            Command::PaginateDetail { text } => CommandView::PaginateDetail { text: text@ },
            Command::ReadFrontlight => CommandView::ReadFrontlight,
            Command::SetFrontlight(level) => CommandView::SetFrontlight(*level),
            Command::ClearKeyboard => CommandView::ClearKeyboard,
            Command::RetypeKeyboard { text } => CommandView::RetypeKeyboard { text: text@ },
            Command::Show => CommandView::Show,
        }
    }
}

/// Whether a request goes to the conversion service.
pub open spec fn asks_bridge(awaiting: Awaiting) -> bool {
    awaiting is StartConversion || awaiting is PollConversion || awaiting is Document
}

/// What a failed request means for whoever reads.
pub open spec fn failure_text(awaiting: Awaiting, error: TaskError) -> Seq<char> {
    match (asks_bridge(awaiting), error) {
        (_, TaskError::Offline) => "This reader is offline. Cached papers are still available."@,
        (true, TaskError::NoCredential) =>
            "Install the conversion-service token with: kobo secret set zotero-bridge --device <address>."@,
        (true, TaskError::Denied) =>
            "Zotero Reader is not allowed to reach the conversion service."@,
        (true, TaskError::Unauthorized) => "The conversion service rejected its credential."@,
        (true, TaskError::TooLarge) =>
            "The conversion service response exceeded the app's safety limit."@,
        (true, TaskError::TimedOut) => "The conversion service took too long to answer."@,
        (true, TaskError::NotFound) => "The requested conversion is no longer available."@,
        (true, TaskError::Unreachable) => "The conversion service could not be reached."@,
        (false, TaskError::NoCredential) =>
            "Install a dedicated read-only Zotero key with: kobo secret set zotero --device <address>."@,
        (false, TaskError::Denied) => "Zotero Reader is not allowed to reach this endpoint."@,
        (false, TaskError::Unauthorized) => "Zotero rejected its credential."@,
        (false, TaskError::TooLarge) => "The Zotero response exceeded the app's safety limit."@,
        (false, TaskError::TimedOut) => "Zotero took too long to answer."@,
        (false, TaskError::NotFound) => "The requested Zotero item is no longer available."@,
        (false, TaskError::Unreachable) => "Zotero could not be reached."@,
    }
}

/// Says what a failed request means, and of which service.
pub fn explain_failure(awaiting: Awaiting, error: TaskError) -> (message: String)
    ensures
        message@ == failure_text(awaiting, error),
{
    let conversion_service = match awaiting {
        Awaiting::StartConversion | Awaiting::PollConversion | Awaiting::Document => true,
        _ => false,
    };
    if conversion_service {
        let message = match error {
            TaskError::NoCredential =>
                "Install the conversion-service token with: kobo secret set zotero-bridge --device <address>.",
            TaskError::Offline => "This reader is offline. Cached papers are still available.",
            TaskError::Denied => "Zotero Reader is not allowed to reach the conversion service.",
            TaskError::Unauthorized => "The conversion service rejected its credential.",
            TaskError::TooLarge =>
                "The conversion service response exceeded the app's safety limit.",
            TaskError::TimedOut => "The conversion service took too long to answer.",
            TaskError::NotFound => "The requested conversion is no longer available.",
            TaskError::Unreachable => "The conversion service could not be reached.",
        };
        return message.to_owned();
    }
    let message = match error {
        TaskError::NoCredential =>
            "Install a dedicated read-only Zotero key with: kobo secret set zotero --device <address>.",
        TaskError::Offline => "This reader is offline. Cached papers are still available.",
        TaskError::Denied => "Zotero Reader is not allowed to reach this endpoint.",
        TaskError::Unauthorized => "Zotero rejected its credential.",
        TaskError::TooLarge => "The Zotero response exceeded the app's safety limit.",
        TaskError::TimedOut => "Zotero took too long to answer.",
        TaskError::NotFound => "The requested Zotero item is no longer available.",
        TaskError::Unreachable => "Zotero could not be reached.",
    };
    message.to_owned()
}

} // verus!

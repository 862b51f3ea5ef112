//! What the reader does when the device's storage answers.
use vstd::prelude::*;
use vstd::string::*;
use vstd::utf8::*;

use crate::actions::USER_ID_KEY;
use crate::bytes::utf8_text;
use crate::feed::SELECTED_KEY;
use crate::json::Value;
use crate::keys::{is_key, is_user_id, valid_key, valid_user_id};
use crate::reader::{ReaderView, ReadingList};
use crate::records::{
    decode_library, decode_reading_state, decode_selection, library_in, selection_in, state_in,
    KeptView,
};
use crate::shelf::{LIBRARY_KEY, STATE_KEY};
use crate::text::{
    chars_of, copy_chars, maybe, same_text, seen, starts_with, text_of, trim, trimmed,
};
use crate::work::{Place, PlaceView, Transfer};

verus! {

/// How the names of documents on the shelf start.
pub const DOCUMENT: &'static str = "document.";

/// How far a transfer has come.
#[derive(Debug)]
pub enum Progress {
    /// To its end. What was got are these bytes; the JSON value that they
    /// spell, if they spell one; and whether they hold a document with
    /// something to read in it.
    Done { bytes: Vec<u8>, json: Option<Value>, readable: bool },
    /// It failed, because the blob is missing or for another reason.
    Failed { missing: bool, reason: String },
    /// It goes on.
    Moving,
    /// The answer was not for it.
    Elsewhere,
}

pub enum ProgressView {
    Done { bytes: Seq<u8>, json: Option<Value>, readable: bool },
    Failed { missing: bool, reason: Seq<char> },
    Moving,
    Elsewhere,
}

impl View for Progress {
    type V = ProgressView;

    open spec fn view(&self) -> ProgressView {
        match self {
            Progress::Done { bytes, json, readable } => ProgressView::Done {
                bytes: bytes@,
                json: *json,
                readable: *readable,
            },
            Progress::Failed { missing, reason } => ProgressView::Failed {
                missing: *missing,
                reason: reason@,
            },
            Progress::Moving => ProgressView::Moving,
            Progress::Elsewhere => ProgressView::Elsewhere,
        }
    }
}

/// What an answer means for one transfer.
#[derive(Debug)]
pub struct Report {
    pub transfer: Transfer,
    pub progress: Progress,
}

pub struct ReportView {
    pub transfer: Transfer,
    pub progress: ProgressView,
}

impl View for Report {
    type V = ReportView;

    open spec fn view(&self) -> ReportView {
        ReportView { transfer: self.transfer, progress: self.progress@ }
    }
}

/// An answer of the storage.
#[derive(Debug)]
pub enum Stored {
    /// A small value, or that there is none.
    Loaded { key: String, value: Option<Vec<u8>> },
    /// The names on the shelf.
    Shelf(Vec<String>),
    /// Anything else.
    Other,
}

#[verifier::ext_equal]
pub enum StoredView {
    Loaded { key: Seq<char>, value: Option<Seq<u8>> },
    Shelf(Seq<Seq<char>>),
    Other,
}

impl View for Stored {
    type V = StoredView;

    open spec fn view(&self) -> StoredView {
        match self {
            Stored::Loaded { key, value } => StoredView::Loaded { key: key@, value: maybe(*value) },
            Stored::Shelf(names) => StoredView::Shelf(seen(names@)),
            Stored::Other => StoredView::Other,
        }
    }
}

/// The user that a value names, if it names one.
pub open spec fn user_in(value: Option<Seq<u8>>) -> Option<Seq<char>> {
    match value {
        Some(bytes) => if valid_utf8(bytes) && is_user_id(trimmed(decode_utf8(bytes))) {
            Some(trimmed(decode_utf8(bytes)))
        } else {
            None
        },
        None => None,
    }
}

/// Whether a name on the shelf is that of a paper's document.
pub open spec fn is_document() -> spec_fn(Seq<char>) -> bool {
    |name: Seq<char>| DOCUMENT@.is_prefix_of(name) && is_key(name.skip(DOCUMENT@.len() as int))
}

/// What is said when a reading memory could not be saved.
pub open spec fn unsaved_text(reason: Seq<char>) -> Seq<char> {
    "Reading position and annotations are not saved ("@ + reason
        + "). Use Retry position below."@
}

/// The order in which transfers are looked at.
pub open spec fn transfer_order() -> Seq<Transfer> {
    seq![
        Transfer::SnapshotLoad,
        Transfer::DocumentLoad,
        Transfer::MemoryLoad,
        Transfer::SnapshotSave,
        Transfer::DocumentSave,
        Transfer::MemorySave,
    ]
}

impl ReaderView {
    /// The transfers that the reader waits for, in order.
    pub open spec fn transfers(self) -> Seq<Transfer> {
        transfer_order().filter(|transfer: Transfer| self.waits_for(transfer))
    }

    /// Whether the reader waits for a transfer.
    pub open spec fn waits_for(self, transfer: Transfer) -> bool {
        match transfer {
            Transfer::SnapshotLoad => self.snapshot_loading is Some,
            Transfer::DocumentLoad => self.document_loading,
            Transfer::MemoryLoad => self.memory_loading is Some,
            Transfer::SnapshotSave => self.snapshot_upload,
            Transfer::DocumentSave => self.document_upload,
            Transfer::MemorySave => self.memory_upload,
        }
    }

    /// A paper whose text is missing is no longer kept.
    #[verifier::opaque]
    pub open spec fn lost_document(self) -> ReaderView {
        (match self.opened_key {
            Some(key) => self.without_kept(key).save_library(),
            None => self,
        }).fail_detail("The interrupted offline copy was removed. Convert or keep it again."@)
    }

    /// A stored text has come.
    #[verifier::opaque]
    pub open spec fn loaded_document(self, html: Seq<u8>, readable: bool) -> ReaderView {
        (ReaderView { document_loading: false, ..self }).took_document(html, readable)
    }

    /// A stored text cannot be had.
    #[verifier::opaque]
    pub open spec fn unloaded_document(self, missing: bool) -> ReaderView {
        let next = ReaderView { document_loading: false, ..self };
        if missing {
            next.lost_document()
        } else {
            next.fail_detail("The offline text could not be read from storage."@)
        }
    }

    /// A stored reading memory cannot be had. If there is none, reading starts
    /// afresh.
    #[verifier::opaque]
    pub open spec fn unloaded_memory(self, missing: bool) -> ReaderView {
        let next = ReaderView { memory_loading: None, ..self };
        if missing {
            ReaderView { place: Some(PlaceView::Fresh), ..next }
        } else {
            next.troubled("Reading position and annotations could not be loaded."@)
        }
    }

    /// A text was saved.
    #[verifier::opaque]
    pub open spec fn saved_document(self) -> ReaderView {
        (ReaderView { document_upload: false, ..self }).kept_document()
    }

    /// A text could not be saved.
    #[verifier::opaque]
    pub open spec fn unsaved_document(self) -> ReaderView {
        (ReaderView { document_upload: false, document_transfer: None, ..self }).troubled(
            "The paper text could not be kept."@,
        )
    }

    /// A reading memory was saved; the one that waited is next.
    #[verifier::opaque]
    pub open spec fn saved_memory(self) -> ReaderView {
        let next = ReaderView {
            memory_upload: false,
            active_memory: None,
            pending_memory: None,
            ..self
        };
        match self.pending_memory {
            Some((name, bytes)) => next.start_memory_upload(name, bytes),
            None => next,
        }
    }

    /// A reading memory could not be saved; the latest waits to be saved again.
    #[verifier::opaque]
    pub open spec fn unsaved_memory(self, reason: Seq<char>) -> ReaderView {
        (ReaderView {
            memory_upload: false,
            active_memory: None,
            pending_memory: match self.pending_memory {
                Some(pending) => Some(pending),
                None => self.active_memory,
            },
            ..self
        }).troubled(unsaved_text(reason))
    }

    /// A transfer has ended well.
    #[verifier::opaque]
    pub open spec fn done(
        self,
        transfer: Transfer,
        bytes: Seq<u8>,
        json: Option<Value>,
        readable: bool,
    ) -> ReaderView {
        match transfer {
            Transfer::SnapshotLoad => self.took_stored_snapshot(json),
            Transfer::DocumentLoad => self.loaded_document(bytes, readable),
            Transfer::MemoryLoad => self.took_memory(bytes),
            Transfer::SnapshotSave => ReaderView { snapshot_upload: false, ..self },
            Transfer::DocumentSave => self.saved_document(),
            Transfer::MemorySave => self.saved_memory(),
        }
    }

    /// A transfer has failed.
    #[verifier::opaque]
    pub open spec fn failed(
        self,
        transfer: Transfer,
        missing: bool,
        reason: Seq<char>,
    ) -> ReaderView {
        match transfer {
            Transfer::SnapshotLoad => ReaderView { snapshot_loading: None, ..self },
            Transfer::DocumentLoad => self.unloaded_document(missing),
            Transfer::MemoryLoad => self.unloaded_memory(missing),
            Transfer::SnapshotSave => ReaderView { snapshot_upload: false, ..self },
            Transfer::DocumentSave => self.unsaved_document(),
            Transfer::MemorySave => self.unsaved_memory(reason),
        }
    }

    /// What an answer means for a transfer is taken, if the reader waits for
    /// the transfer.
    #[verifier::opaque]
    pub open spec fn took_report(self, report: ReportView) -> ReaderView {
        if self.waits_for(report.transfer) {
            match report.progress {
                ProgressView::Done { bytes, json, readable } => self.done(
                    report.transfer,
                    bytes,
                    json,
                    readable,
                ),
                ProgressView::Failed { missing, reason } => self.failed(
                    report.transfer,
                    missing,
                    reason,
                ),
                _ => self,
            }
        } else {
            self
        }
    }

    /// Whether an answer only moves a transfer on.
    pub open spec fn only_moves(self, report: ReportView) -> bool {
        self.waits_for(report.transfer) && report.progress is Moving
    }

    /// What an answer means for the transfers is taken one after the other, up
    /// to one that goes on. The answer then needs no more attention.
    pub open spec fn took_reports(self, reports: Seq<ReportView>) -> (ReaderView, bool)
        decreases reports.len(),
    {
        if reports.len() == 0 {
            (self, true)
        } else if self.only_moves(reports[0]) {
            (self, false)
        } else {
            self.took_report(reports[0]).took_reports(reports.drop_first())
        }
    }

    #[verifier::opaque]
    pub open spec fn loaded_user(self, value: Option<Seq<u8>>) -> ReaderView {
        (ReaderView {
            user_id: user_in(value),
            user_id_loaded: true,
            ..self
        }).begin_after_config()
    }

    #[verifier::opaque]
    pub open spec fn loaded_selection(self, value: Option<Seq<u8>>) -> ReaderView {
        (ReaderView {
            selected: match value {
                Some(bytes) => selection_in(bytes),
                None => None,
            },
            selection_loaded: true,
            ..self
        }).begin_after_config()
    }

    #[verifier::opaque]
    pub open spec fn loaded_library(self, value: Option<Seq<u8>>) -> ReaderView {
        (ReaderView {
            library: match value {
                Some(bytes) => library_in(bytes),
                None => Seq::empty(),
            },
            library_loaded: true,
            ..self
        }).reconcile_shelf()
    }

    #[verifier::opaque]
    pub open spec fn loaded_state(self, value: Option<Seq<u8>>) -> ReaderView {
        let state = match value {
            Some(bytes) => state_in(bytes),
            None => (Seq::empty(), None),
        };
        ReaderView { read_keys: state.0, last_opened: state.1, ..self }
    }

    #[verifier::opaque]
    pub open spec fn listed_shelf(self, names: Seq<Seq<char>>) -> ReaderView {
        (ReaderView {
            shelf_documents: Some(names.filter(is_document())),
            ..self
        }).reconcile_shelf()
    }

    /// A value or the list of the shelf has come.
    #[verifier::opaque]
    pub open spec fn took_stored(self, stored: StoredView) -> ReaderView {
        match stored {
            StoredView::Loaded { key, value } => if key == USER_ID_KEY@ {
                self.loaded_user(value)
            } else if key == SELECTED_KEY@ {
                self.loaded_selection(value)
            } else if key == LIBRARY_KEY@ {
                self.loaded_library(value)
            } else if key == STATE_KEY@ {
                self.loaded_state(value)
            } else {
                self
            },
            StoredView::Shelf(names) => self.listed_shelf(names),
            StoredView::Other => self,
        }
    }

    /// The storage has answered.
    #[verifier::opaque]
    pub open spec fn on_store(self, reports: Seq<ReportView>, stored: StoredView) -> ReaderView {
        let (next, open) = self.took_reports(reports);
        if open {
            next.took_stored(stored).shows()
        } else {
            next
        }
    }
}

/// Whether a name on the shelf is that of a paper's document.
fn names_document(name: &str) -> (found: bool)
    ensures
        found == is_document()(name@),
{
    let chars = chars_of(name);
    if !starts_with(&chars, DOCUMENT) {
        return false;
    }
    proof {
        reveal_strlit("document.");
    }
    let rest = copy_chars(&chars, 9, chars.len());
    assert(rest@ =~= name@.skip(DOCUMENT@.len() as int));
    valid_key(&text_of(&rest))
}

/// Keeps the names of documents.
fn keep_documents(names: &Vec<String>) -> (documents: Vec<String>)
    ensures
        seen(documents@) == seen(names@).filter(is_document()),
{
    let mut documents: Vec<String> = Vec::new();
    let ghost all = seen(names@);
    proof {
        reveal(Seq::filter);
        assert(seen(documents@) =~= all.take(0).filter(is_document()));
    }
    for i in 0..names.len()
        invariant
            all == seen(names@),
            seen(documents@) == all.take(i as int).filter(is_document()),
    {
        proof {
            assert(all.take(i + 1) =~= all.take(i as int).push(all[i as int]));
            all.take(i as int).lemma_filter_push(all[i as int], is_document());
        }
        if names_document(&names[i]) {
            let ghost before = documents@;
            documents.push(names[i].clone());
            assert(seen(documents@) =~= seen(before).push(names@[i as int]@));
        }
    }
    assert(all.take(names@.len() as int) =~= all);
    documents
}

/// Reads the user from a value.
fn read_user(value: &Option<Vec<u8>>) -> (user_id: Option<String>)
    ensures
        maybe(user_id) == user_in(maybe(*value)),
{
    match value {
        Some(bytes) => match utf8_text(bytes) {
            Some(text) => {
                let user_id = trim(text);
                if valid_user_id(&user_id) {
                    Some(user_id)
                } else {
                    None
                }
            },
            None => None,
        },
        None => None,
    }
}

impl ReadingList {
    /// Whether the reader waits for a transfer.
    pub fn waits_for(&self, transfer: Transfer) -> (waits: bool)
        ensures
            waits == self@.waits_for(transfer),
    {
        match transfer {
            Transfer::SnapshotLoad => self.snapshot_loading.is_some(),
            Transfer::DocumentLoad => self.document_loading,
            Transfer::MemoryLoad => self.memory_loading.is_some(),
            Transfer::SnapshotSave => self.snapshot_upload,
            Transfer::DocumentSave => self.document_upload,
            Transfer::MemorySave => self.memory_upload,
        }
    }

    /// The transfers that the reader waits for, in the order in which an answer
    /// is to be offered to them.
    pub fn transfers(&self) -> (transfers: Vec<Transfer>)
        ensures
            transfers@ == self@.transfers(),
    {
        let mut transfers: Vec<Transfer> = Vec::new();
        let ghost wanted = |transfer: Transfer| self@.waits_for(transfer);
        let all = vec![
            Transfer::SnapshotLoad,
            Transfer::DocumentLoad,
            Transfer::MemoryLoad,
            Transfer::SnapshotSave,
            Transfer::DocumentSave,
            Transfer::MemorySave,
        ];
        assert(all@ =~= transfer_order());
        assert(transfers@ =~= all@.take(0).filter(wanted)) by {
            reveal(Seq::filter);
        }
        for i in 0..all.len()
            invariant
                wanted == (|transfer: Transfer| self@.waits_for(transfer)),
                transfers@ == all@.take(i as int).filter(wanted),
        {
            proof {
                assert(all@.take(i + 1) =~= all@.take(i as int).push(all@[i as int]));
                all@.take(i as int).lemma_filter_push(all@[i as int], wanted);
            }
            if self.waits_for(all[i]) {
                transfers.push(all[i]);
            }
        }
        assert(all@.take(all@.len() as int) =~= all@);
        transfers
    }

    /// Takes that the open paper's text is missing.
    fn lost_document(&mut self)
        ensures
            final(self)@ == old(self)@.lost_document(),
    {
        reveal(ReaderView::lost_document);
        if let Some(key) = self.opened() {
            self.drop_kept(&key);
            self.save_library();
        }
        self.fail_detail("The interrupted offline copy was removed. Convert or keep it again.");
    }

    /// Takes a stored text.
    fn loaded_document(&mut self, html: Vec<u8>, readable: bool)
        ensures
            final(self)@ == old(self)@.loaded_document(html@, readable),
    {
        reveal(ReaderView::loaded_document);
        self.document_loading = false;
        self.took_document(html, readable);
    }

    /// Takes that a stored text cannot be had.
    fn unloaded_document(&mut self, missing: bool)
        ensures
            final(self)@ == old(self)@.unloaded_document(missing),
    {
        reveal(ReaderView::unloaded_document);
        self.document_loading = false;
        if missing {
            self.lost_document();
        } else {
            self.fail_detail("The offline text could not be read from storage.");
        }
    }

    /// Takes that a stored reading memory cannot be had.
    fn unloaded_memory(&mut self, missing: bool)
        ensures
            final(self)@ == old(self)@.unloaded_memory(missing),
    {
        reveal(ReaderView::unloaded_memory);
        self.memory_loading = None;
        if missing {
            self.place = Some(Place::Fresh);
        } else {
            self.complain("Reading position and annotations could not be loaded.");
        }
    }

    /// Takes that a text was saved.
    fn saved_document(&mut self)
        ensures
            final(self)@ == old(self)@.saved_document(),
    {
        reveal(ReaderView::saved_document);
        self.document_upload = false;
        self.kept_document();
    }

    /// Takes that a text could not be saved.
    fn unsaved_document(&mut self)
        ensures
            final(self)@ == old(self)@.unsaved_document(),
    {
        reveal(ReaderView::unsaved_document);
        self.document_upload = false;
        self.document_transfer = None;
        self.complain("The paper text could not be kept.");
    }

    /// Takes that a reading memory was saved.
    fn saved_memory(&mut self)
        ensures
            final(self)@ == old(self)@.saved_memory(),
    {
        reveal(ReaderView::saved_memory);
        self.memory_upload = false;
        self.active_memory = None;
        if let Some((name, bytes)) = self.pending_memory.take() {
            self.start_memory_upload(name, bytes);
        }
    }

    /// Takes that a reading memory could not be saved.
    fn unsaved_memory(&mut self, reason: &str)
        ensures
            final(self)@ == old(self)@.unsaved_memory(reason@),
    {
        reveal(ReaderView::unsaved_memory);
        self.memory_upload = false;
        if self.pending_memory.is_none() {
            self.pending_memory = self.active_memory.take();
        } else {
            self.active_memory = None;
        }
        let mut message = "Reading position and annotations are not saved (".to_owned();
        message.append(reason);
        message.append("). Use Retry position below.");
        self.complain(&message);
    }

    /// Takes that a transfer has ended well.
    fn done(&mut self, transfer: Transfer, bytes: Vec<u8>, json: &Option<Value>, readable: bool)
        ensures
            final(self)@ == old(self)@.done(transfer, bytes@, *json, readable),
    {
        reveal(ReaderView::done);
        match transfer {
            Transfer::SnapshotLoad => self.took_stored_snapshot(json),
            Transfer::DocumentLoad => self.loaded_document(bytes, readable),
            Transfer::MemoryLoad => self.took_memory(bytes),
            Transfer::SnapshotSave => {
                self.snapshot_upload = false;
            },
            Transfer::DocumentSave => self.saved_document(),
            Transfer::MemorySave => self.saved_memory(),
        }
    }

    /// Takes that a transfer has failed.
    fn failed(&mut self, transfer: Transfer, missing: bool, reason: &str)
        ensures
            final(self)@ == old(self)@.failed(transfer, missing, reason@),
    {
        reveal(ReaderView::failed);
        match transfer {
            Transfer::SnapshotLoad => {
                self.snapshot_loading = None;
            },
            Transfer::DocumentLoad => self.unloaded_document(missing),
            Transfer::MemoryLoad => self.unloaded_memory(missing),
            Transfer::SnapshotSave => {
                self.snapshot_upload = false;
            },
            Transfer::DocumentSave => self.unsaved_document(),
            Transfer::MemorySave => self.unsaved_memory(reason),
        }
    }

    /// Takes what an answer means for a transfer.
    fn took_report(&mut self, report: Report)
        ensures
            final(self)@ == old(self)@.took_report(report@),
    {
        reveal(ReaderView::took_report);
        if !self.waits_for(report.transfer) {
            return;
        }
        match report.progress {
            Progress::Done { bytes, json, readable } => {
                self.done(report.transfer, bytes, &json, readable);
            },
            Progress::Failed { missing, reason } => {
                self.failed(report.transfer, missing, &reason);
            },
            _ => {},
        }
    }

    /// Takes what an answer means for the transfers; tells whether the answer
    /// needs more attention.
    fn took_reports(&mut self, reports: Vec<Report>) -> (open: bool)
        ensures
            (final(self)@, open) == old(self)@.took_reports(seen(reports@)),
    {
        let ghost all = seen(reports@);
        let mut rest = reports;
        while rest.len() > 0
            invariant
                self@.took_reports(seen(rest@)) == old(self)@.took_reports(all),
                all == seen(reports@),
            decreases rest@.len(),
        {
            let ghost before = rest@;
            let report = rest.remove(0);
            proof {
                assert(seen(before)[0] == report@);
                assert(seen(rest@) =~= seen(before).drop_first());
            }
            let moves = match &report.progress {
                Progress::Moving => self.waits_for(report.transfer),
                _ => false,
            };
            if moves {
                return false;
            }
            self.took_report(report);
        }
        true
    }

    fn loaded_user(&mut self, value: &Option<Vec<u8>>)
        ensures
            final(self)@ == old(self)@.loaded_user(maybe(*value)),
    {
        reveal(ReaderView::loaded_user);
        self.user_id = read_user(value);
        self.user_id_loaded = true;
        self.begin_after_config();
    }

    fn loaded_selection(&mut self, value: &Option<Vec<u8>>)
        ensures
            final(self)@ == old(self)@.loaded_selection(maybe(*value)),
    {
        reveal(ReaderView::loaded_selection);
        self.selected = match value {
            Some(bytes) => decode_selection(bytes),
            None => None,
        };
        self.selection_loaded = true;
        self.begin_after_config();
    }

    fn loaded_library(&mut self, value: &Option<Vec<u8>>)
        ensures
            final(self)@ == old(self)@.loaded_library(maybe(*value)),
    {
        reveal(ReaderView::loaded_library);
        let library = match value {
            Some(bytes) => decode_library(bytes),
            None => Vec::new(),
        };
        assert(value is None ==> seen(library@) =~= Seq::<KeptView>::empty());
        self.library = library;
        self.library_loaded = true;
        self.reconcile_shelf();
    }

    fn loaded_state(&mut self, value: &Option<Vec<u8>>)
        ensures
            final(self)@ == old(self)@.loaded_state(maybe(*value)),
    {
        reveal(ReaderView::loaded_state);
        let (read_keys, last_opened) = match value {
            Some(bytes) => decode_reading_state(bytes),
            None => (Vec::new(), None),
        };
        assert(value is None ==> seen(read_keys@) =~= Seq::<Seq<char>>::empty());
        self.read_keys = read_keys;
        self.last_opened = last_opened;
    }

    fn listed_shelf(&mut self, names: &Vec<String>)
        ensures
            final(self)@ == old(self)@.listed_shelf(seen(names@)),
    {
        reveal(ReaderView::listed_shelf);
        self.shelf_documents = Some(keep_documents(names));
        self.reconcile_shelf();
    }

    /// Takes a value or the list of the shelf.
    fn took_stored(&mut self, stored: Stored)
        ensures
            final(self)@ == old(self)@.took_stored(stored@),
    {
        reveal(ReaderView::took_stored);
        match stored {
            Stored::Loaded { key, value } => {
                if same_text(&key, USER_ID_KEY) {
                    self.loaded_user(&value);
                } else if same_text(&key, SELECTED_KEY) {
                    self.loaded_selection(&value);
                } else if same_text(&key, LIBRARY_KEY) {
                    self.loaded_library(&value);
                } else if same_text(&key, STATE_KEY) {
                    self.loaded_state(&value);
                }
            },
            Stored::Shelf(names) => self.listed_shelf(&names),
            Stored::Other => {},
        }
    }

    /// Takes an answer of the storage, with what it means for each transfer
    /// that the reader waits for.
    pub fn on_store(&mut self, reports: Vec<Report>, stored: Stored)
        ensures
            final(self)@ == old(self)@.on_store(seen(reports@), stored@),
    {
        reveal(ReaderView::on_store);
        if self.took_reports(reports) {
            self.took_stored(stored);
            self.show();
        }
    }
}

} // verus!

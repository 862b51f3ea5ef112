//! The papers that are kept offline, and which papers were read.
use vstd::prelude::*;
use vstd::string::*;
use vstd::utf8::*;

use crate::keys::{document_blob, document_name, memory_blob, memory_name};
use crate::model::MAX_ITEMS;
use crate::reader::{ReaderView, ReadingList};
use crate::records::{
    encode_library, encode_reading_state, library_text, state_text, Kept, KeptView, MAX_KEPT,
};
use crate::text::{compact, compacted, holds_text, same_text, seen};
use crate::work::{Command, CommandView, Transfer};

verus! {

/// Where the list of kept papers is kept.
pub const LIBRARY_KEY: &'static str = "library";

/// Where it is kept what was read.
pub const STATE_KEY: &'static str = "reading-state";

/// Whether a paper is kept.
pub open spec fn keeps(library: Seq<KeptView>, key: Seq<char>) -> bool {
    exists|i: int| 0 <= i < library.len() && #[trigger] library[i].key == key
}

/// Whether a kept paper has another key.
pub open spec fn keyed_otherwise(key: Seq<char>) -> spec_fn(KeptView) -> bool {
    |kept: KeptView| kept.key != key
}

pub open spec fn unlike(text: Seq<char>) -> spec_fn(Seq<char>) -> bool {
    |other: Seq<char>| other != text
}

/// Whether a document on the shelf belongs to no kept paper.
pub open spec fn orphaned(library: Seq<KeptView>) -> spec_fn(Seq<char>) -> bool {
    |document: Seq<char>|
        !exists|i: int|
            0 <= i < library.len() && document_name(#[trigger] library[i].key) == document
}

/// Whether a kept paper's document is on the shelf.
pub open spec fn shelved(documents: Seq<Seq<char>>) -> spec_fn(KeptView) -> bool {
    |kept: KeptView| documents.contains(document_name(kept.key))
}

pub open spec fn removing() -> spec_fn(Seq<char>) -> CommandView {
    |name: Seq<char>| CommandView::Remove { name }
}

/// A length as a number of bytes, or the most that can be written.
pub open spec fn clamped(length: nat) -> u32 {
    if length <= u32::MAX {
        length as u32
    } else {
        u32::MAX
    }
}

/// The keys with one more, unless it is there; the first makes room for it.
pub open spec fn with_read(read_keys: Seq<Seq<char>>, key: Seq<char>) -> Seq<Seq<char>> {
    if read_keys.contains(key) {
        read_keys
    } else if read_keys.len() >= MAX_ITEMS {
        read_keys.drop_first().push(key)
    } else {
        read_keys.push(key)
    }
}

impl ReaderView {
    pub open spec fn is_kept(self, key: Seq<char>) -> bool {
        keeps(self.library, key)
    }

    pub open spec fn save_library(self) -> ReaderView {
        self.emits(
            CommandView::Save {
                key: LIBRARY_KEY@,
                value: encode_utf8(library_text(self.library)),
            },
        )
    }

    pub open spec fn save_state(self) -> ReaderView {
        self.emits(
            CommandView::Save {
                key: STATE_KEY@,
                value: encode_utf8(state_text(self.read_keys, self.last_opened)),
            },
        )
    }

    /// The open paper's text is saved, if it is not kept already, no other is
    /// being saved, there is room and the text is there.
    #[verifier::opaque]
    pub open spec fn keep_document(self) -> ReaderView {
        match self.opened_key {
            Some(key) => if self.is_kept(key) {
                self
            } else if self.document_upload {
                self.troubled("The offline copy is still being saved."@)
            } else if self.library.len() >= MAX_KEPT {
                self.troubled("Offline library full. Remove a paper before keeping another."@)
            } else {
                match self.fetched_html {
                    Some(html) => (ReaderView {
                        document_upload: true,
                        document_transfer: Some(
                            KeptView {
                                key,
                                title: compacted(self.opened_title, 160),
                                creators: compacted(self.opened_creators, 256),
                                bytes: clamped(html.len()),
                            },
                        ),
                        ..self
                    }).emits(
                        CommandView::Upload {
                            transfer: Transfer::DocumentSave,
                            name: document_name(key),
                            bytes: html,
                        },
                    ),
                    None => self.troubled("Open the full text before keeping it offline."@),
                }
            },
            None => self,
        }
    }

    /// The library without a paper.
    pub open spec fn without_kept(self, key: Seq<char>) -> ReaderView {
        ReaderView { library: self.library.filter(keyed_otherwise(key)), ..self }
    }

    /// The open paper is no longer kept, nor what was remembered of it.
    #[verifier::opaque]
    pub open spec fn discard_document(self) -> ReaderView {
        match self.opened_key {
            Some(key) => (ReaderView {
                shelf_documents: match self.shelf_documents {
                    Some(documents) => Some(documents.filter(unlike(document_name(key)))),
                    None => None,
                },
                ..self.without_kept(key)
            }).emits(CommandView::Remove { name: document_name(key) }).emits(
                CommandView::Remove { name: memory_name(key) },
            ).save_library(),
            None => self,
        }
    }

    /// Once both are known, the library and the shelf are made to agree:
    /// documents of no kept paper are removed, and papers without a document
    /// are no longer kept.
    #[verifier::opaque]
    pub open spec fn reconcile_shelf(self) -> ReaderView {
        match self.shelf_documents {
            Some(documents) => if self.library_loaded {
                let library = self.library.filter(shelved(documents));
                let next = ReaderView {
                    library,
                    outbox: self.outbox + documents.filter(orphaned(self.library)).map_values(
                        removing(),
                    ),
                    ..self
                };
                if library.len() != self.library.len() {
                    next.save_library()
                } else {
                    next
                }
            } else {
                self
            },
            None => self,
        }
    }

    /// A saved document's paper is kept, before the others.
    #[verifier::opaque]
    pub open spec fn kept_document(self) -> ReaderView {
        match self.document_transfer {
            Some(kept) => (ReaderView {
                document_transfer: None,
                library: seq![kept] + self.library,
                shelf_documents: match self.shelf_documents {
                    Some(documents) => if documents.contains(document_name(kept.key)) {
                        Some(documents)
                    } else {
                        Some(documents.push(document_name(kept.key)))
                    },
                    None => None,
                },
                ..self
            }).save_library(),
            None => self,
        }
    }

    /// A paper was opened and so counts as read; the paper read longest ago
    /// makes room for it.
    #[verifier::opaque]
    pub open spec fn mark_opened(self, key: Seq<char>) -> ReaderView {
        (ReaderView {
            last_opened: Some(key),
            read_keys: with_read(self.read_keys, key),
            ..self
        }).save_state()
    }

    /// The open paper changes between read and not read.
    #[verifier::opaque]
    pub open spec fn toggle_read(self) -> ReaderView {
        match self.opened_key {
            Some(key) => (ReaderView {
                read_keys: if self.read_keys.contains(key) {
                    self.read_keys.filter(unlike(key))
                } else {
                    self.read_keys.push(key)
                },
                ..self
            }).save_state(),
            None => self,
        }
    }
}

/// Keeps the texts that differ from one.
fn keep_unlike(texts: &Vec<String>, unwanted: &str) -> (kept: Vec<String>)
    ensures
        seen(kept@) == seen(texts@).filter(unlike(unwanted@)),
{
    let mut kept: Vec<String> = Vec::new();
    let ghost all = seen(texts@);
    proof {
        reveal(Seq::filter);
        assert(seen(kept@) =~= all.take(0).filter(unlike(unwanted@)));
    }
    for i in 0..texts.len()
        invariant
            all == seen(texts@),
            seen(kept@) == all.take(i as int).filter(unlike(unwanted@)),
    {
        proof {
            assert(all.take(i + 1) =~= all.take(i as int).push(all[i as int]));
            all.take(i as int).lemma_filter_push(all[i as int], unlike(unwanted@));
        }
        if !same_text(&texts[i], unwanted) {
            let ghost before = kept@;
            kept.push(texts[i].clone());
            assert(seen(kept@) =~= seen(before).push(texts@[i as int]@));
        }
    }
    assert(all.take(texts@.len() as int) =~= all);
    kept
}

/// Keeps the papers with other keys.
fn keep_others(library: &Vec<Kept>, key: &str) -> (rest: Vec<Kept>)
    ensures
        seen(rest@) == seen(library@).filter(keyed_otherwise(key@)),
{
    let mut rest: Vec<Kept> = Vec::new();
    let ghost all = seen(library@);
    proof {
        reveal(Seq::filter);
        assert(seen(rest@) =~= all.take(0).filter(keyed_otherwise(key@)));
    }
    for i in 0..library.len()
        invariant
            all == seen(library@),
            seen(rest@) == all.take(i as int).filter(keyed_otherwise(key@)),
    {
        proof {
            assert(all.take(i + 1) =~= all.take(i as int).push(all[i as int]));
            all.take(i as int).lemma_filter_push(all[i as int], keyed_otherwise(key@));
        }
        if !same_text(&library[i].key, key) {
            let ghost before = rest@;
            rest.push(library[i].clone());
            assert(seen(rest@) =~= seen(before).push(library@[i as int]@));
        }
    }
    assert(all.take(library@.len() as int) =~= all);
    rest
}

/// Keeps the papers whose documents are on the shelf.
fn keep_shelved(library: &Vec<Kept>, documents: &Vec<String>) -> (rest: Vec<Kept>)
    ensures
        seen(rest@) == seen(library@).filter(shelved(seen(documents@))),
{
    let mut rest: Vec<Kept> = Vec::new();
    let ghost all = seen(library@);
    let ghost wanted = shelved(seen(documents@));
    proof {
        reveal(Seq::filter);
        assert(seen(rest@) =~= all.take(0).filter(wanted));
    }
    for i in 0..library.len()
        invariant
            all == seen(library@),
            wanted == shelved(seen(documents@)),
            seen(rest@) == all.take(i as int).filter(wanted),
    {
        proof {
            assert(all.take(i + 1) =~= all.take(i as int).push(all[i as int]));
            all.take(i as int).lemma_filter_push(all[i as int], wanted);
        }
        let name = document_blob(&library[i].key);
        if holds_text(documents, &name) {
            let ghost before = rest@;
            rest.push(library[i].clone());
            assert(seen(rest@) =~= seen(before).push(library@[i as int]@));
        }
    }
    assert(all.take(library@.len() as int) =~= all);
    rest
}

/// Whether a document belongs to none of the kept papers.
fn is_orphan(library: &Vec<Kept>, document: &str) -> (found: bool)
    ensures
        found == orphaned(seen(library@))(document@),
{
    let ghost all = seen(library@);
    for i in 0..library.len()
        invariant
            all == seen(library@),
            forall|j: int| 0 <= j < i ==> document_name(#[trigger] all[j].key) != document@,
    {
        let name = document_blob(&library[i].key);
        assert(all[i as int].key == library@[i as int].key@);
        if same_text(&name, document) {
            return false;
        }
    }
    true
}

/// Adds a key to those of the papers that were read.
fn add_read(read_keys: &mut Vec<String>, key: &str)
    ensures
        seen(final(read_keys)@) == with_read(seen(old(read_keys)@), key@),
{
    if !holds_text(read_keys, key) {
        if read_keys.len() >= MAX_ITEMS {
            let ghost before = read_keys@;
            read_keys.remove(0);
            assert(seen(read_keys@) =~= seen(before).drop_first());
        }
        let ghost before = read_keys@;
        read_keys.push(key.to_owned());
        assert(seen(read_keys@) =~= seen(before).push(key@));
    }
}

impl ReadingList {
    /// Whether a paper is kept.
    pub fn is_kept(&self, key: &str) -> (found: bool)
        ensures
            found == self@.is_kept(key@),
    {
        let ghost all = seen(self.library@);
        for i in 0..self.library.len()
            invariant
                all == seen(self.library@),
                forall|j: int| 0 <= j < i ==> #[trigger] all[j].key != key@,
        {
            assert(all[i as int].key == self.library@[i as int].key@);
            if same_text(&self.library[i].key, key) {
                return true;
            }
        }
        false
    }

    /// Stores the list of kept papers.
    pub fn save_library(&mut self)
        ensures
            final(self)@ == old(self)@.save_library(),
    {
        let value = encode_library(&self.library);
        self.emit(Command::Save { key: LIBRARY_KEY, value });
    }

    /// Stores what was read.
    pub fn save_state(&mut self)
        ensures
            final(self)@ == old(self)@.save_state(),
    {
        let value = encode_reading_state(&self.read_keys, self.last_opened.as_ref());
        self.emit(Command::Save { key: STATE_KEY, value });
    }

    /// Keeps the text of the open paper.
    pub fn keep_document(&mut self)
        ensures
            final(self)@ == old(self)@.keep_document(),
    {
        reveal(ReaderView::keep_document);
        let key = match self.opened() {
            Some(key) => key,
            None => {
                return;
            },
        };
        if self.is_kept(&key) {
            return;
        }
        if self.document_upload {
            self.complain("The offline copy is still being saved.");
            return;
        }
        if self.library.len() >= MAX_KEPT {
            self.complain("Offline library full. Remove a paper before keeping another.");
            return;
        }
        match self.fetched_html.clone() {
            Some(html) => {
                let length: usize = html.len();
                let bytes: u32 = if length <= u32::MAX as usize {
                    length as u32
                } else {
                    u32::MAX
                };
                let name = document_blob(&key);
                self.emit(
                    Command::Upload { transfer: Transfer::DocumentSave, name, bytes: html },
                );
                self.document_upload = true;
                self.document_transfer = Some(
                    Kept {
                        key,
                        title: compact(&self.opened_title, 160),
                        creators: compact(&self.opened_creators, 256),
                        bytes,
                    },
                );
            },
            None => {
                self.complain("Open the full text before keeping it offline.");
            },
        }
    }

    /// Takes a paper out of the library.
    pub fn drop_kept(&mut self, key: &str)
        ensures
            final(self)@ == old(self)@.without_kept(key@),
    {
        let library = keep_others(&self.library, key);
        self.library = library;
    }

    /// Stops keeping the open paper.
    pub fn discard_document(&mut self)
        ensures
            final(self)@ == old(self)@.discard_document(),
    {
        reveal(ReaderView::discard_document);
        let key = match self.opened() {
            Some(key) => key,
            None => {
                return;
            },
        };
        self.drop_kept(&key);
        let blob = document_blob(&key);
        let documents = match &self.shelf_documents {
            Some(documents) => Some(keep_unlike(documents, &blob)),
            None => None,
        };
        self.shelf_documents = documents;
        self.emit(Command::Remove { name: blob });
        let memory = memory_blob(&key);
        self.emit(Command::Remove { name: memory });
        self.save_library();
    }

    /// Makes the library and the shelf agree once both are known.
    pub fn reconcile_shelf(&mut self)
        ensures
            final(self)@ == old(self)@.reconcile_shelf(),
    {
        reveal(ReaderView::reconcile_shelf);
        if !self.library_loaded {
            return;
        }
        let documents = match self.shelf_documents.clone() {
            Some(documents) => documents,
            None => {
                return;
            },
        };
        assert(seen(documents@) =~= self@.shelf_documents->0);
        let ghost all = seen(documents@);
        let ghost orphans = orphaned(self@.library);
        proof {
            reveal(Seq::filter);
            assert(self@.outbox =~= old(self)@.outbox + all.take(0).filter(orphans).map_values(
                removing(),
            ));
        }
        for i in 0..documents.len()
            invariant
                all == seen(documents@),
                orphans == orphaned(self@.library),
                self@ == (ReaderView {
                    outbox: old(self)@.outbox + all.take(i as int).filter(orphans).map_values(
                        removing(),
                    ),
                    ..old(self)@
                }),
        {
            let ghost done = all.take(i as int).filter(orphans);
            proof {
                assert(all.take(i + 1) =~= all.take(i as int).push(all[i as int]));
                all.take(i as int).lemma_filter_push(all[i as int], orphans);
            }
            if is_orphan(&self.library, &documents[i]) {
                let name = documents[i].clone();
                self.emit(Command::Remove { name });
                assert(done.push(all[i as int]).map_values(removing()) =~= done.map_values(
                    removing(),
                ).push(CommandView::Remove { name: all[i as int] }));
                assert(self@.outbox =~= old(self)@.outbox + done.push(all[i as int]).map_values(
                    removing(),
                ));
            }
        }
        assert(all.take(documents@.len() as int) =~= all);
        let before: usize = self.library.len();
        let library = keep_shelved(&self.library, &documents);
        self.library = library;
        if self.library.len() != before {
            self.save_library();
        }
    }

    /// Adds a paper whose text was saved to the library.
    pub fn kept_document(&mut self)
        ensures
            final(self)@ == old(self)@.kept_document(),
    {
        reveal(ReaderView::kept_document);
        let kept = match self.document_transfer.take() {
            Some(kept) => kept,
            None => {
                return;
            },
        };
        let blob = document_blob(&kept.key);
        let documents = match self.shelf_documents.take() {
            Some(documents) => {
                let mut documents = documents;
                if !holds_text(&documents, &blob) {
                    let ghost before = documents@;
                    let ghost name = blob@;
                    documents.push(blob);
                    assert(seen(documents@) =~= seen(before).push(name));
                }
                Some(documents)
            },
            None => None,
        };
        self.shelf_documents = documents;
        let ghost before = self.library@;
        let ghost first = kept@;
        self.library.insert(0, kept);
        assert(seen(self.library@) =~= seq![first] + seen(before));
        self.save_library();
    }

    /// Remembers that a paper was opened.
    pub fn mark_opened(&mut self, key: &str)
        ensures
            final(self)@ == old(self)@.mark_opened(key@),
    {
        reveal(ReaderView::mark_opened);
        self.last_opened = Some(key.to_owned());
        add_read(&mut self.read_keys, key);
        self.save_state();
    }

    /// Changes the open paper between read and not read.
    pub fn toggle_read(&mut self)
        ensures
            final(self)@ == old(self)@.toggle_read(),
    {
        reveal(ReaderView::toggle_read);
        let key = match self.opened() {
            Some(key) => key,
            None => {
                return;
            },
        };
        if holds_text(&self.read_keys, &key) {
            let read_keys = keep_unlike(&self.read_keys, &key);
            self.read_keys = read_keys;
        } else {
            let ghost before = self.read_keys@;
            let ghost added = key@;
            self.read_keys.push(key);
            assert(seen(self.read_keys@) =~= seen(before).push(added));
        }
        self.save_state();
    }
}

} // verus!

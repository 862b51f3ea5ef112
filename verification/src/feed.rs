//! Collections, their papers, and searching them.
use vstd::prelude::*;
use vstd::string::*;
use vstd::utf8::*;

use crate::cache::snapshot_in;
use crate::json::Value;
use crate::keys::{snapshot_blob, snapshot_name};
use crate::model::{Paper, PaperView, Snapshot, SnapshotView, MAX_ITEMS};
use crate::number::{decimal, decimal_text};
use crate::order::{newest_first, sort_newest};
use crate::reader::{
    Pane, ReaderView, ReadingList, LIST_BYTES, SNAPSHOT_BYTES, ZOTERO_RESPONSE_BYTES,
};
use crate::records::{encode_selection, selection_text};
use crate::text::{prefix, same_text, seen, trim, trimmed};
use crate::work::{Awaiting, Command, CommandView, Transfer};
use crate::zotero::{papers_in, zotero_items};

verus! {

/// Where the chosen collection is kept.
pub const SELECTED_KEY: &'static str = "selected";

/// The papers of one page of a collection.
pub const ITEMS_PER_PAGE: usize = 25;

/// The path of one page of a collection. Past the most papers that are shown,
/// one paper tells whether there are more.
pub open spec fn page_path(collection: Seq<char>, start: usize) -> Seq<char> {
    let limit: nat = if start >= MAX_ITEMS {
        1
    } else {
        ITEMS_PER_PAGE as nat
    };
    "/collections/"@ + collection + "/items/top?format=json&itemType=-attachment&limit="@ + decimal(
        limit,
    ) + "&start="@ + decimal(start as nat) + "&sort=dateAdded&direction=desc"@
}

/// The highest version of the papers.
pub open spec fn newest_version(papers: Seq<PaperView>) -> u32
    decreases papers.len(),
{
    if papers.len() == 0 {
        0
    } else {
        let before = newest_version(papers.drop_last());
        if papers.last().version > before {
            papers.last().version
        } else {
            before
        }
    }
}

/// The positions of all papers.
pub open spec fn all_positions(count: nat) -> Seq<usize> {
    Seq::new(count, |i: int| i as usize)
}

/// The positions of the papers that a search finds, in order.
pub open spec fn found_positions(papers: Seq<PaperView>, phrase: Seq<char>) -> Seq<usize>
    decreases papers.len(),
{
    if papers.len() == 0 {
        Seq::empty()
    } else {
        let before = found_positions(papers.drop_last(), phrase);
        if papers.last().matches_phrase(phrase) {
            before.push((papers.len() - 1) as usize)
        } else {
            before
        }
    }
}

/// The papers on a page of a collection, if it can be read.
pub open spec fn page_in(json: Option<Value>) -> Option<Seq<PaperView>> {
    match json {
        Some(root) => papers_in(&root),
        None => None,
    }
}

/// The snapshot of what has come.
pub open spec fn snapshot_of(
    collection_key: Seq<char>,
    papers: Seq<PaperView>,
    truncated: bool,
) -> SnapshotView {
    SnapshotView {
        collection_key,
        revision: decimal(newest_version(papers) as nat),
        total: if truncated && papers.len() < usize::MAX {
            (papers.len() + 1) as usize
        } else {
            papers.len() as usize
        },
        truncated,
        papers: newest_first(papers),
    }
}

impl ReaderView {
    #[verifier::opaque]
    pub open spec fn fetch_collections(self) -> ReaderView {
        (ReaderView { trouble: None, pane: Pane::Collections, ..self }).fetch_zotero(
            "/collections?format=json&limit=100&sort=title&direction=asc"@,
            LIST_BYTES,
            Awaiting::Collections,
        )
    }

    #[verifier::opaque]
    pub open spec fn fetch_snapshot_page(self, collection: Seq<char>, start: usize) -> ReaderView {
        self.fetch_zotero(
            page_path(collection, start),
            ZOTERO_RESPONSE_BYTES,
            Awaiting::SnapshotPage(start),
        )
    }

    #[verifier::opaque]
    pub open spec fn refresh(self) -> ReaderView {
        match self.selected {
            Some(collection) => (ReaderView {
                trouble: None,
                pane: Pane::Feed,
                pending_snapshot: Seq::empty(),
                ..self
            }).fetch_snapshot_page(collection.key, 0),
            None => self.fetch_collections(),
        }
    }

    #[verifier::opaque]
    pub open spec fn start_snapshot_load(self) -> ReaderView {
        match (self.snapshot_loading, self.selected) {
            (None, Some(collection)) => (ReaderView {
                snapshot_loading: Some(collection.key),
                ..self
            }).emits(
                CommandView::Download {
                    transfer: Transfer::SnapshotLoad,
                    name: snapshot_name(collection.key),
                    at_most: Some(SNAPSHOT_BYTES),
                },
            ),
            _ => self,
        }
    }

    /// What follows once the user and the collection are known or missing.
    #[verifier::opaque]
    pub open spec fn begin_after_config(self) -> ReaderView {
        if !(self.user_id_loaded && self.selection_loaded) {
            self
        } else if self.user_id is None {
            ReaderView { pane: Pane::Setup, ..self }
        } else if self.selected is Some {
            (ReaderView { pane: Pane::Feed, ..self }).start_snapshot_load().refresh()
        } else {
            self.fetch_collections()
        }
    }

    #[verifier::opaque]
    pub open spec fn select_collection(self, index: nat) -> ReaderView {
        if index < self.collections.len() {
            let collection = self.collections[index as int];
            (ReaderView {
                selected: Some(collection),
                snapshot: SnapshotView::blank(),
                fresh_snapshot: false,
                filtered: Seq::empty(),
                snapshot_loading: None,
                ..self
            }.emits(
                CommandView::Save {
                    key: SELECTED_KEY@,
                    value: encode_utf8(selection_text(collection)),
                },
            )).start_snapshot_load().refresh()
        } else {
            self
        }
    }

    #[verifier::opaque]
    pub open spec fn save_snapshot(self, snapshot: SnapshotView) -> ReaderView {
        match self.selected {
            Some(collection) => (ReaderView { snapshot_upload: true, ..self }).emits(
                CommandView::UploadSnapshot { name: snapshot_name(collection.key), snapshot },
            ),
            None => self,
        }
    }

    /// The snapshot is shown, all of it, from the start.
    pub open spec fn apply_snapshot(self, snapshot: SnapshotView) -> ReaderView {
        ReaderView {
            snapshot,
            filtered: all_positions(snapshot.papers.len()),
            list_page: 0,
            ..self
        }
    }

    #[verifier::opaque]
    pub open spec fn finish_snapshot(self, truncated: bool) -> ReaderView {
        match self.selected {
            Some(collection) => {
                let snapshot = snapshot_of(collection.key, self.pending_snapshot, truncated);
                (ReaderView {
                    pending_snapshot: Seq::empty(),
                    fresh_snapshot: true,
                    ..self
                }).apply_snapshot(snapshot).save_snapshot(snapshot)
            },
            None => self,
        }
    }

    /// How many papers still fit.
    pub open spec fn room(self) -> nat {
        if self.pending_snapshot.len() >= MAX_ITEMS {
            0
        } else {
            (MAX_ITEMS - self.pending_snapshot.len()) as nat
        }
    }

    /// The reader with the papers of a page, as many as fit.
    pub open spec fn with_page(self, page: Seq<PaperView>) -> ReaderView {
        ReaderView {
            pending_snapshot: self.pending_snapshot + prefix(page, self.room()),
            ..self
        }
    }

    #[verifier::opaque]
    pub open spec fn took_snapshot_page(
        self,
        start: usize,
        page: Option<Seq<PaperView>>,
    ) -> ReaderView {
        match page {
            None => self.troubled("Zotero returned an unreadable item page."@),
            Some(page) => if start >= MAX_ITEMS {
                self.finish_snapshot(page.len() > 0)
            } else {
                let next = self.with_page(page);
                let count = next.pending_snapshot.len();
                if page.len() == ITEMS_PER_PAGE && count <= MAX_ITEMS {
                    match self.selected {
                        Some(collection) => next.fetch_snapshot_page(
                            collection.key,
                            if count < MAX_ITEMS {
                                (start + ITEMS_PER_PAGE) as usize
                            } else {
                                MAX_ITEMS
                            },
                        ),
                        None => next,
                    }
                } else {
                    next.finish_snapshot(false)
                }
            },
        }
    }

    /// The papers that the typed phrase finds are listed from the start.
    #[verifier::opaque]
    pub open spec fn apply_search(self) -> ReaderView {
        ReaderView {
            filtered: found_positions(self.snapshot.papers, trimmed(self.typed)),
            list_page: 0,
            ..self
        }
    }

    /// What follows when a stored snapshot has arrived.
    #[verifier::opaque]
    pub open spec fn took_stored_snapshot(self, json: Option<Value>) -> ReaderView {
        match self.snapshot_loading {
            Some(key) => {
                let next = ReaderView { snapshot_loading: None, ..self };
                let stored = match json {
                    Some(root) => snapshot_in(&root),
                    None => None,
                };
                match (stored, self.selected) {
                    (Some(snapshot), Some(selected)) => if !self.fresh_snapshot
                        && snapshot.collection_key == key && selected.key == key {
                        ReaderView { pane: Pane::Feed, ..next.apply_snapshot(snapshot) }
                    } else {
                        next
                    },
                    _ => next,
                }
            },
            None => self,
        }
    }
}

/// Writes the path of one page of a collection.
fn path_of_page(collection: &str, start: usize) -> (path: String)
    ensures
        path@ == page_path(collection@, start),
{
    let limit: usize = if start >= MAX_ITEMS {
        1
    } else {
        ITEMS_PER_PAGE
    };
    let mut path = "/collections/".to_owned();
    path.append(collection);
    path.append("/items/top?format=json&itemType=-attachment&limit=");
    let limit_text = decimal_text(limit as u64);
    path.append(&limit_text);
    path.append("&start=");
    let start_text = decimal_text(start as u64);
    path.append(&start_text);
    path.append("&sort=dateAdded&direction=desc");
    path
}

/// The highest version of the papers.
fn highest_version(papers: &Vec<Paper>) -> (version: u32)
    ensures
        version == newest_version(seen(papers@)),
{
    let mut version: u32 = 0;
    let ghost all = seen(papers@);
    for i in 0..papers.len()
        invariant
            all == seen(papers@),
            version == newest_version(all.take(i as int)),
    {
        proof {
            assert(all.take(i + 1).drop_last() =~= all.take(i as int));
            assert(all.take(i + 1).last() == papers@[i as int]@);
        }
        if papers[i].version > version {
            version = papers[i].version;
        }
    }
    assert(all.take(papers@.len() as int) =~= all);
    version
}

impl ReadingList {
    /// Asks for the collections of the library.
    pub fn fetch_collections(&mut self)
        ensures
            final(self)@ == old(self)@.fetch_collections(),
    {
        reveal(ReaderView::fetch_collections);
        self.trouble = None;
        self.pane = Pane::Collections;
        self.fetch_zotero(
            "/collections?format=json&limit=100&sort=title&direction=asc",
            LIST_BYTES,
            Awaiting::Collections,
        );
    }

    /// Asks for one page of a collection.
    pub fn fetch_snapshot_page(&mut self, collection: &str, start: usize)
        ensures
            final(self)@ == old(self)@.fetch_snapshot_page(collection@, start),
    {
        reveal(ReaderView::fetch_snapshot_page);
        let path = path_of_page(collection, start);
        self.fetch_zotero(&path, ZOTERO_RESPONSE_BYTES, Awaiting::SnapshotPage(start));
    }

    /// Asks for the papers of the chosen collection from the start.
    pub fn refresh(&mut self)
        ensures
            final(self)@ == old(self)@.refresh(),
    {
        reveal(ReaderView::refresh);
        match self.chosen() {
            Some(collection) => {
                self.trouble = None;
                self.pane = Pane::Feed;
                self.pending_snapshot.clear();
                assert(seen(self.pending_snapshot@) =~= Seq::empty());
                self.fetch_snapshot_page(&collection.key, 0);
            },
            None => self.fetch_collections(),
        }
    }

    /// Gets the stored snapshot of the chosen collection, unless one is on its
    /// way.
    pub fn start_snapshot_load(&mut self)
        ensures
            final(self)@ == old(self)@.start_snapshot_load(),
    {
        reveal(ReaderView::start_snapshot_load);
        if self.snapshot_loading.is_some() {
            return;
        }
        if let Some(collection) = self.chosen() {
            let name = snapshot_blob(&collection.key);
            self.emit(
                Command::Download {
                    transfer: Transfer::SnapshotLoad,
                    name,
                    at_most: Some(SNAPSHOT_BYTES),
                },
            );
            self.snapshot_loading = Some(collection.key);
        }
    }

    /// Starts reading once the user and the collection are known or missing.
    pub fn begin_after_config(&mut self)
        ensures
            final(self)@ == old(self)@.begin_after_config(),
    {
        reveal(ReaderView::begin_after_config);
        if !(self.user_id_loaded && self.selection_loaded) {
            return;
        }
        if self.user_id.is_none() {
            self.pane = Pane::Setup;
            return;
        }
        if self.selected.is_some() {
            self.pane = Pane::Feed;
            self.start_snapshot_load();
            self.refresh();
        } else {
            self.fetch_collections();
        }
    }

    /// Chooses a collection and turns to it.
    pub fn select_collection(&mut self, index: usize)
        ensures
            final(self)@ == old(self)@.select_collection(index as nat),
    {
        reveal(ReaderView::select_collection);
        if index >= self.collections.len() {
            return;
        }
        let collection = self.collections[index].clone();
        let value = encode_selection(&collection);
        self.emit(Command::Save { key: SELECTED_KEY, value });
        self.selected = Some(collection);
        self.snapshot = Snapshot::default();
        self.fresh_snapshot = false;
        self.filtered.clear();
        self.snapshot_loading = None;
        self.start_snapshot_load();
        self.refresh();
    }

    /// Stores a snapshot of the chosen collection.
    pub fn save_snapshot(&mut self, snapshot: Snapshot)
        ensures
            final(self)@ == old(self)@.save_snapshot(snapshot@),
    {
        reveal(ReaderView::save_snapshot);
        if let Some(collection) = self.chosen() {
            let name = snapshot_blob(&collection.key);
            self.emit(Command::UploadSnapshot { name, snapshot });
            self.snapshot_upload = true;
        }
    }

    /// Lists all papers of a snapshot.
    pub fn apply_snapshot(&mut self, snapshot: Snapshot)
        ensures
            final(self)@ == old(self)@.apply_snapshot(snapshot@),
    {
        let mut filtered: Vec<usize> = Vec::new();
        for i in 0..snapshot.papers.len()
            invariant
                filtered@ == all_positions(i as nat),
        {
            filtered.push(i);
            assert(filtered@ =~= all_positions((i + 1) as nat));
        }
        self.snapshot = snapshot;
        self.filtered = filtered;
        self.list_page = 0;
    }

    /// Makes the snapshot of the pages that have come.
    pub fn finish_snapshot(&mut self, truncated: bool)
        ensures
            final(self)@ == old(self)@.finish_snapshot(truncated),
    {
        reveal(ReaderView::finish_snapshot);
        if let Some(collection) = self.chosen() {
            let revision = decimal_text(highest_version(&self.pending_snapshot) as u64);
            let mut pending: Vec<Paper> = Vec::new();
            pending.append(&mut self.pending_snapshot);
            assert(seen(self.pending_snapshot@) =~= Seq::empty());
            let count: usize = pending.len();
            let papers = sort_newest(pending);
            let snapshot = Snapshot {
                collection_key: collection.key,
                revision,
                total: if truncated && count < usize::MAX {
                    count + 1
                } else {
                    count
                },
                truncated,
                papers,
            };
            let stored = snapshot.clone();
            self.fresh_snapshot = true;
            self.apply_snapshot(snapshot);
            self.save_snapshot(stored);
        }
    }

    /// Adds the papers of a page, as many as fit.
    fn add_page(&mut self, page: Vec<Paper>)
        ensures
            final(self)@ == old(self)@.with_page(seen(page@)),
    {
        let mut page = page;
        let remaining: usize = if self.pending_snapshot.len() >= MAX_ITEMS {
            0
        } else {
            MAX_ITEMS - self.pending_snapshot.len()
        };
        let ghost whole = page@;
        page.truncate(remaining);
        assert(seen(page@) =~= prefix(seen(whole), remaining as nat));
        let ghost before = self.pending_snapshot@;
        let ghost added = page@;
        self.pending_snapshot.append(&mut page);
        assert(seen(self.pending_snapshot@) =~= seen(before) + seen(added));
    }

    /// Takes one page of the chosen collection.
    pub fn took_snapshot_page(&mut self, start: usize, json: &Option<Value>)
        ensures
            final(self)@ == old(self)@.took_snapshot_page(start, page_in(*json)),
    {
        reveal(ReaderView::took_snapshot_page);
        let read = match json {
            Some(root) => zotero_items(root),
            None => None,
        };
        let page = match read {
            Some(page) => page,
            None => {
                self.complain("Zotero returned an unreadable item page.");
                return;
            },
        };
        if start >= MAX_ITEMS {
            self.finish_snapshot(page.len() > 0);
            return;
        }
        let page_was_full = page.len() == ITEMS_PER_PAGE;
        self.add_page(page);
        let count: usize = self.pending_snapshot.len();
        if page_was_full && count <= MAX_ITEMS {
            if let Some(collection) = self.chosen() {
                let next: usize = if count < MAX_ITEMS {
                    start + ITEMS_PER_PAGE
                } else {
                    MAX_ITEMS
                };
                self.fetch_snapshot_page(&collection.key, next);
            }
        } else {
            self.finish_snapshot(false);
        }
    }

    /// Lists the papers that the typed phrase finds.
    pub fn apply_search(&mut self)
        ensures
            final(self)@ == old(self)@.apply_search(),
    {
        reveal(ReaderView::apply_search);
        let phrase = trim(&self.typed);
        let mut filtered: Vec<usize> = Vec::new();
        let ghost all = seen(self.snapshot.papers@);
        for i in 0..self.snapshot.papers.len()
            invariant
                all == seen(self.snapshot.papers@),
                filtered@ == found_positions(all.take(i as int), phrase@),
        {
            proof {
                assert(all.take(i + 1).drop_last() =~= all.take(i as int));
                assert(all.take(i + 1).last() == self.snapshot.papers@[i as int]@);
            }
            if self.snapshot.papers[i].searchable(&phrase) {
                filtered.push(i);
            }
        }
        assert(all.take(self.snapshot.papers@.len() as int) =~= all);
        self.filtered = filtered;
        self.list_page = 0;
    }

    /// Takes a stored snapshot, unless a newer one has come or it belongs to
    /// another collection.
    pub fn took_stored_snapshot(&mut self, json: &Option<Value>)
        ensures
            final(self)@ == old(self)@.took_stored_snapshot(*json),
    {
        reveal(ReaderView::took_stored_snapshot);
        let key = match self.snapshot_loading.take() {
            Some(key) => key,
            None => {
                return;
            },
        };
        if self.fresh_snapshot {
            return;
        }
        let stored = match json {
            Some(root) => crate::cache::snapshot(root),
            None => None,
        };
        if let Some(snapshot) = stored {
            let belongs = match &self.selected {
                Some(selected) => same_text(&selected.key, &key),
                None => false,
            };
            if belongs && same_text(&snapshot.collection_key, &key) {
                self.apply_snapshot(snapshot);
                self.pane = Pane::Feed;
            }
        }
    }
}

} // verus!

//! Collections, papers and what belongs to them.
use vstd::prelude::*;

use crate::text::{maybe, seen};

verus! {

/// The most papers that one collection shows.
pub const MAX_ITEMS: usize = 500;

/// A Zotero collection.
#[derive(Debug, PartialEq, Eq)]
pub struct Collection {
    pub key: String,
    pub name: String,
}

#[verifier::ext_equal]
pub struct CollectionView {
    pub key: Seq<char>,
    pub name: Seq<char>,
}

impl View for Collection {
    type V = CollectionView;

    open spec fn view(&self) -> CollectionView {
        CollectionView { key: self.key@, name: self.name@ }
    }
}

impl Clone for Collection {
    fn clone(&self) -> (copy: Self)
        ensures
            copy@ == self@,
    {
        Collection { key: self.key.clone(), name: self.name.clone() }
    }
}

impl Default for Collection {
    fn default() -> (empty: Self)
        ensures
            empty@ == (CollectionView { key: Seq::empty(), name: Seq::empty() }),
    {
        Collection { key: String::new(), name: String::new() }
    }
}

/// A paper as a list shows it.
#[derive(Debug, PartialEq, Eq)]
pub struct Paper {
    pub key: String,
    pub version: u32,
    pub title: String,
    pub creators: String,
    pub year: String,
    pub date_added: String,
    pub tags: Vec<String>,
    pub has_pdf: bool,
}

#[verifier::ext_equal]
pub struct PaperView {
    pub key: Seq<char>,
    pub version: u32,
    pub title: Seq<char>,
    pub creators: Seq<char>,
    pub year: Seq<char>,
    pub date_added: Seq<char>,
    pub tags: Seq<Seq<char>>,
    pub has_pdf: bool,
}

impl View for Paper {
    type V = PaperView;

    open spec fn view(&self) -> PaperView {
        PaperView {
            key: self.key@,
            version: self.version,
            title: self.title@,
            creators: self.creators@,
            year: self.year@,
            date_added: self.date_added@,
            tags: seen(self.tags@),
            has_pdf: self.has_pdf,
        }
    }
}

/// Copies texts.
pub fn copy_texts(texts: &Vec<String>) -> (copy: Vec<String>)
    ensures
        seen(copy@) == seen(texts@),
{
    let copy = texts.clone();
    assert(seen(copy@) =~= seen(texts@));
    copy
}

impl Clone for Paper {
    fn clone(&self) -> (copy: Self)
        ensures
            copy@ == self@,
    {
        Paper {
            key: self.key.clone(),
            version: self.version,
            title: self.title.clone(),
            creators: self.creators.clone(),
            year: self.year.clone(),
            date_added: self.date_added.clone(),
            tags: copy_texts(&self.tags),
            has_pdf: self.has_pdf,
        }
    }
}

impl PaperView {
    /// A paper without content.
    pub open spec fn blank() -> PaperView {
        PaperView {
            key: Seq::empty(),
            version: 0,
            title: Seq::empty(),
            creators: Seq::empty(),
            year: Seq::empty(),
            date_added: Seq::empty(),
            tags: Seq::empty(),
            has_pdf: false,
        }
    }
}

impl Default for Paper {
    fn default() -> (empty: Self)
        ensures
            empty@ == PaperView::blank(),
    {
        Paper {
            key: String::new(),
            version: 0,
            title: String::new(),
            creators: String::new(),
            year: String::new(),
            date_added: String::new(),
            tags: Vec::new(),
            has_pdf: false,
        }
    }
}

/// The papers of one collection as of one revision.
#[derive(Debug, PartialEq, Eq)]
pub struct Snapshot {
    pub collection_key: String,
    pub revision: String,
    pub total: usize,
    pub truncated: bool,
    pub papers: Vec<Paper>,
}

#[verifier::ext_equal]
pub struct SnapshotView {
    pub collection_key: Seq<char>,
    pub revision: Seq<char>,
    pub total: usize,
    pub truncated: bool,
    pub papers: Seq<PaperView>,
}

impl View for Snapshot {
    type V = SnapshotView;

    open spec fn view(&self) -> SnapshotView {
        SnapshotView {
            collection_key: self.collection_key@,
            revision: self.revision@,
            total: self.total,
            truncated: self.truncated,
            papers: seen(self.papers@),
        }
    }
}

impl Clone for Snapshot {
    fn clone(&self) -> (copy: Self)
        ensures
            copy@ == self@,
    {
        let papers = self.papers.clone();
        assert(seen(papers@) =~= seen(self.papers@));
        Snapshot {
            collection_key: self.collection_key.clone(),
            revision: self.revision.clone(),
            total: self.total,
            truncated: self.truncated,
            papers,
        }
    }
}

impl SnapshotView {
    /// A snapshot without papers.
    pub open spec fn blank() -> SnapshotView {
        SnapshotView {
            collection_key: Seq::empty(),
            revision: Seq::empty(),
            total: 0,
            truncated: false,
            papers: Seq::empty(),
        }
    }
}

impl Default for Snapshot {
    fn default() -> (empty: Self)
        ensures
            empty@ == SnapshotView::blank(),
    {
        Snapshot {
            collection_key: String::new(),
            revision: String::new(),
            total: 0,
            truncated: false,
            papers: Vec::new(),
        }
    }
}

/// A paper with everything that its own page shows.
#[derive(Debug, PartialEq, Eq)]
pub struct Detail {
    pub paper: Paper,
    pub authors: Vec<String>,
    pub abstract_text: String,
    pub venue: String,
    pub doi: String,
    pub url: String,
}

#[verifier::ext_equal]
pub struct DetailView {
    pub paper: PaperView,
    pub authors: Seq<Seq<char>>,
    pub abstract_text: Seq<char>,
    pub venue: Seq<char>,
    pub doi: Seq<char>,
    pub url: Seq<char>,
}

impl View for Detail {
    type V = DetailView;

    open spec fn view(&self) -> DetailView {
        DetailView {
            paper: self.paper@,
            authors: seen(self.authors@),
            abstract_text: self.abstract_text@,
            venue: self.venue@,
            doi: self.doi@,
            url: self.url@,
        }
    }
}

impl Clone for Detail {
    fn clone(&self) -> (copy: Self)
        ensures
            copy@ == self@,
    {
        Detail {
            paper: self.paper.clone(),
            authors: copy_texts(&self.authors),
            abstract_text: self.abstract_text.clone(),
            venue: self.venue.clone(),
            doi: self.doi.clone(),
            url: self.url.clone(),
        }
    }
}

impl Default for Detail {
    fn default() -> (empty: Self)
        ensures
            empty@ == (DetailView {
                paper: PaperView::blank(),
                authors: Seq::empty(),
                abstract_text: Seq::empty(),
                venue: Seq::empty(),
                doi: Seq::empty(),
                url: Seq::empty(),
            }),
    {
        Detail {
            paper: Paper::default(),
            authors: Vec::new(),
            abstract_text: String::new(),
            venue: String::new(),
            doi: String::new(),
            url: String::new(),
        }
    }
}

/// A PDF that Zotero stores with an item.
#[derive(Debug, PartialEq, Eq)]
pub struct Attachment {
    pub key: String,
    pub version: u32,
}

#[verifier::ext_equal]
pub struct AttachmentView {
    pub key: Seq<char>,
    pub version: u32,
}

impl View for Attachment {
    type V = AttachmentView;

    open spec fn view(&self) -> AttachmentView {
        AttachmentView { key: self.key@, version: self.version }
    }
}

impl Clone for Attachment {
    fn clone(&self) -> (copy: Self)
        ensures
            copy@ == self@,
    {
        Attachment { key: self.key.clone(), version: self.version }
    }
}

impl Default for Attachment {
    fn default() -> (empty: Self)
        ensures
            empty@ == (AttachmentView { key: Seq::empty(), version: 0 }),
    {
        Attachment { key: String::new(), version: 0 }
    }
}

/// How far the conversion of a paper has come.
#[derive(Debug, PartialEq, Eq)]
pub struct Conversion {
    pub state: String,
    pub document_version: Option<String>,
    pub truncated: bool,
    pub message: Option<String>,
}

#[verifier::ext_equal]
pub struct ConversionView {
    pub state: Seq<char>,
    pub document_version: Option<Seq<char>>,
    pub truncated: bool,
    pub message: Option<Seq<char>>,
}

impl View for Conversion {
    type V = ConversionView;

    open spec fn view(&self) -> ConversionView {
        ConversionView {
            state: self.state@,
            document_version: maybe(self.document_version),
            truncated: self.truncated,
            message: maybe(self.message),
        }
    }
}

impl Clone for Conversion {
    fn clone(&self) -> (copy: Self)
        ensures
            copy@ == self@,
    {
        Conversion {
            state: self.state.clone(),
            document_version: self.document_version.clone(),
            truncated: self.truncated,
            message: self.message.clone(),
        }
    }
}

impl Default for Conversion {
    fn default() -> (empty: Self)
        ensures
            empty@ == (ConversionView {
                state: Seq::empty(),
                document_version: None,
                truncated: false,
                message: None,
            }),
    {
        Conversion {
            state: String::new(),
            document_version: None,
            truncated: false,
            message: None,
        }
    }
}

/// The text of a paper as a document to read.
#[derive(Debug, PartialEq, Eq)]
pub struct FullText {
    pub html: Vec<u8>,
    pub truncated: bool,
}

#[verifier::ext_equal]
pub struct FullTextView {
    pub html: Seq<u8>,
    pub truncated: bool,
}

impl View for FullText {
    type V = FullTextView;

    open spec fn view(&self) -> FullTextView {
        FullTextView { html: self.html@, truncated: self.truncated }
    }
}

impl Clone for FullText {
    fn clone(&self) -> (copy: Self)
        ensures
            copy@ == self@,
    {
        let html = self.html.clone();
        assert(html@ =~= self.html@);
        FullText { html, truncated: self.truncated }
    }
}

impl Default for FullText {
    fn default() -> (empty: Self)
        ensures
            empty@ == (FullTextView { html: Seq::empty(), truncated: false }),
    {
        FullText { html: Vec::new(), truncated: false }
    }
}

} // verus!

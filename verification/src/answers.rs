//! What the reader does when a task ends.
use vstd::prelude::*;
use vstd::string::*;

use crate::bridge::conversion_in;
use crate::feed::page_in;
use crate::json::Value;
use crate::model::{Attachment, AttachmentView, CollectionView, Detail, DetailView, PaperView};
use crate::reader::{paged, ReaderView, ReadingList, LIST_BYTES};
use crate::text::{joined_pair, maybe};
use crate::wording::detail_text;
use crate::work::{
    asks_bridge, explain_failure, failure_text, Awaiting, Command, CommandView, TaskError,
};
use crate::zotero::{
    collections_in, detail_in, first_attachment, zotero_collections, zotero_detail,
    zotero_pdf_attachment,
};

verus! {

/// What the open document made of the end of a task.
#[derive(Clone, Copy, Debug, PartialEq, Eq, Structural)]
pub enum Step {
    Elsewhere,
    Quiet,
    Repaint,
}

/// How a task ended.
#[derive(Debug)]
pub enum Reply {
    /// With these bytes; with the JSON value that they spell, if they spell
    /// one; and whether they hold a document with something to read in it.
    Completed { bytes: Vec<u8>, json: Option<Value>, readable: bool },
    Failed(TaskError),
    Cancelled,
}

pub enum ReplyView {
    Completed { bytes: Seq<u8>, json: Option<Value>, readable: bool },
    Failed(TaskError),
    Cancelled,
}

impl View for Reply {
    type V = ReplyView;

    open spec fn view(&self) -> ReplyView {
        match self {
            Reply::Completed { bytes, json, readable } => ReplyView::Completed {
                bytes: bytes@,
                json: *json,
                readable: *readable,
            },
            Reply::Failed(error) => ReplyView::Failed(*error),
            Reply::Cancelled => ReplyView::Cancelled,
        }
    }
}

/// What an answer reads as, if it is JSON.
pub open spec fn read_with<A>(json: Option<Value>, read: spec_fn(&Value) -> Option<A>) -> Option<
    A,
> {
    match json {
        Some(root) => read(&root),
        None => None,
    }
}

/// The stored PDF in a list of attachments, if the list can be read.
pub open spec fn children_in(json: Option<Value>) -> Option<Option<AttachmentView>> {
    match json {
        Some(Value::Array(rows)) => Some(first_attachment(rows@)),
        _ => None,
    }
}

/// Whether a failed request ends the wait for a text.
pub open spec fn ends_wait(awaiting: Awaiting) -> bool {
    asks_bridge(awaiting) || awaiting is ZoteroFullText
}

impl ReaderView {
    /// Collections have come; a single one is chosen at once.
    #[verifier::opaque]
    pub open spec fn took_collections(
        self,
        collections: Option<Seq<CollectionView>>,
    ) -> ReaderView {
        match collections {
            Some(collections) => {
                let next = ReaderView { collections, ..self };
                if collections.len() == 1 && self.selected is None {
                    next.select_collection(0)
                } else {
                    next
                }
            },
            None => self.troubled("The collection list was unreadable."@),
        }
    }

    /// The details of a paper have come; its attachments are asked for.
    #[verifier::opaque]
    pub open spec fn took_detail(self, detail: Option<DetailView>) -> ReaderView {
        match detail {
            Some(detail) => (ReaderView {
                opened_creators: detail.paper.creators,
                detail: Some(detail),
                ..self
            }).fetch_zotero(
                "/items/"@ + detail.paper.key
                    + "/children?format=json&itemType=attachment&limit=100"@,
                LIST_BYTES,
                Awaiting::DetailChildren,
            ),
            None => self.troubled("The paper details were unreadable."@),
        }
    }

    /// The attachments of a paper have come.
    #[verifier::opaque]
    pub open spec fn took_children(
        self,
        children: Option<Option<AttachmentView>>,
    ) -> ReaderView {
        match children {
            Some(attachment) => {
                let next = ReaderView { attachment, ..self };
                match self.detail {
                    Some(detail) => {
                        let known = DetailView {
                            paper: PaperView { has_pdf: attachment is Some, ..detail.paper },
                            ..detail
                        };
                        (ReaderView { detail: Some(known), ..next }).emits(
                            CommandView::PaginateDetail { text: known.written() },
                        )
                    },
                    None => next,
                }
            },
            None => self.troubled("The Zotero attachment list was unreadable."@),
        }
    }

    pub open spec fn detail_paginated(self, pages: Seq<Seq<Seq<char>>>) -> ReaderView {
        ReaderView { detail_pages: pages, ..self }
    }

    /// What the reader waited for has come.
    #[verifier::opaque]
    pub open spec fn took_answer(
        self,
        awaiting: Awaiting,
        bytes: Seq<u8>,
        json: Option<Value>,
        readable: bool,
    ) -> ReaderView {
        match awaiting {
            Awaiting::Collections => self.took_collections(
                read_with(json, |root: &Value| collections_in(root)),
            ),
            Awaiting::SnapshotPage(start) => self.took_snapshot_page(start, page_in(json)),
            Awaiting::Detail => self.took_detail(read_with(json, |root: &Value| detail_in(root))),
            Awaiting::DetailChildren => self.took_children(children_in(json)),
            Awaiting::ZoteroFullText => self.took_zotero_fulltext(json),
            Awaiting::StartConversion | Awaiting::PollConversion => self.took_conversion(
                match json {
                    Some(root) => conversion_in(&root),
                    None => None,
                },
            ),
            Awaiting::PollWait => self.poll_conversion(),
            Awaiting::Document => self.took_document(bytes, readable),
        }
    }

    /// What the reader waited for cannot be had.
    #[verifier::opaque]
    pub open spec fn took_failure(self, awaiting: Awaiting, error: TaskError) -> ReaderView {
        if ends_wait(awaiting) {
            self.fail_detail(failure_text(awaiting, error))
        } else {
            self.troubled(failure_text(awaiting, error))
        }
    }

    /// The task that the reader waited for has ended.
    #[verifier::opaque]
    pub open spec fn took_reply(self, awaiting: Awaiting, reply: ReplyView) -> ReaderView {
        match reply {
            ReplyView::Completed { bytes, json, readable } => self.took_answer(
                awaiting,
                bytes,
                json,
                readable,
            ),
            ReplyView::Failed(error) => self.took_failure(awaiting, error),
            ReplyView::Cancelled => self,
        }
    }

    /// A picture has come, or cannot be had; the next one is asked for.
    #[verifier::opaque]
    pub open spec fn took_figure(self, name: Seq<char>, reply: ReplyView) -> ReaderView {
        let idle = ReaderView { figure_task: None, ..self };
        match reply {
            ReplyView::Completed { bytes, json, readable } => idle.emits(
                CommandView::ProvidePicture { name, bytes },
            ).fetch_next_figure(),
            _ => idle.fetch_next_figure(),
        }
    }

    /// A task has ended: one of the open document's, the one that reads a
    /// picture, or the one that the reader waits for. Any other is no longer of
    /// interest.
    #[verifier::opaque]
    pub open spec fn on_task(self, step: Step, task: u64, reply: ReplyView) -> ReaderView {
        match step {
            Step::Quiet => self,
            Step::Repaint => self.shows(),
            Step::Elsewhere => if self.figure_task is Some && (self.figure_task->0).0 == task {
                self.took_figure((self.figure_task->0).1, reply).shows()
            } else if self.task is Some && (self.task->0).0 == task {
                (ReaderView { task: None, ..self }).took_reply((self.task->0).1, reply).shows()
            } else {
                self
            },
        }
    }
}

impl ReadingList {
    /// Takes a list of collections.
    fn took_collections(&mut self, json: &Option<Value>)
        ensures
            final(self)@ == old(self)@.took_collections(
                read_with(*json, |root: &Value| collections_in(root)),
            ),
    {
        reveal(ReaderView::took_collections);
        let read = match json {
            Some(root) => zotero_collections(root),
            None => None,
        };
        match read {
            Some(collections) => {
                let single = collections.len() == 1;
                self.collections = collections;
                if single && self.selected.is_none() {
                    self.select_collection(0);
                }
            },
            None => self.complain("The collection list was unreadable."),
        }
    }

    /// Takes the details of a paper.
    fn took_detail(&mut self, json: &Option<Value>)
        ensures
            final(self)@ == old(self)@.took_detail(
                read_with(*json, |root: &Value| detail_in(root)),
            ),
    {
        reveal(ReaderView::took_detail);
        let read = match json {
            Some(root) => zotero_detail(root),
            None => None,
        };
        match read {
            Some(detail) => {
                let start = joined_pair("/items/", &detail.paper.key);
                let suffix = joined_pair(
                    &start,
                    "/children?format=json&itemType=attachment&limit=100",
                );
                self.opened_creators = detail.paper.creators.clone();
                self.detail = Some(detail);
                self.fetch_zotero(&suffix, LIST_BYTES, Awaiting::DetailChildren);
            },
            None => self.complain("The paper details were unreadable."),
        }
    }

    /// Takes the stored PDF of a paper, or that there is none.
    fn took_attachment(&mut self, attachment: Option<Attachment>)
        ensures
            final(self)@ == old(self)@.took_children(Some(maybe(attachment))),
    {
        reveal(ReaderView::took_children);
        let stored = attachment.is_some();
        self.attachment = attachment;
        if let Some(detail) = self.detail.take() {
            let mut detail = detail;
            detail.paper.has_pdf = stored;
            let text = detail_text(&detail);
            self.detail = Some(detail);
            self.emit(Command::PaginateDetail { text });
        }
    }

    /// Takes the attachments of a paper.
    fn took_children(&mut self, json: &Option<Value>)
        ensures
            final(self)@ == old(self)@.took_children(children_in(*json)),
    {
        let read = match json {
            Some(root) => zotero_pdf_attachment(root),
            None => Err(()),
        };
        match read {
            Ok(attachment) => {
                self.took_attachment(attachment);
            },
            Err(_) => {
                reveal(ReaderView::took_children);
                self.complain("The Zotero attachment list was unreadable.");
            },
        }
    }

    /// Takes the pages of the details.
    pub fn detail_paginated(&mut self, pages: Vec<Vec<String>>)
        ensures
            final(self)@ == old(self)@.detail_paginated(paged(pages@)),
    {
        self.detail_pages = pages;
    }

    /// Takes what the reader waited for.
    fn took_answer(
        &mut self,
        awaiting: Awaiting,
        bytes: Vec<u8>,
        json: &Option<Value>,
        readable: bool,
    )
        ensures
            final(self)@ == old(self)@.took_answer(awaiting, bytes@, *json, readable),
    {
        reveal(ReaderView::took_answer);
        match awaiting {
            Awaiting::Collections => self.took_collections(json),
            Awaiting::SnapshotPage(start) => self.took_snapshot_page(start, json),
            Awaiting::Detail => self.took_detail(json),
            Awaiting::DetailChildren => self.took_children(json),
            Awaiting::ZoteroFullText => self.took_zotero_fulltext(json),
            Awaiting::StartConversion | Awaiting::PollConversion => self.took_conversion(json),
            Awaiting::PollWait => self.poll_conversion(),
            Awaiting::Document => self.took_document(bytes, readable),
        }
    }

    /// Takes why there is no answer.
    fn took_failure(&mut self, awaiting: Awaiting, error: TaskError)
        ensures
            final(self)@ == old(self)@.took_failure(awaiting, error),
    {
        reveal(ReaderView::took_failure);
        let message = explain_failure(awaiting, error);
        match awaiting {
            Awaiting::StartConversion
            | Awaiting::PollConversion
            | Awaiting::Document
            | Awaiting::ZoteroFullText => self.fail_detail(&message),
            _ => self.complain(&message),
        }
    }

    /// Takes the end of the task that the reader waited for.
    fn took_reply(&mut self, awaiting: Awaiting, reply: Reply)
        ensures
            final(self)@ == old(self)@.took_reply(awaiting, reply@),
    {
        reveal(ReaderView::took_reply);
        match reply {
            Reply::Completed { bytes, json, readable } => {
                self.took_answer(awaiting, bytes, &json, readable);
            },
            Reply::Failed(error) => self.took_failure(awaiting, error),
            Reply::Cancelled => {},
        }
    }

    /// Takes a picture, or that there is none.
    fn took_figure(&mut self, name: String, reply: Reply)
        ensures
            final(self)@ == old(self)@.took_figure(name@, reply@),
    {
        reveal(ReaderView::took_figure);
        self.figure_task = None;
        if let Reply::Completed { bytes, json: _, readable: _ } = reply {
            self.emit(Command::ProvidePicture { name, bytes });
        }
        self.fetch_next_figure();
    }

    /// The name of the picture that a task reads.
    fn figure_read_by(&self, task: u64) -> (name: Option<String>)
        ensures
            maybe(name) == (if self@.figure_task is Some && (self@.figure_task->0).0 == task {
                Some((self@.figure_task->0).1)
            } else {
                None
            }),
    {
        match &self.figure_task {
            Some((figure, name)) => if *figure == task {
                Some(name.clone())
            } else {
                None
            },
            None => None,
        }
    }

    /// What the reader waits for from a task.
    fn awaited_from(&self, task: u64) -> (awaiting: Option<Awaiting>)
        ensures
            awaiting == (if self@.task is Some && (self@.task->0).0 == task {
                Some((self@.task->0).1)
            } else {
                None
            }),
    {
        match self.task {
            Some((waiting, awaiting)) => if waiting == task {
                Some(awaiting)
            } else {
                None
            },
            None => None,
        }
    }

    /// Takes the end of the task that the reader waits for.
    fn took_end(&mut self, awaiting: Awaiting, reply: Reply)
        ensures
            final(self)@ == (ReaderView { task: None, ..old(self)@ }).took_reply(
                awaiting,
                reply@,
            ).shows(),
    {
        self.task = None;
        self.took_reply(awaiting, reply);
        self.show();
    }

    /// Takes the end of a task.
    pub fn on_task(&mut self, step: Step, task: u64, reply: Reply)
        ensures
            final(self)@ == old(self)@.on_task(step, task, reply@),
    {
        reveal(ReaderView::on_task);
        match step {
            Step::Quiet => {},
            Step::Repaint => self.show(),
            Step::Elsewhere => match self.figure_read_by(task) {
                Some(name) => {
                    self.took_figure(name, reply);
                    self.show();
                },
                None => if let Some(awaiting) = self.awaited_from(task) {
                    self.took_end(awaiting, reply);
                },
            },
        }
    }
}

} // verus!

//! What the reader does when something is pressed.
use vstd::prelude::*;
use vstd::string::*;
use vstd::utf8::*;

use crate::feed::SELECTED_KEY;
use crate::keys::{is_user_id, valid_user_id};
use crate::number::{decimal, decimal_text};
use crate::reader::{Pane, ReaderView, ReadingList};
use crate::shelf::{LIBRARY_KEY, STATE_KEY};
use crate::text::{chars_of, joined_pair, maybe, prefix, seen, text_prefix, trim, trimmed};
use crate::work::{Command, CommandView};

verus! {

/// Where the Zotero user is kept.
pub const USER_ID_KEY: &'static str = "zotero-user-id";

/// The most characters of a user's number.
pub const USER_ID_CHARS: usize = 20;

/// What a key of the keyboard did.
#[derive(Clone, Copy, Debug, PartialEq, Eq, Structural)]
pub enum Pressed {
    Submitted,
    Edited,
    Shifted,
}

/// What the open document made of a press.
#[derive(Clone, Copy, Debug, PartialEq, Eq, Structural)]
pub enum Outcome {
    Close,
    Light(u8),
    Save,
    Elsewhere,
    Repaint,
}

/// What can be asked of the reader.
#[derive(Clone, Copy, Debug, PartialEq, Eq, Structural)]
pub enum Action {
    Back,
    Refresh,
    Search,
    Library,
    ChangeCollection,
    FullText,
    Keep,
    Discard,
    ToggleRead,
    RetryMemory,
    PageBack,
    PageNext,
    Collection(usize),
    Paper(usize),
    Kept(usize),
}

impl View for Action {
    type V = Action;

    open spec fn view(&self) -> Action {
        *self
    }
}

/// A press, with what the keyboard and the open document made of it.
#[derive(Debug, PartialEq, Eq)]
pub struct Press {
    /// What the keyboard did, if it is shown and the press was on it.
    pub pressed: Option<Pressed>,
    /// What the keyboard holds after the press.
    pub typed: String,
    /// What the open document did, if it is shown and the press was for it.
    pub outcome: Option<Outcome>,
    /// The action that was pressed, if it is one of the reader's.
    pub action: Option<Action>,
    /// The reading memory of the open document.
    pub memory: Option<Vec<u8>>,
}

#[verifier::ext_equal]
pub struct PressView {
    pub pressed: Option<Pressed>,
    pub typed: Seq<char>,
    pub outcome: Option<Outcome>,
    pub action: Option<Action>,
    pub memory: Option<Seq<u8>>,
}

impl View for Press {
    type V = PressView;

    open spec fn view(&self) -> PressView {
        PressView {
            pressed: self.pressed,
            typed: self.typed@,
            outcome: self.outcome,
            action: self.action,
            memory: maybe(self.memory),
        }
    }
}

/// One page on or back.
pub open spec fn turned(page: usize, forward: bool) -> usize {
    if forward {
        if page < usize::MAX {
            (page + 1) as usize
        } else {
            page
        }
    } else if page > 0 {
        (page - 1) as usize
    } else {
        page
    }
}

/// Numbered actions: the name of each is the start followed by its number.
pub open spec fn numbered(start: Seq<char>, count: nat) -> Seq<Seq<char>> {
    Seq::new(count, |i: int| start + decimal(i as nat))
}

/// Each name with the action that it stands for.
pub open spec fn fixed_actions() -> Seq<(Seq<char>, Action)> {
    seq![
        ("refresh"@, Action::Refresh),
        ("search"@, Action::Search),
        ("library"@, Action::Library),
        ("change-collection"@, Action::ChangeCollection),
        ("full-text"@, Action::FullText),
        ("keep"@, Action::Keep),
        ("discard"@, Action::Discard),
        ("toggle-read"@, Action::ToggleRead),
        ("retry-memory"@, Action::RetryMemory),
        ("list-back"@, Action::PageBack),
        ("read-back"@, Action::PageBack),
        ("list-next"@, Action::PageNext),
        ("read-next"@, Action::PageNext),
    ]
}

impl ReaderView {
    /// The names of the actions that can be pressed, in the order in which they
    /// are looked for.
    pub open spec fn actions(self) -> Seq<(Seq<char>, Action)> {
        let collections = numbered("collection-"@, self.collections.len());
        let papers = numbered("paper-"@, self.snapshot.papers.len());
        let kept = numbered("kept-"@, self.library.len());
        fixed_actions() + Seq::new(
            collections.len(),
            |i: int| (collections[i], Action::Collection(i as usize)),
        ) + Seq::new(papers.len(), |i: int| (papers[i], Action::Paper(i as usize))) + Seq::new(
            kept.len(),
            |i: int| (kept[i], Action::Kept(i as usize)),
        )
    }

    #[verifier::opaque]
    pub open spec fn on_start(self) -> ReaderView {
        self.emits(CommandView::Load { key: USER_ID_KEY@ }).emits(
            CommandView::Load { key: SELECTED_KEY@ },
        ).emits(CommandView::Load { key: LIBRARY_KEY@ }).emits(
            CommandView::Load { key: STATE_KEY@ },
        ).emits(CommandView::ListShelf).shows()
    }

    /// A new user is kept and the user's collections are asked for.
    #[verifier::opaque]
    pub open spec fn take_user(self, user_id: Seq<char>) -> ReaderView {
        (ReaderView { user_id: Some(user_id), typed: Seq::empty(), ..self }.emits(
            CommandView::Save { key: USER_ID_KEY@, value: encode_utf8(user_id) },
        ).emits(CommandView::ClearKeyboard)).fetch_collections()
    }

    /// No more is typed than a user's number can hold.
    #[verifier::opaque]
    pub open spec fn limit_typed(self) -> ReaderView {
        if self.typed.len() > USER_ID_CHARS {
            let kept = prefix(self.typed, USER_ID_CHARS as nat);
            (ReaderView { typed: kept, ..self }).emits(CommandView::RetypeKeyboard { text: kept })
        } else {
            self
        }
    }

    /// A key was pressed while the user's number is asked for.
    #[verifier::opaque]
    pub open spec fn typed_user(self, pressed: Pressed) -> ReaderView {
        if pressed is Submitted {
            let user_id = trimmed(self.typed);
            if is_user_id(user_id) {
                self.take_user(user_id).shows()
            } else {
                self.troubled(
                    "The Zotero user ID must contain only digits and is not your username."@,
                ).shows()
            }
        } else {
            self.limit_typed().shows()
        }
    }

    /// A key was pressed while a phrase to search for is asked for.
    #[verifier::opaque]
    pub open spec fn typed_phrase(self, pressed: Pressed) -> ReaderView {
        if pressed is Submitted {
            (ReaderView { pane: Pane::Feed, ..self.apply_search() }).shows()
        } else {
            self.shows()
        }
    }

    /// Waiting for a text ends.
    #[verifier::opaque]
    pub open spec fn stop_waiting(self) -> ReaderView {
        ReaderView {
            document_loading: false,
            memory_loading: None,
            pane: Pane::Detail,
            ..self.stop_task()
        }
    }

    /// The document is left.
    #[verifier::opaque]
    pub open spec fn leave_book(self, memory: Option<Seq<u8>>) -> ReaderView {
        ReaderView {
            pane: if self.from_library {
                Pane::Library
            } else {
                Pane::Detail
            },
            ..self.close_book(memory)
        }
    }

    /// Back to where the reader came from; from the feed and from the setup the
    /// reader is left.
    #[verifier::opaque]
    pub open spec fn back(self, memory: Option<Seq<u8>>) -> ReaderView {
        match self.pane {
            Pane::Collections => (ReaderView {
                pane: if self.selected is Some {
                    Pane::Feed
                } else {
                    Pane::Setup
                },
                ..self
            }).shows(),
            Pane::Search | Pane::Library => (ReaderView { pane: Pane::Feed, ..self }).shows(),
            Pane::Detail => (ReaderView {
                pane: if self.from_library {
                    Pane::Library
                } else {
                    Pane::Feed
                },
                ..self
            }).shows(),
            Pane::Converting => self.stop_waiting().shows(),
            Pane::FullText => self.leave_book(memory).shows(),
            Pane::Feed | Pane::Setup => self,
        }
    }

    /// What the open document made of a press is followed.
    #[verifier::opaque]
    pub open spec fn follow_book(self, outcome: Outcome, memory: Option<Seq<u8>>) -> ReaderView {
        match outcome {
            Outcome::Close => self.back(memory),
            Outcome::Light(level) => self.emits(CommandView::SetFrontlight(level)),
            Outcome::Save => self.save_memory(memory),
            Outcome::Elsewhere | Outcome::Repaint => self.shows(),
        }
    }

    #[verifier::opaque]
    pub open spec fn turn(self, forward: bool) -> ReaderView {
        match self.pane {
            Pane::Feed => (ReaderView {
                list_page: turned(self.list_page, forward),
                ..self
            }).shows(),
            Pane::Library => (ReaderView {
                library_page: turned(self.library_page, forward),
                ..self
            }).shows(),
            Pane::Detail => (ReaderView {
                detail_page: turned(self.detail_page, forward),
                ..self
            }).shows(),
            _ => self,
        }
    }

    #[verifier::opaque]
    pub open spec fn start_search(self) -> ReaderView {
        (ReaderView { typed: Seq::empty(), pane: Pane::Search, ..self }).emits(
            CommandView::ClearKeyboard,
        )
    }

    #[verifier::opaque]
    pub open spec fn open_library(self) -> ReaderView {
        ReaderView { trouble: None, pane: Pane::Library, library_page: 0, ..self }
    }

    /// An action is done.
    #[verifier::opaque]
    pub open spec fn act(self, action: Action, memory: Option<Seq<u8>>) -> ReaderView {
        match action {
            Action::Back => self.back(memory),
            Action::Refresh => if self.pane is Collections {
                self.fetch_collections().shows()
            } else {
                self.refresh().shows()
            },
            Action::Search => self.start_search().shows(),
            Action::Library => self.open_library().shows(),
            Action::ChangeCollection => self.fetch_collections().shows(),
            Action::FullText => self.start_conversion().shows(),
            Action::Keep => self.keep_document().shows(),
            Action::Discard => self.discard_document().shows(),
            Action::ToggleRead => self.toggle_read().shows(),
            Action::RetryMemory => self.retry_memory().shows(),
            Action::PageBack => self.turn(false),
            Action::PageNext => self.turn(true),
            Action::Collection(index) => if index < self.collections.len() {
                self.select_collection(index as nat).shows()
            } else {
                self
            },
            Action::Paper(index) => if index < self.snapshot.papers.len() {
                self.open_paper(index as nat, memory).shows()
            } else {
                self
            },
            Action::Kept(index) => if index < self.library.len() {
                self.open_kept(index as nat, memory).shows()
            } else {
                self
            },
        }
    }

    /// A press goes to the keyboard, to the open document or to the reader.
    #[verifier::opaque]
    pub open spec fn on_action(self, press: PressView) -> ReaderView {
        let heard = ReaderView { typed: press.typed, ..self };
        if self.pane is Setup && press.pressed is Some {
            heard.typed_user(press.pressed->0)
        } else if self.pane is Search && press.pressed is Some {
            heard.typed_phrase(press.pressed->0)
        } else if self.pane is FullText && press.outcome is Some {
            heard.follow_book(press.outcome->0, press.memory)
        } else if press.action is Some {
            heard.act(press.action->0, press.memory)
        } else {
            heard
        }
    }
}

/// Adds numbered names.
fn add_numbered(names: &mut Vec<String>, start: &str, count: usize)
    ensures
        seen(final(names)@) == seen(old(names)@) + numbered(start@, count as nat),
{
    assert(seen(names@) =~= seen(names@) + numbered(start@, 0));
    for i in 0..count
        invariant
            seen(names@) == seen(old(names)@) + numbered(start@, i as nat),
    {
        let number = decimal_text(i as u64);
        let ghost before = names@;
        names.push(joined_pair(start, &number));
        assert(seen(names@) =~= seen(before).push(start@ + decimal(i as nat)));
        assert(numbered(start@, (i + 1) as nat) =~= numbered(start@, i as nat).push(
            start@ + decimal(i as nat),
        ));
    }
}

/// Adds a name and its action.
fn add_action(actions: &mut Vec<(String, Action)>, name: &str, action: Action)
    ensures
        seen(final(actions)@) == seen(old(actions)@).push((name@, action)),
{
    let ghost before = actions@;
    actions.push((name.to_owned(), action));
    assert(seen(actions@) =~= seen(before).push((name@, action)));
}

impl ReadingList {
    /// The names of the actions that can be pressed, each with its action, in
    /// the order in which they are looked for.
    pub fn actions(&self) -> (actions: Vec<(String, Action)>)
        ensures
            seen(actions@) == self@.actions(),
    {
        let mut actions: Vec<(String, Action)> = Vec::new();
        add_action(&mut actions, "refresh", Action::Refresh);
        add_action(&mut actions, "search", Action::Search);
        add_action(&mut actions, "library", Action::Library);
        add_action(&mut actions, "change-collection", Action::ChangeCollection);
        add_action(&mut actions, "full-text", Action::FullText);
        add_action(&mut actions, "keep", Action::Keep);
        add_action(&mut actions, "discard", Action::Discard);
        add_action(&mut actions, "toggle-read", Action::ToggleRead);
        add_action(&mut actions, "retry-memory", Action::RetryMemory);
        add_action(&mut actions, "list-back", Action::PageBack);
        add_action(&mut actions, "read-back", Action::PageBack);
        add_action(&mut actions, "list-next", Action::PageNext);
        add_action(&mut actions, "read-next", Action::PageNext);
        assert(seen(actions@) =~= fixed_actions());
        let mut collections: Vec<String> = Vec::new();
        let mut papers: Vec<String> = Vec::new();
        let mut kept: Vec<String> = Vec::new();
        add_numbered(&mut collections, "collection-", self.collections.len());
        add_numbered(&mut papers, "paper-", self.snapshot.papers.len());
        add_numbered(&mut kept, "kept-", self.library.len());
        let ghost fixed = seen(actions@);
        let ghost all_collections = numbered("collection-"@, self@.collections.len());
        let ghost all_papers = numbered("paper-"@, self@.snapshot.papers.len());
        let ghost all_kept = numbered("kept-"@, self@.library.len());
        assert(seen(collections@) =~= all_collections);
        assert(seen(papers@) =~= all_papers);
        assert(seen(kept@) =~= all_kept);
        for i in 0..collections.len()
            invariant
                seen(collections@) == all_collections,
                seen(actions@) == fixed + Seq::new(
                    i as nat,
                    |j: int| (all_collections[j], Action::Collection(j as usize)),
                ),
        {
            assert(seen(collections@)[i as int] == collections@[i as int]@);
            add_action(&mut actions, &collections[i], Action::Collection(i));
            assert(seen(actions@) =~= fixed + Seq::new(
                (i + 1) as nat,
                |j: int| (all_collections[j], Action::Collection(j as usize)),
            ));
        }
        let ghost with_collections = seen(actions@);
        for i in 0..papers.len()
            invariant
                seen(papers@) == all_papers,
                seen(actions@) == with_collections + Seq::new(
                    i as nat,
                    |j: int| (all_papers[j], Action::Paper(j as usize)),
                ),
        {
            assert(seen(papers@)[i as int] == papers@[i as int]@);
            add_action(&mut actions, &papers[i], Action::Paper(i));
            assert(seen(actions@) =~= with_collections + Seq::new(
                (i + 1) as nat,
                |j: int| (all_papers[j], Action::Paper(j as usize)),
            ));
        }
        let ghost with_papers = seen(actions@);
        for i in 0..kept.len()
            invariant
                seen(kept@) == all_kept,
                seen(actions@) == with_papers + Seq::new(
                    i as nat,
                    |j: int| (all_kept[j], Action::Kept(j as usize)),
                ),
        {
            assert(seen(kept@)[i as int] == kept@[i as int]@);
            add_action(&mut actions, &kept[i], Action::Kept(i));
            assert(seen(actions@) =~= with_papers + Seq::new(
                (i + 1) as nat,
                |j: int| (all_kept[j], Action::Kept(j as usize)),
            ));
        }
        assert(seen(actions@) =~= self@.actions());
        actions
    }

    /// Asks for what is kept on the device.
    pub fn on_start(&mut self)
        ensures
            final(self)@ == old(self)@.on_start(),
    {
        reveal(ReaderView::on_start);
        self.emit(Command::Load { key: USER_ID_KEY });
        self.emit(Command::Load { key: SELECTED_KEY });
        self.emit(Command::Load { key: LIBRARY_KEY });
        self.emit(Command::Load { key: STATE_KEY });
        self.emit(Command::ListShelf);
        self.show();
    }

    /// Takes a user whose number was entered.
    fn take_user(&mut self, user_id: String)
        ensures
            final(self)@ == old(self)@.take_user(user_id@),
    {
        reveal(ReaderView::take_user);
        let value = user_id.as_str().as_bytes_vec();
        self.emit(Command::Save { key: USER_ID_KEY, value });
        self.user_id = Some(user_id);
        self.typed = String::new();
        self.emit(Command::ClearKeyboard);
        self.fetch_collections();
    }

    /// Cuts off what a user's number cannot hold.
    fn limit_typed(&mut self)
        ensures
            final(self)@ == old(self)@.limit_typed(),
    {
        reveal(ReaderView::limit_typed);
        let chars = chars_of(&self.typed);
        if chars.len() > USER_ID_CHARS {
            let kept = text_prefix(&chars, USER_ID_CHARS);
            self.typed = kept.clone();
            self.emit(Command::RetypeKeyboard { text: kept });
        }
    }

    /// Takes a key while the user's number is asked for.
    fn typed_user(&mut self, pressed: Pressed)
        ensures
            final(self)@ == old(self)@.typed_user(pressed),
    {
        reveal(ReaderView::typed_user);
        match pressed {
            Pressed::Submitted => {
                let user_id = trim(&self.typed);
                if valid_user_id(&user_id) {
                    self.take_user(user_id);
                } else {
                    self.complain(
                        "The Zotero user ID must contain only digits and is not your username.",
                    );
                }
            },
            _ => self.limit_typed(),
        }
        self.show();
    }

    /// Takes a key while a phrase is asked for.
    fn typed_phrase(&mut self, pressed: Pressed)
        ensures
            final(self)@ == old(self)@.typed_phrase(pressed),
    {
        reveal(ReaderView::typed_phrase);
        match pressed {
            Pressed::Submitted => {
                self.apply_search();
                self.pane = Pane::Feed;
            },
            _ => {},
        }
        self.show();
    }

    /// Stops waiting for a text.
    fn stop_waiting(&mut self)
        ensures
            final(self)@ == old(self)@.stop_waiting(),
    {
        reveal(ReaderView::stop_waiting);
        self.stop_task();
        self.document_loading = false;
        self.memory_loading = None;
        self.pane = Pane::Detail;
    }

    /// Leaves the document.
    fn leave_book(&mut self, memory: Option<Vec<u8>>)
        ensures
            final(self)@ == old(self)@.leave_book(maybe(memory)),
    {
        reveal(ReaderView::leave_book);
        let pane = if self.from_library {
            Pane::Library
        } else {
            Pane::Detail
        };
        self.close_book(memory);
        self.pane = pane;
    }

    /// Goes back.
    pub fn back(&mut self, memory: Option<Vec<u8>>)
        ensures
            final(self)@ == old(self)@.back(maybe(memory)),
    {
        reveal(ReaderView::back);
        match self.pane {
            Pane::Collections => {
                self.pane = if self.selected.is_some() {
                    Pane::Feed
                } else {
                    Pane::Setup
                };
                self.show();
            },
            Pane::Search | Pane::Library => {
                self.pane = Pane::Feed;
                self.show();
            },
            Pane::Detail => {
                self.pane = if self.from_library {
                    Pane::Library
                } else {
                    Pane::Feed
                };
                self.show();
            },
            Pane::Converting => {
                self.stop_waiting();
                self.show();
            },
            Pane::FullText => {
                self.leave_book(memory);
                self.show();
            },
            Pane::Feed | Pane::Setup => {},
        }
    }

    /// Follows what the open document made of a press.
    fn follow_book(&mut self, outcome: Outcome, memory: Option<Vec<u8>>)
        ensures
            final(self)@ == old(self)@.follow_book(outcome, maybe(memory)),
    {
        reveal(ReaderView::follow_book);
        match outcome {
            Outcome::Close => self.back(memory),
            Outcome::Light(level) => self.emit(Command::SetFrontlight(level)),
            Outcome::Save => self.save_memory(memory),
            Outcome::Elsewhere | Outcome::Repaint => self.show(),
        }
    }

    /// Turns the page of what is shown.
    pub fn turn(&mut self, forward: bool)
        ensures
            final(self)@ == old(self)@.turn(forward),
    {
        reveal(ReaderView::turn);
        match self.pane {
            Pane::Feed => {
                self.list_page = turned_page(self.list_page, forward);
                self.show();
            },
            Pane::Library => {
                self.library_page = turned_page(self.library_page, forward);
                self.show();
            },
            Pane::Detail => {
                self.detail_page = turned_page(self.detail_page, forward);
                self.show();
            },
            _ => {},
        }
    }

    /// Asks for a phrase to search for.
    fn start_search(&mut self)
        ensures
            final(self)@ == old(self)@.start_search(),
    {
        reveal(ReaderView::start_search);
        self.typed = String::new();
        self.emit(Command::ClearKeyboard);
        self.pane = Pane::Search;
    }

    /// Turns to the kept papers.
    fn open_library(&mut self)
        ensures
            final(self)@ == old(self)@.open_library(),
    {
        reveal(ReaderView::open_library);
        self.trouble = None;
        self.pane = Pane::Library;
        self.library_page = 0;
    }

    /// Does an action.
    fn act(&mut self, action: Action, memory: Option<Vec<u8>>)
        ensures
            final(self)@ == old(self)@.act(action, maybe(memory)),
    {
        reveal(ReaderView::act);
        match action {
            Action::Back => {
                self.back(memory);
                return;
            },
            Action::PageBack => {
                self.turn(false);
                return;
            },
            Action::PageNext => {
                self.turn(true);
                return;
            },
            Action::Refresh => {
                if self.pane == Pane::Collections {
                    self.fetch_collections();
                } else {
                    self.refresh();
                }
            },
            Action::Search => self.start_search(),
            Action::Library => self.open_library(),
            Action::ChangeCollection => self.fetch_collections(),
            Action::FullText => self.start_conversion(),
            Action::Keep => self.keep_document(),
            Action::Discard => self.discard_document(),
            Action::ToggleRead => self.toggle_read(),
            Action::RetryMemory => self.retry_memory(),
            Action::Collection(index) => {
                if index >= self.collections.len() {
                    return;
                }
                self.select_collection(index);
            },
            Action::Paper(index) => {
                if index >= self.snapshot.papers.len() {
                    return;
                }
                self.open_paper(index, memory);
            },
            Action::Kept(index) => {
                if index >= self.library.len() {
                    return;
                }
                self.open_kept(index, memory);
            },
        }
        self.show();
    }

    /// Takes a press.
    pub fn on_action(&mut self, press: Press)
        ensures
            final(self)@ == old(self)@.on_action(press@),
    {
        reveal(ReaderView::on_action);
        self.typed = press.typed;
        match (self.pane, press.pressed, press.outcome) {
            (Pane::Setup, Some(pressed), _) => self.typed_user(pressed),
            (Pane::Search, Some(pressed), _) => self.typed_phrase(pressed),
            (Pane::FullText, _, Some(outcome)) => self.follow_book(outcome, press.memory),
            _ => {
                if let Some(action) = press.action {
                    self.act(action, press.memory);
                }
            },
        }
    }

    /// Saves the reading memory before the reader is left for a while.
    pub fn on_background(&mut self, memory: Option<Vec<u8>>)
        ensures
            final(self)@ == old(self)@.save_memory(maybe(memory)),
    {
        self.save_memory(memory);
    }

    /// Saves the reading memory before the device sleeps.
    pub fn on_suspend(&mut self, memory: Option<Vec<u8>>)
        ensures
            final(self)@ == old(self)@.save_memory(maybe(memory)),
    {
        self.save_memory(memory);
    }

    /// Closes the document at the end. Nothing can be saved any more then: an
    /// answer from the shelf would come too late.
    pub fn on_exit(&mut self)
        ensures
            final(self)@ == old(self)@.emits(CommandView::CloseBook),
    {
        self.emit(Command::CloseBook);
    }
}

/// One page on or back.
fn turned_page(page: usize, forward: bool) -> (next: usize)
    ensures
        next == turned(page, forward),
{
    if forward {
        if page < usize::MAX {
            page + 1
        } else {
            page
        }
    } else if page > 0 {
        page - 1
    } else {
        page
    }
}

} // verus!

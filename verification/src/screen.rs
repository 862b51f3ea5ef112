//! Screens, as lists of the parts that they are made of.
use vstd::prelude::*;

use crate::text::seen;

verus! {

/// How much attention a banner asks for.
#[derive(Clone, Copy, Debug, PartialEq, Eq, Structural)]
pub enum Level {
    Attention,
    Info,
}

/// A small drawing.
#[derive(Clone, Copy, Debug, PartialEq, Eq, Structural)]
pub enum Glyph {
    Book,
    Bookmark,
    Check,
    Download,
    Folder,
    Search,
    Trash,
}

/// What stands before a row.
#[derive(Clone, Copy, Debug, PartialEq, Eq, Structural)]
pub enum Lead {
    Icon(Glyph),
    Number(u16),
}

/// Something to press, with the name of its action.
#[derive(Clone, Copy, Debug, PartialEq, Eq)]
pub struct Button {
    pub action: &'static str,
    pub label: &'static str,
    pub glyph: Glyph,
}

#[verifier::ext_equal]
pub struct ButtonView {
    pub action: Seq<char>,
    pub label: Seq<char>,
    pub glyph: Glyph,
}

impl View for Button {
    type V = ButtonView;

    open spec fn view(&self) -> ButtonView {
        ButtonView { action: self.action@, label: self.label@, glyph: self.glyph }
    }
}

/// A row of a list, with the name of its action.
#[derive(Debug, PartialEq, Eq)]
pub struct Row {
    pub action: String,
    pub title: String,
    pub detail: String,
    pub lead: Lead,
}

#[verifier::ext_equal]
pub struct RowView {
    pub action: Seq<char>,
    pub title: Seq<char>,
    pub detail: Seq<char>,
    pub lead: Lead,
}

impl View for Row {
    type V = RowView;

    open spec fn view(&self) -> RowView {
        RowView {
            action: self.action@,
            title: self.title@,
            detail: self.detail@,
            lead: self.lead,
        }
    }
}

/// A part of a screen.
#[derive(Debug, PartialEq, Eq)]
pub enum Part {
    TopBar(String),
    TopBarButton(Button),
    Heading(String),
    Text(String),
    Banner { level: Level, text: String },
    /// A named field with what it holds and what belongs in it.
    Field { name: String, text: String, hint: String },
    /// What the keyboard holds, or what belongs there.
    Typed { hint: String },
    /// The keyboard, with what its return key says.
    Keyboard { submit: String },
    Activity(String),
    Skeleton(u16),
    EmptyState(String),
    Rows(Vec<Row>),
    BottomAction(Button),
    ActionBar(Vec<Button>),
    /// The actions that turn the page.
    PageTurns { back: String, next: String },
    PagePosition { page: u16, total: u16 },
}

#[verifier::ext_equal]
pub enum PartView {
    TopBar(Seq<char>),
    TopBarButton(ButtonView),
    Heading(Seq<char>),
    Text(Seq<char>),
    Banner { level: Level, text: Seq<char> },
    Field { name: Seq<char>, text: Seq<char>, hint: Seq<char> },
    Typed { hint: Seq<char> },
    Keyboard { submit: Seq<char> },
    Activity(Seq<char>),
    Skeleton(u16),
    EmptyState(Seq<char>),
    Rows(Seq<RowView>),
    BottomAction(ButtonView),
    ActionBar(Seq<ButtonView>),
    PageTurns { back: Seq<char>, next: Seq<char> },
    PagePosition { page: u16, total: u16 },
}

impl View for Part {
    type V = PartView;

    open spec fn view(&self) -> PartView {
        match self {
            Part::TopBar(title) => PartView::TopBar(title@),
            Part::TopBarButton(button) => PartView::TopBarButton(button@),
            Part::Heading(text) => PartView::Heading(text@),
            Part::Text(text) => PartView::Text(text@),
            Part::Banner { level, text } => PartView::Banner { level: *level, text: text@ },
            Part::Field { name, text, hint } => PartView::Field {
                name: name@,
                text: text@,
                hint: hint@,
            },
            Part::Typed { hint } => PartView::Typed { hint: hint@ },
            Part::Keyboard { submit } => PartView::Keyboard { submit: submit@ },
            Part::Activity(text) => PartView::Activity(text@),
            Part::Skeleton(rows) => PartView::Skeleton(*rows),
            Part::EmptyState(text) => PartView::EmptyState(text@),
            Part::Rows(rows) => PartView::Rows(seen(rows@)),
            Part::BottomAction(button) => PartView::BottomAction(button@),
            Part::ActionBar(buttons) => PartView::ActionBar(seen(buttons@)),
            Part::PageTurns { back, next } => PartView::PageTurns { back: back@, next: next@ },
            Part::PagePosition { page, total } => PartView::PagePosition {
                page: *page,
                total: *total,
            },
        }
    }
}

/// A screen: its parts from top to bottom, and whether going back is the
/// reader's business rather than the device's.
#[derive(Debug, PartialEq, Eq)]
pub struct Screen {
    pub id: String,
    pub parts: Vec<Part>,
    pub owns_back: bool,
}

#[verifier::ext_equal]
pub struct ScreenView {
    pub id: Seq<char>,
    pub parts: Seq<PartView>,
    pub owns_back: bool,
}

impl View for Screen {
    type V = ScreenView;

    open spec fn view(&self) -> ScreenView {
        ScreenView { id: self.id@, parts: seen(self.parts@), owns_back: self.owns_back }
    }
}

impl ScreenView {
    /// A screen without parts.
    pub open spec fn empty(id: Seq<char>) -> ScreenView {
        ScreenView { id, parts: Seq::empty(), owns_back: false }
    }

    pub open spec fn with(self, part: PartView) -> ScreenView {
        ScreenView { parts: self.parts.push(part), ..self }
    }

    pub open spec fn with_some(self, part: Option<PartView>) -> ScreenView {
        match part {
            Some(part) => self.with(part),
            None => self,
        }
    }

    pub open spec fn titled(self, title: Seq<char>) -> ScreenView {
        self.with(PartView::TopBar(title))
    }

    /// The lines as texts, one after the other.
    pub open spec fn with_lines(self, lines: Seq<Seq<char>>) -> ScreenView
        decreases lines.len(),
    {
        if lines.len() == 0 {
            self
        } else {
            self.with_lines(lines.drop_last()).with(PartView::Text(lines.last()))
        }
    }
}

impl Screen {
    /// A screen without parts.
    pub fn empty(id: &str) -> (screen: Screen)
        ensures
            screen@ == ScreenView::empty(id@),
    {
        let screen = Screen { id: id.to_owned(), parts: Vec::new(), owns_back: false };
        assert(screen@.parts =~= Seq::empty());
        screen
    }

    /// Adds a part.
    pub fn put(&mut self, part: Part)
        ensures
            final(self)@ == old(self)@.with(part@),
    {
        let ghost before = self.parts@;
        self.parts.push(part);
        assert(seen(self.parts@) =~= seen(before).push(part@));
    }

    /// Adds a title.
    pub fn put_title(&mut self, title: &str)
        ensures
            final(self)@ == old(self)@.titled(title@),
    {
        self.put(Part::TopBar(title.to_owned()));
    }

    /// Adds lines.
    pub fn put_lines(&mut self, lines: &Vec<String>)
        ensures
            final(self)@ == old(self)@.with_lines(seen(lines@)),
    {
        let ghost all = seen(lines@);
        for i in 0..lines.len()
            invariant
                all == seen(lines@),
                self@ == old(self)@.with_lines(all.take(i as int)),
        {
            proof {
                assert(all.take(i + 1).drop_last() =~= all.take(i as int));
                assert(all.take(i + 1).last() == lines@[i as int]@);
            }
            self.put(Part::Text(lines[i].clone()));
        }
        assert(all.take(lines@.len() as int) =~= all);
    }
}

} // verus!

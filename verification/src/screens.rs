//! What the reader shows.
use vstd::prelude::*;
use vstd::string::*;

use crate::model::{Paper, PaperView};
use crate::number::{decimal, decimal_text};
use crate::reader::{Pane, ReaderView, ReadingList};
use crate::records::{Kept, KeptView};
use crate::screen::{
    Button, ButtonView, Glyph, Lead, Level, Part, PartView, Row, RowView, Screen, ScreenView,
};
use crate::text::{holds_text, joined_pair, maybe, same_text, seen};
use crate::wording::{page_number, page_total, shown_count};
use crate::work::Awaiting;

verus! {

/// The first paper with a key.
pub open spec fn first_keyed(papers: Seq<PaperView>, key: Seq<char>) -> Option<PaperView>
    decreases papers.len(),
{
    if papers.len() == 0 {
        None
    } else if papers[0].key == key {
        Some(papers[0])
    } else {
        first_keyed(papers.drop_first(), key)
    }
}

/// The page that is shown: the wanted one, or the last if there are fewer.
pub open spec fn shown_page(wanted: usize, count: nat) -> nat {
    if count == 0 {
        0
    } else if wanted < count {
        wanted as nat
    } else {
        (count - 1) as nat
    }
}

/// The page at a position; empty where there is none.
pub open spec fn page_at<A>(pages: Seq<Seq<A>>, page: nat) -> Seq<A> {
    if page < pages.len() {
        pages[page as int]
    } else {
        Seq::empty()
    }
}

/// Which rows stand on each page.
pub open spec fn pages_of(pages: Seq<Vec<usize>>) -> Seq<Seq<usize>> {
    pages.map_values(|page: Vec<usize>| page@)
}

pub open spec fn button(action: Seq<char>, label: Seq<char>, glyph: Glyph) -> ButtonView {
    ButtonView { action, label, glyph }
}

/// A kept paper's creators and size.
pub open spec fn kept_summary(kept: KeptView) -> Seq<char> {
    kept.creators + " · "@ + decimal((kept.bytes / 1024) as nat) + " KB"@
}

pub open spec fn collection_row(index: nat, name: Seq<char>, key: Seq<char>) -> RowView {
    RowView {
        action: "collection-"@ + decimal(index),
        title: name,
        detail: key,
        lead: Lead::Icon(Glyph::Bookmark),
    }
}

pub open spec fn kept_row(index: usize, kept: KeptView) -> RowView {
    RowView {
        action: "kept-"@ + decimal(index as nat),
        title: kept.title,
        detail: kept_summary(kept),
        lead: Lead::Icon(Glyph::Bookmark),
    }
}

impl ReaderView {
    /// Whether the reader waits for this.
    pub open spec fn awaits(self, awaiting: Awaiting) -> bool {
        self.task is Some && (self.task->0).1 == awaiting
    }

    /// The message about what went wrong.
    pub open spec fn trouble_banner(self) -> Option<PartView> {
        match self.trouble {
            Some(text) => Some(PartView::Banner { level: Level::Attention, text }),
            None => None,
        }
    }

    /// Whether a reading memory can be saved again.
    pub open spec fn may_retry(self) -> bool {
        self.pending_memory is Some && !self.memory_upload
    }

    /// A paper's creators and year, and whether it was read.
    pub open spec fn paper_summary(self, paper: PaperView) -> Seq<char> {
        let summary = paper.summed_up();
        if self.read_keys.contains(paper.key) {
            if summary.len() > 0 {
                summary + " · "@ + "Read"@
            } else {
                summary + "Read"@
            }
        } else {
            summary
        }
    }

    pub open spec fn setup_screen(self) -> ScreenView {
        ScreenView::empty("zotero-reader-setup"@).titled("Zotero Reader"@).with(
            PartView::Heading("Connect your Zotero library"@),
        ).with(
            PartView::Text(
                "Create a dedicated read-only key in Zotero, install it with `kobo secret set zotero --device <address>`, then enter the numeric user ID shown beside that key."@,
            ),
        ).with_some(self.trouble_banner()).with(
            PartView::Field {
                name: "zotero-user-id"@,
                text: self.typed,
                hint: "Numeric Zotero user ID"@,
            },
        ).with(PartView::Keyboard { submit: "Continue"@ })
    }

    pub open spec fn collection_rows(self) -> Seq<RowView> {
        Seq::new(
            self.collections.len(),
            |i: int| collection_row(i as nat, self.collections[i].name, self.collections[i].key),
        )
    }

    pub open spec fn collections_screen(self) -> ScreenView {
        let start = ScreenView::empty("zotero-reader-collections"@).titled(
            "Choose collection"@,
        ).with_some(self.trouble_banner());
        if self.awaits(Awaiting::Collections) {
            start.with(PartView::Activity("Reading Zotero collections"@))
        } else if self.collections.len() == 0 {
            start.with(
                PartView::EmptyState("This Zotero library contains no collections."@),
            ).with(PartView::BottomAction(button("refresh"@, "Try again"@, Glyph::Download)))
        } else {
            start.with(PartView::Rows(self.collection_rows()))
        }
    }

    /// What went wrong, that there are more papers, or which was opened last.
    pub open spec fn feed_banner(self) -> Option<PartView> {
        if self.trouble is Some {
            self.trouble_banner()
        } else if self.snapshot.truncated {
            Some(
                PartView::Banner {
                    level: Level::Info,
                    text: "Showing the newest "@ + decimal(self.snapshot.papers.len())
                        + " items; this collection contains more."@,
                },
            )
        } else {
            match self.last_opened {
                Some(key) => match first_keyed(self.snapshot.papers, key) {
                    Some(paper) => Some(
                        PartView::Banner {
                            level: Level::Info,
                            text: "Last opened: "@ + paper.title,
                        },
                    ),
                    None => None,
                },
                None => None,
            }
        }
    }

    pub open spec fn feed_actions(self) -> Seq<ButtonView> {
        let always = seq![
            button("refresh"@, "Refresh"@, Glyph::Download),
            button("search"@, "Search"@, Glyph::Search),
        ];
        if self.may_retry() {
            always.push(button("retry-memory"@, "Retry position"@, Glyph::Download))
        } else {
            always
        }
    }

    /// The row of a listed paper; none where the position is not in the list.
    pub open spec fn paper_row(self, shown: usize) -> Option<RowView> {
        if shown < self.filtered.len() && self.filtered[shown as int]
            < self.snapshot.papers.len() {
            let index = self.filtered[shown as int];
            let paper = self.snapshot.papers[index as int];
            Some(
                RowView {
                    action: "paper-"@ + decimal(index as nat),
                    title: paper.title,
                    detail: self.paper_summary(paper),
                    lead: Lead::Number(shown_count((shown + 1) as nat)),
                },
            )
        } else {
            None
        }
    }

    pub open spec fn paper_rows(self) -> spec_fn(usize) -> Option<RowView> {
        |shown: usize| self.paper_row(shown)
    }

    /// The header's buttons: the kept papers and the other collections.
    pub open spec fn with_feed_buttons(self, screen: ScreenView) -> ScreenView {
        screen.with(
            PartView::TopBarButton(button("library"@, "Offline"@, Glyph::Bookmark)),
        ).with(
            PartView::TopBarButton(button("change-collection"@, "Collections"@, Glyph::Folder)),
        ).with(PartView::ActionBar(self.feed_actions()))
    }

    /// Whether the first papers are still on their way.
    pub open spec fn expects_papers(self) -> bool {
        self.snapshot.papers.len() == 0 && self.task is Some && (self.task->0).1 is SnapshotPage
    }

    pub open spec fn feed_start(self) -> ScreenView {
        ScreenView::empty("zotero-reader-feed"@).titled(
            match self.selected {
                Some(collection) => collection.name,
                None => "Zotero Reader"@,
            },
        ).with_some(self.feed_banner())
    }

    pub open spec fn feed_screen(self, pages: Seq<Seq<usize>>) -> ScreenView {
        let start = self.feed_start();
        if self.expects_papers() {
            start.with(PartView::Skeleton(6))
        } else if self.filtered.len() == 0 {
            self.with_feed_buttons(
                start.with(PartView::EmptyState("No cached papers match this list or search."@)),
            )
        } else {
            let page = shown_page(self.list_page, pages.len());
            self.with_feed_buttons(
                start.with(PartView::Rows(page_at(pages, page).filter_map(self.paper_rows()))),
            ).with(PartView::PageTurns { back: "list-back"@, next: "list-next"@ }).with(
                page_position(page, pages.len()),
            )
        }
    }

    pub open spec fn search_screen(self) -> ScreenView {
        ScreenView::empty("zotero-reader-search"@).titled("Search cached papers"@).with(
            PartView::Typed { hint: "Title, author, or tag"@ },
        ).with(PartView::Keyboard { submit: "Search"@ })
    }

    /// Whether the open paper was read.
    pub open spec fn opened_is_read(self) -> bool {
        self.opened_key is Some && self.read_keys.contains(self.opened_key->0)
    }

    /// Whether the open paper is kept.
    pub open spec fn opened_is_kept(self) -> bool {
        self.opened_key is Some && self.is_kept(self.opened_key->0)
    }

    /// Whether the open paper has a stored PDF.
    pub open spec fn opened_has_pdf(self) -> bool {
        self.detail is Some && (self.detail->0).paper.has_pdf
    }

    /// Opening the text, if there is one to open.
    pub open spec fn text_actions(self) -> Seq<ButtonView> {
        if self.opened_has_pdf() || self.opened_is_kept() {
            seq![
                button(
                    "full-text"@,
                    if self.opened_is_kept() {
                        "Open offline text"@
                    } else if self.bridge is Some {
                        "Convert stored PDF"@
                    } else {
                        "Open Zotero indexed text"@
                    },
                    Glyph::Book,
                ),
            ]
        } else {
            Seq::empty()
        }
    }

    /// Keeping the text, or not keeping it any longer.
    pub open spec fn keep_actions(self) -> Seq<ButtonView> {
        if self.opened_is_kept() {
            seq![button("discard"@, "Remove offline"@, Glyph::Trash)]
        } else if self.fetched_html is Some {
            seq![button("keep"@, "Keep offline"@, Glyph::Download)]
        } else {
            Seq::empty()
        }
    }

    pub open spec fn detail_actions(self) -> Seq<ButtonView> {
        let actions = self.text_actions() + self.keep_actions();
        if self.may_retry() {
            actions.push(button("retry-memory"@, "Retry memory"@, Glyph::Download))
        } else {
            actions
        }
    }

    /// Whether the details are on their way.
    pub open spec fn expects_detail(self) -> bool {
        self.awaits(Awaiting::Detail) || self.awaits(Awaiting::DetailChildren)
    }

    pub open spec fn detail_start(self) -> ScreenView {
        ScreenView::empty("zotero-reader-detail"@).titled(self.opened_title).with(
            PartView::TopBarButton(
                button(
                    "toggle-read"@,
                    if self.opened_is_read() {
                        "Mark unread"@
                    } else {
                        "Mark read"@
                    },
                    Glyph::Check,
                ),
            ),
        ).with_some(self.trouble_banner())
    }

    pub open spec fn detail_screen(self) -> ScreenView {
        let start = self.detail_start();
        if self.expects_detail() {
            start.with(PartView::Activity("Fetching paper details"@))
        } else {
            let page = shown_page(self.detail_page, self.detail_pages.len());
            with_actions(
                start.with_lines(page_at(self.detail_pages, page)),
                self.detail_actions(),
            ).with(PartView::PageTurns { back: "read-back"@, next: "read-next"@ }).with(
                page_position(page, self.detail_pages.len()),
            )
        }
    }

    pub open spec fn converting_screen(self) -> ScreenView {
        ScreenView::empty("zotero-reader-converting"@).titled(self.opened_title).with(
            PartView::Activity(
                if self.document_loading {
                    "Opening offline text"@
                } else if self.awaits(Awaiting::ZoteroFullText) {
                    "Fetching Zotero indexed text"@
                } else if self.awaits(Awaiting::Document) {
                    "Fetching converted text"@
                } else {
                    "Converting the stored PDF"@
                },
            ),
        ).with(
            PartView::Text(
                if self.bridge is Some {
                    "The first bridge conversion can take several minutes."@
                } else {
                    "Direct mode uses Zotero's plain-text index; figures and document layout require the optional bridge."@
                },
            ),
        )
    }

    /// The row of a kept paper; none where there is none.
    pub open spec fn kept_rows(self) -> spec_fn(usize) -> Option<RowView> {
        |index: usize|
            if index < self.library.len() {
                Some(kept_row(index, self.library[index as int]))
            } else {
                None
            }
    }

    pub open spec fn retry_position(self) -> Option<PartView> {
        if self.may_retry() {
            Some(
                PartView::BottomAction(
                    button("retry-memory"@, "Retry reading position"@, Glyph::Download),
                ),
            )
        } else {
            None
        }
    }

    pub open spec fn library_screen(self, pages: Seq<Seq<usize>>) -> ScreenView {
        let start = ScreenView::empty("zotero-reader-library"@).titled(
            "Offline papers"@,
        ).with_some(self.trouble_banner());
        if self.library.len() == 0 {
            start.with(
                PartView::EmptyState("No paper text is kept on this reader yet."@),
            ).with_some(self.retry_position())
        } else {
            let page = shown_page(self.library_page, pages.len());
            start.with(
                PartView::Rows(page_at(pages, page).filter_map(self.kept_rows())),
            ).with(PartView::PageTurns { back: "list-back"@, next: "list-next"@ }).with(
                page_position(page, pages.len()),
            ).with_some(self.retry_position())
        }
    }

    /// Whether the reader itself goes back from what it shows.
    pub open spec fn owns_back(self) -> bool {
        !(self.pane is Setup || self.pane is Feed)
    }

    /// What the reader shows. In place of a text that is not open stand its
    /// details.
    pub open spec fn screen(self, pages: Seq<Seq<usize>>) -> ScreenView {
        let shown = match self.pane {
            Pane::Setup => self.setup_screen(),
            Pane::Collections => self.collections_screen(),
            Pane::Feed => self.feed_screen(pages),
            Pane::Search => self.search_screen(),
            Pane::Detail | Pane::FullText => self.detail_screen(),
            Pane::Converting => self.converting_screen(),
            Pane::Library => self.library_screen(pages),
        };
        ScreenView { owns_back: self.owns_back(), ..shown }
    }

    pub open spec fn listed(self) -> spec_fn(usize) -> Option<(Seq<char>, Seq<char>)> {
        |index: usize|
            if index < self.snapshot.papers.len() {
                let paper = self.snapshot.papers[index as int];
                Some((paper.title, self.paper_summary(paper)))
            } else {
                None
            }
    }

    /// The rows of the list that is shown, for dividing them into pages.
    pub open spec fn rows(self) -> Seq<(Seq<char>, Seq<char>)> {
        match self.pane {
            Pane::Feed => self.filtered.filter_map(self.listed()),
            Pane::Library => self.library.map_values(
                |kept: KeptView| (kept.title, kept_summary(kept)),
            ),
            _ => Seq::empty(),
        }
    }
}

pub open spec fn page_position(page: nat, count: nat) -> PartView {
    PartView::PagePosition {
        page: shown_count(page + 1),
        total: shown_count(
            if count == 0 {
                1
            } else {
                count
            },
        ),
    }
}

/// A single action stands at the bottom, several in a bar.
pub open spec fn with_actions(screen: ScreenView, actions: Seq<ButtonView>) -> ScreenView {
    if actions.len() == 0 {
        screen
    } else if actions.len() == 1 {
        screen.with(PartView::BottomAction(actions[0]))
    } else {
        screen.with(PartView::ActionBar(actions))
    }
}

/// The page that is shown.
fn page_to_show(wanted: usize, count: usize) -> (page: usize)
    ensures
        page == shown_page(wanted, count as nat),
{
    if count == 0 {
        0
    } else if wanted < count {
        wanted
    } else {
        count - 1
    }
}

/// Adds where the shown page stands.
fn put_position(screen: &mut Screen, page: usize, count: usize)
    requires
        page == 0 || page < count,
    ensures
        final(screen)@ == old(screen)@.with(page_position(page as nat, count as nat)),
{
    screen.put(Part::PagePosition { page: page_number(page), total: page_total(count) });
}

/// Adds a button to some.
fn push_button(buttons: &mut Vec<Button>, action: &'static str, label: &'static str, glyph: Glyph)
    ensures
        seen(final(buttons)@) == seen(old(buttons)@).push(button(action@, label@, glyph)),
{
    let ghost before = buttons@;
    buttons.push(Button { action, label, glyph });
    assert(seen(buttons@) =~= seen(before).push(button(action@, label@, glyph)));
}

/// Adds a single action at the bottom, or several in a bar.
fn put_actions(screen: &mut Screen, actions: Vec<Button>)
    ensures
        final(screen)@ == with_actions(old(screen)@, seen(actions@)),
{
    if actions.len() == 0 {
        return;
    }
    if actions.len() == 1 {
        screen.put(Part::BottomAction(actions[0]));
    } else {
        screen.put(Part::ActionBar(actions));
    }
}

/// Writes a kept paper's creators and size.
fn summary_of_kept(kept: &Kept) -> (summary: String)
    ensures
        summary@ == kept_summary(kept@),
{
    let mut summary = kept.creators.clone();
    summary.append(" · ");
    let kilobytes = decimal_text((kept.bytes / 1024) as u64);
    summary.append(&kilobytes);
    summary.append(" KB");
    summary
}

/// Copies the positions on a page; none where there is no such page.
fn positions_on(pages: &Vec<Vec<usize>>, page: usize) -> (positions: Vec<usize>)
    ensures
        positions@ == page_at(pages_of(pages@), page as nat),
{
    if page < pages.len() {
        let positions = pages[page].clone();
        assert(positions@ =~= pages_of(pages@)[page as int]);
        positions
    } else {
        let positions: Vec<usize> = Vec::new();
        assert(positions@ =~= Seq::empty());
        positions
    }
}

impl ReadingList {
    fn awaits(&self, awaiting: Awaiting) -> (found: bool)
        ensures
            found == self@.awaits(awaiting),
    {
        match self.task {
            Some((_, waiting)) => waiting == awaiting,
            None => false,
        }
    }

    fn may_retry(&self) -> (found: bool)
        ensures
            found == self@.may_retry(),
    {
        self.pending_memory.is_some() && !self.memory_upload
    }

    fn put_trouble(&self, screen: &mut Screen)
        ensures
            final(screen)@ == old(screen)@.with_some(self@.trouble_banner()),
    {
        if let Some(trouble) = &self.trouble {
            screen.put(Part::Banner { level: Level::Attention, text: trouble.clone() });
        }
    }

    /// A paper's creators and year, and whether it was read.
    pub fn paper_summary(&self, paper: &Paper) -> (summary: String)
        ensures
            summary@ == self@.paper_summary(paper@),
    {
        let mut summary = paper.summary();
        if holds_text(&self.read_keys, &paper.key) {
            if !summary.as_str().is_empty() {
                summary.append(" · ");
            }
            summary.append("Read");
        }
        summary
    }

    /// Asks for the user.
    pub fn setup_screen(&self) -> (screen: Screen)
        ensures
            screen@ == self@.setup_screen(),
    {
        let mut screen = Screen::empty("zotero-reader-setup");
        screen.put_title("Zotero Reader");
        screen.put(Part::Heading("Connect your Zotero library".to_owned()));
        screen.put(
            Part::Text(
                "Create a dedicated read-only key in Zotero, install it with `kobo secret set zotero --device <address>`, then enter the numeric user ID shown beside that key.".to_owned(),
            ),
        );
        self.put_trouble(&mut screen);
        screen.put(
            Part::Field {
                name: "zotero-user-id".to_owned(),
                text: self.typed.clone(),
                hint: "Numeric Zotero user ID".to_owned(),
            },
        );
        screen.put(Part::Keyboard { submit: "Continue".to_owned() });
        screen
    }

    /// The rows of the collections.
    fn collection_rows(&self) -> (rows: Vec<Row>)
        ensures
            seen(rows@) == self@.collection_rows(),
    {
        let mut rows: Vec<Row> = Vec::new();
        let ghost all = self@.collection_rows();
        assert(seen(rows@) =~= all.take(0));
        for i in 0..self.collections.len()
            invariant
                all == self@.collection_rows(),
                seen(rows@) == all.take(i as int),
        {
            let number = decimal_text(i as u64);
            let collection = &self.collections[i];
            let ghost before = rows@;
            let row = Row {
                action: joined_pair("collection-", &number),
                title: collection.name.clone(),
                detail: collection.key.clone(),
                lead: Lead::Icon(Glyph::Bookmark),
            };
            let ghost added = row@;
            rows.push(row);
            assert(added == all[i as int]);
            assert(seen(rows@) =~= seen(before).push(added));
            assert(seen(rows@) =~= all.take(i + 1));
        }
        assert(all.take(self.collections@.len() as int) =~= all);
        rows
    }

    /// Lists the collections.
    pub fn collections_screen(&self) -> (screen: Screen)
        ensures
            screen@ == self@.collections_screen(),
    {
        let mut screen = Screen::empty("zotero-reader-collections");
        screen.put_title("Choose collection");
        self.put_trouble(&mut screen);
        if self.awaits(Awaiting::Collections) {
            screen.put(Part::Activity("Reading Zotero collections".to_owned()));
        } else if self.collections.len() == 0 {
            screen.put(
                Part::EmptyState("This Zotero library contains no collections.".to_owned()),
            );
            screen.put(
                Part::BottomAction(
                    Button { action: "refresh", label: "Try again", glyph: Glyph::Download },
                ),
            );
        } else {
            screen.put(Part::Rows(self.collection_rows()));
        }
        screen
    }

    /// The title of the paper with a key.
    fn title_of(&self, key: &str) -> (title: Option<String>)
        ensures
            match first_keyed(self@.snapshot.papers, key@) {
                Some(paper) => title is Some && title->0@ == paper.title,
                None => title is None,
            },
    {
        let ghost all = self@.snapshot.papers;
        assert(all.skip(0) =~= all);
        for i in 0..self.snapshot.papers.len()
            invariant
                all == self@.snapshot.papers,
                first_keyed(all, key@) == first_keyed(all.skip(i as int), key@),
        {
            let paper = &self.snapshot.papers[i];
            proof {
                assert(all.skip(i as int)[0] == paper@);
                assert(all.skip(i as int).drop_first() =~= all.skip(i + 1));
            }
            if same_text(&paper.key, key) {
                return Some(paper.title.clone());
            }
        }
        assert(all.skip(self.snapshot.papers@.len() as int) =~= Seq::empty());
        None
    }

    fn put_feed_banner(&self, screen: &mut Screen)
        ensures
            final(screen)@ == old(screen)@.with_some(self@.feed_banner()),
    {
        if self.trouble.is_some() {
            self.put_trouble(screen);
        } else if self.snapshot.truncated {
            let mut text = "Showing the newest ".to_owned();
            let count = decimal_text(self.snapshot.papers.len() as u64);
            text.append(&count);
            text.append(" items; this collection contains more.");
            screen.put(Part::Banner { level: Level::Info, text });
        } else if let Some(key) = &self.last_opened {
            if let Some(title) = self.title_of(key) {
                let text = joined_pair("Last opened: ", &title);
                screen.put(Part::Banner { level: Level::Info, text });
            }
        }
    }

    fn feed_actions(&self) -> (actions: Vec<Button>)
        ensures
            seen(actions@) == self@.feed_actions(),
    {
        let mut actions: Vec<Button> = Vec::new();
        push_button(&mut actions, "refresh", "Refresh", Glyph::Download);
        push_button(&mut actions, "search", "Search", Glyph::Search);
        assert(seen(actions@) =~= seq![
            button("refresh"@, "Refresh"@, Glyph::Download),
            button("search"@, "Search"@, Glyph::Search),
        ]);
        if self.may_retry() {
            push_button(&mut actions, "retry-memory", "Retry position", Glyph::Download);
        }
        actions
    }

    fn put_feed_buttons(&self, screen: &mut Screen)
        ensures
            final(screen)@ == self@.with_feed_buttons(old(screen)@),
    {
        screen.put(
            Part::TopBarButton(
                Button { action: "library", label: "Offline", glyph: Glyph::Bookmark },
            ),
        );
        screen.put(
            Part::TopBarButton(
                Button {
                    action: "change-collection",
                    label: "Collections",
                    glyph: Glyph::Folder,
                },
            ),
        );
        screen.put(Part::ActionBar(self.feed_actions()));
    }

    /// The row of a listed paper.
    fn paper_row(&self, shown: usize) -> (row: Option<Row>)
        ensures
            maybe(row) == self@.paper_row(shown),
    {
        if shown >= self.filtered.len() {
            return None;
        }
        let index: usize = self.filtered[shown];
        if index >= self.snapshot.papers.len() {
            return None;
        }
        let paper = &self.snapshot.papers[index];
        let number = decimal_text(index as u64);
        Some(
            Row {
                action: joined_pair("paper-", &number),
                title: paper.title.clone(),
                detail: self.paper_summary(paper),
                lead: Lead::Number(page_number(shown)),
            },
        )
    }

    /// The rows of the papers at these positions.
    fn paper_rows(&self, positions: &Vec<usize>) -> (rows: Vec<Row>)
        ensures
            seen(rows@) == positions@.filter_map(self@.paper_rows()),
    {
        let mut rows: Vec<Row> = Vec::new();
        let ghost row_at = self@.paper_rows();
        assert(seen(rows@) =~= positions@.take(0).filter_map(row_at));
        for i in 0..positions.len()
            invariant
                row_at == self@.paper_rows(),
                seen(rows@) == positions@.take(i as int).filter_map(row_at),
        {
            proof {
                positions@.lemma_filter_map_take_succ(row_at, i as int);
                assert(seen(rows@) + Seq::<RowView>::empty() =~= seen(rows@));
            }
            if let Some(row) = self.paper_row(positions[i]) {
                let ghost before = rows@;
                let ghost added = row@;
                rows.push(row);
                assert(seen(rows@) =~= seen(before) + seq![added]);
            }
        }
        assert(positions@.take(positions@.len() as int) =~= positions@);
        rows
    }

    fn expects_papers(&self) -> (found: bool)
        ensures
            found == self@.expects_papers(),
    {
        if self.snapshot.papers.len() > 0 {
            return false;
        }
        match self.task {
            Some((_, Awaiting::SnapshotPage(_))) => true,
            _ => false,
        }
    }

    fn feed_start(&self) -> (screen: Screen)
        ensures
            screen@ == self@.feed_start(),
    {
        let mut screen = Screen::empty("zotero-reader-feed");
        match &self.selected {
            Some(collection) => screen.put_title(&collection.name),
            None => screen.put_title("Zotero Reader"),
        }
        self.put_feed_banner(&mut screen);
        screen
    }

    /// Lists the papers.
    pub fn feed_screen(&self, pages: &Vec<Vec<usize>>) -> (screen: Screen)
        ensures
            screen@ == self@.feed_screen(pages_of(pages@)),
    {
        let mut screen = self.feed_start();
        if self.expects_papers() {
            screen.put(Part::Skeleton(6));
        } else if self.filtered.len() == 0 {
            screen.put(
                Part::EmptyState("No cached papers match this list or search.".to_owned()),
            );
            self.put_feed_buttons(&mut screen);
        } else {
            let page: usize = page_to_show(self.list_page, pages.len());
            let positions = positions_on(pages, page);
            screen.put(Part::Rows(self.paper_rows(&positions)));
            self.put_feed_buttons(&mut screen);
            screen.put(
                Part::PageTurns { back: "list-back".to_owned(), next: "list-next".to_owned() },
            );
            put_position(&mut screen, page, pages.len());
        }
        screen
    }

    /// Asks for a phrase.
    pub fn search_screen(&self) -> (screen: Screen)
        ensures
            screen@ == self@.search_screen(),
    {
        let mut screen = Screen::empty("zotero-reader-search");
        screen.put_title("Search cached papers");
        screen.put(Part::Typed { hint: "Title, author, or tag".to_owned() });
        screen.put(Part::Keyboard { submit: "Search".to_owned() });
        screen
    }

    fn opened_is_read(&self) -> (found: bool)
        ensures
            found == self@.opened_is_read(),
    {
        match &self.opened_key {
            Some(key) => holds_text(&self.read_keys, key),
            None => false,
        }
    }

    fn opened_is_kept(&self) -> (found: bool)
        ensures
            found == self@.opened_is_kept(),
    {
        match &self.opened_key {
            Some(key) => self.is_kept(key),
            None => false,
        }
    }

    fn opened_has_pdf(&self) -> (found: bool)
        ensures
            found == self@.opened_has_pdf(),
    {
        match &self.detail {
            Some(detail) => detail.paper.has_pdf,
            None => false,
        }
    }

    fn detail_actions(&self) -> (actions: Vec<Button>)
        ensures
            seen(actions@) == self@.detail_actions(),
    {
        let mut actions: Vec<Button> = Vec::new();
        let kept = self.opened_is_kept();
        assert(seen(actions@) =~= Seq::empty());
        if self.opened_has_pdf() || kept {
            let label = if kept {
                "Open offline text"
            } else if self.bridge.is_some() {
                "Convert stored PDF"
            } else {
                "Open Zotero indexed text"
            };
            push_button(&mut actions, "full-text", label, Glyph::Book);
        }
        assert(seen(actions@) =~= self@.text_actions());
        if kept {
            push_button(&mut actions, "discard", "Remove offline", Glyph::Trash);
        } else if self.fetched_html.is_some() {
            push_button(&mut actions, "keep", "Keep offline", Glyph::Download);
        }
        assert(seen(actions@) =~= self@.text_actions() + self@.keep_actions());
        if self.may_retry() {
            push_button(&mut actions, "retry-memory", "Retry memory", Glyph::Download);
        }
        actions
    }

    fn detail_start(&self) -> (screen: Screen)
        ensures
            screen@ == self@.detail_start(),
    {
        let mut screen = Screen::empty("zotero-reader-detail");
        screen.put_title(&self.opened_title);
        let label = if self.opened_is_read() {
            "Mark unread"
        } else {
            "Mark read"
        };
        screen.put(
            Part::TopBarButton(Button { action: "toggle-read", label, glyph: Glyph::Check }),
        );
        self.put_trouble(&mut screen);
        screen
    }

    /// Shows the details of the open paper.
    pub fn detail_screen(&self) -> (screen: Screen)
        ensures
            screen@ == self@.detail_screen(),
    {
        let mut screen = self.detail_start();
        if self.awaits(Awaiting::Detail) || self.awaits(Awaiting::DetailChildren) {
            screen.put(Part::Activity("Fetching paper details".to_owned()));
            return screen;
        }
        let page: usize = page_to_show(self.detail_page, self.detail_pages.len());
        if page < self.detail_pages.len() {
            screen.put_lines(&self.detail_pages[page]);
            assert(seen(self.detail_pages@[page as int]@) == self@.detail_pages[page as int]);
        }
        put_actions(&mut screen, self.detail_actions());
        screen.put(
            Part::PageTurns { back: "read-back".to_owned(), next: "read-next".to_owned() },
        );
        put_position(&mut screen, page, self.detail_pages.len());
        screen
    }

    /// Says what the reader waits for.
    pub fn converting_screen(&self) -> (screen: Screen)
        ensures
            screen@ == self@.converting_screen(),
    {
        let text = if self.document_loading {
            "Opening offline text"
        } else if self.awaits(Awaiting::ZoteroFullText) {
            "Fetching Zotero indexed text"
        } else if self.awaits(Awaiting::Document) {
            "Fetching converted text"
        } else {
            "Converting the stored PDF"
        };
        let note = if self.bridge.is_some() {
            "The first bridge conversion can take several minutes."
        } else {
            "Direct mode uses Zotero's plain-text index; figures and document layout require the optional bridge."
        };
        let mut screen = Screen::empty("zotero-reader-converting");
        screen.put_title(&self.opened_title);
        screen.put(Part::Activity(text.to_owned()));
        screen.put(Part::Text(note.to_owned()));
        screen
    }

    /// The rows of the kept papers at these positions.
    fn kept_rows(&self, positions: &Vec<usize>) -> (rows: Vec<Row>)
        ensures
            seen(rows@) == positions@.filter_map(self@.kept_rows()),
    {
        let mut rows: Vec<Row> = Vec::new();
        let ghost row_at = self@.kept_rows();
        assert(seen(rows@) =~= positions@.take(0).filter_map(row_at));
        for i in 0..positions.len()
            invariant
                row_at == self@.kept_rows(),
                seen(rows@) == positions@.take(i as int).filter_map(row_at),
        {
            proof {
                positions@.lemma_filter_map_take_succ(row_at, i as int);
                assert(seen(rows@) + Seq::<RowView>::empty() =~= seen(rows@));
            }
            let index: usize = positions[i];
            if index < self.library.len() {
                let kept = &self.library[index];
                let number = decimal_text(index as u64);
                let row = Row {
                    action: joined_pair("kept-", &number),
                    title: kept.title.clone(),
                    detail: summary_of_kept(kept),
                    lead: Lead::Icon(Glyph::Bookmark),
                };
                let ghost before = rows@;
                let ghost added = row@;
                assert(added == kept_row(index, self@.library[index as int]));
                rows.push(row);
                assert(seen(rows@) =~= seen(before) + seq![added]);
            }
        }
        assert(positions@.take(positions@.len() as int) =~= positions@);
        rows
    }

    fn put_retry(&self, screen: &mut Screen)
        ensures
            final(screen)@ == old(screen)@.with_some(self@.retry_position()),
    {
        if self.may_retry() {
            screen.put(
                Part::BottomAction(
                    Button {
                        action: "retry-memory",
                        label: "Retry reading position",
                        glyph: Glyph::Download,
                    },
                ),
            );
        }
    }

    /// Lists the kept papers.
    pub fn library_screen(&self, pages: &Vec<Vec<usize>>) -> (screen: Screen)
        ensures
            screen@ == self@.library_screen(pages_of(pages@)),
    {
        let mut screen = Screen::empty("zotero-reader-library");
        screen.put_title("Offline papers");
        self.put_trouble(&mut screen);
        if self.library.len() == 0 {
            screen.put(Part::EmptyState("No paper text is kept on this reader yet.".to_owned()));
            self.put_retry(&mut screen);
            return screen;
        }
        let page: usize = page_to_show(self.library_page, pages.len());
        let positions = positions_on(pages, page);
        screen.put(Part::Rows(self.kept_rows(&positions)));
        screen.put(
            Part::PageTurns { back: "list-back".to_owned(), next: "list-next".to_owned() },
        );
        put_position(&mut screen, page, pages.len());
        self.put_retry(&mut screen);
        screen
    }

    /// The rows of the list that is shown.
    pub fn rows(&self) -> (rows: Vec<(String, String)>)
        ensures
            seen(rows@) == self@.rows(),
    {
        match self.pane {
            Pane::Feed => self.listed_rows(),
            Pane::Library => self.library_rows(),
            _ => {
                let rows: Vec<(String, String)> = Vec::new();
                assert(seen(rows@) =~= Seq::empty());
                rows
            },
        }
    }

    fn listed_rows(&self) -> (rows: Vec<(String, String)>)
        ensures
            seen(rows@) == self@.filtered.filter_map(self@.listed()),
    {
        let mut rows: Vec<(String, String)> = Vec::new();
        let ghost row_at = self@.listed();
        assert(seen(rows@) =~= self@.filtered.take(0).filter_map(row_at));
        for i in 0..self.filtered.len()
            invariant
                row_at == self@.listed(),
                seen(rows@) == self@.filtered.take(i as int).filter_map(row_at),
        {
            proof {
                self@.filtered.lemma_filter_map_take_succ(row_at, i as int);
                assert(seen(rows@) + Seq::<(Seq<char>, Seq<char>)>::empty() =~= seen(rows@));
            }
            let index: usize = self.filtered[i];
            if index < self.snapshot.papers.len() {
                let paper = &self.snapshot.papers[index];
                let ghost before = rows@;
                let row = (paper.title.clone(), self.paper_summary(paper));
                let ghost added = row@;
                assert(row_at(index) == Some(added));
                rows.push(row);
                assert(seen(rows@) =~= seen(before) + seq![added]);
            }
        }
        assert(self@.filtered.take(self.filtered@.len() as int) =~= self@.filtered);
        rows
    }

    fn library_rows(&self) -> (rows: Vec<(String, String)>)
        ensures
            seen(rows@) == self@.library.map_values(
                |kept: KeptView| (kept.title, kept_summary(kept)),
            ),
    {
        let mut rows: Vec<(String, String)> = Vec::new();
        let ghost all = self@.library.map_values(
            |kept: KeptView| (kept.title, kept_summary(kept)),
        );
        assert(seen(rows@) =~= all.take(0));
        for i in 0..self.library.len()
            invariant
                all == self@.library.map_values(
                    |kept: KeptView| (kept.title, kept_summary(kept)),
                ),
                seen(rows@) == all.take(i as int),
        {
            let kept = &self.library[i];
            let ghost before = rows@;
            let row = (kept.title.clone(), summary_of_kept(kept));
            let ghost added = row@;
            assert(all[i as int] == added);
            rows.push(row);
            assert(seen(rows@) =~= seen(before).push(added));
            assert(seen(rows@) =~= all.take(i + 1));
        }
        assert(all.take(self.library@.len() as int) =~= all);
        rows
    }

    /// What the reader shows, with the rows divided into these pages.
    pub fn screen(&self, pages: &Vec<Vec<usize>>) -> (screen: Screen)
        ensures
            screen@ == self@.screen(pages_of(pages@)),
    {
        let mut screen = match self.pane {
            Pane::Setup => self.setup_screen(),
            Pane::Collections => self.collections_screen(),
            Pane::Feed => self.feed_screen(pages),
            Pane::Search => self.search_screen(),
            Pane::Detail | Pane::FullText => self.detail_screen(),
            Pane::Converting => self.converting_screen(),
            Pane::Library => self.library_screen(pages),
        };
        screen.owns_back = match self.pane {
            Pane::Setup | Pane::Feed => false,
            _ => true,
        };
        screen
    }
}

} // verus!

//! What is shown: every row with its own title and its own action, every
//! message, and what can be done.
use vstd::prelude::*;

use crate::actions::Action;
use crate::model::PaperView;
use crate::number::decimal;
use crate::reader::{Pane, ReaderView};
use crate::records::{lemma_all_read, KeptView};
use crate::screen::{ButtonView, Glyph, Lead, Level, PartView, RowView, ScreenView};
use crate::screens::{first_keyed, page_at, shown_page};
use crate::work::{failure_text, Awaiting, TaskError};

verus! {

proof fn lemma_with_lines(screen: ScreenView, lines: Seq<Seq<char>>)
    ensures
        screen.with_lines(lines).parts == screen.parts + lines.map_values(
            |line: Seq<char>| PartView::Text(line),
        ),
    decreases lines.len(),
{
    let texts = lines.map_values(|line: Seq<char>| PartView::Text(line));
    if lines.len() == 0 {
        assert(screen.parts + texts =~= screen.parts);
    } else {
        let front = lines.drop_last();
        lemma_with_lines(screen, front);
        assert(texts.drop_last() =~= front.map_values(|line: Seq<char>| PartView::Text(line)));
        assert(screen.with_lines(lines).parts =~= screen.parts + texts);
    }
}

/// What went wrong is shown, wherever the reader can say so.
pub proof fn law_troubles_are_shown(s: ReaderView, pages: Seq<Seq<usize>>, text: Seq<char>)
    requires
        s.trouble == Some(text),
        s.pane is Setup || s.pane is Collections || s.pane is Feed || s.pane is Detail || s.pane
            is Library,
    ensures
        s.screen(pages).parts.contains(PartView::Banner { level: Level::Attention, text }),
{
    let banner = PartView::Banner { level: Level::Attention, text };
    let parts = s.screen(pages).parts;
    match s.pane {
        Pane::Setup => {
            assert(parts[3] == banner);
        },
        Pane::Collections => {
            assert(parts[1] == banner);
        },
        Pane::Feed => {
            assert(s.feed_start().parts[1] == banner);
            assert(parts[1] == banner);
        },
        Pane::Detail => {
            let page = shown_page(s.detail_page, s.detail_pages.len());
            lemma_with_lines(s.detail_start(), page_at(s.detail_pages, page));
            assert(s.detail_start().parts[2] == banner);
            assert(parts[2] == banner);
        },
        _ => {
            assert(parts[1] == banner);
        },
    }
}

/// Each collection has its row, with its own name and key; pressing the row
/// chooses that collection.
pub proof fn law_collections_are_offered(s: ReaderView, pages: Seq<Seq<usize>>, i: int)
    requires
        s.pane is Collections,
        s.task is None,
        0 <= i < s.collections.len() <= usize::MAX,
    ensures
        s.screen(pages).parts.contains(PartView::Rows(s.collection_rows())),
        s.collection_rows().len() == s.collections.len(),
        s.collection_rows()[i].title == s.collections[i].name,
        s.collection_rows()[i].detail == s.collections[i].key,
        s.actions().contains((s.collection_rows()[i].action, Action::Collection(i as usize))),
{
    let parts = s.screen(pages).parts;
    assert(parts[parts.len() - 1] == PartView::Rows(s.collection_rows()));
    let at = crate::actions::fixed_actions().len() + i;
    assert(s.actions()[at] == ("collection-"@ + decimal(i as nat), Action::Collection(i as usize)));
}

/// How a paper is shown in the list.
pub open spec fn is_row_of(row: RowView, s: ReaderView, shown: usize) -> bool {
    let index = s.filtered[shown as int];
    let paper = s.snapshot.papers[index as int];
    &&& row.title == paper.title
    &&& row.action == "paper-"@ + decimal(index as nat)
    &&& row.detail == s.paper_summary(paper)
    &&& shown < 65535 ==> row.lead == Lead::Number((shown + 1) as u16)
}

/// The feed shows every paper of its page, in order, each with its own title,
/// summary and number; pressing its row opens it.
pub proof fn law_the_feed_shows_its_page(s: ReaderView, pages: Seq<Seq<usize>>, j: int)
    requires
        s.pane is Feed,
        s.filtered.len() > 0,
        s.snapshot.papers.len() > 0,
        s.list_page < pages.len(),
        forall|k: int|
            0 <= k < pages[s.list_page as int].len() ==> (#[trigger] pages[s.list_page as int][k])
                < s.filtered.len() && s.filtered[pages[s.list_page as int][k] as int]
                < s.snapshot.papers.len(),
        0 <= j < pages[s.list_page as int].len(),
    ensures
        exists|rows: Seq<RowView>|
            {
                &&& #[trigger] s.screen(pages).parts.contains(PartView::Rows(rows))
                &&& rows.len() == pages[s.list_page as int].len()
                &&& is_row_of(rows[j], s, pages[s.list_page as int][j])
                &&& s.actions().contains(
                    (
                        rows[j].action,
                        Action::Paper(s.filtered[pages[s.list_page as int][j] as int]),
                    ),
                )
            },
        s.screen(pages).parts.contains(
            PartView::PageTurns { back: "list-back"@, next: "list-next"@ },
        ),
{
    let page = pages[s.list_page as int];
    let rows = Seq::new(page.len(), |k: int| s.paper_row(page[k])->0);
    assert forall|k: int| 0 <= k < page.len() implies s.paper_rows()(#[trigger] page[k]) == Some(
        rows[k],
    ) by {
        assert(pages[s.list_page as int][k] < s.filtered.len());
    }
    lemma_all_read(page, s.paper_rows(), rows);
    let parts = s.screen(pages).parts;
    let n = s.feed_start().parts.len() as int;
    assert(parts[n] == PartView::Rows(rows));
    assert(parts.contains(PartView::Rows(rows)));
    assert(parts[n + 4] == (PartView::PageTurns { back: "list-back"@, next: "list-next"@ }));
    let shown = page[j];
    assert(pages[s.list_page as int][j] < s.filtered.len());
    let index = s.filtered[shown as int];
    assert(rows[j] == s.paper_row(shown)->0);
    crate::promises::law_rows_open_their_papers(s, shown);
}

/// Past the last page the last page is shown.
pub proof fn law_there_is_no_page_past_the_last(wanted: usize, count: nat)
    ensures
        wanted < count ==> shown_page(wanted, count) == wanted,
        0 < count <= wanted ==> shown_page(wanted, count) == count - 1,
        count == 0 ==> shown_page(wanted, count) == 0,
{
}

/// A paper that was read is marked as read, and no other.
pub proof fn law_read_papers_are_marked(s: ReaderView, paper: PaperView)
    ensures
        !s.read_keys.contains(paper.key) ==> s.paper_summary(paper) == paper.summed_up(),
        s.read_keys.contains(paper.key) && paper.summed_up().len() > 0 ==> s.paper_summary(paper)
            == paper.summed_up() + " · "@ + "Read"@,
        s.read_keys.contains(paper.key) && paper.summed_up().len() == 0 ==> s.paper_summary(paper)
            == "Read"@,
{
    assert(paper.summed_up().len() == 0 ==> paper.summed_up() + "Read"@ =~= "Read"@);
}

/// How a kept paper is shown.
pub open spec fn is_row_of_kept(row: RowView, index: usize, kept: KeptView) -> bool {
    &&& row.title == kept.title
    &&& row.action == "kept-"@ + decimal(index as nat)
    &&& row.detail == kept.creators + " · "@ + decimal((kept.bytes / 1024) as nat) + " KB"@
}

/// The kept papers are shown page by page, in order, each with its own title
/// and its size; pressing its row opens it.
pub proof fn law_kept_papers_are_shown(s: ReaderView, pages: Seq<Seq<usize>>, j: int)
    requires
        s.pane is Library,
        0 < s.library.len() <= usize::MAX,
        s.library_page < pages.len(),
        forall|k: int|
            0 <= k < pages[s.library_page as int].len() ==> (#[trigger] pages[s.library_page as int][k])
                < s.library.len(),
        0 <= j < pages[s.library_page as int].len(),
    ensures
        exists|rows: Seq<RowView>|
            {
                &&& #[trigger] s.screen(pages).parts.contains(PartView::Rows(rows))
                &&& rows.len() == pages[s.library_page as int].len()
                &&& is_row_of_kept(
                    rows[j],
                    pages[s.library_page as int][j],
                    s.library[pages[s.library_page as int][j] as int],
                )
                &&& s.actions().contains(
                    (rows[j].action, Action::Kept(pages[s.library_page as int][j])),
                )
            },
{
    let page = pages[s.library_page as int];
    let rows = Seq::new(
        page.len(),
        |k: int| crate::screens::kept_row(page[k], s.library[page[k] as int]),
    );
    assert forall|k: int| 0 <= k < page.len() implies s.kept_rows()(#[trigger] page[k]) == Some(
        rows[k],
    ) by {
        assert(pages[s.library_page as int][k] < s.library.len());
    }
    lemma_all_read(page, s.kept_rows(), rows);
    let parts = s.screen(pages).parts;
    let start = ScreenView::empty("zotero-reader-library"@).titled("Offline papers"@).with_some(
        s.trouble_banner(),
    );
    assert(parts[start.parts.len() as int] == PartView::Rows(rows));
    assert(parts.contains(PartView::Rows(rows)));
    let index = page[j];
    assert(pages[s.library_page as int][j] < s.library.len());
    let at = crate::actions::fixed_actions().len() + s.collections.len() + s.snapshot.papers.len()
        + index;
    assert(s.actions()[at] == ("kept-"@ + decimal(index as nat), Action::Kept(index)));
}

/// The details show every line of their page.
pub proof fn law_details_show_their_page(s: ReaderView, pages: Seq<Seq<usize>>, j: int)
    requires
        s.pane is Detail,
        s.task is None,
        s.detail_page < s.detail_pages.len(),
        0 <= j < s.detail_pages[s.detail_page as int].len(),
    ensures
        s.screen(pages).parts.contains(PartView::Text(s.detail_pages[s.detail_page as int][j])),
        s.screen(pages).parts[0] == PartView::TopBar(s.opened_title),
{
    let lines = s.detail_pages[s.detail_page as int];
    let start = s.detail_start();
    lemma_with_lines(start, lines);
    let parts = s.screen(pages).parts;
    assert(start.with_lines(lines).parts[start.parts.len() + j] == PartView::Text(lines[j]));
    assert(parts[start.parts.len() + j] == PartView::Text(lines[j]));
}

/// What can be done with a paper: its text can be opened if it is kept or if a
/// PDF is stored, it can be kept once its text is there, and it can be removed
/// if it is kept.
pub proof fn law_papers_offer_what_can_be_done(s: ReaderView)
    ensures
        ({
            let kept = s.opened_key is Some && exists|i: int|
                0 <= i < s.library.len() && (#[trigger] s.library[i]).key == s.opened_key->0;
            let stored = s.detail is Some && (s.detail->0).paper.has_pdf;
            let offered = s.detail_actions();
            &&& kept ==> offered.contains(
                ButtonView {
                    action: "full-text"@,
                    label: "Open offline text"@,
                    glyph: Glyph::Book,
                },
            )
            &&& kept ==> offered.contains(
                ButtonView {
                    action: "discard"@,
                    label: "Remove offline"@,
                    glyph: Glyph::Trash,
                },
            )
            &&& !kept && stored && s.bridge is Some ==> offered.contains(
                ButtonView {
                    action: "full-text"@,
                    label: "Convert stored PDF"@,
                    glyph: Glyph::Book,
                },
            )
            &&& !kept && stored && s.bridge is None ==> offered.contains(
                ButtonView {
                    action: "full-text"@,
                    label: "Open Zotero indexed text"@,
                    glyph: Glyph::Book,
                },
            )
            &&& !kept && s.fetched_html is Some ==> offered.contains(
                ButtonView { action: "keep"@, label: "Keep offline"@, glyph: Glyph::Download },
            )
            &&& !kept && !stored && s.fetched_html is None && s.pending_memory is None
                ==> offered.len() == 0
        }),
{
    let kept = s.opened_key is Some && exists|i: int|
        0 <= i < s.library.len() && (#[trigger] s.library[i]).key == s.opened_key->0;
    assert(kept == s.opened_is_kept());
    let offered = s.detail_actions();
    let first = s.text_actions();
    if first.len() > 0 {
        assert(offered[0] == first[0]);
    }
    if s.keep_actions().len() > 0 {
        assert(offered[first.len() as int] == s.keep_actions()[0]);
    }
}

/// While nothing is waited for, the details offer what can be done: one action
/// at the bottom, several in a bar.
pub proof fn law_actions_are_shown(s: ReaderView, pages: Seq<Seq<usize>>)
    requires
        s.pane is Detail,
        s.task is None,
    ensures
        s.detail_actions().len() == 1 ==> s.screen(pages).parts.contains(
            PartView::BottomAction(s.detail_actions()[0]),
        ),
        s.detail_actions().len() > 1 ==> s.screen(pages).parts.contains(
            PartView::ActionBar(s.detail_actions()),
        ),
{
    let page = shown_page(s.detail_page, s.detail_pages.len());
    let lines = page_at(s.detail_pages, page);
    let shown = s.detail_start().with_lines(lines);
    let n = shown.parts.len() as int;
    let parts = s.screen(pages).parts;
    if s.detail_actions().len() == 1 {
        assert(parts[n] == PartView::BottomAction(s.detail_actions()[0]));
    } else if s.detail_actions().len() > 1 {
        assert(parts[n] == PartView::ActionBar(s.detail_actions()));
    }
}

/// The feed says when the collection holds more papers than are shown, and
/// otherwise which paper was opened last.
pub proof fn law_the_feed_says_what_to_know(s: ReaderView, i: int)
    requires
        s.trouble is None,
    ensures
        s.snapshot.truncated ==> s.feed_start().parts.contains(
            PartView::Banner {
                level: Level::Info,
                text: "Showing the newest "@ + decimal(s.snapshot.papers.len())
                    + " items; this collection contains more."@,
            },
        ),
        !s.snapshot.truncated && 0 <= i < s.snapshot.papers.len() && s.last_opened == Some(
            s.snapshot.papers[i].key,
        ) && (forall|j: int|
            0 <= j < i ==> (#[trigger] s.snapshot.papers[j]).key != s.snapshot.papers[i].key)
            ==> s.feed_start().parts.contains(
            PartView::Banner {
                level: Level::Info,
                text: "Last opened: "@ + s.snapshot.papers[i].title,
            },
        ),
        s.feed_start().parts[0] == PartView::TopBar(
            match s.selected {
                Some(collection) => collection.name,
                None => "Zotero Reader"@,
            },
        ),
{
    if s.snapshot.truncated {
        assert(s.feed_start().parts[1] == (PartView::Banner {
            level: Level::Info,
            text: "Showing the newest "@ + decimal(s.snapshot.papers.len())
                + " items; this collection contains more."@,
        }));
    } else if 0 <= i < s.snapshot.papers.len() && s.last_opened == Some(s.snapshot.papers[i].key)
        && (forall|j: int|
        0 <= j < i ==> (#[trigger] s.snapshot.papers[j]).key != s.snapshot.papers[i].key) {
        lemma_first_keyed(s.snapshot.papers, i);
        assert(s.feed_start().parts[1] == (PartView::Banner {
            level: Level::Info,
            text: "Last opened: "@ + s.snapshot.papers[i].title,
        }));
    }
}

proof fn lemma_first_keyed(papers: Seq<PaperView>, i: int)
    requires
        0 <= i < papers.len(),
        forall|j: int| 0 <= j < i ==> (#[trigger] papers[j]).key != papers[i].key,
    ensures
        first_keyed(papers, papers[i].key) == Some(papers[i]),
    decreases papers.len(),
{
    if i > 0 {
        let rest = papers.drop_first();
        assert(papers[0].key != papers[i].key);
        assert forall|j: int| 0 <= j < i - 1 implies (#[trigger] rest[j]).key != rest[i - 1].key by {
            assert(rest[j] == papers[j + 1]);
        }
        lemma_first_keyed(rest, i - 1);
    }
}

/// The rows that are divided into pages are those that are shown: every listed
/// paper in order, or every kept one.
pub proof fn law_the_rows_of_a_list_are_all_there(s: ReaderView, i: int)
    ensures
        s.pane is Feed && (forall|k: int|
            0 <= k < s.filtered.len() ==> #[trigger] s.filtered[k] < s.snapshot.papers.len()) && 0
            <= i < s.filtered.len() ==> {
            let paper = s.snapshot.papers[s.filtered[i] as int];
            s.rows().len() == s.filtered.len() && s.rows()[i] == (
                paper.title,
                s.paper_summary(paper),
            )
        },
        s.pane is Library && 0 <= i < s.library.len() ==> s.rows().len() == s.library.len()
            && s.rows()[i] == (
            s.library[i].title,
            s.library[i].creators + " · "@ + decimal((s.library[i].bytes / 1024) as nat) + " KB"@,
        ),
{
    if s.pane is Feed && (forall|k: int|
        0 <= k < s.filtered.len() ==> #[trigger] s.filtered[k] < s.snapshot.papers.len()) && 0 <= i
        < s.filtered.len() {
        let rows = Seq::new(
            s.filtered.len(),
            |k: int|
                (
                    s.snapshot.papers[s.filtered[k] as int].title,
                    s.paper_summary(s.snapshot.papers[s.filtered[k] as int]),
                ),
        );
        lemma_all_read(s.filtered, s.listed(), rows);
    }
}

/// Where the reader waits it says for what.
pub proof fn law_waiting_says_for_what(s: ReaderView, pages: Seq<Seq<usize>>, number: u64)
    requires
        s.pane is Converting,
    ensures
        s.document_loading ==> s.screen(pages).parts.contains(
            PartView::Activity("Opening offline text"@),
        ),
        !s.document_loading && s.task == Some((number, Awaiting::ZoteroFullText)) ==> s.screen(
            pages,
        ).parts.contains(PartView::Activity("Fetching Zotero indexed text"@)),
        !s.document_loading && s.task == Some((number, Awaiting::Document)) ==> s.screen(
            pages,
        ).parts.contains(PartView::Activity("Fetching converted text"@)),
        !s.document_loading && s.task == Some((number, Awaiting::PollConversion)) ==> s.screen(
            pages,
        ).parts.contains(PartView::Activity("Converting the stored PDF"@)),
        s.screen(pages).parts[0] == PartView::TopBar(s.opened_title),
{
    let parts = s.screen(pages).parts;
    assert(parts[1] is Activity);
}

/// A message about a failed request speaks of the service that was asked: of
/// the conversion service only for what the bridge was asked, of Zotero for
/// everything else, and of neither when the reader is offline.
pub proof fn law_failures_name_the_service(awaiting: Awaiting, error: TaskError)
    ensures
        match awaiting {
            Awaiting::StartConversion
            | Awaiting::PollConversion
            | Awaiting::Document => failure_text(awaiting, error) == failure_text(
                Awaiting::Document,
                error,
            ),
            _ => failure_text(awaiting, error) == failure_text(Awaiting::Detail, error),
        },
        failure_text(awaiting, TaskError::Offline)
            == "This reader is offline. Cached papers are still available."@,
        failure_text(Awaiting::Document, TaskError::Unreachable)
            == "The conversion service could not be reached."@,
        failure_text(Awaiting::Detail, TaskError::Unreachable) == "Zotero could not be reached."@,
        failure_text(Awaiting::Document, TaskError::TimedOut)
            == "The conversion service took too long to answer."@,
        failure_text(Awaiting::Detail, TaskError::TimedOut) == "Zotero took too long to answer."@,
        failure_text(Awaiting::Document, TaskError::Unauthorized)
            == "The conversion service rejected its credential."@,
        failure_text(Awaiting::Detail, TaskError::Unauthorized)
            == "Zotero rejected its credential."@,
        failure_text(Awaiting::Document, TaskError::NotFound)
            == "The requested conversion is no longer available."@,
        failure_text(Awaiting::Detail, TaskError::NotFound)
            == "The requested Zotero item is no longer available."@,
        failure_text(Awaiting::Document, TaskError::TooLarge)
            == "The conversion service response exceeded the app's safety limit."@,
        failure_text(Awaiting::Detail, TaskError::TooLarge)
            == "The Zotero response exceeded the app's safety limit."@,
        failure_text(Awaiting::Document, TaskError::Denied)
            == "Zotero Reader is not allowed to reach the conversion service."@,
        failure_text(Awaiting::Detail, TaskError::Denied)
            == "Zotero Reader is not allowed to reach this endpoint."@,
        failure_text(Awaiting::Document, TaskError::NoCredential)
            == "Install the conversion-service token with: kobo secret set zotero-bridge --device <address>."@,
        failure_text(Awaiting::Detail, TaskError::NoCredential)
            == "Install a dedicated read-only Zotero key with: kobo secret set zotero --device <address>."@,
{
}

/// Where a page stands among the others is shown with it, counted from one.
pub proof fn law_the_page_is_counted(s: ReaderView, pages: Seq<Seq<usize>>)
    ensures
        s.pane is Feed && s.snapshot.papers.len() > 0 && s.filtered.len() > 0 && s.list_page
            < pages.len() <= 65535 ==> s.screen(pages).parts.contains(
            PartView::PagePosition { page: (s.list_page + 1) as u16, total: pages.len() as u16 },
        ),
        s.pane is Library && s.library.len() > 0 && s.library_page < pages.len() <= 65535
            ==> s.screen(pages).parts.contains(
            PartView::PagePosition { page: (s.library_page + 1) as u16, total: pages.len() as u16 },
        ),
        s.pane is Detail && s.task is None && s.detail_page < s.detail_pages.len() <= 65535
            ==> s.screen(pages).parts.contains(
            PartView::PagePosition {
                page: (s.detail_page + 1) as u16,
                total: s.detail_pages.len() as u16,
            },
        ),
{
    let parts = s.screen(pages).parts;
    let last = parts[parts.len() - 1];
    if s.pane is Library && s.library.len() > 0 && s.library_page < pages.len() <= 65535
        && s.retry_position() is Some {
        assert(parts[parts.len() - 2] == (PartView::PagePosition {
            page: (s.library_page + 1) as u16,
            total: pages.len() as u16,
        }));
    }
}

/// A reading memory that could not be saved can be saved again from wherever
/// the reader lists papers or shows one.
pub proof fn law_saving_again_is_offered(s: ReaderView, pages: Seq<Seq<usize>>)
    requires
        s.pending_memory is Some,
        !s.memory_upload,
    ensures
        s.detail_actions().contains(
            ButtonView { action: "retry-memory"@, label: "Retry memory"@, glyph: Glyph::Download },
        ),
        s.feed_actions().contains(
            ButtonView {
                action: "retry-memory"@,
                label: "Retry position"@,
                glyph: Glyph::Download,
            },
        ),
        s.pane is Library ==> s.screen(pages).parts.contains(
            PartView::BottomAction(
                ButtonView {
                    action: "retry-memory"@,
                    label: "Retry reading position"@,
                    glyph: Glyph::Download,
                },
            ),
        ),
{
    let actions = s.detail_actions();
    assert(actions[actions.len() - 1] == (ButtonView {
        action: "retry-memory"@,
        label: "Retry memory"@,
        glyph: Glyph::Download,
    }));
    assert(s.feed_actions()[2] == (ButtonView {
        action: "retry-memory"@,
        label: "Retry position"@,
        glyph: Glyph::Download,
    }));
    if s.pane is Library {
        let parts = s.screen(pages).parts;
        assert(parts[parts.len() - 1] == PartView::BottomAction(
            ButtonView {
                action: "retry-memory"@,
                label: "Retry reading position"@,
                glyph: Glyph::Download,
            },
        ));
    }
}

/// The reader goes back by itself everywhere but from the feed and the setup.
pub proof fn law_back_is_the_readers_own(s: ReaderView, pages: Seq<Seq<usize>>)
    ensures
        s.screen(pages).owns_back <==> !(s.pane is Setup || s.pane is Feed),
{
}

/// The user is asked for in the setup, and what is typed is shown there.
pub proof fn law_the_setup_shows_what_is_typed(s: ReaderView, pages: Seq<Seq<usize>>)
    requires
        s.pane is Setup,
    ensures
        s.screen(pages).parts.contains(
            PartView::Field {
                name: "zotero-user-id"@,
                text: s.typed,
                hint: "Numeric Zotero user ID"@,
            },
        ),
{
    let parts = s.screen(pages).parts;
    assert(parts[parts.len() - 2] == (PartView::Field {
        name: "zotero-user-id"@,
        text: s.typed,
        hint: "Numeric Zotero user ID"@,
    }));
}

/// Only what can be done is offered: one action for the text, one for keeping
/// it, and one for a reading memory that could not be saved and waits.
pub proof fn law_nothing_else_is_offered(s: ReaderView)
    ensures
        ({
            let kept = s.opened_key is Some && exists|i: int|
                0 <= i < s.library.len() && (#[trigger] s.library[i]).key == s.opened_key->0;
            let stored = s.detail is Some && (s.detail->0).paper.has_pdf;
            let text: int = if kept || stored {
                1
            } else {
                0
            };
            let keeping: int = if kept || s.fetched_html is Some {
                1
            } else {
                0
            };
            let again: int = if s.pending_memory is Some && !s.memory_upload {
                1
            } else {
                0
            };
            &&& s.detail_actions().len() == text + keeping + again
            &&& s.feed_actions().len() == 2 + again
        }),
{
    let kept = s.opened_key is Some && exists|i: int|
        0 <= i < s.library.len() && (#[trigger] s.library[i]).key == s.opened_key->0;
    assert(kept == s.opened_is_kept());
}

/// A memory that is being saved is not offered to be saved again in the library
/// either.
pub proof fn law_the_library_offers_what_waits(s: ReaderView, pages: Seq<Seq<usize>>, i: int)
    requires
        s.pane is Library,
        s.pending_memory is None || s.memory_upload,
        0 <= i < s.screen(pages).parts.len(),
    ensures
        !(s.screen(pages).parts[i] is BottomAction),
{
}

/// While the details of a paper or its attachments are on their way the reader
/// says so; while a list of collections is, it says that.
pub proof fn law_requests_are_shown(
    s: ReaderView,
    pages: Seq<Seq<usize>>,
    number: u64,
    start: usize,
)
    ensures
        s.pane is Detail && (s.task == Some((number, Awaiting::Detail)) || s.task == Some(
            (number, Awaiting::DetailChildren),
        )) ==> s.screen(pages).parts.last() == PartView::Activity("Fetching paper details"@),
        s.pane is Collections && s.task == Some((number, Awaiting::Collections)) ==> s.screen(
            pages,
        ).parts.last() == PartView::Activity("Reading Zotero collections"@),
        s.pane is Feed && s.snapshot.papers.len() == 0 && s.task == Some(
            (number, Awaiting::SnapshotPage(start)),
        ) ==> s.screen(pages).parts.last() == PartView::Skeleton(6),
{
}

/// Where there is nothing to show the reader says so.
pub proof fn law_what_is_missing_is_said(s: ReaderView, pages: Seq<Seq<usize>>)
    requires
        s.task is None,
    ensures
        s.pane is Collections && s.collections.len() == 0 ==> s.screen(pages).parts.contains(
            PartView::EmptyState("This Zotero library contains no collections."@),
        ) && s.screen(pages).parts.last() == PartView::BottomAction(
            ButtonView { action: "refresh"@, label: "Try again"@, glyph: Glyph::Download },
        ),
        s.pane is Feed && s.filtered.len() == 0 ==> s.screen(pages).parts.contains(
            PartView::EmptyState("No cached papers match this list or search."@),
        ),
        s.pane is Library && s.library.len() == 0 ==> s.screen(pages).parts.contains(
            PartView::EmptyState("No paper text is kept on this reader yet."@),
        ),
{
    let parts = s.screen(pages).parts;
    if s.pane is Collections && s.collections.len() == 0 {
        assert(parts[parts.len() - 2] == PartView::EmptyState(
            "This Zotero library contains no collections."@,
        ));
    }
    if s.pane is Feed && s.filtered.len() == 0 {
        assert(parts[s.feed_start().parts.len() as int] == PartView::EmptyState(
            "No cached papers match this list or search."@,
        ));
    }
    if s.pane is Library && s.library.len() == 0 {
        let start = ScreenView::empty("zotero-reader-library"@).titled("Offline papers"@).with_some(
            s.trouble_banner(),
        );
        assert(parts[start.parts.len() as int] == PartView::EmptyState(
            "No paper text is kept on this reader yet."@,
        ));
    }
}

/// No trouble is shown where there is none.
pub proof fn law_no_trouble_is_made_up(
    s: ReaderView,
    pages: Seq<Seq<usize>>,
    i: int,
    text: Seq<char>,
)
    requires
        s.trouble is None,
        s.pane is Setup || s.pane is Collections || s.pane is Feed || s.pane is Search || s.pane
            is Converting || s.pane is Library,
        0 <= i < s.screen(pages).parts.len(),
    ensures
        s.screen(pages).parts[i] != (PartView::Banner { level: Level::Attention, text }),
{
}

/// Whether a paper counts as read can be changed while it is shown.
pub proof fn law_read_marks_are_offered(s: ReaderView, pages: Seq<Seq<usize>>, key: Seq<char>)
    requires
        s.pane is Detail,
        s.opened_key == Some(key),
    ensures
        s.screen(pages).parts.contains(
            PartView::TopBarButton(
                ButtonView {
                    action: "toggle-read"@,
                    label: if s.read_keys.contains(key) {
                        "Mark unread"@
                    } else {
                        "Mark read"@
                    },
                    glyph: Glyph::Check,
                },
            ),
        ),
{
    let page = shown_page(s.detail_page, s.detail_pages.len());
    lemma_with_lines(s.detail_start(), page_at(s.detail_pages, page));
    let button = s.detail_start().parts[1];
    assert(s.screen(pages).parts[1] == button);
}

/// Where something is typed there is a keyboard, and it says what it is for.
pub proof fn law_keyboards_say_what_they_are_for(s: ReaderView, pages: Seq<Seq<usize>>)
    ensures
        s.pane is Setup ==> s.screen(pages).parts.last() == (PartView::Keyboard {
            submit: "Continue"@,
        }),
        s.pane is Search ==> s.screen(pages).parts == seq![
            PartView::TopBar("Search cached papers"@),
            PartView::Typed { hint: "Title, author, or tag"@ },
            PartView::Keyboard { submit: "Search"@ },
        ],
        s.pane is Converting ==> s.screen(pages).parts.last() == PartView::Text(
            if s.bridge is Some {
                "The first bridge conversion can take several minutes."@
            } else {
                "Direct mode uses Zotero's plain-text index; figures and document layout require the optional bridge."@
            },
        ),
{
}

proof fn lemma_lines_keep_the_name(screen: ScreenView, lines: Seq<Seq<char>>)
    ensures
        screen.with_lines(lines).id == screen.id,
    decreases lines.len(),
{
    if lines.len() > 0 {
        lemma_lines_keep_the_name(screen, lines.drop_last());
    }
}

/// Each pane has a screen of its own, under its own name and title.
pub proof fn law_screens_have_names(s: ReaderView, pages: Seq<Seq<usize>>)
    ensures
        s.screen(pages).id == match s.pane {
            Pane::Setup => "zotero-reader-setup"@,
            Pane::Collections => "zotero-reader-collections"@,
            Pane::Feed => "zotero-reader-feed"@,
            Pane::Search => "zotero-reader-search"@,
            Pane::Detail | Pane::FullText => "zotero-reader-detail"@,
            Pane::Converting => "zotero-reader-converting"@,
            Pane::Library => "zotero-reader-library"@,
        },
        s.pane is Setup ==> s.screen(pages).parts[0] == PartView::TopBar("Zotero Reader"@),
        s.pane is Collections ==> s.screen(pages).parts[0] == PartView::TopBar(
            "Choose collection"@,
        ),
        s.pane is Library ==> s.screen(pages).parts[0] == PartView::TopBar("Offline papers"@),
{
    let page = shown_page(s.detail_page, s.detail_pages.len());
    lemma_lines_keep_the_name(s.detail_start(), page_at(s.detail_pages, page));
}

} // verus!

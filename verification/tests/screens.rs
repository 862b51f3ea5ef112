use zotero_reader::model::{Collection, Detail, Paper, Snapshot};
use zotero_reader::reader::{Pane, ReadingList};
use zotero_reader::records::Kept;
use zotero_reader::screen::{Button, Glyph, Lead, Level, Part, Row, Screen};
use zotero_reader::work::Awaiting;

fn synthetic_paper() -> Paper {
    Paper {
        key: "PAPER001".to_owned(),
        title: "Synthetic paper".to_owned(),
        ..Paper::default()
    }
}

fn feed() -> ReadingList {
    ReadingList {
        pane: Pane::Feed,
        snapshot: Snapshot {
            papers: vec![synthetic_paper()],
            ..Snapshot::default()
        },
        filtered: vec![0],
        ..ReadingList::default()
    }
}

fn bar(screen: &Screen) -> Option<&Vec<Button>> {
    screen.parts.iter().find_map(|part| match part {
        Part::ActionBar(buttons) => Some(buttons),
        _ => None,
    })
}

fn bottom(screen: &Screen) -> Option<&Button> {
    screen.parts.iter().find_map(|part| match part {
        Part::BottomAction(button) => Some(button),
        _ => None,
    })
}

fn header(screen: &Screen, action: &str) -> bool {
    screen.parts.iter().any(
        |part| matches!(part, Part::TopBarButton(button) if button.action == action),
    )
}

fn rows(screen: &Screen) -> Option<&Vec<Row>> {
    screen.parts.iter().find_map(|part| match part {
        Part::Rows(rows) => Some(rows),
        _ => None,
    })
}

fn one_page(count: usize) -> Vec<Vec<usize>> {
    vec![(0..count).collect()]
}

#[test]
fn full_text_action_is_not_replaced_by_read_state() {
    let paper = Paper {
        key: "PAPER001".to_owned(),
        title: "Synthetic paper".to_owned(),
        has_pdf: true,
        ..Paper::default()
    };
    let app = ReadingList {
        pane: Pane::Detail,
        opened_key: Some(paper.key.clone()),
        opened_title: paper.title.clone(),
        detail_pages: vec![vec!["Metadata".to_owned()]],
        detail: Some(Detail {
            paper,
            ..Detail::default()
        }),
        read_keys: vec!["PAPER001".to_owned()],
        ..ReadingList::default()
    };
    // detail screen
    let screen = app.screen(&vec![]);

    assert_eq!(bottom(&screen).map(|button| button.action), Some("full-text"));
    assert!(header(&screen, "toggle-read"));
}

#[test]
fn feed_exposes_refresh_and_search_together() {
    let app = feed();
    let screen = app.screen(&one_page(1));
    let actions = bar(&screen).expect("feed action bar");

    assert!(actions.iter().any(|button| button.action == "refresh"));
    assert!(actions.iter().any(|button| button.action == "search"));
}

#[test]
fn feed_exposes_memory_retry_when_a_save_is_pending() {
    let app = ReadingList {
        pending_memory: Some(("memory.PAPER001".to_owned(), vec![1, 2, 3])),
        ..feed()
    };
    let screen = app.screen(&one_page(1));
    let actions = bar(&screen).expect("feed action bar");

    assert!(actions.iter().any(|button| button.action == "retry-memory"));
}

#[test]
fn feed_releases_back_to_the_runtime_but_detail_owns_it() {
    let mut app = feed();
    let shown = app.screen(&one_page(1));
    assert!(!shown.owns_back, "feed must let the runtime leave the app");

    app.pane = Pane::Detail;
    let detail = app.screen(&vec![]);
    assert!(detail.owns_back, "detail must return to the feed first");
}

#[test]
fn retrying_is_not_offered_while_a_save_runs() {
    let app = ReadingList {
        pending_memory: Some(("memory.PAPER001".to_owned(), vec![1])),
        memory_upload: true,
        ..feed()
    };
    let screen = app.screen(&one_page(1));
    let actions = bar(&screen).expect("a bar");
    assert_eq!(actions.len(), 2);
}

#[test]
fn only_feed_and_setup_release_back() {
    for (pane, owns) in [
        (Pane::Setup, false),
        (Pane::Collections, true),
        (Pane::Feed, false),
        (Pane::Search, true),
        (Pane::Detail, true),
        (Pane::Converting, true),
        (Pane::FullText, true),
        (Pane::Library, true),
    ] {
        let app = ReadingList { pane, ..ReadingList::default() };
        assert_eq!(app.screen(&vec![]).owns_back, owns);
    }
}

#[test]
fn the_feed_leads_to_the_other_collections_and_the_kept_papers() {
    let screen = feed().screen(&one_page(1));
    assert!(header(&screen, "library"));
    assert!(screen.parts.contains(&Part::TopBarButton(Button {
        action: "change-collection",
        label: "Collections",
        glyph: Glyph::Folder,
    })));
}

#[test]
fn the_setup_asks_for_the_user() {
    let app = ReadingList {
        typed: "12".to_owned(),
        trouble: Some("Oh".to_owned()),
        ..ReadingList::default()
    };
    let screen = app.screen(&vec![]);
    assert_eq!(screen.id, "zotero-reader-setup");
    assert_eq!(screen.parts[0], Part::TopBar("Zotero Reader".to_owned()));
    assert_eq!(
        screen.parts[3],
        Part::Banner { level: Level::Attention, text: "Oh".to_owned() }
    );
    assert_eq!(
        screen.parts[4],
        Part::Field {
            name: "zotero-user-id".to_owned(),
            text: "12".to_owned(),
            hint: "Numeric Zotero user ID".to_owned(),
        }
    );
    assert_eq!(screen.parts[5], Part::Keyboard { submit: "Continue".to_owned() });
}

#[test]
fn collections_are_listed() {
    let mut app = ReadingList { pane: Pane::Collections, ..ReadingList::default() };
    assert_eq!(
        bottom(&app.screen(&vec![])),
        Some(&Button { action: "refresh", label: "Try again", glyph: Glyph::Download })
    );
    app.task = Some((1, Awaiting::Collections));
    assert_eq!(
        app.screen(&vec![]).parts[1],
        Part::Activity("Reading Zotero collections".to_owned())
    );
    app.task = None;
    app.collections = vec![Collection { key: "COLL1".to_owned(), name: "Queue".to_owned() }];
    assert_eq!(
        rows(&app.screen(&vec![])),
        Some(&vec![Row {
            action: "collection-0".to_owned(),
            title: "Queue".to_owned(),
            detail: "COLL1".to_owned(),
            lead: Lead::Icon(Glyph::Bookmark),
        }])
    );
}

#[test]
fn the_feed_lists_papers_by_page() {
    let paper = |n: usize| Paper {
        key: format!("P{n}"),
        title: format!("Paper {n}"),
        creators: "Ada".to_owned(),
        year: "2026".to_owned(),
        ..Paper::default()
    };
    let mut app = ReadingList {
        pane: Pane::Feed,
        selected: Some(Collection { key: "COLL1".to_owned(), name: "Queue".to_owned() }),
        snapshot: Snapshot { papers: (0..3).map(paper).collect(), ..Snapshot::default() },
        filtered: vec![0, 2],
        read_keys: vec!["P2".to_owned()],
        last_opened: Some("P1".to_owned()),
        list_page: 9,
        ..ReadingList::default()
    };
    assert_eq!(
        app.rows(),
        vec![
            ("Paper 0".to_owned(), "Ada · 2026".to_owned()),
            ("Paper 2".to_owned(), "Ada · 2026 · Read".to_owned()),
        ]
    );
    let screen = app.screen(&vec![vec![0], vec![1, 7]]);
    assert_eq!(screen.parts[0], Part::TopBar("Queue".to_owned()));
    assert_eq!(
        screen.parts[1],
        Part::Banner { level: Level::Info, text: "Last opened: Paper 1".to_owned() }
    );
    assert_eq!(
        rows(&screen),
        Some(&vec![Row {
            action: "paper-2".to_owned(),
            title: "Paper 2".to_owned(),
            detail: "Ada · 2026 · Read".to_owned(),
            lead: Lead::Number(2),
        }])
    );
    assert!(screen.parts.contains(&Part::PageTurns {
        back: "list-back".to_owned(),
        next: "list-next".to_owned(),
    }));
    assert_eq!(screen.parts.last(), Some(&Part::PagePosition { page: 2, total: 2 }));

    app.snapshot.truncated = true;
    assert_eq!(
        app.screen(&vec![]).parts[1],
        Part::Banner {
            level: Level::Info,
            text: "Showing the newest 3 items; this collection contains more.".to_owned(),
        }
    );
    app.trouble = Some("Oh".to_owned());
    assert_eq!(
        app.screen(&vec![]).parts[1],
        Part::Banner { level: Level::Attention, text: "Oh".to_owned() }
    );
    app.filtered = vec![];
    let empty = app.screen(&vec![]);
    assert!(empty
        .parts
        .contains(&Part::EmptyState("No cached papers match this list or search.".to_owned())));
    assert!(bar(&empty).is_some());
    app.snapshot = Snapshot::default();
    app.task = Some((1, Awaiting::SnapshotPage(0)));
    assert_eq!(app.screen(&vec![]).parts.last(), Some(&Part::Skeleton(6)));
}

#[test]
fn a_paper_without_creators_is_just_read() {
    let app = ReadingList { read_keys: vec!["PAPER001".to_owned()], ..feed() };
    assert_eq!(app.paper_summary(&synthetic_paper()), "Read");
    assert_eq!(feed().paper_summary(&synthetic_paper()), "");
}

#[test]
fn the_search_shows_what_is_typed() {
    let app = ReadingList { pane: Pane::Search, ..ReadingList::default() };
    assert_eq!(
        app.screen(&vec![]).parts,
        vec![
            Part::TopBar("Search cached papers".to_owned()),
            Part::Typed { hint: "Title, author, or tag".to_owned() },
            Part::Keyboard { submit: "Search".to_owned() },
        ]
    );
}

#[test]
fn details_offer_what_can_be_done() {
    let mut app = ReadingList {
        pane: Pane::Detail,
        opened_key: Some("PAPER001".to_owned()),
        opened_title: "Synthetic paper".to_owned(),
        detail_pages: vec![vec!["one".to_owned()], vec!["two".to_owned(), "three".to_owned()]],
        detail_page: 5,
        ..ReadingList::default()
    };
    let bare = app.screen(&vec![]);
    assert_eq!(
        bare.parts,
        vec![
            Part::TopBar("Synthetic paper".to_owned()),
            Part::TopBarButton(Button {
                action: "toggle-read",
                label: "Mark read",
                glyph: Glyph::Check,
            }),
            Part::Text("two".to_owned()),
            Part::Text("three".to_owned()),
            Part::PageTurns { back: "read-back".to_owned(), next: "read-next".to_owned() },
            Part::PagePosition { page: 2, total: 2 },
        ]
    );
    app.fetched_html = Some(vec![]);
    assert_eq!(bottom(&app.screen(&vec![])).map(|button| button.action), Some("keep"));
    app.detail = Some(Detail {
        paper: Paper { has_pdf: true, ..synthetic_paper() },
        ..Detail::default()
    });
    let labels = |app: &ReadingList| -> Vec<&'static str> {
        bar(&app.screen(&vec![])).expect("a bar").iter().map(|button| button.label).collect()
    };
    assert_eq!(labels(&app), vec!["Open Zotero indexed text", "Keep offline"]);
    app.bridge = Some("https://papers.example.com".to_owned());
    assert_eq!(labels(&app), vec!["Convert stored PDF", "Keep offline"]);
    app.library = vec![Kept { key: "PAPER001".to_owned(), ..Kept::default() }];
    app.pending_memory = Some(("memory.paper001".to_owned(), vec![]));
    assert_eq!(labels(&app), vec!["Open offline text", "Remove offline", "Retry memory"]);
    app.task = Some((1, Awaiting::DetailChildren));
    assert_eq!(
        app.screen(&vec![]).parts.last(),
        Some(&Part::Activity("Fetching paper details".to_owned()))
    );
}

#[test]
fn waiting_says_what_for() {
    let mut app = ReadingList { pane: Pane::Converting, ..ReadingList::default() };
    let activity = |app: &ReadingList| app.screen(&vec![]).parts.into_iter().nth(1);
    assert_eq!(activity(&app), Some(Part::Activity("Converting the stored PDF".to_owned())));
    app.task = Some((1, Awaiting::Document));
    assert_eq!(activity(&app), Some(Part::Activity("Fetching converted text".to_owned())));
    app.task = Some((1, Awaiting::ZoteroFullText));
    assert_eq!(activity(&app), Some(Part::Activity("Fetching Zotero indexed text".to_owned())));
    app.document_loading = true;
    assert_eq!(activity(&app), Some(Part::Activity("Opening offline text".to_owned())));
    app.bridge = Some("https://papers.example.com".to_owned());
    assert_eq!(
        app.screen(&vec![]).parts[2],
        Part::Text("The first bridge conversion can take several minutes.".to_owned())
    );
}

#[test]
fn kept_papers_are_listed_with_their_sizes() {
    let mut app = ReadingList { pane: Pane::Library, ..ReadingList::default() };
    app.pending_memory = Some(("memory.paper001".to_owned(), vec![]));
    let empty = app.screen(&vec![]);
    assert_eq!(
        empty.parts[1],
        Part::EmptyState("No paper text is kept on this reader yet.".to_owned())
    );
    assert_eq!(bottom(&empty).map(|button| button.label), Some("Retry reading position"));
    app.library = vec![Kept {
        key: "PAPER001".to_owned(),
        title: "Synthetic paper".to_owned(),
        creators: "Ada".to_owned(),
        bytes: 5000,
    }];
    assert_eq!(app.rows(), vec![("Synthetic paper".to_owned(), "Ada · 4 KB".to_owned())]);
    let screen = app.screen(&one_page(1));
    assert_eq!(
        rows(&screen),
        Some(&vec![Row {
            action: "kept-0".to_owned(),
            title: "Synthetic paper".to_owned(),
            detail: "Ada · 4 KB".to_owned(),
            lead: Lead::Icon(Glyph::Bookmark),
        }])
    );
    assert_eq!(bottom(&screen).map(|button| button.action), Some("retry-memory"));
}

use std::collections::VecDeque;

use zotero_reader::actions::{Action, Outcome, Press, Pressed};
use zotero_reader::answers::{Reply, Step};
use zotero_reader::json::{Member, Value};
use zotero_reader::model::{Attachment, Collection, Conversion, Detail, Paper, Snapshot};
use zotero_reader::reader::{Pane, ReadingList};
use zotero_reader::records::{decode_library, Kept, MAX_KEPT};
use zotero_reader::stored::{Progress, Report, Stored};
use zotero_reader::wording::{detail_text, page_number, page_total};
use zotero_reader::work::{
    explain_failure, Awaiting, Command, Credential, Header, Place, TaskError, Transfer, Work,
};

fn text(value: &str) -> Value {
    Value::Text(value.to_owned())
}

fn object(members: Vec<(&str, Value)>) -> Value {
    Value::Object(
        members
            .into_iter()
            .map(|(name, value)| Member { name: name.to_owned(), value })
            .collect(),
    )
}

fn item(key: &str) -> Value {
    object(vec![
        ("key", text(key)),
        ("version", Value::Number(4)),
        (
            "data",
            object(vec![
                ("key", text(key)),
                ("title", text(&format!("Title of {key}"))),
                ("dateAdded", text("2026-01-01T00:00:00Z")),
            ]),
        ),
    ])
}

fn page(start: usize, count: usize) -> Value {
    Value::Array((start..start + count).map(|n| item(&format!("P{n}"))).collect())
}

fn paper(key: &str) -> Paper {
    Paper {
        key: key.to_owned(),
        title: format!("Title of {key}"),
        ..Paper::default()
    }
}

fn kept(key: &str) -> Kept {
    Kept {
        key: key.to_owned(),
        title: format!("Title of {key}"),
        creators: "Ada".to_owned(),
        bytes: 2048,
    }
}

fn collection(key: &str) -> Collection {
    Collection { key: key.to_owned(), name: format!("Name of {key}") }
}

fn press(action: Action) -> Press {
    Press {
        pressed: None,
        typed: String::new(),
        outcome: None,
        action: Some(action),
        memory: None,
    }
}

fn remembering(action: Action, memory: &[u8]) -> Press {
    Press { memory: Some(memory.to_vec()), ..press(action) }
}

fn typing(pressed: Pressed, typed: &str) -> Press {
    Press {
        pressed: Some(pressed),
        typed: typed.to_owned(),
        outcome: None,
        action: None,
        memory: None,
    }
}

fn json(value: Value) -> Reply {
    Reply::Completed { bytes: vec![], json: Some(value), readable: false }
}

fn document(html: &str, readable: bool) -> Reply {
    Reply::Completed { bytes: html.as_bytes().to_vec(), json: None, readable }
}

fn report(transfer: Transfer, progress: Progress) -> Vec<Report> {
    vec![Report { transfer, progress }]
}

fn done(bytes: &[u8]) -> Progress {
    Progress::Done { bytes: bytes.to_vec(), json: None, readable: true }
}

fn failed(missing: bool) -> Progress {
    Progress::Failed { missing, reason: "too full".to_owned() }
}

fn loaded(key: &str, value: Option<&[u8]>) -> Stored {
    Stored::Loaded { key: key.to_owned(), value: value.map(<[u8]>::to_vec) }
}

fn request(commands: &[Command]) -> Option<(&Work, Awaiting)> {
    commands.iter().find_map(|command| match command {
        Command::Spawn { work, awaiting } => Some((work, *awaiting)),
        _ => None,
    })
}

fn fetched(commands: &[Command]) -> Option<(&str, Credential)> {
    match request(commands) {
        Some((Work::Fetch { url, credential, .. }, _)) => Some((url.as_str(), *credential)),
        _ => None,
    }
}

fn in_feed(papers: Vec<Paper>) -> ReadingList {
    let filtered = (0..papers.len()).collect();
    ReadingList {
        pane: Pane::Feed,
        user_id: Some("12345".to_owned()),
        selected: Some(collection("COLL1")),
        snapshot: Snapshot { papers, ..Snapshot::default() },
        filtered,
        ..ReadingList::default()
    }
}

fn in_detail(key: &str) -> ReadingList {
    ReadingList {
        pane: Pane::Detail,
        user_id: Some("12345".to_owned()),
        opened_key: Some(key.to_owned()),
        opened_title: "Synthetic paper".to_owned(),
        opened_creators: "Ada".to_owned(),
        ..ReadingList::default()
    }
}

#[test]
fn unreachable_errors_name_the_service_that_was_requested() {
    assert_eq!(
        explain_failure(Awaiting::StartConversion, TaskError::Unreachable),
        "The conversion service could not be reached."
    );
    assert_eq!(
        explain_failure(Awaiting::Collections, TaskError::Unreachable),
        "Zotero could not be reached."
    );
}

#[test]
fn first_launch_connects_directly_to_zotero_api_v3() {
    let mut app = ReadingList {
        pane: Pane::Setup,
        typed: "12345".to_owned(),
        ..ReadingList::default()
    };

    app.on_action(typing(Pressed::Submitted, "12345"));
    let commands = app.take_commands();
    let request = request(&commands).map(|(work, _)| work);

    assert!(commands
        .iter()
        .any(|command| matches!(command, Command::Save { .. })));
    assert!(matches!(
        request,
        Some(Work::Fetch {
            url,
            credential,
            headers,
            ..
        }) if url == "https://api.zotero.org/users/12345/collections?format=json&limit=100&sort=title&direction=asc"
            && credential.name() == "zotero"
            && headers.iter().any(|header| header.name == "Zotero-API-Version" && header.value == "3")
    ));
}

#[test]
fn direct_full_text_uses_the_stored_attachment_key() {
    let mut app = ReadingList {
        pane: Pane::Detail,
        user_id: Some("12345".to_owned()),
        opened_key: Some("PAPER001".to_owned()),
        opened_title: "Synthetic paper".to_owned(),
        attachment: Some(Attachment {
            key: "PDF12345".to_owned(),
            version: 4,
        }),
        ..ReadingList::default()
    };

    app.on_action(press(Action::FullText));
    let commands = app.take_commands();
    let request = request(&commands).map(|(work, _)| work);

    assert!(matches!(
        request,
        Some(Work::Fetch {
            url,
            credential,
            ..
        }) if url == "https://api.zotero.org/users/12345/items/PDF12345/fulltext"
            && credential.name() == "zotero"
    ));
}

#[test]
fn moving_to_another_item_drops_the_previous_document() {
    let mut app = ReadingList {
        fetched_html: Some(b"paper A".to_vec()),
        conversion: Some(Conversion {
            state: "ready".to_owned(),
            ..Conversion::default()
        }),
        ..ReadingList::default()
    };

    app.reset_item_content();

    assert!(app.fetched_html.is_none());
    assert!(app.conversion.is_none());
}

#[test]
fn failed_memory_save_keeps_the_latest_bytes_for_an_explicit_retry() {
    let latest = ("memory.ITEM1".to_owned(), vec![9; 300_000]);
    let mut app = ReadingList {
        pane: Pane::Detail,
        memory_upload: true,
        active_memory: Some(("memory.ITEM1".to_owned(), vec![1; 300_000])),
        pending_memory: Some(latest.clone()),
        ..ReadingList::default()
    };

    app.on_store(report(Transfer::MemorySave, failed(false)), Stored::Other);

    assert_eq!(app.pending_memory, Some(latest.clone()));
    assert!(!app.memory_upload);
    assert!(app.trouble.is_some());
    app.take_commands();

    app.on_action(press(Action::RetryMemory));
    let commands = app.take_commands();

    assert!(commands.contains(&Command::Upload {
        transfer: Transfer::MemorySave,
        name: latest.0,
        bytes: latest.1,
    }));
    assert!(app.pending_memory.is_none());
    assert!(app.memory_upload);
    assert!(app.trouble.is_none());
}

#[test]
fn failed_close_save_retains_its_in_flight_bytes_after_the_book_is_closed() {
    let in_flight = ("memory.ITEM1".to_owned(), vec![7; 300_000]);
    let mut app = ReadingList {
        pane: Pane::Detail,
        memory_upload: true,
        active_memory: Some(in_flight.clone()),
        ..ReadingList::default()
    };

    app.on_store(report(Transfer::MemorySave, failed(false)), Stored::Other);

    assert_eq!(app.pending_memory, Some(in_flight));
    assert!(app.active_memory.is_none());
    assert!(!app.memory_upload);
    assert!(app.trouble.is_some());
}

#[test]
fn every_failure_is_explained() {
    let all = [
        TaskError::NoCredential,
        TaskError::Offline,
        TaskError::Denied,
        TaskError::Unauthorized,
        TaskError::TooLarge,
        TaskError::TimedOut,
        TaskError::NotFound,
        TaskError::Unreachable,
    ];
    for error in all {
        let zotero = explain_failure(Awaiting::Detail, error);
        let bridge = explain_failure(Awaiting::Document, error);
        assert!(!zotero.contains("conversion"));
        assert_eq!(zotero == bridge, error == TaskError::Offline);
    }
    assert_eq!(
        explain_failure(Awaiting::PollConversion, TaskError::NoCredential),
        "Install the conversion-service token with: kobo secret set zotero-bridge --device <address>."
    );
    assert_eq!(
        explain_failure(Awaiting::ZoteroFullText, TaskError::TooLarge),
        "The Zotero response exceeded the app's safety limit."
    );
}

#[test]
fn the_start_asks_for_what_is_kept() {
    let mut app = ReadingList::default();
    app.on_start();
    assert_eq!(
        app.take_commands(),
        vec![
            Command::Load { key: "zotero-user-id" },
            Command::Load { key: "selected" },
            Command::Load { key: "library" },
            Command::Load { key: "reading-state" },
            Command::ListShelf,
            Command::Show,
        ]
    );
    assert!(app.take_commands().is_empty());
}

#[test]
fn a_bridge_needs_a_bare_origin() {
    assert_eq!(
        ReadingList::new(Some("https://papers.example.com")).bridge,
        Some("https://papers.example.com".to_owned())
    );
    assert_eq!(ReadingList::new(Some("https://papers.example.com/x")).bridge, None);
    assert_eq!(ReadingList::new(None), ReadingList::default());
}

#[test]
fn a_user_name_is_no_user_id() {
    let mut app = ReadingList::default();
    app.on_action(typing(Pressed::Submitted, "andre"));
    assert_eq!(
        app.trouble.as_deref(),
        Some("The Zotero user ID must contain only digits and is not your username.")
    );
    assert_eq!(app.user_id, None);
    assert_eq!(app.take_commands(), vec![Command::Show]);
}

#[test]
fn a_submitted_user_is_trimmed_kept_and_read_again() {
    let mut app = ReadingList::default();
    app.on_action(typing(Pressed::Submitted, " 42 "));
    assert_eq!(app.user_id.as_deref(), Some("42"));
    assert_eq!(app.typed, "");
    let commands = app.take_commands();
    assert_eq!(commands[0], Command::Save { key: "zotero-user-id", value: b"42".to_vec() });
    assert_eq!(commands[1], Command::ClearKeyboard);

    let mut later = ReadingList::default();
    later.on_store(vec![], loaded("zotero-user-id", Some(b" 42\n")));
    assert_eq!(later.user_id.as_deref(), Some("42"));
    later.on_store(vec![], loaded("zotero-user-id", Some(b"andre")));
    assert_eq!(later.user_id, None);
    later.on_store(vec![], loaded("zotero-user-id", Some(&[0xff])));
    assert_eq!(later.user_id, None);
}

#[test]
fn no_more_is_typed_than_a_user_id_holds() {
    let mut app = ReadingList::default();
    app.on_action(typing(Pressed::Edited, "123456789012345678901"));
    assert_eq!(app.typed, "12345678901234567890");
    assert_eq!(
        app.take_commands(),
        vec![
            Command::RetypeKeyboard { text: "12345678901234567890".to_owned() },
            Command::Show,
        ]
    );
    app.on_action(typing(Pressed::Shifted, "1"));
    assert_eq!(app.take_commands(), vec![Command::Show]);
}

#[test]
fn reading_starts_once_user_and_collection_are_known() {
    let mut app = ReadingList::default();
    app.on_store(vec![], loaded("zotero-user-id", Some(b"12345")));
    assert_eq!(app.take_commands(), vec![Command::Show]);
    app.on_store(vec![], loaded("selected", Some(b"COLL1\tName")));
    let commands = app.take_commands();
    assert_eq!(app.pane, Pane::Feed);
    assert_eq!(
        commands[0],
        Command::Download {
            transfer: Transfer::SnapshotLoad,
            name: "snapshot.coll1".to_owned(),
            at_most: Some(4 * 1024 * 1024),
        }
    );
    assert_eq!(
        fetched(&commands),
        Some((
            "https://api.zotero.org/users/12345/collections/COLL1/items/top?format=json&itemType=-attachment&limit=25&start=0&sort=dateAdded&direction=desc",
            Credential::Zotero
        ))
    );

    let mut unknown = ReadingList::default();
    unknown.on_store(vec![], loaded("selected", None));
    unknown.on_store(vec![], loaded("zotero-user-id", None));
    assert_eq!(unknown.pane, Pane::Setup);

    let mut undecided = ReadingList::default();
    undecided.on_store(vec![], loaded("selected", None));
    undecided.on_store(vec![], loaded("zotero-user-id", Some(b"12345")));
    assert_eq!(undecided.pane, Pane::Collections);
}

#[test]
fn a_task_that_cannot_be_started_is_reported() {
    let mut app = in_feed(vec![]);
    app.spawned(Awaiting::Detail, None);
    assert_eq!(app.trouble.as_deref(), Some("The device is busy. Try again."));
    let mut waiting = in_feed(vec![]);
    waiting.spawned(Awaiting::PollWait, None);
    assert_eq!(waiting.trouble, None);
    waiting.spawned(Awaiting::Detail, Some(7));
    assert_eq!(waiting.task, Some((7, Awaiting::Detail)));
}

#[test]
fn a_new_request_replaces_the_running_one() {
    let mut app = in_feed(vec![]);
    app.task = Some((3, Awaiting::Detail));
    app.on_action(press(Action::Refresh));
    let commands = app.take_commands();
    assert_eq!(commands[0], Command::Cancel(3));
    assert_eq!(app.task, None);
    assert_eq!(
        request(&commands).map(|(_, awaiting)| awaiting),
        Some(Awaiting::SnapshotPage(0))
    );
}

#[test]
fn requests_without_a_user_lead_to_the_setup() {
    let mut app = ReadingList { pane: Pane::Feed, ..ReadingList::default() };
    app.on_action(press(Action::ChangeCollection));
    assert_eq!(app.pane, Pane::Setup);
    assert_eq!(app.trouble.as_deref(), Some("Enter the numeric Zotero user ID first."));
}

#[test]
fn a_single_collection_is_chosen_at_once() {
    let row = |key: &str| {
        object(vec![("data", object(vec![("key", text(key)), ("name", text("Queue"))]))])
    };
    let mut app = ReadingList {
        pane: Pane::Collections,
        user_id: Some("12345".to_owned()),
        task: Some((1, Awaiting::Collections)),
        ..ReadingList::default()
    };
    app.on_task(Step::Elsewhere, 1, json(Value::Array(vec![row("COLL1")])));
    assert_eq!(app.selected.as_ref().map(|one| one.key.as_str()), Some("COLL1"));
    assert_eq!(app.pane, Pane::Feed);
    assert_eq!(
        app.take_commands()[0],
        Command::Save { key: "selected", value: b"COLL1\tQueue".to_vec() }
    );

    let mut several = ReadingList {
        pane: Pane::Collections,
        user_id: Some("12345".to_owned()),
        task: Some((1, Awaiting::Collections)),
        ..ReadingList::default()
    };
    several.on_task(Step::Elsewhere, 1, json(Value::Array(vec![row("COLL1"), row("COLL2")])));
    assert_eq!(several.selected, None);
    assert_eq!(several.collections.len(), 2);
    several.take_commands();
    several.on_action(press(Action::Collection(1)));
    assert_eq!(several.selected.as_ref().map(|one| one.key.as_str()), Some("COLL2"));
    several.on_action(press(Action::Collection(2)));

    let mut unread = ReadingList {
        pane: Pane::Collections,
        task: Some((1, Awaiting::Collections)),
        ..ReadingList::default()
    };
    unread.on_task(Step::Elsewhere, 1, json(Value::Null));
    assert_eq!(unread.trouble.as_deref(), Some("The collection list was unreadable."));
}

#[test]
fn pages_follow_each_other_until_one_is_not_full() {
    let mut app = in_feed(vec![]);
    app.task = Some((1, Awaiting::SnapshotPage(0)));
    app.on_task(Step::Elsewhere, 1, json(page(0, 25)));
    let commands = app.take_commands();
    assert_eq!(app.pending_snapshot.len(), 25);
    assert_eq!(
        request(&commands).map(|(_, awaiting)| awaiting),
        Some(Awaiting::SnapshotPage(25))
    );
    app.spawned(Awaiting::SnapshotPage(25), Some(2));
    app.on_task(Step::Elsewhere, 2, json(page(25, 3)));
    let commands = app.take_commands();
    assert_eq!(app.snapshot.papers.len(), 28);
    assert_eq!(app.snapshot.total, 28);
    assert!(!app.snapshot.truncated);
    assert_eq!(app.snapshot.revision, "4");
    assert_eq!(app.snapshot.collection_key, "COLL1");
    assert!(app.fresh_snapshot);
    assert_eq!(app.filtered, (0..28).collect::<Vec<usize>>());
    assert_eq!(
        commands[0],
        Command::UploadSnapshot {
            name: "snapshot.coll1".to_owned(),
            snapshot: app.snapshot.clone(),
        }
    );
}

#[test]
fn at_the_limit_one_more_paper_tells_of_the_rest() {
    let mut app = in_feed(vec![]);
    app.pending_snapshot = (0..475).map(|n| paper(&format!("P{n}"))).collect();
    app.task = Some((1, Awaiting::SnapshotPage(475)));
    app.on_task(Step::Elsewhere, 1, json(page(475, 25)));
    let commands = app.take_commands();
    assert_eq!(app.pending_snapshot.len(), 500);
    assert_eq!(
        fetched(&commands).map(|(url, _)| url.contains("limit=1&start=500&")),
        Some(true)
    );
    app.spawned(Awaiting::SnapshotPage(500), Some(2));
    app.on_task(Step::Elsewhere, 2, json(page(500, 1)));
    assert_eq!(app.snapshot.papers.len(), 500);
    assert!(app.snapshot.truncated);
    assert_eq!(app.snapshot.total, 501);
}

#[test]
fn an_unreadable_page_is_reported() {
    let mut app = in_feed(vec![]);
    app.task = Some((1, Awaiting::SnapshotPage(0)));
    app.on_task(Step::Elsewhere, 1, json(Value::Null));
    assert_eq!(app.trouble.as_deref(), Some("Zotero returned an unreadable item page."));
}

#[test]
fn a_stored_list_is_shown_only_for_its_own_collection() {
    let stored = |key: &str| {
        object(vec![
            ("collection_key", text(key)),
            ("items", Value::Array(vec![object(vec![("key", text("P1")), ("title", text("T"))])])),
        ])
    };
    let give = |app: &mut ReadingList, key: &str| {
        app.on_store(
            report(
                Transfer::SnapshotLoad,
                Progress::Done { bytes: vec![], json: Some(stored(key)), readable: false },
            ),
            Stored::Other,
        );
    };
    let mut own = in_feed(vec![]);
    own.snapshot_loading = Some("COLL1".to_owned());
    give(&mut own, "COLL1");
    assert_eq!(own.snapshot.papers.len(), 1);
    assert_eq!(own.filtered, vec![0]);
    assert_eq!(own.snapshot_loading, None);

    let mut other = in_feed(vec![]);
    other.snapshot_loading = Some("COLL1".to_owned());
    give(&mut other, "COLL2");
    assert!(other.snapshot.papers.is_empty());

    let mut fresh = in_feed(vec![]);
    fresh.snapshot_loading = Some("COLL1".to_owned());
    fresh.fresh_snapshot = true;
    give(&mut fresh, "COLL1");
    assert!(fresh.snapshot.papers.is_empty());
    assert_eq!(fresh.snapshot_loading, None);
}

#[test]
fn a_search_lists_what_matches() {
    let mut app = in_feed(vec![paper("A1"), paper("B2"), paper("A3")]);
    app.on_action(press(Action::Search));
    assert_eq!(app.pane, Pane::Search);
    assert_eq!(app.take_commands(), vec![Command::ClearKeyboard, Command::Show]);
    app.on_action(typing(Pressed::Edited, "title of a"));
    assert_eq!(app.filtered, vec![0, 1, 2]);
    app.on_action(typing(Pressed::Submitted, "  TITLE of a "));
    assert_eq!(app.filtered, vec![0, 2]);
    assert_eq!(app.pane, Pane::Feed);
}

#[test]
fn opening_a_paper_fetches_details_and_then_attachments() {
    let mut app = in_feed(vec![paper("PAPER001")]);
    app.fetched_html = Some(vec![1]);
    app.on_action(press(Action::Paper(0)));
    assert_eq!(app.pane, Pane::Detail);
    assert_eq!(app.fetched_html, None);
    let commands = app.take_commands();
    assert_eq!(commands[0], Command::CloseBook);
    assert_eq!(
        fetched(&commands),
        Some((
            "https://api.zotero.org/users/12345/items/PAPER001?format=json",
            Credential::Zotero
        ))
    );
    app.spawned(Awaiting::Detail, Some(5));
    app.on_task(Step::Elsewhere, 5, json(item("PAPER001")));
    let commands = app.take_commands();
    assert_eq!(
        fetched(&commands).map(|(url, _)| url),
        Some("https://api.zotero.org/users/12345/items/PAPER001/children?format=json&itemType=attachment&limit=100")
    );
    app.spawned(Awaiting::DetailChildren, Some(6));
    let child = object(vec![(
        "data",
        object(vec![
            ("key", text("PDF12345")),
            ("itemType", text("attachment")),
            ("contentType", text("application/pdf")),
            ("linkMode", text("imported_file")),
        ]),
    )]);
    app.on_task(Step::Elsewhere, 6, json(Value::Array(vec![child])));
    assert_eq!(app.attachment.as_ref().map(|one| one.key.as_str()), Some("PDF12345"));
    assert!(app.detail.as_ref().is_some_and(|detail| detail.paper.has_pdf));
    assert_eq!(
        app.take_commands(),
        vec![
            Command::PaginateDetail { text: "No abstract is stored for this item.".to_owned() },
            Command::Show,
        ]
    );
    app.detail_paginated(vec![vec!["line".to_owned()]]);
    assert_eq!(app.detail_pages, vec![vec!["line".to_owned()]]);
}

#[test]
fn unreadable_details_and_attachments_are_reported() {
    let mut app = in_detail("PAPER001");
    app.task = Some((1, Awaiting::Detail));
    app.on_task(Step::Elsewhere, 1, json(Value::Null));
    assert_eq!(app.trouble.as_deref(), Some("The paper details were unreadable."));
    app.task = Some((2, Awaiting::DetailChildren));
    app.on_task(Step::Elsewhere, 2, json(Value::Null));
    assert_eq!(app.trouble.as_deref(), Some("The Zotero attachment list was unreadable."));
}

#[test]
fn no_paper_is_opened_while_a_memory_waits() {
    let mut app = in_feed(vec![paper("PAPER001")]);
    app.library = vec![kept("PAPER002")];
    app.pending_memory = Some(("memory.x".to_owned(), vec![1]));
    app.on_action(press(Action::Paper(0)));
    assert_eq!(app.pane, Pane::Feed);
    assert_eq!(
        app.trouble.as_deref(),
        Some("Finish or retry the pending reading-memory save before opening another paper.")
    );
    app.trouble = None;
    app.on_action(press(Action::Kept(0)));
    assert!(app.trouble.is_some());
    let mut detail = in_detail("PAPER001");
    detail.memory_upload = true;
    detail.on_action(press(Action::FullText));
    assert_eq!(
        detail.trouble.as_deref(),
        Some("Finish or retry the pending reading-memory save before reopening the paper.")
    );
}

#[test]
fn a_kept_paper_is_opened_from_the_library() {
    let mut app = in_feed(vec![]);
    app.library = vec![kept("PAPER001")];
    app.on_action(press(Action::Library));
    assert_eq!(app.pane, Pane::Library);
    app.on_action(press(Action::Kept(0)));
    assert_eq!(app.pane, Pane::Detail);
    assert!(app.from_library);
    assert_eq!(
        app.detail_pages,
        vec![vec!["This paper text is kept for offline reading.".to_owned()]]
    );
    app.take_commands();
    app.on_action(press(Action::FullText));
    assert_eq!(app.pane, Pane::Converting);
    assert!(app.document_loading);
    assert_eq!(
        app.take_commands(),
        vec![
            Command::Download {
                transfer: Transfer::MemoryLoad,
                name: "memory.paper001".to_owned(),
                at_most: None,
            },
            Command::Download {
                transfer: Transfer::DocumentLoad,
                name: "document.paper001".to_owned(),
                at_most: Some(768 * 1024),
            },
            Command::Show,
        ]
    );
    app.on_store(report(Transfer::MemoryLoad, failed(true)), Stored::Other);
    assert_eq!(app.place, Some(Place::Fresh));
    app.take_commands();
    app.on_store(report(Transfer::DocumentLoad, done(b"<p>text</p>")), Stored::Other);
    assert_eq!(app.pane, Pane::FullText);
    assert_eq!(app.last_opened.as_deref(), Some("PAPER001"));
    assert_eq!(app.read_keys, vec!["PAPER001".to_owned()]);
    assert_eq!(
        app.take_commands(),
        vec![
            Command::OpenBook {
                html: b"<p>text</p>".to_vec(),
                place: Place::Fresh,
                truncated: false,
            },
            Command::Save {
                key: "reading-state",
                value: b"last\tPAPER001\nread\tPAPER001\n".to_vec(),
            },
            Command::ReadFrontlight,
            Command::Show,
        ]
    );
}

#[test]
fn a_missing_offline_copy_is_forgotten() {
    let mut app = in_detail("PAPER001");
    app.library = vec![kept("PAPER001"), kept("PAPER002")];
    app.document_loading = true;
    app.on_store(report(Transfer::DocumentLoad, failed(true)), Stored::Other);
    assert_eq!(app.library, vec![kept("PAPER002")]);
    assert_eq!(
        app.trouble.as_deref(),
        Some("The interrupted offline copy was removed. Convert or keep it again.")
    );
    app.document_loading = true;
    app.on_store(report(Transfer::DocumentLoad, failed(false)), Stored::Other);
    assert_eq!(
        app.trouble.as_deref(),
        Some("The offline text could not be read from storage.")
    );
}

#[test]
fn the_bridge_converts_in_steps() {
    let mut app = ReadingList {
        bridge: Some("https://papers.example.com".to_owned()),
        ..in_detail("PAPER001")
    };
    app.on_action(press(Action::FullText));
    let commands = app.take_commands();
    assert_eq!(
        request(&commands),
        Some((
            &Work::Post {
                url: "https://papers.example.com/v1/items/PAPER001/conversion".to_owned(),
                body: "{}".to_owned(),
                content_type: "application/json".to_owned(),
                credential: Credential::Bridge,
                max_bytes: 16 * 1024,
            },
            Awaiting::StartConversion
        ))
    );
    assert_eq!(Credential::Bridge.name(), "zotero-bridge");
    app.spawned(Awaiting::StartConversion, Some(1));
    app.on_task(Step::Elsewhere, 1, json(object(vec![("state", text("queued"))])));
    assert_eq!(app.poll_count, 1);
    assert_eq!(
        request(&app.take_commands()),
        Some((&Work::Sleep { seconds: 3 }, Awaiting::PollWait))
    );
    app.spawned(Awaiting::PollWait, Some(2));
    app.on_task(Step::Elsewhere, 2, document("", false));
    assert_eq!(
        fetched(&app.take_commands()),
        Some((
            "https://papers.example.com/v1/items/PAPER001/conversion",
            Credential::Bridge
        ))
    );
    app.spawned(Awaiting::PollConversion, Some(3));
    app.on_task(
        Step::Elsewhere,
        3,
        json(object(vec![("state", text("ready")), ("truncated", Value::Bool(true))])),
    );
    assert_eq!(
        fetched(&app.take_commands()),
        Some((
            "https://papers.example.com/v1/items/PAPER001/document",
            Credential::Bridge
        ))
    );
    app.spawned(Awaiting::Document, Some(4));
    app.on_task(Step::Elsewhere, 4, document("<p>x</p>", true));
    let commands = app.take_commands();
    assert_eq!(
        commands[0],
        Command::OpenBook {
            html: b"<p>x</p>".to_vec(),
            place: Place::Fresh,
            truncated: true,
        }
    );
    assert_eq!(app.pane, Pane::FullText);
}

#[test]
fn a_conversion_can_fail_in_several_ways() {
    let state = |name: &str, more: Vec<(&str, Value)>| {
        let mut members = vec![("state", text(name))];
        members.extend(more);
        json(object(members))
    };
    let cases = [
        (state("missing_pdf", vec![]), "No PDF is stored with this Zotero item."),
        (state("failed", vec![]), "The stored PDF could not be converted."),
        (state("failed", vec![("message", text("Too long"))]), "Too long"),
        (json(Value::Null), "The bridge returned an unreadable conversion state."),
    ];
    for (reply, message) in cases {
        let mut app = ReadingList {
            pane: Pane::Converting,
            task: Some((1, Awaiting::PollConversion)),
            ..in_detail("PAPER001")
        };
        app.on_task(Step::Elsewhere, 1, reply);
        assert_eq!(app.trouble.as_deref(), Some(message));
        assert_eq!(app.pane, Pane::Detail);
    }
}

#[test]
fn polling_ends_after_ten_minutes() {
    let mut app = in_detail("PAPER001");
    app.poll_count = 199;
    app.wait_to_poll();
    assert_eq!(app.poll_count, 200);
    app.take_commands();
    app.wait_to_poll();
    assert_eq!(app.poll_count, 200);
    assert_eq!(
        app.trouble.as_deref(),
        Some("Conversion took longer than ten minutes. Try again later.")
    );
    assert!(app.take_commands().is_empty());
}

#[test]
fn without_bridge_and_pdf_there_is_no_text() {
    let mut app = in_detail("PAPER001");
    app.on_action(press(Action::FullText));
    assert_eq!(
        app.trouble.as_deref(),
        Some("No stored PDF with indexed text is attached to this Zotero item.")
    );
    let mut poll = in_detail("PAPER001");
    poll.poll_conversion();
    assert_eq!(
        poll.trouble.as_deref(),
        Some("No optional conversion bridge is configured.")
    );
}

#[test]
fn indexed_text_becomes_a_document() {
    let mut app = ReadingList {
        pane: Pane::Converting,
        task: Some((1, Awaiting::ZoteroFullText)),
        ..in_detail("PAPER001")
    };
    app.on_task(Step::Elsewhere, 1, json(object(vec![("content", text("Hello"))])));
    let html = b"<html><body><h1>Synthetic paper</h1><p>Hello</p></body></html>".to_vec();
    assert_eq!(app.take_commands(), vec![Command::Parse { html: html.clone() }, Command::Show]);
    assert_eq!(app.conversion.as_ref().map(|one| one.truncated), Some(false));
    app.took_document(html, true);
    assert_eq!(app.pane, Pane::FullText);

    let mut unread = ReadingList {
        pane: Pane::Converting,
        task: Some((1, Awaiting::ZoteroFullText)),
        ..in_detail("PAPER001")
    };
    unread.on_task(Step::Elsewhere, 1, json(Value::Null));
    assert_eq!(
        unread.trouble.as_deref(),
        Some("Zotero returned unreadable indexed text for this attachment.")
    );
}

#[test]
fn a_text_must_be_text_and_readable() {
    let mut app = in_detail("PAPER001");
    app.took_document(vec![0xff], true);
    assert_eq!(app.trouble.as_deref(), Some("The paper text was not valid UTF-8."));
    app.took_document(b"<p></p>".to_vec(), false);
    assert_eq!(
        app.trouble.as_deref(),
        Some("The response contained no readable paper text.")
    );
    assert_eq!(app.fetched_html, None);
}

#[test]
fn pictures_are_read_one_after_the_other() {
    let mut app = ReadingList {
        bridge: Some("https://papers.example.com".to_owned()),
        pane: Pane::FullText,
        ..in_detail("PAPER001")
    };
    app.book_opened(vec![
        "figures/../secret".to_owned(),
        "figures/figure-001.png".to_owned(),
        "other/figure-002.png".to_owned(),
        "figures/figure-003.jpg".to_owned(),
    ]);
    assert_eq!(
        app.take_commands(),
        vec![Command::SpawnFigure {
            url: "https://papers.example.com/v1/items/PAPER001/figures/figure-001.png".to_owned(),
            credential: Credential::Bridge,
            name: "figures/figure-001.png".to_owned(),
        }]
    );
    app.figure_spawned("figures/figure-001.png".to_owned(), Some(9));
    app.on_task(
        Step::Elsewhere,
        9,
        Reply::Completed { bytes: vec![5], json: None, readable: false },
    );
    let commands = app.take_commands();
    assert_eq!(
        commands[0],
        Command::ProvidePicture { name: "figures/figure-001.png".to_owned(), bytes: vec![5] }
    );
    assert!(matches!(
        &commands[1],
        Command::SpawnFigure { name, .. } if name == "figures/figure-003.jpg"
    ));
    app.figure_spawned("figures/figure-003.jpg".to_owned(), None);
    assert_eq!(app.figures, VecDeque::from(vec!["figures/figure-003.jpg".to_owned()]));
    app.figure_spawned("x".to_owned(), Some(10));
    app.figures.clear();
    app.on_task(Step::Elsewhere, 10, Reply::Failed(TaskError::NotFound));
    assert_eq!(app.take_commands(), vec![Command::SettlePictures, Command::Show]);
}

#[test]
fn a_text_is_kept_and_discarded() {
    let mut app = in_detail("PAPER001");
    app.opened_title = "A\ttitle".to_owned();
    app.shelf_documents = Some(vec![]);
    app.on_action(press(Action::Keep));
    assert_eq!(
        app.trouble.as_deref(),
        Some("Open the full text before keeping it offline.")
    );
    app.fetched_html = Some(b"<p>x</p>".to_vec());
    app.take_commands();
    app.on_action(press(Action::Keep));
    assert_eq!(
        app.take_commands()[0],
        Command::Upload {
            transfer: Transfer::DocumentSave,
            name: "document.paper001".to_owned(),
            bytes: b"<p>x</p>".to_vec(),
        }
    );
    app.on_action(press(Action::Keep));
    assert_eq!(app.trouble.as_deref(), Some("The offline copy is still being saved."));
    app.take_commands();
    app.on_store(report(Transfer::DocumentSave, done(&[])), Stored::Other);
    assert!(app.is_kept("PAPER001"));
    assert!(!app.is_kept("PAPER002"));
    assert_eq!(app.shelf_documents, Some(vec!["document.paper001".to_owned()]));
    let commands = app.take_commands();
    let Command::Save { key: "library", value } = &commands[0] else {
        panic!("the library is saved");
    };
    assert_eq!(
        decode_library(value),
        vec![Kept {
            key: "PAPER001".to_owned(),
            title: "A title".to_owned(),
            creators: "Ada".to_owned(),
            bytes: 8,
        }]
    );
    app.on_action(press(Action::Discard));
    assert!(!app.is_kept("PAPER001"));
    assert_eq!(app.shelf_documents, Some(vec![]));
    assert_eq!(
        app.take_commands(),
        vec![
            Command::Remove { name: "document.paper001".to_owned() },
            Command::Remove { name: "memory.paper001".to_owned() },
            Command::Save { key: "library", value: vec![] },
            Command::Show,
        ]
    );
}

#[test]
fn a_full_library_keeps_no_more() {
    let mut app = in_detail("PAPER001");
    app.fetched_html = Some(vec![]);
    app.library = (0..MAX_KEPT).map(|n| kept(&format!("K{n}"))).collect();
    app.on_action(press(Action::Keep));
    assert_eq!(
        app.trouble.as_deref(),
        Some("Offline library full. Remove a paper before keeping another.")
    );
    app.library.pop();
    app.on_action(press(Action::Keep));
    app.on_store(report(Transfer::DocumentSave, failed(false)), Stored::Other);
    assert_eq!(app.trouble.as_deref(), Some("The paper text could not be kept."));
    assert_eq!(app.document_transfer, None);
    assert_eq!(app.library.len(), MAX_KEPT - 1);
}

fn rows(count: usize) -> Vec<u8> {
    (0..count).map(|n| format!("K{n}\t1\tT\n")).collect::<String>().into_bytes()
}

fn keeping() -> ReadingList {
    let mut app = in_detail("PAPER001");
    app.fetched_html = Some(vec![]);
    app.on_action(press(Action::Keep));
    assert!(app.document_transfer.is_some());
    app
}

#[test]
fn a_list_that_comes_while_a_text_is_saved_leaves_room_for_it() {
    let mut app = keeping();
    app.on_store(vec![], loaded("library", Some(&rows(MAX_KEPT - 1))));
    assert_eq!(app.library.len(), MAX_KEPT - 1);
    app.on_store(report(Transfer::DocumentSave, done(&[])), Stored::Other);
    assert_eq!(app.library.len(), MAX_KEPT);
    assert_eq!(app.library[0].key, "PAPER001");
}

#[test]
fn the_shelf_can_make_room_in_a_full_list() {
    let mut app = keeping();
    app.shelf_documents = Some((1..MAX_KEPT).map(|n| format!("document.k{n}")).collect());
    app.on_store(vec![], loaded("library", Some(&rows(MAX_KEPT))));
    assert_eq!(app.library.len(), MAX_KEPT - 1);
    app.on_store(report(Transfer::DocumentSave, done(&[])), Stored::Other);
    assert_eq!(app.library.len(), MAX_KEPT);
}

#[test]
fn a_full_list_that_comes_while_a_text_is_saved_grows_by_one() {
    let mut app = keeping();
    app.on_store(vec![], loaded("library", Some(&rows(MAX_KEPT + 4))));
    assert_eq!(app.library.len(), MAX_KEPT);
    app.take_commands();
    app.on_store(report(Transfer::DocumentSave, done(&[])), Stored::Other);
    assert_eq!(app.library.len(), MAX_KEPT + 1);
    let commands = app.take_commands();
    let Command::Save { key: "library", value } = &commands[0] else {
        panic!("the library is saved");
    };
    assert_eq!(decode_library(value), app.library[..MAX_KEPT].to_vec());
    app.on_action(press(Action::Discard));
    assert_eq!(app.library.len(), MAX_KEPT);
    app.on_action(press(Action::Keep));
    assert_eq!(
        app.trouble.as_deref(),
        Some("Offline library full. Remove a paper before keeping another.")
    );
}

#[test]
fn a_list_in_an_answer_that_moves_a_transfer_is_not_taken() {
    let mut app = keeping();
    app.on_store(
        report(Transfer::DocumentSave, Progress::Moving),
        loaded("library", Some(&rows(MAX_KEPT))),
    );
    assert!(app.library.is_empty());
}

#[test]
fn shelf_and_library_are_made_to_agree() {
    let mut app = ReadingList::default();
    app.on_store(vec![], loaded("library", Some(b"A1\t1\tT\nB2\t1\tT\n")));
    assert_eq!(app.library.len(), 2);
    app.take_commands();
    app.on_store(
        vec![],
        Stored::Shelf(vec![
            "document.a1".to_owned(),
            "document.c3".to_owned(),
            "memory.a1".to_owned(),
            "document.../x".to_owned(),
        ]),
    );
    assert_eq!(app.library.len(), 1);
    assert_eq!(app.library[0].key, "A1");
    assert_eq!(
        app.take_commands(),
        vec![
            Command::Remove { name: "document.c3".to_owned() },
            Command::Save { key: "library", value: b"A1\t1\tT\t\n".to_vec() },
            Command::Show,
        ]
    );
}

#[test]
fn marking_changes_one_paper() {
    let mut app = in_detail("PAPER001");
    app.read_keys = vec!["OTHER".to_owned()];
    app.on_action(press(Action::ToggleRead));
    assert_eq!(app.read_keys, vec!["OTHER".to_owned(), "PAPER001".to_owned()]);
    app.on_action(press(Action::ToggleRead));
    assert_eq!(app.read_keys, vec!["OTHER".to_owned()]);
    let full: Vec<String> = (0..500).map(|n| format!("K{n}")).collect();
    app.read_keys = full.clone();
    app.mark_opened("NEW");
    assert_eq!(app.read_keys.len(), 500);
    assert_eq!(app.read_keys[0], "K1");
    assert_eq!(app.read_keys[499], "NEW");
    app.on_store(vec![], loaded("reading-state", Some(b"last\tX\nread\tY\n")));
    assert_eq!(app.read_keys, vec!["Y".to_owned()]);
    assert_eq!(app.last_opened.as_deref(), Some("X"));
}

#[test]
fn leaving_a_text_saves_its_memory() {
    let mut app = ReadingList { pane: Pane::FullText, ..in_detail("PAPER001") };
    app.figure_task = Some((4, "figures/figure-001.png".to_owned()));
    app.on_action(remembering(Action::Back, &[1, 2]));
    assert_eq!(app.pane, Pane::Detail);
    assert_eq!(
        app.take_commands(),
        vec![
            Command::Upload {
                transfer: Transfer::MemorySave,
                name: "memory.paper001".to_owned(),
                bytes: vec![1, 2],
            },
            Command::CloseBook,
            Command::Cancel(4),
            Command::Show,
        ]
    );
    app.on_background(Some(vec![3]));
    assert_eq!(app.pending_memory, Some(("memory.paper001".to_owned(), vec![3])));
    app.on_suspend(Some(vec![4]));
    assert!(app.take_commands().is_empty());
    app.on_store(report(Transfer::MemorySave, done(&[])), Stored::Other);
    assert_eq!(
        app.take_commands()[0],
        Command::Upload {
            transfer: Transfer::MemorySave,
            name: "memory.paper001".to_owned(),
            bytes: vec![4],
        }
    );
    app.on_store(report(Transfer::MemorySave, done(&[])), Stored::Other);
    assert!(!app.memory_upload);
    app.on_exit();
    assert!(app.take_commands().contains(&Command::CloseBook));
}

#[test]
fn a_memory_goes_to_the_open_document_or_waits_for_it() {
    let mut app = ReadingList { pane: Pane::FullText, ..in_detail("PAPER001") };
    app.memory_loading = Some("PAPER001".to_owned());
    app.on_store(report(Transfer::MemoryLoad, done(&[8])), Stored::Other);
    assert_eq!(app.take_commands()[0], Command::Restore { bytes: vec![8] });
    app.restored(vec![8], true);
    assert_eq!(app.place, None);
    app.restored(vec![8], false);
    assert_eq!(app.place, Some(Place::Saved(vec![8])));
    app.took_document(b"<p>x</p>".to_vec(), true);
    assert!(app.take_commands().contains(&Command::OpenBook {
        html: b"<p>x</p>".to_vec(),
        place: Place::Saved(vec![8]),
        truncated: false,
    }));

    let mut other = in_detail("PAPER001");
    other.memory_loading = Some("PAPER002".to_owned());
    other.on_store(report(Transfer::MemoryLoad, done(&[8])), Stored::Other);
    assert_eq!(other.take_commands(), vec![Command::Show]);
    other.memory_loading = Some("PAPER001".to_owned());
    other.on_store(report(Transfer::MemoryLoad, failed(false)), Stored::Other);
    assert_eq!(
        other.trouble.as_deref(),
        Some("Reading position and annotations could not be loaded.")
    );
}

#[test]
fn a_failed_save_says_why() {
    let mut app = ReadingList {
        memory_upload: true,
        active_memory: Some(("memory.x".to_owned(), vec![1])),
        ..in_detail("PAPER001")
    };
    app.on_store(report(Transfer::MemorySave, failed(false)), Stored::Other);
    assert_eq!(
        app.trouble.as_deref(),
        Some("Reading position and annotations are not saved (too full). Use Retry position below.")
    );
    app.memory_upload = true;
    app.on_action(press(Action::RetryMemory));
    assert_eq!(app.trouble.as_deref(), Some("Reading memory is still being saved."));
}

#[test]
fn an_answer_that_moves_a_transfer_needs_no_more() {
    let mut app = ReadingList { snapshot_upload: true, ..in_feed(vec![]) };
    app.on_store(
        report(Transfer::SnapshotSave, Progress::Moving),
        loaded("reading-state", Some(b"read\tY\n")),
    );
    assert!(app.take_commands().is_empty());
    assert!(app.read_keys.is_empty());
    app.on_store(report(Transfer::SnapshotSave, Progress::Elsewhere), Stored::Other);
    assert!(app.waits_for(Transfer::SnapshotSave));
    app.on_store(report(Transfer::SnapshotSave, done(&[])), Stored::Other);
    assert!(!app.waits_for(Transfer::SnapshotSave));
    app.on_store(report(Transfer::SnapshotSave, Progress::Moving), Stored::Other);
    assert_eq!(app.take_commands().last(), Some(&Command::Show));
}

#[test]
fn stale_answers_change_nothing() {
    let mut app = ReadingList { task: Some((1, Awaiting::Detail)), ..in_detail("PAPER001") };
    app.on_task(Step::Elsewhere, 2, json(Value::Null));
    assert_eq!(app.task, Some((1, Awaiting::Detail)));
    assert!(app.take_commands().is_empty());
    app.on_task(Step::Quiet, 1, json(Value::Null));
    assert_eq!(app.task, Some((1, Awaiting::Detail)));
    app.on_task(Step::Repaint, 1, json(Value::Null));
    assert_eq!(app.take_commands(), vec![Command::Show]);
    app.on_task(Step::Elsewhere, 1, Reply::Cancelled);
    assert_eq!(app.task, None);
    assert_eq!(app.trouble, None);
}

#[test]
fn a_failed_text_leads_back_to_the_details() {
    for awaiting in [
        Awaiting::StartConversion,
        Awaiting::PollConversion,
        Awaiting::Document,
        Awaiting::ZoteroFullText,
    ] {
        let mut app = ReadingList {
            pane: Pane::Converting,
            task: Some((1, awaiting)),
            ..in_detail("PAPER001")
        };
        app.on_task(Step::Elsewhere, 1, Reply::Failed(TaskError::TimedOut));
        assert_eq!(app.pane, Pane::Detail);
        assert_eq!(app.trouble, Some(explain_failure(awaiting, TaskError::TimedOut)));
    }
    let mut feed = in_feed(vec![]);
    feed.task = Some((1, Awaiting::SnapshotPage(0)));
    feed.on_task(Step::Elsewhere, 1, Reply::Failed(TaskError::Offline));
    assert_eq!(feed.pane, Pane::Feed);
}

#[test]
fn back_leads_out_step_by_step() {
    let mut app = ReadingList {
        pane: Pane::Converting,
        task: Some((1, Awaiting::Document)),
        ..in_detail("PAPER001")
    };
    app.on_action(press(Action::Back));
    assert_eq!(app.pane, Pane::Detail);
    assert_eq!(app.task, None);
    assert_eq!(app.take_commands(), vec![Command::Cancel(1), Command::Show]);
    app.on_action(press(Action::Back));
    assert_eq!(app.pane, Pane::Feed);
    app.take_commands();
    app.on_action(press(Action::Back));
    assert_eq!(app.pane, Pane::Feed);
    assert!(app.take_commands().is_empty());
    app.pane = Pane::Search;
    app.back(None);
    assert_eq!(app.pane, Pane::Feed);
    app.pane = Pane::Collections;
    app.back(None);
    assert_eq!(app.pane, Pane::Setup);
    app.selected = Some(collection("COLL1"));
    app.pane = Pane::Collections;
    app.back(None);
    assert_eq!(app.pane, Pane::Feed);
    app.from_library = true;
    app.pane = Pane::FullText;
    app.back(None);
    assert_eq!(app.pane, Pane::Library);
}

#[test]
fn the_open_document_decides_first() {
    let mut app = ReadingList { pane: Pane::FullText, ..in_detail("PAPER001") };
    let read = |outcome: Outcome| Press {
        outcome: Some(outcome),
        memory: Some(vec![6]),
        ..press(Action::Library)
    };
    app.on_action(read(Outcome::Light(40)));
    assert_eq!(app.take_commands(), vec![Command::SetFrontlight(40)]);
    app.on_action(read(Outcome::Repaint));
    assert_eq!(app.take_commands(), vec![Command::Show]);
    app.on_action(read(Outcome::Elsewhere));
    assert_eq!(app.take_commands(), vec![Command::Show]);
    app.on_action(read(Outcome::Save));
    assert_eq!(
        app.take_commands(),
        vec![Command::Upload {
            transfer: Transfer::MemorySave,
            name: "memory.paper001".to_owned(),
            bytes: vec![6],
        }]
    );
    app.on_action(read(Outcome::Close));
    assert_eq!(app.pane, Pane::Detail);
}

#[test]
fn pages_turn_where_there_are_pages() {
    let mut app = in_feed(vec![]);
    app.on_action(press(Action::PageNext));
    assert_eq!(app.list_page, 1);
    app.on_action(press(Action::PageBack));
    app.on_action(press(Action::PageBack));
    assert_eq!(app.list_page, 0);
    app.pane = Pane::Library;
    app.turn(true);
    assert_eq!(app.library_page, 1);
    app.pane = Pane::Detail;
    app.turn(true);
    assert_eq!(app.detail_page, 1);
    app.take_commands();
    app.pane = Pane::Search;
    app.turn(true);
    assert!(app.take_commands().is_empty());
    app.pane = Pane::Feed;
    app.list_page = usize::MAX;
    app.turn(true);
    assert_eq!(app.list_page, usize::MAX);
}

#[test]
fn actions_are_named_for_what_can_be_pressed() {
    let mut app = in_feed(vec![paper("A1"), paper("B2")]);
    app.collections = vec![collection("COLL1")];
    app.library = vec![kept("A1")];
    let actions = app.actions();
    assert_eq!(actions[0], ("refresh".to_owned(), Action::Refresh));
    assert!(actions.contains(&("change-collection".to_owned(), Action::ChangeCollection)));
    assert!(actions.contains(&("read-next".to_owned(), Action::PageNext)));
    assert!(actions.contains(&("collection-0".to_owned(), Action::Collection(0))));
    assert!(actions.contains(&("paper-1".to_owned(), Action::Paper(1))));
    assert!(!actions.contains(&("paper-2".to_owned(), Action::Paper(2))));
    assert_eq!(actions.last(), Some(&("kept-0".to_owned(), Action::Kept(0))));
    app.on_action(Press { action: None, ..press(Action::Back) });
    assert!(app.take_commands().is_empty());
}

#[test]
fn details_are_written_out() {
    let detail = Detail {
        paper: Paper { year: "2026".to_owned(), ..Paper::default() },
        authors: vec!["Ada".to_owned(), "Grace".to_owned()],
        abstract_text: "An abstract.".to_owned(),
        venue: "Journal".to_owned(),
        doi: "10.1/x".to_owned(),
        url: "https://example.com".to_owned(),
    };
    assert_eq!(
        detail_text(&detail),
        "Ada, Grace\nJournal · 2026 · DOI 10.1/x\nSource https://example.com\n\nAn abstract.\n"
    );
    assert_eq!(detail_text(&Detail::default()), "No abstract is stored for this item.");
}

#[test]
fn page_numbers_are_clamped() {
    assert_eq!(page_number(0), 1);
    assert_eq!(page_number(70_000), u16::MAX);
    assert_eq!(page_total(0), 1);
    assert_eq!(page_total(12), 12);
    assert_eq!(page_total(70_000), u16::MAX);
}

#[test]
fn zotero_requests_carry_the_api_version_alone() {
    let mut app = in_feed(vec![]);
    app.on_action(press(Action::Refresh));
    let commands = app.take_commands();
    let Some((Work::Fetch { headers, max_bytes, .. }, _)) = request(&commands) else {
        panic!("a request");
    };
    assert_eq!(
        headers,
        &vec![Header { name: "Zotero-API-Version".to_owned(), value: "3".to_owned() }]
    );
    assert_eq!(*max_bytes, 4 * 1024 * 1024);
}

use zotero_reader::bridge::conversion;
use zotero_reader::cache::{encode_snapshot, normalized_paper, snapshot};
use zotero_reader::fulltext::{escape_html, plain_text_blocks, zotero_fulltext, TEXT_BLOCK_CHARS};
use zotero_reader::json::{member_names, Member, Value};
use zotero_reader::model::{Attachment, Conversion, Paper, Snapshot, MAX_ITEMS};
use zotero_reader::order::sort_newest;
use zotero_reader::paper::found_in;
use zotero_reader::zotero::{
    creator_names, tags, year, zotero_collections, zotero_detail, zotero_items, zotero_paper,
    zotero_pdf_attachment, MAX_AUTHORS,
};

fn text(value: &str) -> Value {
    Value::Text(value.to_owned())
}

fn object(members: Vec<(&str, Value)>) -> Value {
    Value::Object(
        members
            .into_iter()
            .map(|(name, value)| Member { name: name.to_owned(), value })
            .collect(),
    )
}

fn collections() -> Value {
    Value::Array(vec![object(vec![
        ("key", text("COLL1234")),
        ("version", Value::Number(7)),
        (
            "data",
            object(vec![("key", text("COLL1234")), ("name", text("Reading  Queue"))]),
        ),
    ])])
}

fn creator(first: &str, last: &str) -> Value {
    object(vec![
        ("creatorType", text("author")),
        ("firstName", text(first)),
        ("lastName", text(last)),
    ])
}

fn item(key: &str, title: &str, added: &str) -> Value {
    object(vec![
        ("key", text(key)),
        ("version", Value::Number(9)),
        (
            "data",
            object(vec![
                ("key", text(key)),
                ("version", Value::Number(9)),
                ("itemType", text("journalArticle")),
                ("title", text(title)),
                (
                    "creators",
                    Value::Array(vec![
                        creator("Ada", "Lovelace"),
                        creator("Grace", "Hopper"),
                        object(vec![("name", text("Bounded Systems Group"))]),
                    ]),
                ),
                ("date", text("21 August 2026")),
                ("dateAdded", text(added)),
                (
                    "tags",
                    Value::Array(vec![object(vec![("tag", text("systems"))])]),
                ),
                ("publicationTitle", text("Journal of Bounded Systems")),
                ("DOI", text("10.1000/bounded")),
                ("url", text("https://example.com/paper")),
                ("abstractNote", text("An abstract.")),
            ]),
        ),
    ])
}

fn items() -> Value {
    Value::Array(vec![
        item("PAPER002", "A later paper", "2026-08-22T12:00:00Z"),
        item("PAPER001", "An earlier paper", "2026-08-21T12:00:00Z"),
    ])
}

fn child(key: &str, mode: &str) -> Value {
    object(vec![
        ("key", text(key)),
        (
            "data",
            object(vec![
                ("key", text(key)),
                ("version", Value::Number(1)),
                ("itemType", text("attachment")),
                ("contentType", text("application/pdf")),
                ("linkMode", text(mode)),
            ]),
        ),
    ])
}

fn fulltext(content: &str) -> Value {
    object(vec![
        ("content", text(content)),
        ("indexedPages", Value::Number(2)),
        ("totalPages", Value::Number(3)),
    ])
}

fn spelled(value: &Value, out: &mut String) {
    match value {
        Value::Null => out.push_str("null"),
        Value::Bool(flag) => out.push_str(if *flag { "true" } else { "false" }),
        Value::Number(number) => out.push_str(&number.to_string()),
        Value::Text(text) => spelled_text(text, out),
        Value::Array(rows) => {
            out.push('[');
            for (index, row) in rows.iter().enumerate() {
                if index > 0 {
                    out.push(',');
                }
                spelled(row, out);
            }
            out.push(']');
        }
        Value::Object(members) => {
            out.push('{');
            for (index, member) in members.iter().enumerate() {
                if index > 0 {
                    out.push(',');
                }
                spelled_text(&member.name, out);
                out.push(':');
                spelled(&member.value, out);
            }
            out.push('}');
        }
    }
}

fn spelled_text(text: &str, out: &mut String) {
    out.push('"');
    for unit in text.encode_utf16() {
        if (0x20..0x7f).contains(&unit) && unit != 0x22 && unit != 0x5c {
            out.push(char::from(unit as u8));
        } else {
            out.push_str(&format!("\\u{unit:04x}"));
        }
    }
    out.push('"');
}

#[test]
fn zotero_fixtures_map_to_the_reader_contract() {
    let collections = zotero_collections(&collections()).expect("collections parse");
    assert_eq!(collections[0].name, "Reading Queue");
    let papers = zotero_items(&items()).expect("items parse");
    assert_eq!(papers[0].creators, "Ada Lovelace et al.");
    assert_eq!(papers[0].year, "2026");
    assert!(papers[0].searchable("SYSTEMS"));
    let detail = zotero_detail(&item("PAPER001", "An earlier paper", "2026-08-21T12:00:00Z"))
        .expect("detail parses");
    assert_eq!(detail.venue, "Journal of Bounded Systems");
    assert_eq!(detail.authors.len(), 3);
    let children = Value::Array(vec![
        child("LINK1234", "linked_file"),
        child("PDF12345", "imported_file"),
    ]);
    let attachment = zotero_pdf_attachment(&children)
        .expect("children parse")
        .expect("stored PDF");
    assert_eq!(attachment.key, "PDF12345");
}

#[test]
fn normalized_snapshot_round_trips_and_sorts() {
    let mut papers = zotero_items(&items()).expect("items parse");
    papers.reverse();
    let original = Snapshot {
        collection_key: "COLL1234".to_owned(),
        revision: "9".to_owned(),
        total: papers.len(),
        truncated: false,
        papers,
    };
    let decoded = snapshot(&encode_snapshot(&original)).expect("cache parses");
    assert_eq!(decoded.collection_key, original.collection_key);
    assert!(decoded.papers[0].date_added >= decoded.papers[1].date_added);
}

#[test]
fn five_hundred_worst_case_summaries_fit_the_shelf_envelope() {
    let paper = Paper {
        key: "PAPER001".to_owned(),
        version: u32::MAX,
        title: "界".repeat(512),
        creators: "界".repeat(160),
        year: "2026".to_owned(),
        date_added: "2026-08-21T12:00:00Z".to_owned(),
        tags: vec!["界".repeat(48); 10],
        has_pdf: false,
    };
    let snapshot = Snapshot {
        collection_key: "COLL1234".to_owned(),
        revision: "4294967295".to_owned(),
        total: 500,
        truncated: true,
        papers: vec![paper; 500],
    };

    let mut json = String::new();
    spelled(&encode_snapshot(&snapshot), &mut json);
    assert!(json.len() <= 4 * 1024 * 1024);
}

#[test]
fn indexed_text_is_inert_and_truncated_at_created_block_boundaries() {
    let content = format!("<script>alert(1)</script> & more\n\n{}", "words ".repeat(200));
    let fulltext =
        zotero_fulltext(&fulltext(&content), "A <Paper>", 420).expect("full text parses");
    let html = std::str::from_utf8(&fulltext.html).expect("generated UTF-8");
    assert!(html.contains("A &lt;Paper&gt;"));
    assert!(html.contains("&lt;script&gt;"));
    assert!(html.ends_with("</body></html>"));
    assert!(fulltext.truncated);
    assert!(html.len() <= 420);
}

#[test]
fn linked_pdfs_are_not_treated_as_downloadable_stored_files() {
    let body = Value::Array(vec![child("LINK1234", "linked_file")]);
    assert_eq!(zotero_pdf_attachment(&body), Ok(None));
}

#[test]
fn an_attachment_list_that_is_no_list_is_refused() {
    assert_eq!(zotero_pdf_attachment(&Value::Null), Err(()));
    assert_eq!(zotero_pdf_attachment(&Value::Array(vec![])), Ok(None));
    assert_eq!(
        zotero_pdf_attachment(&Value::Array(vec![child("PDF12345", "imported_url")])),
        Ok(Some(Attachment { key: "PDF12345".to_owned(), version: 1 }))
    );
}

#[test]
fn collections_without_a_usable_key_or_name_are_left_out() {
    let row = |key: &str, name: &str| {
        object(vec![("data", object(vec![("key", text(key)), ("name", text(name))]))])
    };
    let read = zotero_collections(&Value::Array(vec![
        row("../bad", "Bad"),
        row("GOOD1", "  "),
        row("GOOD2", "Good"),
    ]))
    .expect("a list");
    assert_eq!(read.len(), 1);
    assert_eq!(read[0].key, "GOOD2");
    assert!(zotero_collections(&Value::Array(vec![object(vec![])])).is_none());
    assert!(zotero_collections(&Value::Bool(true)).is_none());
}

#[test]
fn the_key_of_an_item_may_stand_outside_its_data() {
    let value = object(vec![
        ("key", text("OUTER123")),
        ("version", Value::Number(3)),
        ("data", object(vec![("title", text("A title"))])),
    ]);
    let paper = zotero_paper(&value).expect("a paper");
    assert_eq!(paper.key, "OUTER123");
    assert_eq!(paper.version, 3);
    assert_eq!(paper.creators, "");
    assert_eq!(paper.year, "");
    assert!(!paper.has_pdf);
    assert!(zotero_paper(&object(vec![("data", object(vec![("title", text("No key"))]))])).is_none());
    assert!(zotero_paper(&object(vec![("key", text("KEY1"))])).is_none());
    assert!(zotero_items(&Value::Null).is_none());
    assert!(zotero_detail(&Value::Null).is_none());
}

#[test]
fn long_texts_are_cut_to_their_limits() {
    let value = object(vec![
        ("key", text("PAPER001")),
        ("data", object(vec![("title", text(&"t".repeat(600)))])),
    ]);
    assert_eq!(zotero_paper(&value).expect("a paper").title.len(), 512);
    let many: Vec<Value> = (0..100).map(|n| creator("A", &format!("Author{n}"))).collect();
    let data = object(vec![("creators", Value::Array(many))]);
    assert_eq!(creator_names(&data, MAX_AUTHORS).len(), 64);
    let labels: Vec<Value> = (0..30)
        .map(|n| object(vec![("tag", text(&format!("tag {n}")))]))
        .collect();
    assert_eq!(tags(&object(vec![("tags", Value::Array(labels))])).len(), 10);
}

#[test]
fn the_year_is_the_first_run_of_four_digits_in_a_date() {
    assert_eq!(year("21 August 2026"), "2026");
    assert_eq!(year("2026-08-21"), "2026");
    assert_eq!(year("undated"), "");
    assert_eq!(year("199"), "");
    assert_eq!(year("no. 20261"), "2026");
}

#[test]
fn one_and_two_authors_are_credited_by_name() {
    let with = |creators: Vec<Value>| {
        object(vec![
            ("key", text("PAPER001")),
            (
                "data",
                object(vec![("title", text("T")), ("creators", Value::Array(creators))]),
            ),
        ])
    };
    let one = zotero_paper(&with(vec![creator("Ada", "Lovelace")])).expect("a paper");
    assert_eq!(one.creators, "Ada Lovelace");
    let two = zotero_paper(&with(vec![creator("Ada", "Lovelace"), creator("Grace", "Hopper")]))
        .expect("a paper");
    assert_eq!(two.creators, "Ada Lovelace, Grace Hopper");
}

#[test]
fn papers_are_sorted_newest_first_and_ties_keep_their_order() {
    let paper = |key: &str, added: &str| Paper {
        key: key.to_owned(),
        date_added: added.to_owned(),
        ..Paper::default()
    };
    let sorted = sort_newest(vec![
        paper("A", "2024"),
        paper("B", "2026"),
        paper("C", "2024"),
        paper("D", "2025"),
    ]);
    let keys: Vec<&str> = sorted.iter().map(|paper| paper.key.as_str()).collect();
    assert_eq!(keys, vec!["B", "D", "A", "C"]);
    let again = sort_newest(sorted.clone());
    assert_eq!(again, sorted);
}

#[test]
fn searching_ignores_case_and_looks_at_title_creators_and_tags() {
    let paper = Paper {
        title: "Émile and the ΣYSTEM".to_owned(),
        creators: "Ada Lovelace".to_owned(),
        tags: vec!["Compilers".to_owned()],
        ..Paper::default()
    };
    assert!(paper.searchable("émile"));
    assert!(paper.searchable("LOVE"));
    assert!(paper.searchable("compil"));
    assert!(paper.searchable(""));
    assert!(!paper.searchable("turing"));
    let none: Vec<String> = vec![];
    assert!(found_in("abc", "", &none, "bc"));
    assert!(!found_in("abc", "", &none, "BC"));
}

#[test]
fn a_summary_names_creators_and_year() {
    let paper = |creators: &str, year: &str| Paper {
        creators: creators.to_owned(),
        year: year.to_owned(),
        ..Paper::default()
    };
    assert_eq!(paper("Ada", "2026").summary(), "Ada · 2026");
    assert_eq!(paper("Ada", "").summary(), "Ada");
    assert_eq!(paper("", "2026").summary(), "2026");
    assert_eq!(paper("", "").summary(), "");
}

#[test]
fn a_stored_snapshot_reads_back_as_it_was() {
    let papers = sort_newest(zotero_items(&items()).expect("items parse"));
    let original = Snapshot {
        collection_key: "COLL1234".to_owned(),
        revision: "9".to_owned(),
        total: 2,
        truncated: true,
        papers,
    };
    assert_eq!(snapshot(&encode_snapshot(&original)), Some(original));
    assert_eq!(snapshot(&Value::Null), None);
    assert_eq!(normalized_paper(&Value::Null), None);
}

#[test]
fn a_title_cut_behind_a_space_loses_that_space_in_storage() {
    let title = format!("{} tail", "t".repeat(511));
    let value = object(vec![
        ("key", text("PAPER001")),
        ("data", object(vec![("title", text(&title))])),
    ]);
    let paper = zotero_paper(&value).expect("a paper");
    assert!(paper.title.ends_with(' '));
    let stored = Snapshot { papers: vec![paper.clone()], ..Snapshot::default() };
    let read = snapshot(&encode_snapshot(&stored)).expect("a snapshot");
    assert_eq!(read.papers[0].title, paper.title.trim_end());
}

#[test]
fn no_more_papers_are_read_than_are_shown() {
    let paper = Paper {
        key: "PAPER001".to_owned(),
        title: "T".to_owned(),
        ..Paper::default()
    };
    let stored = Snapshot { papers: vec![paper; 600], ..Snapshot::default() };
    let read = snapshot(&encode_snapshot(&stored)).expect("a snapshot");
    assert_eq!(read.papers.len(), MAX_ITEMS);
}

#[test]
fn every_state_of_a_conversion_is_known() {
    for state in ["missing_pdf", "queued", "running", "ready", "failed"] {
        let read = conversion(&object(vec![("state", text(state))])).expect("a state");
        assert_eq!(read.state, state);
    }
    assert_eq!(conversion(&object(vec![("state", text("gone"))])), None);
    assert_eq!(conversion(&Value::Null), None);
    let full = object(vec![
        ("state", text("failed")),
        ("document_version", text(" v1 ")),
        ("truncated", Value::Bool(true)),
        ("message", text("No\nluck")),
    ]);
    assert_eq!(
        conversion(&full),
        Some(Conversion {
            state: "failed".to_owned(),
            document_version: Some("v1".to_owned()),
            truncated: true,
            message: Some("No luck".to_owned()),
        })
    );
}

#[test]
fn escaping_leaves_no_markup() {
    assert_eq!(escape_html("<a href=\"x\">&'</a>"), "&lt;a href=&quot;x&quot;&gt;&amp;&#39;&lt;/a&gt;");
    assert_eq!(escape_html("plain"), "plain");
}

#[test]
fn blocks_are_paragraphs_on_one_line_and_never_too_long() {
    assert_eq!(
        plain_text_blocks("first line\nsecond line\n\n\nnext"),
        vec!["first line second line".to_owned(), "next".to_owned()]
    );
    let blocks = plain_text_blocks(&"x".repeat(TEXT_BLOCK_CHARS + 5));
    assert_eq!(blocks.len(), 2);
    assert_eq!(blocks[0].len(), TEXT_BLOCK_CHARS);
    assert_eq!(blocks[1].len(), 5);
}

fn without_white_space(value: &str) -> String {
    value.chars().filter(|c| !c.is_whitespace()).collect()
}

#[test]
fn blocks_lose_nothing_but_white_space() {
    let long = "abcdefg ".repeat(1_200);
    for content in [
        "",
        "\n\n\n\n",
        "one\r\n two\t\n\n\nthree \u{2003}four\n",
        "\u{85}next\u{a0}\n\n<p>\u{0}&</p>\rcarried",
        long.as_str(),
    ] {
        let blocks = plain_text_blocks(content);
        assert_eq!(without_white_space(&blocks.concat()), without_white_space(content));
        assert!(blocks.iter().all(|block| !block.contains('\n')));
    }
    assert_eq!(
        plain_text_blocks("one\r\n two\t\n\n\nthree \u{2003}four\n"),
        vec!["one two".to_owned(), "three \u{2003}four".to_owned()]
    );
}

#[test]
fn no_block_crosses_a_blank_line() {
    assert_eq!(
        plain_text_blocks("a\nb\n\nc\n\n\n\nd"),
        vec!["a b".to_owned(), "c".to_owned(), "d".to_owned()]
    );
}

#[test]
fn every_mark_of_a_document_belongs_to_a_known_tag_or_entity() {
    let known = [
        "<html>", "<body>", "<h1>", "</h1>", "<p>", "</p>", "<strong>", "</strong>", "</body>",
        "</html>",
    ];
    let entities = ["&amp;", "&lt;", "&gt;", "&quot;", "&#39;"];
    let content = "<script>alert('x')</script>\n\n<<p>> &lt; \"&\" \u{0}</p";
    let read = zotero_fulltext(&fulltext(content), "<h1 id=\"t\">&</h1>", 4_000).expect("a text");
    assert!(read.truncated);
    let html = String::from_utf8(read.html).expect("UTF-8");
    for (at, c) in html.char_indices() {
        match c {
            '<' => assert!(known.iter().any(|tag| html[at..].starts_with(tag))),
            '>' => assert!(known.iter().any(|tag| html[..=at].ends_with(tag))),
            '&' => assert!(entities.iter().any(|entity| html[at..].starts_with(entity))),
            _ => assert!(c != '"' && c != '\'' && c != '\0'),
        }
    }
    assert_eq!(
        html,
        "<html><body><h1>&lt;h1 id=&quot;t&quot;&gt;&amp;&lt;/h1&gt;</h1>\
         <p>&lt;script&gt;alert(&#39;x&#39;)&lt;/script&gt;</p>\
         <p>&lt;&lt;p&gt;&gt; &amp;lt; &quot;&amp;&quot;  &lt;/p</p>\
         <p><strong>Text truncated. The Zotero index or this reader did not contain the complete \
         document.</strong></p></body></html>"
    );
}

#[test]
fn a_complete_index_is_not_marked_as_truncated() {
    let whole = object(vec![
        ("content", text("Short text.")),
        ("indexedPages", Value::Number(3)),
        ("totalPages", Value::Number(3)),
    ]);
    let read = zotero_fulltext(&whole, "", 1_000).expect("a text");
    assert!(!read.truncated);
    assert_eq!(
        String::from_utf8(read.html).expect("UTF-8"),
        "<html><body><p>Short text.</p></body></html>"
    );
    let in_part = zotero_fulltext(&fulltext("x"), "", 1_000).expect("a text");
    assert!(in_part.truncated);
    let fewer = object(vec![
        ("content", text("x")),
        ("indexedChars", Value::Number(1)),
        ("totalChars", Value::Number(2)),
    ]);
    assert!(zotero_fulltext(&fewer, "", 1_000).expect("a text").truncated);
    let unknown = object(vec![("content", text("x")), ("indexedChars", Value::Number(1))]);
    assert!(!zotero_fulltext(&unknown, "", 1_000).expect("a text").truncated);
    assert!(zotero_fulltext(&whole, "", 10).is_none());
    assert!(zotero_fulltext(&Value::Null, "", 1_000).is_none());
}

#[test]
fn each_member_that_is_read_is_listed_once() {
    let names = member_names();
    assert_eq!(names.len(), 41);
    for name in ["key", "data", "title", "version", "indexedChars", "websiteTitle", "year"] {
        assert_eq!(names.iter().filter(|listed| **listed == name).count(), 1);
    }
    assert!(!names.contains(&"parentItem"));
}

use zotero_reader::keys::{
    document_blob, lower, memory_blob, snapshot_blob, valid_figure, valid_key, valid_origin,
    valid_user_id,
};
use zotero_reader::model::Collection;
use zotero_reader::number::{decimal_text, parse_number};
use zotero_reader::records::{
    decode_library, decode_reading_state, decode_selection, encode_library, encode_reading_state,
    encode_selection, Kept, MAX_KEPT,
};
use zotero_reader::text::{blank, clean, compact, lines, occurs, trim};

#[test]
fn only_an_exact_bare_https_origin_is_accepted() {
    assert!(valid_origin("https://papers.example.com"));
    for invalid in [
        "http://papers.example.com",
        "https://papers.example.com/path",
        "https://user@papers.example.com",
        "https://papers.example.com:8443",
        "https://papers.example.com?x=1",
    ] {
        assert!(!valid_origin(invalid), "accepted {invalid}");
    }
}

#[test]
fn user_ids_are_numeric_account_ids() {
    assert!(valid_user_id("1234567"));
    assert!(!valid_user_id(""));
    assert!(!valid_user_id("andre"));
    assert!(!valid_user_id("123/456"));
}

#[test]
fn zotero_keys_are_mapped_to_usable_shelf_names() {
    for name in [
        snapshot_blob("COLL1234"),
        document_blob("PAPER001"),
        memory_blob("PAPER001"),
    ] {
        assert!(
            !name.is_empty()
                && name
                    .chars()
                    .all(|c| c.is_ascii_lowercase() || c.is_ascii_digit() || c == '.'),
            "invalid shelf name: {name}"
        );
    }
    assert_eq!(snapshot_blob("COLL1234"), "snapshot.coll1234");
    assert_eq!(document_blob("PAPER001"), "document.paper001");
    assert_eq!(memory_blob("PAPER001"), "memory.paper001");
}

#[test]
fn figure_names_cannot_walk_or_change_type() {
    assert!(valid_figure("figure-001.png"));
    assert!(valid_figure("figure-064.jpg"));
    assert!(!valid_figure("../figure-001.png"));
    assert!(!valid_figure("figure-1.png"));
    assert!(!valid_figure("figure-001.svg"));
}

#[test]
fn selection_and_library_round_trip_without_forging_rows() {
    let collection = Collection {
        key: "COLL1".to_owned(),
        name: "Read\nnext".to_owned(),
    };
    assert_eq!(
        decode_selection(&encode_selection(&collection)),
        Some(Collection {
            key: "COLL1".to_owned(),
            name: "Read next".to_owned(),
        })
    );
    let library = vec![Kept {
        key: "ITEM1".to_owned(),
        title: "A\tPaper".to_owned(),
        creators: "Ada".to_owned(),
        bytes: 42,
    }];
    assert_eq!(
        decode_library(&encode_library(&library))[0].title,
        "A Paper"
    );
    let last = "ITEM1".to_owned();
    let state = encode_reading_state(&vec!["ITEM1".to_owned(), "../bad".to_owned()], Some(&last));
    assert_eq!(
        decode_reading_state(&state),
        (vec!["ITEM1".to_owned()], Some("ITEM1".to_owned()))
    );
}

#[test]
fn keys_are_short_and_alphanumeric() {
    assert!(valid_key("ABCD1234"));
    assert!(valid_key(&"a".repeat(32)));
    assert!(!valid_key(&"a".repeat(33)));
    assert!(!valid_key(""));
    assert!(!valid_key("AB-1"));
    assert!(!valid_key("é"));
}

#[test]
fn user_ids_have_at_most_twenty_digits() {
    assert!(valid_user_id("12345678901234567890"));
    assert!(!valid_user_id("123456789012345678901"));
}

#[test]
fn origins_have_a_host() {
    assert!(!valid_origin("https://"));
    assert!(!valid_origin("https://papers.example.com#top"));
    assert!(!valid_origin("https://papers_example.com"));
    assert!(valid_origin("https://papers-1.example.com"));
}

#[test]
fn lowering_changes_ascii_letters_only() {
    assert_eq!(lower("AbZ9É"), "abz9É");
}

#[test]
fn records_that_are_not_text_are_empty() {
    assert_eq!(decode_selection(&[0xff]), None);
    assert_eq!(decode_library(&[0xff]), vec![]);
    assert_eq!(decode_reading_state(&[0xff]), (vec![], None));
}

#[test]
fn selections_need_a_key_and_a_name() {
    assert_eq!(decode_selection(b"COLL1"), None);
    assert_eq!(decode_selection(b"COLL1\t"), None);
    assert_eq!(decode_selection(b"../x\tName"), None);
    assert_eq!(
        decode_selection(b"COLL1\tA\tB"),
        Some(Collection { key: "COLL1".to_owned(), name: "A B".to_owned() })
    );
}

#[test]
fn library_rows_need_three_fields() {
    let read = decode_library(b"A1\t5\tTitle\nA2\tx\tTitle\nA3\t7\nA4\t9\tT\tC\tignored\r\n../x\t1\tT\n");
    assert_eq!(
        read,
        vec![
            Kept { key: "A1".to_owned(), title: "Title".to_owned(), creators: String::new(), bytes: 5 },
            Kept { key: "A4".to_owned(), title: "T".to_owned(), creators: "C".to_owned(), bytes: 9 },
        ]
    );
}

#[test]
fn no_more_papers_are_written_than_are_kept() {
    let library: Vec<Kept> = (0..MAX_KEPT + 4)
        .map(|n| Kept {
            key: format!("KEY{n}"),
            title: format!("Paper {n}"),
            creators: "Ada".to_owned(),
            bytes: u32::MAX,
        })
        .collect();
    let read = decode_library(&encode_library(&library));
    assert_eq!(read.len(), MAX_KEPT);
    assert_eq!(read[..], library[..MAX_KEPT]);
}

#[test]
fn a_key_is_read_once_and_nothing_opened_is_nothing() {
    let keys = vec!["A".to_owned(), "B".to_owned(), "A".to_owned()];
    let state = encode_reading_state(&keys, None);
    assert_eq!(state, b"last\t\nread\tA\nread\tB\nread\tA\n".to_vec());
    assert_eq!(
        decode_reading_state(&state),
        (vec!["A".to_owned(), "B".to_owned()], None)
    );
}

#[test]
fn no_more_keys_are_written_than_papers_are_shown() {
    let keys: Vec<String> = (0..600).map(|n| format!("K{n}")).collect();
    let (read, last) = decode_reading_state(&encode_reading_state(&keys, Some(&keys[599])));
    assert_eq!(read[..], keys[..500]);
    assert_eq!(last, Some("K599".to_owned()));
}

#[test]
fn numbers_are_written_and_read_in_decimal() {
    assert_eq!(decimal_text(0), "0");
    assert_eq!(decimal_text(u64::MAX), u64::MAX.to_string());
    assert_eq!(parse_number("4294967295"), Some(u32::MAX));
    assert_eq!(parse_number("4294967296"), None);
    assert_eq!(parse_number("+7"), "+7".parse().ok());
    assert_eq!(parse_number("-7"), "-7".parse::<u32>().ok());
    assert_eq!(parse_number(""), None);
    assert_eq!(parse_number("7 "), None);
}

#[test]
fn white_space_is_what_unicode_says() {
    for c in '\0'..=char::MAX {
        assert_eq!(blank(c), c.is_whitespace(), "{:x}", c as u32);
    }
}

#[test]
fn cleaning_leaves_single_spaces() {
    assert_eq!(clean("  a\t\nb\0c  ", 10), "a b c");
    assert_eq!(clean("abcdef", 3), "abc");
    assert_eq!(clean("ab cd", 3), "ab ");
    assert_eq!(clean("", 3), "");
}

#[test]
fn compacting_keeps_the_length() {
    assert_eq!(compact("a\tb\r\nc", 10), "a b  c");
    assert_eq!(compact("abcdef", 4), "abcd");
}

#[test]
fn lines_end_like_those_of_a_string() {
    for text in ["", "a", "a\n", "a\r\nb", "a\n\nb\n", "\r", "a\r"] {
        let chars: Vec<char> = text.chars().collect();
        let expected: Vec<String> = text.lines().map(str::to_owned).collect();
        let read: Vec<String> = lines(&chars)
            .into_iter()
            .map(|line| line.into_iter().collect())
            .collect();
        assert_eq!(read, expected, "{text:?}");
    }
}

#[test]
fn trimming_and_searching_follow_strings() {
    for text in ["", "  ", " a b ", "\u{3000}x\u{2003}"] {
        assert_eq!(trim(text), text.trim());
    }
    for (part, text) in [("", ""), ("a", ""), ("bc", "abcd"), ("bd", "abcd"), ("aab", "aaab")] {
        assert_eq!(occurs(part, text), text.contains(part));
    }
}

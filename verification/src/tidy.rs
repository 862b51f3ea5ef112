//! Lines that cleaning leaves as they are.
use vstd::prelude::*;

use crate::cache::settled_paper;
use crate::json::{text_in, Value};
use crate::text::{cleaned, is_alphanumeric, is_digit, is_filled, join, pieces, prefix, words, Mark};
use crate::zotero::{creators_in, credited, law_papers_are_bounded, paper_in, tag_row, MAX_AUTHORS};

verus! {

/// A start of a clean line: no gap but single spaces, none at the start.
pub open spec fn half_tidy(text: Seq<char>) -> bool {
    &&& forall|i: int|
        0 <= i < text.len() ==> (Mark::Gap.hits(#[trigger] text[i]) ==> text[i] == ' ')
    &&& text.len() > 0 ==> text[0] != ' '
    &&& forall|i: int| 0 < i < text.len() && #[trigger] text[i] == ' ' ==> text[i - 1] != ' '
}

/// A clean line: no gap but single spaces between words.
pub open spec fn tidy(text: Seq<char>) -> bool {
    half_tidy(text) && (text.len() > 0 ==> text.last() != ' ')
}

pub proof fn lemma_words_push(text: Seq<char>, c: char)
    ensures
        Mark::Gap.hits(c) ==> words(text.push(c)) == words(text),
        !Mark::Gap.hits(c) && pieces(text, Mark::Gap).last().len() == 0 ==> words(text.push(c))
            == words(text).push(seq![c]),
        !Mark::Gap.hits(c) && pieces(text, Mark::Gap).last().len() > 0 ==> {
            &&& words(text).len() > 0
            &&& words(text).last() == pieces(text, Mark::Gap).last()
            &&& words(text.push(c)) == words(text).drop_last().push(words(text).last().push(c))
        },
{
    reveal(Seq::filter);
    crate::text::lemma_pieces_some(text, Mark::Gap);
    let before = pieces(text, Mark::Gap);
    let after = pieces(text.push(c), Mark::Gap);
    let f = is_filled();
    assert(text.push(c).drop_last() =~= text);
    assert(before =~= before.drop_last().push(before.last()));
    assert(before.filter(f) == if f(before.last()) {
        before.drop_last().filter(f).push(before.last())
    } else {
        before.drop_last().filter(f)
    });
    if Mark::Gap.hits(c) {
        assert(after.drop_last() =~= before);
    } else {
        assert(after.drop_last() =~= before.drop_last());
        assert(after.last() == before.last().push(c));
        assert(after.filter(f) == after.drop_last().filter(f).push(after.last()));
        if before.last().len() == 0 {
            assert(before.last().push(c) =~= seq![c]);
        } else {
            assert(words(text).drop_last() =~= before.drop_last().filter(f));
        }
    }
}

proof fn lemma_join_push(parts: Seq<Seq<char>>, part: Seq<char>, between: Seq<char>)
    ensures
        join(parts.push(part), between) == if parts.len() == 0 {
            part
        } else {
            join(parts, between) + between + part
        },
{
    assert(parts.push(part).drop_last() =~= parts);
}

proof fn lemma_join_extend(parts: Seq<Seq<char>>, c: char, between: Seq<char>)
    requires
        parts.len() > 0,
    ensures
        join(parts.drop_last().push(parts.last().push(c)), between) == join(parts, between).push(c),
{
    let front = parts.drop_last();
    lemma_join_push(front, parts.last().push(c), between);
    lemma_join_push(front, parts.last(), between);
    assert(parts =~= front.push(parts.last()));
    if front.len() > 0 {
        assert(join(front, between) + between + parts.last().push(c) =~= (join(front, between)
            + between + parts.last()).push(c));
    }
}

/// Where a text ends in a gap or is empty, its last piece is empty, and
/// nowhere else.
proof fn lemma_last_piece(text: Seq<char>)
    ensures
        pieces(text, Mark::Gap).last().len() == 0 <==> text.len() == 0 || Mark::Gap.hits(
            text.last(),
        ),
{
    if text.len() > 0 {
        crate::text::lemma_pieces_some(text.drop_last(), Mark::Gap);
    }
}

/// The words of a start of a clean line, joined, are that start without a
/// space at its end.
pub proof fn lemma_half_tidy_words(text: Seq<char>)
    requires
        half_tidy(text),
    ensures
        join(words(text), " "@) == if text.len() > 0 && text.last() == ' ' {
            text.drop_last()
        } else {
            text
        },
        text.len() > 0 ==> words(text).len() > 0,
    decreases text.len(),
{
    reveal_strlit(" ");
    assert(" "@ =~= seq![' ']);
    if text.len() == 0 {
        reveal(Seq::filter);
        assert(pieces(text, Mark::Gap) =~= seq![Seq::<char>::empty()]);
        assert(pieces(text, Mark::Gap).drop_last() =~= Seq::<Seq<char>>::empty());
        assert(pieces(text, Mark::Gap).drop_last().filter(is_filled()) =~= Seq::<
            Seq<char>,
        >::empty());
        assert(words(text) =~= Seq::<Seq<char>>::empty());
        assert(join(words(text), " "@) =~= text);
    } else {
        let front = text.drop_last();
        let c = text.last();
        assert(text =~= front.push(c));
        assert(half_tidy(front)) by {
            assert forall|i: int| 0 <= i < front.len() implies !Mark::Gap.hits(#[trigger] front[i]) || front[i] == ' ' by {
                assert(front[i] == text[i]);
            }
            assert forall|i: int| 0 < i < front.len() && #[trigger] front[i]
                == ' ' implies front[i - 1] != ' ' by {
                assert(text[i] == ' ');
            }
        }
        lemma_half_tidy_words(front);
        lemma_words_push(front, c);
        lemma_last_piece(front);
        assert(Mark::Gap.hits(' '));
        assert(text[text.len() - 1] == c);
        if c == ' ' {
            assert(front.len() > 0);
            assert(text[text.len() - 2] != ' ');
            assert(front.last() != ' ');
        } else if front.len() == 0 {
            assert(words(front).len() == 0) by {
                reveal(Seq::filter);
                assert(pieces(front, Mark::Gap).drop_last() =~= Seq::<Seq<char>>::empty());
                assert(pieces(front, Mark::Gap).drop_last().filter(is_filled()) =~= Seq::<
                    Seq<char>,
                >::empty());
            }
            lemma_join_push(words(front), seq![c], " "@);
            assert(text =~= seq![c]);
        } else if front.last() == ' ' {
            lemma_join_push(words(front), seq![c], " "@);
            assert(front.drop_last() + " "@ + seq![c] =~= text);
        } else {
            assert(front[front.len() - 1] == front.last());
            lemma_join_extend(words(front), c, " "@);
        }
    }
}

/// What a clean line is cut to is a start of a clean line.
proof fn lemma_half_tidy_prefix(text: Seq<char>, maximum: nat)
    requires
        half_tidy(text),
    ensures
        half_tidy(prefix(text, maximum)),
{
    let cut = prefix(text, maximum);
    assert forall|i: int| 0 <= i < cut.len() implies !Mark::Gap.hits(#[trigger] cut[i]) || cut[i] == ' ' by {
        assert(cut[i] == text[i]);
    }
    assert forall|i: int| 0 < i < cut.len() && #[trigger] cut[i] == ' ' implies cut[i - 1]
        != ' ' by {
        assert(text[i] == ' ');
    }
}

/// The words of a text, joined, are a clean line.
pub proof fn lemma_joined_words_tidy(text: Seq<char>)
    ensures
        tidy(join(words(text), " "@)),
        words(text).len() > 0 <==> join(words(text), " "@).len() > 0,
        pieces(text, Mark::Gap).last().len() > 0 ==> words(text).len() > 0,
    decreases text.len(),
{
    reveal_strlit(" ");
    assert(" "@ =~= seq![' ']);
    if text.len() == 0 {
        lemma_half_tidy_words(text);
        assert(words(text).len() == 0) by {
            reveal(Seq::filter);
            assert(pieces(text, Mark::Gap).drop_last() =~= Seq::<Seq<char>>::empty());
            assert(pieces(text, Mark::Gap).drop_last().filter(is_filled()) =~= Seq::<
                Seq<char>,
            >::empty());
        }
    } else {
        let front = text.drop_last();
        let c = text.last();
        assert(text =~= front.push(c));
        lemma_joined_words_tidy(front);
        lemma_words_push(front, c);
        lemma_last_piece(text);
        let line = join(words(front), " "@);
        let now = join(words(text), " "@);
        if Mark::Gap.hits(c) {
        } else if pieces(front, Mark::Gap).last().len() == 0 {
            lemma_join_push(words(front), seq![c], " "@);
            if words(front).len() == 0 {
                assert(now =~= seq![c]);
            } else {
                assert(now =~= line.push(' ').push(c));
                assert forall|i: int| 0 < i < now.len() && #[trigger] now[i] == ' ' implies now[i
                    - 1] != ' ' by {
                    if i < line.len() {
                        assert(line[i] == ' ');
                    } else {
                        assert(now[i - 1] == line.last());
                    }
                }
                assert forall|i: int| 0 <= i < now.len() implies !Mark::Gap.hits(#[trigger] now[i]) || now[i] == ' ' by {
                    if i < line.len() {
                        assert(now[i] == line[i]);
                    }
                }
            }
        } else {
            lemma_join_extend(words(front), c, " "@);
            assert(now =~= line.push(c));
            assert forall|i: int| 0 < i < now.len() && #[trigger] now[i] == ' ' implies now[i - 1]
                != ' ' by {
                assert(line[i] == ' ');
            }
            assert forall|i: int| 0 <= i < now.len() implies !Mark::Gap.hits(#[trigger] now[i]) || now[i] == ' ' by {
                if i < line.len() {
                    assert(now[i] == line[i]);
                }
            }
        }
    }
}

/// Cleaning leaves a clean line within its limit as it is.
pub proof fn law_tidy_lines_stay(line: Seq<char>, maximum: nat)
    requires
        tidy(line),
        line.len() <= maximum,
    ensures
        cleaned(line, maximum) == line,
{
    lemma_half_tidy_words(line);
}

/// A cleaned text is one line within its limit: it has no white space but
/// single spaces, does not start with one, and ends with one only where it was
/// cut off.
pub proof fn law_cleaning_gives_one_line(text: Seq<char>, maximum: nat)
    ensures
        cleaned(text, maximum).len() <= maximum,
        half_tidy(cleaned(text, maximum)),
        cleaned(text, maximum).len() < maximum ==> tidy(cleaned(text, maximum)),
{
    lemma_joined_words_tidy(text);
    lemma_half_tidy_prefix(join(words(text), " "@), maximum);
}

/// Cleaning a cleaned text again changes nothing, unless it was cut off behind
/// a space; then that space goes.
pub proof fn law_cleaning_twice(text: Seq<char>, maximum: nat)
    ensures
        cleaned(cleaned(text, maximum), maximum) == if cleaned(text, maximum).len() > 0 && cleaned(
            text,
            maximum,
        ).last() == ' ' {
            cleaned(text, maximum).drop_last()
        } else {
            cleaned(text, maximum)
        },
{
    law_cleaning_gives_one_line(text, maximum);
    lemma_half_tidy_words(cleaned(text, maximum));
}

/// Keys and numbers are clean lines.
pub proof fn lemma_plain_is_tidy(text: Seq<char>)
    requires
        forall|i: int| 0 <= i < text.len() ==> is_alphanumeric(#[trigger] text[i]),
    ensures
        tidy(text),
{
    assert forall|i: int| 0 <= i < text.len() implies !Mark::Gap.hits(#[trigger] text[i])
        && text[i] != ' ' by {
        assert(is_alphanumeric(text[i]));
    }
    if text.len() > 0 {
        assert(text[0] != ' ');
        assert(text[text.len() - 1] != ' ');
    }
}

/// A text does not end with a space.
pub open spec fn ends_well(text: Seq<char>) -> bool {
    text.len() > 0 ==> text.last() != ' '
}

proof fn lemma_cleaned_settles(text: Seq<char>, maximum: nat)
    requires
        ends_well(cleaned(text, maximum)),
    ensures
        cleaned(cleaned(text, maximum), maximum) == cleaned(text, maximum),
{
    law_cleaning_twice(text, maximum);
}

/// Storing does not change a paper that came from the API, as long as none of
/// its texts was cut off behind a space.
pub proof fn law_papers_from_the_api_settle(item: &Value)
    ensures
        paper_in(item) matches Some(paper) ==> {
            &&& ends_well(paper.title)
            &&& ends_well(paper.creators)
            &&& ends_well(paper.date_added)
            &&& forall|i: int| 0 <= i < paper.tags.len() ==> ends_well(#[trigger] paper.tags[i])
        } ==> settled_paper(paper),
{
    if let Some(paper) = paper_in(item) {
        if ends_well(paper.title) && ends_well(paper.creators) && ends_well(paper.date_added) && (
        forall|i: int| 0 <= i < paper.tags.len() ==> ends_well(#[trigger] paper.tags[i])) {
            law_papers_are_bounded(item);
            lemma_plain_is_tidy(paper.key);
            law_tidy_lines_stay(paper.key, 32);
            let data = item.field("data"@).unwrap();
            lemma_text_in_settles(data.field("title"@), 512);
            lemma_text_in_settles(data.field("dateAdded"@), 64);
            lemma_cleaned_settles(credited(creators_in(data, MAX_AUTHORS as nat)), 160);
            crate::zotero::lemma_year_short(text_in(data.field("date"@), 128));
            assert forall|i: int| 0 <= i < paper.year.len() implies is_alphanumeric(
                #[trigger] paper.year[i],
            ) by {
                assert(is_digit(paper.year[i]));
            }
            lemma_plain_is_tidy(paper.year);
            law_tidy_lines_stay(paper.year, 16);
            let rows = crate::json::items_in(data.field("tags"@));
            assert forall|i: int| 0 <= i < paper.tags.len() implies (#[trigger] paper.tags[i]).len()
                > 0 && cleaned(paper.tags[i], 48) == paper.tags[i] by {
                let tag = paper.tags[i];
                assert(rows.filter_map(tag_row())[i] == tag);
                assert(rows.filter_map(tag_row()).contains(tag));
                rows.lemma_filter_map_contains(tag_row(), tag);
                let row = choose|row: Value| #[trigger] rows.contains(row) && tag_row()(row)
                    == Some(tag);
                let text = crate::json::raw_text(row.field("tag"@)).unwrap();
                assert(tag == cleaned(text, 48));
                assert(ends_well(tag));
                lemma_cleaned_settles(text, 48);
            }
        }
    }
}

proof fn lemma_text_in_settles(value: Option<&Value>, maximum: nat)
    requires
        ends_well(text_in(value, maximum)),
    ensures
        cleaned(text_in(value, maximum), maximum) == text_in(value, maximum),
{
    match value {
        Some(Value::Text(text)) => {
            lemma_cleaned_settles(text@, maximum);
        },
        _ => {
            law_tidy_lines_stay(Seq::<char>::empty(), maximum);
        },
    }
}

} // verus!

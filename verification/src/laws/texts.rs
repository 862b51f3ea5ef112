//! Texts, numbers and names, character by character.
use vstd::prelude::*;
use vstd::utf8::*;

use crate::keys::{
    document_name, is_figure, is_host_char, is_origin, is_user_id, memory_name, small,
    snapshot_name,
};
use crate::model::{CollectionView, DetailView, PaperView};
use crate::number::{all_digits, decimal, law_decimal_reads_back, parsed, value_of};
use crate::records::{
    head, kept_in, kept_row, law_library_reads_back, lemma_head, library_in, library_text, parted,
    reread, rereading, selection_in, state_in, KeptView,
};
use crate::bytes::law_utf8_round_trip;
use crate::laws::lists::{is_run_of, law_trimming_takes_white_space_off};
use crate::cache::lemma_filter_map_agrees;
use crate::laws::papers::{at_most_first, key_like, law_keys_are_letters_and_digits, those_there};
use crate::text::{
    chomped, chomping, cleaned, compacted, flattened, is_blank, is_digit, is_filled, join,
    lemma_pieces_some, lines_of, pieces, prefix, trimmed, words, Mark,
};
use crate::tidy::{lemma_half_tidy_words, lemma_joined_words_tidy, lemma_words_push, tidy};
use crate::stored::user_in;
use crate::wording::{labelled, shown_count};
use crate::work::Credential;

verus! {

/// Whether a character is neither white space nor NUL.
pub open spec fn is_ink() -> spec_fn(char) -> bool {
    |c: char| !is_blank(c) && c != '\0'
}

/// What a text says: its characters without white space and NUL.
pub open spec fn ink(text: Seq<char>) -> Seq<char> {
    text.filter(is_ink())
}

proof fn lemma_ink_push(text: Seq<char>, c: char)
    ensures
        ink(text.push(c)) == if is_ink()(c) {
            ink(text).push(c)
        } else {
            ink(text)
        },
{
    reveal(Seq::filter);
    assert(text.push(c).drop_last() =~= text);
}

proof fn lemma_ink_adds(front: Seq<char>, rest: Seq<char>)
    ensures
        ink(front + rest) == ink(front) + ink(rest),
{
    Seq::filter_distributes_over_add(front, rest, is_ink());
}

proof fn lemma_ink_space()
    ensures
        ink(" "@) == Seq::<char>::empty(),
{
    reveal_strlit(" ");
    reveal(Seq::filter);
    assert(" "@ =~= Seq::<char>::empty().push(' '));
    lemma_ink_push(Seq::empty(), ' ');
}

/// Words with spaces between them say what the words say.
proof fn lemma_ink_join_push(all: Seq<Seq<char>>, word: Seq<char>)
    ensures
        ink(join(all.push(word), " "@)) == ink(join(all, " "@)) + ink(word),
{
    lemma_ink_space();
    assert(all.push(word).drop_last() =~= all);
    if all.len() == 0 {
        reveal(Seq::filter);
        assert(join(all.push(word), " "@) == word);
        assert(ink(join(all, " "@)) =~= Seq::<char>::empty());
        assert(Seq::<char>::empty() + ink(word) =~= ink(word));
    } else {
        lemma_ink_adds(join(all, " "@), " "@);
        lemma_ink_adds(join(all, " "@) + " "@, word);
        assert(ink(join(all, " "@)) + Seq::<char>::empty() =~= ink(join(all, " "@)));
    }
}

proof fn lemma_no_words(text: Seq<char>)
    requires
        text.len() == 0,
    ensures
        words(text) == Seq::<Seq<char>>::empty(),
        pieces(text, Mark::Gap).last().len() == 0,
{
    lemma_half_tidy_words(text);
    lemma_joined_words_tidy(text);
    assert(words(text) =~= Seq::<Seq<char>>::empty());
}

proof fn lemma_ink_words(text: Seq<char>)
    ensures
        ink(join(words(text), " "@)) == ink(text),
    decreases text.len(),
{
    if text.len() == 0 {
        lemma_no_words(text);
        assert(join(words(text), " "@) =~= text);
    } else {
        let front = text.drop_last();
        let c = text.last();
        lemma_ink_words(front);
        lemma_words_push(front, c);
        lemma_ink_push(front, c);
        assert(front.push(c) =~= text);
        if !Mark::Gap.hits(c) {
            if pieces(front, Mark::Gap).last().len() == 0 {
                lemma_ink_join_push(words(front), seq![c]);
                reveal(Seq::filter);
                assert(seq![c] =~= Seq::<char>::empty().push(c));
                lemma_ink_push(Seq::empty(), c);
                assert(ink(join(words(front), " "@)) + seq![c] =~= ink(front).push(c));
            } else {
                let before = words(front).drop_last();
                let last = words(front).last();
                assert(words(front) =~= before.push(last));
                lemma_ink_join_push(before, last);
                lemma_ink_join_push(before, last.push(c));
                lemma_ink_push(last, c);
                assert(ink(join(before, " "@)) + ink(last).push(c) =~= (ink(join(before, " "@))
                    + ink(last)).push(c));
            }
        }
    }
}

/// Cleaning loses nothing but white space: a line that is shorter than its
/// limit says all that the text says. A longer limit only adds to its end.
pub proof fn law_cleaning_loses_nothing(text: Seq<char>, maximum: nat, more: nat)
    requires
        maximum <= more,
    ensures
        cleaned(text, maximum).len() < maximum ==> ink(cleaned(text, maximum)) == ink(text),
        cleaned(text, maximum).is_prefix_of(cleaned(text, more)),
        cleaned(text, maximum).len() == maximum || cleaned(text, maximum) == cleaned(text, more),
        cleaned(text, maximum).len() <= maximum,
{
    lemma_ink_words(text);
    let line = join(words(text), " "@);
    assert(cleaned(text, maximum) =~= cleaned(text, more).take(
        cleaned(text, maximum).len() as int,
    ));
}

proof fn lemma_words_behind_gap(front: Seq<char>, rest: Seq<char>)
    requires
        front.len() > 0,
        Mark::Gap.hits(front.last()),
    ensures
        words(front + rest) == words(front) + words(rest),
        pieces(front + rest, Mark::Gap).last() == pieces(rest, Mark::Gap).last(),
    decreases rest.len(),
{
    lemma_pieces_some(front, Mark::Gap);
    if rest.len() == 0 {
        assert(front + rest =~= front);
        lemma_no_words(rest);
        assert(words(front) + words(rest) =~= words(front));
    } else {
        let before = rest.drop_last();
        let c = rest.last();
        lemma_words_behind_gap(front, before);
        lemma_words_push(before, c);
        lemma_words_push(front + before, c);
        lemma_pieces_some(before, Mark::Gap);
        lemma_pieces_some(front + before, Mark::Gap);
        assert(before.push(c) =~= rest);
        assert((front + before).push(c) =~= front + rest);
        assert((front + rest).drop_last() =~= front + before);
        if !Mark::Gap.hits(c) && pieces(before, Mark::Gap).last().len() > 0 {
            assert((words(front) + words(before)).drop_last() =~= words(front) + words(
                before,
            ).drop_last());
            assert(words(front + rest) =~= words(front) + words(rest));
        } else if !Mark::Gap.hits(c) {
            assert(words(front + rest) =~= words(front) + words(rest));
        }
    }
}

proof fn lemma_words_gap(front: Seq<char>, gap: Seq<char>)
    requires
        forall|i: int| 0 <= i < gap.len() ==> Mark::Gap.hits(#[trigger] gap[i]),
    ensures
        words(front + gap) == words(front),
    decreases gap.len(),
{
    if gap.len() == 0 {
        assert(front + gap =~= front);
    } else {
        let before = gap.drop_last();
        assert forall|i: int| 0 <= i < before.len() implies Mark::Gap.hits(#[trigger] before[i]) by {
            assert(before[i] == gap[i]);
        }
        lemma_words_gap(front, before);
        assert(Mark::Gap.hits(gap[gap.len() - 1]));
        lemma_words_push(front + before, gap.last());
        assert((front + before).push(gap.last()) =~= front + gap);
    }
}

proof fn lemma_join_adds(left: Seq<Seq<char>>, right: Seq<Seq<char>>)
    requires
        left.len() > 0,
        right.len() > 0,
    ensures
        join(left + right, " "@) == join(left, " "@) + " "@ + join(right, " "@),
    decreases right.len(),
{
    assert((left + right).drop_last() =~= left + right.drop_last());
    if right.len() == 1 {
        assert(left + right.drop_last() =~= left);
    } else {
        lemma_join_adds(left, right.drop_last());
        assert(join(left + right, " "@) =~= join(left, " "@) + " "@ + join(right, " "@));
    }
}

/// White space and NUL between two clean lines, however much, become one space.
pub proof fn law_gaps_become_single_spaces(left: Seq<char>, gap: Seq<char>, right: Seq<char>, maximum: nat)
    requires
        tidy(left),
        tidy(right),
        left.len() > 0,
        right.len() > 0,
        gap.len() > 0,
        forall|i: int|
            0 <= i < gap.len() ==> is_blank(#[trigger] gap[i]) || gap[i] == '\0',
        left.len() + 1 + right.len() <= maximum,
    ensures
        cleaned(left + gap + right, maximum) == left + seq![' '] + right,
        cleaned(gap + left + gap, maximum) == left,
{
    lemma_half_tidy_words(left);
    lemma_half_tidy_words(right);
    let none = Seq::<char>::empty();
    lemma_words_gap(left, gap);
    lemma_words_behind_gap(left + gap, right);
    lemma_words_behind_gap(gap, left);
    lemma_words_gap(none, gap);
    lemma_words_gap(gap + left, gap);
    assert(none + gap =~= gap);
    reveal_strlit(" ");
    assert(" "@ =~= seq![' ']);
    assert(join(words(left), " "@) == left);
    assert(join(words(right), " "@) == right);
    lemma_join_adds(words(left), words(right));
    lemma_no_words(none);
    assert(words(none) + words(left) =~= words(left));
}

/// White space before or behind a clean line goes.
pub proof fn law_spaces_at_the_ends_go(line: Seq<char>, gap: Seq<char>, maximum: nat)
    requires
        tidy(line),
        line.len() <= maximum,
        forall|i: int|
            0 <= i < gap.len() ==> is_blank(#[trigger] gap[i]) || gap[i] == '\0',
    ensures
        cleaned(gap + line, maximum) == line,
        cleaned(line + gap, maximum) == line,
{
    let none = Seq::<char>::empty();
    lemma_half_tidy_words(line);
    lemma_words_gap(line, gap);
    if gap.len() == 0 {
        assert(gap + line =~= line);
        assert(line + gap =~= line);
    } else {
        lemma_words_behind_gap(gap, line);
        lemma_words_gap(none, gap);
        assert(none + gap =~= gap);
        lemma_no_words(none);
        assert(words(none) + words(line) =~= words(line));
    }
}

/// A text of white space alone says nothing.
pub proof fn law_blank_texts_are_empty(text: Seq<char>, maximum: nat)
    requires
        forall|i: int|
            0 <= i < text.len() ==> is_blank(#[trigger] text[i]) || text[i] == '\0',
    ensures
        cleaned(text, maximum).len() == 0,
{
    let none = Seq::<char>::empty();
    lemma_words_gap(none, text);
    assert(none + text =~= text);
    lemma_no_words(none);
}

/// A text for a record keeps its characters and its length, up to the limit;
/// only tabs and line ends become spaces.
pub proof fn law_compacting_goes_by_character(text: Seq<char>, maximum: nat, i: int)
    ensures
        compacted(text, maximum).len() == if text.len() <= maximum {
            text.len()
        } else {
            maximum
        },
        0 <= i < compacted(text, maximum).len() ==> compacted(text, maximum)[i] == if text[i]
            == '\t' || text[i] == '\r' || text[i] == '\n' {
            ' '
        } else {
            text[i]
        },
{
}

/// Whether a text can stand in a record as it is.
pub open spec fn fits_record(text: Seq<char>, maximum: nat) -> bool {
    &&& text.len() <= maximum
    &&& forall|i: int|
        0 <= i < text.len() ==> #[trigger] text[i] != '\t' && text[i] != '\r' && text[i] != '\n'
}

proof fn lemma_fits_record(text: Seq<char>, maximum: nat)
    requires
        fits_record(text, maximum),
    ensures
        compacted(text, maximum) == text,
{
    assert(flattened(text) =~= text);
}

/// Papers that are kept are read again as they were written: keys, titles of up
/// to 160 characters, creators of up to 256 and sizes; up to 96 papers, in
/// order.
pub proof fn law_kept_papers_are_read_again(library: Seq<KeptView>)
    requires
        library.len() <= 96,
        forall|i: int|
            0 <= i < library.len() ==> key_like((#[trigger] library[i]).key) && fits_record(
                library[i].title,
                160,
            ) && fits_record(library[i].creators, 256),
    ensures
        library_in(encode_utf8(library_text(library))) == library,
{
    assert forall|i: int| 0 <= i < library.len() implies crate::keys::is_key(
        (#[trigger] library[i]).key,
    ) by {
        law_keys_are_letters_and_digits(library[i].key);
    }
    law_library_reads_back(library);
    assert forall|i: int| 0 <= i < library.len() implies #[trigger] reread(library[i])
        == library[i] by {
        let kept = library[i];
        lemma_fits_record(kept.title, 160);
        lemma_fits_record(kept.creators, 256);
    }
    assert(library.map_values(rereading()) =~= library);
}

/// Decimal numbers: the last digit counts ones, the digits before it tens; no
/// zero leads.
pub proof fn law_decimals_count_in_tens(n: nat, digit: nat)
    requires
        digit < 10,
    ensures
        n > 0 ==> decimal(n * 10 + digit) == decimal(n).push((('0' as u32) + digit) as char),
        decimal(digit) == seq![(('0' as u32) + digit) as char],
{
    assert((n * 10 + digit) / 10 == n && (n * 10 + digit) % 10 == digit);
}

/// Reading a number: each digit more makes ten times the number before, plus
/// the digit.
pub proof fn law_digits_are_read_in_tens(digits: Seq<char>, c: char)
    requires
        all_digits(digits),
        '0' <= c <= '9',
        value_of(digits) * 10 + (c as u32 - '0' as u32) <= u32::MAX,
    ensures
        parsed(digits.push(c)) == Some(
            (value_of(digits) * 10 + (c as u32 - '0' as u32)) as u32,
        ),
        digits.len() > 0 ==> parsed(digits) == Some(value_of(digits) as u32),
        parsed(Seq::<char>::empty()) is None,
{
    let longer = digits.push(c);
    assert(longer.drop_last() =~= digits);
    assert forall|i: int| 0 <= i < longer.len() implies is_digit(#[trigger] longer[i]) by {
        if i < digits.len() {
            assert(longer[i] == digits[i]);
        }
    }
    assert(is_digit(longer[0]));
    if digits.len() > 0 {
        assert(is_digit(digits[0]));
    }
}

/// A user is one to twenty digits.
pub proof fn law_users_are_numbers(user: Seq<char>)
    ensures
        is_user_id(user) <==> {
            &&& 1 <= user.len() <= 20
            &&& forall|i: int| 0 <= i < user.len() ==> '0' <= #[trigger] user[i] <= '9'
        },
{
    if is_user_id(user) {
        assert forall|i: int| 0 <= i < user.len() implies '0' <= #[trigger] user[i] <= '9' by {
            assert(is_digit(user[i]));
        }
    }
}

/// A picture is called `figure-` with three digits, and is a PNG or a JPEG.
pub proof fn law_figures_are_numbered(name: Seq<char>)
    ensures
        is_figure(name) <==> exists|a: char, b: char, c: char|
            {
                &&& '0' <= a <= '9'
                &&& '0' <= b <= '9'
                &&& '0' <= c <= '9'
                &&& (name == "figure-"@ + #[trigger] seq![a, b, c] + ".png"@ || name == "figure-"@
                    + seq![a, b, c] + ".jpg"@)
            },
{
    reveal_strlit("figure-");
    reveal_strlit(".png");
    reveal_strlit(".jpg");
    if is_figure(name) {
        let three = name.subrange(7, 10);
        assert(is_digit(three[0]) && is_digit(three[1]) && is_digit(three[2]));
        let given = seq![three[0], three[1], three[2]];
        assert(three =~= given);
        assert(name =~= name.take(7) + three + name.skip(10));
    }
    assert forall|a: char, b: char, c: char|
        '0' <= a <= '9' && '0' <= b <= '9' && '0' <= c <= '9' && (name == "figure-"@
            + #[trigger] seq![a, b, c] + ".png"@ || name == "figure-"@ + seq![a, b, c]
            + ".jpg"@) implies is_figure(name) by {
        let three = seq![a, b, c];
        assert(name.take(7) =~= "figure-"@);
        assert(name.subrange(7, 10) =~= three);
        assert(name.skip(10) =~= ".png"@ || name.skip(10) =~= ".jpg"@);
    }
}

/// A bridge is given by `https://` and a host of letters, digits, full stops
/// and hyphens, and nothing else.
pub proof fn law_origins_are_bare_hosts(origin: Seq<char>)
    ensures
        is_origin(origin) <==> exists|host: Seq<char>|
            {
                &&& origin == #[trigger] ("https://"@ + host)
                &&& host.len() > 0
                &&& forall|i: int|
                    0 <= i < host.len() ==> ('0' <= #[trigger] host[i] <= '9' || 'a' <= host[i]
                        <= 'z' || 'A' <= host[i] <= 'Z' || host[i] == '.' || host[i] == '-')
            },
{
    reveal_strlit("https://");
    if is_origin(origin) {
        let host = origin.skip(8);
        assert(origin =~= "https://"@ + host);
        assert forall|i: int| 0 <= i < host.len() implies ('0' <= #[trigger] host[i] <= '9' || 'a'
            <= host[i] <= 'z' || 'A' <= host[i] <= 'Z' || host[i] == '.' || host[i] == '-') by {
            assert(is_host_char(origin[i + 8]));
        }
    }
    assert forall|host: Seq<char>|
        origin == #[trigger] ("https://"@ + host) && host.len() > 0 && (forall|i: int|
            0 <= i < host.len() ==> ('0' <= #[trigger] host[i] <= '9' || 'a' <= host[i] <= 'z'
                || 'A' <= host[i] <= 'Z' || host[i] == '.' || host[i] == '-')) implies is_origin(
        origin,
    ) by {
        assert("https://"@ =~= origin.take(8));
        assert forall|i: int| 8 <= i < origin.len() implies is_host_char(#[trigger] origin[i]) by {
            assert(origin[i] == host[i - 8]);
        }
    }
}

/// What is stored is called by its kind and by the key in small letters.
pub proof fn law_stored_names_tell_kind_and_key(key: Seq<char>, i: int)
    ensures
        document_name(key).take(9) == "document."@ && document_name(key).len() == 9 + key.len(),
        snapshot_name(key).take(9) == "snapshot."@ && snapshot_name(key).len() == 9 + key.len(),
        memory_name(key).take(7) == "memory."@ && memory_name(key).len() == 7 + key.len(),
        0 <= i < key.len() ==> {
            let c = if 'A' <= key[i] <= 'Z' {
                (key[i] as u32 + 32) as char
            } else {
                key[i]
            };
            &&& document_name(key)[9 + i] == c
            &&& snapshot_name(key)[9 + i] == c
            &&& memory_name(key)[7 + i] == c
        },
{
    reveal_strlit("document.");
    reveal_strlit("snapshot.");
    reveal_strlit("memory.");
    assert(document_name(key).take(9) =~= "document."@);
    assert(snapshot_name(key).take(9) =~= "snapshot."@);
    assert(memory_name(key).take(7) =~= "memory."@);
}

/// A paper is summed up by its creators and its year, with a dot between them
/// where both are known.
pub proof fn law_summaries_name_creators_and_year(paper: PaperView)
    ensures
        paper.creators.len() > 0 && paper.year.len() > 0 ==> paper.summed_up() == paper.creators
            + " · "@ + paper.year,
        paper.creators.len() > 0 && paper.year.len() == 0 ==> paper.summed_up() == paper.creators,
        paper.creators.len() == 0 && paper.year.len() > 0 ==> paper.summed_up() == paper.year,
        paper.creators.len() == 0 && paper.year.len() == 0 ==> paper.summed_up().len() == 0,
{
    let none = Seq::<Seq<char>>::empty();
    let one = none.push(paper.creators);
    let both = one.push(paper.year);
    let f = is_filled();
    assert(both =~= seq![paper.creators, paper.year]);
    assert(none.filter(f) =~= none) by {
        reveal(Seq::filter);
    }
    none.lemma_filter_push(paper.creators, f);
    one.lemma_filter_push(paper.year, f);
    let kept = both.filter(f);
    if paper.creators.len() > 0 && paper.year.len() > 0 {
        assert(kept =~= both);
        assert(kept.drop_last() =~= one);
        reveal_with_fuel(join, 3);
    } else if paper.year.len() > 0 {
        assert(kept =~= none.push(paper.year));
    }
}

/// The details say each thing that is known once, in this order: the authors,
/// then venue, year and DOI on a line, then the source, then the abstract.
pub proof fn law_details_say_what_is_known(detail: DetailView)
    ensures
        detail.authors.len() > 0 && detail.venue.len() > 0 && detail.paper.year.len() > 0
            && detail.doi.len() > 0 && detail.url.len() > 0 && detail.abstract_text.len() > 0
            ==> detail.written() == join(detail.authors, ", "@) + "\n"@ + (detail.venue + " · "@
            + detail.paper.year + " · "@ + ("DOI "@ + detail.doi) + "\n"@) + ("Source "@
            + detail.url + "\n"@) + ("\n"@ + detail.abstract_text + "\n"@),
        detail.authors.len() == 0 && detail.venue.len() == 0 && detail.paper.year.len() == 0
            && detail.doi.len() == 0 && detail.url.len() == 0 ==> detail.written() == if
            detail.abstract_text.len() > 0 {
            "\n"@ + detail.abstract_text + "\n"@
        } else {
            "No abstract is stored for this item."@
        },
        detail.authors.len() == 0 && detail.venue.len() == 0 && detail.paper.year.len() == 0
            && detail.doi.len() == 0 && detail.url.len() > 0 && detail.abstract_text.len() > 0
            ==> detail.written() == "Source "@ + detail.url + "\n"@ + ("\n"@ + detail.abstract_text
            + "\n"@),
        detail.authors.len() == 0 && detail.venue.len() == 0 && detail.paper.year.len() == 0
            && detail.doi.len() > 0 && detail.url.len() == 0 && detail.abstract_text.len() > 0
            ==> detail.written() == "DOI "@ + detail.doi + "\n"@ + ("\n"@ + detail.abstract_text
            + "\n"@),
{
    reveal_strlit("DOI ");
    let doi = labelled("DOI "@, detail.doi, Seq::empty());
    let none = Seq::<Seq<char>>::empty();
    let one = none.push(detail.venue);
    let two = one.push(detail.paper.year);
    let three = two.push(doi);
    let f = is_filled();
    assert(three =~= seq![detail.venue, detail.paper.year, doi]);
    assert(none.filter(f) =~= none) by {
        reveal(Seq::filter);
    }
    none.lemma_filter_push(detail.venue, f);
    one.lemma_filter_push(detail.paper.year, f);
    two.lemma_filter_push(doi, f);
    assert("DOI "@ + detail.doi + Seq::<char>::empty() =~= "DOI "@ + detail.doi);
    let facts = detail.facts();
    if detail.venue.len() > 0 && detail.paper.year.len() > 0 && detail.doi.len() > 0 {
        assert(facts =~= three);
        assert(three.drop_last() =~= two);
        assert(two.drop_last() =~= one);
        reveal_with_fuel(join, 3);
        assert(join(facts, " · "@) == detail.venue + " · "@ + detail.paper.year + " · "@ + doi);
    }
    if detail.venue.len() == 0 && detail.paper.year.len() == 0 && detail.doi.len() > 0 {
        assert(facts =~= seq![doi]);
    }
    if detail.authors.len() > 0 && detail.venue.len() > 0 && detail.paper.year.len() > 0
        && detail.doi.len() > 0 && detail.url.len() > 0 && detail.abstract_text.len() > 0 {
        assert(detail.written() =~= join(detail.authors, ", "@) + "\n"@ + (detail.venue + " · "@
            + detail.paper.year + " · "@ + ("DOI "@ + detail.doi) + "\n"@) + ("Source "@
            + detail.url + "\n"@) + ("\n"@ + detail.abstract_text + "\n"@));
    } else if detail.authors.len() == 0 && detail.venue.len() == 0 && detail.paper.year.len() == 0 {
        if detail.doi.len() == 0 && detail.url.len() == 0 {
            assert(facts =~= none);
            assert(detail.written() =~= if detail.abstract_text.len() > 0 {
                "\n"@ + detail.abstract_text + "\n"@
            } else {
                "No abstract is stored for this item."@
            });
        } else if detail.doi.len() == 0 && detail.abstract_text.len() > 0 {
            assert(facts =~= none);
            assert(detail.written() =~= "Source "@ + detail.url + "\n"@ + ("\n"@
                + detail.abstract_text + "\n"@));
        } else if detail.url.len() == 0 && detail.abstract_text.len() > 0 {
            assert(detail.written() =~= "DOI "@ + detail.doi + "\n"@ + ("\n"@
                + detail.abstract_text + "\n"@));
        }
    }
}

/// Joining keeps every part in order, with what stands between each two of
/// them and nothing else.
pub proof fn law_joining_keeps_every_part(parts: Seq<Seq<char>>, last: Seq<char>, between: Seq<char>)
    ensures
        join(Seq::empty(), between) == Seq::<char>::empty(),
        parts.len() == 0 ==> join(parts.push(last), between) == last,
        parts.len() > 0 ==> join(parts.push(last), between) == join(parts, between) + between + last,
{
    assert(parts.push(last).drop_last() =~= parts);
}

/// Pages are counted from one, as far as 16 bits go.
pub proof fn law_pages_are_counted_from_one(index: nat)
    ensures
        index + 1 <= 65535 ==> shown_count(index + 1) == index + 1,
        index + 1 > 65535 ==> shown_count(index + 1) == 65535,
{
}

/// A line ends at its line feed, with a carriage return before it or without;
/// what follows is further lines. What has no line feed is one line, and
/// nothing is no line.
pub proof fn law_lines_end_at_line_feeds(line: Seq<char>, rest: Seq<char>)
    requires
        !line.contains('\n'),
        line.len() > 0 ==> line[line.len() - 1] != '\r',
    ensures
        lines_of(line + seq!['\n'] + rest) == seq![line] + lines_of(rest),
        lines_of(line + seq!['\r', '\n'] + rest) == seq![line] + lines_of(rest),
        line.len() > 0 ==> lines_of(line) == seq![line],
        lines_of(Seq::empty()) == Seq::<Seq<char>>::empty(),
{
    let mark = Mark::At('\n');
    let returned = line.push('\r');
    assert(!returned.contains('\n')) by {
        assert forall|i: int| 0 <= i < returned.len() implies #[trigger] returned[i] != '\n' by {
            if i < line.len() {
                assert(line.contains(line[i]));
            }
        }
    }
    lemma_pieces_some(rest, mark);
    lemma_divided(line, '\n', rest);
    lemma_divided(returned, '\n', rest);
    assert(line + seq!['\r', '\n'] + rest =~= returned + seq!['\n'] + rest);
    let parts = pieces(rest, mark);
    assert(chomped(line) == line);
    assert(returned.drop_last() =~= line);
    assert(chomped(returned) == line);
    let one = seq![line] + parts;
    let two = seq![returned] + parts;
    assert(one.drop_last() =~= seq![line] + parts.drop_last());
    assert(two.drop_last() =~= seq![returned] + parts.drop_last());
    assert(one.last() == parts.last() && two.last() == parts.last());
    assert(one.drop_last().map_values(chomping()) =~= seq![line] + parts.drop_last().map_values(
        chomping(),
    ));
    assert(two.drop_last().map_values(chomping()) =~= seq![line] + parts.drop_last().map_values(
        chomping(),
    ));
    assert(lines_of(line + seq!['\n'] + rest) =~= seq![line] + lines_of(rest));
    assert(lines_of(returned + seq!['\n'] + rest) =~= seq![line] + lines_of(rest));
    lemma_undivided(line, '\n');
    lemma_undivided(Seq::empty(), '\n');
    assert(seq![line].drop_last() =~= Seq::<Seq<char>>::empty());
    if line.len() > 0 {
        assert(lines_of(line) =~= seq![line]);
    }
    assert(seq![Seq::<char>::empty()].drop_last() =~= Seq::<Seq<char>>::empty());
    assert(lines_of(Seq::empty()) =~= Seq::<Seq<char>>::empty());
}

/// A run of a text is a run of a longer text.
proof fn lemma_run_within(part: Seq<char>, before: Seq<char>, text: Seq<char>, after: Seq<char>)
    requires
        is_run_of(part, text),
    ensures
        is_run_of(part, before + text + after),
{
    let at = choose|at: int|
        0 <= at <= text.len() - part.len() && part == #[trigger] text.subrange(
            at,
            at + part.len(),
        );
    let longer = before + text + after;
    let there = before.len() + at;
    assert(longer.subrange(there, there + part.len()) =~= text.subrange(at, at + part.len()));
    assert(part == longer.subrange(there, there + part.len()));
}

proof fn lemma_run_of_itself(text: Seq<char>)
    ensures
        is_run_of(text, text),
{
    assert(text =~= text.subrange(0int, 0int + text.len()));
}

proof fn lemma_run_of_joined(parts: Seq<Seq<char>>, between: Seq<char>, i: int)
    requires
        0 <= i < parts.len(),
    ensures
        is_run_of(parts[i], join(parts, between)),
    decreases parts.len(),
{
    let none = Seq::<char>::empty();
    if parts.len() == 1 {
        lemma_run_of_itself(parts[0]);
    } else {
        let front = parts.drop_last();
        let whole = join(parts, between);
        if i < front.len() {
            lemma_run_of_joined(front, between, i);
            lemma_run_within(front[i], none, join(front, between), between + parts.last());
            assert(none + join(front, between) + (between + parts.last()) =~= whole);
        } else {
            lemma_run_of_itself(parts.last());
            lemma_run_within(parts.last(), join(front, between) + between, parts.last(), none);
            assert(join(front, between) + between + parts.last() + none =~= whole);
        }
    }
}

/// A run of one of four texts is a run of the four in a row.
proof fn lemma_run_of_four(
    part: Seq<char>,
    a: Seq<char>,
    b: Seq<char>,
    c: Seq<char>,
    d: Seq<char>,
)
    requires
        is_run_of(part, a) || is_run_of(part, b) || is_run_of(part, c) || is_run_of(part, d),
    ensures
        is_run_of(part, a + b + c + d),
{
    let none = Seq::<char>::empty();
    let all = a + b + c + d;
    if is_run_of(part, a) {
        lemma_run_within(part, none, a, b + c + d);
        assert(none + a + (b + c + d) =~= all);
    } else if is_run_of(part, b) {
        lemma_run_within(part, a, b, c + d);
        assert(a + b + (c + d) =~= all);
    } else if is_run_of(part, c) {
        lemma_run_within(part, a + b, c, d);
    } else {
        lemma_run_within(part, a + b + c, d, none);
        assert(a + b + c + d + none =~= all);
    }
}

/// A text is a run of itself with something behind it.
proof fn lemma_run_with_end(part: Seq<char>, text: Seq<char>, end: Seq<char>)
    requires
        is_run_of(part, text),
    ensures
        is_run_of(part, text + end),
{
    let none = Seq::<char>::empty();
    lemma_run_within(part, none, text, end);
    assert(none + text + end =~= text + end);
}

proof fn lemma_fact_is_there(detail: DetailView, fact: Seq<char>)
    requires
        fact.len() > 0,
        fact == detail.venue || fact == detail.paper.year || fact == "DOI "@ + detail.doi
            && detail.doi.len() > 0,
    ensures
        detail.facts().contains(fact),
{
    reveal_strlit("DOI ");
    let doi = labelled("DOI "@, detail.doi, Seq::empty());
    let all = seq![detail.venue, detail.paper.year, doi];
    if detail.doi.len() > 0 {
        assert(doi =~= "DOI "@ + detail.doi);
    }
    if fact == detail.venue {
        all.lemma_filter_contains(is_filled(), 0);
    } else if fact == detail.paper.year {
        all.lemma_filter_contains(is_filled(), 1);
    } else {
        all.lemma_filter_contains(is_filled(), 2);
    }
}

proof fn lemma_fact_is_run(detail: DetailView, fact: Seq<char>)
    requires
        fact.len() > 0,
        fact == detail.venue || fact == detail.paper.year || fact == "DOI "@ + detail.doi
            && detail.doi.len() > 0,
    ensures
        detail.facts().len() > 0,
        is_run_of(fact, join(detail.facts(), " · "@) + "\n"@),
{
    lemma_fact_is_there(detail, fact);
    let k = choose|k: int| 0 <= k < detail.facts().len() && detail.facts()[k] == fact;
    lemma_run_of_joined(detail.facts(), " · "@, k);
    lemma_run_with_end(fact, join(detail.facts(), " · "@), "\n"@);
}

/// Whatever is known of a paper is written out: every author, the venue, the
/// year, the DOI and the source each with its label, and the abstract.
pub proof fn law_everything_known_is_written_out(detail: DetailView, i: int)
    ensures
        0 <= i < detail.authors.len() ==> is_run_of(detail.authors[i], detail.written()),
        detail.venue.len() > 0 ==> is_run_of(detail.venue, detail.written()),
        detail.paper.year.len() > 0 ==> is_run_of(detail.paper.year, detail.written()),
        detail.doi.len() > 0 ==> is_run_of("DOI "@ + detail.doi, detail.written()),
        detail.url.len() > 0 ==> is_run_of("Source "@ + detail.url, detail.written()),
        detail.abstract_text.len() > 0 ==> is_run_of(detail.abstract_text, detail.written()),
{
    let none = Seq::<char>::empty();
    let authors = if detail.authors.len() == 0 {
        none
    } else {
        join(detail.authors, ", "@) + "\n"@
    };
    let facts = if detail.facts().len() == 0 {
        none
    } else {
        join(detail.facts(), " · "@) + "\n"@
    };
    let source = labelled("Source "@, detail.url, "\n"@);
    let summary = if detail.abstract_text.len() == 0 {
        "No abstract is stored for this item."@
    } else {
        "\n"@ + detail.abstract_text + "\n"@
    };
    assert(detail.written() == authors + facts + source + summary);
    if 0 <= i < detail.authors.len() {
        let part = detail.authors[i];
        lemma_run_of_joined(detail.authors, ", "@, i);
        lemma_run_with_end(part, join(detail.authors, ", "@), "\n"@);
        lemma_run_of_four(part, authors, facts, source, summary);
    }
    if detail.venue.len() > 0 {
        lemma_fact_is_run(detail, detail.venue);
        lemma_run_of_four(detail.venue, authors, facts, source, summary);
    }
    if detail.paper.year.len() > 0 {
        lemma_fact_is_run(detail, detail.paper.year);
        lemma_run_of_four(detail.paper.year, authors, facts, source, summary);
    }
    if detail.doi.len() > 0 {
        let part = "DOI "@ + detail.doi;
        reveal_strlit("DOI ");
        lemma_fact_is_run(detail, part);
        lemma_run_of_four(part, authors, facts, source, summary);
    }
    if detail.url.len() > 0 {
        let part = "Source "@ + detail.url;
        lemma_run_of_itself(part);
        lemma_run_with_end(part, part, "\n"@);
        lemma_run_of_four(part, authors, facts, source, summary);
    }
    if detail.abstract_text.len() > 0 {
        lemma_run_of_itself(detail.abstract_text);
        lemma_run_within(detail.abstract_text, "\n"@, detail.abstract_text, "\n"@);
        lemma_run_of_four(detail.abstract_text, authors, facts, source, summary);
    }
}

/// The credentials are known by these names.
pub proof fn law_credentials_have_names(credential: Credential)
    ensures
        credential.named() == match credential {
            Credential::Zotero => "zotero"@,
            Credential::Bridge => "zotero-bridge"@,
        },
{
}

/// A user's number is known again from what was saved, with white space around
/// it or without; anything else is no user.
pub proof fn law_saved_users_are_known_again(
    before: Seq<char>,
    user: Seq<char>,
    after: Seq<char>,
)
    requires
        is_user_id(user),
        forall|i: int| 0 <= i < before.len() ==> is_blank(#[trigger] before[i]),
        forall|i: int| 0 <= i < after.len() ==> is_blank(#[trigger] after[i]),
    ensures
        user_in(Some(encode_utf8(before + user + after))) == Some(user),
        user_in(None) is None,
{
    assert(is_digit(user[0]));
    assert(is_digit(user[user.len() - 1]));
    law_trimming_takes_white_space_off(before, user, after);
    law_utf8_round_trip(before + user + after);
}

proof fn lemma_undivided(text: Seq<char>, mark: char)
    requires
        !text.contains(mark),
    ensures
        pieces(text, Mark::At(mark)) == seq![text],
    decreases text.len(),
{
    let at = Mark::At(mark);
    if text.len() == 0 {
        assert(text =~= Seq::<char>::empty());
        assert(pieces(text, at) =~= seq![text]);
    } else {
        let front = text.drop_last();
        assert(text.contains(text[text.len() - 1]));
        assert(!front.contains(mark)) by {
            assert(forall|i: int| 0 <= i < front.len() ==> front[i] == #[trigger] text[i]);
        }
        lemma_undivided(front, mark);
        assert(front.push(text.last()) =~= text);
        assert(pieces(text, at) =~= seq![text]);
    }
}

proof fn lemma_divided(front: Seq<char>, mark: char, rest: Seq<char>)
    requires
        !front.contains(mark),
    ensures
        pieces(front + seq![mark] + rest, Mark::At(mark)) == seq![front] + pieces(
            rest,
            Mark::At(mark),
        ),
    decreases rest.len(),
{
    let at = Mark::At(mark);
    let text = front + seq![mark] + rest;
    if rest.len() == 0 {
        lemma_undivided(front, mark);
        assert(text.drop_last() =~= front);
        assert(pieces(text, at) =~= seq![front] + pieces(rest, at));
    } else {
        let before = rest.drop_last();
        lemma_divided(front, mark, before);
        lemma_pieces_some(before, at);
        assert(text.drop_last() =~= front + seq![mark] + before);
        assert(text.last() == rest.last());
        let shorter = seq![front] + pieces(before, at);
        assert(shorter.drop_last() =~= seq![front] + pieces(before, at).drop_last());
        assert(pieces(text, at) =~= seq![front] + pieces(rest, at));
    }
}

proof fn lemma_no_tab(text: Seq<char>, maximum: nat)
    requires
        fits_record(text, maximum),
    ensures
        !text.contains('\t'),
{
}

/// The record of a kept paper: key, size, title and creators, with tabs between
/// them. Without creators, or without the tab before them, there are none; with
/// less than a title, or without a usable key, it is no record.
pub proof fn law_records_of_kept_papers(
    key: Seq<char>,
    bytes: u32,
    title: Seq<char>,
    creators: Seq<char>,
)
    requires
        !key.contains('\t'),
        fits_record(title, 160),
        fits_record(creators, 256),
    ensures
        key_like(key) ==> kept_in(
            key + seq!['\t'] + (decimal(bytes as nat) + seq!['\t'] + (title + seq!['\t'] + creators)),
        ) == Some(KeptView { key, bytes, title, creators }),
        key_like(key) ==> kept_in(
            key + seq!['\t'] + (decimal(bytes as nat) + seq!['\t'] + title),
        ) == Some(KeptView { key, bytes, title, creators: Seq::empty() }),
        kept_in(key + seq!['\t'] + decimal(bytes as nat)) is None,
        kept_in(key) is None,
        !key_like(key) ==> kept_in(
            key + seq!['\t'] + (decimal(bytes as nat) + seq!['\t'] + (title + seq!['\t'] + creators)),
        ) is None,
{
    let number = decimal(bytes as nat);
    law_decimal_reads_back(bytes as nat);
    law_keys_are_letters_and_digits(key);
    assert(!number.contains('\t')) by {
        assert forall|i: int| 0 <= i < number.len() implies #[trigger] number[i] != '\t' by {
            assert(is_digit(number[i]));
        }
    }
    lemma_no_tab(title, 160);
    lemma_no_tab(creators, 256);
    lemma_fits_record(title, 160);
    lemma_fits_record(creators, 256);
    let tail = title + seq!['\t'] + creators;
    lemma_undivided(creators, '\t');
    lemma_divided(title, '\t', creators);
    lemma_divided(number, '\t', tail);
    lemma_divided(key, '\t', number + seq!['\t'] + tail);
    lemma_undivided(title, '\t');
    lemma_divided(number, '\t', title);
    lemma_divided(key, '\t', number + seq!['\t'] + title);
    lemma_undivided(number, '\t');
    lemma_divided(key, '\t', number);
    lemma_undivided(key, '\t');
    let four = pieces(key + seq!['\t'] + (number + seq!['\t'] + tail), Mark::At('\t'));
    assert(four =~= seq![key, number, title, creators]);
    let three = pieces(key + seq!['\t'] + (number + seq!['\t'] + title), Mark::At('\t'));
    assert(three =~= seq![key, number, title]);
}

/// Lines, each followed by a line feed.
pub open spec fn fed(lines: Seq<Seq<char>>) -> Seq<char>
    decreases lines.len(),
{
    if lines.len() == 0 {
        Seq::empty()
    } else {
        lines[0] + seq!['\n'] + fed(lines.drop_first())
    }
}

proof fn lemma_fed(lines: Seq<Seq<char>>)
    requires
        forall|i: int|
            0 <= i < lines.len() ==> !(#[trigger] lines[i]).contains('\n') && (lines[i].len() > 0
                ==> lines[i][lines[i].len() - 1] != '\r'),
    ensures
        lines_of(fed(lines)) == lines,
    decreases lines.len(),
{
    if lines.len() == 0 {
        law_lines_end_at_line_feeds(Seq::empty(), Seq::empty());
        assert(lines =~= Seq::<Seq<char>>::empty());
    } else {
        let rest = lines.drop_first();
        assert(!lines[0].contains('\n'));
        assert forall|i: int| 0 <= i < rest.len() implies !(#[trigger] rest[i]).contains('\n') && (
        rest[i].len() > 0 ==> rest[i][rest[i].len() - 1] != '\r') by {
            assert(rest[i] == lines[i + 1]);
        }
        lemma_fed(rest);
        law_lines_end_at_line_feeds(lines[0], fed(rest));
        assert(seq![lines[0]] + rest =~= lines);
    }
}

/// The kept papers are those of the first 96 lines that are records, in order;
/// a line that is none is left out, and no other.
pub proof fn law_every_record_is_read(lines: Seq<Seq<char>>, kept: Seq<Option<KeptView>>)
    requires
        lines.len() == kept.len(),
        forall|i: int|
            0 <= i < lines.len() ==> !(#[trigger] lines[i]).contains('\n') && (lines[i].len() > 0
                ==> lines[i][lines[i].len() - 1] != '\r'),
        forall|i: int|
            #![trigger lines[i]]
            #![trigger kept[i]]
            0 <= i < lines.len() ==> kept_in(lines[i]) == kept[i],
    ensures
        library_in(encode_utf8(fed(lines))) == those_there(at_most_first(kept, 96)),
{
    law_utf8_round_trip(fed(lines));
    lemma_fed(lines);
    let read = prefix(lines, 96);
    let wanted = at_most_first(kept, 96);
    let same = |item: Option<KeptView>| item;
    assert forall|i: int| 0 <= i < read.len() implies #[trigger] kept_row()(read[i]) == same(
        wanted[i],
    ) by {
        assert(read[i] == lines[i] && wanted[i] == kept[i]);
    }
    lemma_filter_map_agrees(read, kept_row(), wanted, same);
}

proof fn lemma_head_has_no_mark(text: Seq<char>, mark: char)
    ensures
        head(text, mark).len() <= text.len(),
        text.take(head(text, mark).len() as int) == head(text, mark),
        !head(text, mark).contains(mark),
        head(text, mark).len() < text.len() ==> text[head(text, mark).len() as int] == mark,
        !text.contains(mark) ==> head(text, mark) == text,
    decreases text.len(),
{
    if text.len() > 0 && text[0] != mark {
        let rest = text.drop_first();
        lemma_head_has_no_mark(rest, mark);
        let before = head(rest, mark);
        let whole = head(text, mark);
        assert(whole == seq![text[0]] + before);
        assert forall|k: int| 0 <= k < whole.len() implies whole[k] == text[k] && whole[k] != mark by {
            if k > 0 {
                assert(rest.take(before.len() as int)[k - 1] == before[k - 1]);
                assert(before.contains(before[k - 1]));
            }
        }
        assert(text.take(whole.len() as int) =~= whole);
        if !text.contains(mark) {
            assert forall|k: int| 0 <= k < rest.len() implies rest[k] != mark by {
                assert(text.contains(text[k + 1]));
            }
            assert(whole =~= text);
        }
    } else {
        assert(text.take(0) =~= Seq::<char>::empty());
        if text.len() > 0 {
            assert(text.contains(text[0]));
        } else {
            assert(text =~= Seq::<char>::empty());
        }
    }
}

/// A collection that was chosen is kept as its key and its name with a tab
/// between them. Without the tab, without a usable key or without a name there
/// is none.
pub proof fn law_kept_collections_are_read(key: Seq<char>, name: Seq<char>, bytes: Seq<u8>)
    requires
        !key.contains('\t'),
    ensures
        key_like(key) && name.len() > 0 ==> selection_in(encode_utf8(key + seq!['\t'] + name))
            == Some(CollectionView { key, name: compacted(name, 160) }),
        name.len() == 0 || !key_like(key) ==> selection_in(
            encode_utf8(key + seq!['\t'] + name),
        ) is None,
        selection_in(encode_utf8(key)) is None,
        !valid_utf8(bytes) ==> selection_in(bytes) is None,
{
    law_keys_are_letters_and_digits(key);
    law_utf8_round_trip(key + seq!['\t'] + name);
    law_utf8_round_trip(key);
    lemma_head(key, '\t', name);
    assert(key.push('\t') + name =~= key + seq!['\t'] + name);
    lemma_head_has_no_mark(key, '\t');
}

/// What was read is kept line by line. A line that names the paper opened last
/// replaces the one named before; a line that names a read paper adds it at the
/// end, unless it is there; every other line changes nothing, and so does every
/// line after the first 501.
pub proof fn law_each_line_adds_to_the_state(
    lines: Seq<Seq<char>>,
    line: Seq<char>,
    key: Seq<char>,
)
    requires
        forall|i: int|
            0 <= i < lines.len() ==> !(#[trigger] lines[i]).contains('\n') && (lines[i].len() > 0
                ==> lines[i][lines[i].len() - 1] != '\r'),
        !line.contains('\n'),
        line.len() > 0 ==> line[line.len() - 1] != '\r',
    ensures
        ({
            let before = state_in(encode_utf8(fed(lines)));
            let after = state_in(encode_utf8(fed(lines.push(line))));
            &&& lines.len() == 0 ==> before == (Seq::<Seq<char>>::empty(), None::<Seq<char>>)
            &&& lines.len() <= 500 && key_like(key) && line == "last\t"@ + key ==> after == (
                before.0,
                Some(key),
            )
            &&& lines.len() <= 500 && key_like(key) && line == "read\t"@ + key
                && before.0.contains(key) ==> after == before
            &&& lines.len() <= 500 && key_like(key) && line == "read\t"@ + key
                && !before.0.contains(key) ==> after == (before.0.push(key), before.1)
            &&& (forall|k: Seq<char>| #[trigger]
                key_like(k) ==> line != "last\t"@ + k && line != "read\t"@ + k) ==> after == before
            &&& lines.len() > 500 ==> after == before
        }),
{
    let longer = lines.push(line);
    assert forall|i: int| 0 <= i < longer.len() implies !(#[trigger] longer[i]).contains('\n') && (
    longer[i].len() > 0 ==> longer[i][longer[i].len() - 1] != '\r') by {
        if i < lines.len() {
            assert(longer[i] == lines[i]);
        }
    }
    law_utf8_round_trip(fed(lines));
    law_utf8_round_trip(fed(longer));
    lemma_fed(lines);
    lemma_fed(longer);
    if lines.len() > 500 {
        assert(prefix(longer, 501) =~= prefix(lines, 501));
    } else {
        assert(prefix(longer, 501) =~= longer);
        assert(prefix(lines, 501) =~= lines);
        assert(longer.drop_last() =~= lines);
        assert(longer.last() == line);
        reveal_strlit("last\t");
        reveal_strlit("read\t");
        reveal_strlit("last");
        reveal_strlit("read");
        assert("last"@[0] == 'l' && "read"@[0] == 'r');
        assert("last\t"@ =~= "last"@.push('\t'));
        assert("read\t"@ =~= "read"@.push('\t'));
        law_keys_are_letters_and_digits(key);
        lemma_head("last"@, '\t', key);
        lemma_head("read"@, '\t', key);
        lemma_head_has_no_mark(line, '\t');
        if let Some((kind, rest)) = parted(line, '\t') {
            law_keys_are_letters_and_digits(rest);
            assert(line =~= kind.push('\t') + rest) by {
                assert(line.take(kind.len() as int) == kind);
                assert(line =~= line.take(kind.len() as int).push(line[kind.len() as int])
                    + line.skip(kind.len() as int + 1));
            }
        }
    }
}

/// A number may have a plus sign before it; anything else that is no digit, and
/// a sign alone, makes it no number.
pub proof fn law_numbers_are_made_of_digits(text: Seq<char>, i: int)
    ensures
        text.len() > 0 && '0' <= text[0] <= '9' ==> parsed(seq!['+'] + text) == parsed(text),
        0 <= i < text.len() && !('0' <= text[i] <= '9') && (i > 0 || text[0] != '+') ==> parsed(
            text,
        ) is None,
        text.len() == 0 ==> parsed(text) is None,
        text == seq!['+'] ==> parsed(text) is None,
{
    let signed = seq!['+'] + text;
    assert(signed.drop_first() =~= text);
    if 0 <= i < text.len() && !('0' <= text[i] <= '9') {
        if text[0] == '+' {
            if i > 0 {
                assert(text.drop_first()[i - 1] == text[i]);
            }
        }
        assert(!is_digit(text[i]));
    }
}

/// A number that no longer fits is not read as a smaller one.
pub proof fn law_large_numbers_are_not_read(digits: Seq<char>)
    requires
        all_digits(digits),
        value_of(digits) > 4294967295,
    ensures
        parsed(digits) is None,
{
    if digits.len() > 0 {
        assert(is_digit(digits[0]));
    }
}

/// The white space that is taken off a text is Unicode's: tab to carriage
/// return, the spaces, the separators of lines and paragraphs, and next line.
/// A letter is none.
pub proof fn law_white_space_is_unicodes(c: char)
    ensures
        ({
            let code = c as u32;
            trimmed(seq![c]).len() == 0 <==> {
                ||| c == '\t' || c == '\n' || c == '\r' || c == ' '
                ||| code == 11 || code == 12
                ||| code == 133 || code == 160
                ||| code == 5760
                ||| 8192 <= code <= 8202
                ||| code == 8232 || code == 8233
                ||| code == 8239 || code == 8287
                ||| code == 12288
            }
        }),
        cleaned(seq![c], 1).len() == 0 <==> c == '\0' || trimmed(seq![c]).len() == 0,
{
    let none = Seq::<char>::empty();
    let one = seq![c];
    if is_blank(c) {
        law_trimming_takes_white_space_off(one, none, none);
        assert(one + none + none =~= one);
        law_blank_texts_are_empty(one, 1);
    } else {
        law_trimming_takes_white_space_off(none, one, none);
        assert(none + one + none =~= one);
        if c == '\0' {
            law_blank_texts_are_empty(one, 1);
        } else {
            assert(tidy(one));
            law_spaces_at_the_ends_go(one, none, 1);
            assert(one + none =~= one);
        }
    }
}

} // verus!

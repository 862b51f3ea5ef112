//! A document holds as much of its text as its limit allows, in order and
//! escaped, and says so where something is missing.
use vstd::prelude::*;
use vstd::utf8::*;

use crate::bytes::{law_utf8_round_trip, lemma_encode_concat};
use crate::fulltext::{
    blocks_in, blocks_of, chunks, escaped, fits, fitting, fulltext_in, html_block, html_blocks,
    html_document, html_heading, html_start, incomplete_in, law_chunks_lose_nothing,
    lemma_fitting_bound, lemma_fitting_more, on_one_line, paragraphs, roomy, trimming,
};
use crate::json::Value;
use crate::laws::members::{
    holds, holds_text, lacks, law_missing_members_are_not_found, law_numbers_are_read,
    law_texts_are_found,
};
use crate::model::FullTextView;
use crate::text::{
    chomped, chomping, is_blank, is_filled, join, lemma_pieces_some, lines_of, pieces, trimmed,
    trimmed_end, trimmed_start, Mark,
};

verus! {

/// The number of bytes of a text.
pub open spec fn bytes_of(text: Seq<char>) -> nat {
    encode_utf8(text).len()
}

/// A paragraph of a document.
pub open spec fn as_paragraph(block: Seq<char>) -> Seq<char> {
    "<p>"@ + escaped(block) + "</p>"@
}

/// Paragraphs one after the other.
pub open spec fn as_paragraphs(blocks: Seq<Seq<char>>) -> Seq<char> {
    blocks.map_values(|block: Seq<char>| as_paragraph(block)).flatten()
}

pub open spec fn opening() -> Seq<char> {
    "<html><body>"@
}

pub open spec fn closing() -> Seq<char> {
    "</body></html>"@
}

pub open spec fn notice() -> Seq<char> {
    "<p><strong>Text truncated. The Zotero index or this reader did not contain the complete document.</strong></p>"@
}

/// The heading of a document; none without a title.
pub open spec fn heading(title: Seq<char>) -> Seq<char> {
    if title.len() == 0 {
        Seq::empty()
    } else {
        "<h1>"@ + escaped(title) + "</h1>"@
    }
}

/// Whether the index counts as complete: there is no total, or as much was
/// indexed as there is.
pub open spec fn counted_whole(root: Value, indexed: Seq<char>, total: Seq<char>) -> bool {
    ||| lacks(root, total)
    ||| exists|there: i64, read: i64|
        {
            &&& #[trigger] holds(root, total, Value::Number(there))
            &&& #[trigger] holds(root, indexed, Value::Number(read))
            &&& 0 <= there <= read <= u32::MAX
        }
}

/// Whether the index says that less was indexed than there is.
pub open spec fn counted_in_part(root: Value, indexed: Seq<char>, total: Seq<char>) -> bool {
    ||| lacks(root, indexed) && exists|there: i64|
        #[trigger] holds(root, total, Value::Number(there)) && 0 < there <= u32::MAX
    ||| exists|there: i64, read: i64|
        {
            &&& #[trigger] holds(root, total, Value::Number(there))
            &&& #[trigger] holds(root, indexed, Value::Number(read))
            &&& 0 <= read < there <= u32::MAX
        }
}

proof fn lemma_counts(root: Value, indexed: Seq<char>, total: Seq<char>)
    ensures
        counted_whole(root, indexed, total) ==> !incomplete_in(&root, indexed, total),
        counted_in_part(root, indexed, total) ==> incomplete_in(&root, indexed, total),
{
    if lacks(root, total) {
        law_missing_members_are_not_found(root, total);
    }
    if lacks(root, indexed) {
        law_missing_members_are_not_found(root, indexed);
        assert forall|there: i64| #[trigger]
            holds(root, total, Value::Number(there)) && 0 < there <= u32::MAX implies incomplete_in(
            &root,
            indexed,
            total,
        ) by {
            law_numbers_are_read(root, total, there);
        }
    }
    assert forall|there: i64, read: i64| #[trigger]
        holds(root, total, Value::Number(there)) && #[trigger] holds(
            root,
            indexed,
            Value::Number(read),
        ) && 0 <= there <= u32::MAX && 0 <= read <= u32::MAX implies incomplete_in(
        &root,
        indexed,
        total,
    ) == (read < there) by {
        law_numbers_are_read(root, total, there);
        law_numbers_are_read(root, indexed, read);
    }
}

proof fn lemma_paragraphs_one_by_one(blocks: Seq<Seq<char>>)
    ensures
        html_blocks(blocks) == as_paragraphs(blocks),
    decreases blocks.len(),
{
    let whole = blocks.map_values(|block: Seq<char>| as_paragraph(block));
    if blocks.len() == 0 {
        assert(as_paragraphs(blocks) =~= Seq::<char>::empty());
    } else {
        let front = blocks.drop_last();
        let before = front.map_values(|block: Seq<char>| as_paragraph(block));
        lemma_paragraphs_one_by_one(front);
        assert(whole.drop_last() =~= before);
        whole.lemma_flatten_and_flatten_alt_are_equivalent();
        before.lemma_flatten_and_flatten_alt_are_equivalent();
        assert(html_block(blocks.last()) =~= as_paragraph(blocks.last()));
    }
}

/// The bytes of a text and of what follows it.
proof fn lemma_bytes_add(front: Seq<char>, rest: Seq<char>)
    ensures
        bytes_of(front + rest) == bytes_of(front) + bytes_of(rest),
{
    lemma_encode_concat(front, rest);
}

proof fn lemma_fits(html: Seq<char>, more: Seq<char>, maximum: nat)
    ensures
        fits(html, more, maximum) <==> bytes_of(html) + bytes_of(more) + bytes_of(notice())
            + bytes_of(closing()) <= maximum,
{
}

/// Whether a document is made of a start, the first paragraphs of a text and
/// its end.
pub open spec fn made_of(
    document: Seq<char>,
    start: Seq<char>,
    blocks: Seq<Seq<char>>,
    kept: int,
    truncated: bool,
) -> bool {
    &&& 0 <= kept <= blocks.len()
    &&& document == start + as_paragraphs(blocks.take(kept)) + if truncated {
        notice() + closing()
    } else {
        closing()
    }
}

/// How a document starts: with its title, unless that leaves no room for its
/// end.
pub open spec fn start_within(title: Seq<char>, maximum: nat) -> Seq<char> {
    if bytes_of(opening()) + bytes_of(heading(title)) + bytes_of(notice()) + bytes_of(closing())
        <= maximum {
        opening() + heading(title)
    } else {
        opening()
    }
}

/// Whether a document holds the first paragraphs of its text, and left the
/// next one out only for want of room; it is truncated where one was left out
/// or the index is not complete.
pub open spec fn holds_what_fits(
    root: Value,
    title: Seq<char>,
    content: Seq<char>,
    maximum: nat,
    document: FullTextView,
    kept: int,
) -> bool {
    let blocks = blocks_in(content);
    let start = start_within(title, maximum);
    &&& made_of(decode_utf8(document.html), start, blocks, kept, document.truncated)
    &&& kept < blocks.len() ==> document.truncated && bytes_of(start) + bytes_of(
        as_paragraphs(blocks.take(kept)),
    ) + bytes_of(as_paragraph(blocks[kept])) + bytes_of(notice()) + bytes_of(closing()) > maximum
    &&& kept == blocks.len() && counted_whole(root, "indexedPages"@, "totalPages"@)
        && counted_whole(root, "indexedChars"@, "totalChars"@) ==> !document.truncated
    &&& counted_in_part(root, "indexedPages"@, "totalPages"@) || counted_in_part(
        root,
        "indexedChars"@,
        "totalChars"@,
    ) ==> document.truncated
}

/// No text is left out while there is room. A document starts with its title,
/// unless that leaves no room for its end; it holds the paragraphs of the text
/// from the first on. Where paragraphs are left out, the next one would have
/// taken the document, with the notice and its end, over the limit.
pub proof fn law_documents_hold_what_fits(
    root: Value,
    title: Seq<char>,
    content: Seq<char>,
    maximum: nat,
)
    requires
        holds_text(root, "content"@, content),
        maximum >= bytes_of(notice()) + bytes_of(closing()) + 32,
    ensures
        fulltext_in(&root, title, maximum) matches Some(document) && exists|kept: int|
            #[trigger] holds_what_fits(root, title, content, maximum, document, kept),
{
    law_texts_are_found(root, "content"@, content);
    lemma_counts(root, "indexedPages"@, "totalPages"@);
    lemma_counts(root, "indexedChars"@, "totalChars"@);
    assert(roomy(maximum));
    let blocks = blocks_in(content);
    let start = start_within(title, maximum);
    lemma_fits(opening(), heading(title), maximum);
    if title.len() == 0 {
        assert(opening() + heading(title) =~= opening());
    } else {
        assert(html_heading(title) =~= heading(title));
    }
    assert(html_start(title, maximum) == start);
    let kept = fitting(start, blocks, maximum) as int;
    let document = fulltext_in(&root, title, maximum)->0;
    lemma_fitting_bound(start, blocks, maximum);
    lemma_paragraphs_one_by_one(blocks.take(kept));
    let text = html_document(&root, title, content, maximum);
    law_utf8_round_trip(text);
    let body = start + as_paragraphs(blocks.take(kept));
    assert(text =~= body + if document.truncated {
        notice() + closing()
    } else {
        closing()
    });
    if kept < blocks.len() {
        lemma_fitting_more(start, blocks, maximum, kept);
        lemma_fits(body, html_block(blocks[kept]), maximum);
        lemma_bytes_add(start, as_paragraphs(blocks.take(kept)));
        assert(html_block(blocks[kept]) =~= as_paragraph(blocks[kept]));
    }
    assert(made_of(decode_utf8(document.html), start, blocks, kept, document.truncated));
    assert(holds_what_fits(root, title, content, maximum, document, kept));
}

proof fn lemma_first_paragraphs_fit(blocks: Seq<Seq<char>>, kept: int)
    requires
        0 <= kept < blocks.len(),
    ensures
        bytes_of(as_paragraphs(blocks.take(kept))) + bytes_of(as_paragraph(blocks[kept]))
            <= bytes_of(as_paragraphs(blocks)),
    decreases blocks.len(),
{
    lemma_paragraphs_one_by_one(blocks);
    lemma_paragraphs_one_by_one(blocks.drop_last());
    lemma_paragraphs_one_by_one(blocks.take(kept));
    lemma_bytes_add(html_blocks(blocks.drop_last()), html_block(blocks.last()));
    assert(html_block(blocks[kept]) =~= as_paragraph(blocks[kept]));
    if kept == blocks.len() - 1 {
        assert(blocks.take(kept) =~= blocks.drop_last());
    } else {
        lemma_first_paragraphs_fit(blocks.drop_last(), kept);
        assert(blocks.drop_last().take(kept) =~= blocks.take(kept));
    }
}

/// A text that fits is there in full: if the index is complete and the opening,
/// the heading, every paragraph, the notice and the closing together take no
/// more bytes than the limit, the document is not truncated and holds every
/// paragraph.
pub proof fn law_texts_that_fit_are_whole(
    root: Value,
    title: Seq<char>,
    content: Seq<char>,
    maximum: nat,
)
    requires
        holds_text(root, "content"@, content),
        counted_whole(root, "indexedPages"@, "totalPages"@),
        counted_whole(root, "indexedChars"@, "totalChars"@),
        maximum >= bytes_of(notice()) + bytes_of(closing()) + 32,
        bytes_of(opening()) + bytes_of(heading(title)) + bytes_of(as_paragraphs(blocks_in(content)))
            + bytes_of(notice()) + bytes_of(closing()) <= maximum,
    ensures
        fulltext_in(&root, title, maximum) matches Some(document) && !document.truncated
            && decode_utf8(document.html) == opening() + heading(title) + as_paragraphs(
            blocks_in(content),
        ) + closing(),
{
    law_documents_hold_what_fits(root, title, content, maximum);
    let document = fulltext_in(&root, title, maximum)->0;
    let blocks = blocks_in(content);
    let start = opening() + heading(title);
    lemma_bytes_add(opening(), heading(title));
    let kept = choose|kept: int|
        #[trigger] holds_what_fits(root, title, content, maximum, document, kept);
    if kept < blocks.len() {
        lemma_first_paragraphs_fit(blocks, kept);
    }
    assert(blocks.take(kept) =~= blocks);
}

/// Without content, and where the limit leaves no room, there is no document.
pub proof fn law_documents_need_content_and_room(root: Value, title: Seq<char>, maximum: nat)
    ensures
        lacks(root, "content"@) ==> fulltext_in(&root, title, maximum) is None,
        maximum < bytes_of(notice()) + bytes_of(closing()) + 32 ==> fulltext_in(
            &root,
            title,
            maximum,
        ) is None,
{
    if lacks(root, "content"@) {
        law_missing_members_are_not_found(root, "content"@);
    }
}

/// Escaping goes character by character: each of `&`, `<`, `>`, `"` and `'`
/// becomes its own entity, NUL a space, and every other character stays.
pub proof fn law_escaping_goes_by_character(front: Seq<char>, c: char)
    ensures
        escaped(Seq::empty()) == Seq::<char>::empty(),
        escaped(front.push(c)) == escaped(front) + match c {
            '&' => seq!['&', 'a', 'm', 'p', ';'],
            '<' => seq!['&', 'l', 't', ';'],
            '>' => seq!['&', 'g', 't', ';'],
            '"' => seq!['&', 'q', 'u', 'o', 't', ';'],
            '\'' => seq!['&', '#', '3', '9', ';'],
            '\0' => seq![' '],
            _ => seq![c],
        },
{
    reveal_strlit("&amp;");
    reveal_strlit("&lt;");
    reveal_strlit("&gt;");
    reveal_strlit("&quot;");
    reveal_strlit("&#39;");
    reveal_strlit(" ");
    assert(front.push(c).drop_last() =~= front);
    assert("&amp;"@ =~= seq!['&', 'a', 'm', 'p', ';']);
    assert("&lt;"@ =~= seq!['&', 'l', 't', ';']);
    assert("&gt;"@ =~= seq!['&', 'g', 't', ';']);
    assert("&quot;"@ =~= seq!['&', 'q', 'u', 'o', 't', ';']);
    assert("&#39;"@ =~= seq!['&', '#', '3', '9', ';']);
    assert(" "@ =~= seq![' ']);
}

/// A line is cut only behind every 4,096th character: the blocks of a line are
/// 4,096 characters long, all but the last, and a shorter line is one block.
pub proof fn law_lines_are_cut_at_the_limit_only(line: Seq<char>)
    ensures
        0 < line.len() <= 4096 ==> chunks(line) == seq![line],
        forall|i: int|
            0 <= i < chunks(line).len() - 1 ==> (#[trigger] chunks(line)[i]).len() == 4096,
        chunks(line).flatten() == line,
    decreases line.len(),
{
    law_chunks_lose_nothing(line);
    if line.len() > 4096 {
        let rest = line.skip(4096);
        law_lines_are_cut_at_the_limit_only(rest);
        assert forall|i: int| 0 <= i < chunks(line).len() - 1 implies (#[trigger] chunks(
            line,
        )[i]).len() == 4096 by {
            if i > 0 {
                assert(chunks(line)[i] == chunks(rest)[i - 1]);
            }
        }
    }
}

/// Whether a text is a line as it should stand: not empty, without a line feed,
/// and without white space at its ends.
pub open spec fn is_bare_line(line: Seq<char>) -> bool {
    &&& line.len() > 0
    &&& !line.contains('\n')
    &&& !is_blank(line[0])
    &&& !is_blank(line[line.len() - 1])
}

/// Lines with a line feed between each two.
pub open spec fn stacked(lines: Seq<Seq<char>>) -> Seq<char>
    decreases lines.len(),
{
    if lines.len() <= 1 {
        lines.flatten()
    } else {
        stacked(lines.drop_last()) + seq!['\n'] + lines.last()
    }
}

/// Lines with a space between each two.
pub open spec fn side_by_side(lines: Seq<Seq<char>>) -> Seq<char>
    decreases lines.len(),
{
    if lines.len() <= 1 {
        lines.flatten()
    } else {
        side_by_side(lines.drop_last()) + seq![' '] + lines.last()
    }
}

proof fn lemma_flatten_one(lines: Seq<Seq<char>>)
    requires
        lines.len() <= 1,
    ensures
        lines.len() == 0 ==> lines.flatten() == Seq::<char>::empty(),
        lines.len() == 1 ==> lines.flatten() == lines[0],
{
    lines.lemma_flatten_one_element();
}

proof fn lemma_pieces_extend(text: Seq<char>, more: Seq<char>)
    requires
        !more.contains('\n'),
    ensures
        pieces(text + more, Mark::At('\n')) == pieces(text, Mark::At('\n')).drop_last().push(
            pieces(text, Mark::At('\n')).last() + more,
        ),
    decreases more.len(),
{
    let mark = Mark::At('\n');
    lemma_pieces_some(text, mark);
    if more.len() == 0 {
        assert(text + more =~= text);
        assert(pieces(text, mark).last() + more =~= pieces(text, mark).last());
        assert(pieces(text, mark) =~= pieces(text, mark).drop_last().push(
            pieces(text, mark).last(),
        ));
    } else {
        let front = more.drop_last();
        assert(more.contains(more.last()));
        assert(!front.contains('\n')) by {
            assert(forall|i: int| 0 <= i < front.len() ==> front[i] == #[trigger] more[i]);
        }
        lemma_pieces_extend(text, front);
        assert((text + more).drop_last() =~= text + front);
        let before = pieces(text + front, mark);
        assert(before.drop_last() =~= pieces(text, mark).drop_last());
        assert(before.last().push(more.last()) =~= pieces(text, mark).last() + more);
    }
}

proof fn lemma_pieces_stacked(lines: Seq<Seq<char>>)
    requires
        lines.len() > 0,
        forall|i: int| 0 <= i < lines.len() ==> !(#[trigger] lines[i]).contains('\n'),
    ensures
        pieces(stacked(lines), Mark::At('\n')) == lines,
    decreases lines.len(),
{
    let mark = Mark::At('\n');
    if lines.len() == 1 {
        lemma_flatten_one(lines);
        lemma_pieces_extend(Seq::empty(), lines[0]);
        assert(Seq::<char>::empty() + lines[0] =~= lines[0]);
        assert(pieces(lines[0], mark) =~= lines);
    } else {
        let front = lines.drop_last();
        assert forall|i: int| 0 <= i < front.len() implies !(#[trigger] front[i]).contains('\n') by {
            assert(front[i] == lines[i]);
        }
        lemma_pieces_stacked(front);
        let fed = stacked(front) + seq!['\n'];
        assert(fed.drop_last() =~= stacked(front));
        assert(pieces(fed, mark) == front.push(Seq::<char>::empty()));
        assert(!lines[lines.len() - 1].contains('\n'));
        lemma_pieces_extend(fed, lines.last());
        assert(pieces(fed, mark).drop_last() =~= front);
        assert(Seq::<char>::empty() + lines.last() =~= lines.last());
        assert(front.push(lines.last()) =~= lines);
    }
}

proof fn lemma_bare_lines_stay(line: Seq<char>)
    requires
        is_bare_line(line),
    ensures
        trimmed(line) == line,
        chomped(line) == line,
{
}

proof fn lemma_all_filled(lines: Seq<Seq<char>>)
    requires
        forall|i: int| 0 <= i < lines.len() ==> (#[trigger] lines[i]).len() > 0,
    ensures
        lines.filter(is_filled()) == lines,
    decreases lines.len(),
{
    reveal(Seq::filter);
    if lines.len() > 0 {
        let front = lines.drop_last();
        assert forall|i: int| 0 <= i < front.len() implies (#[trigger] front[i]).len() > 0 by {
            assert(front[i] == lines[i]);
        }
        lemma_all_filled(front);
        assert(lines[lines.len() - 1].len() > 0);
        assert(front.push(lines.last()) =~= lines);
    } else {
        assert(lines.filter(is_filled()) =~= lines);
    }
}

proof fn lemma_join_spaces(lines: Seq<Seq<char>>)
    ensures
        join(lines, " "@) == side_by_side(lines),
    decreases lines.len(),
{
    reveal_strlit(" ");
    assert(" "@ =~= seq![' ']);
    if lines.len() <= 1 {
        lemma_flatten_one(lines);
    } else {
        lemma_join_spaces(lines.drop_last());
    }
}

proof fn lemma_trimmed_start_ends(line: Seq<char>)
    requires
        line.len() > 0,
        is_blank(line.last()),
    ensures
        trimmed_end(trimmed_start(line)) == trimmed_end(trimmed_start(line.drop_last())),
    decreases line.len(),
{
    let front = line.drop_last();
    if is_blank(line[0]) {
        if front.len() == 0 {
            assert(line.drop_first() =~= front);
            assert(trimmed_start(line.drop_first()) =~= front);
        } else {
            assert(line.drop_first().drop_last() =~= front.drop_first());
            assert(line.drop_first().last() == line.last());
            lemma_trimmed_start_ends(line.drop_first());
        }
    }
}

proof fn lemma_trimmed_chomped(line: Seq<char>)
    ensures
        trimmed(chomped(line)) == trimmed(line),
{
    if line.len() > 0 && line.last() == '\r' {
        lemma_trimmed_start_ends(line);
    }
}

proof fn lemma_filter_drops_empty(lines: Seq<Seq<char>>, last: Seq<char>)
    requires
        last.len() == 0,
    ensures
        lines.push(last).filter(is_filled()) == lines.filter(is_filled()),
{
    lines.lemma_filter_push(last, is_filled());
}

/// The lines of a paragraph stand on one line, in order, with one space between
/// each two: each without the white space at its ends, and without those that
/// say nothing.
pub proof fn law_lines_are_trimmed_and_joined(lines: Seq<Seq<char>>)
    requires
        lines.len() > 0,
        forall|i: int| 0 <= i < lines.len() ==> !(#[trigger] lines[i]).contains('\n'),
    ensures
        on_one_line(stacked(lines)) == side_by_side(
            lines.map_values(|line: Seq<char>| trimmed(line)).filter(
                |line: Seq<char>| line.len() > 0,
            ),
        ),
{
    let bare = lines.map_values(|line: Seq<char>| trimmed(line));
    let f = |line: Seq<char>| line.len() > 0;
    assert(f =~= is_filled());
    lemma_pieces_stacked(lines);
    let front = lines.drop_last();
    let ended = front.map_values(chomping());
    let last = lines.last();
    assert(bare =~= bare.drop_last().push(trimmed(last)));
    assert(ended.map_values(trimming()) =~= bare.drop_last()) by {
        assert forall|i: int| 0 <= i < front.len() implies trimmed(chomped(front[i])) == trimmed(
            #[trigger] lines[i],
        ) by {
            lemma_trimmed_chomped(lines[i]);
        }
    }
    let all = lines_of(stacked(lines)).map_values(trimming());
    if last.len() == 0 {
        assert(trimmed(last).len() == 0);
        lemma_filter_drops_empty(bare.drop_last(), trimmed(last));
    } else {
        assert(all =~= bare);
    }
    lemma_join_spaces(bare.filter(is_filled()));
}

/// The lines of a paragraph stand on one line, in order, with one space between
/// each two.
pub proof fn law_paragraphs_become_lines(lines: Seq<Seq<char>>)
    requires
        lines.len() > 0,
        forall|i: int| 0 <= i < lines.len() ==> is_bare_line(#[trigger] lines[i]),
    ensures
        on_one_line(stacked(lines)) == side_by_side(lines),
{
    assert forall|i: int| 0 <= i < lines.len() implies !(#[trigger] lines[i]).contains('\n') by {
        assert(is_bare_line(lines[i]));
    }
    lemma_pieces_stacked(lines);
    let ended = lines.drop_last().map_values(chomping());
    assert forall|i: int| 0 <= i < lines.len() implies trimmed(#[trigger] lines[i]) == lines[i]
        && chomped(lines[i]) == lines[i] && lines[i].len() > 0 by {
        assert(is_bare_line(lines[i]));
        lemma_bare_lines_stay(lines[i]);
    }
    assert(is_bare_line(lines[lines.len() - 1]));
    assert(ended =~= lines.drop_last());
    assert(lines_of(stacked(lines)) =~= lines);
    assert(lines.map_values(trimming()) =~= lines);
    lemma_all_filled(lines);
    lemma_join_spaces(lines);
}

proof fn lemma_no_blank_line(text: Seq<char>)
    requires
        !crate::prose::holds_blank_line(text),
    ensures
        paragraphs(text) == seq![text],
    decreases text.len(),
{
    if text.len() > 0 {
        let front = text.drop_last();
        assert(!crate::prose::holds_blank_line(front)) by {
            assert forall|i: int| 0 <= i < front.len() - 1 && #[trigger] front[i]
                == '\n' implies front[i + 1] != '\n' by {
                assert(front[i] == text[i]);
                assert(front[i + 1] == text[i + 1]);
            }
        }
        lemma_no_blank_line(front);
        if text.last() == '\n' && front.len() > 0 && front.last() == '\n' {
            assert(text[text.len() - 2] == '\n');
            assert(text[text.len() - 2 + 1] == '\n');
        }
        assert(front.push(text.last()) =~= text);
        assert(paragraphs(text) =~= seq![text]);
    } else {
        assert(text =~= Seq::<char>::empty());
        assert(paragraphs(text) =~= seq![text]);
    }
}

proof fn lemma_stacked_ends(lines: Seq<Seq<char>>)
    requires
        lines.len() > 0,
        forall|i: int| 0 <= i < lines.len() ==> is_bare_line(#[trigger] lines[i]),
    ensures
        stacked(lines).len() > 0,
        stacked(lines).last() != '\n',
        !crate::prose::holds_blank_line(stacked(lines)),
    decreases lines.len(),
{
    let last = lines[lines.len() - 1];
    assert(is_bare_line(last));
    assert forall|i: int| 0 <= i < last.len() implies #[trigger] last[i] != '\n' by {
        assert(last.contains(last[i]));
    }
    if lines.len() == 1 {
        lemma_flatten_one(lines);
        assert(stacked(lines) == last);
    } else {
        let front = lines.drop_last();
        assert forall|i: int| 0 <= i < front.len() implies is_bare_line(#[trigger] front[i]) by {
            assert(front[i] == lines[i]);
        }
        lemma_stacked_ends(front);
        let text = stacked(lines);
        let n = stacked(front).len() as int;
        assert(text.last() == last[last.len() - 1]);
        assert forall|i: int| 0 <= i < text.len() - 1 && #[trigger] text[i] == '\n' implies text[i
            + 1] != '\n' by {
            if i < n - 1 {
                assert(text[i] == stacked(front)[i]);
                assert(text[i + 1] == stacked(front)[i + 1]);
            } else if i == n - 1 {
                assert(text[i] == stacked(front).last());
            } else if i == n {
                assert(text[i + 1] == last[0]);
            } else {
                assert(text[i] == last[i - n - 1]);
            }
        }
    }
}

/// A paragraph of clean lines that is no longer than a block is one block: its
/// lines, in order, with one space between each two.
pub proof fn law_short_paragraphs_are_one_block(lines: Seq<Seq<char>>)
    requires
        lines.len() > 0,
        forall|i: int| 0 <= i < lines.len() ==> is_bare_line(#[trigger] lines[i]),
        side_by_side(lines).len() <= 4096,
    ensures
        blocks_in(stacked(lines)) == seq![side_by_side(lines)],
{
    lemma_stacked_ends(lines);
    lemma_no_blank_line(stacked(lines));
    law_paragraphs_become_lines(lines);
    lemma_side_by_side_some(lines);
    law_lines_are_cut_at_the_limit_only(side_by_side(lines));
    let parts = paragraphs(stacked(lines));
    assert(parts.drop_last() =~= Seq::<Seq<char>>::empty());
    assert(blocks_of(parts.drop_last()) =~= Seq::<Seq<char>>::empty());
    assert(blocks_of(parts) =~= seq![side_by_side(lines)]);
}

proof fn lemma_side_by_side_some(lines: Seq<Seq<char>>)
    requires
        lines.len() > 0,
        forall|i: int| 0 <= i < lines.len() ==> is_bare_line(#[trigger] lines[i]),
    ensures
        side_by_side(lines).len() > 0,
{
    assert(is_bare_line(lines[lines.len() - 1]));
    if lines.len() == 1 {
        lemma_flatten_one(lines);
    }
}

} // verus!

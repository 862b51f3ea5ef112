//! Zotero's indexed plain text as a bounded, inert HTML document.
use vstd::prelude::*;
use vstd::string::*;
use vstd::utf8::*;

use crate::bytes::lemma_encode_concat;
use crate::json::{is_member, number, number_in, raw_text, Value};
use crate::model::{FullText, FullTextView};
use crate::text::{
    chars_of, copy_chars, is_filled, join, join_chars, keep_filled, lines, lines_of, seen, text_of,
    trim_chars, trimmed,
};

verus! {

/// The most characters of one paragraph of the document.
pub const TEXT_BLOCK_CHARS: usize = 4_096;

pub const OPENING: &'static str = "<html><body>";

pub const NOTICE: &'static str =
    "<p><strong>Text truncated. The Zotero index or this reader did not contain the complete document.</strong></p>";

pub const CLOSING: &'static str = "</body></html>";

/// The number of bytes that a text takes.
pub open spec fn size(text: Seq<char>) -> nat {
    encode_utf8(text).len()
}

/// What stands for a character in HTML text.
pub open spec fn escaped_char(c: char) -> Seq<char> {
    if c == '&' {
        "&amp;"@
    } else if c == '<' {
        "&lt;"@
    } else if c == '>' {
        "&gt;"@
    } else if c == '"' {
        "&quot;"@
    } else if c == '\'' {
        "&#39;"@
    } else if c == '\0' {
        " "@
    } else {
        seq![c]
    }
}

/// A text with every character that HTML could read as markup replaced.
pub open spec fn escaped(text: Seq<char>) -> Seq<char>
    decreases text.len(),
{
    if text.len() == 0 {
        Seq::empty()
    } else {
        escaped(text.drop_last()) + escaped_char(text.last())
    }
}

/// Escapes a text for HTML.
pub fn escape_html(value: &str) -> (html: String)
    ensures
        html@ == escaped(value@),
{
    let chars = chars_of(value);
    let mut html = String::new();
    assert(chars@.take(0) =~= Seq::empty());
    for i in 0..chars.len()
        invariant
            chars@ == value@,
            html@ == escaped(chars@.take(i as int)),
    {
        assert(chars@.take(i + 1).drop_last() =~= chars@.take(i as int));
        let c = chars[i];
        let ghost before = html@;
        if c == '&' {
            html.append("&amp;");
        } else if c == '<' {
            html.append("&lt;");
        } else if c == '>' {
            html.append("&gt;");
        } else if c == '"' {
            html.append("&quot;");
        } else if c == '\'' {
            html.append("&#39;");
        } else if c == '\0' {
            html.append(" ");
        } else {
            html.push(c);
            assert(html@ =~= before + seq![c]);
        }
    }
    assert(chars@.take(chars@.len() as int) =~= chars@);
    html
}

/// A text divided at every pair of line feeds, from the left.
pub open spec fn paragraphs(text: Seq<char>) -> Seq<Seq<char>>
    decreases text.len(),
{
    if text.len() == 0 {
        seq![Seq::<char>::empty()]
    } else {
        let before = paragraphs(text.drop_last());
        let current = before.last();
        if text.last() == '\n' && current.len() > 0 && current.last() == '\n' {
            before.drop_last().push(current.drop_last()).push(Seq::<char>::empty())
        } else {
            before.drop_last().push(current.push(text.last()))
        }
    }
}

proof fn lemma_paragraphs_some(text: Seq<char>)
    ensures
        paragraphs(text).len() >= 1,
    decreases text.len(),
{
    if text.len() > 0 {
        lemma_paragraphs_some(text.drop_last());
    }
}

/// Divides a text into paragraphs.
fn split_paragraphs(chars: &Vec<char>) -> (parts: Vec<Vec<char>>)
    ensures
        seen(parts@) == paragraphs(chars@),
{
    let mut parts: Vec<Vec<char>> = Vec::new();
    let mut current: Vec<char> = Vec::new();
    assert(paragraphs(chars@.take(0)) =~= seen(parts@).push(current@));
    for i in 0..chars.len()
        invariant
            paragraphs(chars@.take(i as int)) == seen(parts@).push(current@),
    {
        proof {
            assert(chars@.take(i + 1).drop_last() =~= chars@.take(i as int));
            lemma_paragraphs_some(chars@.take(i as int));
        }
        let ghost old_parts = parts@;
        let ghost old_current = current@;
        assert(seen(old_parts).push(old_current).drop_last() =~= seen(old_parts));
        if chars[i] == '\n' && current.len() > 0 && current[current.len() - 1] == '\n' {
            current.pop();
            assert(current@ =~= old_current.drop_last());
            let ghost ended = current@;
            parts.push(current);
            current = Vec::new();
            assert(seen(parts@) =~= seen(old_parts).push(ended));
            assert(paragraphs(chars@.take(i + 1)) =~= seen(parts@).push(current@));
        } else {
            current.push(chars[i]);
            assert(paragraphs(chars@.take(i + 1)) =~= seen(parts@).push(current@));
        }
    }
    assert(chars@.take(chars@.len() as int) =~= chars@);
    let ghost old_parts = parts@;
    let ghost old_current = current@;
    parts.push(current);
    assert(seen(parts@) =~= seen(old_parts).push(old_current));
    parts
}

pub open spec fn trimming() -> spec_fn(Seq<char>) -> Seq<char> {
    |line: Seq<char>| trimmed(line)
}

/// A paragraph on one line: its lines, trimmed, with single spaces between
/// those that are not empty.
pub open spec fn on_one_line(paragraph: Seq<char>) -> Seq<char> {
    join(lines_of(paragraph).map_values(trimming()).filter(is_filled()), " "@)
}

/// Puts a paragraph on one line.
fn one_line(paragraph: &Vec<char>) -> (line: Vec<char>)
    ensures
        line@ == on_one_line(paragraph@),
{
    let all = lines(paragraph);
    let ghost seen_lines = seen(all@);
    let mut trimmed_lines: Vec<Vec<char>> = Vec::new();
    for i in 0..all.len()
        invariant
            seen_lines == seen(all@),
            seen(trimmed_lines@) == seen_lines.take(i as int).map_values(trimming()),
    {
        let ghost before = trimmed_lines@;
        let line = trim_chars(&all[i]);
        let ghost added = line@;
        assert(added == trimmed(seen_lines[i as int]));
        trimmed_lines.push(line);
        assert(seen(trimmed_lines@) =~= seen(before).push(added));
        assert(seen_lines.take(i + 1).map_values(trimming()) =~= seen_lines.take(
            i as int,
        ).map_values(trimming()).push(added));
    }
    assert(seen_lines.take(all@.len() as int) =~= seen_lines);
    join_chars(&keep_filled(trimmed_lines), " ")
}

/// A line cut into runs of `TEXT_BLOCK_CHARS` characters; the last may be
/// shorter.
pub open spec fn chunks(line: Seq<char>) -> Seq<Seq<char>>
    decreases line.len(),
{
    if line.len() == 0 {
        Seq::empty()
    } else if line.len() <= TEXT_BLOCK_CHARS {
        seq![line]
    } else {
        seq![line.take(TEXT_BLOCK_CHARS as int)] + chunks(line.skip(TEXT_BLOCK_CHARS as int))
    }
}

/// The blocks of paragraphs, in order.
pub open spec fn blocks_of(parts: Seq<Seq<char>>) -> Seq<Seq<char>>
    decreases parts.len(),
{
    if parts.len() == 0 {
        Seq::empty()
    } else {
        blocks_of(parts.drop_last()) + chunks(on_one_line(parts.last()))
    }
}

/// The blocks of a plain text.
pub open spec fn blocks_in(content: Seq<char>) -> Seq<Seq<char>> {
    blocks_of(paragraphs(content))
}

/// Divides a plain text into blocks.
pub fn plain_text_blocks(content: &str) -> (blocks: Vec<String>)
    ensures
        seen(blocks@) == blocks_in(content@),
{
    let parts = split_paragraphs(&chars_of(content));
    let ghost seen_parts = seen(parts@);
    let mut blocks: Vec<String> = Vec::new();
    assert(blocks_of(seen_parts.take(0)) =~= seen(blocks@));
    for i in 0..parts.len()
        invariant
            seen_parts == seen(parts@),
            seen(blocks@) == blocks_of(seen_parts.take(i as int)),
    {
        let line = one_line(&parts[i]);
        let ghost before = seen(blocks@);
        let mut from: usize = 0;
        let total: usize = line.len();
        assert(line@.skip(0) =~= line@);
        assert(seen(blocks@) + chunks(line@.skip(0)) =~= before + chunks(line@));
        while from < total
            invariant
                total == line@.len(),
                from <= total,
                seen(blocks@) + chunks(line@.skip(from as int)) == before + chunks(line@),
            decreases total - from,
        {
            let ghost rest = line@.skip(from as int);
            let ghost old_blocks = blocks@;
            let length: usize = if total - from <= TEXT_BLOCK_CHARS {
                total - from
            } else {
                TEXT_BLOCK_CHARS
            };
            let block = text_of(&copy_chars(&line, from, from + length));
            let ghost added = block@;
            blocks.push(block);
            proof {
                assert(seen(blocks@) =~= seen(old_blocks).push(added));
                assert(rest.skip(length as int) =~= line@.skip(from + length));
                if rest.len() <= TEXT_BLOCK_CHARS {
                    assert(added =~= rest);
                    assert(line@.skip(from + length) =~= Seq::<char>::empty());
                    assert(chunks(line@.skip(from + length)) =~= Seq::<Seq<char>>::empty());
                    assert(seen(blocks@) + chunks(line@.skip(from + length)) =~= seen(old_blocks)
                        + chunks(rest));
                } else {
                    assert(added =~= rest.take(TEXT_BLOCK_CHARS as int));
                    assert(seen(blocks@) + chunks(line@.skip(from + length)) =~= seen(old_blocks)
                        + chunks(rest));
                }
            }
            from = from + length;
        }
        proof {
            assert(line@.skip(total as int) =~= Seq::<char>::empty());
            assert(seen(blocks@) + Seq::<Seq<char>>::empty() =~= seen(blocks@));
            assert(seen_parts.take(i + 1).drop_last() =~= seen_parts.take(i as int));
            assert(seen_parts.take(i + 1).last() == parts@[i as int]@);
        }
    }
    assert(seen_parts.take(parts@.len() as int) =~= seen_parts);
    blocks
}

/// Whether the index says that less than everything was read.
pub open spec fn incomplete_in(root: &Value, indexed: Seq<char>, total: Seq<char>) -> bool {
    number_in(root.field(total)) > 0 && number_in(root.field(indexed)) < number_in(
        root.field(total),
    )
}

/// Compares what was indexed with what there is.
fn count_is_incomplete(root: &Value, indexed: &str, total: &str) -> (incomplete: bool)
    requires
        is_member(indexed@),
        is_member(total@),
    ensures
        incomplete == incomplete_in(root, indexed@, total@),
{
    let read = number(root.get(indexed));
    let there = number(root.get(total));
    there > 0 && read < there
}

/// A block as an HTML paragraph.
pub open spec fn html_block(block: Seq<char>) -> Seq<char> {
    "<p>"@ + escaped(block) + "</p>"@
}

/// A title as an HTML heading.
pub open spec fn html_heading(title: Seq<char>) -> Seq<char> {
    "<h1>"@ + escaped(title) + "</h1>"@
}

/// Whether `more` can follow `html` with room for the notice and the closing.
pub open spec fn fits(html: Seq<char>, more: Seq<char>, maximum: nat) -> bool {
    size(html) + size(more) + size(NOTICE@) + size(CLOSING@) <= maximum
}

/// The start of the document: with the title if there is one and it fits.
pub open spec fn html_start(title: Seq<char>, maximum: nat) -> Seq<char> {
    if title.len() > 0 && fits(OPENING@, html_heading(title), maximum) {
        OPENING@ + html_heading(title)
    } else {
        OPENING@
    }
}

/// The number of blocks that follow `html` within the limit: as many as fit
/// one after the other.
pub open spec fn fitting(html: Seq<char>, blocks: Seq<Seq<char>>, maximum: nat) -> nat
    decreases blocks.len(),
{
    if blocks.len() == 0 || !fits(html, html_block(blocks[0]), maximum) {
        0
    } else {
        1 + fitting(html + html_block(blocks[0]), blocks.drop_first(), maximum)
    }
}

/// Blocks as HTML paragraphs, in order.
pub open spec fn html_blocks(blocks: Seq<Seq<char>>) -> Seq<char>
    decreases blocks.len(),
{
    if blocks.len() == 0 {
        Seq::empty()
    } else {
        html_blocks(blocks.drop_last()) + html_block(blocks.last())
    }
}

/// Whether the index of the document or the document itself is incomplete.
pub open spec fn cut_short(root: &Value, title: Seq<char>, content: Seq<char>, maximum: nat) -> bool {
    ||| incomplete_in(root, "indexedPages"@, "totalPages"@)
    ||| incomplete_in(root, "indexedChars"@, "totalChars"@)
    ||| fitting(html_start(title, maximum), blocks_in(content), maximum) < blocks_in(content).len()
}

/// The document: its start, the blocks that fit, a notice where the text is
/// not complete, and the closing.
pub open spec fn html_document(
    root: &Value,
    title: Seq<char>,
    content: Seq<char>,
    maximum: nat,
) -> Seq<char> {
    let start = html_start(title, maximum);
    let blocks = blocks_in(content);
    let body = start + html_blocks(blocks.take(fitting(start, blocks, maximum) as int));
    if cut_short(root, title, content, maximum) {
        body + NOTICE@ + CLOSING@
    } else {
        body + CLOSING@
    }
}

/// Whether a limit leaves room for any document.
pub open spec fn roomy(maximum: nat) -> bool {
    maximum >= size(NOTICE@) + size(CLOSING@) + 32
}

/// The document that indexed text makes, if there is content and room.
pub open spec fn fulltext_in(root: &Value, title: Seq<char>, maximum: nat) -> Option<FullTextView> {
    match raw_text(root.field("content"@)) {
        Some(content) => if roomy(maximum) {
            Some(
                FullTextView {
                    html: encode_utf8(html_document(root, title, content, maximum)),
                    truncated: cut_short(root, title, content, maximum),
                },
            )
        } else {
            None
        },
        None => None,
    }
}

/// Whether `more` can follow `html` within the limit.
fn has_room(html: &str, more: &str, maximum: usize) -> (found: bool)
    ensures
        found == fits(html@, more@, maximum as nat),
{
    let total: u128 = html.as_bytes().len() as u128 + more.as_bytes().len() as u128
        + NOTICE.as_bytes().len() as u128 + CLOSING.as_bytes().len() as u128;
    total <= maximum as u128
}

/// A text between two tags.
fn tagged(open: &str, text: &str, close: &str) -> (html: String)
    ensures
        html@ == open@ + escaped(text@) + close@,
{
    let mut html = open.to_owned();
    let inner = escape_html(text);
    html.append(&inner);
    html.append(close);
    html
}

pub proof fn lemma_fitting_more(html: Seq<char>, blocks: Seq<Seq<char>>, maximum: nat, done: int)
    requires
        0 <= done < blocks.len(),
        fitting(html, blocks, maximum) >= done,
    ensures
        fitting(html, blocks, maximum) > done <==> fits(
            html + html_blocks(blocks.take(done)),
            html_block(blocks[done]),
            maximum,
        ),
        fitting(html, blocks, maximum) <= blocks.len(),
    decreases blocks.len(),
{
    lemma_fitting_bound(html, blocks, maximum);
    if done == 0 {
        assert(blocks.take(0) =~= Seq::<Seq<char>>::empty());
        assert(html + html_blocks(blocks.take(0)) =~= html);
    } else {
        let rest = blocks.drop_first();
        let next = html + html_block(blocks[0]);
        lemma_fitting_more(next, rest, maximum, done - 1);
        lemma_html_blocks_front(blocks.take(done));
        assert(blocks.take(done).drop_first() =~= rest.take(done - 1));
        assert(next + html_blocks(rest.take(done - 1)) =~= html + html_blocks(blocks.take(done)));
    }
}

pub proof fn lemma_fitting_bound(html: Seq<char>, blocks: Seq<Seq<char>>, maximum: nat)
    ensures
        fitting(html, blocks, maximum) <= blocks.len(),
    decreases blocks.len(),
{
    if blocks.len() > 0 {
        lemma_fitting_bound(html + html_block(blocks[0]), blocks.drop_first(), maximum);
    }
}

proof fn lemma_html_blocks_front(blocks: Seq<Seq<char>>)
    requires
        blocks.len() > 0,
    ensures
        html_blocks(blocks) == html_block(blocks[0]) + html_blocks(blocks.drop_first()),
    decreases blocks.len(),
{
    if blocks.len() == 1 {
        assert(blocks.drop_last() =~= Seq::<Seq<char>>::empty());
        assert(blocks.drop_first() =~= Seq::<Seq<char>>::empty());
        assert(html_blocks(blocks) =~= html_block(blocks[0]) + html_blocks(blocks.drop_first()));
    } else {
        lemma_html_blocks_front(blocks.drop_last());
        assert(blocks.drop_last().drop_first() =~= blocks.drop_first().drop_last());
        assert(html_blocks(blocks) =~= html_block(blocks[0]) + html_blocks(blocks.drop_first()));
    }
}

/// Turns indexed plain text into bounded, inert HTML.
pub fn zotero_fulltext(root: &Value, title: &str, maximum: usize) -> (document: Option<FullText>)
    ensures
        match document {
            Some(document) => fulltext_in(root, title@, maximum as nat) == Some(document@),
            None => fulltext_in(root, title@, maximum as nat) is None,
        },
{
    let content = match root.get("content") {
        Some(Value::Text(content)) => content,
        _ => {
            return None;
        },
    };
    let incomplete = count_is_incomplete(root, "indexedPages", "totalPages") || count_is_incomplete(
        root,
        "indexedChars",
        "totalChars",
    );
    let least: u128 = NOTICE.as_bytes().len() as u128 + CLOSING.as_bytes().len() as u128 + 32;
    if (maximum as u128) < least {
        return None;
    }
    let mut html = OPENING.to_owned();
    if !title.is_empty() {
        let heading = tagged("<h1>", title, "</h1>");
        if has_room(&html, &heading, maximum) {
            html.append(&heading);
        }
    }
    let ghost start = html@;
    assert(start == html_start(title@, maximum as nat));
    let blocks = plain_text_blocks(content);
    let ghost all = seen(blocks@);
    let mut done: usize = 0;
    assert(all.take(0) =~= Seq::<Seq<char>>::empty());
    assert(html@ =~= start + html_blocks(all.take(0)));
    proof {
        lemma_fitting_bound(start, all, maximum as nat);
    }
    while done < blocks.len()
        invariant
            all == seen(blocks@),
            done <= all.len(),
            fitting(start, all, maximum as nat) <= all.len(),
            fitting(start, all, maximum as nat) >= done,
            html@ == start + html_blocks(all.take(done as int)),
        ensures
            done == fitting(start, all, maximum as nat),
        decreases all.len() - done,
    {
        let block = tagged("<p>", &blocks[done], "</p>");
        assert(block@ == html_block(all[done as int]));
        proof {
            lemma_fitting_more(start, all, maximum as nat, done as int);
        }
        if !has_room(&html, &block, maximum) {
            break;
        }
        html.append(&block);
        assert(all.take(done + 1).drop_last() =~= all.take(done as int));
        assert(html@ =~= start + html_blocks(all.take(done + 1)));
        done = done + 1;
    }
    let truncated = incomplete || done < blocks.len();
    if truncated {
        html.append(NOTICE);
    }
    html.append(CLOSING);
    assert(html@ =~= html_document(root, title@, content@, maximum as nat));
    Some(FullText { html: html.as_str().as_bytes_vec(), truncated })
}

/// Whether HTML can read no markup in a text.
pub open spec fn inert(text: Seq<char>) -> bool {
    forall|i: int|
        0 <= i < text.len() ==> {
            &&& #[trigger] text[i] != '<'
            &&& text[i] != '>'
            &&& text[i] != '"'
            &&& text[i] != '\''
            &&& text[i] != '\0'
        }
}

proof fn lemma_escaped_char_inert(c: char)
    ensures
        inert(escaped_char(c)),
{
    reveal_strlit("&amp;");
    reveal_strlit("&lt;");
    reveal_strlit("&gt;");
    reveal_strlit("&quot;");
    reveal_strlit("&#39;");
    reveal_strlit(" ");
}

/// Escaped text holds no markup.
pub proof fn law_escaped_text_is_inert(text: Seq<char>)
    ensures
        inert(escaped(text)),
    decreases text.len(),
{
    if text.len() > 0 {
        law_escaped_text_is_inert(text.drop_last());
        lemma_escaped_char_inert(text.last());
        let front = escaped(text.drop_last());
        let last = escaped_char(text.last());
        assert forall|i: int| 0 <= i < (front + last).len() implies {
            &&& #[trigger] (front + last)[i] != '<'
            &&& (front + last)[i] != '>'
            &&& (front + last)[i] != '"'
            &&& (front + last)[i] != '\''
            &&& (front + last)[i] != '\0'
        } by {
            if i < front.len() {
                assert((front + last)[i] == front[i]);
            } else {
                assert((front + last)[i] == last[i - front.len()]);
            }
        }
    }
}

/// Text without markup characters is escaped as it stands.
pub proof fn law_plain_text_is_kept(text: Seq<char>)
    requires
        inert(text),
        forall|i: int| 0 <= i < text.len() ==> #[trigger] text[i] != '&',
    ensures
        escaped(text) == text,
    decreases text.len(),
{
    if text.len() > 0 {
        let front = text.drop_last();
        assert forall|i: int| 0 <= i < front.len() implies {
            &&& #[trigger] front[i] != '<'
            &&& front[i] != '>'
            &&& front[i] != '"'
            &&& front[i] != '\''
            &&& front[i] != '\0'
            &&& front[i] != '&'
        } by {
            assert(front[i] == text[i]);
        }
        law_plain_text_is_kept(front);
        assert(text[text.len() - 1] == text.last());
        assert(text =~= front + seq![text.last()]);
    }
}

proof fn lemma_blocks_within(html: Seq<char>, blocks: Seq<Seq<char>>, maximum: nat)
    requires
        size(html) + size(NOTICE@) + size(CLOSING@) <= maximum,
    ensures
        size(html + html_blocks(blocks.take(fitting(html, blocks, maximum) as int))) + size(NOTICE@)
            + size(CLOSING@) <= maximum,
    decreases blocks.len(),
{
    let count = fitting(html, blocks, maximum);
    lemma_fitting_bound(html, blocks, maximum);
    if count == 0 {
        assert(blocks.take(0) =~= Seq::<Seq<char>>::empty());
        assert(html + html_blocks(blocks.take(0)) =~= html);
    } else {
        let rest = blocks.drop_first();
        let next = html + html_block(blocks[0]);
        lemma_encode_concat(html, html_block(blocks[0]));
        lemma_blocks_within(next, rest, maximum);
        lemma_html_blocks_front(blocks.take(count as int));
        assert(blocks.take(count as int).drop_first() =~= rest.take(count - 1));
        assert(next + html_blocks(rest.take(count - 1)) =~= html + html_blocks(
            blocks.take(count as int),
        ));
    }
}

pub proof fn lemma_opening_size()
    ensures
        size(OPENING@) == 12,
{
    reveal_strlit("<html><body>");
    is_ascii_chars_encode_utf8(OPENING@);
}

/// A document never takes more bytes than its limit.
pub proof fn law_documents_are_bounded(root: &Value, title: Seq<char>, maximum: nat)
    ensures
        fulltext_in(root, title, maximum) matches Some(document) ==> document.html.len() <= maximum,
{
    if let Some(content) = raw_text(root.field("content"@)) {
        if roomy(maximum) {
            lemma_opening_size();
            lemma_encode_concat(OPENING@, html_heading(title));
            let start = html_start(title, maximum);
            let blocks = blocks_in(content);
            lemma_blocks_within(start, blocks, maximum);
            let body = start + html_blocks(blocks.take(fitting(start, blocks, maximum) as int));
            lemma_encode_concat(body, NOTICE@);
            lemma_encode_concat(body + NOTICE@, CLOSING@);
            lemma_encode_concat(body, CLOSING@);
        }
    }
}

/// A document is text that starts with the opening and ends with the closing.
pub proof fn law_documents_are_whole(root: &Value, title: Seq<char>, maximum: nat)
    ensures
        fulltext_in(root, title, maximum) matches Some(document) ==> {
            let text = decode_utf8(document.html);
            &&& valid_utf8(document.html)
            &&& OPENING@.is_prefix_of(text)
            &&& CLOSING@.is_suffix_of(text)
            &&& document.truncated ==> (NOTICE@ + CLOSING@).is_suffix_of(text)
        },
{
    if let Some(content) = raw_text(root.field("content"@)) {
        if roomy(maximum) {
            let text = html_document(root, title, content, maximum);
            crate::bytes::law_utf8_round_trip(text);
            let start = html_start(title, maximum);
            let blocks = blocks_in(content);
            let body = start + html_blocks(blocks.take(fitting(start, blocks, maximum) as int));
            assert(OPENING@ =~= start.subrange(0, OPENING@.len() as int));
            assert(OPENING@ =~= text.subrange(0, OPENING@.len() as int));
            assert(CLOSING@ =~= text.subrange(text.len() - CLOSING@.len(), text.len() as int));
            if cut_short(root, title, content, maximum) {
                assert(text =~= body + (NOTICE@ + CLOSING@));
                assert((NOTICE@ + CLOSING@) =~= text.subrange(
                    text.len() - (NOTICE@ + CLOSING@).len(),
                    text.len() as int,
                ));
            }
        }
    }
}

/// A document that is not truncated holds every block of its text.
pub proof fn law_whole_documents_hold_every_block(
    root: &Value,
    title: Seq<char>,
    content: Seq<char>,
    maximum: nat,
)
    requires
        !cut_short(root, title, content, maximum),
    ensures
        html_document(root, title, content, maximum) == html_start(title, maximum) + html_blocks(
            blocks_in(content),
        ) + CLOSING@,
{
    let start = html_start(title, maximum);
    let blocks = blocks_in(content);
    lemma_fitting_bound(start, blocks, maximum);
    assert(blocks.take(fitting(start, blocks, maximum) as int) =~= blocks);
}

/// Cutting a line into blocks loses nothing, and every block is short and not
/// empty.
pub proof fn law_chunks_lose_nothing(line: Seq<char>)
    ensures
        chunks(line).flatten() == line,
        forall|i: int|
            0 <= i < chunks(line).len() ==> 0 < (#[trigger] chunks(line)[i]).len()
                <= TEXT_BLOCK_CHARS,
    decreases line.len(),
{
    broadcast use Seq::lemma_flatten_singleton;

    if line.len() == 0 {
        assert(chunks(line).flatten() =~= line);
    } else if line.len() <= TEXT_BLOCK_CHARS {
    } else {
        let rest = line.skip(TEXT_BLOCK_CHARS as int);
        law_chunks_lose_nothing(rest);
        assert(chunks(line).drop_first() =~= chunks(rest));
        assert(chunks(line).first() =~= line.take(TEXT_BLOCK_CHARS as int));
        assert(line.take(TEXT_BLOCK_CHARS as int) + rest =~= line);
    }
}

/// Every block of a plain text is short and not empty.
pub proof fn law_blocks_are_short(content: Seq<char>)
    ensures
        forall|i: int|
            0 <= i < blocks_in(content).len() ==> 0 < (#[trigger] blocks_in(content)[i]).len()
                <= TEXT_BLOCK_CHARS,
{
    lemma_blocks_short(paragraphs(content));
}

proof fn lemma_blocks_short(parts: Seq<Seq<char>>)
    ensures
        forall|i: int|
            0 <= i < blocks_of(parts).len() ==> 0 < (#[trigger] blocks_of(parts)[i]).len()
                <= TEXT_BLOCK_CHARS,
    decreases parts.len(),
{
    if parts.len() > 0 {
        let front = blocks_of(parts.drop_last());
        let last = chunks(on_one_line(parts.last()));
        lemma_blocks_short(parts.drop_last());
        law_chunks_lose_nothing(on_one_line(parts.last()));
        assert forall|i: int| 0 <= i < blocks_of(parts).len() implies 0 < (#[trigger] blocks_of(
            parts,
        )[i]).len() <= TEXT_BLOCK_CHARS by {
            if i < front.len() {
                assert(blocks_of(parts)[i] == front[i]);
            } else {
                assert(blocks_of(parts)[i] == last[i - front.len()]);
            }
        }
    }
}

} // verus!

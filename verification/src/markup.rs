//! What HTML can read as markup in a document: the library's own tags and the
//! entities of escaped text, and nothing that came with the text.
use vstd::prelude::*;
use vstd::utf8::*;

use crate::bytes::law_utf8_round_trip;
use crate::fulltext::{
    blocks_in, cut_short, escaped, escaped_char, fitting, fulltext_in, html_block, html_blocks,
    html_document, html_heading, html_start, roomy, CLOSING, NOTICE, OPENING,
};
use crate::json::{raw_text, Value};

verus! {

/// The tags that a document is made of.
pub open spec fn tags() -> Seq<Seq<char>> {
    seq![
        "<html>"@,
        "<body>"@,
        "<h1>"@,
        "</h1>"@,
        "<p>"@,
        "</p>"@,
        "<strong>"@,
        "</strong>"@,
        "</body>"@,
        "</html>"@,
    ]
}

/// The entities that stand for characters of escaped text.
pub open spec fn entities() -> Seq<Seq<char>> {
    seq!["&amp;"@, "&lt;"@, "&gt;"@, "&quot;"@, "&#39;"@]
}

/// Whether `word` stands in `text` from position `at`.
pub open spec fn stands_at(word: Seq<char>, text: Seq<char>, at: int) -> bool {
    &&& 0 <= at <= text.len() - word.len()
    &&& text.subrange(at, at + word.len()) == word
}

/// Whether one of the words begins at a position of a text.
pub open spec fn one_begins(words: Seq<Seq<char>>, text: Seq<char>, at: int) -> bool {
    exists|k: int| 0 <= k < words.len() && stands_at(#[trigger] words[k], text, at)
}

/// Whether one of the words ends with the character at a position of a text.
pub open spec fn one_ends(words: Seq<Seq<char>>, text: Seq<char>, at: int) -> bool {
    exists|k: int|
        0 <= k < words.len() && stands_at(#[trigger] words[k], text, at + 1 - words[k].len())
}

/// Whether a text holds no markup but the tags and the entities: every `<`
/// begins a tag, every `>` ends one, every `&` begins an entity, and there is
/// no quotation mark, no apostrophe and no NUL.
pub open spec fn only_known_markup(text: Seq<char>) -> bool {
    forall|i: int|
        0 <= i < text.len() ==> {
            &&& #[trigger] text[i] == '<' ==> one_begins(tags(), text, i)
            &&& text[i] == '>' ==> one_ends(tags(), text, i)
            &&& text[i] == '&' ==> one_begins(entities(), text, i)
            &&& text[i] != '"'
            &&& text[i] != '\''
            &&& text[i] != '\0'
        }
}

proof fn lemma_stands_in_front(word: Seq<char>, front: Seq<char>, rest: Seq<char>, at: int)
    requires
        stands_at(word, front, at),
    ensures
        stands_at(word, front + rest, at),
{
    assert((front + rest).subrange(at, at + word.len()) =~= front.subrange(at, at + word.len()));
}

proof fn lemma_stands_behind(word: Seq<char>, front: Seq<char>, rest: Seq<char>, at: int)
    requires
        stands_at(word, rest, at),
    ensures
        stands_at(word, front + rest, front.len() + at),
{
    assert((front + rest).subrange(front.len() + at, front.len() + at + word.len())
        =~= rest.subrange(at, at + word.len()));
}

proof fn lemma_begins_in_front(words: Seq<Seq<char>>, front: Seq<char>, rest: Seq<char>, at: int)
    requires
        one_begins(words, front, at),
    ensures
        one_begins(words, front + rest, at),
{
    let k = choose|k: int| 0 <= k < words.len() && stands_at(#[trigger] words[k], front, at);
    lemma_stands_in_front(words[k], front, rest, at);
}

proof fn lemma_begins_behind(words: Seq<Seq<char>>, front: Seq<char>, rest: Seq<char>, at: int)
    requires
        one_begins(words, rest, at),
    ensures
        one_begins(words, front + rest, front.len() + at),
{
    let k = choose|k: int| 0 <= k < words.len() && stands_at(#[trigger] words[k], rest, at);
    lemma_stands_behind(words[k], front, rest, at);
}

proof fn lemma_ends_in_front(words: Seq<Seq<char>>, front: Seq<char>, rest: Seq<char>, at: int)
    requires
        one_ends(words, front, at),
    ensures
        one_ends(words, front + rest, at),
{
    let k = choose|k: int|
        0 <= k < words.len() && stands_at(#[trigger] words[k], front, at + 1 - words[k].len());
    lemma_stands_in_front(words[k], front, rest, at + 1 - words[k].len());
}

proof fn lemma_ends_behind(words: Seq<Seq<char>>, front: Seq<char>, rest: Seq<char>, at: int)
    requires
        one_ends(words, rest, at),
    ensures
        one_ends(words, front + rest, front.len() + at),
{
    let k = choose|k: int|
        0 <= k < words.len() && stands_at(#[trigger] words[k], rest, at + 1 - words[k].len());
    lemma_stands_behind(words[k], front, rest, at + 1 - words[k].len());
    assert(stands_at(words[k], front + rest, front.len() + at + 1 - words[k].len()));
}

/// Texts that hold only known markup hold nothing else one after the other.
proof fn lemma_known_markup_adds(front: Seq<char>, rest: Seq<char>)
    requires
        only_known_markup(front),
        only_known_markup(rest),
    ensures
        only_known_markup(front + rest),
{
    let text = front + rest;
    assert forall|i: int| 0 <= i < text.len() implies {
        &&& #[trigger] text[i] == '<' ==> one_begins(tags(), text, i)
        &&& text[i] == '>' ==> one_ends(tags(), text, i)
        &&& text[i] == '&' ==> one_begins(entities(), text, i)
        &&& text[i] != '"'
        &&& text[i] != '\''
        &&& text[i] != '\0'
    } by {
        if i < front.len() {
            assert(text[i] == front[i]);
            if front[i] == '<' {
                lemma_begins_in_front(tags(), front, rest, i);
            } else if front[i] == '>' {
                lemma_ends_in_front(tags(), front, rest, i);
            } else if front[i] == '&' {
                lemma_begins_in_front(entities(), front, rest, i);
            }
        } else {
            let at = i - front.len();
            assert(text[i] == rest[at]);
            if rest[at] == '<' {
                lemma_begins_behind(tags(), front, rest, at);
            } else if rest[at] == '>' {
                lemma_ends_behind(tags(), front, rest, at);
            } else if rest[at] == '&' {
                lemma_begins_behind(entities(), front, rest, at);
            }
        }
    }
}

/// Whether a word opens with `<`, closes with `>` and holds neither between,
/// nor any other character of markup.
spec fn tag_shaped(word: Seq<char>) -> bool {
    &&& word.len() >= 2
    &&& word.first() == '<'
    &&& word.last() == '>'
    &&& forall|i: int|
        0 < i < word.len() - 1 ==> {
            &&& #[trigger] word[i] != '<'
            &&& word[i] != '>'
            &&& word[i] != '&'
            &&& word[i] != '"'
            &&& word[i] != '\''
            &&& word[i] != '\0'
        }
}

proof fn lemma_tags_are_shaped()
    ensures
        forall|k: int| 0 <= k < tags().len() ==> tag_shaped(#[trigger] tags()[k]),
{
    reveal_strlit("<html>");
    reveal_strlit("<body>");
    reveal_strlit("<h1>");
    reveal_strlit("</h1>");
    reveal_strlit("<p>");
    reveal_strlit("</p>");
    reveal_strlit("<strong>");
    reveal_strlit("</strong>");
    reveal_strlit("</body>");
    reveal_strlit("</html>");
}

/// A tag holds only known markup.
proof fn lemma_tag_known(k: int)
    requires
        0 <= k < tags().len(),
    ensures
        only_known_markup(tags()[k]),
{
    lemma_tags_are_shaped();
    let word = tags()[k];
    assert(tag_shaped(word));
    assert(word.subrange(0, word.len() as int) =~= word);
    assert(stands_at(tags()[k], word, 0));
    assert(one_begins(tags(), word, 0));
    assert(stands_at(tags()[k], word, word.len() - 1 + 1 - tags()[k].len()));
    assert(one_ends(tags(), word, word.len() - 1));
    assert forall|i: int| 0 <= i < word.len() implies {
        &&& #[trigger] word[i] == '<' ==> one_begins(tags(), word, i)
        &&& word[i] == '>' ==> one_ends(tags(), word, i)
        &&& word[i] == '&' ==> one_begins(entities(), word, i)
        &&& word[i] != '"'
        &&& word[i] != '\''
        &&& word[i] != '\0'
    } by {
        if i == 0 {
            assert(word[i] == word.first());
        } else if i == word.len() - 1 {
            assert(word[i] == word.last());
        }
    }
}

/// An entity holds only known markup.
proof fn lemma_entity_known(k: int)
    requires
        0 <= k < entities().len(),
    ensures
        only_known_markup(entities()[k]),
{
    reveal_strlit("&amp;");
    reveal_strlit("&lt;");
    reveal_strlit("&gt;");
    reveal_strlit("&quot;");
    reveal_strlit("&#39;");
    let word = entities()[k];
    assert(word.subrange(0, word.len() as int) =~= word);
    assert(stands_at(entities()[k], word, 0));
    assert(one_begins(entities(), word, 0));
}

proof fn lemma_escaped_char_known(c: char)
    ensures
        only_known_markup(escaped_char(c)),
{
    let words = entities();
    assert(words[0] == "&amp;"@ && words[1] == "&lt;"@ && words[2] == "&gt;"@ && words[3]
        == "&quot;"@ && words[4] == "&#39;"@);
    if c == '&' {
        lemma_entity_known(0);
    } else if c == '<' {
        lemma_entity_known(1);
    } else if c == '>' {
        lemma_entity_known(2);
    } else if c == '"' {
        lemma_entity_known(3);
    } else if c == '\'' {
        lemma_entity_known(4);
    } else {
        reveal_strlit(" ");
    }
}

/// Escaped text holds entities and no tag.
proof fn lemma_escaped_known(text: Seq<char>)
    ensures
        only_known_markup(escaped(text)),
    decreases text.len(),
{
    if text.len() > 0 {
        lemma_escaped_known(text.drop_last());
        lemma_escaped_char_known(text.last());
        lemma_known_markup_adds(escaped(text.drop_last()), escaped_char(text.last()));
    }
}

proof fn lemma_tag_places()
    ensures
        tags().len() == 10,
        tags()[0] == "<html>"@,
        tags()[1] == "<body>"@,
        tags()[2] == "<h1>"@,
        tags()[3] == "</h1>"@,
        tags()[4] == "<p>"@,
        tags()[5] == "</p>"@,
        tags()[6] == "<strong>"@,
        tags()[7] == "</strong>"@,
        tags()[8] == "</body>"@,
        tags()[9] == "</html>"@,
{
}

proof fn lemma_opening_known()
    ensures
        only_known_markup(OPENING@),
{
    lemma_tag_places();
    lemma_tag_known(0);
    lemma_tag_known(1);
    lemma_known_markup_adds("<html>"@, "<body>"@);
    reveal_strlit("<html>");
    reveal_strlit("<body>");
    reveal_strlit("<html><body>");
    assert(OPENING@ =~= "<html>"@ + "<body>"@);
}

proof fn lemma_closing_known()
    ensures
        only_known_markup(CLOSING@),
{
    lemma_tag_places();
    lemma_tag_known(8);
    lemma_tag_known(9);
    lemma_known_markup_adds("</body>"@, "</html>"@);
    reveal_strlit("</body>");
    reveal_strlit("</html>");
    reveal_strlit("</body></html>");
    assert(CLOSING@ =~= "</body>"@ + "</html>"@);
}

/// The words of the notice, without its tags.
spec fn notice_words() -> Seq<char> {
    "Text truncated. The Zotero index or this reader did not contain the complete document."@
}

proof fn lemma_notice_words_known()
    ensures
        only_known_markup(notice_words()),
{
    reveal_strlit(
        "Text truncated. The Zotero index or this reader did not contain the complete document.",
    );
}

proof fn lemma_notice_parts()
    ensures
        NOTICE@ == "<p>"@ + ("<strong>"@ + (notice_words() + ("</strong>"@ + "</p>"@))),
{
    reveal_strlit("<p>");
    reveal_strlit("<strong>");
    reveal_strlit(
        "Text truncated. The Zotero index or this reader did not contain the complete document.",
    );
    reveal_strlit("</strong>");
    reveal_strlit("</p>");
    reveal_strlit(
        "<p><strong>Text truncated. The Zotero index or this reader did not contain the complete document.</strong></p>",
    );
    assert(NOTICE@ =~= "<p>"@ + ("<strong>"@ + (notice_words() + ("</strong>"@ + "</p>"@))));
}

proof fn lemma_notice_known()
    ensures
        only_known_markup(NOTICE@),
{
    lemma_tag_places();
    lemma_tag_known(4);
    lemma_tag_known(5);
    lemma_tag_known(6);
    lemma_tag_known(7);
    lemma_notice_words_known();
    lemma_known_markup_adds("</strong>"@, "</p>"@);
    lemma_known_markup_adds(notice_words(), "</strong>"@ + "</p>"@);
    lemma_known_markup_adds("<strong>"@, notice_words() + ("</strong>"@ + "</p>"@));
    lemma_known_markup_adds("<p>"@, "<strong>"@ + (notice_words() + ("</strong>"@ + "</p>"@)));
    lemma_notice_parts();
}

proof fn lemma_block_known(block: Seq<char>)
    ensures
        only_known_markup(html_block(block)),
{
    lemma_tag_places();
    lemma_tag_known(4);
    lemma_tag_known(5);
    lemma_escaped_known(block);
    lemma_known_markup_adds("<p>"@, escaped(block));
    lemma_known_markup_adds("<p>"@ + escaped(block), "</p>"@);
}

proof fn lemma_start_known(title: Seq<char>, maximum: nat)
    ensures
        only_known_markup(html_start(title, maximum)),
{
    lemma_opening_known();
    lemma_tag_places();
    lemma_tag_known(2);
    lemma_tag_known(3);
    lemma_escaped_known(title);
    lemma_known_markup_adds("<h1>"@, escaped(title));
    lemma_known_markup_adds("<h1>"@ + escaped(title), "</h1>"@);
    lemma_known_markup_adds(OPENING@, html_heading(title));
}

proof fn lemma_blocks_known(blocks: Seq<Seq<char>>)
    ensures
        only_known_markup(html_blocks(blocks)),
    decreases blocks.len(),
{
    if blocks.len() > 0 {
        lemma_blocks_known(blocks.drop_last());
        lemma_block_known(blocks.last());
        lemma_known_markup_adds(html_blocks(blocks.drop_last()), html_block(blocks.last()));
    }
}

/// Whatever the title and the content hold, a document holds no markup but the
/// library's tags and the entities of escaped text: every `<` of the whole
/// document begins a tag, every `>` ends one and every `&` begins an entity.
pub proof fn law_documents_hold_only_known_markup(
    root: &Value,
    title: Seq<char>,
    content: Seq<char>,
    maximum: nat,
)
    ensures
        only_known_markup(html_document(root, title, content, maximum)),
{
    let start = html_start(title, maximum);
    let blocks = blocks_in(content);
    let kept = blocks.take(fitting(start, blocks, maximum) as int);
    let body = start + html_blocks(kept);
    lemma_start_known(title, maximum);
    lemma_blocks_known(kept);
    lemma_known_markup_adds(start, html_blocks(kept));
    lemma_closing_known();
    if cut_short(root, title, content, maximum) {
        lemma_notice_known();
        lemma_known_markup_adds(body, NOTICE@);
        lemma_known_markup_adds(body + NOTICE@, CLOSING@);
    } else {
        lemma_known_markup_adds(body, CLOSING@);
    }
}

/// The bytes of a document that indexed text makes hold no other markup
/// either.
pub proof fn law_indexed_text_brings_no_markup(root: &Value, title: Seq<char>, maximum: nat)
    ensures
        fulltext_in(root, title, maximum) matches Some(document) ==> only_known_markup(
            decode_utf8(document.html),
        ),
{
    if let Some(content) = raw_text(root.field("content"@)) {
        if roomy(maximum) {
            law_documents_hold_only_known_markup(root, title, content, maximum);
            law_utf8_round_trip(html_document(root, title, content, maximum));
        }
    }
}

} // verus!

//! What the blocks of a plain text keep of it: everything but white space, in
//! order, on single lines, and each block within one paragraph.
use vstd::prelude::*;

use crate::fulltext::{
    blocks_in, blocks_of, chunks, law_chunks_lose_nothing, on_one_line, paragraphs, trimming,
    TEXT_BLOCK_CHARS,
};
use crate::text::{
    chomped, chomping, is_blank, is_filled, join, lemma_pieces_some, lines_of, pieces, trimmed,
    trimmed_end, trimmed_start, Mark,
};

verus! {

pub open spec fn is_solid() -> spec_fn(char) -> bool {
    |c: char| !is_blank(c)
}

/// The characters of a text that are not white space, in order.
pub open spec fn solid(text: Seq<char>) -> Seq<char> {
    text.filter(is_solid())
}

/// The characters of all the parts that are not white space, in order.
pub open spec fn solid_parts(parts: Seq<Seq<char>>) -> Seq<char>
    decreases parts.len(),
{
    if parts.len() == 0 {
        Seq::empty()
    } else {
        solid_parts(parts.drop_last()) + solid(parts.last())
    }
}

/// Whether a text holds no line feed.
pub open spec fn single_line(text: Seq<char>) -> bool {
    !text.contains('\n')
}

/// Whether two line feeds stand side by side in a text.
pub open spec fn holds_blank_line(text: Seq<char>) -> bool {
    exists|i: int| 0 <= i < text.len() - 1 && #[trigger] text[i] == '\n' && text[i + 1] == '\n'
}

proof fn lemma_solid_nothing()
    ensures
        solid(Seq::empty()) == Seq::<char>::empty(),
{
    reveal(Seq::filter);
}

proof fn lemma_solid_adds(front: Seq<char>, rest: Seq<char>)
    ensures
        solid(front + rest) == solid(front) + solid(rest),
{
    Seq::filter_distributes_over_add(front, rest, is_solid());
}

proof fn lemma_solid_blank(c: char)
    requires
        is_blank(c),
    ensures
        solid(seq![c]) == Seq::<char>::empty(),
{
    reveal(Seq::filter);
    assert(seq![c].drop_last() =~= Seq::<char>::empty());
    lemma_solid_nothing();
    assert(!is_solid()(c));
}

/// White space at the end of a text adds nothing solid.
proof fn lemma_solid_drop_last(text: Seq<char>)
    requires
        text.len() > 0,
        is_blank(text.last()),
    ensures
        solid(text.drop_last()) == solid(text),
{
    assert(text =~= text.drop_last() + seq![text.last()]);
    lemma_solid_adds(text.drop_last(), seq![text.last()]);
    lemma_solid_blank(text.last());
    assert(solid(text) =~= solid(text.drop_last()));
}

proof fn lemma_solid_drop_first(text: Seq<char>)
    requires
        text.len() > 0,
        is_blank(text.first()),
    ensures
        solid(text.drop_first()) == solid(text),
{
    assert(text =~= seq![text.first()] + text.drop_first());
    lemma_solid_adds(seq![text.first()], text.drop_first());
    lemma_solid_blank(text.first());
    assert(solid(text) =~= solid(text.drop_first()));
}

proof fn lemma_solid_trimmed_start(text: Seq<char>)
    ensures
        solid(trimmed_start(text)) == solid(text),
    decreases text.len(),
{
    if text.len() > 0 && is_blank(text.first()) {
        lemma_solid_drop_first(text);
        lemma_solid_trimmed_start(text.drop_first());
    }
}

proof fn lemma_solid_trimmed_end(text: Seq<char>)
    ensures
        solid(trimmed_end(text)) == solid(text),
    decreases text.len(),
{
    if text.len() > 0 && is_blank(text.last()) {
        lemma_solid_drop_last(text);
        lemma_solid_trimmed_end(text.drop_last());
    }
}

proof fn lemma_solid_trimmed(text: Seq<char>)
    ensures
        solid(trimmed(text)) == solid(text),
{
    lemma_solid_trimmed_start(text);
    lemma_solid_trimmed_end(trimmed_start(text));
}

proof fn lemma_solid_chomped(line: Seq<char>)
    ensures
        solid(chomped(line)) == solid(line),
{
    if line.len() > 0 && line.last() == '\r' {
        lemma_solid_drop_last(line);
    }
}

proof fn lemma_solid_parts_push(parts: Seq<Seq<char>>, last: Seq<char>)
    ensures
        solid_parts(parts.push(last)) == solid_parts(parts) + solid(last),
{
    assert(parts.push(last).drop_last() =~= parts);
}

proof fn lemma_solid_parts_add(front: Seq<Seq<char>>, rest: Seq<Seq<char>>)
    ensures
        solid_parts(front + rest) == solid_parts(front) + solid_parts(rest),
    decreases rest.len(),
{
    if rest.len() == 0 {
        assert(front + rest =~= front);
        assert(solid_parts(front) + solid_parts(rest) =~= solid_parts(front));
    } else {
        lemma_solid_parts_add(front, rest.drop_last());
        assert((front + rest).drop_last() =~= front + rest.drop_last());
        assert(solid_parts(front + rest) =~= solid_parts(front) + solid_parts(rest));
    }
}

/// The solid characters of the parts are those of the parts in a row.
proof fn lemma_solid_flatten(parts: Seq<Seq<char>>)
    ensures
        solid(parts.flatten()) == solid_parts(parts),
    decreases parts.len(),
{
    if parts.len() == 0 {
        lemma_solid_nothing();
    } else {
        parts.lemma_flatten_and_flatten_alt_are_equivalent();
        parts.drop_last().lemma_flatten_and_flatten_alt_are_equivalent();
        lemma_solid_flatten(parts.drop_last());
        lemma_solid_adds(parts.drop_last().flatten(), parts.last());
    }
}

/// White space between parts adds nothing solid.
proof fn lemma_solid_join(parts: Seq<Seq<char>>, between: Seq<char>)
    requires
        solid(between) == Seq::<char>::empty(),
    ensures
        solid(join(parts, between)) == solid_parts(parts),
    decreases parts.len(),
{
    if parts.len() == 0 {
        lemma_solid_nothing();
    } else if parts.len() == 1 {
        assert(parts =~= Seq::<Seq<char>>::empty().push(parts[0]));
        lemma_solid_parts_push(Seq::empty(), parts[0]);
        assert(solid_parts(parts) =~= solid(parts[0]));
    } else {
        let front = join(parts.drop_last(), between);
        lemma_solid_join(parts.drop_last(), between);
        lemma_solid_adds(front, between);
        lemma_solid_adds(front + between, parts.last());
        assert(solid(join(parts, between)) =~= solid_parts(parts));
    }
}

/// Dividing a text at line feeds loses nothing solid.
proof fn lemma_solid_pieces(text: Seq<char>)
    ensures
        solid_parts(pieces(text, Mark::At('\n'))) == solid(text),
    decreases text.len(),
{
    let mark = Mark::At('\n');
    if text.len() == 0 {
        lemma_solid_nothing();
        lemma_solid_parts_push(Seq::empty(), Seq::empty());
        assert(pieces(text, mark) =~= Seq::<Seq<char>>::empty().push(Seq::<char>::empty()));
        assert(text =~= Seq::<char>::empty());
    } else {
        let before = pieces(text.drop_last(), mark);
        lemma_pieces_some(text.drop_last(), mark);
        lemma_solid_pieces(text.drop_last());
        if text.last() == '\n' {
            lemma_solid_drop_last(text);
            lemma_solid_nothing();
            lemma_solid_parts_push(before, Seq::empty());
            assert(solid_parts(pieces(text, mark)) =~= solid(text));
        } else {
            lemma_solid_parts_push(before.drop_last(), before.last().push(text.last()));
            assert(before.last().push(text.last()) =~= before.last() + seq![text.last()]);
            lemma_solid_adds(before.last(), seq![text.last()]);
            assert(text =~= text.drop_last() + seq![text.last()]);
            lemma_solid_adds(text.drop_last(), seq![text.last()]);
            assert(solid_parts(pieces(text, mark)) =~= solid(text));
        }
    }
}

/// What changes no part's solid characters changes none of all.
proof fn lemma_solid_parts_map(parts: Seq<Seq<char>>, change: spec_fn(Seq<char>) -> Seq<char>)
    requires
        forall|part: Seq<char>| solid(#[trigger] change(part)) == solid(part),
    ensures
        solid_parts(parts.map_values(change)) == solid_parts(parts),
    decreases parts.len(),
{
    if parts.len() > 0 {
        lemma_solid_parts_map(parts.drop_last(), change);
        assert(parts.map_values(change).drop_last() =~= parts.drop_last().map_values(change));
        assert(parts.map_values(change).last() == change(parts.last()));
    }
}

/// Empty parts hold nothing solid.
proof fn lemma_solid_parts_filled(parts: Seq<Seq<char>>)
    ensures
        solid_parts(parts.filter(is_filled())) == solid_parts(parts),
    decreases parts.len(),
{
    reveal(Seq::filter);
    if parts.len() > 0 {
        let front = parts.drop_last();
        lemma_solid_parts_filled(front);
        if parts.last().len() > 0 {
            lemma_solid_parts_push(front.filter(is_filled()), parts.last());
        } else {
            assert(parts.last() =~= Seq::<char>::empty());
            lemma_solid_nothing();
            assert(solid_parts(parts) =~= solid_parts(front));
        }
    }
}

proof fn lemma_solid_lines(text: Seq<char>)
    ensures
        solid_parts(lines_of(text)) == solid(text),
{
    let parts = pieces(text, Mark::At('\n'));
    let ended = parts.drop_last().map_values(chomping());
    lemma_pieces_some(text, Mark::At('\n'));
    lemma_solid_pieces(text);
    assert forall|line: Seq<char>| solid(#[trigger] chomping()(line)) == solid(line) by {
        lemma_solid_chomped(line);
    }
    lemma_solid_parts_map(parts.drop_last(), chomping());
    if parts.last().len() == 0 {
        assert(parts.last() =~= Seq::<char>::empty());
        lemma_solid_nothing();
        assert(solid_parts(parts) =~= solid_parts(parts.drop_last()));
    } else {
        lemma_solid_parts_push(ended, parts.last());
    }
}

/// A paragraph on one line keeps all that is solid.
proof fn lemma_solid_on_one_line(paragraph: Seq<char>)
    ensures
        solid(on_one_line(paragraph)) == solid(paragraph),
{
    let all = lines_of(paragraph);
    let bare = all.map_values(trimming());
    lemma_solid_lines(paragraph);
    assert forall|line: Seq<char>| solid(#[trigger] trimming()(line)) == solid(line) by {
        lemma_solid_trimmed(line);
    }
    lemma_solid_parts_map(all, trimming());
    lemma_solid_parts_filled(bare);
    reveal_strlit(" ");
    assert(" "@ =~= seq![' ']);
    lemma_solid_blank(' ');
    lemma_solid_join(bare.filter(is_filled()), " "@);
}

proof fn lemma_solid_blocks(parts: Seq<Seq<char>>)
    ensures
        solid_parts(blocks_of(parts)) == solid_parts(parts),
    decreases parts.len(),
{
    if parts.len() > 0 {
        let line = on_one_line(parts.last());
        lemma_solid_blocks(parts.drop_last());
        lemma_solid_on_one_line(parts.last());
        law_chunks_lose_nothing(line);
        lemma_solid_flatten(chunks(line));
        lemma_solid_parts_add(blocks_of(parts.drop_last()), chunks(line));
    }
}

/// A longer last part makes the joined text longer at its end.
proof fn lemma_join_longer(front: Seq<Seq<char>>, last: Seq<char>, more: Seq<char>, between: Seq<char>)
    ensures
        join(front.push(last + more), between) == join(front.push(last), between) + more,
{
    assert(front.push(last + more).drop_last() =~= front);
    assert(front.push(last).drop_last() =~= front);
    if front.len() > 0 {
        assert(join(front, between) + between + (last + more) =~= join(front, between) + between
            + last + more);
    }
}

/// The paragraphs of a text with a blank line between each two are the text,
/// and no paragraph holds a blank line.
pub proof fn law_paragraphs_part_at_blank_lines(text: Seq<char>)
    ensures
        join(paragraphs(text), seq!['\n', '\n']) == text,
        forall|i: int|
            0 <= i < paragraphs(text).len() ==> !holds_blank_line(#[trigger] paragraphs(text)[i]),
        paragraphs(text).len() >= 1,
    decreases text.len(),
{
    let gap = seq!['\n', '\n'];
    if text.len() == 0 {
        assert(text =~= Seq::<char>::empty());
    } else {
        let before = paragraphs(text.drop_last());
        let front = before.drop_last();
        let current = before.last();
        law_paragraphs_part_at_blank_lines(text.drop_last());
        assert(before =~= front.push(current));
        assert(text =~= text.drop_last() + seq![text.last()]);
        assert(current == before[before.len() - 1]);
        assert(!holds_blank_line(current));
        if text.last() == '\n' && current.len() > 0 && current.last() == '\n' {
            let ended = current.drop_last();
            let parts = front.push(ended).push(Seq::<char>::empty());
            assert(current =~= ended + seq!['\n']);
            lemma_join_longer(front, ended, seq!['\n'], gap);
            assert(parts.drop_last() =~= front.push(ended));
            assert(join(parts, gap) =~= join(front.push(ended), gap) + seq!['\n'] + seq!['\n']);
            assert forall|i: int| 0 <= i < parts.len() implies !holds_blank_line(
                #[trigger] parts[i],
            ) by {
                if i < front.len() {
                    assert(parts[i] == before[i]);
                } else if i == front.len() {
                    assert forall|j: int|
                        0 <= j < ended.len() - 1 && #[trigger] ended[j] == '\n' implies ended[j + 1]
                        != '\n' by {
                        assert(ended[j] == current[j]);
                        assert(ended[j + 1] == current[j + 1]);
                    }
                }
            }
        } else {
            let longer = current.push(text.last());
            let parts = front.push(longer);
            assert(longer =~= current + seq![text.last()]);
            lemma_join_longer(front, current, seq![text.last()], gap);
            assert forall|i: int| 0 <= i < parts.len() implies !holds_blank_line(
                #[trigger] parts[i],
            ) by {
                if i < front.len() {
                    assert(parts[i] == before[i]);
                } else {
                    assert forall|j: int|
                        0 <= j < longer.len() - 1 && #[trigger] longer[j] == '\n' implies longer[j
                        + 1] != '\n' by {
                        assert(longer[j] == current[j]);
                        if j + 1 < current.len() {
                            assert(longer[j + 1] == current[j + 1]);
                        } else {
                            assert(current[j] == current.last());
                        }
                    }
                }
            }
        }
    }
}

/// The blocks of a plain text lose nothing of it but white space: the other
/// characters of all the blocks, in order, are those of the text.
pub proof fn law_blocks_lose_nothing(content: Seq<char>)
    ensures
        solid(blocks_in(content).flatten()) == solid(content),
{
    let parts = paragraphs(content);
    lemma_solid_flatten(blocks_in(content));
    lemma_solid_blocks(parts);
    law_paragraphs_part_at_blank_lines(content);
    lemma_solid_blank('\n');
    assert(seq!['\n', '\n'] =~= seq!['\n'] + seq!['\n']);
    lemma_solid_adds(seq!['\n'], seq!['\n']);
    assert(solid(seq!['\n', '\n']) =~= Seq::<char>::empty());
    lemma_solid_join(parts, seq!['\n', '\n']);
}

/// Taking white space off its ends brings no line feed into a text.
proof fn lemma_trimmed_start_within(text: Seq<char>)
    requires
        single_line(text),
    ensures
        single_line(trimmed_start(text)),
    decreases text.len(),
{
    if text.len() > 0 && is_blank(text.first()) {
        assert(forall|i: int| 0 <= i < text.drop_first().len() ==> #[trigger] text.drop_first()[i]
            == text[i + 1]);
        lemma_trimmed_start_within(text.drop_first());
    }
}

proof fn lemma_trimmed_end_within(text: Seq<char>)
    requires
        single_line(text),
    ensures
        single_line(trimmed_end(text)),
    decreases text.len(),
{
    if text.len() > 0 && is_blank(text.last()) {
        assert(forall|i: int| 0 <= i < text.drop_last().len() ==> #[trigger] text.drop_last()[i]
            == text[i]);
        lemma_trimmed_end_within(text.drop_last());
    }
}

proof fn lemma_single_line_adds(front: Seq<char>, rest: Seq<char>)
    requires
        single_line(front),
        single_line(rest),
    ensures
        single_line(front + rest),
{
    assert forall|i: int| 0 <= i < (front + rest).len() implies #[trigger] (front + rest)[i]
        != '\n' by {
        if i < front.len() {
            assert((front + rest)[i] == front[i]);
            assert(front.contains(front[i]));
        } else {
            assert((front + rest)[i] == rest[i - front.len()]);
            assert(rest.contains(rest[i - front.len()]));
        }
    }
}

proof fn lemma_single_line_part(text: Seq<char>, from: int, to: int)
    requires
        single_line(text),
        0 <= from <= to <= text.len(),
    ensures
        single_line(text.subrange(from, to)),
{
    assert(forall|i: int| 0 <= i < to - from ==> #[trigger] text.subrange(from, to)[i] == text[from
        + i]);
}

/// No piece between line feeds holds one.
proof fn lemma_pieces_single_line(text: Seq<char>)
    ensures
        forall|i: int|
            0 <= i < pieces(text, Mark::At('\n')).len() ==> single_line(
                #[trigger] pieces(text, Mark::At('\n'))[i],
            ),
    decreases text.len(),
{
    let mark = Mark::At('\n');
    if text.len() > 0 {
        let before = pieces(text.drop_last(), mark);
        let parts = pieces(text, mark);
        lemma_pieces_some(text.drop_last(), mark);
        lemma_pieces_single_line(text.drop_last());
        assert forall|i: int| 0 <= i < parts.len() implies single_line(#[trigger] parts[i]) by {
            if i < before.len() - 1 {
                assert(parts[i] == before[i]);
            } else if i == before.len() - 1 {
                if text.last() == '\n' {
                    assert(parts[i] == before[i]);
                } else {
                    assert(single_line(before[i]));
                    lemma_single_line_adds(before[i], seq![text.last()]);
                    assert(parts[i] =~= before[i] + seq![text.last()]);
                }
            }
        }
    }
}

proof fn lemma_lines_single_line(text: Seq<char>)
    ensures
        forall|i: int| 0 <= i < lines_of(text).len() ==> single_line(#[trigger] lines_of(text)[i]),
{
    let parts = pieces(text, Mark::At('\n'));
    lemma_pieces_some(text, Mark::At('\n'));
    lemma_pieces_single_line(text);
    assert forall|i: int| 0 <= i < lines_of(text).len() implies single_line(
        #[trigger] lines_of(text)[i],
    ) by {
        assert(single_line(parts[i]));
        if i < parts.len() - 1 && parts[i].len() > 0 && parts[i].last() == '\r' {
            lemma_single_line_part(parts[i], 0, parts[i].len() - 1);
            assert(lines_of(text)[i] =~= parts[i].subrange(0, parts[i].len() - 1));
        }
    }
}

proof fn lemma_join_single_line(parts: Seq<Seq<char>>)
    requires
        forall|i: int| 0 <= i < parts.len() ==> single_line(#[trigger] parts[i]),
    ensures
        single_line(join(parts, " "@)),
    decreases parts.len(),
{
    if parts.len() > 1 {
        let front = parts.drop_last();
        assert forall|i: int| 0 <= i < front.len() implies single_line(#[trigger] front[i]) by {
            assert(front[i] == parts[i]);
        }
        lemma_join_single_line(front);
        reveal_strlit(" ");
        assert(single_line(" "@));
        assert(single_line(parts[parts.len() - 1]));
        lemma_single_line_adds(join(front, " "@), " "@);
        lemma_single_line_adds(join(front, " "@) + " "@, parts.last());
    }
}

proof fn lemma_on_one_line_single(paragraph: Seq<char>)
    ensures
        single_line(on_one_line(paragraph)),
{
    let all = lines_of(paragraph);
    let bare = all.map_values(trimming());
    let kept = bare.filter(is_filled());
    lemma_lines_single_line(paragraph);
    assert forall|i: int| 0 <= i < kept.len() implies single_line(#[trigger] kept[i]) by {
        bare.lemma_filter_contains_rev(is_filled(), kept[i]);
        let j = choose|j: int| 0 <= j < bare.len() && bare[j] == kept[i];
        assert(single_line(all[j]));
        lemma_trimmed_start_within(all[j]);
        lemma_trimmed_end_within(trimmed_start(all[j]));
        assert(bare[j] == trimmed(all[j]));
    }
    lemma_join_single_line(kept);
}

proof fn lemma_chunks_single_line(line: Seq<char>)
    requires
        single_line(line),
    ensures
        forall|i: int| 0 <= i < chunks(line).len() ==> single_line(#[trigger] chunks(line)[i]),
    decreases line.len(),
{
    if line.len() > TEXT_BLOCK_CHARS {
        let rest = line.skip(TEXT_BLOCK_CHARS as int);
        lemma_single_line_part(line, 0, TEXT_BLOCK_CHARS as int);
        lemma_single_line_part(line, TEXT_BLOCK_CHARS as int, line.len() as int);
        lemma_chunks_single_line(rest);
        assert forall|i: int| 0 <= i < chunks(line).len() implies single_line(
            #[trigger] chunks(line)[i],
        ) by {
            if i > 0 {
                assert(chunks(line)[i] == chunks(rest)[i - 1]);
            }
        }
    }
}

/// Whether a block comes from one of the paragraphs.
pub open spec fn comes_from_one(block: Seq<char>, parts: Seq<Seq<char>>) -> bool {
    exists|k: int| 0 <= k < parts.len() && chunks(on_one_line(#[trigger] parts[k])).contains(block)
}

proof fn lemma_blocks_come_from_one(parts: Seq<Seq<char>>)
    ensures
        forall|i: int|
            0 <= i < blocks_of(parts).len() ==> comes_from_one(
                #[trigger] blocks_of(parts)[i],
                parts,
            ),
    decreases parts.len(),
{
    if parts.len() > 0 {
        let before = parts.drop_last();
        let front = blocks_of(before);
        let last = chunks(on_one_line(parts.last()));
        lemma_blocks_come_from_one(before);
        assert forall|i: int| 0 <= i < blocks_of(parts).len() implies comes_from_one(
            #[trigger] blocks_of(parts)[i],
            parts,
        ) by {
            if i < front.len() {
                let block = front[i];
                assert(blocks_of(parts)[i] == block);
                assert(comes_from_one(block, before));
                let k = choose|k: int|
                    0 <= k < before.len() && chunks(on_one_line(#[trigger] before[k])).contains(
                        block,
                    );
                assert(parts[k] == before[k]);
            } else {
                assert(blocks_of(parts)[i] == last[i - front.len()]);
                assert(last.contains(last[i - front.len()]));
                assert(parts[parts.len() - 1] == parts.last());
            }
        }
    }
}

/// No block crosses a blank line: each is cut from one paragraph.
pub proof fn law_blocks_stay_in_paragraphs(content: Seq<char>)
    ensures
        forall|i: int|
            0 <= i < blocks_in(content).len() ==> comes_from_one(
                #[trigger] blocks_in(content)[i],
                paragraphs(content),
            ),
{
    lemma_blocks_come_from_one(paragraphs(content));
}

/// No block of a plain text holds a line feed.
pub proof fn law_blocks_are_single_lines(content: Seq<char>)
    ensures
        forall|i: int|
            0 <= i < blocks_in(content).len() ==> single_line(#[trigger] blocks_in(content)[i]),
{
    let parts = paragraphs(content);
    law_blocks_stay_in_paragraphs(content);
    assert forall|i: int| 0 <= i < blocks_in(content).len() implies single_line(
        #[trigger] blocks_in(content)[i],
    ) by {
        let block = blocks_in(content)[i];
        assert(comes_from_one(block, parts));
        let k = choose|k: int|
            0 <= k < parts.len() && chunks(on_one_line(#[trigger] parts[k])).contains(block);
        lemma_on_one_line_single(parts[k]);
        lemma_chunks_single_line(on_one_line(parts[k]));
    }
}

} // verus!

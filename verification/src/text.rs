//! Text as sequences of characters: splitting, trimming, joining, searching
//! and cleaning, each with the mathematical function it computes.
use vstd::prelude::*;
use vstd::string::*;

verus! {

/// `String::push` appends one character at the end of the string.
pub assume_specification[ std::string::String::push ](string: &mut std::string::String, letter: char)
    ensures
        final(string)@ == old(string)@.push(letter),
;

/// The views of the items of a sequence.
pub open spec fn seen<T: View>(items: Seq<T>) -> Seq<T::V> {
    items.map_values(|item: T| item@)
}

/// The view of an optional item.
pub open spec fn maybe<T: View>(item: Option<T>) -> Option<T::V> {
    match item {
        Some(inner) => Some(inner@),
        None => None,
    }
}

/// The characters of `text`, in order.
pub fn chars_of(text: &str) -> (chars: Vec<char>)
    ensures
        chars@ == text@,
{
    let mut chars: Vec<char> = Vec::new();
    for c in it: text.chars()
        invariant
            chars@ == it.seq().take(it.index()),
            it.seq() == text@,
    {
        chars.push(c);
    }
    chars
}

/// The string made of `chars`.
pub fn text_of(chars: &Vec<char>) -> (text: String)
    ensures
        text@ == chars@,
{
    let mut text = String::new();
    for i in 0..chars.len()
        invariant
            text@ == chars@.take(i as int),
    {
        text.push(chars[i]);
    }
    text
}

/// Whether two texts hold the same characters.
pub fn same_text(left: &str, right: &str) -> (same: bool)
    ensures
        same == (left@ == right@),
{
    left.to_owned() == right.to_owned()
}

/// Whether the texts hold `wanted`.
pub fn holds_text(texts: &Vec<String>, wanted: &str) -> (found: bool)
    ensures
        found == seen(texts@).contains(wanted@),
{
    for i in 0..texts.len()
        invariant
            forall|j: int| 0 <= j < i ==> seen(texts@)[j] != wanted@,
    {
        if same_text(&texts[i], wanted) {
            assert(seen(texts@)[i as int] == wanted@);
            return true;
        }
    }
    false
}

/// `left` followed by `right`.
pub fn joined_pair(left: &str, right: &str) -> (text: String)
    ensures
        text@ == left@ + right@,
{
    let mut text = left.to_owned();
    text.append(right);
    text
}

/// The characters with Unicode's `White_Space` property.
pub open spec fn is_blank(c: char) -> bool {
    let code = c as u32;
    ||| 0x9 <= code <= 0xD
    ||| code == 0x20
    ||| code == 0x85
    ||| code == 0xA0
    ||| code == 0x1680
    ||| 0x2000 <= code <= 0x200A
    ||| 0x2028 <= code <= 0x2029
    ||| code == 0x202F
    ||| code == 0x205F
    ||| code == 0x3000
}

/// Whether `c` is white space.
pub fn blank(c: char) -> (found: bool)
    ensures
        found == is_blank(c),
{
    let code: u32 = c as u32;
    (0x9 <= code && code <= 0xD) || code == 0x20 || code == 0x85 || code == 0xA0 || code == 0x1680
        || (0x2000 <= code && code <= 0x200A) || (0x2028 <= code && code <= 0x2029) || code
        == 0x202F || code == 0x205F || code == 0x3000
}

pub open spec fn is_digit(c: char) -> bool {
    '0' <= c <= '9'
}

/// ASCII letters and digits.
pub open spec fn is_alphanumeric(c: char) -> bool {
    is_digit(c) || 'a' <= c <= 'z' || 'A' <= c <= 'Z'
}

/// Whether `c` is an ASCII digit.
pub fn digit(c: char) -> (found: bool)
    ensures
        found == is_digit(c),
{
    '0' <= c && c <= '9'
}

/// Whether `c` is an ASCII letter or digit.
pub fn alphanumeric(c: char) -> (found: bool)
    ensures
        found == is_alphanumeric(c),
{
    digit(c) || ('a' <= c && c <= 'z') || ('A' <= c && c <= 'Z')
}

/// The first `maximum` items, or all of them if there are fewer.
pub open spec fn prefix<A>(items: Seq<A>, maximum: nat) -> Seq<A> {
    if items.len() <= maximum {
        items
    } else {
        items.take(maximum as int)
    }
}

/// Where a text is divided.
#[derive(Clone, Copy)]
pub enum Mark {
    /// At one character.
    At(char),
    /// At white space and at NUL.
    Gap,
}

impl Mark {
    pub open spec fn hits(self, c: char) -> bool {
        match self {
            Mark::At(mark) => c == mark,
            Mark::Gap => is_blank(c) || c == '\0',
        }
    }

    fn meets(&self, c: char) -> (found: bool)
        ensures
            found == self.hits(c),
    {
        match self {
            Mark::At(mark) => c == *mark,
            Mark::Gap => blank(c) || c == '\0',
        }
    }
}

/// `text` divided at every character that the mark hits; the pieces may be
/// empty, and there is always at least one.
pub open spec fn pieces(text: Seq<char>, mark: Mark) -> Seq<Seq<char>>
    decreases text.len(),
{
    if text.len() == 0 {
        seq![Seq::<char>::empty()]
    } else {
        let before = pieces(text.drop_last(), mark);
        if mark.hits(text.last()) {
            before.push(Seq::<char>::empty())
        } else {
            before.drop_last().push(before.last().push(text.last()))
        }
    }
}

/// There is always at least one piece.
pub proof fn lemma_pieces_some(text: Seq<char>, mark: Mark)
    ensures
        pieces(text, mark).len() >= 1,
    decreases text.len(),
{
    if text.len() > 0 {
        lemma_pieces_some(text.drop_last(), mark);
    }
}

/// The pieces of `chars` between the characters that the mark hits.
pub fn split(chars: &Vec<char>, mark: Mark) -> (parts: Vec<Vec<char>>)
    ensures
        seen(parts@) == pieces(chars@, mark),
{
    let mut parts: Vec<Vec<char>> = Vec::new();
    let mut current: Vec<char> = Vec::new();
    assert(pieces(chars@.take(0), mark) =~= seen(parts@).push(current@));
    for i in 0..chars.len()
        invariant
            pieces(chars@.take(i as int), mark) == seen(parts@).push(current@),
    {
        proof {
            assert(chars@.take(i + 1).drop_last() =~= chars@.take(i as int));
            lemma_pieces_some(chars@.take(i as int), mark);
        }
        let ghost old_parts = parts@;
        let ghost old_current = current@;
        if mark.meets(chars[i]) {
            parts.push(current);
            current = Vec::new();
            assert(seen(parts@) =~= seen(old_parts).push(old_current));
            assert(pieces(chars@.take(i + 1), mark) =~= seen(parts@).push(current@));
        } else {
            current.push(chars[i]);
            assert(pieces(chars@.take(i + 1), mark) =~= seen(parts@).push(current@));
        }
    }
    assert(chars@.take(chars@.len() as int) =~= chars@);
    let ghost old_parts = parts@;
    let ghost old_current = current@;
    parts.push(current);
    assert(seen(parts@) =~= seen(old_parts).push(old_current));
    parts
}

/// The parts in order with `between` between each two.
pub open spec fn join(parts: Seq<Seq<char>>, between: Seq<char>) -> Seq<char>
    decreases parts.len(),
{
    if parts.len() == 0 {
        Seq::empty()
    } else if parts.len() == 1 {
        parts[0]
    } else {
        join(parts.drop_last(), between) + between + parts.last()
    }
}

/// Joins character sequences.
pub fn join_chars(parts: &Vec<Vec<char>>, between: &str) -> (joined: Vec<char>)
    ensures
        joined@ == join(seen(parts@), between@),
{
    let gap = chars_of(between);
    let mut joined: Vec<char> = Vec::new();
    let ghost all = seen(parts@);
    for i in 0..parts.len()
        invariant
            all == seen(parts@),
            gap@ == between@,
            joined@ == join(all.take(i as int), between@),
    {
        proof {
            assert(all.take(i + 1).drop_last() =~= all.take(i as int));
            assert(all.take(i + 1).last() == parts@[i as int]@);
        }
        if i > 0 {
            joined.extend_from_slice(&gap);
        }
        let ghost before = joined@;
        joined.extend_from_slice(&parts[i]);
        assert(joined@ =~= before + parts@[i as int]@);
        assert(joined@ =~= join(all.take(i + 1), between@));
    }
    assert(all.take(parts@.len() as int) =~= all);
    joined
}

/// Joins strings.
pub fn join_texts(parts: &Vec<String>, between: &str) -> (joined: String)
    ensures
        joined@ == join(seen(parts@), between@),
{
    let mut joined = String::new();
    let ghost all = seen(parts@);
    for i in 0..parts.len()
        invariant
            all == seen(parts@),
            joined@ == join(all.take(i as int), between@),
    {
        proof {
            assert(all.take(i + 1).drop_last() =~= all.take(i as int));
            assert(all.take(i + 1).last() == parts@[i as int]@);
        }
        if i > 0 {
            joined.append(between);
        }
        joined.append(&parts[i]);
        assert(joined@ =~= join(all.take(i + 1), between@));
    }
    assert(all.take(parts@.len() as int) =~= all);
    joined
}

pub open spec fn is_filled() -> spec_fn(Seq<char>) -> bool {
    |part: Seq<char>| part.len() > 0
}

/// The words of a text: its longest runs without white space and NUL.
pub open spec fn words(text: Seq<char>) -> Seq<Seq<char>> {
    pieces(text, Mark::Gap).filter(is_filled())
}

/// One line of at most `maximum` characters: the words of the text with single
/// spaces between them, cut off at the limit.
pub open spec fn cleaned(text: Seq<char>, maximum: nat) -> Seq<char> {
    prefix(join(words(text), " "@), maximum)
}

/// Keeps the parts that are not empty.
pub fn keep_filled(parts: Vec<Vec<char>>) -> (kept: Vec<Vec<char>>)
    ensures
        seen(kept@) == seen(parts@).filter(is_filled()),
{
    let mut kept: Vec<Vec<char>> = Vec::new();
    let ghost all = seen(parts@);
    assert(seen(kept@) =~= all.take(0).filter(is_filled())) by {
        reveal(Seq::filter);
    }
    for i in 0..parts.len()
        invariant
            all == seen(parts@),
            seen(kept@) == all.take(i as int).filter(is_filled()),
    {
        proof {
            reveal(Seq::filter);
            assert(all.take(i + 1).drop_last() =~= all.take(i as int));
        }
        let ghost before = kept@;
        if parts[i].len() > 0 {
            let part = copy_chars(&parts[i], 0, parts[i].len());
            assert(part@ =~= parts@[i as int]@);
            kept.push(part);
            assert(seen(kept@) =~= seen(before).push(part@));
        }
    }
    assert(all.take(parts@.len() as int) =~= all);
    kept
}

/// The characters from `from` up to `to`.
pub fn copy_chars(chars: &Vec<char>, from: usize, to: usize) -> (part: Vec<char>)
    requires
        from <= to <= chars@.len(),
    ensures
        part@ == chars@.subrange(from as int, to as int),
{
    let mut part: Vec<char> = Vec::new();
    for i in from..to
        invariant
            from <= to <= chars@.len(),
            part@ == chars@.subrange(from as int, i as int),
    {
        part.push(chars[i]);
        assert(part@ =~= chars@.subrange(from as int, i + 1));
    }
    part
}

/// The first `maximum` characters of `chars`, as a string.
pub fn text_prefix(chars: &Vec<char>, maximum: usize) -> (text: String)
    ensures
        text@ == prefix(chars@, maximum as nat),
{
    let end: usize = if chars.len() < maximum { chars.len() } else { maximum };
    let part = copy_chars(chars, 0, end);
    assert(part@ =~= prefix(chars@, maximum as nat));
    text_of(&part)
}

/// Reduces `value` to one line of at most `maximum` characters.
pub fn clean(value: &str, maximum: usize) -> (text: String)
    ensures
        text@ == cleaned(value@, maximum as nat),
{
    let filled = keep_filled(split(&chars_of(value), Mark::Gap));
    let joined = join_chars(&filled, " ");
    text_prefix(&joined, maximum)
}

/// `text` with tabs and line ends replaced by spaces.
pub open spec fn flattened(text: Seq<char>) -> Seq<char> {
    text.map_values(|c: char| if c == '\t' || c == '\r' || c == '\n' { ' ' } else { c })
}

/// The first `maximum` characters of `text`, tabs and line ends replaced by
/// spaces.
pub open spec fn compacted(text: Seq<char>, maximum: nat) -> Seq<char> {
    prefix(flattened(text), maximum)
}

/// Keeps a text from leaving its field in a stored record.
pub fn compact(text: &str, maximum: usize) -> (kept: String)
    ensures
        kept@ == compacted(text@, maximum as nat),
{
    let chars = chars_of(text);
    let mut flat: Vec<char> = Vec::new();
    for i in 0..chars.len()
        invariant
            chars@ == text@,
            flat@ == flattened(chars@).take(i as int),
    {
        let c = chars[i];
        if c == '\t' || c == '\r' || c == '\n' {
            flat.push(' ');
        } else {
            flat.push(c);
        }
        assert(flat@ =~= flattened(chars@).take(i + 1));
    }
    assert(flat@ =~= flattened(text@));
    text_prefix(&flat, maximum)
}

/// `text` without the white space at its start.
pub open spec fn trimmed_start(text: Seq<char>) -> Seq<char>
    decreases text.len(),
{
    if text.len() > 0 && is_blank(text.first()) {
        trimmed_start(text.drop_first())
    } else {
        text
    }
}

/// `text` without the white space at its end.
pub open spec fn trimmed_end(text: Seq<char>) -> Seq<char>
    decreases text.len(),
{
    if text.len() > 0 && is_blank(text.last()) {
        trimmed_end(text.drop_last())
    } else {
        text
    }
}

/// `text` without the white space at both ends.
pub open spec fn trimmed(text: Seq<char>) -> Seq<char> {
    trimmed_end(trimmed_start(text))
}

/// Takes the white space off both ends.
pub fn trim_chars(chars: &Vec<char>) -> (part: Vec<char>)
    ensures
        part@ == trimmed(chars@),
{
    let mut from: usize = 0;
    let mut to: usize = chars.len();
    assert(chars@.subrange(0, chars@.len() as int) =~= chars@);
    while from < to && blank(chars[from])
        invariant
            from <= to == chars@.len(),
            trimmed_start(chars@) == trimmed_start(chars@.subrange(from as int, to as int)),
        decreases to - from,
    {
        assert(chars@.subrange(from as int, to as int).drop_first() =~= chars@.subrange(
            from + 1,
            to as int,
        ));
        from = from + 1;
    }
    assert(trimmed_start(chars@) == chars@.subrange(from as int, to as int));
    while from < to && blank(chars[to - 1])
        invariant
            from <= to <= chars@.len(),
            trimmed(chars@) == trimmed_end(chars@.subrange(from as int, to as int)),
        decreases to - from,
    {
        assert(chars@.subrange(from as int, to as int).drop_last() =~= chars@.subrange(
            from as int,
            to - 1,
        ));
        to = to - 1;
    }
    copy_chars(chars, from, to)
}

/// Takes the white space off both ends of a string.
pub fn trim(text: &str) -> (part: String)
    ensures
        part@ == trimmed(text@),
{
    text_of(&trim_chars(&chars_of(text)))
}

/// A line without the carriage return that precedes its line feed.
pub open spec fn chomped(line: Seq<char>) -> Seq<char> {
    if line.len() > 0 && line.last() == '\r' {
        line.drop_last()
    } else {
        line
    }
}

pub open spec fn chomping() -> spec_fn(Seq<char>) -> Seq<char> {
    |line: Seq<char>| chomped(line)
}

/// The lines of a text. A line ends at a line feed, with a carriage return
/// before it or without; what follows the last line feed is a line unless it
/// is empty.
pub open spec fn lines_of(text: Seq<char>) -> Seq<Seq<char>> {
    let parts = pieces(text, Mark::At('\n'));
    let ended = parts.drop_last().map_values(chomping());
    if parts.last().len() == 0 {
        ended
    } else {
        ended.push(parts.last())
    }
}

/// Divides `chars` into lines.
pub fn lines(chars: &Vec<char>) -> (all: Vec<Vec<char>>)
    ensures
        seen(all@) == lines_of(chars@),
{
    let parts = split(chars, Mark::At('\n'));
    proof {
        lemma_pieces_some(chars@, Mark::At('\n'));
    }
    let ghost seen_parts = seen(parts@);
    assert(seen_parts.len() == parts@.len());
    let last: usize = parts.len() - 1;
    let mut all: Vec<Vec<char>> = Vec::new();
    for i in 0..last
        invariant
            last == parts@.len() - 1,
            seen_parts == seen(parts@),
            seen(all@) == seen_parts.take(i as int).map_values(chomping()),
    {
        let ghost before = all@;
        let part = &parts[i];
        assert(part@ == seen_parts[i as int]);
        let length = part.len();
        let line = if length > 0 && part[length - 1] == '\r' {
            let cut = copy_chars(part, 0, length - 1);
            assert(cut@ =~= part@.drop_last());
            cut
        } else {
            let whole = copy_chars(part, 0, length);
            assert(whole@ =~= part@);
            whole
        };
        let ghost seen_line = line@;
        all.push(line);
        assert(seen(all@) =~= seen(before).push(seen_line));
        assert(seen_parts.take(i + 1).map_values(chomping()) =~= seen_parts.take(
            i as int,
        ).map_values(chomping()).push(chomped(seen_parts[i as int])));
    }
    assert(seen_parts.take(last as int) =~= seen_parts.drop_last());
    if parts[last].len() > 0 {
        let ghost before = all@;
        let tail = copy_chars(&parts[last], 0, parts[last].len());
        assert(tail@ =~= seen_parts.last());
        let ghost seen_tail = tail@;
        all.push(tail);
        assert(seen(all@) =~= seen(before).push(seen_tail));
    } else {
        assert(seen_parts.last().len() == 0);
    }
    all
}

/// Whether `part` occurs in `text` as a run of characters.
pub open spec fn occurs_in(part: Seq<char>, text: Seq<char>) -> bool {
    exists|at: int|
        0 <= at <= text.len() - part.len() && #[trigger] text.subrange(at, at + part.len()) == part
}

/// Whether `part` stands in `chars` at `at`.
fn stands_at(part: &Vec<char>, chars: &Vec<char>, at: usize) -> (found: bool)
    requires
        at + part@.len() <= chars@.len(),
    ensures
        found == (chars@.subrange(at as int, at + part@.len()) == part@),
{
    let total: usize = chars.len();
    for i in 0..part.len()
        invariant
            at + part@.len() <= chars@.len() == total,
            forall|j: int| 0 <= j < i ==> chars@[at + j] == part@[j],
    {
        if chars[at + i] != part[i] {
            assert(chars@.subrange(at as int, at + part@.len())[i as int] != part@[i as int]);
            return false;
        }
    }
    assert(chars@.subrange(at as int, at + part@.len()) =~= part@);
    true
}

/// Whether `part` occurs in `text`.
pub fn occurs(part: &str, text: &str) -> (found: bool)
    ensures
        found == occurs_in(part@, text@),
{
    let wanted = chars_of(part);
    let chars = chars_of(text);
    if wanted.len() > chars.len() {
        return false;
    }
    let last: usize = chars.len() - wanted.len();
    let mut at: usize = 0;
    while at <= last
        invariant
            wanted@ == part@,
            chars@ == text@,
            last == chars@.len() - wanted@.len(),
            at <= last + 1,
            forall|j: int|
                0 <= j < at ==> #[trigger] text@.subrange(j, j + part@.len()) != part@,
        decreases last + 1 - at,
    {
        if stands_at(&wanted, &chars, at) {
            return true;
        }
        if at == last {
            return false;
        }
        at = at + 1;
    }
    false
}

/// Whether a text starts with another.
pub fn starts_with(chars: &Vec<char>, start: &str) -> (found: bool)
    ensures
        found == start@.is_prefix_of(chars@),
{
    let wanted = chars_of(start);
    if wanted.len() > chars.len() {
        return false;
    }
    let found = stands_at(&wanted, chars, 0);
    assert(chars@.subrange(0, wanted@.len() as int) =~= chars@.take(wanted@.len() as int));
    found
}

} // verus!

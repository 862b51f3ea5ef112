//! The small records that the reader keeps: the chosen collection, the papers
//! kept offline, and what was read.
use vstd::prelude::*;
use vstd::string::*;
use vstd::utf8::*;

use crate::bytes::{law_utf8_round_trip, utf8_text};
use crate::cache::{lemma_filter_map_agrees, lemma_filter_map_keeps};
use crate::keys::{is_key, valid_key};
use crate::model::{Collection, CollectionView, MAX_ITEMS};
use crate::number::{decimal, decimal_text, law_decimal_reads_back, parse_number, parsed};
use crate::text::{
    chars_of, chomped, chomping, compact, compacted, copy_chars, flattened, holds_text,
    lemma_pieces_some, lines, lines_of, pieces, prefix, same_text, seen, split, text_of, Mark,
};

verus! {

/// The most papers that are kept offline.
pub const MAX_KEPT: usize = 96;

/// A paper whose text is kept offline.
#[derive(Debug, PartialEq, Eq)]
pub struct Kept {
    pub key: String,
    pub title: String,
    pub creators: String,
    pub bytes: u32,
}

#[verifier::ext_equal]
pub struct KeptView {
    pub key: Seq<char>,
    pub title: Seq<char>,
    pub creators: Seq<char>,
    pub bytes: u32,
}

impl View for Kept {
    type V = KeptView;

    open spec fn view(&self) -> KeptView {
        KeptView {
            key: self.key@,
            title: self.title@,
            creators: self.creators@,
            bytes: self.bytes,
        }
    }
}

impl Clone for Kept {
    fn clone(&self) -> (copy: Self)
        ensures
            copy@ == self@,
    {
        Kept {
            key: self.key.clone(),
            title: self.title.clone(),
            creators: self.creators.clone(),
            bytes: self.bytes,
        }
    }
}

impl Default for Kept {
    fn default() -> (empty: Self)
        ensures
            empty@ == (KeptView {
                key: Seq::empty(),
                title: Seq::empty(),
                creators: Seq::empty(),
                bytes: 0,
            }),
    {
        Kept { key: String::new(), title: String::new(), creators: String::new(), bytes: 0 }
    }
}

/// What stands before the first `mark`; everything where there is none.
pub open spec fn head(text: Seq<char>, mark: char) -> Seq<char>
    decreases text.len(),
{
    if text.len() == 0 || text[0] == mark {
        Seq::empty()
    } else {
        seq![text[0]] + head(text.drop_first(), mark)
    }
}

/// What stands before and after the first `mark`.
pub open spec fn parted(text: Seq<char>, mark: char) -> Option<(Seq<char>, Seq<char>)> {
    let before = head(text, mark);
    if before.len() < text.len() {
        Some((before, text.skip(before.len() as int + 1)))
    } else {
        None
    }
}

/// Divides a text at the first `mark`.
pub fn part(chars: &Vec<char>, mark: char) -> (both: Option<(String, String)>)
    ensures
        match both {
            Some((before, after)) => parted(chars@, mark) == Some((before@, after@)),
            None => parted(chars@, mark) is None,
        },
{
    let total: usize = chars.len();
    let mut at: usize = 0;
    assert(chars@.skip(0) =~= chars@);
    assert(chars@.take(0) + head(chars@.skip(0), mark) =~= head(chars@, mark));
    while at < total
        invariant
            total == chars@.len(),
            at <= total,
            head(chars@, mark) == chars@.take(at as int) + head(chars@.skip(at as int), mark),
        decreases total - at,
    {
        let ghost rest = chars@.skip(at as int);
        assert(rest[0] == chars@[at as int]);
        if chars[at] == mark {
            assert(head(chars@, mark) =~= chars@.take(at as int));
            let before = copy_chars(chars, 0, at);
            let after = copy_chars(chars, at + 1, total);
            assert(before@ =~= head(chars@, mark));
            assert(after@ =~= chars@.skip(at + 1));
            return Some((text_of(&before), text_of(&after)));
        }
        assert(rest.drop_first() =~= chars@.skip(at + 1));
        assert(chars@.take(at as int) + (seq![rest[0]] + head(rest.drop_first(), mark))
            =~= chars@.take(at + 1) + head(chars@.skip(at + 1), mark));
        at = at + 1;
    }
    assert(chars@.skip(total as int) =~= Seq::empty());
    assert(head(chars@, mark) =~= chars@);
    None
}

/// The record of a chosen collection.
pub open spec fn selection_text(collection: CollectionView) -> Seq<char> {
    collection.key + "\t"@ + compacted(collection.name, 160)
}

/// Writes the chosen collection.
pub fn encode_selection(collection: &Collection) -> (bytes: Vec<u8>)
    ensures
        bytes@ == encode_utf8(selection_text(collection@)),
{
    let mut text = collection.key.clone();
    text.append("\t");
    let name = compact(&collection.name, 160);
    text.append(&name);
    text.as_str().as_bytes_vec()
}

/// The collection that a record names, if its key is usable and its name is
/// not empty.
pub open spec fn selection_in(bytes: Seq<u8>) -> Option<CollectionView> {
    if valid_utf8(bytes) {
        match parted(decode_utf8(bytes), '\t') {
            Some((key, name)) => if is_key(key) && name.len() > 0 {
                Some(CollectionView { key, name: compacted(name, 160) })
            } else {
                None
            },
            None => None,
        }
    } else {
        None
    }
}

/// Reads the chosen collection.
pub fn decode_selection(bytes: &[u8]) -> (collection: Option<Collection>)
    ensures
        match collection {
            Some(collection) => selection_in(bytes@) == Some(collection@),
            None => selection_in(bytes@) is None,
        },
{
    match utf8_text(bytes) {
        Some(text) => match part(&chars_of(text), '\t') {
            Some((key, name)) => {
                if !valid_key(&key) || name.as_str().is_empty() {
                    return None;
                }
                Some(Collection { key, name: compact(&name, 160) })
            },
            None => None,
        },
        None => None,
    }
}

/// The record of one kept paper.
pub open spec fn kept_line(kept: KeptView) -> Seq<char> {
    kept.key + "\t"@ + decimal(kept.bytes as nat) + "\t"@ + compacted(kept.title, 160) + "\t"@
        + compacted(kept.creators, 256)
}

pub open spec fn kept_lines() -> spec_fn(KeptView) -> Seq<char> {
    |kept: KeptView| kept_line(kept)
}

/// Lines, each with its line feed.
pub open spec fn ended(all: Seq<Seq<char>>) -> Seq<char>
    decreases all.len(),
{
    if all.len() == 0 {
        Seq::empty()
    } else {
        ended(all.drop_last()) + all.last() + "\n"@
    }
}

/// The record of the kept papers.
pub open spec fn library_text(library: Seq<KeptView>) -> Seq<char> {
    ended(prefix(library, MAX_KEPT as nat).map_values(kept_lines()))
}

/// Writes the kept papers.
pub fn encode_library(library: &Vec<Kept>) -> (bytes: Vec<u8>)
    ensures
        bytes@ == encode_utf8(library_text(seen(library@))),
{
    let last: usize = if library.len() < MAX_KEPT {
        library.len()
    } else {
        MAX_KEPT
    };
    let ghost all = prefix(seen(library@), MAX_KEPT as nat).map_values(kept_lines());
    let mut text = String::new();
    for i in 0..last
        invariant
            last <= library@.len(),
            last <= MAX_KEPT,
            last == all.len(),
            all == prefix(seen(library@), MAX_KEPT as nat).map_values(kept_lines()),
            text@ == ended(all.take(i as int)),
    {
        let kept = &library[i];
        proof {
            assert(all.take(i + 1).drop_last() =~= all.take(i as int));
            assert(all.take(i + 1).last() == kept_line(kept@));
        }
        let ghost before = text@;
        text.append(&kept.key);
        text.append("\t");
        let bytes = decimal_text(kept.bytes as u64);
        text.append(&bytes);
        text.append("\t");
        let title = compact(&kept.title, 160);
        text.append(&title);
        text.append("\t");
        let creators = compact(&kept.creators, 256);
        text.append(&creators);
        assert(text@ =~= before + kept_line(kept@));
        text.append("\n");
    }
    assert(all.take(last as int) =~= all);
    text.as_str().as_bytes_vec()
}

/// The kept paper that a record names, if it has its first three fields, its
/// number can be read and its key is usable.
pub open spec fn kept_in(line: Seq<char>) -> Option<KeptView> {
    let fields = pieces(line, Mark::At('\t'));
    if fields.len() >= 3 && is_key(fields[0]) && parsed(fields[1]) is Some {
        Some(
            KeptView {
                key: fields[0],
                bytes: parsed(fields[1])->0,
                title: compacted(fields[2], 160),
                creators: if fields.len() >= 4 {
                    compacted(fields[3], 256)
                } else {
                    Seq::empty()
                },
            },
        )
    } else {
        None
    }
}

pub open spec fn kept_row() -> spec_fn(Seq<char>) -> Option<KeptView> {
    |line: Seq<char>| kept_in(line)
}

/// The kept papers that a record names.
pub open spec fn library_in(bytes: Seq<u8>) -> Seq<KeptView> {
    if valid_utf8(bytes) {
        prefix(lines_of(decode_utf8(bytes)), MAX_KEPT as nat).filter_map(kept_row())
    } else {
        Seq::empty()
    }
}

/// Reads the record of one kept paper.
fn decode_kept(line: &Vec<char>) -> (kept: Option<Kept>)
    ensures
        match kept {
            Some(kept) => kept_in(line@) == Some(kept@),
            None => kept_in(line@) is None,
        },
{
    let fields = split(line, Mark::At('\t'));
    let ghost all = seen(fields@);
    if fields.len() < 3 {
        return None;
    }
    assert(all[0] == fields@[0]@);
    assert(all[1] == fields@[1]@);
    assert(all[2] == fields@[2]@);
    let key = text_of(&fields[0]);
    let bytes = match parse_number(&text_of(&fields[1])) {
        Some(bytes) => bytes,
        None => {
            return None;
        },
    };
    if !valid_key(&key) {
        return None;
    }
    let title = compact(&text_of(&fields[2]), 160);
    let creators = if fields.len() >= 4 {
        assert(all[3] == fields@[3]@);
        compact(&text_of(&fields[3]), 256)
    } else {
        String::new()
    };
    Some(Kept { key, title, creators, bytes })
}

/// Reads the kept papers.
pub fn decode_library(bytes: &[u8]) -> (library: Vec<Kept>)
    ensures
        seen(library@) == library_in(bytes@),
{
    let mut library: Vec<Kept> = Vec::new();
    match utf8_text(bytes) {
        Some(text) => {
            let all = lines(&chars_of(text));
            let last: usize = if all.len() < MAX_KEPT {
                all.len()
            } else {
                MAX_KEPT
            };
            let ghost read = prefix(lines_of(decode_utf8(bytes@)), MAX_KEPT as nat);
            assert(read =~= seen(all@).take(last as int));
            assert(seen(library@) =~= read.take(0).filter_map(kept_row()));
            for i in 0..last
                invariant
                    last <= all@.len(),
                    read == seen(all@).take(last as int),
                    seen(library@) == read.take(i as int).filter_map(kept_row()),
            {
                proof {
                    read.lemma_filter_map_take_succ(kept_row(), i as int);
                    assert(seen(library@) + Seq::<KeptView>::empty() =~= seen(library@));
                    assert(read[i as int] == all@[i as int]@);
                }
                if let Some(kept) = decode_kept(&all[i]) {
                    let ghost before = library@;
                    let ghost added = kept@;
                    library.push(kept);
                    assert(seen(library@) =~= seen(before).push(added));
                    assert(seen(before).push(added) =~= seen(before) + seq![added]);
                }
            }
            assert(read.take(last as int) =~= read);
            library
        },
        None => {
            assert(seen(library@) =~= Seq::<KeptView>::empty());
            library
        },
    }
}

pub open spec fn usable() -> spec_fn(Seq<char>) -> bool {
    |key: Seq<char>| is_key(key)
}

pub open spec fn read_line() -> spec_fn(Seq<char>) -> Seq<char> {
    |key: Seq<char>| "read\t"@ + key
}

/// The keys that are written: the first ones that are usable.
pub open spec fn written_keys(read_keys: Seq<Seq<char>>) -> Seq<Seq<char>> {
    prefix(read_keys.filter(usable()), MAX_ITEMS as nat)
}

/// The lines of the record of what was read.
pub open spec fn state_lines(read_keys: Seq<Seq<char>>, last_opened: Option<Seq<char>>) -> Seq<
    Seq<char>,
> {
    let last = match last_opened {
        Some(key) => key,
        None => Seq::empty(),
    };
    seq!["last\t"@ + last] + written_keys(read_keys).map_values(read_line())
}

/// The record of what was read.
pub open spec fn state_text(read_keys: Seq<Seq<char>>, last_opened: Option<Seq<char>>) -> Seq<
    char,
> {
    ended(state_lines(read_keys, last_opened))
}

/// Writes what was read.
pub fn encode_reading_state(read_keys: &Vec<String>, last_opened: Option<&String>) -> (bytes: Vec<
    u8,
>)
    ensures
        bytes@ == encode_utf8(
            state_text(
                seen(read_keys@),
                match last_opened {
                    Some(key) => Some(key@),
                    None => None,
                },
            ),
        ),
{
    let ghost opened = match last_opened {
        Some(key) => Some(key@),
        None => None,
    };
    let mut text = "last\t".to_owned();
    if let Some(key) = last_opened {
        text.append(key);
    }
    text.append("\n");
    let ghost keys = seen(read_keys@);
    let ghost start = text@;
    let mut written: usize = 0;
    proof {
        let none = keys.take(0).filter(usable());
        reveal(Seq::filter);
        assert(none =~= Seq::<Seq<char>>::empty());
        let first = match opened {
            Some(key) => "last\t"@ + key,
            None => "last\t"@ + Seq::empty(),
        };
        assert(state_lines(keys.take(0), opened) =~= seq![first]);
        assert(seq![first].drop_last() =~= Seq::<Seq<char>>::empty());
        assert(ended(Seq::<Seq<char>>::empty()) =~= Seq::<char>::empty());
        assert(start =~= ended(Seq::<Seq<char>>::empty()) + first + "\n"@);
        assert(text@ == state_text(keys.take(0), opened));
    }
    for i in 0..read_keys.len()
        invariant
            keys == seen(read_keys@),
            text@ == state_text(keys.take(i as int), opened),
            written == written_keys(keys.take(i as int)).len(),
    {
        let key = &read_keys[i];
        let ghost done = keys.take(i as int);
        proof {
            assert(keys.take(i + 1).drop_last() =~= done);
            assert(keys.take(i + 1) =~= done.push(key@));
            done.lemma_filter_push(key@, usable());
            crate::zotero::lemma_prefix_push(done.filter(usable()), key@, MAX_ITEMS as nat);
        }
        if valid_key(key) && written < MAX_ITEMS {
            let ghost before = text@;
            text.append("read\t");
            text.append(key);
            text.append("\n");
            proof {
                let all = state_lines(keys.take(i + 1), opened);
                assert(written_keys(keys.take(i + 1)) == written_keys(done).push(key@));
                assert(all.drop_last() =~= state_lines(done, opened));
                assert(all.last() == "read\t"@ + key@);
                assert(text@ =~= before + ("read\t"@ + key@) + "\n"@);
            }
            written = written + 1;
        } else {
            assert(written_keys(keys.take(i + 1)) == written_keys(done));
        }
    }
    assert(keys.take(read_keys@.len() as int) =~= keys);
    text.as_str().as_bytes_vec()
}

/// One line read: what was read and what was opened last.
pub open spec fn state_step(
    read: Seq<Seq<char>>,
    last: Option<Seq<char>>,
    line: Seq<char>,
) -> (Seq<Seq<char>>, Option<Seq<char>>) {
    match parted(line, '\t') {
        Some((kind, key)) => if !is_key(key) {
            (read, last)
        } else if kind == "last"@ {
            (read, Some(key))
        } else if kind == "read"@ && !read.contains(key) {
            (read.push(key), last)
        } else {
            (read, last)
        },
        None => (read, last),
    }
}

/// What lines say of what was read, one after the other.
pub open spec fn state_of(all: Seq<Seq<char>>) -> (Seq<Seq<char>>, Option<Seq<char>>)
    decreases all.len(),
{
    if all.len() == 0 {
        (Seq::empty(), None)
    } else {
        let (read, last) = state_of(all.drop_last());
        state_step(read, last, all.last())
    }
}

/// What a record says of what was read: the keys, each once, and the key that
/// was opened last.
pub open spec fn state_in(bytes: Seq<u8>) -> (Seq<Seq<char>>, Option<Seq<char>>) {
    if valid_utf8(bytes) {
        state_of(prefix(lines_of(decode_utf8(bytes)), (MAX_ITEMS + 1) as nat))
    } else {
        (Seq::empty(), None)
    }
}

/// Reads what was read.
pub fn decode_reading_state(bytes: &[u8]) -> (state: (Vec<String>, Option<String>))
    ensures
        (seen(state.0@), crate::text::maybe(state.1)) == state_in(bytes@),
{
    let mut read: Vec<String> = Vec::new();
    let mut last: Option<String> = None;
    match utf8_text(bytes) {
        Some(text) => {
            let all = lines(&chars_of(text));
            let limit: usize = if all.len() < MAX_ITEMS + 1 {
                all.len()
            } else {
                MAX_ITEMS + 1
            };
            let ghost wanted = prefix(lines_of(decode_utf8(bytes@)), (MAX_ITEMS + 1) as nat);
            assert(wanted =~= seen(all@).take(limit as int));
            assert(seen(read@) =~= Seq::<Seq<char>>::empty());
            for i in 0..limit
                invariant
                    limit <= all@.len(),
                    wanted == seen(all@).take(limit as int),
                    (seen(read@), crate::text::maybe(last)) == state_of(wanted.take(i as int)),
            {
                proof {
                    assert(wanted.take(i + 1).drop_last() =~= wanted.take(i as int));
                    assert(wanted[i as int] == all@[i as int]@);
                }
                if let Some((kind, key)) = part(&all[i], '\t') {
                    if valid_key(&key) {
                        if same_text(&kind, "last") {
                            last = Some(key);
                        } else if same_text(&kind, "read") && !holds_text(&read, &key) {
                            let ghost before = read@;
                            let ghost added = key@;
                            read.push(key);
                            assert(seen(read@) =~= seen(before).push(added));
                        }
                    }
                }
            }
            assert(wanted.take(limit as int) =~= wanted);
            (read, last)
        },
        None => {
            assert(seen(read@) =~= Seq::<Seq<char>>::empty());
            (read, last)
        },
    }
}

/// A text in which the mark does not occur only makes the last piece longer.
proof fn lemma_pieces_longer(text: Seq<char>, more: Seq<char>, mark: char)
    requires
        !more.contains(mark),
    ensures
        pieces(text + more, Mark::At(mark)) == pieces(text, Mark::At(mark)).drop_last().push(
            pieces(text, Mark::At(mark)).last() + more,
        ),
    decreases more.len(),
{
    let all = pieces(text, Mark::At(mark));
    lemma_pieces_some(text, Mark::At(mark));
    if more.len() == 0 {
        assert(text + more =~= text);
        assert(all.last() + more =~= all.last());
        assert(all.drop_last().push(all.last()) =~= all);
    } else {
        let shorter = more.drop_last();
        assert forall|c: char| shorter.contains(c) implies more.contains(c) by {
            let at = choose|at: int| 0 <= at < shorter.len() && shorter[at] == c;
            assert(more[at] == c);
        }
        lemma_pieces_longer(text, shorter, mark);
        assert((text + more).drop_last() =~= text + shorter);
        assert(more.contains(more.last()));
        let before = pieces(text + shorter, Mark::At(mark));
        assert(before.drop_last() =~= all.drop_last());
        assert((all.last() + shorter).push(more.last()) =~= all.last() + more);
    }
}

/// A mark starts a new piece.
proof fn lemma_pieces_next(text: Seq<char>, mark: char)
    ensures
        pieces(text.push(mark), Mark::At(mark)) == pieces(text, Mark::At(mark)).push(Seq::empty()),
{
    assert(text.push(mark).drop_last() =~= text);
}

/// A text without the mark is a single piece.
proof fn lemma_pieces_one(text: Seq<char>, mark: char)
    requires
        !text.contains(mark),
    ensures
        pieces(text, Mark::At(mark)) == seq![text],
{
    lemma_pieces_longer(Seq::empty(), text, mark);
    assert(Seq::<char>::empty() + text =~= text);
    assert(pieces(Seq::empty(), Mark::At(mark)) =~= seq![Seq::<char>::empty()]);
    assert(pieces(text, Mark::At(mark)) =~= seq![text]);
}

/// A mark and a text without it add one piece.
proof fn lemma_pieces_more(text: Seq<char>, more: Seq<char>, mark: char)
    requires
        !more.contains(mark),
    ensures
        pieces(text.push(mark) + more, Mark::At(mark)) == pieces(text, Mark::At(mark)).push(more),
{
    lemma_pieces_next(text, mark);
    lemma_pieces_longer(text.push(mark), more, mark);
    assert(Seq::<char>::empty() + more =~= more);
    assert(pieces(text, Mark::At(mark)).push(Seq::empty()).drop_last() =~= pieces(
        text,
        Mark::At(mark),
    ));
}

/// Whether a text can stand on a line of its own.
pub open spec fn one_line(line: Seq<char>) -> bool {
    !line.contains('\n') && !line.contains('\r')
}

/// Lines written one after the other are read as the same lines.
proof fn lemma_lines_read_back(all: Seq<Seq<char>>)
    requires
        forall|i: int| 0 <= i < all.len() ==> one_line(#[trigger] all[i]),
    ensures
        lines_of(ended(all)) == all,
{
    lemma_ended_pieces(all);
    let parts = pieces(ended(all), Mark::At('\n'));
    assert(parts.drop_last() =~= all);
    assert forall|i: int| 0 <= i < all.len() implies chomped(#[trigger] all[i]) == all[i] by {
        if all[i].len() > 0 {
            assert(all[i].contains(all[i].last()));
        }
    }
    assert(all.map_values(chomping()) =~= all);
}

proof fn lemma_ended_pieces(all: Seq<Seq<char>>)
    requires
        forall|i: int| 0 <= i < all.len() ==> one_line(#[trigger] all[i]),
    ensures
        pieces(ended(all), Mark::At('\n')) == all.push(Seq::empty()),
    decreases all.len(),
{
    if all.len() == 0 {
        assert(pieces(Seq::empty(), Mark::At('\n')) =~= all.push(Seq::empty()));
    } else {
        let front = all.drop_last();
        assert forall|i: int| 0 <= i < front.len() implies one_line(#[trigger] front[i]) by {
            assert(front[i] == all[i]);
        }
        lemma_ended_pieces(front);
        assert(one_line(all[all.len() - 1]));
        reveal_strlit("\n");
        let text = ended(front) + all.last();
        lemma_pieces_longer(ended(front), all.last(), '\n');
        lemma_pieces_next(text, '\n');
        assert(ended(all) =~= text.push('\n'));
        assert(front.push(Seq::empty()).drop_last() =~= front);
        assert(Seq::<char>::empty() + all.last() =~= all.last());
        assert(front.push(all.last()) =~= all);
    }
}

/// Keys hold no character that divides a record.
proof fn lemma_key_is_plain(key: Seq<char>)
    requires
        is_key(key),
    ensures
        !key.contains('\t'),
        one_line(key),
{
}

/// Compacted texts hold no character that divides a record.
proof fn lemma_compact_is_plain(text: Seq<char>, maximum: nat)
    ensures
        !compacted(text, maximum).contains('\t'),
        one_line(compacted(text, maximum)),
{
}

/// Compacting a text a second time changes nothing.
pub proof fn law_compacting_twice(text: Seq<char>, maximum: nat)
    ensures
        compacted(compacted(text, maximum), maximum) == compacted(text, maximum),
{
    lemma_compact_is_plain(text, maximum);
    let once = compacted(text, maximum);
    assert forall|i: int| 0 <= i < once.len() implies #[trigger] flattened(once)[i] == once[i] by {
        assert(once.contains(once[i]));
    }
    assert(flattened(once) =~= once);
}

pub proof fn lemma_head(before: Seq<char>, mark: char, after: Seq<char>)
    requires
        !before.contains(mark),
    ensures
        parted(before.push(mark) + after, mark) == Some((before, after)),
{
    lemma_head_stops(before, mark, after);
    assert((before.push(mark) + after).skip(before.len() as int + 1) =~= after);
}

proof fn lemma_head_stops(before: Seq<char>, mark: char, after: Seq<char>)
    requires
        !before.contains(mark),
    ensures
        head(before.push(mark) + after, mark) == before,
    decreases before.len(),
{
    let text = before.push(mark) + after;
    if before.len() == 0 {
        assert(text[0] == mark);
        assert(before =~= Seq::empty());
    } else {
        let rest = before.drop_first();
        assert(before.contains(before[0]));
        assert forall|c: char| rest.contains(c) implies before.contains(c) by {
            let at = choose|at: int| 0 <= at < rest.len() && rest[at] == c;
            assert(before[at + 1] == c);
        }
        lemma_head_stops(rest, mark, after);
        assert(text.drop_first() =~= rest.push(mark) + after);
        assert(seq![before[0]] + rest =~= before);
    }
}

/// A chosen collection that is written reads back with its name on one line.
pub proof fn law_selection_reads_back(collection: CollectionView)
    requires
        is_key(collection.key),
        collection.name.len() > 0,
    ensures
        selection_in(encode_utf8(selection_text(collection))) == Some(
            (CollectionView { key: collection.key, name: compacted(collection.name, 160) }),
        ),
{
    let text = selection_text(collection);
    let name = compacted(collection.name, 160);
    law_utf8_round_trip(text);
    lemma_key_is_plain(collection.key);
    law_compacting_twice(collection.name, 160);
    reveal_strlit("\t");
    assert(text =~= collection.key.push('\t') + name);
    lemma_head(collection.key, '\t', name);
}

/// What writing a kept paper and reading it again makes of it.
pub open spec fn reread(kept: KeptView) -> KeptView {
    KeptView {
        title: compacted(kept.title, 160),
        creators: compacted(kept.creators, 256),
        ..kept
    }
}

pub open spec fn rereading() -> spec_fn(KeptView) -> KeptView {
    |kept: KeptView| reread(kept)
}

proof fn lemma_decimal_is_plain(n: nat)
    ensures
        !decimal(n).contains('\t'),
        one_line(decimal(n)),
    decreases n,
{
    law_decimal_reads_back(n);
}

proof fn lemma_kept_reads_back(kept: KeptView)
    requires
        is_key(kept.key),
    ensures
        one_line(kept_line(kept)),
        kept_in(kept_line(kept)) == Some(reread(kept)),
{
    let number = decimal(kept.bytes as nat);
    let title = compacted(kept.title, 160);
    let creators = compacted(kept.creators, 256);
    reveal_strlit("\t");
    lemma_key_is_plain(kept.key);
    lemma_decimal_is_plain(kept.bytes as nat);
    law_decimal_reads_back(kept.bytes as nat);
    lemma_compact_is_plain(kept.title, 160);
    lemma_compact_is_plain(kept.creators, 256);
    law_compacting_twice(kept.title, 160);
    law_compacting_twice(kept.creators, 256);
    let one = kept.key.push('\t') + number;
    let two = one.push('\t') + title;
    let three = two.push('\t') + creators;
    assert(three =~= kept_line(kept));
    lemma_pieces_one(kept.key, '\t');
    lemma_pieces_more(kept.key, number, '\t');
    lemma_pieces_more(one, title, '\t');
    lemma_pieces_more(two, creators, '\t');
    assert forall|c: char| three.contains(c) implies c == '\t' || kept.key.contains(c)
        || number.contains(c) || title.contains(c) || creators.contains(c) by {
        let at = choose|at: int| 0 <= at < three.len() && three[at] == c;
        if at < kept.key.len() {
            assert(kept.key[at] == c);
        } else if kept.key.len() < at < one.len() {
            assert(number[at - kept.key.len() - 1] == c);
        } else if one.len() < at < two.len() {
            assert(title[at - one.len() - 1] == c);
        } else if two.len() < at {
            assert(creators[at - two.len() - 1] == c);
        }
    }
}

/// Kept papers that are written read back, as many as there is room for, with
/// their titles and creators on one line; no row is lost, added or moved.
pub proof fn law_library_reads_back(library: Seq<KeptView>)
    requires
        forall|i: int| 0 <= i < library.len() ==> is_key(#[trigger] library[i].key),
    ensures
        library_in(encode_utf8(library_text(library))) == prefix(
            library,
            MAX_KEPT as nat,
        ).map_values(rereading()),
{
    let kept = prefix(library, MAX_KEPT as nat);
    let all = kept.map_values(kept_lines());
    law_utf8_round_trip(library_text(library));
    assert forall|i: int| 0 <= i < kept.len() implies one_line(#[trigger] all[i]) && kept_in(all[i])
        == Some(reread(kept[i])) by {
        assert(kept[i] == library[i]);
        lemma_kept_reads_back(kept[i]);
    }
    lemma_lines_read_back(all);
    assert(prefix(all, MAX_KEPT as nat) =~= all);
    let wanted = kept.map_values(rereading());
    lemma_all_read(all, kept_row(), wanted);
}

/// If every item is read, the results stand in the order of the items.
pub proof fn lemma_all_read<A, B>(all: Seq<A>, f: spec_fn(A) -> Option<B>, wanted: Seq<B>)
    requires
        all.len() == wanted.len(),
        forall|i: int| 0 <= i < all.len() ==> f(#[trigger] all[i]) == Some(wanted[i]),
    ensures
        all.filter_map(f) == wanted,
{
    let same = |item: B| Some(item);
    assert forall|i: int| 0 <= i < all.len() implies #[trigger] f(all[i]) == same(wanted[i]) by {
        assert(f(all[i]) == Some(wanted[i]));
    }
    lemma_filter_map_agrees(all, f, wanted, same);
    lemma_filter_map_keeps(wanted, same);
}

/// Each text once, where it first occurs.
pub open spec fn distinct(keys: Seq<Seq<char>>) -> Seq<Seq<char>>
    decreases keys.len(),
{
    if keys.len() == 0 {
        Seq::empty()
    } else {
        let front = distinct(keys.drop_last());
        if front.contains(keys.last()) {
            front
        } else {
            front.push(keys.last())
        }
    }
}

proof fn lemma_prefixed_line(kind: Seq<char>, key: Seq<char>)
    requires
        !kind.contains('\t'),
        one_line(kind),
        one_line(key),
    ensures
        parted(kind.push('\t') + key, '\t') == Some((kind, key)),
        one_line(kind.push('\t') + key),
{
    lemma_head(kind, '\t', key);
    let line = kind.push('\t') + key;
    assert forall|c: char| line.contains(c) implies c == '\t' || kind.contains(c) || key.contains(
        c,
    ) by {
        let at = choose|at: int| 0 <= at < line.len() && line[at] == c;
        if at < kind.len() {
            assert(kind[at] == c);
        } else if at > kind.len() {
            assert(key[at - kind.len() - 1] == c);
        }
    }
}

proof fn lemma_state_line(key: Seq<char>)
    requires
        is_key(key),
    ensures
        one_line("read\t"@ + key),
        parted("read\t"@ + key, '\t') == Some(("read"@, key)),
        one_line("last\t"@ + key),
        parted("last\t"@ + key, '\t') == Some(("last"@, key)),
        "read"@ != "last"@,
{
    reveal_strlit("read\t");
    reveal_strlit("read");
    reveal_strlit("last\t");
    reveal_strlit("last");
    lemma_key_is_plain(key);
    lemma_prefixed_line("read"@, key);
    lemma_prefixed_line("last"@, key);
    assert("read\t"@ =~= "read"@.push('\t'));
    assert("last\t"@ =~= "last"@.push('\t'));
    assert("read"@[0] == 'r');
    assert("last"@[0] == 'l');
}

proof fn lemma_state_of(keys: Seq<Seq<char>>, first: Seq<char>, last: Option<Seq<char>>)
    requires
        forall|i: int| 0 <= i < keys.len() ==> is_key(#[trigger] keys[i]),
        state_of(seq![first]) == (Seq::<Seq<char>>::empty(), last),
    ensures
        state_of(seq![first] + keys.map_values(read_line())) == (distinct(keys), last),
    decreases keys.len(),
{
    let all = seq![first] + keys.map_values(read_line());
    if keys.len() == 0 {
        assert(all =~= seq![first]);
    } else {
        let front = keys.drop_last();
        assert forall|i: int| 0 <= i < front.len() implies is_key(#[trigger] front[i]) by {
            assert(front[i] == keys[i]);
        }
        lemma_state_of(front, first, last);
        assert(all.drop_last() =~= seq![first] + front.map_values(read_line()));
        assert(is_key(keys[keys.len() - 1]));
        lemma_state_line(keys.last());
        assert(all.last() == "read\t"@ + keys.last());
    }
}

/// What was read is written and reads back: the usable keys, each once, as many
/// as there is room for, and the key that was opened last. A key that is not
/// usable forges no line.
pub proof fn law_reading_state_reads_back(
    read_keys: Seq<Seq<char>>,
    last_opened: Option<Seq<char>>,
)
    requires
        last_opened matches Some(key) ==> is_key(key),
    ensures
        state_in(encode_utf8(state_text(read_keys, last_opened))) == (
            distinct(written_keys(read_keys)),
            last_opened,
        ),
{
    let keys = written_keys(read_keys);
    let all = state_lines(read_keys, last_opened);
    let first = all[0];
    law_utf8_round_trip(state_text(read_keys, last_opened));
    assert forall|i: int| 0 <= i < keys.len() implies is_key(#[trigger] keys[i]) by {
        let usable_keys = read_keys.filter(usable());
        assert(keys[i] == usable_keys[i]);
        read_keys.lemma_filter_pred(usable(), i);
    }
    assert(one_line(first) && state_of(seq![first]) == (Seq::<Seq<char>>::empty(), last_opened))
        by {
        assert(seq![first].drop_last() =~= Seq::<Seq<char>>::empty());
        assert(seq![first].last() == first);
        reveal_with_fuel(state_of, 2);
        match last_opened {
            Some(key) => {
                lemma_state_line(key);
            },
            None => {
                reveal_strlit("last\t");
                reveal_strlit("last");
                lemma_prefixed_line("last"@, Seq::empty());
                assert(first =~= "last"@.push('\t') + Seq::<char>::empty());
            },
        }
    }
    assert forall|i: int| 0 <= i < all.len() implies one_line(#[trigger] all[i]) by {
        if i > 0 {
            lemma_state_line(keys[i - 1]);
            assert(all[i] == "read\t"@ + keys[i - 1]);
        }
    }
    lemma_lines_read_back(all);
    assert(prefix(all, (MAX_ITEMS + 1) as nat) =~= all);
    lemma_state_of(keys, first, last_opened);
    assert(all =~= seq![first] + keys.map_values(read_line()));
}

} // verus!

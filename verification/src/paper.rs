//! Finding a paper and summing it up.
use vstd::prelude::*;

use crate::model::{Paper, PaperView};
use crate::text::{is_filled, join, join_texts, occurs, occurs_in, seen};

verus! {

/// The text that `str::to_lowercase` makes of a text.
pub uninterp spec fn lowercase(text: Seq<char>) -> Seq<char>;

/// `str::to_lowercase`: the lower-case text is a function of the text alone.
#[verifier::external_body]
pub(crate) fn to_lowercase(text: &str) -> (lower: String)
    ensures
        lower@ == lowercase(text@),
{
    text.to_lowercase()
}

pub open spec fn lowercasing() -> spec_fn(Seq<char>) -> Seq<char> {
    |text: Seq<char>| lowercase(text)
}

/// Whether a phrase occurs in the title, in the creators or in a tag.
pub open spec fn phrase_occurs(
    title: Seq<char>,
    creators: Seq<char>,
    tags: Seq<Seq<char>>,
    phrase: Seq<char>,
) -> bool {
    ||| occurs_in(phrase, title)
    ||| occurs_in(phrase, creators)
    ||| exists|i: int| 0 <= i < tags.len() && occurs_in(phrase, #[trigger] tags[i])
}

/// Looks for a phrase in texts that are in lower case already.
pub fn found_in(title: &str, creators: &str, tags: &Vec<String>, phrase: &str) -> (found: bool)
    ensures
        found == phrase_occurs(title@, creators@, seen(tags@), phrase@),
{
    if occurs(phrase, title) || occurs(phrase, creators) {
        return true;
    }
    for i in 0..tags.len()
        invariant
            forall|j: int| 0 <= j < i ==> !occurs_in(phrase@, #[trigger] seen(tags@)[j]),
    {
        if occurs(phrase, &tags[i]) {
            assert(occurs_in(phrase@, seen(tags@)[i as int]));
            return true;
        }
    }
    assert(!(exists|i: int|
        0 <= i < seen(tags@).len() && occurs_in(phrase@, #[trigger] seen(tags@)[i])));
    false
}

impl PaperView {
    /// Whether a search for `phrase` finds the paper, without regard to case.
    pub open spec fn matches_phrase(self, phrase: Seq<char>) -> bool {
        phrase_occurs(
            lowercase(self.title),
            lowercase(self.creators),
            self.tags.map_values(lowercasing()),
            lowercase(phrase),
        )
    }

    /// The creators and the year, as far as they are known.
    pub open spec fn summed_up(self) -> Seq<char> {
        join(seq![self.creators, self.year].filter(is_filled()), " · "@)
    }
}

impl Paper {
    /// Whether a search for `phrase` finds the paper.
    pub fn searchable(&self, phrase: &str) -> (found: bool)
        ensures
            found == self@.matches_phrase(phrase@),
    {
        let mut tags: Vec<String> = Vec::new();
        for i in 0..self.tags.len()
            invariant
                seen(tags@) == self@.tags.take(i as int).map_values(lowercasing()),
        {
            let ghost before = tags@;
            let tag = to_lowercase(&self.tags[i]);
            let ghost seen_tag = tag@;
            tags.push(tag);
            assert(seen(tags@) =~= seen(before).push(seen_tag));
            assert(self@.tags.take(i + 1).map_values(lowercasing()) =~= self@.tags.take(
                i as int,
            ).map_values(lowercasing()).push(seen_tag));
        }
        assert(self@.tags.take(self.tags@.len() as int) =~= self@.tags);
        found_in(
            &to_lowercase(&self.title),
            &to_lowercase(&self.creators),
            &tags,
            &to_lowercase(phrase),
        )
    }

    /// The creators and the year on one line.
    pub fn summary(&self) -> (line: String)
        ensures
            line@ == self@.summed_up(),
    {
        let mut parts: Vec<String> = Vec::new();
        proof {
            reveal(Seq::filter);
            let both = seq![self@.creators, self@.year];
            assert(both.drop_last() =~= seq![self@.creators]);
            assert(both.drop_last().drop_last() =~= Seq::<Seq<char>>::empty());
            assert(both.drop_last().drop_last().filter(is_filled()) =~= Seq::<Seq<char>>::empty());
            assert(both.drop_last().filter(is_filled()) == if self@.creators.len() > 0 {
                Seq::<Seq<char>>::empty().push(self@.creators)
            } else {
                Seq::<Seq<char>>::empty()
            });
        }
        if !self.creators.as_str().is_empty() {
            parts.push(self.creators.clone());
        }
        if !self.year.as_str().is_empty() {
            parts.push(self.year.clone());
        }
        assert(seen(parts@) =~= seq![self@.creators, self@.year].filter(is_filled()));
        join_texts(&parts, " · ")
    }
}

} // verus!

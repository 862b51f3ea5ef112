//! What the details of a paper say, and how pages are counted.
use vstd::prelude::*;
use vstd::string::*;

use crate::model::{Detail, DetailView};
use crate::text::{is_filled, join, join_texts, joined_pair, seen};

verus! {

/// A text that stands only if it says something.
pub open spec fn labelled(label: Seq<char>, text: Seq<char>, after: Seq<char>) -> Seq<char> {
    if text.len() == 0 {
        Seq::empty()
    } else {
        label + text + after
    }
}

impl DetailView {
    /// Venue, year and DOI, as far as they are known.
    pub open spec fn facts(self) -> Seq<Seq<char>> {
        seq![
            self.venue,
            self.paper.year,
            labelled("DOI "@, self.doi, Seq::empty()),
        ].filter(is_filled())
    }

    /// Authors, facts, source and abstract, each on lines of its own.
    pub open spec fn written(self) -> Seq<char> {
        let authors = if self.authors.len() == 0 {
            Seq::empty()
        } else {
            join(self.authors, ", "@) + "\n"@
        };
        let facts = if self.facts().len() == 0 {
            Seq::empty()
        } else {
            join(self.facts(), " · "@) + "\n"@
        };
        let source = labelled("Source "@, self.url, "\n"@);
        let summary = if self.abstract_text.len() == 0 {
            "No abstract is stored for this item."@
        } else {
            "\n"@ + self.abstract_text + "\n"@
        };
        authors + facts + source + summary
    }
}

/// Lists venue, year and DOI.
fn facts(detail: &Detail) -> (facts: Vec<String>)
    ensures
        seen(facts@) == detail@.facts(),
{
    let doi = if detail.doi.as_str().is_empty() {
        String::new()
    } else {
        joined_pair("DOI ", &detail.doi)
    };
    let ghost doi_fact = labelled("DOI "@, detail@.doi, Seq::empty());
    let mut facts: Vec<String> = Vec::new();
    let ghost all = seq![detail@.venue, detail@.paper.year, doi_fact];
    proof {
        assert("DOI "@ + detail@.doi + Seq::<char>::empty() =~= "DOI "@ + detail@.doi);
        assert(doi@ =~= doi_fact);
        reveal_strlit("DOI ");
        let none = Seq::<Seq<char>>::empty();
        let one = none.push(all[0]);
        let two = one.push(all[1]);
        assert(none.filter(is_filled()) =~= none) by {
            reveal(Seq::filter);
        }
        none.lemma_filter_push(all[0], is_filled());
        one.lemma_filter_push(all[1], is_filled());
        two.lemma_filter_push(all[2], is_filled());
        assert(all =~= two.push(all[2]));
        assert(seen(facts@) =~= none);
    }
    if !detail.venue.as_str().is_empty() {
        facts.push(detail.venue.clone());
    }
    let ghost after_venue = facts@;
    assert(seen(after_venue) =~= Seq::<Seq<char>>::empty().push(all[0]).filter(is_filled()));
    if !detail.paper.year.as_str().is_empty() {
        facts.push(detail.paper.year.clone());
        assert(seen(facts@) =~= seen(after_venue).push(all[1]));
    }
    let ghost after_year = facts@;
    if !detail.doi.as_str().is_empty() {
        facts.push(doi);
        assert(seen(facts@) =~= seen(after_year).push(all[2]));
    }
    facts
}

/// Writes out the details of a paper.
pub fn detail_text(detail: &Detail) -> (text: String)
    ensures
        text@ == detail@.written(),
{
    let mut text = String::new();
    if detail.authors.len() > 0 {
        let authors = join_texts(&detail.authors, ", ");
        text.append(&authors);
        text.append("\n");
    }
    let facts = facts(detail);
    if facts.len() > 0 {
        let line = join_texts(&facts, " · ");
        text.append(&line);
        text.append("\n");
    }
    if !detail.url.as_str().is_empty() {
        text.append("Source ");
        text.append(&detail.url);
        text.append("\n");
    }
    if detail.abstract_text.as_str().is_empty() {
        text.append("No abstract is stored for this item.");
    } else {
        text.append("\n");
        text.append(&detail.abstract_text);
        text.append("\n");
    }
    assert(text@ =~= detail@.written());
    text
}

/// A count as far as it can be shown.
pub open spec fn shown_count(count: nat) -> u16 {
    if count <= u16::MAX {
        count as u16
    } else {
        u16::MAX
    }
}

/// The number of the page at a position, counted from one.
pub fn page_number(index: usize) -> (number: u16)
    requires
        index < usize::MAX,
    ensures
        number == shown_count((index + 1) as nat),
{
    if index + 1 <= u16::MAX as usize {
        (index + 1) as u16
    } else {
        u16::MAX
    }
}

/// The number of pages; there is always one.
pub fn page_total(pages: usize) -> (total: u16)
    ensures
        total == shown_count(if pages == 0 { 1 } else { pages as nat }),
{
    if pages == 0 {
        1
    } else if pages <= u16::MAX as usize {
        pages as u16
    } else {
        u16::MAX
    }
}

} // verus!

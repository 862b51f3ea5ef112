//! Papers from the newest to the oldest.
use vstd::prelude::*;
use vstd::utf8::encode_utf8;

use crate::bytes::{at_most, lemma_at_most_total, lemma_at_most_transitive, text_at_most};
use crate::model::{Paper, PaperView};
use crate::text::seen;

verus! {

/// Whether `first` was added no earlier than `second`.
pub open spec fn no_older(first: PaperView, second: PaperView) -> bool {
    at_most(encode_utf8(second.date_added), encode_utf8(first.date_added))
}

/// Whether each paper was added no earlier than those after it.
pub open spec fn newest_lead(papers: Seq<PaperView>) -> bool {
    forall|i: int, j: int|
        0 <= i < j < papers.len() ==> #[trigger] no_older(papers[i], papers[j])
}

/// `paper` put behind the last of the papers that are no older.
pub open spec fn placed(papers: Seq<PaperView>, paper: PaperView) -> Seq<PaperView>
    decreases papers.len(),
{
    if papers.len() == 0 || no_older(papers.last(), paper) {
        papers.push(paper)
    } else {
        placed(papers.drop_last(), paper).push(papers.last())
    }
}

/// The papers from the newest to the oldest; those of one date stay in order.
pub open spec fn newest_first(papers: Seq<PaperView>) -> Seq<PaperView>
    decreases papers.len(),
{
    if papers.len() == 0 {
        papers
    } else {
        placed(newest_first(papers.drop_last()), papers.last())
    }
}

proof fn lemma_placed_at(papers: Seq<PaperView>, paper: PaperView, at: int)
    requires
        0 <= at <= papers.len(),
        at > 0 ==> no_older(papers[at - 1], paper),
        forall|j: int| at <= j < papers.len() ==> !no_older(#[trigger] papers[j], paper),
    ensures
        placed(papers, paper) == papers.insert(at, paper),
    decreases papers.len(),
{
    if at == papers.len() {
        assert(papers.insert(at, paper) =~= papers.push(paper));
    } else {
        assert(!no_older(papers[papers.len() - 1], paper));
        lemma_placed_at(papers.drop_last(), paper, at);
        assert(papers.insert(at, paper) =~= papers.drop_last().insert(at, paper).push(
            papers.last(),
        ));
    }
}

/// Puts papers in order, the newest first.
pub fn sort_newest(papers: Vec<Paper>) -> (sorted: Vec<Paper>)
    ensures
        seen(sorted@) == newest_first(seen(papers@)),
{
    let mut rest = papers;
    let mut sorted: Vec<Paper> = Vec::new();
    let ghost all = seen(papers@);
    let ghost mut done: int = 0;
    assert(all.skip(0) =~= all);
    assert(newest_first(all.take(0)) =~= seen(sorted@));
    while rest.len() > 0
        invariant
            0 <= done <= all.len(),
            seen(rest@) == all.skip(done),
            seen(sorted@) == newest_first(all.take(done)),
        decreases rest@.len(),
    {
        let ghost before_rest = rest@;
        let ghost before = sorted@;
        assert(seen(rest@)[0] == rest@[0]@);
        let paper = rest.remove(0);
        let ghost added = paper@;
        proof {
            assert(added == seen(before_rest)[0]);
            assert(all.skip(done).len() == before_rest.len());
            assert(all.skip(done)[0] == all[done]);
            assert(seen(rest@) =~= seen(before_rest).drop_first());
            assert(seen(before_rest).drop_first() =~= all.skip(done + 1));
            assert(all.take(done + 1).drop_last() =~= all.take(done));
        }
        let mut at: usize = sorted.len();
        while at > 0 && !text_at_most(&paper.date_added, &sorted[at - 1].date_added)
            invariant
                at <= sorted@.len(),
                added == paper@,
                forall|j: int|
                    at <= j < sorted@.len() ==> !no_older(#[trigger] seen(sorted@)[j], added),
            decreases at,
        {
            assert(seen(sorted@)[at - 1] == sorted@[at - 1]@);
            at = at - 1;
        }
        proof {
            if at > 0 {
                assert(seen(sorted@)[at - 1] == sorted@[at - 1]@);
            }
            lemma_placed_at(seen(sorted@), added, at as int);
        }
        sorted.insert(at, paper);
        assert(seen(sorted@) =~= seen(before).insert(at as int, added));
        proof {
            done = done + 1;
        }
    }
    assert(done == all.len());
    assert(all.take(done) =~= all);
    sorted
}

proof fn lemma_placed_keeps(papers: Seq<PaperView>, paper: PaperView)
    requires
        newest_lead(papers),
    ensures
        newest_lead(placed(papers, paper)),
        placed(papers, paper).to_multiset() == papers.to_multiset().insert(paper),
        placed(papers, paper).len() == papers.len() + 1,
        forall|i: int|
            0 <= i < placed(papers, paper).len() ==> (#[trigger] placed(papers, paper)[i]) == paper
                || papers.contains(placed(papers, paper)[i]),
    decreases papers.len(),
{
    broadcast use vstd::seq_lib::group_to_multiset_ensures;

    if papers.len() == 0 {
        assert(papers.push(paper).to_multiset() =~= papers.to_multiset().insert(paper));
    } else if no_older(papers.last(), paper) {
        let all = papers.push(paper);
        assert forall|i: int, j: int| 0 <= i < j < all.len() implies #[trigger] no_older(
            all[i],
            all[j],
        ) by {
            if j == papers.len() {
                if i < papers.len() - 1 {
                    assert(no_older(papers[i], papers.last()));
                    lemma_at_most_transitive(
                        encode_utf8(paper.date_added),
                        encode_utf8(papers.last().date_added),
                        encode_utf8(papers[i].date_added),
                    );
                }
            } else {
                assert(no_older(papers[i], papers[j]));
            }
        }
        assert forall|i: int| 0 <= i < all.len() implies (#[trigger] all[i]) == paper
            || papers.contains(all[i]) by {
            if i < papers.len() {
                assert(papers[i] == all[i]);
            }
        }
    } else {
        let front = papers.drop_last();
        assert(newest_lead(front)) by {
            assert forall|i: int, j: int| 0 <= i < j < front.len() implies #[trigger] no_older(
                front[i],
                front[j],
            ) by {
                assert(no_older(papers[i], papers[j]));
            }
        }
        lemma_placed_keeps(front, paper);
        let inner = placed(front, paper);
        let all = inner.push(papers.last());
        lemma_at_most_total(
            encode_utf8(paper.date_added),
            encode_utf8(papers.last().date_added),
        );
        assert(no_older(paper, papers.last()));
        assert forall|i: int, j: int| 0 <= i < j < all.len() implies #[trigger] no_older(
            all[i],
            all[j],
        ) by {
            if j == inner.len() {
                if inner[i] != paper {
                    let k = choose|k: int| 0 <= k < front.len() && front[k] == inner[i];
                    assert(no_older(papers[k], papers[papers.len() - 1]));
                }
            } else {
                assert(no_older(inner[i], inner[j]));
            }
        }
        assert(papers =~= front.push(papers.last()));
        assert(all.to_multiset() =~= papers.to_multiset().insert(paper));
        assert forall|i: int| 0 <= i < all.len() implies (#[trigger] all[i]) == paper
            || papers.contains(all[i]) by {
            if i < inner.len() {
                if inner[i] != paper {
                    let k = choose|k: int| 0 <= k < front.len() && front[k] == inner[i];
                    assert(papers[k] == all[i]);
                }
            } else {
                assert(papers[papers.len() - 1] == all[i]);
            }
        }
    }
}

/// Sorting keeps the papers and puts the newest first.
pub proof fn law_sorting_orders(papers: Seq<PaperView>)
    ensures
        newest_lead(newest_first(papers)),
        newest_first(papers).to_multiset() == papers.to_multiset(),
        newest_first(papers).len() == papers.len(),
        forall|i: int|
            0 <= i < papers.len() ==> papers.contains(#[trigger] newest_first(papers)[i]),
    decreases papers.len(),
{
    broadcast use vstd::seq_lib::group_to_multiset_ensures;

    if papers.len() > 0 {
        let front = papers.drop_last();
        law_sorting_orders(front);
        lemma_placed_keeps(newest_first(front), papers.last());
        assert(papers =~= front.push(papers.last()));
        assert forall|i: int| 0 <= i < papers.len() implies papers.contains(
            #[trigger] newest_first(papers)[i],
        ) by {
            let found = newest_first(papers)[i];
            if found == papers.last() {
                assert(papers[papers.len() - 1] == found);
            } else {
                let k = choose|k: int|
                    0 <= k < newest_first(front).len() && newest_first(front)[k] == found;
                let m = choose|m: int| 0 <= m < front.len() && front[m] == newest_first(front)[k];
                assert(papers[m] == found);
            }
        }
    }
}

pub open spec fn added_on(date: Seq<char>) -> spec_fn(PaperView) -> bool {
    |paper: PaperView| paper.date_added == date
}

proof fn lemma_placed_stable(papers: Seq<PaperView>, paper: PaperView, date: Seq<char>)
    requires
        newest_lead(papers),
    ensures
        placed(papers, paper).filter(added_on(date)) == papers.push(paper).filter(added_on(date)),
    decreases papers.len(),
{
    reveal(Seq::filter);
    if papers.len() > 0 && !no_older(papers.last(), paper) {
        let front = papers.drop_last();
        assert(newest_lead(front)) by {
            assert forall|i: int, j: int| 0 <= i < j < front.len() implies #[trigger] no_older(
                front[i],
                front[j],
            ) by {
                assert(no_older(papers[i], papers[j]));
            }
        }
        lemma_placed_stable(front, paper, date);
        assert(front.push(paper).drop_last() =~= front);
        assert(placed(papers, paper).drop_last() =~= placed(front, paper));
        assert(papers.push(paper).drop_last() =~= papers);
        lemma_at_most_total(
            encode_utf8(paper.date_added),
            encode_utf8(papers.last().date_added),
        );
        assert(papers.last().date_added != paper.date_added);
        let f = added_on(date);
        assert(front.push(paper).filter(f) == if f(paper) {
            front.filter(f).push(paper)
        } else {
            front.filter(f)
        });
        assert(papers.filter(f) == if f(papers.last()) {
            front.filter(f).push(papers.last())
        } else {
            front.filter(f)
        });
        assert(papers.push(paper).filter(f) == if f(paper) {
            papers.filter(f).push(paper)
        } else {
            papers.filter(f)
        });
        assert(placed(papers, paper).filter(f) == if f(papers.last()) {
            placed(front, paper).filter(f).push(papers.last())
        } else {
            placed(front, paper).filter(f)
        });
    }
}

/// Papers of one date keep their order when the papers are sorted.
pub proof fn law_sorting_is_stable(papers: Seq<PaperView>, date: Seq<char>)
    ensures
        newest_first(papers).filter(added_on(date)) == papers.filter(added_on(date)),
    decreases papers.len(),
{
    if papers.len() > 0 {
        let front = papers.drop_last();
        law_sorting_is_stable(front, date);
        law_sorting_orders(front);
        lemma_placed_stable(newest_first(front), papers.last(), date);
        reveal(Seq::filter);
        assert(newest_first(front).push(papers.last()).drop_last() =~= newest_first(front));
    }
}

/// Papers that are in order already stay as they are.
pub proof fn law_sorted_papers_stay(papers: Seq<PaperView>)
    requires
        newest_lead(papers),
    ensures
        newest_first(papers) == papers,
    decreases papers.len(),
{
    if papers.len() > 0 {
        let front = papers.drop_last();
        assert(newest_lead(front)) by {
            assert forall|i: int, j: int| 0 <= i < j < front.len() implies #[trigger] no_older(
                front[i],
                front[j],
            ) by {
                assert(no_older(papers[i], papers[j]));
            }
        }
        law_sorted_papers_stay(front);
        if front.len() > 0 {
            assert(no_older(papers[front.len() - 1], papers[papers.len() - 1]));
        }
        assert(front.push(papers.last()) =~= papers);
    }
}

} // verus!

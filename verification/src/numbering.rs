//! Laws of the numbering of anchors in the body and in the table of
//! contents.

use crate::body::{
    anchored_header, bar_markup, body_anchors, count_titled, entries_anchors, entry_start,
    outline_of, pairs_anchors, pairs_markup, shown_titles, titles, ArticleModel, BarModel, Titled,
};
use crate::text::decimal;
use crate::toc::{section_anchor, section_anchors, toc_anchors, Anchor};
use crate::tree::Markup;
use vstd::prelude::*;

verus! {

/// Titled blocks in two parts are rendered part by part, the second part
/// with the counter where the first part left it.
pub proof fn law_pairs_in_two_parts(a: Seq<Titled>, b: Seq<Titled>, start: nat)
    ensures
        count_titled(a + b) == count_titled(a) + count_titled(b),
        pairs_markup(a + b, start) == pairs_markup(a, start) + pairs_markup(
            b,
            start + count_titled(a),
        ),
    decreases b.len(),
{
    if b.len() > 0 {
        assert((a + b).drop_last() =~= a + b.drop_last());
        law_pairs_in_two_parts(a, b.drop_last(), start);
    }
}

/// A block with an empty title gets a header without an anchor and takes no
/// number: the blocks in front of it and behind it are rendered as they are
/// without it.
pub proof fn law_empty_title_takes_no_number(
    a: Seq<Titled>,
    block: BarModel,
    b: Seq<Titled>,
    start: nat,
)
    ensures
        count_titled(a + seq![(Seq::<char>::empty(), block)] + b) == count_titled(a + b),
        pairs_markup(a + b, start) == pairs_markup(a, start) + pairs_markup(
            b,
            start + count_titled(a),
        ),
        pairs_markup(a + seq![(Seq::<char>::empty(), block)] + b, start) == pairs_markup(a, start)
            + seq![Markup::Line("<h3></h3>"@)] + bar_markup(block) + pairs_markup(
            b,
            start + count_titled(a),
        ),
{
    let one = seq![(Seq::<char>::empty(), block)];
    assert(pairs_markup(one.drop_last(), start + count_titled(a)) =~= Seq::<Markup>::empty());
    law_pairs_in_two_parts(a, b, start);
    law_pairs_in_two_parts(a, one, start);
    law_pairs_in_two_parts(a + one, b, start);
}

/// The block at `i` with a title that is not empty gets, in the markup, the
/// header with the number after those that the blocks in front of it took,
/// and that number with that title is the anchor that the block sets.
pub proof fn law_block_sets_its_anchor(pairs: Seq<Titled>, start: nat, i: int)
    requires
        0 <= i < pairs.len(),
        pairs[i].0.len() > 0,
    ensures
        pairs_markup(pairs, start) == pairs_markup(pairs.take(i), start) + seq![
            Markup::Line(
                anchored_header(
                    "h3"@,
                    decimal(start + count_titled(pairs.take(i)) + 1),
                    pairs[i].0,
                ),
            ),
        ] + bar_markup(pairs[i].1) + pairs_markup(
            pairs.skip(i + 1),
            start + count_titled(pairs.take(i)) + 1,
        ),
        count_titled(pairs.take(i)) < pairs_anchors(pairs, start).len(),
        pairs_anchors(pairs, start)[count_titled(pairs.take(i)) as int] == (
            (start + count_titled(pairs.take(i)) + 1) as nat,
            pairs[i].0,
        ),
{
    let front = pairs.take(i + 1);
    let back = pairs.skip(i + 1);
    assert(front + back =~= pairs);
    assert(front.drop_last() =~= pairs.take(i));
    law_pairs_in_two_parts(front, back, start);
    lemma_anchors_in_two_parts(front, back, start);
    lemma_pairs_anchors(pairs.take(i), start);
}

proof fn lemma_anchors_in_two_parts(a: Seq<Titled>, b: Seq<Titled>, start: nat)
    ensures
        pairs_anchors(a + b, start) == pairs_anchors(a, start) + pairs_anchors(
            b,
            start + count_titled(a),
        ),
    decreases b.len(),
{
    if b.len() > 0 {
        assert((a + b).drop_last() =~= a + b.drop_last());
        law_pairs_in_two_parts(a, b.drop_last(), start);
        lemma_anchors_in_two_parts(a, b.drop_last(), start);
    }
}

/// Every title of every language's section is not empty.
pub open spec fn languages_titled(a: ArticleModel) -> bool {
    forall|k: int, i: int|
        0 <= k < a.dat.len() && 0 <= i < a.dat[k].contents.len() ==> (
        #[trigger] a.dat[k].contents[i]).0.len() > 0
}

proof fn lemma_pairs_anchors(pairs: Seq<Titled>, start: nat)
    ensures
        shown_titles(pairs).len() == count_titled(pairs),
        pairs_anchors(pairs, start) == Seq::new(
            shown_titles(pairs).len(),
            |j: int| ((start + 1 + j) as nat, shown_titles(pairs)[j]),
        ),
    decreases pairs.len(),
{
    reveal(Seq::filter);
    if pairs.len() > 0 {
        lemma_pairs_anchors(pairs.drop_last(), start);
        assert(titles(pairs).drop_last() =~= titles(pairs.drop_last()));
    }
}

proof fn lemma_all_shown(pairs: Seq<Titled>)
    requires
        forall|i: int| 0 <= i < pairs.len() ==> (#[trigger] pairs[i]).0.len() > 0,
    ensures
        shown_titles(pairs) == titles(pairs),
    decreases pairs.len(),
{
    reveal(Seq::filter);
    if pairs.len() > 0 {
        lemma_all_shown(pairs.drop_last());
        assert(titles(pairs).drop_last() =~= titles(pairs.drop_last()));
    }
}

proof fn lemma_languages_match(a: ArticleModel, k: int)
    requires
        languages_titled(a),
        0 <= k <= a.dat.len(),
    ensures
        section_anchor(outline_of(a), k + 1) == entry_start(a, k) + 1,
        toc_anchors(outline_of(a), k + 1) == section_anchors(outline_of(a), 0) + entries_anchors(
            a,
            k,
        ),
    decreases k,
{
    let o = outline_of(a);
    lemma_pairs_anchors(a.l.v1, 0);
    lemma_pairs_anchors(a.l.v2, count_titled(a.l.v1));
    if k == 0 {
        assert(toc_anchors(o, 0) =~= Seq::<Anchor>::empty());
    } else {
        lemma_languages_match(a, k - 1);
        let e = a.dat[k - 1];
        assert forall|i: int| 0 <= i < e.contents.len() implies (#[trigger] e.contents[i]).0.len()
            > 0 by {
        }
        lemma_all_shown(e.contents);
        lemma_pairs_anchors(e.contents, entry_start(a, k - 1) + 1);
    }
}

/// Where no language's section has a block with an empty title, the body of
/// an article sets the anchors that its table of contents links to: the
/// same numbers with the same titles in the same order.
pub proof fn law_body_anchors_match_toc(a: ArticleModel)
    requires
        languages_titled(a),
    ensures
        body_anchors(a) == toc_anchors(outline_of(a), outline_of(a).len() as int),
{
    lemma_languages_match(a, a.dat.len() as int);
    lemma_pairs_anchors(a.l.v1, 0);
    lemma_pairs_anchors(a.l.v2, count_titled(a.l.v1));
}

} // verus!

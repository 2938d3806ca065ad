//! From an article to its page, through the rewriting pass.

use crate::body::{
    article_markup, count_titled, entries_end, outline_of, page_path, title_count, ArticleModel,
    EntryModel, Titled,
};
use crate::lenticular::{
    faults_of, link_seq, link_text, output, seq_faults, seq_values, Error, Fault, Lenticular,
};
use crate::markup::{
    link_article, link_bar, link_entry, link_portion, write_page, Article, Bar, LangEntry, Page,
};
use crate::toc::toc_tree;
use crate::tree::text;
use vstd::prelude::*;

verus! {

/// A pass that never fails without an error to show for it.
pub open spec fn fails_with_errors<T: Lenticular>() -> bool {
    forall|x: T::V| (#[trigger] T::linked(x)) is Err ==> faults_of(T::linked(x)).len() > 0
}

proof fn lemma_seq_accepted<T: Lenticular>(s: Seq<T::V>)
    requires
        fails_with_errors::<T>(),
        link_seq::<T>(s) is Ok,
    ensures
        seq_values::<T>(s).len() == s.len(),
        forall|i: int|
            0 <= i < s.len() ==> T::linked(s[i]) == Ok::<T::V, Seq<Fault>>(
                #[trigger] seq_values::<T>(s)[i],
            ),
    decreases s.len(),
{
    if s.len() > 0 {
        lemma_seq_accepted::<T>(s.drop_last());
    }
}

proof fn lemma_titled_fails_with_errors()
    ensures
        fails_with_errors::<(String, Bar)>(),
        fails_with_errors::<LangEntry>(),
{
    assert forall|x: Titled|
        (#[trigger] <(String, Bar) as Lenticular>::linked(x)) is Err implies faults_of(
        <(String, Bar) as Lenticular>::linked(x),
    ).len() > 0 by {
    }
}

proof fn lemma_no_new_titles(pairs: Seq<Titled>)
    requires
        link_seq::<(String, Bar)>(pairs) is Ok,
    ensures
        count_titled(seq_values::<(String, Bar)>(pairs)) <= count_titled(pairs),
    decreases pairs.len(),
{
    lemma_titled_fails_with_errors();
    if pairs.len() > 0 {
        lemma_seq_accepted::<(String, Bar)>(pairs);
        let rest = pairs.drop_last();
        lemma_no_new_titles(rest);
        assert(seq_values::<(String, Bar)>(pairs).drop_last() =~= seq_values::<(String, Bar)>(
            rest,
        ));
    }
}

proof fn lemma_no_new_entry_titles(dat: Seq<EntryModel>, k: int, before: nat, after: nat)
    requires
        link_seq::<LangEntry>(dat) is Ok,
        0 <= k <= dat.len(),
        after <= before,
    ensures
        seq_values::<LangEntry>(dat).len() == dat.len(),
        entries_end(seq_values::<LangEntry>(dat), k, after) <= entries_end(dat, k, before),
    decreases k,
{
    lemma_titled_fails_with_errors();
    lemma_seq_accepted::<LangEntry>(dat);
    if k > 0 {
        lemma_no_new_entry_titles(dat, k - 1, before, after);
        assert(link_entry(dat[k - 1]) == Ok::<EntryModel, Seq<Fault>>(
            seq_values::<LangEntry>(dat)[k - 1],
        ));
        lemma_no_new_titles(dat[k - 1].contents);
    }
}

/// The rewriting pass sets no anchor that was not there: an accepted
/// article has at most as many titles that are not empty as it had.
pub proof fn law_pass_adds_no_title(a: ArticleModel)
    requires
        link_article(a) is Ok,
    ensures
        title_count(link_article(a)->Ok_0) <= title_count(a),
{
    let b = link_article(a)->Ok_0;
    lemma_no_new_titles(a.l.v1);
    lemma_no_new_titles(a.l.v2);
    lemma_no_new_entry_titles(
        a.dat,
        a.dat.len() as int,
        count_titled(a.l.v1) + count_titled(a.l.v2),
        count_titled(b.l.v1) + count_titled(b.l.v2),
    );
}

/// The page that stands for a result of the rewriting pass: that of the
/// rewritten article, or the errors of the pass and no page.
pub open spec fn page_of(
    linzi: Seq<char>,
    linked: Result<ArticleModel, Seq<Fault>>,
    links: crate::lang::Links,
) -> Result<(Seq<char>, Seq<char>, Seq<char>), Seq<Fault>> {
    match linked {
        Ok(a) => Ok(
            (page_path(linzi), text(toc_tree(outline_of(a))), text(article_markup(a, links))),
        ),
        Err(e) => Err(e),
    }
}

/// The path, the table of contents and the body of a page.
pub open spec fn page_parts(page: Page) -> (Seq<char>, Seq<char>, Seq<char>) {
    (page.path@, page.toc@, page.content@)
}

/// Rewrites the bracketed characters of the whole article into links and
/// makes its page. Where any text of the article is malformed there is no
/// page, and every malformed text is reported.
pub fn build_page(linzi: &str, article: &Article, links: &Vec<(String, String)>) -> (res: Result<
    Page,
    Vec<Error>,
>)
    requires
        title_count(article.deep_view()) <= usize::MAX,
    ensures
        match res {
            Ok(page) => Ok::<(Seq<char>, Seq<char>, Seq<char>), Seq<Fault>>(page_parts(page)),
            Err(e) => Err(e.deep_view()),
        } == page_of(linzi@, link_article(article.deep_view()), links.deep_view()),
{
    match article.lenticular_to_link() {
        Ok(linked) => {
            proof {
                law_pass_adds_no_title(article.deep_view());
            }
            Ok(write_page(linzi, linked, links))
        },
        Err(e) => Err(e),
    }
}

} // verus!

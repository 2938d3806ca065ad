//! What an article holds and how its body reads, as mathematics.

use crate::lang::{link_for, Links};
use crate::text::decimal;
use crate::toc::{Anchor, Outline};
use crate::tree::Markup;
use vstd::prelude::*;

verus! {

/// The mathematical content of a block of text: one paragraph, several
/// paragraphs, or a list of items.
pub enum BarModel {
    DivText(Seq<char>),
    DivTexts(Seq<Seq<char>>),
    List { ordered: bool, content: Seq<Seq<char>> },
}

/// A block under its title.
pub type Titled = (Seq<char>, BarModel);

/// The mathematical content of the section on the character itself.
pub struct PortionModel {
    pub init: Seq<BarModel>,
    pub v1: Seq<Titled>,
    pub grau_prua_yr: Seq<char>,
    pub v2: Seq<Titled>,
}

/// The mathematical content of the section on one language.
pub struct EntryModel {
    pub lang: Seq<char>,
    pub contents: Seq<Titled>,
}

/// The mathematical content of an article.
pub struct ArticleModel {
    pub l: PortionModel,
    pub dat: Seq<EntryModel>,
}

/// A paragraph.
pub open spec fn div(s: Seq<char>) -> Seq<char> {
    "<div>"@ + s + "</div>"@
}

/// A list item.
pub open spec fn item(s: Seq<char>) -> Seq<char> {
    "<li>"@ + s + "</li>"@
}

/// A header element that carries a named anchor in front of its title.
pub open spec fn anchored_header(tag: Seq<char>, number: Seq<char>, title: Seq<char>) -> Seq<
    char,
> {
    "<"@ + tag + "><a name=\"TOC--"@ + number + "\"></a>"@ + title + "</"@ + tag + ">"@
}

/// A block as markup: a paragraph is one line, paragraphs are one line
/// each, a list is one element with one line for each item.
pub open spec fn bar_markup(b: BarModel) -> Seq<Markup> {
    match b {
        BarModel::DivText(s) => seq![Markup::Line(div(s))],
        BarModel::DivTexts(v) => v.map_values(|s: Seq<char>| Markup::Line(div(s))),
        BarModel::List { ordered, content } => seq![
            Markup::Tag(
                if ordered {
                    "ol"@
                } else {
                    "ul"@
                },
                ">"@,
                content.map_values(|s: Seq<char>| Markup::Line(item(s))),
            ),
        ],
    }
}

/// Blocks without titles, one after the other.
pub open spec fn bars_markup(bars: Seq<BarModel>) -> Seq<Markup>
    decreases bars.len(),
{
    if bars.len() == 0 {
        Seq::empty()
    } else {
        bars_markup(bars.drop_last()) + bar_markup(bars.last())
    }
}

/// How far titled blocks advance the counter of anchors: by one for each
/// title that is not empty.
pub open spec fn count_titled(pairs: Seq<Titled>) -> nat
    decreases pairs.len(),
{
    if pairs.len() == 0 {
        0
    } else if pairs.last().0.len() == 0 {
        count_titled(pairs.drop_last())
    } else {
        count_titled(pairs.drop_last()) + 1
    }
}

/// The header of a titled block when the counter stands at `counter`: an
/// empty header for an empty title, else a header with the next anchor.
pub open spec fn title_markup(title: Seq<char>, counter: nat) -> Markup {
    if title.len() == 0 {
        Markup::Line("<h3></h3>"@)
    } else {
        Markup::Line(anchored_header("h3"@, decimal(counter + 1), title))
    }
}

/// Titled blocks as markup, with the counter at `start` before the first.
pub open spec fn pairs_markup(pairs: Seq<Titled>, start: nat) -> Seq<Markup>
    decreases pairs.len(),
{
    if pairs.len() == 0 {
        Seq::empty()
    } else {
        pairs_markup(pairs.drop_last(), start) + seq![
            title_markup(pairs.last().0, start + count_titled(pairs.drop_last())),
        ] + bar_markup(pairs.last().1)
    }
}

/// A horizontal rule in a block of its own.
pub open spec fn rule() -> Markup {
    Markup::Tag("div"@, ">"@, seq![Markup::Line("<hr>"@)])
}

/// The block that ends every section.
pub open spec fn line_break() -> Markup {
    Markup::Line(div("<br>"@))
}

/// The block that shows the image at `path`.
pub open spec fn image(path: Seq<char>) -> Markup {
    Markup::Line("<div><img src=\""@ + path + "\" width=\"200\" height=\"91\" border=\"0\"></div>"@)
}

/// The section on the character itself, with the counter at `start`: the
/// header under the unnumbered anchor and a rule, the untitled blocks, the
/// first titled blocks, the image between two empty blocks, the second
/// titled blocks, and a line break.
pub open spec fn portion_markup(l: PortionModel, start: nat) -> Seq<Markup> {
    seq![Markup::Line(anchored_header("h2"@, Seq::empty(), "燐字"@)), rule()] + bars_markup(
        l.init,
    ) + pairs_markup(l.v1, start) + seq![
        Markup::Line("<div></div>"@),
        image(l.grau_prua_yr),
        Markup::Line("<div></div>"@),
    ] + pairs_markup(l.v2, start + count_titled(l.v1)) + seq![line_break()]
}

/// Where the counter stands after the section on the character itself.
pub open spec fn portion_end(l: PortionModel, start: nat) -> nat {
    start + count_titled(l.v1) + count_titled(l.v2)
}

/// The title of a language's section: its name as a link to `url`.
pub open spec fn lang_link(url: Seq<char>, name: Seq<char>) -> Seq<char> {
    "<a href=\""@ + url + "\">"@ + name + "</a>"@
}

/// The section on one language, with the counter at `start`: the header
/// under the next anchor and a rule, the titled blocks, and a line break.
pub open spec fn entry_markup(e: EntryModel, url: Seq<char>, start: nat) -> Seq<Markup> {
    seq![Markup::Line(anchored_header("h2"@, decimal(start + 1), lang_link(url, e.lang))), rule()]
        + pairs_markup(e.contents, start + 1) + seq![line_break()]
}

/// Where the counter stands after the section on one language.
pub open spec fn entry_end(e: EntryModel, start: nat) -> nat {
    start + 1 + count_titled(e.contents)
}

/// Where the counter stands after the first `k` languages' sections.
pub open spec fn entries_end(dat: Seq<EntryModel>, k: int, start: nat) -> nat
    decreases k,
{
    if k <= 0 || k > dat.len() {
        start
    } else {
        entry_end(dat[k - 1], entries_end(dat, k - 1, start))
    }
}

/// The titles of titled blocks, in their order.
pub open spec fn titles(pairs: Seq<Titled>) -> Seq<Seq<char>> {
    pairs.map_values(|p: Titled| p.0)
}

/// The titles that are not empty, in their order.
pub open spec fn shown_titles(pairs: Seq<Titled>) -> Seq<Seq<char>> {
    titles(pairs).filter(|t: Seq<char>| t.len() > 0)
}

/// The outline of an article: first the section on the character, with
/// the titles of its blocks that are not empty, then one section for each
/// language with all the titles of its blocks, empty ones too.
pub open spec fn outline_of(a: ArticleModel) -> Outline {
    seq![("燐字"@, shown_titles(a.l.v1) + shown_titles(a.l.v2))] + a.dat.map_values(
        |e: EntryModel| (e.lang, titles(e.contents)),
    )
}

/// A section around its blocks.
pub open spec fn section(blocks: Seq<Markup>) -> Markup {
    Markup::Tag("section"@, ">"@, blocks)
}

/// Where the counter stands in front of the section on language `k`,
/// counted from 0, in an article rendered with the counter at 0.
pub open spec fn entry_start(a: ArticleModel, k: int) -> nat {
    entries_end(a.dat, k, portion_end(a.l, 0))
}

/// How many numbered anchors the body of an article holds.
pub open spec fn title_count(a: ArticleModel) -> nat {
    entry_start(a, a.dat.len() as int)
}

/// The body of an article: the section on the character, then the section
/// on each language, with one counter of anchors running through them all
/// from 0. Each language is linked to the address that `links` gives for it.
pub open spec fn article_markup(a: ArticleModel, links: Links) -> Markup {
    Markup::Tag(
        "article"@,
        ">"@,
        seq![section(portion_markup(a.l, 0))] + Seq::new(
            a.dat.len(),
            |k: int|
                section(
                    entry_markup(a.dat[k], link_for(links, a.dat[k].lang), entry_start(a, k)),
                ),
        ),
    )
}

/// The path of the file that holds the page on the character `linzi`.
pub open spec fn page_path(linzi: Seq<char>) -> Seq<char> {
    "docs/"@ + linzi + " - 燐字海.html"@
}

/// The anchors that titled blocks set, in their order, with the counter at
/// `start` before the first: each title that is not empty stands with the
/// next number.
pub open spec fn pairs_anchors(pairs: Seq<Titled>, start: nat) -> Seq<Anchor>
    decreases pairs.len(),
{
    if pairs.len() == 0 {
        Seq::empty()
    } else if pairs.last().0.len() == 0 {
        pairs_anchors(pairs.drop_last(), start)
    } else {
        pairs_anchors(pairs.drop_last(), start).push(
            ((start + count_titled(pairs.drop_last()) + 1) as nat, pairs.last().0),
        )
    }
}

/// The anchors that the sections on the first `k` languages set, in their
/// order: for each language that of its header, then those of its blocks.
pub open spec fn entries_anchors(a: ArticleModel, k: int) -> Seq<Anchor>
    decreases k,
{
    if k <= 0 || k > a.dat.len() {
        Seq::empty()
    } else {
        entries_anchors(a, k - 1) + seq![(entry_start(a, k - 1) + 1, a.dat[k - 1].lang)]
            + pairs_anchors(a.dat[k - 1].contents, entry_start(a, k - 1) + 1)
    }
}

/// The anchors that the body of an article sets, in their order: the
/// unnumbered one of the character's header first.
pub open spec fn body_anchors(a: ArticleModel) -> Seq<Anchor> {
    seq![(0nat, "燐字"@)] + pairs_anchors(a.l.v1, 0) + pairs_anchors(a.l.v2, count_titled(a.l.v1))
        + entries_anchors(a, a.dat.len() as int)
}

} // verus!

//! Pages whose titles are string literals, rendered as trees of [`Foo`].
//!
//! The types here hold the same content as those of [`crate::markup`] and
//! are rendered by the same rules.

use crate::body::{
    anchored_header, article_markup, entry_end, entry_markup, item, outline_of, page_path,
    portion_end, portion_markup, title_count, ArticleModel, BarModel, EntryModel, PortionModel,
};
use crate::lang::{link_for, Lang};
use crate::markup::{page_file, Article, IndentedStr, LangEntry, Page};
use crate::text::decimal;
use crate::toc::toc_tree;
use crate::tree::{lines, text, Markup};
use big_s::S;
use vstd::prelude::*;
use vstd::string::StringExecFns;

verus! {

/// A block of text: a paragraph, or a list of items with or without
/// numbers.
#[derive(Debug, Clone)]
pub enum Bar {
    DivText(String),
    Ul(Vec<String>),
    Ol(Vec<String>),
}

impl DeepView for Bar {
    type V = BarModel;

    open spec fn deep_view(&self) -> BarModel {
        match self {
            Bar::DivText(s) => BarModel::DivText(s@),
            Bar::Ul(v) => BarModel::List { ordered: false, content: v.deep_view() },
            Bar::Ol(v) => BarModel::List { ordered: true, content: v.deep_view() },
        }
    }
}

/// A piece of HTML as a tree: a line of finished text, or an element with
/// its name, the rest of its opening tag and its children.
#[derive(Debug)]
pub enum Foo {
    L(String),
    C(&'static str, String, Vec<Foo>),
}

impl DeepView for Foo {
    type V = Markup;

    open spec fn deep_view(&self) -> Markup
        decreases self,
    {
        match self {
            Foo::L(s) => Markup::Line(s@),
            Foo::C(name, rest, children) => Markup::Tag(
                name@,
                rest@,
                Seq::new(
                    children@.len(),
                    |i: int|
                        if 0 <= i < children@.len() {
                            children@[i].deep_view()
                        } else {
                            Markup::Line(Seq::empty())
                        },
                ),
            ),
        }
    }
}

impl Clone for Foo {
    fn clone(&self) -> (res: Foo)
        ensures
            res.deep_view() == self.deep_view(),
    {
        Foo::from_tree(&self.to_tree())
    }
}

fn copy_texts(v: &[String]) -> (res: Vec<String>)
    ensures
        res.deep_view() == v@.map_values(|s: String| s@),
{
    let mut res: Vec<String> = Vec::new();
    let mut i: usize = 0;
    while i < v.len()
        invariant
            i <= v.len(),
            res.deep_view() == v@.map_values(|s: String| s@).take(i as int),
        decreases v.len() - i,
    {
        let ghost so_far = res.deep_view();
        res.push(v[i].clone());
        assert(res.deep_view() =~= so_far.push(v[i as int]@));
        i += 1;
    }
    res
}

fn list_items(k: &[String]) -> (res: Vec<Foo>)
    ensures
        res.deep_view() == k@.map_values(|a: String| Markup::Line(item(a@))),
{
    let mut res: Vec<Foo> = Vec::new();
    let ghost all = k@.map_values(|a: String| Markup::Line(item(a@)));
    let mut i: usize = 0;
    while i < k.len()
        invariant
            i <= k.len(),
            all == k@.map_values(|a: String| Markup::Line(item(a@))),
            res.deep_view() == all.take(i as int),
        decreases k.len() - i,
    {
        let ghost so_far = res.deep_view();
        let mut line = String::from_str("<li>");
        line.append(k[i].as_str());
        line.append("</li>");
        res.push(Foo::L(line));
        assert(res.deep_view() =~= so_far.push(Markup::Line(item(k[i as int]@))));
        i += 1;
    }
    res
}

/// The header of a titled block, with the anchor of the number `ind`.
pub fn h3(ind: usize, t: &str) -> (res: Foo)
    ensures
        res.deep_view() == Markup::Line(anchored_header("h3"@, decimal(ind as nat), t@)),
{
    Foo::from_tree(&IndentedStr::with_toc("h3", ind, t))
}

impl Foo {
    /// The same tree in the other type.
    pub fn from_tree(t: &IndentedStr) -> (res: Foo)
        ensures
            res.deep_view() == t.deep_view(),
        decreases t,
    {
        match t {
            IndentedStr::Line(s) => Foo::L(s.clone()),
            IndentedStr::Tag(name, rest, children) => {
                let ghost kids = t.deep_view()->Tag_2;
                let mut v: Vec<Foo> = Vec::new();
                let mut i: usize = 0;
                while i < children.len()
                    invariant
                        i <= children.len(),
                        kids == t.deep_view()->Tag_2,
                        t == IndentedStr::Tag(*name, *rest, *children),
                        v.deep_view() == kids.take(i as int),
                    decreases children.len() - i,
                {
                    let ghost so_far = v.deep_view();
                    let child = Foo::from_tree(&children[i]);
                    v.push(child);
                    assert(v.deep_view() =~= so_far.push(child.deep_view()));
                    i += 1;
                }
                assert(v.deep_view() =~= kids);
                let res = Foo::C(*name, rest.clone(), v);
                assert(res.deep_view()->Tag_2 =~= kids);
                res
            },
        }
    }

    /// The same tree in the other type.
    pub fn to_tree(&self) -> (res: IndentedStr)
        ensures
            res.deep_view() == self.deep_view(),
        decreases self,
    {
        match self {
            Foo::L(s) => IndentedStr::Line(s.clone()),
            Foo::C(name, rest, children) => {
                let ghost kids = self.deep_view()->Tag_2;
                let mut v: Vec<IndentedStr> = Vec::new();
                let mut i: usize = 0;
                while i < children.len()
                    invariant
                        i <= children.len(),
                        kids == self.deep_view()->Tag_2,
                        self == Foo::C(*name, *rest, *children),
                        v.deep_view() == kids.take(i as int),
                    decreases children.len() - i,
                {
                    let ghost so_far = v.deep_view();
                    let child = children[i].to_tree();
                    v.push(child);
                    assert(v.deep_view() =~= so_far.push(child.deep_view()));
                    i += 1;
                }
                assert(v.deep_view() =~= kids);
                let res = IndentedStr::Tag(*name, rest.clone(), v);
                assert(res.deep_view()->Tag_2 =~= kids);
                res
            },
        }
    }

    /// A line that holds `s` as it is.
    pub fn ls(s: &'static str) -> (res: Foo)
        ensures
            res.deep_view() == Markup::Line(s@),
    {
        Foo::L(S(s))
    }

    /// An element without attributes around the children `v`.
    pub fn c(s: &'static str, v: Vec<Foo>) -> (res: Foo)
        ensures
            res.deep_view() == Markup::Tag(s@, ">"@, v.deep_view()),
    {
        let res = Foo::C(s, S(">"), v);
        assert(res.deep_view()->Tag_2 =~= v.deep_view());
        res
    }

    /// An element without attributes around the one child `v`.
    pub fn c1(s: &'static str, v: Foo) -> (res: Foo)
        ensures
            res.deep_view() == Markup::Tag(s@, ">"@, seq![v.deep_view()]),
    {
        let children = vec![v];
        let res = Foo::C(s, S(">"), children);
        assert(res.deep_view()->Tag_2 =~= seq![v.deep_view()]);
        res
    }

    /// A numbered list with one item for each text of `k`.
    pub fn ol(k: &[String]) -> (res: Foo)
        ensures
            res.deep_view() == Markup::Tag(
                "ol"@,
                ">"@,
                k@.map_values(|a: String| Markup::Line(item(a@))),
            ),
    {
        Foo::c("ol", list_items(k))
    }

    /// A list without numbers with one item for each text of `k`.
    pub fn ul(k: &[String]) -> (res: Foo)
        ensures
            res.deep_view() == Markup::Tag(
                "ul"@,
                ">"@,
                k@.map_values(|a: String| Markup::Line(item(a@))),
            ),
    {
        Foo::c("ul", list_items(k))
    }

    /// The lines of text of the tree, children two spaces deeper than their
    /// parent.
    pub fn strs(&self) -> (res: Vec<String>)
        ensures
            res.deep_view() == lines(self.deep_view()),
    {
        self.to_tree().strs()
    }

    /// The text of the tree: its lines with a line feed between neighbours.
    pub fn to_string(&self) -> (res: String)
        ensures
            res@ == text(self.deep_view()),
    {
        self.to_tree().to_string()
    }
}

impl Bar {
    /// The same block in the type that the renderer works on.
    pub fn to_block(&self) -> (res: crate::markup::Bar)
        ensures
            res.deep_view() == self.deep_view(),
    {
        match self {
            Bar::DivText(s) => crate::markup::Bar::DivText(s.clone()),
            Bar::Ul(v) => {
                let content = copy_texts(v.as_slice());
                assert(content.deep_view() =~= v.deep_view());
                crate::markup::Bar::List { ordered: false, content }
            },
            Bar::Ol(v) => {
                let content = copy_texts(v.as_slice());
                assert(content.deep_view() =~= v.deep_view());
                crate::markup::Bar::List { ordered: true, content }
            },
        }
    }

    /// The block as markup: a paragraph is a line, a list an element.
    pub fn into(self) -> (res: Foo)
        ensures
            seq![res.deep_view()] == crate::body::bar_markup(self.deep_view()),
    {
        match &self {
            Bar::DivText(s) => {
                let mut line = String::from_str("<div>");
                line.append(s.as_str());
                line.append("</div>");
                Foo::L(line)
            },
            Bar::Ul(v) => {
                let res = Foo::ul(v.as_slice());
                assert(res.deep_view()->Tag_2 =~= v.deep_view().map_values(
                    |s: Seq<char>| Markup::Line(item(s)),
                ));
                res
            },
            Bar::Ol(v) => {
                let res = Foo::ol(v.as_slice());
                assert(res.deep_view()->Tag_2 =~= v.deep_view().map_values(
                    |s: Seq<char>| Markup::Line(item(s)),
                ));
                res
            },
        }
    }
}

fn to_blocks(v: &Vec<Bar>) -> (res: Vec<crate::markup::Bar>)
    ensures
        res.deep_view() == v.deep_view(),
{
    let mut res: Vec<crate::markup::Bar> = Vec::new();
    let mut i: usize = 0;
    while i < v.len()
        invariant
            i <= v.len(),
            res.deep_view() == v.deep_view().take(i as int),
        decreases v.len() - i,
    {
        let ghost so_far = res.deep_view();
        let block = v[i].to_block();
        res.push(block);
        assert(res.deep_view() =~= so_far.push(block.deep_view()));
        i += 1;
    }
    res
}

fn to_pairs(v: &Vec<(&'static str, Bar)>) -> (res: Vec<(String, crate::markup::Bar)>)
    ensures
        res.deep_view() == v.deep_view(),
{
    let mut res: Vec<(String, crate::markup::Bar)> = Vec::new();
    let mut i: usize = 0;
    while i < v.len()
        invariant
            i <= v.len(),
            res.deep_view() == v.deep_view().take(i as int),
        decreases v.len() - i,
    {
        let ghost so_far = res.deep_view();
        let pair = (S(v[i].0), v[i].1.to_block());
        res.push(pair);
        assert(res.deep_view() =~= so_far.push(pair.deep_view()));
        i += 1;
    }
    res
}

fn to_foos(v: &Vec<IndentedStr>) -> (res: Vec<Foo>)
    ensures
        res.deep_view() == v.deep_view(),
{
    let mut res: Vec<Foo> = Vec::new();
    let mut i: usize = 0;
    while i < v.len()
        invariant
            i <= v.len(),
            res.deep_view() == v.deep_view().take(i as int),
        decreases v.len() - i,
    {
        let ghost so_far = res.deep_view();
        let one = Foo::from_tree(&v[i]);
        res.push(one);
        assert(res.deep_view() =~= so_far.push(one.deep_view()));
        i += 1;
    }
    res
}

/// The content of the section on `lang` with the titled blocks `v`.
pub open spec fn entry_of(lang: Lang, v: Vec<(&'static str, Bar)>) -> EntryModel {
    EntryModel { lang: lang.0@, contents: v.deep_view() }
}

/// The section on one language as markup, its header linked to the address
/// that `links` gives for the language. `ind` is the counter of anchors:
/// the header takes its next number, and so does then each title that is
/// not empty.
pub fn bar(
    lang: Lang,
    v: Vec<(&'static str, Bar)>,
    ind: &mut usize,
    links: &Vec<(String, String)>,
) -> (res: Vec<Foo>)
    requires
        entry_end(entry_of(lang, v), *old(ind) as nat) <= usize::MAX,
    ensures
        *final(ind) == entry_end(entry_of(lang, v), *old(ind) as nat),
        res.deep_view() == entry_markup(
            entry_of(lang, v),
            link_for(links.deep_view(), lang.0@),
            *old(ind) as nat,
        ),
{
    let url = lang.url(links);
    let entry = LangEntry { lang, contents: to_pairs(&v) };
    to_foos(&entry.render(url.as_str(), ind))
}

/// The section on the character itself: untitled blocks, titled blocks in
/// front of the image, the image's path, and titled blocks behind it.
pub struct LinziPortion {
    pub init: Vec<Bar>,
    pub v1: Vec<(&'static str, Bar)>,
    pub grau_prua_yr: &'static str,
    pub v2: Vec<(&'static str, Bar)>,
}

impl DeepView for LinziPortion {
    type V = PortionModel;

    open spec fn deep_view(&self) -> PortionModel {
        PortionModel {
            init: self.init.deep_view(),
            v1: self.v1.deep_view(),
            grau_prua_yr: self.grau_prua_yr@,
            v2: self.v2.deep_view(),
        }
    }
}

impl LinziPortion {
    /// The same section in the type that the renderer works on.
    pub fn to_portion(&self) -> (res: crate::markup::LinziPortion)
        ensures
            res.deep_view() == self.deep_view(),
    {
        crate::markup::LinziPortion {
            init: to_blocks(&self.init),
            v1: to_pairs(&self.v1),
            grau_prua_yr: S(self.grau_prua_yr),
            v2: to_pairs(&self.v2),
        }
    }

    /// The section as markup. `ind` is the counter of anchors: each title
    /// that is not empty takes its next number.
    pub fn render(self, ind: &mut usize) -> (res: Vec<Foo>)
        requires
            portion_end(self.deep_view(), *old(ind) as nat) <= usize::MAX,
        ensures
            *final(ind) == portion_end(self.deep_view(), *old(ind) as nat),
            res.deep_view() == portion_markup(self.deep_view(), *old(ind) as nat),
    {
        to_foos(&self.to_portion().render(ind))
    }
}

/// The sections on the languages of a page.
pub struct Hoge(pub Vec<LangHoge>);

/// The section on one language: the language and its titled blocks.
pub struct LangHoge {
    pub lang: Lang,
    pub contents: Vec<(&'static str, Bar)>,
}

impl DeepView for LangHoge {
    type V = EntryModel;

    open spec fn deep_view(&self) -> EntryModel {
        EntryModel { lang: self.lang.0@, contents: self.contents.deep_view() }
    }
}

impl DeepView for Hoge {
    type V = Seq<EntryModel>;

    open spec fn deep_view(&self) -> Seq<EntryModel> {
        self.0.deep_view()
    }
}

/// The content of the article made of `l` and `dat`.
pub open spec fn article_of(l: LinziPortion, dat: Hoge) -> ArticleModel {
    ArticleModel { l: l.deep_view(), dat: dat.deep_view() }
}

fn to_article(l: &LinziPortion, dat: &Hoge) -> (res: Article)
    ensures
        res.deep_view() == article_of(*l, *dat),
{
    let mut entries: Vec<LangEntry> = Vec::new();
    let mut i: usize = 0;
    while i < dat.0.len()
        invariant
            i <= dat.0.len(),
            entries.deep_view() == dat.deep_view().take(i as int),
        decreases dat.0.len() - i,
    {
        let ghost so_far = entries.deep_view();
        let entry = LangEntry {
            lang: Lang(dat.0[i].lang.ja()),
            contents: to_pairs(&dat.0[i].contents),
        };
        entries.push(entry);
        assert(entries.deep_view() =~= so_far.push(entry.deep_view()));
        i += 1;
    }
    assert(entries.deep_view() =~= dat.deep_view());
    Article { l: l.to_portion(), dat: entries }
}

/// Whether the counter of anchors can count all the numbered anchors of
/// the body of the page made of `l` and `dat`.
pub fn anchors_fit(l: &LinziPortion, dat: &Hoge) -> (ok: bool)
    ensures
        ok == (title_count(article_of(*l, *dat)) <= usize::MAX),
{
    crate::markup::anchors_fit(&to_article(l, dat))
}

/// The table of contents, as HTML text, and the body, as a tree, of the
/// page made of `l` and `dat`, with one numbering of anchors in both.
pub fn hoge(l: LinziPortion, dat: Hoge, links: &Vec<(String, String)>) -> (res: (String, Foo))
    requires
        title_count(article_of(l, dat)) <= usize::MAX,
    ensures
        res.0@ == text(toc_tree(outline_of(article_of(l, dat)))),
        res.1.deep_view() == article_markup(article_of(l, dat), links.deep_view()),
{
    let article = to_article(&l, &dat);
    let toc = crate::markup::generate_toc(crate::markup::outline(&article));
    let cont = Foo::from_tree(&crate::markup::render_body(article, links));
    (toc, cont)
}

/// The page on the character `linzi`, made of `l` and `h`.
pub fn write_page(
    linzi: &str,
    l: LinziPortion,
    h: Hoge,
    links: &Vec<(String, String)>,
) -> (res: Page)
    requires
        title_count(article_of(l, h)) <= usize::MAX,
    ensures
        res.path@ == page_path(linzi@),
        res.toc@ == text(toc_tree(outline_of(article_of(l, h)))),
        res.content@ == text(article_markup(article_of(l, h), links.deep_view())),
{
    let (toc, cont) = hoge(l, h, links);
    Page { path: page_file(linzi), toc, content: cont.to_string() }
}

/// The table of contents for the sections of `toc`, each with its title and
/// the titles of its subsections, as HTML text.
pub fn generate_toc(toc: Vec<(String, Vec<&str>)>) -> (res: String)
    ensures
        res@ == text(toc_tree(toc.deep_view())),
{
    let mut owned: Vec<(String, Vec<String>)> = Vec::new();
    let mut k: usize = 0;
    while k < toc.len()
        invariant
            k <= toc.len(),
            owned.deep_view() == toc.deep_view().take(k as int),
        decreases toc.len() - k,
    {
        let subs = &toc[k].1;
        let mut titles: Vec<String> = Vec::new();
        let mut j: usize = 0;
        while j < subs.len()
            invariant
                j <= subs.len(),
                titles.deep_view() == subs.deep_view().take(j as int),
            decreases subs.len() - j,
        {
            let ghost so_far = titles.deep_view();
            let title = String::from_str(subs[j]);
            titles.push(title);
            assert(titles.deep_view() =~= so_far.push(title@));
            j += 1;
        }
        assert(titles.deep_view() =~= subs.deep_view());
        let ghost so_far = owned.deep_view();
        let row = (toc[k].0.clone(), titles);
        owned.push(row);
        assert(owned.deep_view() =~= so_far.push(row.deep_view()));
        k += 1;
    }
    assert(owned.deep_view() =~= toc.deep_view());
    crate::markup::generate_toc(owned)
}

} // verus!

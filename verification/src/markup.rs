//! Articles and their rendering as indented HTML.

use crate::body::{
    anchored_header, article_markup, bar_markup, bars_markup, count_titled, div, entry_end,
    entry_markup, entry_start, image, item, lang_link, line_break, outline_of, page_path,
    pairs_markup, portion_end, portion_markup, rule, section, shown_titles, title_count,
    title_markup, titles, ArticleModel, BarModel, EntryModel, PortionModel, Titled,
};
use crate::lang::{link_for, Lang};
use crate::lenticular::{combine, link_pair, link_seq, link_text, Fault};
use crate::text::{decimal, push_decimal};
use crate::toc::{
    section_anchor, toc_section, toc_section_rest, toc_subsection_line, toc_tree, Outline,
};
use crate::tree::{child_lines, closing, indented, joined, lines, opening, text, Markup};
use big_s::S;
use vstd::prelude::*;
use vstd::string::StringExecFns;

pub use crate::lenticular::Error as LenticularError;
pub use crate::lenticular::Lenticular;

verus! {

/// A piece of HTML as a tree: a line of finished text, or an element with
/// its name, the rest of its opening tag and its children.
#[derive(Debug)]
pub enum IndentedStr {
    Line(String),
    Tag(&'static str, String, Vec<IndentedStr>),
}

impl DeepView for IndentedStr {
    type V = Markup;

    open spec fn deep_view(&self) -> Markup
        decreases self,
    {
        match self {
            IndentedStr::Line(s) => Markup::Line(s@),
            IndentedStr::Tag(name, rest, children) => Markup::Tag(
                name@,
                rest@,
                Seq::new(
                    children@.len(),
                    |i: int|
                        if 0 <= i < children@.len() {
                            children@[i].deep_view()
                        } else {
                            Markup::Line(Seq::empty())
                        },
                ),
            ),
        }
    }
}

impl Clone for IndentedStr {
    fn clone(&self) -> (res: IndentedStr)
        ensures
            res.deep_view() == self.deep_view(),
        decreases self,
    {
        match self {
            IndentedStr::Line(s) => IndentedStr::Line(s.clone()),
            IndentedStr::Tag(name, rest, children) => {
                let ghost kids = self.deep_view()->Tag_2;
                let mut v: Vec<IndentedStr> = Vec::new();
                let mut i: usize = 0;
                while i < children.len()
                    invariant
                        i <= children.len(),
                        kids == self.deep_view()->Tag_2,
                        self == IndentedStr::Tag(*name, *rest, *children),
                        v.deep_view() == kids.take(i as int),
                    decreases children.len() - i,
                {
                    let ghost so_far = v.deep_view();
                    let child = children[i].clone();
                    v.push(child);
                    assert(v.deep_view() =~= so_far.push(child.deep_view()));
                    i += 1;
                }
                assert(v.deep_view() =~= kids);
                let res = IndentedStr::Tag(*name, rest.clone(), v);
                assert(res.deep_view()->Tag_2 =~= kids);
                res
            },
        }
    }
}

fn header_line(tagname: &str, number: &str, title: &str) -> (res: IndentedStr)
    ensures
        res.deep_view() == Markup::Line(anchored_header(tagname@, number@, title@)),
{
    let mut line = String::from_str("<");
    line.append(tagname);
    line.append("><a name=\"TOC--");
    line.append(number);
    line.append("\"></a>");
    line.append(title);
    line.append("</");
    line.append(tagname);
    line.append(">");
    IndentedStr::Line(line)
}

impl IndentedStr {
    /// A header line whose anchor is named by the number `ind`.
    pub fn with_toc(tagname: &'static str, ind: usize, t: &str) -> (res: IndentedStr)
        ensures
            res.deep_view() == Markup::Line(anchored_header(tagname@, decimal(ind as nat), t@)),
    {
        let mut number = String::new();
        push_decimal(&mut number, ind as u128);
        header_line(tagname, number.as_str(), t)
    }

    /// A line that holds `s` as it is.
    pub fn ls(s: &'static str) -> (res: IndentedStr)
        ensures
            res.deep_view() == Markup::Line(s@),
    {
        IndentedStr::Line(S(s))
    }

    /// An element without attributes around the children `v`.
    pub fn c(tagname: &'static str, v: Vec<IndentedStr>) -> (res: IndentedStr)
        ensures
            res.deep_view() == Markup::Tag(tagname@, ">"@, v.deep_view()),
    {
        let res = IndentedStr::Tag(tagname, S(">"), v);
        assert(res.deep_view()->Tag_2 =~= v.deep_view());
        res
    }

    /// An element without attributes around the one child `v`.
    pub fn c1(tagname: &'static str, v: IndentedStr) -> (res: IndentedStr)
        ensures
            res.deep_view() == Markup::Tag(tagname@, ">"@, seq![v.deep_view()]),
    {
        let children = vec![v];
        let res = IndentedStr::Tag(tagname, S(">"), children);
        assert(res.deep_view()->Tag_2 =~= seq![v.deep_view()]);
        res
    }

    /// The lines of text of the tree, children two spaces deeper than their
    /// parent.
    pub fn strs(&self) -> (res: Vec<String>)
        ensures
            res.deep_view() == lines(self.deep_view()),
        decreases self,
    {
        match self {
            IndentedStr::Line(s) => vec![s.clone()],
            IndentedStr::Tag(tagname, tag_remaining, t) => {
                let ghost kids = self.deep_view()->Tag_2;
                let mut first = String::from_str("<");
                first.append(tagname);
                first.append(tag_remaining.as_str());
                let mut ans = vec![first];
                let mut i: usize = 0;
                while i < t.len()
                    invariant
                        i <= t.len(),
                        kids == self.deep_view()->Tag_2,
                        self == IndentedStr::Tag(*tagname, *tag_remaining, *t),
                        ans.deep_view() == seq![opening(tagname@, tag_remaining@)] + child_lines(
                            kids,
                            i as int,
                        ),
                    decreases t.len() - i,
                {
                    let k = t[i].strs();
                    let ghost before = ans.deep_view();
                    let ghost deeper = indented(lines(kids[i as int]));
                    let mut j: usize = 0;
                    while j < k.len()
                        invariant
                            j <= k.len(),
                            deeper == indented(k.deep_view()),
                            ans.deep_view() == before + deeper.take(j as int),
                        decreases k.len() - j,
                    {
                        let mut line = String::from_str("  ");
                        line.append(k[j].as_str());
                        let ghost so_far = ans.deep_view();
                        ans.push(line);
                        assert(ans.deep_view() =~= so_far.push(line@));
                        j += 1;
                    }
                    i += 1;
                }
                let mut last = String::from_str("</");
                last.append(tagname);
                last.append(">");
                ans.push(last);
                ans
            },
        }
    }

    /// The text of the tree: its lines with a line feed between neighbours.
    pub fn to_string(&self) -> (res: String)
        ensures
            res@ == text(self.deep_view()),
    {
        let all = self.strs();
        join_lines(&all)
    }
}

/// `lines` joined into one text, with a line feed between neighbours.
pub fn join_lines(lines: &Vec<String>) -> (res: String)
    ensures
        res@ == joined(lines.deep_view()),
{
    let mut out = String::new();
    let ghost whole = lines.deep_view();
    let mut i: usize = 0;
    while i < lines.len()
        invariant
            i <= lines.len(),
            whole == lines.deep_view(),
            out@ == joined(whole.take(i as int)),
        decreases lines.len() - i,
    {
        assert(whole.take(i + 1).drop_last() =~= whole.take(i as int));
        if i > 0 {
            out.append("\n");
            proof {
                reveal_strlit("\n");
            }
        }
        out.append(lines[i].as_str());
        i += 1;
    }
    assert(whole.take(lines.len() as int) =~= whole);
    out
}

/// The table of contents for the sections of `toc`, each with its title and
/// the titles of its subsections, as HTML text. Anchors are numbered through
/// all sections: the first section links to the unnumbered anchor, and each
/// later entry to the number after that of the entry before it.
pub fn generate_toc(toc: Vec<(String, Vec<String>)>) -> (res: String)
    ensures
        res@ == text(toc_tree(toc.deep_view())),
{
    let ghost outline: Outline = toc.deep_view();
    let mut global_ind: u128 = 0;
    let mut sections: Vec<IndentedStr> = Vec::new();
    let mut k: usize = 0;
    while k < toc.len()
        invariant
            k <= toc.len(),
            outline == toc.deep_view(),
            global_ind == section_anchor(outline, k as int),
            global_ind <= k * 0x1_0000_0000_0000_0000,
            sections.deep_view() == Seq::new(k as nat, |i: int| toc_section(outline, i)),
        decreases toc.len() - k,
    {
        assert((k + 1) * 0x1_0000_0000_0000_0000 <= u128::MAX) by (nonlinear_arith)
            requires
                k < usize::MAX,
                usize::MAX <= 0xffff_ffff_ffff_ffff,
        ;
        let ghost start = global_ind as nat;
        let ghost titles = outline[k as int].1;
        let subs = &toc[k].1;
        let mut rest = S(" class=\"goog-toc\"><a href=\"#TOC--");
        if global_ind != 0 {
            push_decimal(&mut rest, global_ind);
        }
        rest.append("\"><strong>");
        push_decimal(&mut rest, (k + 1) as u128);
        rest.append(" </strong>");
        rest.append(toc[k].0.as_str());
        rest.append("</a>");
        global_ind += 1;
        let mut v: Vec<IndentedStr> = Vec::new();
        let mut j: usize = 0;
        while j < subs.len()
            invariant
                j <= subs.len(),
                subs.deep_view() == titles,
                k < usize::MAX,
                start + 0x1_0000_0000_0000_0000 <= u128::MAX,
                global_ind == start + 1 + j,
                v.deep_view() == Seq::new(
                    j as nat,
                    |i: int|
                        Markup::Line(
                            toc_subsection_line(
                                start + 1 + i as nat,
                                (k + 1) as nat,
                                (i + 1) as nat,
                                titles[i],
                            ),
                        ),
                ),
            decreases subs.len() - j,
        {
            let mut line = String::from_str("<li class=\"goog-toc\"><a href=\"#TOC--");
            push_decimal(&mut line, global_ind);
            line.append("\"><strong>");
            push_decimal(&mut line, (k + 1) as u128);
            line.append(".");
            push_decimal(&mut line, (j + 1) as u128);
            line.append("\n          </strong>");
            line.append(subs[j].as_str());
            line.append("</a></li>");
            let ghost so_far = v.deep_view();
            v.push(IndentedStr::Line(line));
            assert(v.deep_view() =~= so_far.push(Markup::Line(line@)));
            global_ind += 1;
            j += 1;
        }
        assert(v.deep_view() =~= toc_section(outline, k as int)->Tag_2[0]->Tag_2);
        let list = IndentedStr::Tag("ol", S(" class=\"goog-toc\">"), v);
        assert(list.deep_view()->Tag_2 =~= v.deep_view());
        let only = vec![list];
        let section = IndentedStr::Tag("li", rest, only);
        assert(section.deep_view()->Tag_2 =~= seq![list.deep_view()]);
        let ghost so_far = sections.deep_view();
        sections.push(section);
        assert(sections.deep_view() =~= so_far.push(toc_section(outline, k as int)));
        k += 1;
    }
    let tree = IndentedStr::Tag("ol", S(" class=\"goog-toc\">"), sections);
    assert(tree.deep_view()->Tag_2 =~= sections.deep_view());
    tree.to_string()
}

/// A block of text: one paragraph, several paragraphs, or a list of items.
#[derive(Debug, Clone)]
pub enum Bar {
    DivText(String),
    DivTexts(Vec<String>),
    List { ordered: bool, content: Vec<String> },
}

impl DeepView for Bar {
    type V = BarModel;

    open spec fn deep_view(&self) -> BarModel {
        match self {
            Bar::DivText(s) => BarModel::DivText(s@),
            Bar::DivTexts(v) => BarModel::DivTexts(v.deep_view()),
            Bar::List { ordered, content } => BarModel::List {
                ordered: *ordered,
                content: content.deep_view(),
            },
        }
    }
}

/// The section on the character itself: untitled blocks, titled blocks in
/// front of the image, the image's path, and titled blocks behind it.
#[derive(Debug, Clone)]
pub struct LinziPortion {
    pub init: Vec<Bar>,
    pub v1: Vec<(String, Bar)>,
    pub grau_prua_yr: String,
    pub v2: Vec<(String, Bar)>,
}

impl DeepView for LinziPortion {
    type V = PortionModel;

    open spec fn deep_view(&self) -> PortionModel {
        PortionModel {
            init: self.init.deep_view(),
            v1: self.v1.deep_view(),
            grau_prua_yr: self.grau_prua_yr@,
            v2: self.v2.deep_view(),
        }
    }
}

/// The section on one language: the language and its titled blocks.
#[derive(Debug, Clone)]
pub struct LangEntry {
    pub lang: Lang,
    pub contents: Vec<(String, Bar)>,
}

impl DeepView for LangEntry {
    type V = EntryModel;

    open spec fn deep_view(&self) -> EntryModel {
        EntryModel { lang: self.lang.0@, contents: self.contents.deep_view() }
    }
}

/// All that a page says of one character.
#[derive(Debug, Clone)]
pub struct Article {
    pub l: LinziPortion,
    pub dat: Vec<LangEntry>,
}

impl DeepView for Article {
    type V = ArticleModel;

    open spec fn deep_view(&self) -> ArticleModel {
        ArticleModel { l: self.l.deep_view(), dat: self.dat.deep_view() }
    }
}

fn wrapped_line(before: &str, s: &str, after: &str) -> (res: IndentedStr)
    ensures
        res.deep_view() == Markup::Line(before@ + s@ + after@),
{
    let mut line = String::from_str(before);
    line.append(s);
    line.append(after);
    IndentedStr::Line(line)
}

fn wrapped_lines(before: &str, v: &Vec<String>, after: &str) -> (res: Vec<IndentedStr>)
    ensures
        res.deep_view() == v.deep_view().map_values(
            |s: Seq<char>| Markup::Line(before@ + s + after@),
        ),
{
    let mut res: Vec<IndentedStr> = Vec::new();
    let ghost wrap = |s: Seq<char>| Markup::Line(before@ + s + after@);
    let mut i: usize = 0;
    while i < v.len()
        invariant
            i <= v.len(),
            wrap == |s: Seq<char>| Markup::Line(before@ + s + after@),
            res.deep_view() == v.deep_view().map_values(wrap).take(i as int),
        decreases v.len() - i,
    {
        let ghost so_far = res.deep_view();
        let line = wrapped_line(before, v[i].as_str(), after);
        res.push(line);
        assert(res.deep_view() =~= so_far.push(line.deep_view()));
        i += 1;
    }
    res
}

fn append_markup(ans: &mut Vec<IndentedStr>, mut more: Vec<IndentedStr>)
    ensures
        final(ans).deep_view() == old(ans).deep_view() + more.deep_view(),
{
    ans.append(&mut more);
}

fn push_markup(ans: &mut Vec<IndentedStr>, one: IndentedStr)
    ensures
        final(ans).deep_view() == old(ans).deep_view() + seq![one.deep_view()],
{
    ans.push(one);
}

impl Bar {
    /// The block as markup.
    pub fn render(&self) -> (res: Vec<IndentedStr>)
        ensures
            res.deep_view() == bar_markup(self.deep_view()),
    {
        match self {
            Bar::DivText(s) => vec![wrapped_line("<div>", s.as_str(), "</div>")],
            Bar::DivTexts(v) => wrapped_lines("<div>", v, "</div>"),
            Bar::List { ordered, content } => {
                let items = wrapped_lines("<li>", content, "</li>");
                assert(items.deep_view() =~= content.deep_view().map_values(
                    |s: Seq<char>| Markup::Line(item(s)),
                ));
                let list = IndentedStr::c(
                    if *ordered {
                        "ol"
                    } else {
                        "ul"
                    },
                    items,
                );
                vec![list]
            },
        }
    }
}

proof fn lemma_count_grows(pairs: Seq<Titled>, i: int)
    requires
        0 <= i <= pairs.len(),
    ensures
        count_titled(pairs.take(i)) <= count_titled(pairs),
    decreases pairs.len(),
{
    if i == pairs.len() {
        assert(pairs.take(i) =~= pairs);
    } else {
        assert(pairs.drop_last().take(i) =~= pairs.take(i));
        lemma_count_grows(pairs.drop_last(), i);
    }
}

/// Appends titled blocks to `ans`. A title that is not empty takes the next
/// number of `ind` for its anchor; an empty one leaves `ind` as it is.
pub fn render_pairs(pairs: &Vec<(String, Bar)>, ind: &mut usize, ans: &mut Vec<IndentedStr>)
    requires
        *old(ind) + count_titled(pairs.deep_view()) <= usize::MAX,
    ensures
        *final(ind) == *old(ind) + count_titled(pairs.deep_view()),
        final(ans).deep_view() == old(ans).deep_view() + pairs_markup(
            pairs.deep_view(),
            *old(ind) as nat,
        ),
{
    let ghost whole = pairs.deep_view();
    let ghost start = *ind as nat;
    let ghost before = ans.deep_view();
    let mut i: usize = 0;
    while i < pairs.len()
        invariant
            i <= pairs.len(),
            whole == pairs.deep_view(),
            start + count_titled(whole) <= usize::MAX,
            *ind == start + count_titled(whole.take(i as int)),
            ans.deep_view() == before + pairs_markup(whole.take(i as int), start),
        decreases pairs.len() - i,
    {
        assert(whole.take(i + 1).drop_last() =~= whole.take(i as int));
        proof {
            lemma_count_grows(whole, i + 1);
        }
        let header = if pairs[i].0.as_str().is_empty() {
            IndentedStr::ls("<h3></h3>")
        } else {
            *ind += 1;
            IndentedStr::with_toc("h3", *ind, pairs[i].0.as_str())
        };
        push_markup(ans, header);
        append_markup(ans, pairs[i].1.render());
        i += 1;
    }
    assert(whole.take(pairs.len() as int) =~= whole);
}

fn rule_block() -> (res: IndentedStr)
    ensures
        res.deep_view() == rule(),
{
    IndentedStr::c1("div", IndentedStr::ls("<hr>"))
}

fn line_break_block() -> (res: IndentedStr)
    ensures
        res.deep_view() == line_break(),
{
    wrapped_line("<div>", S("<br>").as_str(), "</div>")
}

impl LinziPortion {
    /// The section as markup. `ind` is the counter of anchors: each title
    /// that is not empty takes its next number.
    pub fn render(self, ind: &mut usize) -> (res: Vec<IndentedStr>)
        requires
            portion_end(self.deep_view(), *old(ind) as nat) <= usize::MAX,
        ensures
            *final(ind) == portion_end(self.deep_view(), *old(ind) as nat),
            res.deep_view() == portion_markup(self.deep_view(), *old(ind) as nat),
    {
        let mut ans = vec![header_line("h2", "", "燐字"), rule_block()];
        proof {
            reveal_strlit("");
        }
        let ghost head = ans.deep_view();
        let ghost bars = self.init.deep_view();
        let mut i: usize = 0;
        while i < self.init.len()
            invariant
                i <= self.init.len(),
                bars == self.init.deep_view(),
                ans.deep_view() == head + bars_markup(bars.take(i as int)),
            decreases self.init.len() - i,
        {
            assert(bars.take(i + 1).drop_last() =~= bars.take(i as int));
            append_markup(&mut ans, self.init[i].render());
            i += 1;
        }
        assert(bars.take(self.init.len() as int) =~= bars);
        render_pairs(&self.v1, ind, &mut ans);
        push_markup(&mut ans, IndentedStr::ls("<div></div>"));
        push_markup(
            &mut ans,
            wrapped_line(
                "<div><img src=\"",
                self.grau_prua_yr.as_str(),
                "\" width=\"200\" height=\"91\" border=\"0\"></div>",
            ),
        );
        push_markup(&mut ans, IndentedStr::ls("<div></div>"));
        render_pairs(&self.v2, ind, &mut ans);
        push_markup(&mut ans, line_break_block());
        ans
    }
}

impl LangEntry {
    /// The section as markup, its header linked to `url`. `ind` is the
    /// counter of anchors: the header takes its next number, and so does
    /// then each title that is not empty.
    pub fn render(&self, url: &str, ind: &mut usize) -> (res: Vec<IndentedStr>)
        requires
            entry_end(self.deep_view(), *old(ind) as nat) <= usize::MAX,
        ensures
            *final(ind) == entry_end(self.deep_view(), *old(ind) as nat),
            res.deep_view() == entry_markup(self.deep_view(), url@, *old(ind) as nat),
    {
        *ind += 1;
        let mut link = String::from_str("<a href=\"");
        link.append(url);
        link.append("\">");
        link.append(self.lang.ja().as_str());
        link.append("</a>");
        let mut ans = vec![IndentedStr::with_toc("h2", *ind, link.as_str()), rule_block()];
        render_pairs(&self.contents, ind, &mut ans);
        push_markup(&mut ans, line_break_block());
        ans
    }
}

/// The result of the rewriting pass on a block: the block with every text
/// rewritten, or every error found in its texts.
pub open spec fn link_bar(b: BarModel) -> Result<BarModel, Seq<Fault>> {
    match b {
        BarModel::DivText(s) => match link_text(s) {
            Ok(t) => Ok(BarModel::DivText(t)),
            Err(e) => Err(e),
        },
        BarModel::DivTexts(v) => match link_seq::<String>(v) {
            Ok(w) => Ok(BarModel::DivTexts(w)),
            Err(e) => Err(e),
        },
        BarModel::List { ordered, content } => match link_seq::<String>(content) {
            Ok(c) => Ok(BarModel::List { ordered, content: c }),
            Err(e) => Err(e),
        },
    }
}

impl Lenticular for Bar {
    open spec fn linked(v: BarModel) -> Result<BarModel, Seq<Fault>> {
        link_bar(v)
    }

    fn lenticular_to_link(&self) -> (res: Result<Bar, Vec<LenticularError>>) {
        match self {
            Bar::DivText(s) => match s.lenticular_to_link() {
                Ok(t) => Ok(Bar::DivText(t)),
                Err(e) => Err(e),
            },
            Bar::DivTexts(v) => match v.lenticular_to_link() {
                Ok(w) => Ok(Bar::DivTexts(w)),
                Err(e) => Err(e),
            },
            Bar::List { ordered, content } => match content.lenticular_to_link() {
                Ok(c) => Ok(Bar::List { ordered: *ordered, content: c }),
                Err(e) => Err(e),
            },
        }
    }
}

impl Lenticular for Lang {
    /// A language's name is never rewritten.
    open spec fn linked(v: Seq<char>) -> Result<Seq<char>, Seq<Fault>> {
        Ok(v)
    }

    fn lenticular_to_link(&self) -> (res: Result<Lang, Vec<LenticularError>>) {
        Ok(Lang(self.0.clone()))
    }
}

/// The result of the pass on the section on the character: errors come in
/// the order of the untitled blocks, the first titled blocks, the image's
/// path, and the second titled blocks.
pub open spec fn link_portion(l: PortionModel) -> Result<PortionModel, Seq<Fault>> {
    match link_pair(
        link_pair(link_seq::<Bar>(l.init), link_seq::<(String, Bar)>(l.v1)),
        link_pair(link_text(l.grau_prua_yr), link_seq::<(String, Bar)>(l.v2)),
    ) {
        Ok(((init, v1), (grau_prua_yr, v2))) => Ok(PortionModel { init, v1, grau_prua_yr, v2 }),
        Err(e) => Err(e),
    }
}

impl Lenticular for LinziPortion {
    open spec fn linked(v: PortionModel) -> Result<PortionModel, Seq<Fault>> {
        link_portion(v)
    }

    fn lenticular_to_link(&self) -> (res: Result<LinziPortion, Vec<LenticularError>>) {
        let front = combine(self.init.lenticular_to_link(), self.v1.lenticular_to_link());
        let back = combine(self.grau_prua_yr.lenticular_to_link(), self.v2.lenticular_to_link());
        match combine(front, back) {
            Ok(((init, v1), (grau_prua_yr, v2))) => Ok(LinziPortion { init, v1, grau_prua_yr, v2 }),
            Err(e) => Err(e),
        }
    }
}

/// The result of the pass on the section on one language.
pub open spec fn link_entry(e: EntryModel) -> Result<EntryModel, Seq<Fault>> {
    match link_seq::<(String, Bar)>(e.contents) {
        Ok(contents) => Ok(EntryModel { lang: e.lang, contents }),
        Err(f) => Err(f),
    }
}

impl Lenticular for LangEntry {
    open spec fn linked(v: EntryModel) -> Result<EntryModel, Seq<Fault>> {
        link_entry(v)
    }

    fn lenticular_to_link(&self) -> (res: Result<LangEntry, Vec<LenticularError>>) {
        match combine(self.lang.lenticular_to_link(), self.contents.lenticular_to_link()) {
            Ok((lang, contents)) => Ok(LangEntry { lang, contents }),
            Err(e) => Err(e),
        }
    }
}

/// The result of the pass on an article: the article with every text
/// rewritten, or every error found in it, those of the section on the
/// character first and then those of each language in turn.
pub open spec fn link_article(a: ArticleModel) -> Result<ArticleModel, Seq<Fault>> {
    match link_pair(link_portion(a.l), link_seq::<LangEntry>(a.dat)) {
        Ok((l, dat)) => Ok(ArticleModel { l, dat }),
        Err(e) => Err(e),
    }
}

impl Lenticular for Article {
    open spec fn linked(v: ArticleModel) -> Result<ArticleModel, Seq<Fault>> {
        link_article(v)
    }

    fn lenticular_to_link(&self) -> (res: Result<Article, Vec<LenticularError>>) {
        match combine(self.l.lenticular_to_link(), self.dat.lenticular_to_link()) {
            Ok((l, dat)) => Ok(Article { l, dat }),
            Err(e) => Err(e),
        }
    }
}

/// A finished page: the path of its file, its table of contents and its
/// body, both as HTML text.
#[derive(Debug)]
pub struct Page {
    pub path: String,
    pub toc: String,
    pub content: String,
}

fn push_titles(pairs: &Vec<(String, Bar)>, skip_empty: bool, out: &mut Vec<String>)
    ensures
        final(out).deep_view() == old(out).deep_view() + if skip_empty {
            shown_titles(pairs.deep_view())
        } else {
            titles(pairs.deep_view())
        },
{
    let ghost whole = pairs.deep_view();
    let ghost before = out.deep_view();
    let ghost shown = |t: Seq<char>| t.len() > 0;
    let mut i: usize = 0;
    proof {
        reveal(Seq::filter);
    }
    while i < pairs.len()
        invariant
            i <= pairs.len(),
            whole == pairs.deep_view(),
            shown == |t: Seq<char>| t.len() > 0,
            out.deep_view() == before + if skip_empty {
                titles(whole).take(i as int).filter(shown)
            } else {
                titles(whole).take(i as int)
            },
        decreases pairs.len() - i,
    {
        proof {
            reveal(Seq::filter);
        }
        assert(titles(whole).take(i + 1).drop_last() =~= titles(whole).take(i as int));
        let ghost so_far = out.deep_view();
        if !(skip_empty && pairs[i].0.as_str().is_empty()) {
            out.push(pairs[i].0.clone());
            assert(out.deep_view() =~= so_far.push(pairs[i as int].0@));
        }
        i += 1;
    }
    assert(titles(whole).take(pairs.len() as int) =~= titles(whole));
}

/// The outline of an article, from which its table of contents is made.
pub fn outline(article: &Article) -> (res: Vec<(String, Vec<String>)>)
    ensures
        res.deep_view() == outline_of(article.deep_view()),
{
    let ghost a = article.deep_view();
    let mut own: Vec<String> = Vec::new();
    push_titles(&article.l.v1, true, &mut own);
    push_titles(&article.l.v2, true, &mut own);
    let mut toc = vec![(S("燐字"), own)];
    let ghost first = toc.deep_view();
    let ghost rows = a.dat.map_values(|e: EntryModel| (e.lang, titles(e.contents)));
    let mut k: usize = 0;
    while k < article.dat.len()
        invariant
            k <= article.dat.len(),
            a == article.deep_view(),
            rows == a.dat.map_values(|e: EntryModel| (e.lang, titles(e.contents))),
            toc.deep_view() == first + rows.take(k as int),
        decreases article.dat.len() - k,
    {
        let mut under: Vec<String> = Vec::new();
        push_titles(&article.dat[k].contents, false, &mut under);
        let ghost so_far = toc.deep_view();
        let row = (article.dat[k].lang.ja(), under);
        toc.push(row);
        assert(toc.deep_view() =~= so_far.push(row.deep_view()));
        k += 1;
    }
    toc
}

proof fn lemma_entries_grow(a: ArticleModel, k: int)
    requires
        0 <= k <= a.dat.len(),
    ensures
        entry_start(a, k) <= title_count(a),
    decreases a.dat.len() - k,
{
    if k < a.dat.len() {
        lemma_entries_grow(a, k + 1);
    }
}

/// How many of the titles are not empty.
pub fn count_titles(pairs: &Vec<(String, Bar)>) -> (n: usize)
    ensures
        n == count_titled(pairs.deep_view()),
{
    let ghost whole = pairs.deep_view();
    let mut n: usize = 0;
    let mut i: usize = 0;
    while i < pairs.len()
        invariant
            i <= pairs.len(),
            whole == pairs.deep_view(),
            n <= i,
            n == count_titled(whole.take(i as int)),
        decreases pairs.len() - i,
    {
        assert(whole.take(i + 1).drop_last() =~= whole.take(i as int));
        if !pairs[i].0.as_str().is_empty() {
            n += 1;
        }
        i += 1;
    }
    assert(whole.take(pairs.len() as int) =~= whole);
    n
}

/// Whether the counter of anchors can count all the numbered anchors of
/// the article's body.
pub fn anchors_fit(article: &Article) -> (ok: bool)
    ensures
        ok == (title_count(article.deep_view()) <= usize::MAX),
{
    let ghost a = article.deep_view();
    let mut total: u128 = count_titles(&article.l.v1) as u128 + count_titles(&article.l.v2) as u128;
    if total > usize::MAX as u128 {
        proof {
            lemma_entries_grow(a, 0);
        }
        return false;
    }
    let mut k: usize = 0;
    while k < article.dat.len()
        invariant
            k <= article.dat.len(),
            a == article.deep_view(),
            total == entry_start(a, k as int),
            total <= usize::MAX,
        decreases article.dat.len() - k,
    {
        total = total + 1 + count_titles(&article.dat[k].contents) as u128;
        k += 1;
        if total > usize::MAX as u128 {
            proof {
                lemma_entries_grow(a, k as int);
            }
            return false;
        }
    }
    true
}

/// The body of an article as a tree: the section on the character, then
/// the section on each language, with one counter of anchors running
/// through them all from 0. Each language is linked to the address that
/// `links` gives for it.
pub fn render_body(article: Article, links: &Vec<(String, String)>) -> (res: IndentedStr)
    requires
        title_count(article.deep_view()) <= usize::MAX,
    ensures
        res.deep_view() == article_markup(article.deep_view(), links.deep_view()),
{
    let ghost a = article.deep_view();
    let ghost table = links.deep_view();
    let Article { l, dat } = article;
    let mut toc_num: usize = 0;
    proof {
        lemma_entries_grow(a, 0);
    }
    let linzi_portion = l.render(&mut toc_num);
    let mut vv = vec![IndentedStr::c("section", linzi_portion)];
    let ghost first = vv.deep_view();
    assert(first =~= seq![section(portion_markup(a.l, 0))]);
    let ghost rest = Seq::new(
        a.dat.len(),
        |k: int| section(entry_markup(a.dat[k], link_for(table, a.dat[k].lang), entry_start(a, k))),
    );
    let mut k: usize = 0;
    while k < dat.len()
        invariant
            k <= dat.len(),
            a.dat == dat.deep_view(),
            table == links.deep_view(),
            title_count(a) <= usize::MAX,
            toc_num == entry_start(a, k as int),
            rest == Seq::new(
                a.dat.len(),
                |k: int|
                    section(
                        entry_markup(a.dat[k], link_for(table, a.dat[k].lang), entry_start(a, k)),
                    ),
            ),
            vv.deep_view() == first + rest.take(k as int),
        decreases dat.len() - k,
    {
        proof {
            lemma_entries_grow(a, k + 1);
        }
        let url = dat[k].lang.url(links);
        let blocks = dat[k].render(url.as_str(), &mut toc_num);
        let ghost so_far = vv.deep_view();
        let one = IndentedStr::c("section", blocks);
        vv.push(one);
        assert(vv.deep_view() =~= so_far.push(one.deep_view()));
        k += 1;
    }
    assert(rest.take(dat.len() as int) =~= rest);
    IndentedStr::c("article", vv)
}

/// The path of the file for the page on the character `linzi`.
pub fn page_file(linzi: &str) -> (res: String)
    ensures
        res@ == page_path(linzi@),
{
    let mut path = String::from_str("docs/");
    path.append(linzi);
    path.append(" - 燐字海.html");
    path
}

/// The page on the character `linzi`: the table of contents of the article
/// and its body, with one numbering of anchors in both. Each language is
/// linked to the address that `links` gives for it.
pub fn write_page(linzi: &str, article: Article, links: &Vec<(String, String)>) -> (res: Page)
    requires
        title_count(article.deep_view()) <= usize::MAX,
    ensures
        res.path@ == page_path(linzi@),
        res.toc@ == text(toc_tree(outline_of(article.deep_view()))),
        res.content@ == text(article_markup(article.deep_view(), links.deep_view())),
{
    let toc = outline(&article);
    let cont = render_body(article, links);
    Page { path: page_file(linzi), toc: generate_toc(toc), content: cont.to_string() }
}

} // verus!

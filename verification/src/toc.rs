//! The table of contents and its numbering, as mathematics.

use crate::text::decimal;
use crate::tree::Markup;
use vstd::prelude::*;

verus! {

/// The sections of a page, each with its title and the titles of its
/// subsections.
pub type Outline = Seq<(Seq<char>, Seq<Seq<char>>)>;

/// The name of the anchor with the number `n`. The anchor in front of
/// everything else has the number 0 and the empty name.
pub open spec fn anchor_name(n: nat) -> Seq<char> {
    if n == 0 {
        Seq::empty()
    } else {
        decimal(n)
    }
}

/// The number of the anchor of section `k`, counted from 0: one more than
/// the number of the last anchor of the section before it, which has one
/// anchor of its own and one for each of its subsections.
pub open spec fn section_anchor(outline: Outline, k: int) -> nat
    decreases k,
{
    if k <= 0 || k > outline.len() {
        0
    } else {
        section_anchor(outline, k - 1) + 1 + outline[k - 1].1.len()
    }
}

/// The number of the anchor of subsection `j` of section `k`, both counted
/// from 0.
pub open spec fn subsection_anchor(outline: Outline, k: int, j: int) -> nat {
    section_anchor(outline, k) + 1 + j as nat
}

/// The attributes of a section's list item and the link that follows them.
pub open spec fn toc_section_rest(anchor: nat, ordinal: nat, title: Seq<char>) -> Seq<char> {
    " class=\"goog-toc\"><a href=\"#TOC--"@ + anchor_name(anchor) + "\"><strong>"@ + decimal(
        ordinal,
    ) + " </strong>"@ + title + "</a>"@
}

/// The list item of a subsection.
pub open spec fn toc_subsection_line(
    anchor: nat,
    section: nat,
    subsection: nat,
    title: Seq<char>,
) -> Seq<char> {
    "<li class=\"goog-toc\"><a href=\"#TOC--"@ + decimal(anchor) + "\"><strong>"@ + decimal(
        section,
    ) + "."@ + decimal(subsection) + "\n          </strong>"@ + title + "</a></li>"@
}

/// The list item of section `k`, counted from 0, with the list of its
/// subsections inside.
pub open spec fn toc_section(outline: Outline, k: int) -> Markup {
    Markup::Tag(
        "li"@,
        toc_section_rest(section_anchor(outline, k), (k + 1) as nat, outline[k].0),
        seq![
            Markup::Tag(
                "ol"@,
                " class=\"goog-toc\">"@,
                Seq::new(
                    outline[k].1.len(),
                    |j: int|
                        Markup::Line(
                            toc_subsection_line(
                                subsection_anchor(outline, k, j),
                                (k + 1) as nat,
                                (j + 1) as nat,
                                outline[k].1[j],
                            ),
                        ),
                ),
            ),
        ],
    )
}

/// The table of contents of an outline.
pub open spec fn toc_tree(outline: Outline) -> Markup {
    Markup::Tag(
        "ol"@,
        " class=\"goog-toc\">"@,
        Seq::new(outline.len(), |k: int| toc_section(outline, k)),
    )
}

/// An anchor as a reader meets it: its number, and the title that stands
/// with it.
pub type Anchor = (nat, Seq<char>);

/// The anchors that the list item of section `k` links to, in their order:
/// that of the section, then those of its subsections.
pub open spec fn section_anchors(outline: Outline, k: int) -> Seq<Anchor> {
    seq![(section_anchor(outline, k), outline[k].0)] + Seq::new(
        outline[k].1.len(),
        |j: int| (subsection_anchor(outline, k, j), outline[k].1[j]),
    )
}

/// The anchors that the first `k` sections of a table of contents link to,
/// in their order.
pub open spec fn toc_anchors(outline: Outline, k: int) -> Seq<Anchor>
    decreases k,
{
    if k <= 0 || k > outline.len() {
        Seq::empty()
    } else {
        toc_anchors(outline, k - 1) + section_anchors(outline, k - 1)
    }
}

} // verus!

//! Trees of HTML and their text, as mathematics.

use vstd::prelude::*;

verus! {

/// A piece of HTML as a mathematical tree: a line of finished text, or an
/// element with its name, the rest of its opening tag (attributes and the
/// closing `>`), and its children.
pub enum Markup {
    Line(Seq<char>),
    Tag(Seq<char>, Seq<char>, Seq<Markup>),
}

/// Each line of `lines` behind two spaces.
pub open spec fn indented(lines: Seq<Seq<char>>) -> Seq<Seq<char>> {
    lines.map_values(|l: Seq<char>| "  "@ + l)
}

/// The opening line of an element.
pub open spec fn opening(name: Seq<char>, rest: Seq<char>) -> Seq<char> {
    "<"@ + name + rest
}

/// The closing line of an element.
pub open spec fn closing(name: Seq<char>) -> Seq<char> {
    "</"@ + name + ">"@
}

/// The lines of the first `n` children of an element, each two spaces
/// deeper than the element itself.
pub open spec fn child_lines(children: Seq<Markup>, n: int) -> Seq<Seq<char>>
    decreases children, 1int, n,
{
    if n <= 0 || n > children.len() {
        Seq::empty()
    } else {
        child_lines(children, n - 1) + indented(lines(children[n - 1]))
    }
}

/// The lines of text of a tree: a line is itself; an element is its opening
/// line, the lines of its children in their order, and its closing line.
pub open spec fn lines(m: Markup) -> Seq<Seq<char>>
    decreases m, 0int, 0int,
{
    match m {
        Markup::Line(s) => seq![s],
        Markup::Tag(name, rest, children) => seq![opening(name, rest)] + child_lines(
            children,
            children.len() as int,
        ) + seq![closing(name)],
    }
}

/// The lines joined into one text, with a line feed between neighbours.
pub open spec fn joined(lines: Seq<Seq<char>>) -> Seq<char>
    decreases lines.len(),
{
    if lines.len() == 0 {
        Seq::empty()
    } else if lines.len() == 1 {
        lines[0]
    } else {
        joined(lines.drop_last()) + seq!['\n'] + lines.last()
    }
}

/// The text of a tree.
pub open spec fn text(m: Markup) -> Seq<char> {
    joined(lines(m))
}

} // verus!

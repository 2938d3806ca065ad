//! Pages of a dictionary of logographic characters, as HTML.
//!
//! An article holds what is known of one character: a section on the
//! character itself and one section for each language. The library rewrites
//! the characters between lenticular brackets of every text into links,
//! renders the article as an indented tree of HTML, and numbers the anchors
//! of the body as the table of contents does.
//!
//! Every function is verified against a contract over the sequences of
//! characters that the texts hold.

pub mod bar;
pub mod body;
pub mod lang;
pub mod lenticular;
pub mod markup;
pub mod numbering;
pub mod page;
pub mod table;
pub mod text;
pub mod toc;
pub mod tree;

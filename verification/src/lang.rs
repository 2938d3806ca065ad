//! Languages and the addresses of their pages.

use big_s::S;
use vstd::prelude::*;

verus! {

/// A language, by its name.
#[derive(Debug, Clone)]
pub struct Lang(pub String);

impl DeepView for Lang {
    type V = Seq<char>;

    open spec fn deep_view(&self) -> Seq<char> {
        self.0@
    }
}

/// Names of languages with the addresses of their pages.
pub type Links = Seq<(Seq<char>, Seq<char>)>;

/// The address that `table` gives for `name`: that of the last row with
/// this name, if there is one.
pub open spec fn find_link(table: Links, name: Seq<char>) -> Option<Seq<char>>
    decreases table.len(),
{
    if table.len() == 0 {
        None
    } else if table.last().0 == name {
        Some(table.last().1)
    } else {
        find_link(table.drop_last(), name)
    }
}

/// The address to link a language to: the one that `table` gives, or the
/// empty address for a name that `table` does not hold.
pub open spec fn link_for(table: Links, name: Seq<char>) -> Seq<char> {
    match find_link(table, name) {
        Some(url) => url,
        None => Seq::empty(),
    }
}

impl Lang {
    /// The address of the language's page in `links`, if it has one.
    pub fn find_url(&self, links: &Vec<(String, String)>) -> (res: Option<String>)
        ensures
            res.deep_view() == find_link(links.deep_view(), self.0@),
    {
        let ghost table = links.deep_view();
        let mut i: usize = links.len();
        assert(table.take(i as int) =~= table);
        while i > 0
            invariant
                i <= links.len(),
                table == links.deep_view(),
                find_link(table, self.0@) == find_link(table.take(i as int), self.0@),
            decreases i,
        {
            i -= 1;
            assert(table.take(i + 1).drop_last() =~= table.take(i as int));
            if links[i].0 == self.0 {
                return Some(links[i].1.clone());
            }
        }
        None
    }

    /// The address of the language's page in `links`; empty where `links`
    /// does not hold the language.
    pub fn url(&self, links: &Vec<(String, String)>) -> (res: String)
        ensures
            res@ == link_for(links.deep_view(), self.0@),
    {
        match self.find_url(links) {
            Some(url) => url,
            None => {
                proof {
                    reveal_strlit("");
                }
                S("")
            },
        }
    }

    /// The language's name.
    pub fn ja(&self) -> (res: String)
        ensures
            res@ == self.0@,
    {
        self.0.clone()
    }
}

} // verus!

//! Rewriting of the characters between lenticular brackets into links.
//!
//! A text is scanned once from left to right. A closing bracket that nothing
//! opened, an opening bracket inside brackets, and an opening bracket that
//! nothing closes each fail the text. Pairs and sequences are rewritten part
//! by part, and report the errors of all their parts.

use crate::text::push_char;
use vstd::prelude::*;
use vstd::string::StringExecFns;

verus! {

/// Why a string could not be rewritten. Each variant carries the whole
/// string that was being scanned.
#[derive(Debug, Clone)]
pub enum Error {
    MismatchedRightLenticular(String),
    MismatchedLeftLenticular(String),
    LenticularInsideLenticular(String),
}

/// The mathematical content of an [`Error`].
pub enum Fault {
    MismatchedRightLenticular(Seq<char>),
    MismatchedLeftLenticular(Seq<char>),
    LenticularInsideLenticular(Seq<char>),
}

impl DeepView for Error {
    type V = Fault;

    open spec fn deep_view(&self) -> Fault {
        match self {
            Error::MismatchedRightLenticular(s) => Fault::MismatchedRightLenticular(s@),
            Error::MismatchedLeftLenticular(s) => Fault::MismatchedLeftLenticular(s@),
            Error::LenticularInsideLenticular(s) => Fault::LenticularInsideLenticular(s@),
        }
    }
}

/// Where a left-to-right scan stands after reading some characters. The two
/// last states are final: nothing read later leaves them.
pub enum Scan {
    Outside,
    Inside,
    StrayClose,
    Nested,
}

/// The bracket that opens a run of characters to link.
pub open spec fn is_open(c: char) -> bool {
    c == '【'
}

/// The bracket that closes such a run.
pub open spec fn is_close(c: char) -> bool {
    c == '】'
}

/// One step of the scan.
pub open spec fn step(st: Scan, c: char) -> Scan {
    match st {
        Scan::Outside => if is_open(c) {
            Scan::Inside
        } else if is_close(c) {
            Scan::StrayClose
        } else {
            Scan::Outside
        },
        Scan::Inside => if is_open(c) {
            Scan::Nested
        } else if is_close(c) {
            Scan::Outside
        } else {
            Scan::Inside
        },
        Scan::StrayClose => Scan::StrayClose,
        Scan::Nested => Scan::Nested,
    }
}

/// The state after scanning all of `s`, starting outside brackets.
pub open spec fn scan(s: Seq<char>) -> Scan
    decreases s.len(),
{
    if s.len() == 0 {
        Scan::Outside
    } else {
        step(scan(s.drop_last()), s.last())
    }
}

/// The hyperlink that stands for one bracketed character.
pub open spec fn anchor(c: char) -> Seq<char> {
    "<a href=\""@ + seq![c] + "%20-%20燐字海.html\">"@ + seq![c] + "</a>"@
}

/// What reading `c` in state `st` adds to the output: brackets add nothing,
/// a character outside brackets is copied, one inside becomes its anchor.
pub open spec fn emitted(st: Scan, c: char) -> Seq<char> {
    if is_open(c) || is_close(c) {
        Seq::empty()
    } else {
        match st {
            Scan::Outside => seq![c],
            Scan::Inside => anchor(c),
            _ => Seq::empty(),
        }
    }
}

/// The text produced by scanning all of `s`.
pub open spec fn output(s: Seq<char>) -> Seq<char>
    decreases s.len(),
{
    if s.len() == 0 {
        Seq::empty()
    } else {
        output(s.drop_last()) + emitted(scan(s.drop_last()), s.last())
    }
}

/// The result of the rewriting pass on one string.
pub open spec fn link_text(s: Seq<char>) -> Result<Seq<char>, Seq<Fault>> {
    match scan(s) {
        Scan::Outside => Ok(output(s)),
        Scan::Inside => Err(seq![Fault::MismatchedLeftLenticular(s)]),
        Scan::StrayClose => Err(seq![Fault::MismatchedRightLenticular(s)]),
        Scan::Nested => Err(seq![Fault::LenticularInsideLenticular(s)]),
    }
}

/// The errors of a result, none where it succeeded.
pub open spec fn faults_of<V>(r: Result<V, Seq<Fault>>) -> Seq<Fault> {
    match r {
        Ok(_) => Seq::empty(),
        Err(e) => e,
    }
}

/// The mathematical content of what a pass returned.
pub open spec fn outcome<T: DeepView>(r: Result<T, Vec<Error>>) -> Result<T::V, Seq<Fault>> {
    match r {
        Ok(v) => Ok(v.deep_view()),
        Err(e) => Err(e.deep_view()),
    }
}

/// Values in which bracketed characters can be rewritten into hyperlinks.
pub trait Lenticular: Sized + DeepView {
    /// The result of the pass, as a function of the value's content.
    spec fn linked(v: Self::V) -> Result<Self::V, Seq<Fault>>;

    fn lenticular_to_link(&self) -> (res: Result<Self, Vec<Error>>)
        ensures
            outcome(res) == Self::linked(self.deep_view()),
    ;
}

/// Once the scan has met a fatal character, the rest of the string does not
/// matter.
pub proof fn lemma_fatal_is_final(s: Seq<char>, k: int)
    requires
        0 <= k <= s.len(),
        scan(s.take(k)) is StrayClose || scan(s.take(k)) is Nested,
    ensures
        scan(s) == scan(s.take(k)),
    decreases s.len(),
{
    if k == s.len() {
        assert(s.take(k) =~= s);
    } else {
        assert(s.drop_last().take(k) =~= s.take(k));
        lemma_fatal_is_final(s.drop_last(), k);
    }
}

impl Lenticular for String {
    open spec fn linked(v: Seq<char>) -> Result<Seq<char>, Seq<Fault>> {
        link_text(v)
    }

    fn lenticular_to_link(&self) -> (res: Result<String, Vec<Error>>) {
        let mut inside_lenticular = false;
        let mut ans = String::new();
        for c in it: self.as_str().chars()
            invariant
                it.seq() == self@,
                scan(self@.take(it.index() as int)) == if inside_lenticular {
                    Scan::Inside
                } else {
                    Scan::Outside
                },
                ans@ == output(self@.take(it.index() as int)),
        {
            let ghost k = it.index() as int;
            assert(self@.take(k + 1).drop_last() =~= self@.take(k));
            if inside_lenticular {
                if c == '【' {
                    proof {
                        lemma_fatal_is_final(self@, k + 1);
                    }
                    let errors = vec![Error::LenticularInsideLenticular(self.clone())];
                    assert(errors.deep_view() =~= seq![Fault::LenticularInsideLenticular(self@)]);
                    return Err(errors);
                } else if c == '】' {
                    inside_lenticular = false;
                } else {
                    ans.append("<a href=\"");
                    push_char(&mut ans, c);
                    ans.append("%20-%20燐字海.html\">");
                    push_char(&mut ans, c);
                    ans.append("</a>");
                }
            } else {
                if c == '【' {
                    inside_lenticular = true;
                } else if c == '】' {
                    proof {
                        lemma_fatal_is_final(self@, k + 1);
                    }
                    let errors = vec![Error::MismatchedRightLenticular(self.clone())];
                    assert(errors.deep_view() =~= seq![Fault::MismatchedRightLenticular(self@)]);
                    return Err(errors);
                } else {
                    push_char(&mut ans, c);
                }
            }
        }
        assert(self@.take(self@.len() as int) =~= self@);
        if inside_lenticular {
            let errors = vec![Error::MismatchedLeftLenticular(self.clone())];
            assert(errors.deep_view() =~= seq![Fault::MismatchedLeftLenticular(self@)]);
            return Err(errors);
        }
        Ok(ans)
    }
}

/// The result of the pass on a pair, from the results on its two sides:
/// both rewritten sides, or every error of the left side and then every
/// error of the right side.
pub open spec fn link_pair<A, B>(
    a: Result<A, Seq<Fault>>,
    b: Result<B, Seq<Fault>>,
) -> Result<(A, B), Seq<Fault>> {
    match (a, b) {
        (Ok(x), Ok(y)) => Ok((x, y)),
        (Ok(_), Err(f)) => Err(f),
        (Err(e), Ok(_)) => Err(e),
        (Err(e), Err(f)) => Err(e + f),
    }
}

/// Two results of the pass put together as the pass on a pair does.
pub fn combine<A: DeepView, B: DeepView>(
    left: Result<A, Vec<Error>>,
    right: Result<B, Vec<Error>>,
) -> (res: Result<(A, B), Vec<Error>>)
    ensures
        outcome(res) == link_pair(outcome(left), outcome(right)),
{
    match (left, right) {
        (Ok(a), Ok(b)) => Ok((a, b)),
        (Ok(_), Err(b)) => Err(b),
        (Err(a), Ok(_)) => Err(a),
        (Err(mut a), Err(mut b)) => {
            let ghost e = a.deep_view();
            let ghost f = b.deep_view();
            a.append(&mut b);
            assert(a.deep_view() =~= e + f);
            Err(a)
        },
    }
}

impl<T: Lenticular, U: Lenticular> Lenticular for (T, U) {
    open spec fn linked(v: (T::V, U::V)) -> Result<(T::V, U::V), Seq<Fault>> {
        link_pair(T::linked(v.0), U::linked(v.1))
    }

    fn lenticular_to_link(&self) -> (res: Result<(T, U), Vec<Error>>) {
        combine(self.0.lenticular_to_link(), self.1.lenticular_to_link())
    }
}

/// Every error found in a sequence, position by position.
pub open spec fn seq_faults<T: Lenticular>(s: Seq<T::V>) -> Seq<Fault>
    decreases s.len(),
{
    if s.len() == 0 {
        Seq::empty()
    } else {
        seq_faults::<T>(s.drop_last()) + faults_of(T::linked(s.last()))
    }
}

/// The rewritten values of the positions of a sequence that succeeded, in
/// their order.
pub open spec fn seq_values<T: Lenticular>(s: Seq<T::V>) -> Seq<T::V>
    decreases s.len(),
{
    if s.len() == 0 {
        Seq::empty()
    } else {
        match T::linked(s.last()) {
            Ok(v) => seq_values::<T>(s.drop_last()).push(v),
            Err(_) => seq_values::<T>(s.drop_last()),
        }
    }
}

/// The result of the pass on a sequence: it succeeds only where no position
/// reported an error.
pub open spec fn link_seq<T: Lenticular>(s: Seq<T::V>) -> Result<Seq<T::V>, Seq<Fault>> {
    if seq_faults::<T>(s).len() == 0 {
        Ok(seq_values::<T>(s))
    } else {
        Err(seq_faults::<T>(s))
    }
}

impl<T: Lenticular> Lenticular for Vec<T> {
    open spec fn linked(v: Seq<T::V>) -> Result<Seq<T::V>, Seq<Fault>> {
        link_seq::<T>(v)
    }

    fn lenticular_to_link(&self) -> (res: Result<Vec<T>, Vec<Error>>) {
        let mut ans: Vec<T> = Vec::new();
        let mut errors: Vec<Error> = Vec::new();
        let ghost whole = self.deep_view();
        let mut i: usize = 0;
        while i < self.len()
            invariant
                i <= self.len(),
                whole == self.deep_view(),
                ans.deep_view() == seq_values::<T>(whole.take(i as int)),
                errors.deep_view() == seq_faults::<T>(whole.take(i as int)),
            decreases self.len() - i,
        {
            assert(whole.take(i + 1).drop_last() =~= whole.take(i as int));
            match self[i].lenticular_to_link() {
                Ok(l) => {
                    ans.push(l);
                },
                Err(mut e) => {
                    errors.append(&mut e);
                },
            }
            i += 1;
        }
        assert(whole.take(self.len() as int) =~= whole);
        if errors.len() > 0 {
            Err(errors)
        } else {
            Ok(ans)
        }
    }
}

/// The number of opening brackets of `s` less the number of its closing
/// brackets.
pub open spec fn depth(s: Seq<char>) -> int
    decreases s.len(),
{
    if s.len() == 0 {
        0
    } else if is_open(s.last()) {
        depth(s.drop_last()) + 1
    } else if is_close(s.last()) {
        depth(s.drop_last()) - 1
    } else {
        depth(s.drop_last())
    }
}

/// No bracket of `s` closes what was not opened, and none opens inside
/// another: after every prefix at most one bracket is open.
pub open spec fn well_nested(s: Seq<char>) -> bool {
    forall|k: int| 0 <= k <= s.len() ==> 0 <= #[trigger] depth(s.take(k)) <= 1
}

/// The brackets of `s` are well nested and each one opened is closed.
pub open spec fn balanced(s: Seq<char>) -> bool {
    well_nested(s) && depth(s) == 0
}

/// What stands for the character at `i` in the rewritten text: nothing for a
/// bracket, its anchor for a character between brackets, itself otherwise.
pub open spec fn piece(s: Seq<char>, i: int) -> Seq<char> {
    if is_open(s[i]) || is_close(s[i]) {
        Seq::empty()
    } else if depth(s.take(i)) == 1 {
        anchor(s[i])
    } else {
        seq![s[i]]
    }
}

/// The pieces of all characters of `s`, in their order.
pub open spec fn replaced(s: Seq<char>) -> Seq<char> {
    Seq::new(s.len(), |i: int| piece(s, i)).flatten()
}

proof fn lemma_prefix_well_nested(s: Seq<char>, k: int)
    requires
        well_nested(s),
        0 <= k <= s.len(),
    ensures
        well_nested(s.take(k)),
{
    assert forall|j: int| 0 <= j <= s.take(k).len() implies 0 <= #[trigger] depth(
        s.take(k).take(j),
    ) <= 1 by {
        assert(s.take(k).take(j) =~= s.take(j));
    }
}

proof fn lemma_scan_follows_depth(s: Seq<char>)
    requires
        well_nested(s),
    ensures
        0 <= depth(s) <= 1,
        scan(s) == if depth(s) == 0 {
            Scan::Outside
        } else {
            Scan::Inside
        },
        output(s) == replaced(s),
    decreases s.len(),
{
    assert(s.take(s.len() as int) =~= s);
    let pieces = Seq::new(s.len(), |i: int| piece(s, i));
    if s.len() > 0 {
        let rest = s.drop_last();
        lemma_prefix_well_nested(s, s.len() - 1);
        lemma_scan_follows_depth(rest);
        let rest_pieces = Seq::new(rest.len(), |i: int| piece(rest, i));
        assert forall|i: int| 0 <= i < rest.len() implies piece(rest, i) == piece(s, i) by {
            assert(rest.take(i) =~= s.take(i));
        }
        assert(pieces =~= rest_pieces.push(piece(s, s.len() - 1)));
        rest_pieces.lemma_flatten_push(piece(s, s.len() - 1));
    }
}

proof fn lemma_stays_open(s: Seq<char>, i: int, j: int)
    requires
        0 <= i < j <= s.len(),
        scan(s.take(i)) is Inside || scan(s.take(i)) is Nested,
        forall|k: int| i <= k < j ==> !is_close(#[trigger] s[k]),
    ensures
        scan(s.take(j)) is Inside || scan(s.take(j)) is Nested,
        (scan(s.take(i)) is Inside && forall|k: int| i <= k < j ==> !is_open(#[trigger] s[k]))
            ==> scan(s.take(j)) is Inside,
        (exists|k: int| i <= k < j && is_open(#[trigger] s[k])) ==> scan(s.take(j)) is Nested,
    decreases j - i,
{
    assert(s.take(j).drop_last() =~= s.take(j - 1));
    if i < j - 1 {
        lemma_stays_open(s, i, j - 1);
    }
}

/// A string whose brackets are balanced is rewritten: each character
/// between brackets becomes its anchor, the brackets go, and every other
/// character stays where it was.
pub proof fn law_balanced_is_rewritten(s: Seq<char>)
    requires
        balanced(s),
    ensures
        link_text(s) == Ok::<Seq<char>, Seq<Fault>>(replaced(s)),
{
    lemma_scan_follows_depth(s);
}

/// A closing bracket at `i` that nothing opened, after a prefix that is
/// balanced, fails the pass with `MismatchedRightLenticular` and the whole
/// string.
pub proof fn law_stray_close(s: Seq<char>, i: int)
    requires
        0 <= i < s.len(),
        balanced(s.take(i)),
        is_close(s[i]),
    ensures
        link_text(s) == Err::<Seq<char>, Seq<Fault>>(seq![Fault::MismatchedRightLenticular(s)]),
{
    lemma_scan_follows_depth(s.take(i));
    assert(s.take(i + 1).drop_last() =~= s.take(i));
    lemma_fatal_is_final(s, i + 1);
}

/// An opening bracket at `i` after a balanced prefix, with no bracket
/// behind it up to the end of the string, fails the pass with
/// `MismatchedLeftLenticular` and the whole string.
pub proof fn law_unclosed_open(s: Seq<char>, i: int)
    requires
        0 <= i < s.len(),
        balanced(s.take(i)),
        is_open(s[i]),
        forall|k: int| i < k < s.len() ==> !is_close(#[trigger] s[k]) && !is_open(s[k]),
    ensures
        link_text(s) == Err::<Seq<char>, Seq<Fault>>(seq![Fault::MismatchedLeftLenticular(s)]),
{
    lemma_scan_follows_depth(s.take(i));
    assert(s.take(i + 1).drop_last() =~= s.take(i));
    if i + 1 < s.len() {
        lemma_stays_open(s, i + 1, s.len() as int);
    }
    assert(s.take(s.len() as int) =~= s);
}

/// An opening bracket at `i` after a balanced prefix, and a second one at
/// `j` with no closing bracket between the two, fail the pass with
/// `LenticularInsideLenticular` and the whole string.
pub proof fn law_nested_open(s: Seq<char>, i: int, j: int)
    requires
        0 <= i < j < s.len(),
        balanced(s.take(i)),
        is_open(s[i]),
        is_open(s[j]),
        forall|k: int| i < k < j ==> !is_close(#[trigger] s[k]),
    ensures
        link_text(s) == Err::<Seq<char>, Seq<Fault>>(seq![Fault::LenticularInsideLenticular(s)]),
{
    lemma_scan_follows_depth(s.take(i));
    assert(s.take(i + 1).drop_last() =~= s.take(i));
    lemma_stays_open(s, i + 1, j + 1);
    lemma_fatal_is_final(s, j + 1);
}

/// The error with which the pass fails on one string.
pub open spec fn fault_of(s: Seq<char>) -> Fault {
    faults_of(link_text(s))[0]
}

/// The rewritten text of one string that the pass accepts.
pub open spec fn text_of(s: Seq<char>) -> Seq<char> {
    link_text(s)->Ok_0
}

/// On a sequence of strings the pass succeeds only where every string is
/// accepted, and then returns every rewritten text in its place. Otherwise
/// it fails with one error for each string that fails, in their order.
pub proof fn law_sequence_reports_every_failure(s: Seq<Seq<char>>)
    ensures
        s.filter(|t: Seq<char>| link_text(t) is Err).len() == 0 ==> link_seq::<String>(s) == Ok::<
            Seq<Seq<char>>,
            Seq<Fault>,
        >(s.map_values(|t: Seq<char>| text_of(t))),
        s.filter(|t: Seq<char>| link_text(t) is Err).len() > 0 ==> link_seq::<String>(s) == Err::<
            Seq<Seq<char>>,
            Seq<Fault>,
        >(s.filter(|t: Seq<char>| link_text(t) is Err).map_values(|t: Seq<char>| fault_of(t))),
{
    lemma_sequence_parts(s);
}

proof fn lemma_sequence_parts(s: Seq<Seq<char>>)
    ensures
        seq_faults::<String>(s) == s.filter(|t: Seq<char>| link_text(t) is Err).map_values(
            |t: Seq<char>| fault_of(t),
        ),
        s.filter(|t: Seq<char>| link_text(t) is Err).len() == 0 ==> seq_values::<String>(s)
            == s.map_values(|t: Seq<char>| text_of(t)),
    decreases s.len(),
{
    reveal(Seq::filter);
    if s.len() > 0 {
        lemma_sequence_parts(s.drop_last());
    }
}

} // verus!

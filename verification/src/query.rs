//! Search queries and their matching rules.
//!
//! A search runs one logical query against two backends at once: the
//! local symbol index and the dependency import map. Each backend gets
//! its own concrete query value — constructed as mirror images of the
//! same search string — and this module defines both query shapes and
//! the exact matching rule each one applies: equality or in-order
//! subsequence ("fuzzy"), with or without case folding, against a
//! symbol's name or its full path.

use vstd::prelude::*;

verus! {

/// Relies on `char::from_u32`: the conversion succeeds exactly on the
/// code points that are not surrogates and not above the highest code
/// point, and then returns the character with that code point.
pub assume_specification[ char::from_u32 ](i: u32) -> (r: Option<char>)
    ensures
        match r {
            Some(c) => c as u32 == i,
            None => !(i < 0xD800 || (0xE000 <= i && i <= 0x10FFFF)),
        },
        (i < 0xD800 || (0xE000 <= i && i <= 0x10FFFF)) ==> r is Some,
;

/// ASCII lower-casing of one character: the letters `A` through `Z`
/// (code points 65 to 90) move down by 32; everything else stays.
pub open spec fn lower_char(c: char) -> char {
    if 65 <= c as u32 && c as u32 <= 90 {
        ((c as u32 + 32) as char)
    } else {
        c
    }
}

/// ASCII lower-casing of a whole text, character by character.
pub open spec fn lower_seq(s: Seq<char>) -> Seq<char> {
    Seq::new(s.len(), |i: int| lower_char(s[i]))
}

/// The text as compared under a query: folded to lower case when the
/// query ignores case, untouched otherwise.
pub open spec fn fold_if(s: Seq<char>, fold: bool) -> Seq<char> {
    if fold {
        lower_seq(s)
    } else {
        s
    }
}

/// Whether `q` occurs in `t` as a subsequence: every character of `q`
/// appears in `t`, in order, not necessarily adjacent. This is the
/// "fuzzy" matching rule.
pub open spec fn is_subsequence(q: Seq<char>, t: Seq<char>) -> bool
    decreases t.len(),
{
    if q.len() == 0 {
        true
    } else if t.len() == 0 {
        false
    } else if q[0] == t[0] {
        is_subsequence(q.drop_first(), t.drop_first())
    } else {
        is_subsequence(q, t.drop_first())
    }
}

/// Lower-case one character.
pub fn to_lower_char(c: char) -> (r: char)
    ensures
        r == lower_char(c),
{
    let u: u32 = c as u32;
    if 65 <= u && u <= 90 {
        match char::from_u32(u + 32) {
            Some(l) => {
                proof {
                    vstd::utf8::char_u32_cast(l, (u + 32) as u32);
                }
                l
            },
            None => c,
        }
    } else {
        c
    }
}

/// The character of `s` at position `i`, folded when `fold` is set.
fn folded_char_at(s: &str, i: usize, fold: bool) -> (r: char)
    requires
        i < s@.len(),
    ensures
        r == fold_if(s@, fold)[i as int],
{
    let c: char = s.get_char(i);
    if fold {
        to_lower_char(c)
    } else {
        c
    }
}

/// Whether two texts are equal, after case folding when `fold` is set.
pub fn str_eq_folded(a: &str, b: &str, fold: bool) -> (r: bool)
    ensures
        r == (fold_if(a@, fold) == fold_if(b@, fold)),
{
    let ghost fa: Seq<char> = fold_if(a@, fold);
    let ghost fb: Seq<char> = fold_if(b@, fold);
    let na: usize = a.unicode_len();
    let nb: usize = b.unicode_len();
    if na != nb {
        proof {
            assert(fa.len() != fb.len());
        }
        return false;
    }
    let mut i: usize = 0;
    while i < na
        invariant
            i <= na,
            na == a@.len(),
            na == b@.len(),
            fa == fold_if(a@, fold),
            fb == fold_if(b@, fold),
            fa.len() == na,
            fb.len() == na,
            forall|k: int| 0 <= k < i as int ==> fa[k] == fb[k],
        decreases na - i,
    {
        let ca: char = folded_char_at(a, i, fold);
        let cb: char = folded_char_at(b, i, fold);
        if ca != cb {
            proof {
                assert(fa[i as int] != fb[i as int]);
            }
            return false;
        }
        i = i + 1;
    }
    proof {
        assert(fa =~= fb);
    }
    true
}

/// Whether `q` occurs in `t` as a subsequence, after case folding when
/// `fold` is set. Greedy scan: each query character is matched at the
/// earliest position possible.
pub fn str_is_subsequence(q: &str, t: &str, fold: bool) -> (r: bool)
    ensures
        r == is_subsequence(fold_if(q@, fold), fold_if(t@, fold)),
{
    let ghost fq: Seq<char> = fold_if(q@, fold);
    let ghost ft: Seq<char> = fold_if(t@, fold);
    let qn: usize = q.unicode_len();
    let tn: usize = t.unicode_len();
    proof {
        assert(fq.skip(0) =~= fq);
        assert(ft.skip(0) =~= ft);
    }
    let mut i: usize = 0;
    let mut j: usize = 0;
    while i < tn && j < qn
        invariant
            i <= tn,
            j <= qn,
            qn == q@.len(),
            tn == t@.len(),
            fq == fold_if(q@, fold),
            ft == fold_if(t@, fold),
            fq.len() == qn,
            ft.len() == tn,
            is_subsequence(fq, ft) == is_subsequence(fq.skip(j as int), ft.skip(i as int)),
        decreases tn - i,
    {
        let tc: char = folded_char_at(t, i, fold);
        let qc: char = folded_char_at(q, j, fold);
        proof {
            assert(ft.skip(i as int)[0] == ft[i as int]);
            assert(fq.skip(j as int)[0] == fq[j as int]);
            assert(ft.skip(i as int).drop_first() =~= ft.skip(i as int + 1));
            assert(fq.skip(j as int).drop_first() =~= fq.skip(j as int + 1));
        }
        if qc == tc {
            j = j + 1;
        }
        i = i + 1;
    }
    proof {
        if j == qn {
            assert(fq.skip(j as int).len() == 0);
        } else {
            assert(ft.skip(i as int).len() == 0);
            assert(fq.skip(j as int).len() > 0);
        }
    }
    j == qn
}

/// How a dependency-import query compares its text against a candidate.
#[derive(Clone, Copy, PartialEq, Eq, Structural)]
pub enum SearchMode {
    /// The candidate must equal the query text.
    Equals,
    /// The query text must occur in the candidate as a subsequence.
    Fuzzy,
}

/// The mathematical content of a local-index query.
pub ghost struct LocalQueryView {
    pub text: Seq<char>,
    pub exact: bool,
    pub limit: Option<usize>,
}

/// The mathematical content of a dependency-import query.
pub ghost struct ImportQueryView {
    pub text: Seq<char>,
    pub mode: SearchMode,
    pub name_only: bool,
    pub case_sensitive: bool,
    pub limit: Option<usize>,
}

/// A query against the local symbol index: fuzzy and case-insensitive
/// unless `exact` is set, then plain case-sensitive equality on the
/// symbol's name.
pub struct LocalQuery {
    pub text: String,
    pub exact: bool,
    pub limit: Option<usize>,
}

impl View for LocalQuery {
    type V = LocalQueryView;

    open spec fn view(&self) -> LocalQueryView {
        LocalQueryView { text: self.text@, exact: self.exact, limit: self.limit }
    }
}

impl LocalQuery {
    pub fn new(text: String) -> (r: LocalQuery)
        ensures
            r@ == (LocalQueryView { text: text@, exact: false, limit: None::<usize> }),
    {
        LocalQuery { text, exact: false, limit: None }
    }

    pub fn exact(&mut self)
        ensures
            final(self)@ == (LocalQueryView { exact: true, ..old(self)@ }),
    {
        self.exact = true;
    }

    pub fn limit(&mut self, limit: usize)
        ensures
            final(self)@ == (LocalQueryView { limit: Some(limit), ..old(self)@ }),
    {
        self.limit = Some(limit);
    }
}

/// A query against the dependency import map.
pub struct ImportQuery {
    pub text: String,
    pub mode: SearchMode,
    pub name_only: bool,
    pub case_sensitive: bool,
    pub limit: Option<usize>,
}

impl View for ImportQuery {
    type V = ImportQueryView;

    open spec fn view(&self) -> ImportQueryView {
        ImportQueryView {
            text: self.text@,
            mode: self.mode,
            name_only: self.name_only,
            case_sensitive: self.case_sensitive,
            limit: self.limit,
        }
    }
}

impl ImportQuery {
    pub fn new(text: String) -> (r: ImportQuery)
        ensures
            r@ == (ImportQueryView {
                text: text@,
                mode: SearchMode::Fuzzy,
                name_only: false,
                case_sensitive: false,
                limit: None::<usize>,
            }),
    {
        ImportQuery {
            text,
            mode: SearchMode::Fuzzy,
            name_only: false,
            case_sensitive: false,
            limit: None,
        }
    }

    pub fn search_mode(self, mode: SearchMode) -> (r: ImportQuery)
        ensures
            r@ == (ImportQueryView { mode, ..self@ }),
    {
        ImportQuery { mode, ..self }
    }

    pub fn name_only(self) -> (r: ImportQuery)
        ensures
            r@ == (ImportQueryView { name_only: true, ..self@ }),
    {
        ImportQuery { name_only: true, ..self }
    }

    pub fn case_sensitive(self) -> (r: ImportQuery)
        ensures
            r@ == (ImportQueryView { case_sensitive: true, ..self@ }),
    {
        ImportQuery { case_sensitive: true, ..self }
    }

    pub fn limit(self, limit: usize) -> (r: ImportQuery)
        ensures
            r@ == (ImportQueryView { limit: Some(limit), ..self@ }),
    {
        ImportQuery { limit: Some(limit), ..self }
    }
}

/// Whether a local symbol named `name` answers the query.
pub open spec fn matches_local(name: Seq<char>, q: LocalQueryView) -> bool {
    if q.exact {
        name == q.text
    } else {
        is_subsequence(lower_seq(q.text), lower_seq(name))
    }
}

/// Whether an importable item with path text `path` and name `name`
/// answers the query: the name alone when the query is name-only, the
/// full path otherwise, compared under the query's mode and case rule.
pub open spec fn matches_import(path: Seq<char>, name: Seq<char>, q: ImportQueryView) -> bool {
    let target = if q.name_only {
        name
    } else {
        path
    };
    let fold = !q.case_sensitive;
    match q.mode {
        SearchMode::Equals => fold_if(target, fold) == fold_if(q.text, fold),
        SearchMode::Fuzzy => is_subsequence(fold_if(q.text, fold), fold_if(target, fold)),
    }
}

/// Whether a local symbol named `name` answers the query.
pub fn local_query_matches(q: &LocalQuery, name: &str) -> (r: bool)
    ensures
        r == matches_local(name@, q@),
{
    if q.exact {
        str_eq_folded(name, q.text.as_str(), false)
    } else {
        str_is_subsequence(q.text.as_str(), name, true)
    }
}

/// Whether an importable item answers the query.
pub fn import_query_matches(q: &ImportQuery, path: &str, name: &str) -> (r: bool)
    ensures
        r == matches_import(path@, name@, q@),
{
    let target: &str = if q.name_only {
        name
    } else {
        path
    };
    let fold: bool = !q.case_sensitive;
    match q.mode {
        SearchMode::Equals => str_eq_folded(target, q.text.as_str(), fold),
        SearchMode::Fuzzy => str_is_subsequence(q.text.as_str(), target, fold),
    }
}

/// A query that ignores case cannot tell two candidates apart that
/// differ only in letter case: it accepts both or neither.
pub proof fn lemma_case_fold_insensitive(
    q: ImportQueryView,
    path_a: Seq<char>,
    name_a: Seq<char>,
    path_b: Seq<char>,
    name_b: Seq<char>,
)
    requires
        !q.case_sensitive,
        lower_seq(path_a) == lower_seq(path_b),
        lower_seq(name_a) == lower_seq(name_b),
    ensures
        matches_import(path_a, name_a, q) == matches_import(path_b, name_b, q),
{
}

/// A case-sensitive equality query rejects a candidate whose name
/// differs from the query text, even when the two differ only in
/// letter case.
pub proof fn lemma_case_sensitive_rejects(q: ImportQueryView, path: Seq<char>, name: Seq<char>)
    requires
        q.case_sensitive,
        q.name_only,
        q.mode == SearchMode::Equals,
        name != q.text,
        lower_seq(name) == lower_seq(q.text),
    ensures
        !matches_import(path, name, q),
{
}

} // verus!

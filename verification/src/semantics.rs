//! A request-local snapshot of the semantic model.
//!
//! Name resolution, type inference and visibility are computed by an
//! external semantic database; this library consumes the answers to a
//! fixed set of queries, held here as plain values: what a path resolves
//! to, which module a definition lives in and under which rule it is
//! visible, and — for functions — the declared parameter patterns and the
//! source-backed body, when one exists.

use vstd::prelude::*;

verus! {

/// The visibility rule a definition carries.
#[derive(Clone, Copy, PartialEq, Eq, Structural)]
pub enum Visibility {
    /// Visible from every module.
    Public,
    /// Visible only from the definition's own module.
    ModuleOnly,
}

/// What a path resolves to, as far as the transform cares: either a
/// function definition (by index into [`SemanticModel::functions`]) or
/// some other kind of definition (a macro, a type, a constant, ...).
#[derive(Clone, Copy, PartialEq, Eq, Structural)]
pub enum Resolution {
    Function(usize),
    NonFunction,
}

/// One answer of the resolver: the path text `path` resolves to
/// `resolution`. A path that occurs in no entry, or in more than one
/// (ambiguous), does not resolve.
pub struct ResolutionEntry {
    pub path: String,
    pub resolution: Resolution,
}

/// One declared parameter. `pat` is the irrefutable destructuring
/// pattern, as written; `None` when the parameter has no such pattern
/// and therefore cannot become a `let` binding.
pub struct ParamDecl {
    pub pat: Option<String>,
}

/// A function body available as source-backed syntax: its statements in
/// order, each as one line of text with its own indentation stripped,
/// and the optional trailing value expression.
pub struct FnBody {
    pub stmts: Vec<String>,
    pub tail: Option<String>,
}

/// The semantic identity of a function definition, with everything the
/// inlining transform reads of it.
pub struct FunctionDef {
    /// The defining module.
    pub module: usize,
    /// The visibility rule.
    pub vis: Visibility,
    /// The declared parameters, in declaration order.
    pub params: Vec<ParamDecl>,
    /// The body, when the definition is source-backed; `None` for a
    /// declaration-only or externally compiled function.
    pub body: Option<FnBody>,
}

/// The snapshot of the semantic model a single request runs against.
pub struct SemanticModel {
    pub functions: Vec<FunctionDef>,
    pub resolutions: Vec<ResolutionEntry>,
    /// Name classification, by syntax-node handle: the candidate a node
    /// names, or `None` when the node no longer classifies as naming
    /// anything importable.
    pub classifications: Vec<Option<crate::candidates::Candidate>>,
}

/// How many of the first `i` resolver entries carry the path `path`.
pub open spec fn resolution_count_upto(entries: Seq<ResolutionEntry>, path: Seq<char>, i: int) -> int
    decreases i,
{
    if i <= 0 {
        0
    } else {
        resolution_count_upto(entries, path, i - 1) + if entries[i - 1].path@ == path {
            1int
        } else {
            0int
        }
    }
}

/// The first resolver entry carrying `path`, if any.
pub open spec fn first_resolution_upto(entries: Seq<ResolutionEntry>, path: Seq<char>, i: int) -> Option<
    int,
>
    decreases i,
{
    if i <= 0 {
        None
    } else {
        match first_resolution_upto(entries, path, i - 1) {
            Some(j) => Some(j),
            None => if entries[i - 1].path@ == path {
                Some(i - 1)
            } else {
                None
            },
        }
    }
}

/// What resolving `path` yields: the resolution of the unique entry
/// carrying that path, and nothing when the path is unresolved or
/// ambiguous — resolution fails closed.
pub open spec fn spec_resolve(model: SemanticModel, path: Seq<char>) -> Option<Resolution> {
    let n = model.resolutions@.len() as int;
    if resolution_count_upto(model.resolutions@, path, n) == 1 {
        Some(model.resolutions@[first_resolution_upto(model.resolutions@, path, n)->Some_0].resolution)
    } else {
        None
    }
}

impl SemanticModel {
    /// Resolve a reference: the path must resolve to exactly one
    /// definition; ambiguous or unresolved paths yield nothing.
    pub fn resolve_reference(&self, path: &String) -> (r: Option<Resolution>)
        ensures
            r == spec_resolve(*self, path@),
    {
        let n: usize = self.resolutions.len();
        let mut i: usize = 0;
        let mut count: usize = 0;
        let mut found: Option<Resolution> = None;
        while i < n
            invariant
                i <= n,
                n == self.resolutions@.len(),
                count == resolution_count_upto(self.resolutions@, path@, i as int),
                match first_resolution_upto(self.resolutions@, path@, i as int) {
                    None => found is None,
                    Some(j) => found == Some(self.resolutions@[j].resolution),
                },
            decreases n - i,
        {
            proof {
                lemma_resolution_count_bound(self.resolutions@, path@, i as int);
            }
            if self.resolutions[i].path == *path {
                count = count + 1;
                if found.is_none() {
                    found = Some(self.resolutions[i].resolution);
                }
            }
            i = i + 1;
        }
        proof {
            lemma_resolution_first_iff(self.resolutions@, path@, n as int);
        }
        if count == 1 {
            found
        } else {
            None
        }
    }

    /// Whether `def` may be named from the module `from`, under the
    /// definition's own visibility rule. Visibility is judged from the
    /// calling scope, never from the definition's side.
    pub fn is_visible(&self, def: &FunctionDef, from: usize) -> (r: bool)
        ensures
            r == spec_is_visible(*def, from),
    {
        match def.vis {
            Visibility::Public => true,
            Visibility::ModuleOnly => def.module == from,
        }
    }

    /// The source-backed body of `def`, or nothing when the definition
    /// has no local syntax representation.
    pub fn source_of<'a>(&self, def: &'a FunctionDef) -> (r: Option<&'a FnBody>)
        ensures
            match r {
                None => def.body is None,
                Some(b) => def.body == Some(*b),
            },
    {
        match &def.body {
            Some(b) => Some(b),
            None => None,
        }
    }
}

/// The visibility rule, as a predicate.
pub open spec fn spec_is_visible(def: FunctionDef, from: usize) -> bool {
    def.vis == Visibility::Public || def.module == from
}

/// Some entry among the first `i` carries the path exactly when the
/// count over them is positive, and the first such entry carries it.
pub proof fn lemma_resolution_first_iff(entries: Seq<ResolutionEntry>, path: Seq<char>, i: int)
    requires
        0 <= i,
    ensures
        first_resolution_upto(entries, path, i) is Some <==> resolution_count_upto(
            entries,
            path,
            i,
        ) >= 1,
        match first_resolution_upto(entries, path, i) {
            None => true,
            Some(j) => 0 <= j < i && entries[j].path@ == path,
        },
    decreases i,
{
    if i > 0 {
        lemma_resolution_first_iff(entries, path, i - 1);
        lemma_resolution_count_bound(entries, path, i - 1);
    }
}

/// The number of entries carrying a path never exceeds the number of
/// entries looked at.
pub proof fn lemma_resolution_count_bound(entries: Seq<ResolutionEntry>, path: Seq<char>, i: int)
    requires
        0 <= i,
    ensures
        0 <= resolution_count_upto(entries, path, i) <= i,
    decreases i,
{
    if i > 0 {
        lemma_resolution_count_bound(entries, path, i - 1);
    }
}

} // verus!

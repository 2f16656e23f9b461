//! A request-local snapshot of the syntax nodes the transform reads.
//!
//! Parsing is the business of an external collaborator; what reaches this
//! library is an immutable snapshot holding, as plain values, the syntax
//! facts the inlining transform consumes: every path-expression node with
//! its range, text and (when its immediate parent is a call expression)
//! the call it is the callee of, and every call expression with its range,
//! argument texts, enclosing module and ambient indentation level.

use vstd::prelude::*;

use crate::text::TextRange;

verus! {

/// A located occurrence of a symbolic path in the source syntax.
pub struct PathExprNode {
    /// The range of the path text itself.
    pub range: TextRange,
    /// The path as written at the reference site.
    pub text: String,
    /// When the node's immediate syntactic parent is a call expression
    /// whose callee is this path, the index of that call in
    /// [`SyntaxTree::calls`]; `None` otherwise (a bare path, or a path
    /// standing somewhere else, such as the receiver of a method call).
    pub parent_call: Option<usize>,
}

/// A call expression node. Method-call expressions (calls resolved
/// through a receiver) are a different node kind and never appear here.
pub struct CallExprNode {
    /// The range of the entire call expression, callee and argument list.
    pub range: TextRange,
    /// The argument expressions, in call-syntax order; `None` when the
    /// call has no argument list at all (malformed syntax).
    pub args: Option<Vec<String>>,
    /// The module of the scope enclosing the call, when the scope has
    /// one. Visibility must be judged from this module.
    pub module: Option<usize>,
    /// The ambient indentation level of the call site, in levels of four
    /// spaces.
    pub indent: u8,
}

/// The snapshot of one parsed file's syntax, as far as the transform
/// reads it.
pub struct SyntaxTree {
    pub paths: Vec<PathExprNode>,
    pub calls: Vec<CallExprNode>,
}

impl SyntaxTree {
    /// Every range is well formed and every parent-call index points into
    /// `calls`.
    pub open spec fn wf(self) -> bool {
        &&& forall|i: int|
            0 <= i < self.paths@.len() ==> {
                &&& (#[trigger] self.paths@[i]).range.wf()
                &&& (self.paths@[i].parent_call is Some ==> self.paths@[i].parent_call->Some_0
                    < self.calls@.len())
            }
        &&& forall|i: int| 0 <= i < self.calls@.len() ==> (#[trigger] self.calls@[i]).range.wf()
    }
}

/// The path-expression node chosen among the first `i` nodes for a cursor
/// at `offset`: the one with the smallest range containing the offset,
/// the earliest on ties.
pub open spec fn chosen_path_upto(paths: Seq<PathExprNode>, offset: usize, i: int) -> Option<int>
    decreases i,
{
    if i <= 0 {
        None
    } else {
        let prev = chosen_path_upto(paths, offset, i - 1);
        if paths[i - 1].range.spec_contains(offset) && (prev is None
            || paths[i - 1].range.spec_len() < paths[prev->Some_0].range.spec_len()) {
            Some(i - 1)
        } else {
            prev
        }
    }
}

/// The node the transform anchors at: the smallest path-expression node
/// containing the cursor offset.
pub open spec fn spec_path_at(tree: SyntaxTree, offset: usize) -> Option<int> {
    chosen_path_upto(tree.paths@, offset, tree.paths@.len() as int)
}

/// What the choice promises: the chosen node contains the offset and no
/// node containing the offset is strictly smaller; when no node is
/// chosen, none contains the offset.
pub proof fn lemma_chosen_path_upto(paths: Seq<PathExprNode>, offset: usize, i: int)
    requires
        0 <= i <= paths.len(),
    ensures
        match chosen_path_upto(paths, offset, i) {
            None => forall|k: int|
                0 <= k < i ==> !(#[trigger] paths[k]).range.spec_contains(offset),
            Some(j) => {
                &&& 0 <= j < i
                &&& paths[j].range.spec_contains(offset)
                &&& forall|k: int|
                    0 <= k < i && (#[trigger] paths[k]).range.spec_contains(offset)
                        ==> paths[j].range.spec_len() <= paths[k].range.spec_len()
            },
        },
    decreases i,
{
    if i > 0 {
        lemma_chosen_path_upto(paths, offset, i - 1);
    }
}

/// Locate the smallest path-expression node enclosing `offset`, the
/// anchor of the inlining transform.
pub fn find_path_expr_at(tree: &SyntaxTree, offset: usize) -> (r: Option<usize>)
    requires
        tree.wf(),
    ensures
        match r {
            None => spec_path_at(*tree, offset) is None,
            Some(j) => spec_path_at(*tree, offset) == Some(j as int),
        },
{
    let mut best: Option<usize> = None;
    let n: usize = tree.paths.len();
    let mut i: usize = 0;
    while i < n
        invariant
            tree.wf(),
            i <= n,
            n == tree.paths@.len(),
            match best {
                None => chosen_path_upto(tree.paths@, offset, i as int) is None,
                Some(j) => j < i && chosen_path_upto(tree.paths@, offset, i as int) == Some(
                    j as int,
                ),
            },
        decreases n - i,
    {
        let node = &tree.paths[i];
        if node.range.contains(offset) {
            let better: bool = match best {
                None => true,
                Some(j) => node.range.len() < tree.paths[j].range.len(),
            };
            if better {
                best = Some(i);
            }
        }
        i = i + 1;
    }
    best
}

} // verus!

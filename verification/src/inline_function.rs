//! The call-site inlining transform.
//!
//! Given a cursor offset, a syntax snapshot and a semantic model,
//! [`try_inline`] decides whether inlining the called function at that
//! position is valid, and if so produces the replacement: a block holding
//! one `let` binding per parameter followed by the function's body,
//! re-indented to the call site, replacing the entire call expression.
//! Every precondition failure is a silent "not applicable" outcome; the
//! transform never fires incorrectly rather than not at all.

use vstd::prelude::*;

use crate::edit_builder::ReplacementBlock;
use crate::edit_builder::bindings_text_upto;
use crate::edit_builder::binding_text;
use crate::edit_builder::block_text;
use crate::edit_builder::build_replacement_block;
use crate::edit_builder::line_text;
use crate::edit_builder::render_block;
use crate::edit_builder::stmts_text_upto;
use crate::edit_builder::tail_text;
use crate::semantics::FnBody;
use crate::semantics::FunctionDef;
use crate::semantics::ParamDecl;
use crate::semantics::Resolution;
use crate::semantics::SemanticModel;
use crate::semantics::spec_is_visible;
use crate::semantics::spec_resolve;
use crate::syntax_tree::SyntaxTree;
use crate::syntax_tree::find_path_expr_at;
use crate::syntax_tree::lemma_chosen_path_upto;
use crate::syntax_tree::spec_path_at;
use crate::text::Edit;

verus! {

/// An applicable inlining: a human-readable label and the single edit
/// that replaces the call expression with the rendered block.
pub struct InlineAssist {
    pub label: String,
    pub edit: Edit,
}

/// Where an applicable request anchors: the chosen path node, the call
/// it is the callee of, and the function definition it resolves to.
pub ghost struct InlinePlan {
    pub path_idx: int,
    pub call_idx: int,
    pub fun_idx: int,
}

/// Every declared parameter carries a destructurable pattern.
pub open spec fn all_params_have_patterns(params: Seq<ParamDecl>) -> bool {
    forall|i: int| 0 <= i < params.len() ==> (#[trigger] params[i]).pat is Some
}

/// The binding statements for the first `i` parameters, each pairing a
/// declared pattern with the argument supplied at the same position.
pub open spec fn param_bindings_text_upto(
    params: Seq<ParamDecl>,
    args: Seq<String>,
    level: nat,
    i: int,
) -> Seq<char>
    decreases i,
{
    if i <= 0 {
        Seq::empty()
    } else {
        param_bindings_text_upto(params, args, level, i - 1) + line_text(
            level,
            binding_text(params[i - 1].pat->Some_0@, args[i - 1]@),
        )
    }
}

/// The text of the block that inlines a call of the function with
/// parameters `params` and body `body`, applied to `args`, at
/// indentation level `level`.
pub open spec fn inline_block_text(
    params: Seq<ParamDecl>,
    args: Seq<String>,
    body: FnBody,
    level: nat,
) -> Seq<char> {
    "{"@ + param_bindings_text_upto(params, args, level + 1, params.len() as int)
        + stmts_text_upto(body.stmts@, level + 1, body.stmts@.len() as int) + tail_text(
        body.tail,
        level + 1,
    ) + line_text(level, "}"@)
}

/// The decision of the transform: `Some` exactly when every precondition
/// holds — the cursor anchors at a path that is the callee of a call
/// expression, the path resolves to exactly one definition and that
/// definition is a function, the call's scope has a module from which
/// the function is visible, the function has a source-backed body, the
/// call has an argument list, every parameter has a destructurable
/// pattern, and the argument count equals the parameter count.
pub open spec fn spec_inline_plan(tree: SyntaxTree, model: SemanticModel, offset: usize) -> Option<
    InlinePlan,
> {
    match spec_path_at(tree, offset) {
        None => None,
        Some(p) => {
            let path = tree.paths@[p];
            match path.parent_call {
                None => None,
                Some(c) => {
                    let call = tree.calls@[c as int];
                    match spec_resolve(model, path.text@) {
                        Some(Resolution::Function(f)) => if f < model.functions@.len() {
                            let fd = model.functions@[f as int];
                            if {
                                &&& call.module is Some
                                &&& spec_is_visible(fd, call.module->Some_0)
                                &&& fd.body is Some
                                &&& call.args is Some
                                &&& all_params_have_patterns(fd.params@)
                                &&& call.args->Some_0@.len() == fd.params@.len()
                            } {
                                Some(InlinePlan { path_idx: p, call_idx: c as int, fun_idx: f as int })
                            } else {
                                None
                            }
                        } else {
                            None
                        },
                        _ => None,
                    }
                },
            }
        },
    }
}

/// The declared parameter patterns of `f`, in declaration order, or
/// nothing when some parameter lacks a destructurable pattern.
pub fn function_parameter_patterns(f: &FunctionDef) -> (r: Option<Vec<String>>)
    ensures
        match r {
            None => !all_params_have_patterns(f.params@),
            Some(ps) => {
                &&& all_params_have_patterns(f.params@)
                &&& ps@.len() == f.params@.len()
                &&& forall|i: int|
                    0 <= i < f.params@.len() ==> (#[trigger] ps@[i])@ == f.params@[i].pat->Some_0@
            },
        },
{
    let n: usize = f.params.len();
    let mut patterns: Vec<String> = Vec::new();
    let mut i: usize = 0;
    while i < n
        invariant
            i <= n,
            n == f.params@.len(),
            patterns@.len() == i as int,
            forall|k: int| 0 <= k < i as int ==> (#[trigger] f.params@[k]).pat is Some,
            forall|k: int|
                0 <= k < i as int ==> (#[trigger] patterns@[k])@ == f.params@[k].pat->Some_0@,
        decreases n - i,
    {
        match &f.params[i].pat {
            Some(p) => patterns.push(p.clone()),
            None => {
                return None;
            },
        }
        i = i + 1;
    }
    Some(patterns)
}

/// A block whose bindings pair the parameter patterns with the
/// arguments renders to the text [`inline_block_text`] speaks of.
proof fn lemma_param_bindings_text(
    bs: Seq<crate::edit_builder::ParameterBinding>,
    params: Seq<ParamDecl>,
    args: Seq<String>,
    level: nat,
    i: int,
)
    requires
        0 <= i <= params.len(),
        bs.len() == params.len(),
        args.len() == params.len(),
        all_params_have_patterns(params),
        forall|k: int|
            0 <= k < params.len() ==> (#[trigger] bs[k]).pat@ == params[k].pat->Some_0@ && bs[k].arg@
                == args[k]@,
    ensures
        bindings_text_upto(bs, level, i) == param_bindings_text_upto(params, args, level, i),
    decreases i,
{
    if i > 0 {
        lemma_param_bindings_text(bs, params, args, level, i - 1);
    }
}

/// When every precondition of the transform holds — the cursor anchors
/// at the callee path of a call, the path resolves to a function of the
/// model, the function is visible from the call's module, its body is
/// source-backed, every parameter has a pattern, and exactly as many
/// arguments are supplied as parameters are declared — the transform
/// applies. Together with the contract of [`try_inline`], the produced
/// block then carries exactly one leading binding statement per declared
/// parameter, in declaration order, followed by the body's statements
/// and trailing expression: see [`inline_block_text`] and
/// [`param_bindings_text_upto`].
pub proof fn lemma_inline_applicable(
    tree: SyntaxTree,
    model: SemanticModel,
    offset: usize,
    p: int,
    c: usize,
    f: usize,
)
    requires
        spec_path_at(tree, offset) == Some(p),
        tree.paths@[p].parent_call == Some(c),
        spec_resolve(model, tree.paths@[p].text@) == Some(Resolution::Function(f)),
        f < model.functions@.len(),
        tree.calls@[c as int].module is Some,
        spec_is_visible(model.functions@[f as int], tree.calls@[c as int].module->Some_0),
        model.functions@[f as int].body is Some,
        tree.calls@[c as int].args is Some,
        all_params_have_patterns(model.functions@[f as int].params@),
        tree.calls@[c as int].args->Some_0@.len() == model.functions@[f as int].params@.len(),
    ensures
        spec_inline_plan(tree, model, offset) == Some(
            InlinePlan { path_idx: p, call_idx: c as int, fun_idx: f as int },
        ),
{
}

/// A call that supplies more or fewer arguments than the resolved
/// function declares parameters is never inlined, even though the call
/// anchors and resolves: the transform yields no result.
pub proof fn lemma_arity_mismatch_not_applicable(
    tree: SyntaxTree,
    model: SemanticModel,
    offset: usize,
    p: int,
    c: usize,
    f: usize,
)
    requires
        spec_path_at(tree, offset) == Some(p),
        tree.paths@[p].parent_call == Some(c),
        spec_resolve(model, tree.paths@[p].text@) == Some(Resolution::Function(f)),
        f < model.functions@.len(),
        tree.calls@[c as int].args is Some,
        tree.calls@[c as int].args->Some_0@.len() != model.functions@[f as int].params@.len(),
    ensures
        spec_inline_plan(tree, model, offset) is None,
{
}

/// A call whose target is not visible from the caller's module is never
/// inlined, even though the path resolves: the transform yields no
/// result.
pub proof fn lemma_invisible_not_applicable(
    tree: SyntaxTree,
    model: SemanticModel,
    offset: usize,
    p: int,
    c: usize,
    f: usize,
)
    requires
        spec_path_at(tree, offset) == Some(p),
        tree.paths@[p].parent_call == Some(c),
        spec_resolve(model, tree.paths@[p].text@) == Some(Resolution::Function(f)),
        f < model.functions@.len(),
        tree.calls@[c as int].module is Some,
        !spec_is_visible(model.functions@[f as int], tree.calls@[c as int].module->Some_0),
    ensures
        spec_inline_plan(tree, model, offset) is None,
{
}

/// A call resolved through a receiver never produces an edit, whatever
/// the target's accessibility: in method-call form the name under the
/// cursor is not the callee path of a call expression, so no path node
/// containing the offset has a call parent, and the transform yields no
/// result.
pub proof fn lemma_method_call_not_applicable(
    tree: SyntaxTree,
    model: SemanticModel,
    offset: usize,
)
    requires
        forall|k: int|
            0 <= k < tree.paths@.len() && (#[trigger] tree.paths@[k]).range.spec_contains(offset)
                ==> tree.paths@[k].parent_call is None,
    ensures
        spec_inline_plan(tree, model, offset) is None,
{
    lemma_chosen_path_upto(tree.paths@, offset, tree.paths@.len() as int);
}

/// Inline the function called at `offset`, when every precondition of
/// the transform holds; otherwise report "not applicable" by returning
/// nothing. On success the edit replaces the entire call expression's
/// range with the rendered replacement block, and the label names the
/// path as written at the call site.
pub fn try_inline(offset: usize, tree: &SyntaxTree, model: &SemanticModel) -> (r: Option<
    InlineAssist,
>)
    requires
        tree.wf(),
    ensures
        match r {
            None => spec_inline_plan(*tree, *model, offset) is None,
            Some(a) => {
                &&& spec_inline_plan(*tree, *model, offset) is Some
                &&& {
                    let plan = spec_inline_plan(*tree, *model, offset)->Some_0;
                    let path = tree.paths@[plan.path_idx];
                    let call = tree.calls@[plan.call_idx];
                    let fd = model.functions@[plan.fun_idx];
                    &&& a.edit.range == call.range
                    &&& a.label@ == "Inline `"@ + path.text@ + "`"@
                    &&& a.edit.replacement@ == inline_block_text(
                        fd.params@,
                        call.args->Some_0@,
                        fd.body->Some_0,
                        call.indent as nat,
                    )
                }
            },
        },
{
    let pi: usize = match find_path_expr_at(tree, offset) {
        Some(pi) => pi,
        None => {
            return None;
        },
    };
    proof {
        lemma_chosen_path_upto(tree.paths@, offset, tree.paths@.len() as int);
    }
    let ci: usize = match tree.paths[pi].parent_call {
        Some(c) => c,
        None => {
            return None;
        },
    };
    let fi: usize = match model.resolve_reference(&tree.paths[pi].text) {
        Some(Resolution::Function(f)) => f,
        _ => {
            return None;
        },
    };
    if fi >= model.functions.len() {
        // A resolution pointing outside the model would be a malformed
        // snapshot; fail closed rather than produce a malformed edit.
        return None;
    }
    let fd = &model.functions[fi];
    let from: usize = match tree.calls[ci].module {
        Some(m) => m,
        None => {
            return None;
        },
    };
    if !model.is_visible(fd, from) {
        return None;
    }
    let body = match model.source_of(fd) {
        Some(b) => b,
        None => {
            return None;
        },
    };
    let patterns: Vec<String> = match function_parameter_patterns(fd) {
        Some(ps) => ps,
        None => {
            return None;
        },
    };
    let args = match &tree.calls[ci].args {
        Some(a) => a,
        None => {
            return None;
        },
    };
    if args.len() != patterns.len() {
        // The call supplies the wrong number of arguments; arity
        // mismatch is a hard precondition failure.
        return None;
    }
    let block: ReplacementBlock = build_replacement_block(&patterns, args, body);
    let replacement: String = render_block(&block, tree.calls[ci].indent);
    proof {
        lemma_param_bindings_text(
            block.bindings@,
            fd.params@,
            args@,
            tree.calls@[ci as int].indent as nat + 1,
            fd.params@.len() as int,
        );
        assert(block_text(block, tree.calls@[ci as int].indent as nat) =~= inline_block_text(
            fd.params@,
            args@,
            fd.body->Some_0,
            tree.calls@[ci as int].indent as nat,
        ));
    }
    let mut label: String = String::from_str("Inline `");
    label.append(tree.paths[pi].text.as_str());
    label.append("`");
    Some(
        InlineAssist {
            label,
            edit: Edit { range: tree.calls[ci].range, replacement },
        },
    )
}

} // verus!

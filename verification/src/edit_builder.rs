//! Construction of replacement syntax.
//!
//! The inlining transform does not patch text ad hoc: it first builds a
//! [`ReplacementBlock`] — binding statements in parameter order, then the
//! body's statements, then the optional trailing expression — and then
//! renders that block as new source text, re-indented to the call site's
//! ambient indentation level. The rendered text is pinned down, character
//! for character, by the specification functions in this module.

use vstd::prelude::*;

use crate::semantics::FnBody;

verus! {

/// The ordered pairing of one declared parameter pattern with the
/// argument expression supplied for it.
pub struct ParameterBinding {
    pub pat: String,
    pub arg: String,
}

/// The block that replaces a call expression: one binding statement per
/// parameter, in declaration order, then the body's statements verbatim,
/// then the body's trailing value expression, if present.
pub struct ReplacementBlock {
    pub bindings: Vec<ParameterBinding>,
    pub stmts: Vec<String>,
    pub tail: Option<String>,
}

/// `n` space characters.
pub open spec fn spaces(n: nat) -> Seq<char>
    decreases n,
{
    if n == 0 {
        Seq::empty()
    } else {
        spaces((n - 1) as nat).push(' ')
    }
}

/// The leading whitespace of a line at indentation level `level`; one
/// level is four spaces.
pub open spec fn indent_text(level: nat) -> Seq<char> {
    spaces(4 * level)
}

/// A binding statement for one parameter.
pub open spec fn binding_text(pat: Seq<char>, arg: Seq<char>) -> Seq<char> {
    "let "@ + pat + " = "@ + arg + ";"@
}

/// One line inside the rendered block: a newline, the indentation, the
/// line's content.
pub open spec fn line_text(level: nat, content: Seq<char>) -> Seq<char> {
    "\n"@ + indent_text(level) + content
}

/// The binding statements of the first `i` bindings, rendered as lines.
pub open spec fn bindings_text_upto(bs: Seq<ParameterBinding>, level: nat, i: int) -> Seq<char>
    decreases i,
{
    if i <= 0 {
        Seq::empty()
    } else {
        bindings_text_upto(bs, level, i - 1) + line_text(
            level,
            binding_text(bs[i - 1].pat@, bs[i - 1].arg@),
        )
    }
}

/// The first `i` body statements, rendered as lines.
pub open spec fn stmts_text_upto(ss: Seq<String>, level: nat, i: int) -> Seq<char>
    decreases i,
{
    if i <= 0 {
        Seq::empty()
    } else {
        stmts_text_upto(ss, level, i - 1) + line_text(level, ss[i - 1]@)
    }
}

/// The trailing value expression, rendered as a line when present.
pub open spec fn tail_text(tail: Option<String>, level: nat) -> Seq<char> {
    match tail {
        None => Seq::empty(),
        Some(e) => line_text(level, e@),
    }
}

/// The whole rendered block at indentation level `level`: the opening
/// brace, the binding lines and body lines one level deeper, and the
/// closing brace back at the block's own level.
pub open spec fn block_text(b: ReplacementBlock, level: nat) -> Seq<char> {
    "{"@ + bindings_text_upto(b.bindings@, level + 1, b.bindings@.len() as int) + stmts_text_upto(
        b.stmts@,
        level + 1,
        b.stmts@.len() as int,
    ) + tail_text(b.tail, level + 1) + line_text(level, "}"@)
}

/// Pair parameter patterns with argument expressions positionally and
/// attach the body, building the block in the order the rendering emits
/// it: bindings first, in parameter-declaration order, then the body.
pub fn build_replacement_block(patterns: &Vec<String>, args: &Vec<String>, body: &FnBody) -> (r:
    ReplacementBlock)
    requires
        patterns@.len() == args@.len(),
    ensures
        r.bindings@.len() == patterns@.len(),
        forall|i: int|
            0 <= i < patterns@.len() ==> (#[trigger] r.bindings@[i]).pat == patterns@[i]
                && r.bindings@[i].arg == args@[i],
        r.stmts@ == body.stmts@,
        r.tail == body.tail,
{
    let n: usize = patterns.len();
    let mut bindings: Vec<ParameterBinding> = Vec::new();
    let mut i: usize = 0;
    while i < n
        invariant
            i <= n,
            n == patterns@.len(),
            n == args@.len(),
            bindings@.len() == i as int,
            forall|k: int|
                0 <= k < i as int ==> (#[trigger] bindings@[k]).pat == patterns@[k]
                    && bindings@[k].arg == args@[k],
        decreases n - i,
    {
        bindings.push(ParameterBinding { pat: patterns[i].clone(), arg: args[i].clone() });
        i = i + 1;
    }
    let mut stmts: Vec<String> = Vec::new();
    let m: usize = body.stmts.len();
    let mut j: usize = 0;
    while j < m
        invariant
            j <= m,
            m == body.stmts@.len(),
            stmts@.len() == j as int,
            forall|k: int| 0 <= k < j as int ==> #[trigger] stmts@[k] == body.stmts@[k],
        decreases m - j,
    {
        stmts.push(body.stmts[j].clone());
        j = j + 1;
    }
    let tail: Option<String> = match &body.tail {
        Some(e) => Some(e.clone()),
        None => None,
    };
    proof {
        assert(stmts@ =~= body.stmts@);
    }
    ReplacementBlock { bindings, stmts, tail }
}

/// `n` spaces, as text.
pub fn make_spaces(n: usize) -> (r: String)
    ensures
        r@ == spaces(n as nat),
{
    proof {
        reveal_strlit(" ");
        assert(" "@ =~= seq![' ']);
    }
    let mut s: String = String::new();
    let mut i: usize = 0;
    while i < n
        invariant
            i <= n,
            s@ =~= spaces(i as nat),
            " "@ =~= seq![' '],
        decreases n - i,
    {
        s.append(" ");
        i = i + 1;
        proof {
            assert(s@ =~= spaces(i as nat));
        }
    }
    s
}

/// Render the block as new source text at indentation level `level`.
pub fn render_block(b: &ReplacementBlock, level: u8) -> (r: String)
    ensures
        r@ == block_text(*b, level as nat),
{
    let inner: String = make_spaces(4 * (level as usize + 1));
    let outer: String = make_spaces(4 * (level as usize));
    proof {
        assert(4 * (level as usize + 1) as nat == 4 * ((level as nat) + 1));
        assert(inner@ == indent_text((level as nat) + 1));
        assert(outer@ == indent_text(level as nat));
    }
    let ghost lvl1: nat = (level as nat) + 1;
    let mut s: String = String::from_str("{");
    let nb: usize = b.bindings.len();
    let mut i: usize = 0;
    while i < nb
        invariant
            i <= nb,
            nb == b.bindings@.len(),
            inner@ == indent_text(lvl1),
            lvl1 == (level as nat) + 1,
            s@ =~= "{"@ + bindings_text_upto(b.bindings@, lvl1, i as int),
        decreases nb - i,
    {
        s.append("\n");
        s.append(inner.as_str());
        s.append("let ");
        s.append(b.bindings[i].pat.as_str());
        s.append(" = ");
        s.append(b.bindings[i].arg.as_str());
        s.append(";");
        i = i + 1;
        proof {
            assert(s@ =~= "{"@ + bindings_text_upto(b.bindings@, lvl1, i as int));
        }
    }
    let ns: usize = b.stmts.len();
    let ghost binds: Seq<char> = "{"@ + bindings_text_upto(b.bindings@, lvl1, nb as int);
    let mut j: usize = 0;
    while j < ns
        invariant
            j <= ns,
            ns == b.stmts@.len(),
            inner@ == indent_text(lvl1),
            lvl1 == (level as nat) + 1,
            binds == "{"@ + bindings_text_upto(b.bindings@, lvl1, b.bindings@.len() as int),
            s@ =~= binds + stmts_text_upto(b.stmts@, lvl1, j as int),
        decreases ns - j,
    {
        s.append("\n");
        s.append(inner.as_str());
        s.append(b.stmts[j].as_str());
        j = j + 1;
        proof {
            assert(s@ =~= binds + stmts_text_upto(b.stmts@, lvl1, j as int));
        }
    }
    match &b.tail {
        Some(e) => {
            s.append("\n");
            s.append(inner.as_str());
            s.append(e.as_str());
        },
        None => {},
    }
    s.append("\n");
    s.append(outer.as_str());
    s.append("}");
    proof {
        assert(s@ =~= block_text(*b, level as nat));
    }
    s
}

} // verus!

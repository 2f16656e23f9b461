use assist_core::edit_builder::ReplacementBlock;
use assist_core::inline_function::try_inline;
use assist_core::semantics::FnBody;
use assist_core::semantics::FunctionDef;
use assist_core::semantics::ParamDecl;
use assist_core::semantics::Resolution;
use assist_core::semantics::ResolutionEntry;
use assist_core::semantics::SemanticModel;
use assist_core::semantics::Visibility;
use assist_core::syntax_tree::CallExprNode;
use assist_core::syntax_tree::PathExprNode;
use assist_core::syntax_tree::SyntaxTree;
use assist_core::text::Edit;
use assist_core::text::TextRange;

fn apply_edit(src: &str, edit: &Edit) -> String {
    edit.apply(src)
}

fn fn_def(module: usize, vis: Visibility, pats: &[&str], stmts: &[&str], tail: Option<&str>) -> FunctionDef {
    FunctionDef {
        module,
        vis,
        params: pats.iter().map(|p| ParamDecl { pat: Some(String::from(*p)) }).collect(),
        body: Some(FnBody {
            stmts: stmts.iter().map(|s| String::from(*s)).collect(),
            tail: tail.map(String::from),
        }),
    }
}

fn resolution(path: &str, r: Resolution) -> ResolutionEntry {
    ResolutionEntry { path: String::from(path), resolution: r }
}

fn model_of(functions: Vec<FunctionDef>, resolutions: Vec<ResolutionEntry>) -> SemanticModel {
    SemanticModel { functions, resolutions, classifications: Vec::new() }
}

/// One call expression whose callee is one path: the tree of the
/// simple fixtures below.
fn call_tree(callee_at: usize, callee: &str, call_len: usize, args: &[&str], indent: u8) -> SyntaxTree {
    SyntaxTree {
        paths: vec![PathExprNode {
            range: TextRange { start: callee_at, end: callee_at + callee.len() },
            text: String::from(callee),
            parent_call: Some(0),
        }],
        calls: vec![CallExprNode {
            range: TextRange { start: callee_at, end: callee_at + call_len },
            args: Some(args.iter().map(|a| String::from(*a)).collect()),
            module: Some(0),
            indent,
        }],
    }
}

#[test]
fn no_args_or_return_value_gets_inlined_without_block() {
    let src = "fn foo() { println!(\"Hello, World!\"); }\nfn main() {\n    foo();\n}\n";
    let at = src.rfind("foo()").unwrap();
    let tree = call_tree(at, "foo", "foo()".len(), &[], 1);
    let model = model_of(
        vec![fn_def(0, Visibility::Public, &[], &["println!(\"Hello, World!\");"], None)],
        vec![resolution("foo", Resolution::Function(0))],
    );
    let assist = try_inline(at + 1, &tree, &model).expect("inlining applies");
    assert_eq!(assist.label, "Inline `foo`");
    assert_eq!(
        apply_edit(src, &assist.edit),
        "fn foo() { println!(\"Hello, World!\"); }\nfn main() {\n    {\n        println!(\"Hello, World!\");\n    };\n}\n"
    );
}

#[test]
fn args_with_side_effects() {
    let src = "fn foo(name: String) { println!(\"Hello, {}!\", name); }\nfn main() {\n    foo(String::from(\"Michael\"));\n}\n";
    let at = src.rfind("foo(").unwrap();
    let tree = call_tree(
        at,
        "foo",
        "foo(String::from(\"Michael\"))".len(),
        &["String::from(\"Michael\")"],
        1,
    );
    let model = model_of(
        vec![fn_def(0, Visibility::Public, &["name"], &["println!(\"Hello, {}!\", name);"], None)],
        vec![resolution("foo", Resolution::Function(0))],
    );
    let assist = try_inline(at, &tree, &model).expect("inlining applies");
    assert_eq!(
        apply_edit(src, &assist.edit),
        "fn foo(name: String) { println!(\"Hello, {}!\", name); }\nfn main() {\n    {\n        let name = String::from(\"Michael\");\n        println!(\"Hello, {}!\", name);\n    };\n}\n"
    );
}

#[test]
fn cant_inline_when_the_function_is_inaccessible() {
    let src = "mod private {\n    fn add(a: u32, b: u32) -> u32 { a + b }\n}\nfn main() { let x = private::add(1, 2); }\n";
    let at = src.rfind("private::add(1, 2)").unwrap();
    let tree = call_tree(at, "private::add", "private::add(1, 2)".len(), &["1", "2"], 0);
    // `add` lives in module 1 and is visible only there; the call sits
    // in module 0.
    let model = model_of(
        vec![fn_def(1, Visibility::ModuleOnly, &["a", "b"], &[], Some("a + b"))],
        vec![resolution("private::add", Resolution::Function(0))],
    );
    assert!(try_inline(at, &tree, &model).is_none());
}

#[test]
fn method_inlining_isnt_supported() {
    let src = "struct Foo;\nimpl Foo { fn bar(&self) {} }\n\nfn main() { Foo.bar(); }\n";
    let receiver_at = src.rfind("Foo.bar").unwrap();
    // In method-call form only the receiver is a path expression, and
    // its parent is the method call, not a call expression.
    let tree = SyntaxTree {
        paths: vec![PathExprNode {
            range: TextRange { start: receiver_at, end: receiver_at + 3 },
            text: String::from("Foo"),
            parent_call: None,
        }],
        calls: vec![],
    };
    let model = model_of(
        vec![fn_def(0, Visibility::Public, &[], &[], None)],
        vec![resolution("bar", Resolution::Function(0))],
    );
    let name_at = src.rfind("bar").unwrap();
    assert!(try_inline(name_at, &tree, &model).is_none());
    assert!(try_inline(receiver_at, &tree, &model).is_none());
}

#[test]
fn function_with_multiple_statements() {
    let src = "fn foo(a: u32, b: u32) -> u32 {\n    let x = a + b;\n    let y = x - b;\n    x * y\n}\n\nfn main() {\n    let x = foo(1, 2);\n}\n";
    let at = src.rfind("foo(1, 2)").unwrap();
    let tree = call_tree(at, "foo", "foo(1, 2)".len(), &["1", "2"], 1);
    let model = model_of(
        vec![fn_def(
            0,
            Visibility::Public,
            &["a", "b"],
            &["let x = a + b;", "let y = x - b;"],
            Some("x * y"),
        )],
        vec![resolution("foo", Resolution::Function(0))],
    );
    let assist = try_inline(at, &tree, &model).expect("inlining applies");
    assert_eq!(
        apply_edit(src, &assist.edit),
        "fn foo(a: u32, b: u32) -> u32 {\n    let x = a + b;\n    let y = x - b;\n    x * y\n}\n\nfn main() {\n    let x = {\n        let a = 1;\n        let b = 2;\n        let x = a + b;\n        let y = x - b;\n        x * y\n    };\n}\n"
    );
}

#[test]
fn arity_mismatch_is_not_applicable() {
    let src = "fn add(a: u32, b: u32) -> u32 { a + b }\nfn main() { let x = add(1); }\n";
    let at = src.rfind("add(1)").unwrap();
    let tree = call_tree(at, "add", "add(1)".len(), &["1"], 0);
    let model = model_of(
        vec![fn_def(0, Visibility::Public, &["a", "b"], &[], Some("a + b"))],
        vec![resolution("add", Resolution::Function(0))],
    );
    assert!(try_inline(at, &tree, &model).is_none());
}

#[test]
fn unresolved_and_ambiguous_paths_are_not_applicable() {
    let tree = call_tree(0, "foo", 5, &[], 0);
    // No resolution entry at all.
    let unresolved = model_of(vec![fn_def(0, Visibility::Public, &[], &[], None)], vec![]);
    assert!(try_inline(0, &tree, &unresolved).is_none());
    // Two entries for the same path: ambiguous, fails closed.
    let ambiguous = model_of(
        vec![fn_def(0, Visibility::Public, &[], &[], None)],
        vec![
            resolution("foo", Resolution::Function(0)),
            resolution("foo", Resolution::Function(0)),
        ],
    );
    assert!(try_inline(0, &tree, &ambiguous).is_none());
}

#[test]
fn non_function_target_is_not_applicable() {
    let tree = call_tree(0, "m", 3, &[], 0);
    let model = model_of(vec![], vec![resolution("m", Resolution::NonFunction)]);
    assert!(try_inline(0, &tree, &model).is_none());
}

#[test]
fn missing_body_is_not_applicable() {
    let tree = call_tree(0, "ext", 5, &[], 0);
    let model = model_of(
        vec![FunctionDef {
            module: 0,
            vis: Visibility::Public,
            params: vec![],
            body: None,
        }],
        vec![resolution("ext", Resolution::Function(0))],
    );
    assert!(try_inline(0, &tree, &model).is_none());
}

#[test]
fn parameter_without_pattern_is_not_applicable() {
    let tree = call_tree(0, "f", 4, &["1"], 0);
    let model = model_of(
        vec![FunctionDef {
            module: 0,
            vis: Visibility::Public,
            params: vec![ParamDecl { pat: None }],
            body: Some(FnBody { stmts: vec![], tail: None }),
        }],
        vec![resolution("f", Resolution::Function(0))],
    );
    assert!(try_inline(0, &tree, &model).is_none());
}

#[test]
fn cursor_outside_any_path_is_not_applicable() {
    let tree = call_tree(10, "foo", 5, &[], 0);
    let model = model_of(
        vec![fn_def(0, Visibility::Public, &[], &[], None)],
        vec![resolution("foo", Resolution::Function(0))],
    );
    assert!(try_inline(2, &tree, &model).is_none());
}

#[test]
fn innermost_path_anchors_the_assist() {
    // Two nested path nodes contain the offset; the smaller one is the
    // callee of the call and wins.
    let tree = SyntaxTree {
        paths: vec![
            PathExprNode {
                range: TextRange { start: 0, end: 20 },
                text: String::from("outer"),
                parent_call: None,
            },
            PathExprNode {
                range: TextRange { start: 4, end: 7 },
                text: String::from("foo"),
                parent_call: Some(0),
            },
        ],
        calls: vec![CallExprNode {
            range: TextRange { start: 4, end: 9 },
            args: Some(vec![]),
            module: Some(0),
            indent: 0,
        }],
    };
    let model = model_of(
        vec![fn_def(0, Visibility::Public, &[], &["step();"], None)],
        vec![resolution("foo", Resolution::Function(0))],
    );
    let assist = try_inline(5, &tree, &model).expect("inlining applies");
    assert_eq!(assist.label, "Inline `foo`");
    assert_eq!(assist.edit.range, TextRange { start: 4, end: 9 });
    assert_eq!(assist.edit.replacement, "{\n    step();\n}");
}

#[test]
fn zero_indent_block_rendering() {
    let block = ReplacementBlock {
        bindings: vec![],
        stmts: vec![String::from("work();")],
        tail: Some(String::from("0")),
    };
    let rendered = assist_core::edit_builder::render_block(&block, 0);
    assert_eq!(rendered, "{\n    work();\n    0\n}");
}

use either::Either;

use assist_core::candidates::DefKind;
use assist_core::candidates::MacroDef;
use assist_core::candidates::ModuleDef;
use assist_core::imports_locator::Crate;
use assist_core::imports_locator::ExternImportable;
use assist_core::imports_locator::LocalSymbol;
use assist_core::imports_locator::find_exact_imports;
use assist_core::imports_locator::find_similar_imports;
use assist_core::semantics::SemanticModel;

type Candidate = Either<ModuleDef, MacroDef>;

fn free_fn(id: u32) -> Candidate {
    Either::Left(ModuleDef { id, kind: DefKind::Function, assoc: false })
}

fn assoc_fn(id: u32) -> Candidate {
    Either::Left(ModuleDef { id, kind: DefKind::Function, assoc: true })
}

fn macro_def(id: u32) -> Candidate {
    Either::Right(MacroDef { id })
}

fn extern_entry(path: &str, name: &str, item: Candidate) -> ExternImportable {
    ExternImportable { path: String::from(path), name: String::from(name), item }
}

fn local_entry(name: &str, node: usize) -> LocalSymbol {
    LocalSymbol { name: String::from(name), node }
}

fn model_with(classifications: Vec<Option<Candidate>>) -> SemanticModel {
    SemanticModel { functions: Vec::new(), resolutions: Vec::new(), classifications }
}

#[test]
fn exact_search_deduplicates_local_and_dependency_hits() {
    // The same declaration is indexed locally and exported by a
    // dependency: one candidate comes back, not two.
    let model = model_with(vec![Some(free_fn(7))]);
    let krate = Crate {
        local_symbols: vec![local_entry("frobnicate", 0)],
        extern_importables: vec![extern_entry("dep::frobnicate", "frobnicate", free_fn(7))],
    };
    let found = find_exact_imports(&model, &krate, String::from("frobnicate"));
    assert_eq!(found.len(), 1);
    assert_eq!(found[0], free_fn(7));
}

#[test]
fn exact_search_keeps_distinct_declarations_apart() {
    let model = model_with(vec![Some(free_fn(1))]);
    let krate = Crate {
        local_symbols: vec![local_entry("spawn", 0)],
        extern_importables: vec![extern_entry("dep::spawn", "spawn", free_fn(2))],
    };
    let found = find_exact_imports(&model, &krate, String::from("spawn"));
    assert_eq!(found.len(), 2);
    // Dependencies are queried first.
    assert_eq!(found[0], free_fn(2));
    assert_eq!(found[1], free_fn(1));
}

#[test]
fn exact_search_is_case_sensitive() {
    let model = model_with(vec![Some(free_fn(1))]);
    let krate = Crate {
        local_symbols: vec![local_entry("foo", 0)],
        extern_importables: vec![extern_entry("dep::foo", "foo", free_fn(2))],
    };
    assert!(find_exact_imports(&model, &krate, String::from("Foo")).is_empty());
    assert_eq!(find_exact_imports(&model, &krate, String::from("foo")).len(), 2);
}

#[test]
fn stale_local_entries_are_dropped_silently() {
    let model = model_with(vec![None]);
    let krate = Crate {
        // One entry whose node no longer classifies, one pointing
        // outside the model altogether.
        local_symbols: vec![local_entry("gone", 0), local_entry("gone", 99)],
        extern_importables: vec![],
    };
    assert!(find_exact_imports(&model, &krate, String::from("gone")).is_empty());
}

#[test]
fn exclude_associated_items_removes_impl_methods() {
    let model = model_with(vec![]);
    let krate = Crate {
        local_symbols: vec![],
        extern_importables: vec![
            extern_entry("dep::Widget::poll", "poll", assoc_fn(4)),
            extern_entry("dep::poll", "poll", free_fn(5)),
        ],
    };
    let without = find_similar_imports(&model, &krate, None, String::from("poll"), true, true);
    assert_eq!(without, vec![free_fn(5)]);
    let with = find_similar_imports(&model, &krate, None, String::from("poll"), false, true);
    assert_eq!(with, vec![assoc_fn(4), free_fn(5)]);
}

#[test]
fn assoc_filter_never_touches_macros() {
    let model = model_with(vec![]);
    let krate = Crate {
        local_symbols: vec![],
        extern_importables: vec![extern_entry("dep::dbg", "dbg", macro_def(9))],
    };
    let found = find_similar_imports(&model, &krate, None, String::from("dbg"), true, true);
    assert_eq!(found, vec![macro_def(9)]);
}

#[test]
fn fuzzy_search_is_case_insensitive_by_default() {
    let model = model_with(vec![]);
    let krate = Crate {
        local_symbols: vec![],
        extern_importables: vec![extern_entry("dep::FooBar", "FooBar", free_fn(3))],
    };
    let found = find_similar_imports(&model, &krate, None, String::from("foobar"), false, true);
    assert_eq!(found, vec![free_fn(3)]);
}

#[test]
fn fuzzy_search_matches_in_order_subsequences_only() {
    let model = model_with(vec![]);
    let krate = Crate {
        local_symbols: vec![],
        extern_importables: vec![
            extern_entry("dep::feed_robot", "feed_robot", free_fn(1)),
            extern_entry("dep::bore_fd", "bore_fd", free_fn(2)),
        ],
    };
    // "fb" occurs in order in "feed_robot" but not in "bore_fd".
    let found = find_similar_imports(&model, &krate, None, String::from("fb"), false, true);
    assert_eq!(found, vec![free_fn(1)]);
}

#[test]
fn fuzzy_search_consults_the_full_path_unless_name_only() {
    let model = model_with(vec![]);
    let krate = Crate {
        local_symbols: vec![],
        extern_importables: vec![extern_entry("dep::screen", "screen", free_fn(6))],
    };
    // "dpscr" threads through "dep::screen" but not through "screen".
    let by_path = find_similar_imports(&model, &krate, None, String::from("dpscr"), false, false);
    assert_eq!(by_path, vec![free_fn(6)]);
    let by_name = find_similar_imports(&model, &krate, None, String::from("dpscr"), false, true);
    assert!(by_name.is_empty());
}

#[test]
fn limit_caps_each_backend() {
    let model = model_with(vec![Some(free_fn(10)), Some(free_fn(11))]);
    let krate = Crate {
        local_symbols: vec![local_entry("item_a", 0), local_entry("item_b", 1)],
        extern_importables: vec![
            extern_entry("dep::item_c", "item_c", free_fn(20)),
            extern_entry("dep::item_d", "item_d", free_fn(21)),
        ],
    };
    let found = find_similar_imports(&model, &krate, Some(1), String::from("item"), false, true);
    // One hit from the import map, one from the local index.
    assert_eq!(found, vec![free_fn(20), free_fn(10)]);
    let unlimited = find_similar_imports(&model, &krate, None, String::from("item"), false, true);
    assert_eq!(unlimited.len(), 4);
}

#[test]
fn exact_search_collects_at_most_forty_dependency_hits() {
    let model = model_with(vec![]);
    let mut entries = Vec::new();
    for id in 0..45u32 {
        entries.push(extern_entry("dep::x", "x", free_fn(id)));
    }
    let krate = Crate { local_symbols: vec![], extern_importables: entries };
    let found = find_exact_imports(&model, &krate, String::from("x"));
    assert_eq!(found.len(), 40);
    assert_eq!(found[0], free_fn(0));
    assert_eq!(found[39], free_fn(39));
}

#[test]
fn local_fuzzy_hits_resolve_through_the_model() {
    // The local index knows only text and a node; the candidate comes
    // from name classification against the semantic model.
    let model = model_with(vec![Some(macro_def(2))]);
    let krate = Crate {
        local_symbols: vec![local_entry("shout", 0)],
        extern_importables: vec![],
    };
    let found = find_similar_imports(&model, &krate, None, String::from("SHOUT"), false, true);
    assert_eq!(found, vec![macro_def(2)]);
}

//! Import search across two backends.
//!
//! Given a name fragment, find every definition — local to the current
//! compilation unit, or exported by one of its dependencies — that could
//! satisfy an import. The dependency import map is queried first and its
//! hits collected into a deduplicating candidate set; the local symbol
//! index is queried second, each raw hit re-resolved against the
//! semantic model to the declaration it actually names (stale entries
//! are dropped silently), and folded into the same set. No two
//! candidates of the result share a semantic identity, however many
//! backend hits produced them.

use vstd::prelude::*;

use crate::candidates::Candidate;
use crate::candidates::CandidateSet;
use crate::candidates::DefKind;
use crate::candidates::add_candidate;
use crate::candidates::has_key;
use crate::candidates::lemma_has_key_push;
use crate::candidates::spec_candidate_key;
use crate::query::ImportQuery;
use crate::query::ImportQueryView;
use crate::query::LocalQuery;
use crate::query::LocalQueryView;
use crate::query::SearchMode;
use crate::query::import_query_matches;
use crate::query::local_query_matches;
use crate::query::matches_import;
use crate::query::matches_local;
use crate::semantics::SemanticModel;

verus! {

/// One entry of the local symbol index: the indexed name text and the
/// handle of the syntax node the index points at. The index is only
/// text; what declaration the node names is the semantic model's
/// business, and an entry may be stale.
pub struct LocalSymbol {
    pub name: String,
    pub node: usize,
}

/// One entry of the dependency import map: an externally importable
/// item, with its full path text and its bare name.
pub struct ExternImportable {
    pub path: String,
    pub name: String,
    pub item: Candidate,
}

/// The compilation unit a search runs over: its local symbol index and
/// the import map of its dependencies.
pub struct Crate {
    pub local_symbols: Vec<LocalSymbol>,
    pub extern_importables: Vec<ExternImportable>,
}

/// Whether one more hit may still be collected under `limit`.
pub open spec fn within_limit(limit: Option<usize>, hits: nat) -> bool {
    match limit {
        None => true,
        Some(l) => hits < l,
    }
}

/// The import-map hits among the first `i` entries, in entry order,
/// cut off at the query's limit.
pub open spec fn ext_hits_upto(entries: Seq<ExternImportable>, q: ImportQueryView, i: int) -> Seq<
    Candidate,
>
    decreases i,
{
    if i <= 0 {
        Seq::empty()
    } else {
        let prev = ext_hits_upto(entries, q, i - 1);
        if matches_import(entries[i - 1].path@, entries[i - 1].name@, q) && within_limit(
            q.limit,
            prev.len(),
        ) {
            prev.push(entries[i - 1].item)
        } else {
            prev
        }
    }
}

/// The local-index hits among the first `i` entries, in entry order,
/// cut off at the query's limit. These are raw index entries, counted
/// against the limit before re-resolution.
pub open spec fn local_hits_upto(syms: Seq<LocalSymbol>, q: LocalQueryView, i: int) -> Seq<
    LocalSymbol,
>
    decreases i,
{
    if i <= 0 {
        Seq::empty()
    } else {
        let prev = local_hits_upto(syms, q, i - 1);
        if matches_local(syms[i - 1].name@, q) && within_limit(q.limit, prev.len()) {
            prev.push(syms[i - 1])
        } else {
            prev
        }
    }
}

/// What the semantic model makes of a local index entry: the
/// declaration its node names, or nothing for a stale or non-item
/// entry.
pub open spec fn spec_classify(model: SemanticModel, sym: LocalSymbol) -> Option<Candidate> {
    if sym.node < model.classifications@.len() {
        model.classifications@[sym.node as int]
    } else {
        None
    }
}

/// The candidates the first `i` local hits re-resolve to, dropping the
/// entries the model no longer classifies.
pub open spec fn resolved_upto(model: SemanticModel, hits: Seq<LocalSymbol>, i: int) -> Seq<
    Candidate,
>
    decreases i,
{
    if i <= 0 {
        Seq::empty()
    } else {
        resolved_upto(model, hits, i - 1) + (match spec_classify(model, hits[i - 1]) {
            Some(c) => seq![c],
            None => Seq::empty(),
        })
    }
}

/// Fold the first `i` candidates of `s` into `acc`, keeping the first
/// hit of each identity.
pub open spec fn dedup_into(acc: Seq<Candidate>, s: Seq<Candidate>, i: int) -> Seq<Candidate>
    decreases i,
{
    if i <= 0 {
        acc
    } else {
        add_candidate(dedup_into(acc, s, i - 1), s[i - 1])
    }
}

/// The merged result of one search: the import-map hits first, then
/// the re-resolved local hits, deduplicated by identity in first-seen
/// order.
pub open spec fn spec_find_imports(
    model: SemanticModel,
    krate: Crate,
    lq: LocalQueryView,
    eq: ImportQueryView,
) -> Seq<Candidate> {
    let ext = ext_hits_upto(krate.extern_importables@, eq, krate.extern_importables@.len() as int);
    let loc = resolved_upto(
        model,
        local_hits_upto(krate.local_symbols@, lq, krate.local_symbols@.len() as int),
        local_hits_upto(krate.local_symbols@, lq, krate.local_symbols@.len() as int).len() as int,
    );
    dedup_into(dedup_into(Seq::empty(), ext, ext.len() as int), loc, loc.len() as int)
}

/// No more hits than entries looked at.
proof fn lemma_ext_hits_len(entries: Seq<ExternImportable>, q: ImportQueryView, i: int)
    requires
        0 <= i,
    ensures
        ext_hits_upto(entries, q, i).len() <= i,
    decreases i,
{
    if i > 0 {
        lemma_ext_hits_len(entries, q, i - 1);
    }
}

/// No more hits than entries looked at.
proof fn lemma_local_hits_len(syms: Seq<LocalSymbol>, q: LocalQueryView, i: int)
    requires
        0 <= i,
    ensures
        local_hits_upto(syms, q, i).len() <= i,
    decreases i,
{
    if i > 0 {
        lemma_local_hits_len(syms, q, i - 1);
    }
}

/// Folding a sequence only reads its prefix: a later push changes
/// nothing about the fold of the first `i` elements.
proof fn lemma_dedup_into_push(acc: Seq<Candidate>, s: Seq<Candidate>, c: Candidate, i: int)
    requires
        0 <= i <= s.len(),
    ensures
        dedup_into(acc, s.push(c), i) == dedup_into(acc, s, i),
    decreases i,
{
    if i > 0 {
        lemma_dedup_into_push(acc, s, c, i - 1);
        assert(s.push(c)[i - 1] == s[i - 1]);
    }
}

/// Re-resolving a hit sequence only reads its prefix: a later push
/// changes nothing about the first `i` resolutions.
proof fn lemma_resolved_upto_push(
    model: SemanticModel,
    hits: Seq<LocalSymbol>,
    sym: LocalSymbol,
    i: int,
)
    requires
        0 <= i <= hits.len(),
    ensures
        resolved_upto(model, hits.push(sym), i) == resolved_upto(model, hits, i),
    decreases i,
{
    if i > 0 {
        lemma_resolved_upto_push(model, hits, sym, i - 1);
        assert(hits.push(sym)[i - 1] == hits[i - 1]);
    }
}

/// Re-resolve a local index hit to the declaration it names, via the
/// semantic model; stale entries yield nothing and are dropped.
pub fn get_name_definition(model: &SemanticModel, import_candidate: &LocalSymbol) -> (r: Option<
    Candidate,
>)
    ensures
        r == spec_classify(*model, *import_candidate),
{
    if import_candidate.node < model.classifications.len() {
        match &model.classifications[import_candidate.node] {
            Some(c) => Some(*c),
            None => None,
        }
    } else {
        None
    }
}

/// Run one logical query against both backends and merge: dependencies
/// first, then the local index, deduplicated by semantic identity. The
/// result carries no two candidates with the same identity.
pub fn find_imports(
    model: &SemanticModel,
    krate: &Crate,
    local_query: LocalQuery,
    external_query: ImportQuery,
) -> (r: Vec<Candidate>)
    ensures
        r@ == spec_find_imports(*model, *krate, local_query@, external_query@),
        forall|i: int, j: int|
            0 <= i < j < r@.len() ==> spec_candidate_key(#[trigger] r@[i]) != spec_candidate_key(
                #[trigger] r@[j],
            ),
{
    let mut candidates = CandidateSet::new();

    // Query dependencies first.
    let ne: usize = krate.extern_importables.len();
    let mut i: usize = 0;
    let mut hits: usize = 0;
    while i < ne
        invariant
            i <= ne,
            ne == krate.extern_importables@.len(),
            candidates.wf(),
            hits == ext_hits_upto(krate.extern_importables@, external_query@, i as int).len(),
            candidates.items@ == dedup_into(
                Seq::empty(),
                ext_hits_upto(krate.extern_importables@, external_query@, i as int),
                ext_hits_upto(krate.extern_importables@, external_query@, i as int).len() as int,
            ),
        decreases ne - i,
    {
        let ghost prev = ext_hits_upto(krate.extern_importables@, external_query@, i as int);
        proof {
            lemma_ext_hits_len(krate.extern_importables@, external_query@, i as int);
        }
        let entry = &krate.extern_importables[i];
        let matched: bool = import_query_matches(
            &external_query,
            entry.path.as_str(),
            entry.name.as_str(),
        );
        let allowed: bool = match external_query.limit {
            None => true,
            Some(l) => hits < l,
        };
        if matched && allowed {
            proof {
                lemma_dedup_into_push(Seq::empty(), prev, entry.item, prev.len() as int);
            }
            candidates.insert(entry.item);
            hits = hits + 1;
        }
        i = i + 1;
    }

    // Query the local crate using the symbol index, re-resolving each
    // raw hit before it joins the set.
    let ghost ext_dedup = candidates.items@;
    let nl: usize = krate.local_symbols.len();
    let mut j: usize = 0;
    let mut raw_hits: usize = 0;
    while j < nl
        invariant
            j <= nl,
            nl == krate.local_symbols@.len(),
            candidates.wf(),
            raw_hits == local_hits_upto(krate.local_symbols@, local_query@, j as int).len(),
            candidates.items@ == dedup_into(
                ext_dedup,
                resolved_upto(
                    *model,
                    local_hits_upto(krate.local_symbols@, local_query@, j as int),
                    local_hits_upto(krate.local_symbols@, local_query@, j as int).len() as int,
                ),
                resolved_upto(
                    *model,
                    local_hits_upto(krate.local_symbols@, local_query@, j as int),
                    local_hits_upto(krate.local_symbols@, local_query@, j as int).len() as int,
                ).len() as int,
            ),
        decreases nl - j,
    {
        let ghost hseq = local_hits_upto(krate.local_symbols@, local_query@, j as int);
        let ghost rseq = resolved_upto(*model, hseq, hseq.len() as int);
        proof {
            lemma_local_hits_len(krate.local_symbols@, local_query@, j as int);
        }
        let sym = &krate.local_symbols[j];
        let matched: bool = local_query_matches(&local_query, sym.name.as_str());
        let allowed: bool = match local_query.limit {
            None => true,
            Some(l) => raw_hits < l,
        };
        if matched && allowed {
            proof {
                lemma_resolved_upto_push(*model, hseq, *sym, hseq.len() as int);
            }
            match get_name_definition(model, sym) {
                Some(c) => {
                    proof {
                        assert(resolved_upto(*model, hseq.push(*sym), hseq.len() as int + 1)
                            =~= rseq.push(c));
                        lemma_dedup_into_push(ext_dedup, rseq, c, rseq.len() as int);
                    }
                    candidates.insert(c);
                },
                None => {
                    proof {
                        assert(resolved_upto(*model, hseq.push(*sym), hseq.len() as int + 1)
                            =~= rseq);
                    }
                },
            }
            raw_hits = raw_hits + 1;
        }
        j = j + 1;
    }
    candidates.into_vec()
}

/// Whether the associated-item filter keeps a candidate: a function,
/// constant or type alias is dropped when the semantic model reports it
/// as an associated item of an implementation block or type; every
/// other definition, and every macro, is kept.
pub open spec fn keep_candidate(c: Candidate) -> bool {
    match c {
        either::Either::Left(d) => match d.kind {
            DefKind::Function => !d.assoc,
            DefKind::Const => !d.assoc,
            DefKind::TypeAlias => !d.assoc,
            DefKind::Other => true,
        },
        either::Either::Right(_) => true,
    }
}

/// The first `i` candidates of `s` that the associated-item filter
/// keeps, in order.
pub open spec fn kept_upto(s: Seq<Candidate>, i: int) -> Seq<Candidate>
    decreases i,
{
    if i <= 0 {
        Seq::empty()
    } else {
        let prev = kept_upto(s, i - 1);
        if keep_candidate(s[i - 1]) {
            prev.push(s[i - 1])
        } else {
            prev
        }
    }
}

/// The result of a search after the optional associated-item filter:
/// untouched when the filter is off.
pub open spec fn spec_filter_assoc(s: Seq<Candidate>, ignore_assoc_items: bool) -> Seq<Candidate> {
    if ignore_assoc_items {
        kept_upto(s, s.len() as int)
    } else {
        s
    }
}

/// Whether the associated-item filter keeps a candidate.
pub fn candidate_passes_assoc_filter(c: &Candidate) -> (r: bool)
    ensures
        r == keep_candidate(*c),
{
    match c {
        either::Either::Left(d) => match d.kind {
            DefKind::Function => !d.assoc,
            DefKind::Const => !d.assoc,
            DefKind::TypeAlias => !d.assoc,
            DefKind::Other => true,
        },
        either::Either::Right(_) => true,
    }
}

/// Find every definition or macro named exactly `name_to_import`,
/// locally or in a dependency: the local index is asked for an exact,
/// case-sensitive match and the import map for a case-sensitive,
/// name-only equality match, each limited to forty hits, and the two
/// result streams are merged and deduplicated by identity.
pub fn find_exact_imports(model: &SemanticModel, krate: &Crate, name_to_import: String) -> (r: Vec<
    Candidate,
>)
    ensures
        r@ == spec_find_imports(
            *model,
            *krate,
            LocalQueryView { text: name_to_import@, exact: true, limit: Some(40usize) },
            ImportQueryView {
                text: name_to_import@,
                mode: SearchMode::Equals,
                name_only: true,
                case_sensitive: true,
                limit: Some(40usize),
            },
        ),
        forall|i: int, j: int|
            0 <= i < j < r@.len() ==> spec_candidate_key(#[trigger] r@[i]) != spec_candidate_key(
                #[trigger] r@[j],
            ),
{
    let mut local_query = LocalQuery::new(name_to_import.clone());
    local_query.exact();
    local_query.limit(40);
    let external_query = ImportQuery::new(name_to_import).limit(40).name_only().search_mode(
        SearchMode::Equals,
    ).case_sensitive();
    find_imports(model, krate, local_query, external_query)
}

/// Find every definition or macro similar to `fuzzy_search_string`: a
/// case-insensitive fuzzy query against both the local index and the
/// import map (mirroring the name-only flag, and an optional hit limit
/// on each backend), merged, deduplicated by identity, and — when
/// `ignore_assoc_items` is set — stripped of functions, constants and
/// type aliases that are associated items of a type.
pub fn find_similar_imports(
    model: &SemanticModel,
    krate: &Crate,
    limit: Option<usize>,
    fuzzy_search_string: String,
    ignore_assoc_items: bool,
    name_only: bool,
) -> (r: Vec<Candidate>)
    ensures
        r@ == spec_filter_assoc(
            spec_find_imports(
                *model,
                *krate,
                LocalQueryView { text: fuzzy_search_string@, exact: false, limit },
                ImportQueryView {
                    text: fuzzy_search_string@,
                    mode: SearchMode::Fuzzy,
                    name_only,
                    case_sensitive: false,
                    limit,
                },
            ),
            ignore_assoc_items,
        ),
{
    let mut external_query = ImportQuery::new(fuzzy_search_string.clone()).search_mode(
        SearchMode::Fuzzy,
    );
    if name_only {
        external_query = external_query.name_only();
    }
    let mut local_query = LocalQuery::new(fuzzy_search_string);
    match limit {
        Some(l) => {
            local_query.limit(l);
            external_query = external_query.limit(l);
        },
        None => {},
    }
    let found: Vec<Candidate> = find_imports(model, krate, local_query, external_query);
    if !ignore_assoc_items {
        return found;
    }
    let mut kept: Vec<Candidate> = Vec::new();
    let n: usize = found.len();
    let mut i: usize = 0;
    while i < n
        invariant
            i <= n,
            n == found@.len(),
            kept@ == kept_upto(found@, i as int),
        decreases n - i,
    {
        let c = &found[i];
        if candidate_passes_assoc_filter(c) {
            kept.push(*c);
        }
        i = i + 1;
    }
    kept
}

/// The deduplication guarantee of the merge: the result carries no two
/// candidates with one semantic identity, and it carries an identity
/// exactly when one of the two hit streams produced it — a name found
/// both locally and as a dependency export therefore yields exactly
/// one candidate, not two.
pub proof fn lemma_find_imports_deduplicates(
    model: SemanticModel,
    krate: Crate,
    lq: LocalQueryView,
    eq: ImportQueryView,
)
    ensures
        forall|i: int, j: int|
            0 <= i < j < spec_find_imports(model, krate, lq, eq).len() ==> spec_candidate_key(
                #[trigger] spec_find_imports(model, krate, lq, eq)[i],
            ) != spec_candidate_key(#[trigger] spec_find_imports(model, krate, lq, eq)[j]),
        forall|k: u64|
            has_key(spec_find_imports(model, krate, lq, eq), k) <==> {
                ||| has_key(
                    ext_hits_upto(
                        krate.extern_importables@,
                        eq,
                        krate.extern_importables@.len() as int,
                    ),
                    k,
                )
                ||| has_key(
                    resolved_upto(
                        model,
                        local_hits_upto(
                            krate.local_symbols@,
                            lq,
                            krate.local_symbols@.len() as int,
                        ),
                        local_hits_upto(
                            krate.local_symbols@,
                            lq,
                            krate.local_symbols@.len() as int,
                        ).len() as int,
                    ),
                    k,
                )
            },
{
    let ext = ext_hits_upto(krate.extern_importables@, eq, krate.extern_importables@.len() as int);
    let loc = resolved_upto(
        model,
        local_hits_upto(krate.local_symbols@, lq, krate.local_symbols@.len() as int),
        local_hits_upto(krate.local_symbols@, lq, krate.local_symbols@.len() as int).len() as int,
    );
    lemma_dedup_into_props(Seq::empty(), ext, ext.len() as int);
    lemma_dedup_into_props(dedup_into(Seq::empty(), ext, ext.len() as int), loc, loc.len() as int);
    assert(ext.subrange(0, ext.len() as int) =~= ext);
    assert(loc.subrange(0, loc.len() as int) =~= loc);
    assert forall|k: u64|
        has_key(spec_find_imports(model, krate, lq, eq), k) <==> (has_key(ext, k) || has_key(
            loc,
            k,
        )) by {
        lemma_dedup_into_member(Seq::empty(), ext, ext.len() as int, k);
        lemma_dedup_into_member(
            dedup_into(Seq::empty(), ext, ext.len() as int),
            loc,
            loc.len() as int,
            k,
        );
        assert(!has_key(Seq::<Candidate>::empty(), k));
    }
}

/// A key is present after the fold exactly when it was present in the
/// accumulator already or occurs among the folded candidates.
proof fn lemma_dedup_into_member(acc: Seq<Candidate>, s: Seq<Candidate>, i: int, k: u64)
    requires
        0 <= i <= s.len(),
    ensures
        has_key(dedup_into(acc, s, i), k) <==> (has_key(acc, k) || has_key(s.subrange(0, i), k)),
    decreases i,
{
    if i <= 0 {
        assert(s.subrange(0, 0).len() == 0);
    } else {
        lemma_dedup_into_member(acc, s, i - 1, k);
        let prev = dedup_into(acc, s, i - 1);
        let c = s[i - 1];
        let k0 = spec_candidate_key(c);
        lemma_has_key_push(prev, c, k);
        assert(s.subrange(0, i) =~= s.subrange(0, i - 1).push(c));
        lemma_has_key_push(s.subrange(0, i - 1), c, k);
        if has_key(prev, k0) {
            lemma_dedup_into_member(acc, s, i - 1, k0);
            assert(dedup_into(acc, s, i) == prev);
        } else {
            assert(dedup_into(acc, s, i) == prev.push(c));
        }
    }
}

/// Folding into an accumulator of pairwise distinct keys keeps the
/// keys pairwise distinct.
proof fn lemma_dedup_into_props(acc: Seq<Candidate>, s: Seq<Candidate>, i: int)
    requires
        0 <= i <= s.len(),
        forall|x: int, y: int|
            0 <= x < y < acc.len() ==> spec_candidate_key(#[trigger] acc[x]) != spec_candidate_key(
                #[trigger] acc[y],
            ),
    ensures
        forall|x: int, y: int|
            0 <= x < y < dedup_into(acc, s, i).len() ==> spec_candidate_key(
                #[trigger] dedup_into(acc, s, i)[x],
            ) != spec_candidate_key(#[trigger] dedup_into(acc, s, i)[y]),
    decreases i,
{
    if i > 0 {
        lemma_dedup_into_props(acc, s, i - 1);
        let prev = dedup_into(acc, s, i - 1);
        let c = s[i - 1];
        let k0 = spec_candidate_key(c);
        lemma_has_key_push(prev, c, k0);
        if !has_key(prev, k0) {
            assert forall|x: int, y: int|
                0 <= x < y < dedup_into(acc, s, i).len() implies spec_candidate_key(
                #[trigger] dedup_into(acc, s, i)[x],
            ) != spec_candidate_key(#[trigger] dedup_into(acc, s, i)[y]) by {
                if y < prev.len() {
                    assert(dedup_into(acc, s, i)[x] == prev[x]);
                    assert(dedup_into(acc, s, i)[y] == prev[y]);
                } else {
                    assert(dedup_into(acc, s, i)[y] == c);
                    assert(dedup_into(acc, s, i)[x] == prev[x]);
                }
            }
        }
    }
}

/// What the associated-item filter leaves: only candidates it keeps,
/// and all of them — a function that is an implementation-block method
/// is gone, while every kept candidate of the unfiltered result is
/// still there. With the filter off the result is untouched, by
/// definition of [`spec_filter_assoc`].
pub proof fn lemma_filter_assoc_props(s: Seq<Candidate>, i: int)
    requires
        0 <= i <= s.len(),
    ensures
        forall|x: int|
            0 <= x < kept_upto(s, i).len() ==> keep_candidate(#[trigger] kept_upto(s, i)[x]),
        forall|x: int|
            0 <= x < i && keep_candidate(#[trigger] s[x]) ==> kept_upto(s, i).contains(s[x]),
    decreases i,
{
    if i > 0 {
        lemma_filter_assoc_props(s, i - 1);
        let prev = kept_upto(s, i - 1);
        assert forall|x: int| 0 <= x < i && keep_candidate(#[trigger] s[x]) implies kept_upto(
            s,
            i,
        ).contains(s[x]) by {
            if x < i - 1 {
                let w = choose|w: int| 0 <= w < prev.len() && prev[w] == s[x];
                if keep_candidate(s[i - 1]) {
                    assert(kept_upto(s, i)[w] == s[x]);
                } else {
                    assert(kept_upto(s, i)[w] == s[x]);
                }
            } else {
                assert(kept_upto(s, i)[prev.len() as int] == s[x]);
            }
        }
    }
}

} // verus!

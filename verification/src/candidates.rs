//! Search candidates and the deduplicating candidate set.
//!
//! A search yields definitions-or-macros; two hits are the same
//! candidate exactly when they denote the same declaration, however the
//! backends spelled it. Identity is a small integer handed out by the
//! semantic model, and deduplication runs over a hash set of identity
//! keys while the candidates themselves keep their first-seen order.

use vstd::prelude::*;

use rustc_hash::FxHashSet;

verus! {

/// The kind of a module-level definition, as far as the search filter
/// tells them apart: only functions, constants and type aliases can be
/// associated items of a type; everything else is `Other`.
#[derive(Clone, Copy, PartialEq, Eq, Structural, Debug)]
pub enum DefKind {
    Function,
    Const,
    TypeAlias,
    Other,
}

/// A module-level definition as the search reads it: its semantic
/// identity, its kind, and whether the semantic model reports it as an
/// associated item of an implementation block or type.
#[derive(Clone, Copy, PartialEq, Eq, Structural, Debug)]
pub struct ModuleDef {
    pub id: u32,
    pub kind: DefKind,
    pub assoc: bool,
}

/// A macro definition as the search reads it: its semantic identity.
#[derive(Clone, Copy, PartialEq, Eq, Structural, Debug)]
pub struct MacroDef {
    pub id: u32,
}

/// `either::Either` carries a search candidate: a module-level
/// definition on the left, a macro on the right.
#[verifier::external_type_specification]
#[verifier::reject_recursive_types(L)]
#[verifier::reject_recursive_types(R)]
pub struct ExEither<L, R>(either::Either<L, R>);

/// A search candidate: a definition or a macro.
pub type Candidate = either::Either<ModuleDef, MacroDef>;

/// The identity key of a candidate. Definitions and macros live in
/// separate identity spaces, so the key keeps them apart by parity.
pub open spec fn spec_candidate_key(c: Candidate) -> u64 {
    match c {
        either::Either::Left(d) => (2 * (d.id as u64)) as u64,
        either::Either::Right(m) => (2 * (m.id as u64) + 1) as u64,
    }
}

/// The identity key of a candidate.
pub fn candidate_key(c: &Candidate) -> (r: u64)
    ensures
        r == spec_candidate_key(*c),
{
    match c {
        either::Either::Left(d) => 2 * (d.id as u64),
        either::Either::Right(m) => 2 * (m.id as u64) + 1,
    }
}

/// Two candidates with one key are hits of one declaration: the same
/// side of the sum, with the same identity.
pub proof fn lemma_candidate_key_identity(a: Candidate, b: Candidate)
    requires
        spec_candidate_key(a) == spec_candidate_key(b),
    ensures
        a is Left <==> b is Left,
        match (a, b) {
            (either::Either::Left(x), either::Either::Left(y)) => x.id == y.id,
            (either::Either::Right(x), either::Either::Right(y)) => x.id == y.id,
            _ => false,
        },
{
}

/// Whether some candidate in `s` carries the key `k`.
pub open spec fn has_key(s: Seq<Candidate>, k: u64) -> bool {
    exists|i: int| 0 <= i < s.len() && spec_candidate_key(#[trigger] s[i]) == k
}

/// Fold one candidate into a deduplicated sequence: dropped when its
/// key is already present, appended otherwise.
pub open spec fn add_candidate(s: Seq<Candidate>, c: Candidate) -> Seq<Candidate> {
    if has_key(s, spec_candidate_key(c)) {
        s
    } else {
        s.push(c)
    }
}

/// Key membership after a push.
pub proof fn lemma_has_key_push(s: Seq<Candidate>, c: Candidate, k: u64)
    ensures
        has_key(s.push(c), k) <==> (has_key(s, k) || spec_candidate_key(c) == k),
{
    if has_key(s, k) {
        let i = choose|i: int| 0 <= i < s.len() && spec_candidate_key(#[trigger] s[i]) == k;
        assert(s.push(c)[i] == s[i]);
    }
    if spec_candidate_key(c) == k {
        assert(s.push(c)[s.len() as int] == c);
    }
    if has_key(s.push(c), k) {
        let i = choose|i: int|
            0 <= i < s.push(c).len() && spec_candidate_key(#[trigger] s.push(c)[i]) == k;
        if i < s.len() {
            assert(s.push(c)[i] == s[i]);
        } else {
            assert(s.push(c)[i] == c);
        }
    }
}

/// A deduplicated collection of candidates, keyed by semantic identity:
/// the candidates in first-seen order beside the set of keys already
/// seen.
pub struct CandidateSet {
    pub seen: FxHashSet<u64>,
    pub items: Vec<Candidate>,
}

impl CandidateSet {
    /// The key set mirrors the items, and no key occurs twice.
    pub open spec fn wf(self) -> bool {
        &&& forall|k: u64| self.seen@.contains(k) <==> has_key(self.items@, k)
        &&& forall|i: int, j: int|
            0 <= i < j < self.items@.len() ==> spec_candidate_key(#[trigger] self.items@[i])
                != spec_candidate_key(#[trigger] self.items@[j])
    }

    pub fn new() -> (r: CandidateSet)
        ensures
            r.wf(),
            r.items@ == Seq::<Candidate>::empty(),
    {
        let r = CandidateSet { seen: FxHashSet::default(), items: Vec::new() };
        proof {
            assert(forall|k: u64| !r.seen@.contains(k));
            assert(forall|k: u64| !has_key(r.items@, k));
        }
        r
    }

    /// Fold one candidate in, keeping the first hit of each identity.
    pub fn insert(&mut self, c: Candidate)
        requires
            old(self).wf(),
        ensures
            final(self).wf(),
            final(self).items@ == add_candidate(old(self).items@, c),
    {
        let k: u64 = candidate_key(&c);
        let newly: bool = seen_insert(&mut self.seen, k);
        proof {
            lemma_has_key_push(self.items@, c, k);
        }
        if newly {
            self.items.push(c);
            proof {
                assert forall|kk: u64| self.seen@.contains(kk) <==> has_key(self.items@, kk) by {
                    lemma_has_key_push(old(self).items@, c, kk);
                }
                assert forall|i: int, j: int|
                    0 <= i < j < self.items@.len() implies spec_candidate_key(
                    #[trigger] self.items@[i],
                ) != spec_candidate_key(#[trigger] self.items@[j]) by {
                    if j < old(self).items@.len() {
                    } else {
                        assert(self.items@[j] == c);
                        assert(self.items@[i] == old(self).items@[i]);
                    }
                }
            }
        }
    }

    /// Hand the deduplicated candidates out, in first-seen order.
    pub fn into_vec(self) -> (r: Vec<Candidate>)
        ensures
            r@ == self.items@,
    {
        self.items
    }
}

/// `rustc_hash::FxHasher` is the hasher behind the key set; the library
/// only carries it inside the set's type.
#[verifier::external_type_specification]
#[verifier::external_body]
pub struct ExFxHasher(rustc_hash::FxHasher);

/// `core::hash::BuildHasherDefault` builds the hasher for the key set;
/// the library only carries it inside the set's type.
#[verifier::external_type_specification]
#[verifier::external_body]
#[verifier::reject_recursive_types(H)]
pub struct ExBuildHasherDefault<H>(core::hash::BuildHasherDefault<H>);

/// Relies on `std::collections::HashSet::insert` over the `FxHasher`
/// build hasher of `rustc_hash`, a deterministic hasher coherent with
/// `u64` equality: the key joins the set, and the call reports whether
/// it was absent before.
#[verifier::external_body]
fn seen_insert(seen: &mut FxHashSet<u64>, k: u64) -> (newly: bool)
    ensures
        final(seen)@ == old(seen)@.insert(k),
        newly == !old(seen)@.contains(k),
{
    seen.insert(k)
}

} // verus!

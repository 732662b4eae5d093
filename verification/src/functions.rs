//! The lookup from declaration paths to the stable origins of functions, kept during one
//! lowering.

use vstd::prelude::*;
use rustc_hash::{FxHashMap, FxHashSet};
use crate::errors::CompilerError;
use crate::fx_collections::{fx_map_get, fx_map_insert, fx_map_contains_key, fx_set_contains, fx_set_insert};

verus! {

/// The declaration path of a function, by its handle, with the handle of its stable origin.
#[derive(Debug, Clone, Copy, PartialEq, Eq, Structural)]
pub struct FunctionOriginSeed {
    pub path: u32,
    pub origin: u32,
}

/// The lookup that `from_seeds` builds from `seeds`: fails at the first seed whose origin
/// an earlier seed carries, or, failing that, whose path an earlier seed carries; otherwise
/// maps each path to its origin.
pub open spec fn seeds_lookup(seeds: Seq<FunctionOriginSeed>) -> Result<Map<u32, u32>, CompilerError>
    decreases seeds.len(),
{
    if seeds.len() == 0 {
        Ok(Map::empty())
    } else {
        match seeds_lookup(seeds.drop_last()) {
            Ok(m) => {
                let s = seeds.last();
                if exists|j: int| 0 <= j < seeds.len() - 1 && (#[trigger] seeds[j]).origin == s.origin {
                    Err(CompilerError::DuplicateFunctionOrigin(s.origin))
                } else if m.contains_key(s.path) {
                    Err(CompilerError::DuplicateDeclarationPaths)
                } else {
                    Ok(m.insert(s.path, s.origin))
                }
            },
            Err(err) => Err(err),
        }
    }
}

/// Once a prefix of the seeds fails, the whole list fails with the same error.
pub proof fn lemma_seeds_lookup_prefix_err(seeds: Seq<FunctionOriginSeed>, k: int)
    requires
        0 <= k <= seeds.len(),
        seeds_lookup(seeds.take(k)) is Err,
    ensures
        seeds_lookup(seeds) == seeds_lookup(seeds.take(k)),
    decreases seeds.len(),
{
    if k == seeds.len() {
        assert(seeds.take(k) =~= seeds);
    } else {
        assert(seeds.drop_last().take(k) =~= seeds.take(k));
        lemma_seeds_lookup_prefix_err(seeds.drop_last(), k);
    }
}

/// Law: the lookup is built exactly when no two seeds share a stable origin or a
/// declaration path, and then it maps the path of every seed to that seed's origin and
/// maps no other path.
pub proof fn lemma_seeds_lookup_exact(seeds: Seq<FunctionOriginSeed>)
    ensures
        seeds_lookup(seeds) is Ok <==> forall|i: int, j: int|
            0 <= i < j < seeds.len() ==> (#[trigger] seeds[i]).origin != (#[trigger] seeds[j]).origin && seeds[i].path
                != seeds[j].path,
        seeds_lookup(seeds) matches Ok(m) ==> {
            &&& forall|j: int| 0 <= j < seeds.len() ==> m.contains_key((#[trigger] seeds[j]).path) && m[seeds[j].path]
                == seeds[j].origin
            &&& forall|p: u32| #[trigger] m.contains_key(p) ==> exists|j: int| 0 <= j < seeds.len() && (#[trigger] seeds[j]).path == p
        },
    decreases seeds.len(),
{
    if seeds.len() > 0 {
        let init = seeds.drop_last();
        let s = seeds.last();
        let n = seeds.len() - 1;
        lemma_seeds_lookup_exact(init);
        assert forall|j: int| 0 <= j < n implies #[trigger] init[j] == seeds[j] by {}
        match seeds_lookup(init) {
            Ok(m) => {
                if exists|j: int| 0 <= j < seeds.len() - 1 && (#[trigger] seeds[j]).origin == s.origin {
                    let j = choose|j: int| 0 <= j < seeds.len() - 1 && (#[trigger] seeds[j]).origin == s.origin;
                    assert(seeds[j].origin == seeds[n].origin);
                } else if m.contains_key(s.path) {
                    let j = choose|j: int| 0 <= j < init.len() && (#[trigger] init[j]).path == s.path;
                    assert(seeds[j].path == seeds[n].path);
                } else {
                    assert forall|i: int, j: int| 0 <= i < j < seeds.len() implies (#[trigger] seeds[i]).origin
                        != (#[trigger] seeds[j]).origin && seeds[i].path != seeds[j].path by {
                        if j < n {
                            assert(init[i] == seeds[i] && init[j] == seeds[j]);
                        } else {
                            assert(m.contains_key(init[i].path));
                        }
                    }
                    let m2 = m.insert(s.path, s.origin);
                    assert forall|j: int| 0 <= j < seeds.len() implies m2.contains_key((#[trigger] seeds[j]).path)
                        && m2[seeds[j].path] == seeds[j].origin by {
                        if j < n {
                            assert(init[j] == seeds[j]);
                            assert(m.contains_key(init[j].path));
                        }
                    }
                    assert forall|p: u32| #[trigger] m2.contains_key(p) implies exists|j: int| 0 <= j < seeds.len() && (#[trigger] seeds[j]).path == p by {
                        if p == s.path {
                            assert(seeds[n].path == p);
                        } else {
                            let j = choose|j: int| 0 <= j < init.len() && (#[trigger] init[j]).path == p;
                            assert(seeds[j].path == p);
                        }
                    }
                }
            },
            Err(_) => {
                let (i, j) = choose|i: int, j: int| !(0 <= i < j < init.len() ==> (#[trigger] init[i]).origin != (#[trigger] init[j]).origin && init[i].path != init[j].path);
                assert(init[i] == seeds[i] && init[j] == seeds[j]);
            },
        }
    }
}

/// The stable origins of the functions being lowered, by the handle of their declaration
/// path.
#[derive(Debug)]
pub struct HirFunctionOriginLookup {
    pub by_path: FxHashMap<u32, u32>,
}

impl HirFunctionOriginLookup {
    /// Builds the lookup from the seeds, refusing a stable origin or a declaration path
    /// that two seeds share (see `seeds_lookup`).
    pub fn from_seeds(seeds: Vec<FunctionOriginSeed>) -> (r: Result<Self, CompilerError>)
        ensures
            match (r, seeds_lookup(seeds@)) {
                (Ok(l), Ok(m)) => l.by_path@ == m,
                (Err(a), Err(b)) => a == b,
                _ => false,
            },
    {
        let mut by_path: FxHashMap<u32, u32> = FxHashMap::default();
        let mut origins: FxHashSet<u32> = FxHashSet::default();
        let mut i: usize = 0;
        while i < seeds.len()
            invariant
                0 <= i <= seeds@.len(),
                seeds_lookup(seeds@.take(i as int)) == Ok::<Map<u32, u32>, CompilerError>(by_path@),
                forall|o: u32| #[trigger] origins@.contains(o) <==> exists|j: int| 0 <= j < i && (#[trigger] seeds@[j]).origin == o,
            decreases seeds@.len() - i,
        {
            let seed = seeds[i];
            proof {
                assert(seeds@.take(i + 1).drop_last() =~= seeds@.take(i as int));
                assert(seeds@.take(i + 1).last() == seed);
                assert forall|j: int| 0 <= j < i implies #[trigger] seeds@.take(i + 1)[j] == seeds@[j] by {}
            }
            if fx_set_contains(&origins, seed.origin) {
                proof {
                    let j = choose|j: int| 0 <= j < i && (#[trigger] seeds@[j]).origin == seed.origin;
                    assert(seeds@.take(i + 1)[j].origin == seed.origin);
                    lemma_seeds_lookup_prefix_err(seeds@, i + 1);
                }
                return Err(CompilerError::DuplicateFunctionOrigin(seed.origin));
            }
            proof {
                assert(!exists|j: int| 0 <= j < i && (#[trigger] seeds@.take(i + 1)[j]).origin == seed.origin);
            }
            if fx_map_contains_key(&by_path, seed.path) {
                proof {
                    lemma_seeds_lookup_prefix_err(seeds@, i + 1);
                }
                return Err(CompilerError::DuplicateDeclarationPaths);
            }
            fx_set_insert(&mut origins, seed.origin);
            fx_map_insert(&mut by_path, seed.path, seed.origin);
            proof {
                assert forall|o: u32| #[trigger] origins@.contains(o) <==> exists|j: int| 0 <= j < i + 1 && (#[trigger] seeds@[j]).origin == o by {
                    if o == seed.origin {
                        assert(seeds@[i as int].origin == o);
                    }
                }
            }
            i = i + 1;
        }
        proof {
            assert(seeds@.take(seeds@.len() as int) =~= seeds@);
        }
        Ok(HirFunctionOriginLookup { by_path })
    }

    /// The stable origin of the function declared at `path`, if a seed named it.
    pub fn origin_for(&self, path: u32) -> (r: Option<&u32>)
        ensures
            match r {
                Some(o) => self.by_path@.contains_key(path) && *o == self.by_path@[path],
                None => !self.by_path@.contains_key(path),
            },
    {
        fx_map_get(&self.by_path, path)
    }
}

} // verus!

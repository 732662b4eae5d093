use beanstalk_hir::errors::CompilerError;
use beanstalk_hir::functions::{FunctionOriginSeed, HirFunctionOriginLookup};

#[test]
fn lookup_maps_each_path_to_its_origin() {
    let seeds = vec![
        FunctionOriginSeed { path: 10, origin: 100 },
        FunctionOriginSeed { path: 11, origin: 101 },
    ];
    let lookup = HirFunctionOriginLookup::from_seeds(seeds).unwrap();
    assert_eq!(lookup.origin_for(10), Some(&100));
    assert_eq!(lookup.origin_for(11), Some(&101));
    assert_eq!(lookup.origin_for(12), None);
}

#[test]
fn empty_seeds_give_an_empty_lookup() {
    let lookup = HirFunctionOriginLookup::from_seeds(Vec::new()).unwrap();
    assert_eq!(lookup.origin_for(0), None);
}

#[test]
fn duplicate_origin_is_refused() {
    let seeds = vec![
        FunctionOriginSeed { path: 1, origin: 7 },
        FunctionOriginSeed { path: 2, origin: 7 },
    ];
    let r = HirFunctionOriginLookup::from_seeds(seeds);
    assert_eq!(r.unwrap_err(), CompilerError::DuplicateFunctionOrigin(7));
}

#[test]
fn duplicate_path_is_refused() {
    let seeds = vec![
        FunctionOriginSeed { path: 3, origin: 1 },
        FunctionOriginSeed { path: 3, origin: 2 },
    ];
    let r = HirFunctionOriginLookup::from_seeds(seeds);
    assert_eq!(r.unwrap_err(), CompilerError::DuplicateDeclarationPaths);
}

#[test]
fn duplicate_origin_is_reported_before_duplicate_path() {
    let seeds = vec![
        FunctionOriginSeed { path: 5, origin: 9 },
        FunctionOriginSeed { path: 5, origin: 9 },
    ];
    let r = HirFunctionOriginLookup::from_seeds(seeds);
    assert_eq!(r.unwrap_err(), CompilerError::DuplicateFunctionOrigin(9));
}

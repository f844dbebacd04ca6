//! The declared dependencies of a project manifest, as name/requirement
//! pairs.

use vstd::prelude::*;

verus! {

/// The `dependencies` and `devDependencies` of a manifest; each entry is a
/// package name and its requirement.
#[derive(Debug, Clone)]
pub struct PackageJson {
    pub dependencies: Option<Vec<(String, String)>>,
    pub dev_dependencies: Option<Vec<(String, String)>>,
}

/// The names of a list of entries, in order.
pub open spec fn entry_names(entries: Option<Vec<(String, String)>>) -> Seq<Seq<char>> {
    match entries {
        Some(v) => v@.map_values(|e: (String, String)| e.0@),
        None => Seq::empty(),
    }
}

/// Every declared name: the dependencies', then the development
/// dependencies'.
pub open spec fn declared_names(pj: PackageJson) -> Seq<Seq<char>> {
    entry_names(pj.dependencies) + entry_names(pj.dev_dependencies)
}

} // verus!

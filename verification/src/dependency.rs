//! A pinned dependency found in a manifest, and the ecosystems it can belong to.
use vstd::prelude::*;
use vstd::string::*;

verus! {

/// A package pinned to a version, with the manifest it was read from.
#[derive(Debug, Clone, PartialEq, Eq)]
pub struct Dependency {
    pub name: String,
    pub version: String,
    pub file: String,
    /// `"PyPI"` or `"crates.io"`.
    pub ecosystem: String,
}

/// The text of each field of a [`Dependency`].
pub struct DependencyView {
    pub name: Seq<char>,
    pub version: Seq<char>,
    pub file: Seq<char>,
    pub ecosystem: Seq<char>,
}

impl View for Dependency {
    type V = DependencyView;

    open spec fn view(&self) -> DependencyView {
        DependencyView {
            name: self.name@,
            version: self.version@,
            file: self.file@,
            ecosystem: self.ecosystem@,
        }
    }
}

/// The views of a sequence of dependencies.
pub open spec fn dependency_views(deps: Seq<Dependency>) -> Seq<DependencyView> {
    deps.map_values(|d: Dependency| d@)
}

/// The ecosystem name of Python packages.
pub open spec fn pypi() -> Seq<char> {
    "PyPI"@
}

/// The ecosystem name of Rust crates.
pub open spec fn crates_io() -> Seq<char> {
    "crates.io"@
}

/// A dependency of the Python ecosystem.
pub open spec fn pypi_dependency(name: Seq<char>, version: Seq<char>, file: Seq<char>) -> DependencyView {
    DependencyView { name, version, file, ecosystem: pypi() }
}

/// A dependency of the Rust ecosystem.
pub open spec fn crate_dependency(name: Seq<char>, version: Seq<char>, file: Seq<char>) -> DependencyView {
    DependencyView { name, version, file, ecosystem: crates_io() }
}

impl Dependency {
    /// A Python package pinned to `version`, read from `file`.
    pub fn pypi(name: String, version: String, file: &str) -> (d: Dependency)
        ensures
            d@ == pypi_dependency(name@, version@, file@),
    {
        Dependency {
            name,
            version,
            file: String::from_str(file),
            ecosystem: String::from_str("PyPI"),
        }
    }

    /// A Rust crate pinned to `version`, read from `file`.
    pub fn rust_crate(name: String, version: String, file: &str) -> (d: Dependency)
        ensures
            d@ == crate_dependency(name@, version@, file@),
    {
        Dependency {
            name,
            version,
            file: String::from_str(file),
            ecosystem: String::from_str("crates.io"),
        }
    }

    /// A field-by-field copy.
    pub fn duplicate(&self) -> (d: Dependency)
        ensures
            d@ == self@,
    {
        Dependency {
            name: self.name.clone(),
            version: self.version.clone(),
            file: self.file.clone(),
            ecosystem: self.ecosystem.clone(),
        }
    }
}

} // verus!

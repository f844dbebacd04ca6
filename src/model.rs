//! The decoded package inventory, and the mathematical values that the
//! contracts speak of.

use vstd::prelude::*;

verus! {

/// How a package was obtained.
#[derive(Debug, Clone, PartialEq, Eq, Hash)]
pub enum ResolutionKind {
    Root,
    Npm { version: String, registry: String },
    Git { repo: String, commit: String },
    Github { owner: String, repo: String, reference: String },
    Folder { path: String },
    Symlink { path: String },
    Workspace { name: String },
    LocalTarball { path: String },
    RemoteTarball { url: String },
    SingleFileModule { url: String },
    Unknown(String),
}

/// A `ResolutionKind` with its strings seen as character sequences.
pub enum ResolutionView {
    Root,
    Npm { version: Seq<char>, registry: Seq<char> },
    Git { repo: Seq<char>, commit: Seq<char> },
    Github { owner: Seq<char>, repo: Seq<char>, reference: Seq<char> },
    Folder { path: Seq<char> },
    Symlink { path: Seq<char> },
    Workspace { name: Seq<char> },
    LocalTarball { path: Seq<char> },
    RemoteTarball { url: Seq<char> },
    SingleFileModule { url: Seq<char> },
    Unknown(Seq<char>),
}

impl View for ResolutionKind {
    type V = ResolutionView;

    open spec fn view(&self) -> ResolutionView {
        match self {
            ResolutionKind::Root => ResolutionView::Root,
            ResolutionKind::Npm { version, registry } => ResolutionView::Npm {
                version: version@,
                registry: registry@,
            },
            ResolutionKind::Git { repo, commit } => ResolutionView::Git {
                repo: repo@,
                commit: commit@,
            },
            ResolutionKind::Github { owner, repo, reference } => ResolutionView::Github {
                owner: owner@,
                repo: repo@,
                reference: reference@,
            },
            ResolutionKind::Folder { path } => ResolutionView::Folder { path: path@ },
            ResolutionKind::Symlink { path } => ResolutionView::Symlink { path: path@ },
            ResolutionKind::Workspace { name } => ResolutionView::Workspace { name: name@ },
            ResolutionKind::LocalTarball { path } => ResolutionView::LocalTarball { path: path@ },
            ResolutionKind::RemoteTarball { url } => ResolutionView::RemoteTarball { url: url@ },
            ResolutionKind::SingleFileModule { url } => ResolutionView::SingleFileModule {
                url: url@,
            },
            ResolutionKind::Unknown(s) => ResolutionView::Unknown(s@),
        }
    }
}

/// The known dependency behavior bits: prod, optional, dev, peer, workspace
/// and bundled, at bits 1 to 6.
pub const BEHAVIOR_MASK: u8 = 0x7e;

pub const BEHAVIOR_PROD: u8 = 2;

pub const BEHAVIOR_OPTIONAL: u8 = 4;

pub const BEHAVIOR_DEV: u8 = 8;

pub const BEHAVIOR_PEER: u8 = 16;

pub const BEHAVIOR_WORKSPACE: u8 = 32;

pub const BEHAVIOR_BUNDLED: u8 = 64;

/// A set of dependency behavior bits, restricted to the known ones.
#[derive(Debug, Clone, Copy, PartialEq, Eq, Hash)]
pub struct BehaviorFlags {
    pub bits: u8,
}

impl BehaviorFlags {
    pub open spec fn spec_bits(&self) -> u8 {
        self.bits
    }

    /// True when every bit of `bits` is set.
    pub fn contains(&self, bits: u8) -> (r: bool)
        ensures
            r == (self.bits & bits == bits),
    {
        self.bits & bits == bits
    }

    /// Keeps the known bits of `b` and drops the others.
    pub fn from_bits_truncate(b: u8) -> (r: BehaviorFlags)
        ensures
            r.spec_bits() == b & BEHAVIOR_MASK,
    {
        BehaviorFlags { bits: b & BEHAVIOR_MASK }
    }

    pub fn bits(&self) -> (r: u8)
        ensures
            r == self.spec_bits(),
    {
        self.bits
    }
}

/// One dependency edge of a package.
#[derive(Debug, Clone, PartialEq, Eq, Hash)]
pub struct DependencyEntry {
    pub name: String,
    pub req: String,
    pub behavior: BehaviorFlags,
    pub resolved_package_id: Option<u32>,
}

pub struct DependencyView {
    pub name: Seq<char>,
    pub req: Seq<char>,
    pub behavior: u8,
    pub resolved_package_id: Option<u32>,
}

impl View for DependencyEntry {
    type V = DependencyView;

    open spec fn view(&self) -> DependencyView {
        DependencyView {
            name: self.name@,
            req: self.req@,
            behavior: self.behavior.spec_bits(),
            resolved_package_id: self.resolved_package_id,
        }
    }
}

pub open spec fn deps_view(s: Seq<DependencyEntry>) -> Seq<DependencyView> {
    s.map_values(|d: DependencyEntry| d@)
}

pub open spec fn opt_text(o: Option<String>) -> Option<Seq<char>> {
    match o {
        Some(s) => Some(s@),
        None => None,
    }
}

/// One package of the inventory.
#[derive(Debug, Clone, PartialEq, Eq, Hash)]
pub struct Package {
    pub name: String,
    pub version: String,
    pub registry_url: String,
    pub integrity_hash: Option<String>,
    pub resolution: ResolutionKind,
    pub dependencies: Vec<DependencyEntry>,
}

pub struct PackageView {
    pub name: Seq<char>,
    pub version: Seq<char>,
    pub registry_url: Seq<char>,
    pub integrity_hash: Option<Seq<char>>,
    pub resolution: ResolutionView,
    pub dependencies: Seq<DependencyView>,
}

impl View for Package {
    type V = PackageView;

    open spec fn view(&self) -> PackageView {
        PackageView {
            name: self.name@,
            version: self.version@,
            registry_url: self.registry_url@,
            integrity_hash: opt_text(self.integrity_hash),
            resolution: self.resolution@,
            dependencies: deps_view(self.dependencies@),
        }
    }
}

pub open spec fn packages_view(s: Seq<Package>) -> Seq<PackageView> {
    s.map_values(|p: Package| p@)
}

/// An override recorded in the trailer stream.
#[derive(Debug, Clone)]
pub struct OverrideEntry {
    pub name_hash: u64,
    pub dependency: DependencyEntry,
}

pub struct OverrideView {
    pub name_hash: u64,
    pub dependency: DependencyView,
}

impl View for OverrideEntry {
    type V = OverrideView;

    open spec fn view(&self) -> OverrideView {
        OverrideView { name_hash: self.name_hash, dependency: self.dependency@ }
    }
}

/// A patched package recorded in the trailer stream.
#[derive(Debug, Clone)]
pub struct PatchedEntry {
    pub name_version_hash: u64,
    pub path: String,
    pub patch_hash: Option<u64>,
}

pub struct PatchedView {
    pub name_version_hash: u64,
    pub path: Seq<char>,
    pub patch_hash: Option<u64>,
}

impl View for PatchedEntry {
    type V = PatchedView;

    open spec fn view(&self) -> PatchedView {
        PatchedView {
            name_version_hash: self.name_version_hash,
            path: self.path@,
            patch_hash: self.patch_hash,
        }
    }
}

/// A named catalog of dependency entries.
#[derive(Debug, Clone)]
pub struct CatalogGroup {
    pub name: String,
    pub dependencies: Vec<DependencyEntry>,
}

/// Auxiliary metadata carried by the trailer stream.
#[derive(Debug, Clone)]
pub struct TrailerInfo {
    pub trusted_hashes: Vec<u32>,
    pub has_empty_trusted: bool,
    pub overrides: Vec<OverrideEntry>,
    pub patched: Vec<PatchedEntry>,
    pub catalogs: Vec<CatalogGroup>,
    pub default_catalog: Vec<DependencyEntry>,
    pub workspaces_count: usize,
}

pub struct TrailerView {
    pub trusted_hashes: Seq<u32>,
    pub has_empty_trusted: bool,
    pub overrides: Seq<OverrideView>,
    pub patched: Seq<PatchedView>,
    pub n_catalogs: nat,
    pub default_catalog: Seq<DependencyView>,
    pub workspaces_count: nat,
}

impl View for TrailerInfo {
    type V = TrailerView;

    open spec fn view(&self) -> TrailerView {
        TrailerView {
            trusted_hashes: self.trusted_hashes@,
            has_empty_trusted: self.has_empty_trusted,
            overrides: self.overrides@.map_values(|o: OverrideEntry| o@),
            patched: self.patched@.map_values(|p: PatchedEntry| p@),
            n_catalogs: self.catalogs@.len(),
            default_catalog: deps_view(self.default_catalog@),
            workspaces_count: self.workspaces_count as nat,
        }
    }
}

/// The decoded lockfile.
#[derive(Debug, Clone)]
pub struct Lockfile {
    pub format_version: u32,
    pub meta_hash: [u8; 32],
    pub packages: Vec<Package>,
    pub trailers: TrailerInfo,
}

pub struct LockfileView {
    pub format_version: u32,
    pub meta_hash: Seq<u8>,
    pub packages: Seq<PackageView>,
    pub trailers: TrailerView,
}

impl View for Lockfile {
    type V = LockfileView;

    open spec fn view(&self) -> LockfileView {
        LockfileView {
            format_version: self.format_version,
            meta_hash: self.meta_hash@,
            packages: packages_view(self.packages@),
            trailers: self.trailers@,
        }
    }
}

} // verus!

//! Supply-chain audit over the decoded inventory.

use vstd::prelude::*;
use crate::model::{
    deps_view, opt_text, packages_view, DependencyEntry, Lockfile, Package, PackageView,
    ResolutionKind,
};
use crate::package_json::{declared_names, entry_names, PackageJson};
use crate::text::{
    ascii_lower, chars_of, contains, has_prefix, has_substring, starts_with, to_ascii_lower,
    trim, trimmed,
};

verus! {

/// Index of the first occurrence of `p` in `s` at or after `from`, or -1.
pub open spec fn find_from(s: Seq<char>, p: Seq<char>, from: int) -> int
    decreases s.len() + 1 - from,
{
    if from < 0 || from + p.len() > s.len() {
        -1
    } else if s.subrange(from, from + p.len()) == p {
        from
    } else {
        find_from(s, p, from + 1)
    }
}

/// A found position is a real occurrence, at or after `from`.
pub proof fn lemma_find_from_found(s: Seq<char>, p: Seq<char>, from: int)
    ensures
        find_from(s, p, from) >= 0 ==> {
            &&& from <= find_from(s, p, from)
            &&& find_from(s, p, from) + p.len() <= s.len()
            &&& s.subrange(find_from(s, p, from), find_from(s, p, from) + p.len()) == p
        },
        find_from(s, p, from) >= -1,
    decreases s.len() + 1 - from,
{
    if !(from < 0 || from + p.len() > s.len()) && s.subrange(from, from + p.len()) != p {
        lemma_find_from_found(s, p, from + 1);
    }
}

pub open spec fn scheme_sep() -> Seq<char> {
    seq![':', '/', '/']
}

/// What follows the first `://` up to the next one, or the whole URL when
/// it has none.
pub open spec fn after_scheme(u: Seq<char>) -> Seq<char> {
    let a = find_from(u, scheme_sep(), 0);
    if a < 0 {
        u
    } else {
        let b = find_from(u, scheme_sep(), a + 3);
        u.subrange(a + 3, if b < 0 {
            u.len() as int
        } else {
            b
        })
    }
}

/// The host of a URL: what `after_scheme` gives, up to the first `/`.
pub open spec fn host_of(u: Seq<char>) -> Seq<char> {
    let rest = after_scheme(u);
    let slash = find_from(rest, seq!['/'], 0);
    rest.take(if slash < 0 {
        rest.len() as int
    } else {
        slash
    })
}

fn find(s: &[char], p: &[char], from: usize) -> (r: Option<usize>)
    requires
        from <= s@.len(),
    ensures
        match r {
            Some(i) => find_from(s@, p@, from as int) == i,
            None => find_from(s@, p@, from as int) == -1,
        },
        r matches Some(i) ==> i + p@.len() <= s@.len(),
{
    let n = s.len();
    if p.len() > n {
        return None;
    }
    let last = n - p.len();
    let mut i = from;
    while i <= last
        invariant
            from <= i,
            last + p@.len() == n,
            n == s@.len(),
            find_from(s@, p@, from as int) == find_from(s@, p@, i as int),
        decreases last + 1 - i,
    {
        let mut matched = true;
        let mut j: usize = 0;
        while j < p.len()
            invariant
                i <= last,
                last + p@.len() == n,
                n == s@.len(),
                j <= p@.len(),
                matched == (forall|k: int| 0 <= k < j ==> s@[i + k] == p@[k]),
            decreases p@.len() - j,
        {
            if s[i + j] != p[j] {
                matched = false;
            }
            j = j + 1;
        }
        if matched {
            assert(s@.subrange(i as int, i + p@.len()) =~= p@);
            return Some(i);
        } else {
            assert(s@.subrange(i as int, i + p@.len()) != p@) by {
                let k = choose|k: int| 0 <= k < p@.len() && s@[i + k] != p@[k];
                assert(s@.subrange(i as int, i + p@.len())[k] != p@[k]);
            }
        }
        if i == last {
            assert(find_from(s@, p@, i + 1) == -1);
            return None;
        }
        i = i + 1;
    }
    None
}

/// The host part of a registry URL.
pub fn extract_host(url: &str) -> (r: Option<&str>)
    ensures
        r matches Some(h) && h@ == host_of(url@),
{
    let u = chars_of(url);
    let sep = chars_of("://");
    proof {
        reveal_strlit("://");
        assert(sep@ =~= scheme_sep());
    }
    let _n = u.len();
    proof {
        lemma_find_from_found(u@, scheme_sep(), 0);
    }
    let (a, b) = match find(u.as_slice(), sep.as_slice(), 0) {
        None => (0, u.len()),
        Some(a) => match find(u.as_slice(), sep.as_slice(), a + 3) {
            None => (a + 3, u.len()),
            Some(b) => (a + 3, b),
        },
    };
    proof {
        if find_from(u@, scheme_sep(), 0) >= 0 {
            lemma_find_from_found(u@, scheme_sep(), find_from(u@, scheme_sep(), 0) + 3);
            assert(find_from(u@, scheme_sep(), a - 3 + 3) == find_from(
                u@,
                scheme_sep(),
                find_from(u@, scheme_sep(), 0) + 3,
            ));
        }
    }
    let rest = vstd::slice::slice_subrange(u.as_slice(), a, b);
    assert(rest@ =~= after_scheme(url@));
    let slash = chars_of("/");
    proof {
        reveal_strlit("/");
        assert(slash@ =~= seq!['/']);
    }
    let end = match find(rest, slash.as_slice(), 0) {
        None => rest.len(),
        Some(k) => k,
    };
    let h = url.substring_char(a, a + end);
    assert(h@ =~= host_of(url@));
    Some(h)
}

pub open spec fn seq_npmjs_org() -> Seq<char> {
    seq!['n', 'p', 'm', 'j', 's', '.', 'o', 'r', 'g']
}

pub open spec fn seq_npmjs_com() -> Seq<char> {
    seq!['n', 'p', 'm', 'j', 's', '.', 'c', 'o', 'm']
}

pub open spec fn seq_npm() -> Seq<char> {
    seq!['n', 'p', 'm']
}

pub open spec fn seq_jsr() -> Seq<char> {
    seq!['j', 's', 'r']
}

pub open spec fn seq_github_com() -> Seq<char> {
    seq!['g', 'i', 't', 'h', 'u', 'b', '.', 'c', 'o', 'm']
}

/// The host, in lower case, names a trusted registry: it contains
/// `npmjs.org`, `npmjs.com`, `jsr` or `github.com`, or is exactly `npm`.
pub open spec fn registry_trusted(url: Seq<char>) -> bool {
    let h = ascii_lower(host_of(url));
    contains(h, seq_npmjs_org()) || contains(h, seq_npmjs_com()) || h == seq_npm() || contains(
        h,
        seq_jsr(),
    ) || contains(h, seq_github_com())
}

/// True when the registry's host is on the default allow list.
pub fn is_registry_trusted(registry_url: &str) -> (r: bool)
    ensures
        r == registry_trusted(registry_url@),
{
    let host = extract_host(registry_url).unwrap();
    let hc = chars_of(host);
    let h = to_ascii_lower(hc.as_slice());
    let org = chars_of("npmjs.org");
    let com = chars_of("npmjs.com");
    let npm = chars_of("npm");
    let jsr = chars_of("jsr");
    let gh = chars_of("github.com");
    proof {
        reveal_strlit("npmjs.org");
        reveal_strlit("npmjs.com");
        reveal_strlit("npm");
        reveal_strlit("jsr");
        reveal_strlit("github.com");
        assert(org@ =~= seq_npmjs_org());
        assert(com@ =~= seq_npmjs_com());
        assert(npm@ =~= seq_npm());
        assert(jsr@ =~= seq_jsr());
        assert(gh@ =~= seq_github_com());
    }
    let exact_npm = h.len() == npm.len() && has_prefix(h.as_slice(), npm.as_slice());
    assert(exact_npm == (h@ == seq_npm())) by {
        if h@.len() == npm@.len() {
            assert(h@.take(npm@.len() as int) =~= h@);
        }
    }
    has_substring(h.as_slice(), org.as_slice()) || has_substring(h.as_slice(), com.as_slice())
        || exact_npm || has_substring(h.as_slice(), jsr.as_slice()) || has_substring(
        h.as_slice(),
        gh.as_slice(),
    )
}

/// An integrity string looks like a digest: trimmed and in lower case it
/// starts with `sha` and is longer than ten characters.
pub open spec fn integrity_valid(hash: Seq<char>) -> bool {
    let h = ascii_lower(trimmed(hash));
    starts_with(h, seq!['s', 'h', 'a']) && h.len() > 10
}

pub fn is_integrity_valid(hash: &str) -> (r: bool)
    ensures
        r == integrity_valid(hash@),
{
    let c = chars_of(hash);
    let t = trim(c.as_slice());
    let h = to_ascii_lower(t.as_slice());
    let sha = chars_of("sha");
    proof {
        reveal_strlit("sha");
        assert(sha@ =~= seq!['s', 'h', 'a']);
    }
    has_prefix(h.as_slice(), sha.as_slice()) && h.len() > 10
}

/// A version that points somewhere instead of naming a release: trimmed,
/// it starts with `git+` or `file:`, or contains `://`, `#` or `-`.
pub open spec fn version_suspicious(version: Seq<char>) -> bool {
    let v = trimmed(version);
    starts_with(v, seq!['g', 'i', 't', '+']) || contains(v, scheme_sep()) || starts_with(
        v,
        seq!['f', 'i', 'l', 'e', ':'],
    ) || contains(v, seq!['#']) || contains(v, seq!['-'])
}

pub fn is_version_suspicious(version: &str) -> (r: bool)
    ensures
        r == version_suspicious(version@),
{
    let c = chars_of(version);
    let v = trim(c.as_slice());
    let git = chars_of("git+");
    let sep = chars_of("://");
    let file = chars_of("file:");
    let hash = chars_of("#");
    let dash = chars_of("-");
    proof {
        reveal_strlit("git+");
        reveal_strlit("://");
        reveal_strlit("file:");
        reveal_strlit("#");
        reveal_strlit("-");
        assert(git@ =~= seq!['g', 'i', 't', '+']);
        assert(sep@ =~= scheme_sep());
        assert(file@ =~= seq!['f', 'i', 'l', 'e', ':']);
        assert(hash@ =~= seq!['#']);
        assert(dash@ =~= seq!['-']);
    }
    has_prefix(v.as_slice(), git.as_slice()) || has_substring(v.as_slice(), sep.as_slice())
        || has_prefix(v.as_slice(), file.as_slice()) || has_substring(
        v.as_slice(),
        hash.as_slice(),
    ) || has_substring(v.as_slice(), dash.as_slice())
}

pub open spec fn declared_of(package_json: Option<&PackageJson>) -> Option<Seq<Seq<char>>> {
    match package_json {
        Some(pj) => Some(declared_names(*pj)),
        None => None,
    }
}

pub open spec fn names_view(v: Seq<String>) -> Seq<Seq<char>> {
    v.map_values(|s: String| s@)
}

fn push_names(out: &mut Vec<String>, entries: &Option<Vec<(String, String)>>)
    ensures
        names_view(final(out)@) == names_view(old(out)@) + entry_names(*entries),
{
    if let Some(v) = entries {
        let ghost start = out@;
        let mut i: usize = 0;
        while i < v.len()
            invariant
                i <= v@.len(),
                names_view(out@) == names_view(start) + v@.take(i as int).map_values(
                    |e: (String, String)| e.0@,
                ),
            decreases v@.len() - i,
        {
            let ghost prev = out@;
            out.push(v[i].0.clone());
            i = i + 1;
            assert(names_view(out@) =~= names_view(prev).push(v@[i - 1].0@));
            assert(v@.take(i as int).map_values(|e: (String, String)| e.0@) =~= v@.take(
                i - 1,
            ).map_values(|e: (String, String)| e.0@).push(v@[i - 1].0@));
        }
        assert(v@.take(v@.len() as int) =~= v@);
    } else {
        assert(names_view(out@) =~= names_view(out@) + entry_names(*entries));
    }
}

/// The names a manifest declares, dependencies first; `None` without a
/// manifest.
pub fn build_declared_set(package_json: Option<&PackageJson>) -> (r: Option<Vec<String>>)
    ensures
        match r {
            Some(v) => declared_of(package_json) == Some(names_view(v@)),
            None => package_json is None,
        },
{
    let pj = package_json?;
    let mut out: Vec<String> = Vec::new();
    assert(names_view(out@) =~= Seq::<Seq<char>>::empty());
    push_names(&mut out, &pj.dependencies);
    push_names(&mut out, &pj.dev_dependencies);
    assert(names_view(out@) =~= declared_names(*pj));
    Some(out)
}

fn is_declared(names: &Vec<String>, name: &String) -> (r: bool)
    ensures
        r == names_view(names@).contains(name@),
{
    let mut i: usize = 0;
    while i < names.len()
        invariant
            i <= names@.len(),
            forall|k: int| 0 <= k < i ==> names@[k]@ != name@,
        decreases names@.len() - i,
    {
        if names[i] == *name {
            assert(names_view(names@)[i as int] == name@);
            return true;
        }
        i = i + 1;
    }
    false
}

fn copy_text(s: &String) -> (r: String)
    ensures
        r@ == s@,
{
    s.clone()
}

fn copy_resolution(k: &ResolutionKind) -> (r: ResolutionKind)
    ensures
        r@ == k@,
{
    match k {
        ResolutionKind::Root => ResolutionKind::Root,
        ResolutionKind::Npm { version, registry } => ResolutionKind::Npm {
            version: copy_text(version),
            registry: copy_text(registry),
        },
        ResolutionKind::Git { repo, commit } => ResolutionKind::Git {
            repo: copy_text(repo),
            commit: copy_text(commit),
        },
        ResolutionKind::Github { owner, repo, reference } => ResolutionKind::Github {
            owner: copy_text(owner),
            repo: copy_text(repo),
            reference: copy_text(reference),
        },
        ResolutionKind::Folder { path } => ResolutionKind::Folder { path: copy_text(path) },
        ResolutionKind::Symlink { path } => ResolutionKind::Symlink { path: copy_text(path) },
        ResolutionKind::Workspace { name } => ResolutionKind::Workspace { name: copy_text(name) },
        ResolutionKind::LocalTarball { path } => ResolutionKind::LocalTarball {
            path: copy_text(path),
        },
        ResolutionKind::RemoteTarball { url } => ResolutionKind::RemoteTarball {
            url: copy_text(url),
        },
        ResolutionKind::SingleFileModule { url } => ResolutionKind::SingleFileModule {
            url: copy_text(url),
        },
        ResolutionKind::Unknown(s) => ResolutionKind::Unknown(copy_text(s)),
    }
}

fn copy_dependencies(v: &Vec<DependencyEntry>) -> (r: Vec<DependencyEntry>)
    ensures
        deps_view(r@) == deps_view(v@),
{
    let mut out: Vec<DependencyEntry> = Vec::new();
    let mut i: usize = 0;
    while i < v.len()
        invariant
            i <= v@.len(),
            deps_view(out@) == deps_view(v@.take(i as int)),
        decreases v@.len() - i,
    {
        let d = &v[i];
        let ghost prev = out@;
        let e = DependencyEntry {
            name: copy_text(&d.name),
            req: copy_text(&d.req),
            behavior: d.behavior,
            resolved_package_id: d.resolved_package_id,
        };
        assert(e@ == d@);
        out.push(e);
        i = i + 1;
        assert(v@.take(i as int) =~= v@.take(i - 1).push(v@[i - 1]));
        assert(deps_view(v@.take(i as int)) =~= deps_view(v@.take(i - 1)).push(v@[i - 1]@));
        assert(deps_view(out@) =~= deps_view(prev).push(e@));
    }
    assert(v@.take(v@.len() as int) =~= v@);
    out
}

fn copy_package(p: &Package) -> (r: Package)
    ensures
        r@ == p@,
{
    let integrity_hash = match &p.integrity_hash {
        Some(h) => Some(copy_text(h)),
        None => None,
    };
    let r = Package {
        name: copy_text(&p.name),
        version: copy_text(&p.version),
        registry_url: copy_text(&p.registry_url),
        integrity_hash,
        resolution: copy_resolution(&p.resolution),
        dependencies: copy_dependencies(&p.dependencies),
    };
    assert(opt_text(r.integrity_hash) == opt_text(p.integrity_hash));
    r
}

/// The members of the first `k` elements of `s` that satisfy `keep`, in order.
pub open spec fn select(s: Seq<PackageView>, keep: spec_fn(PackageView) -> bool, k: nat) -> Seq<
    PackageView,
>
    decreases k,
{
    if k == 0 {
        Seq::empty()
    } else if keep(s[k - 1]) {
        select(s, keep, (k - 1) as nat).push(s[k - 1])
    } else {
        select(s, keep, (k - 1) as nat)
    }
}

/// Present in the lockfile, absent from the manifest (only with a manifest).
pub open spec fn is_phantom(p: PackageView, declared: Option<Seq<Seq<char>>>) -> bool {
    match declared {
        Some(d) => !d.contains(p.name),
        None => false,
    }
}

pub open spec fn is_untrusted(p: PackageView) -> bool {
    !registry_trusted(p.registry_url)
}

/// An integrity string is present and does not look like a digest.
pub open spec fn is_integrity_mismatch(p: PackageView) -> bool {
    match p.integrity_hash {
        Some(h) => !integrity_valid(h),
        None => false,
    }
}

pub open spec fn is_suspicious(p: PackageView) -> bool {
    version_suspicious(p.version)
}

/// What the audit found: each list holds the flagged packages in
/// inventory order.
#[derive(Debug, Clone)]
pub struct ScanResult {
    pub total_packages: usize,
    pub phantom_dependencies: Vec<Package>,
    pub untrusted_registries: Vec<Package>,
    pub integrity_mismatches: Vec<Package>,
    pub suspicious_versions: Vec<Package>,
}

/// Audits an inventory against an optional manifest.
pub trait SecurityScanner {
    fn scan(&self, package_json: Option<&PackageJson>) -> ScanResult;
}

impl SecurityScanner for Lockfile {
    fn scan(&self, package_json: Option<&PackageJson>) -> (r: ScanResult)
        ensures
            r.total_packages == self.packages@.len(),
            packages_view(r.phantom_dependencies@) == select(
                packages_view(self.packages@),
                |p: PackageView| is_phantom(p, declared_of(package_json)),
                self.packages@.len(),
            ),
            packages_view(r.untrusted_registries@) == select(
                packages_view(self.packages@),
                |p: PackageView| is_untrusted(p),
                self.packages@.len(),
            ),
            packages_view(r.integrity_mismatches@) == select(
                packages_view(self.packages@),
                |p: PackageView| is_integrity_mismatch(p),
                self.packages@.len(),
            ),
            packages_view(r.suspicious_versions@) == select(
                packages_view(self.packages@),
                |p: PackageView| is_suspicious(p),
                self.packages@.len(),
            ),
    {
        let declared = build_declared_set(package_json);
        let ghost d = declared_of(package_json);
        let ghost ps = packages_view(self.packages@);
        let ghost f_phantom = |p: PackageView| is_phantom(p, d);
        let ghost f_untrusted = |p: PackageView| is_untrusted(p);
        let ghost f_integrity = |p: PackageView| is_integrity_mismatch(p);
        let ghost f_suspicious = |p: PackageView| is_suspicious(p);
        let mut phantom_dependencies: Vec<Package> = Vec::new();
        let mut untrusted_registries: Vec<Package> = Vec::new();
        let mut integrity_mismatches: Vec<Package> = Vec::new();
        let mut suspicious_versions: Vec<Package> = Vec::new();
        let n = self.packages.len();
        let mut i: usize = 0;
        proof {
            assert(packages_view(phantom_dependencies@) =~= Seq::<PackageView>::empty());
            assert(packages_view(untrusted_registries@) =~= Seq::<PackageView>::empty());
            assert(packages_view(integrity_mismatches@) =~= Seq::<PackageView>::empty());
            assert(packages_view(suspicious_versions@) =~= Seq::<PackageView>::empty());
        }
        while i < n
            invariant
                i <= n,
                n == self.packages@.len(),
                ps == packages_view(self.packages@),
                f_phantom == (|p: PackageView| is_phantom(p, d)),
                f_untrusted == (|p: PackageView| is_untrusted(p)),
                f_integrity == (|p: PackageView| is_integrity_mismatch(p)),
                f_suspicious == (|p: PackageView| is_suspicious(p)),
                match declared {
                    Some(v) => d == Some(names_view(v@)),
                    None => d is None,
                },
                packages_view(phantom_dependencies@) == select(ps, f_phantom, i as nat),
                packages_view(untrusted_registries@) == select(ps, f_untrusted, i as nat),
                packages_view(integrity_mismatches@) == select(ps, f_integrity, i as nat),
                packages_view(suspicious_versions@) == select(ps, f_suspicious, i as nat),
            decreases n - i,
        {
            let pkg = &self.packages[i];
            assert(ps[i as int] == pkg@);
            let ghost k = (i + 1) as nat;
            assert(f_phantom(ps[i as int]) == is_phantom(pkg@, d));
            assert(f_untrusted(ps[i as int]) == !registry_trusted(pkg.registry_url@));
            assert(f_integrity(ps[i as int]) == is_integrity_mismatch(pkg@));
            assert(f_suspicious(ps[i as int]) == version_suspicious(pkg.version@));
            assert(select(ps, f_phantom, k) == if f_phantom(ps[i as int]) {
                select(ps, f_phantom, i as nat).push(ps[i as int])
            } else {
                select(ps, f_phantom, i as nat)
            });
            assert(select(ps, f_untrusted, k) == if f_untrusted(ps[i as int]) {
                select(ps, f_untrusted, i as nat).push(ps[i as int])
            } else {
                select(ps, f_untrusted, i as nat)
            });
            assert(select(ps, f_integrity, k) == if f_integrity(ps[i as int]) {
                select(ps, f_integrity, i as nat).push(ps[i as int])
            } else {
                select(ps, f_integrity, i as nat)
            });
            assert(select(ps, f_suspicious, k) == if f_suspicious(ps[i as int]) {
                select(ps, f_suspicious, i as nat).push(ps[i as int])
            } else {
                select(ps, f_suspicious, i as nat)
            });
            let phantom = match &declared {
                Some(names) => {
                    let found = is_declared(names, &pkg.name);
                    assert(d == Some(names_view(names@)));
                    assert(found == names_view(names@).contains(pkg@.name));
                    !found
                },
                None => false,
            };
            assert(phantom == f_phantom(ps[i as int]));
            if phantom {
                let ghost prev = phantom_dependencies@;
                phantom_dependencies.push(copy_package(pkg));
                assert(packages_view(phantom_dependencies@) =~= packages_view(prev).push(pkg@));
            }
            if !is_registry_trusted(pkg.registry_url.as_str()) {
                let ghost prev = untrusted_registries@;
                untrusted_registries.push(copy_package(pkg));
                assert(packages_view(untrusted_registries@) =~= packages_view(prev).push(pkg@));
            }
            let bad_integrity = match &pkg.integrity_hash {
                Some(h) => !is_integrity_valid(h.as_str()),
                None => false,
            };
            if bad_integrity {
                let ghost prev = integrity_mismatches@;
                integrity_mismatches.push(copy_package(pkg));
                assert(packages_view(integrity_mismatches@) =~= packages_view(prev).push(pkg@));
            }
            if is_version_suspicious(pkg.version.as_str()) {
                let ghost prev = suspicious_versions@;
                suspicious_versions.push(copy_package(pkg));
                assert(packages_view(suspicious_versions@) =~= packages_view(prev).push(pkg@));
            }
            i = i + 1;
        }
        ScanResult {
            total_packages: n,
            phantom_dependencies,
            untrusted_registries,
            integrity_mismatches,
            suspicious_versions,
        }
    }
}

} // verus!

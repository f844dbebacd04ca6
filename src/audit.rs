//! Turns a scan into a numbered list of issues, and issues into an exit
//! code.

use vstd::prelude::*;
use crate::model::{packages_view, Lockfile, Package, PackageView};
use crate::security::{extract_host, host_of, ScanResult};
use crate::strings::append_str;
use crate::text::{
    ascii_lower, chars_of, contains, has_substring, same_chars, to_ascii_lower,
};

verus! {

/// How serious an issue is.
#[derive(Debug, Clone, Copy, PartialEq, Eq, Structural)]
pub enum Severity {
    Info,
    Warn,
    High,
}

pub open spec fn seq_info() -> Seq<char> {
    seq!['i', 'n', 'f', 'o']
}

pub open spec fn seq_warn() -> Seq<char> {
    seq!['w', 'a', 'r', 'n']
}

pub open spec fn seq_warning() -> Seq<char> {
    seq!['w', 'a', 'r', 'n', 'i', 'n', 'g']
}

pub open spec fn seq_high() -> Seq<char> {
    seq!['h', 'i', 'g', 'h']
}

pub open spec fn seq_critical() -> Seq<char> {
    seq!['c', 'r', 'i', 't', 'i', 'c', 'a', 'l']
}

/// The severity a name denotes, in any letter case.
pub open spec fn severity_named(s: Seq<char>) -> Option<Severity> {
    let t = ascii_lower(s);
    if t == seq_info() {
        Some(Severity::Info)
    } else if t == seq_warn() || t == seq_warning() {
        Some(Severity::Warn)
    } else if t == seq_high() || t == seq_critical() {
        Some(Severity::High)
    } else {
        None
    }
}

impl Severity {
    pub open spec fn rank(self) -> int {
        match self {
            Severity::Info => 0,
            Severity::Warn => 1,
            Severity::High => 2,
        }
    }

    pub open spec fn text(self) -> Seq<char> {
        match self {
            Severity::Info => seq_info(),
            Severity::Warn => seq_warn(),
            Severity::High => seq_high(),
        }
    }

    /// 0, 1 and 2 for info, warn and high.
    pub fn level(&self) -> (r: u8)
        ensures
            r == self.rank(),
    {
        match self {
            Severity::Info => 0,
            Severity::Warn => 1,
            Severity::High => 2,
        }
    }

    /// Reads `info`, `warn`/`warning` or `high`/`critical`.
    pub fn from_str(s: &str) -> (r: Option<Severity>)
        ensures
            r == severity_named(s@),
    {
        let c = chars_of(s);
        let t = to_ascii_lower(c.as_slice());
        let info = chars_of("info");
        let warn = chars_of("warn");
        let warning = chars_of("warning");
        let high = chars_of("high");
        let critical = chars_of("critical");
        proof {
            reveal_strlit("info");
            reveal_strlit("warn");
            reveal_strlit("warning");
            reveal_strlit("high");
            reveal_strlit("critical");
            assert(info@ =~= seq_info());
            assert(warn@ =~= seq_warn());
            assert(warning@ =~= seq_warning());
            assert(high@ =~= seq_high());
            assert(critical@ =~= seq_critical());
        }
        if same_chars(t.as_slice(), info.as_slice()) {
            Some(Severity::Info)
        } else if same_chars(t.as_slice(), warn.as_slice()) || same_chars(
            t.as_slice(),
            warning.as_slice(),
        ) {
            Some(Severity::Warn)
        } else if same_chars(t.as_slice(), high.as_slice()) || same_chars(
            t.as_slice(),
            critical.as_slice(),
        ) {
            Some(Severity::High)
        } else {
            None
        }
    }

    pub fn as_str(&self) -> (r: &'static str)
        ensures
            r@ == self.text(),
    {
        proof {
            reveal_strlit("info");
            reveal_strlit("warn");
            reveal_strlit("high");
        }
        match self {
            Severity::Info => "info",
            Severity::Warn => "warn",
            Severity::High => "high",
        }
    }
}

/// Which rule raised an issue.
#[derive(Debug, Clone, Copy, PartialEq, Eq, Structural)]
pub enum IssueKind {
    IntegrityMismatch,
    PhantomDependency,
    SuspiciousVersion,
    UntrustedRegistry,
    MissingIntegrity,
    ParserWarning,
}

/// One finding of the audit. `id` numbers the issues from 1.
#[derive(Debug, Clone)]
pub struct Issue {
    pub id: usize,
    pub severity: Severity,
    pub kind: IssueKind,
    pub package: String,
    pub version: String,
    pub detail: String,
}

/// An issue without its number.
pub struct IssueView {
    pub severity: Severity,
    pub kind: IssueKind,
    pub package: Seq<char>,
    pub version: Seq<char>,
    pub detail: Seq<char>,
}

impl View for Issue {
    type V = IssueView;

    open spec fn view(&self) -> IssueView {
        IssueView {
            severity: self.severity,
            kind: self.kind,
            package: self.package@,
            version: self.version@,
            detail: self.detail@,
        }
    }
}

pub open spec fn issues_view(s: Seq<Issue>) -> Seq<IssueView> {
    s.map_values(|i: Issue| i@)
}

pub open spec fn texts_view(s: Seq<String>) -> Seq<Seq<char>> {
    s.map_values(|t: String| t@)
}

/// Some entry of `list`, in lower case, occurs in `host`.
pub open spec fn any_occurs(host: Seq<char>, list: Seq<Seq<char>>) -> bool {
    exists|i: int| 0 <= i < list.len() && contains(host, ascii_lower(#[trigger] list[i]))
}

/// The registry's host, in lower case, contains an ignored entry; or,
/// failing that, the allow list is not empty and the host contains one of
/// its entries.
pub open spec fn allowed_registry(url: Seq<char>, allow: Seq<Seq<char>>, ignore: Seq<Seq<char>>) -> bool {
    let host = ascii_lower(host_of(url));
    any_occurs(host, ignore) || (allow.len() > 0 && any_occurs(host, allow))
}

fn occurs_any(host: &[char], list: &[String]) -> (r: bool)
    ensures
        r == any_occurs(host@, texts_view(list@)),
{
    let mut i: usize = 0;
    while i < list.len()
        invariant
            i <= list@.len(),
            forall|k: int|
                0 <= k < i ==> !contains(host@, ascii_lower(#[trigger] texts_view(list@)[k])),
        decreases list@.len() - i,
    {
        let c = chars_of(list[i].as_str());
        let entry = to_ascii_lower(c.as_slice());
        assert(texts_view(list@)[i as int] == list@[i as int]@);
        if has_substring(host, entry.as_slice()) {
            return true;
        }
        i = i + 1;
    }
    false
}

/// True when the registry is on the ignore list, or on a non-empty allow
/// list.
pub fn registry_allowed(registry: &str, allow: &[String], ignore: &[String]) -> (r: bool)
    ensures
        r == allowed_registry(registry@, texts_view(allow@), texts_view(ignore@)),
{
    let host = extract_host(registry).unwrap();
    let hc = chars_of(host);
    let h = to_ascii_lower(hc.as_slice());
    if occurs_any(h.as_slice(), ignore) {
        return true;
    }
    if allow.len() == 0 {
        return false;
    }
    occurs_any(h.as_slice(), allow)
}

/// The issue a rule raises for `p`, before the ignore list applies.
pub open spec fn draft(
    severity: Severity,
    kind: IssueKind,
    p: PackageView,
    detail: Seq<char>,
) -> IssueView {
    IssueView { severity, kind, package: p.name, version: p.version, detail }
}

/// The issues raised for the first `k` packages of `ps`: one for each
/// package for which `rule` gives one and whose name is not ignored.
pub open spec fn raised(
    ps: Seq<PackageView>,
    rule: spec_fn(PackageView) -> Option<IssueView>,
    ignore: Seq<Seq<char>>,
    k: nat,
) -> Seq<IssueView>
    decreases k,
{
    if k == 0 {
        Seq::empty()
    } else {
        let prev = raised(ps, rule, ignore, (k - 1) as nat);
        match rule(ps[k - 1]) {
            Some(i) => if ignore.contains(ps[k - 1].name) {
                prev
            } else {
                prev.push(i)
            },
            None => prev,
        }
    }
}

pub open spec fn seq_not_declared() -> Seq<char> {
    seq![
        'N', 'o', 't', ' ', 'd', 'e', 'c', 'l', 'a', 'r', 'e', 'd', ' ', 'i', 'n', ' ', 'p', 'a',
        'c', 'k', 'a', 'g', 'e', '.', 'j', 's', 'o', 'n',
    ]
}

pub open spec fn seq_no_integrity() -> Seq<char> {
    seq!['N', 'o', ' ', 'i', 'n', 't', 'e', 'g', 'r', 'i', 't', 'y', ' ', 'h', 'a', 's', 'h']
}

pub open spec fn seq_dash() -> Seq<char> {
    seq!['-']
}

pub open spec fn integrity_rule() -> spec_fn(PackageView) -> Option<IssueView> {
    |p: PackageView|
        Some(
            draft(
                Severity::High,
                IssueKind::IntegrityMismatch,
                p,
                match p.integrity_hash {
                    Some(h) => h,
                    None => Seq::empty(),
                },
            ),
        )
}

pub open spec fn phantom_rule() -> spec_fn(PackageView) -> Option<IssueView> {
    |p: PackageView| Some(draft(Severity::Warn, IssueKind::PhantomDependency, p, seq_not_declared()))
}

pub open spec fn suspicious_rule() -> spec_fn(PackageView) -> Option<IssueView> {
    |p: PackageView| Some(draft(Severity::Warn, IssueKind::SuspiciousVersion, p, p.version))
}

pub open spec fn untrusted_rule(allow: Seq<Seq<char>>, ignore: Seq<Seq<char>>) -> spec_fn(
    PackageView,
) -> Option<IssueView> {
    |p: PackageView|
        if allowed_registry(p.registry_url, allow, ignore) {
            None
        } else {
            Some(draft(Severity::Warn, IssueKind::UntrustedRegistry, p, p.registry_url))
        }
}

pub open spec fn missing_rule() -> spec_fn(PackageView) -> Option<IssueView> {
    |p: PackageView|
        if p.integrity_hash is None {
            Some(draft(Severity::Warn, IssueKind::MissingIntegrity, p, seq_no_integrity()))
        } else {
            None
        }
}

pub open spec fn warning_issue(w: Seq<char>) -> IssueView {
    IssueView {
        severity: Severity::Warn,
        kind: IssueKind::ParserWarning,
        package: seq_dash(),
        version: seq_dash(),
        detail: w,
    }
}

pub open spec fn all_raised(
    ps: Seq<PackageView>,
    rule: spec_fn(PackageView) -> Option<IssueView>,
    ignore: Seq<Seq<char>>,
) -> Seq<IssueView> {
    raised(ps, rule, ignore, ps.len())
}

/// The issues of a scan, in order: integrity mismatches, phantom
/// dependencies, suspicious versions, untrusted registries, missing
/// integrity, then parser warnings.
pub open spec fn issues_model(
    scan: ScanResult,
    packages: Seq<PackageView>,
    warnings: Seq<Seq<char>>,
    allow: Seq<Seq<char>>,
    ignore_registry: Seq<Seq<char>>,
    ignore_package: Seq<Seq<char>>,
) -> Seq<IssueView> {
    all_raised(packages_view(scan.integrity_mismatches@), integrity_rule(), ignore_package)
        + all_raised(packages_view(scan.phantom_dependencies@), phantom_rule(), ignore_package)
        + all_raised(packages_view(scan.suspicious_versions@), suspicious_rule(), ignore_package)
        + all_raised(
        packages_view(scan.untrusted_registries@),
        untrusted_rule(allow, ignore_registry),
        ignore_package,
    ) + all_raised(packages, missing_rule(), ignore_package) + warnings.map_values(
        |w: Seq<char>| warning_issue(w),
    )
}

fn is_listed(list: &[String], name: &String) -> (r: bool)
    ensures
        r == texts_view(list@).contains(name@),
{
    let mut i: usize = 0;
    while i < list.len()
        invariant
            i <= list@.len(),
            forall|k: int| 0 <= k < i ==> list@[k]@ != name@,
        decreases list@.len() - i,
    {
        if list[i] == *name {
            assert(texts_view(list@)[i as int] == name@);
            return true;
        }
        i = i + 1;
    }
    false
}

fn text_of(s: &str) -> (r: String)
    ensures
        r@ == s@,
{
    let mut r = String::new();
    append_str(&mut r, s);
    assert(r@ =~= s@);
    r
}

/// Numbers issues from 1 in the order they stand.
pub open spec fn numbered(s: Seq<Issue>) -> bool {
    forall|i: int| 0 <= i < s.len() ==> (#[trigger] s[i]).id == i + 1
}

/// Appends the issues that `which` raises for `pkgs`.
fn raise_all(
    out: &mut Vec<Issue>,
    pkgs: &Vec<Package>,
    which: IssueKind,
    allow: &[String],
    ignore_registry: &[String],
    ignore_package: &[String],
)
    requires
        numbered(old(out)@),
        old(out)@.len() + pkgs@.len() < usize::MAX,
        which != IssueKind::ParserWarning,
    ensures
        numbered(final(out)@),
        final(out)@.len() <= old(out)@.len() + pkgs@.len(),
        issues_view(final(out)@) == issues_view(old(out)@) + all_raised(
            packages_view(pkgs@),
            rule_of(which, texts_view(allow@), texts_view(ignore_registry@)),
            texts_view(ignore_package@),
        ),
{
    let ghost ps = packages_view(pkgs@);
    let ghost rule = rule_of(which, texts_view(allow@), texts_view(ignore_registry@));
    let ghost ign = texts_view(ignore_package@);
    let ghost start = issues_view(out@);
    let ghost start_len = out@.len();
    let mut i: usize = 0;
    while i < pkgs.len()
        invariant
            i <= pkgs@.len(),
            ps == packages_view(pkgs@),
            rule == rule_of(which, texts_view(allow@), texts_view(ignore_registry@)),
            ign == texts_view(ignore_package@),
            which != IssueKind::ParserWarning,
            numbered(out@),
            start_len + pkgs@.len() < usize::MAX,
            out@.len() <= start_len + i,
            issues_view(out@) == start + raised(ps, rule, ign, i as nat),
        decreases pkgs@.len() - i,
    {
        let p = &pkgs[i];
        assert(ps[i as int] == p@);
        let detail: Option<String> = match which {
            IssueKind::IntegrityMismatch => match &p.integrity_hash {
                Some(h) => Some(h.clone()),
                None => Some(String::new()),
            },
            IssueKind::PhantomDependency => Some(text_of("Not declared in package.json")),
            IssueKind::SuspiciousVersion => Some(p.version.clone()),
            IssueKind::UntrustedRegistry => if registry_allowed(
                p.registry_url.as_str(),
                allow,
                ignore_registry,
            ) {
                None
            } else {
                Some(p.registry_url.clone())
            },
            IssueKind::MissingIntegrity => if p.integrity_hash.is_none() {
                Some(text_of("No integrity hash"))
            } else {
                None
            },
            IssueKind::ParserWarning => None,
        };
        let severity = if which == IssueKind::IntegrityMismatch {
            Severity::High
        } else {
            Severity::Warn
        };
        proof {
            reveal_strlit("Not declared in package.json");
            reveal_strlit("No integrity hash");
            assert("Not declared in package.json"@ =~= seq_not_declared());
            assert("No integrity hash"@ =~= seq_no_integrity());
        }
        let ghost expect = rule(ps[i as int]);
        assert(match detail {
            Some(d) => expect == Some(draft(severity, which, p@, d@)),
            None => expect is None,
        });
        let ghost prev = out@;
        if let Some(d) = detail {
            if !is_listed(ignore_package, &p.name) {
                let id = out.len() + 1;
                let issue = Issue {
                    id,
                    severity,
                    kind: which,
                    package: p.name.clone(),
                    version: p.version.clone(),
                    detail: d,
                };
                out.push(issue);
                assert(issues_view(out@) =~= issues_view(prev).push(issue@));
            }
        }
        i = i + 1;
    }
}

pub open spec fn rule_of(
    which: IssueKind,
    allow: Seq<Seq<char>>,
    ignore_registry: Seq<Seq<char>>,
) -> spec_fn(PackageView) -> Option<IssueView> {
    match which {
        IssueKind::IntegrityMismatch => integrity_rule(),
        IssueKind::PhantomDependency => phantom_rule(),
        IssueKind::SuspiciousVersion => suspicious_rule(),
        IssueKind::UntrustedRegistry => untrusted_rule(allow, ignore_registry),
        _ => missing_rule(),
    }
}

/// The numbered issues of a scan; see `issues_model` for their order.
pub fn collect_issues(
    scan: &ScanResult,
    lockfile: &Lockfile,
    parser_warnings: Vec<String>,
    allow_registry: &[String],
    ignore_registry: &[String],
    ignore_package: &[String],
) -> (r: Vec<Issue>)
    requires
        scan.integrity_mismatches@.len() + scan.phantom_dependencies@.len()
            + scan.suspicious_versions@.len() + scan.untrusted_registries@.len()
            + lockfile.packages@.len() + parser_warnings@.len() < usize::MAX,
    ensures
        numbered(r@),
        issues_view(r@) == issues_model(
            *scan,
            packages_view(lockfile.packages@),
            texts_view(parser_warnings@),
            texts_view(allow_registry@),
            texts_view(ignore_registry@),
            texts_view(ignore_package@),
        ),
{
    let ghost allow = texts_view(allow_registry@);
    let ghost ign_reg = texts_view(ignore_registry@);
    let ghost ign = texts_view(ignore_package@);
    let mut issues: Vec<Issue> = Vec::new();
    assert(issues_view(issues@) =~= Seq::<IssueView>::empty());
    raise_all(
        &mut issues,
        &scan.integrity_mismatches,
        IssueKind::IntegrityMismatch,
        allow_registry,
        ignore_registry,
        ignore_package,
    );
    raise_all(
        &mut issues,
        &scan.phantom_dependencies,
        IssueKind::PhantomDependency,
        allow_registry,
        ignore_registry,
        ignore_package,
    );
    raise_all(
        &mut issues,
        &scan.suspicious_versions,
        IssueKind::SuspiciousVersion,
        allow_registry,
        ignore_registry,
        ignore_package,
    );
    raise_all(
        &mut issues,
        &scan.untrusted_registries,
        IssueKind::UntrustedRegistry,
        allow_registry,
        ignore_registry,
        ignore_package,
    );
    raise_all(
        &mut issues,
        &lockfile.packages,
        IssueKind::MissingIntegrity,
        allow_registry,
        ignore_registry,
        ignore_package,
    );
    let ghost before = issues_view(issues@);
    let ghost ws = texts_view(parser_warnings@);
    let mut i: usize = 0;
    while i < parser_warnings.len()
        invariant
            i <= parser_warnings@.len(),
            ws == texts_view(parser_warnings@),
            numbered(issues@),
            issues@.len() + parser_warnings@.len() - i < usize::MAX,
            issues_view(issues@) == before + ws.take(i as int).map_values(
                |w: Seq<char>| warning_issue(w),
            ),
        decreases parser_warnings@.len() - i,
    {
        let ghost prev = issues@;
        let issue = Issue {
            id: issues.len() + 1,
            severity: Severity::Warn,
            kind: IssueKind::ParserWarning,
            package: text_of("-"),
            version: text_of("-"),
            detail: parser_warnings[i].clone(),
        };
        proof {
            reveal_strlit("-");
            assert("-"@ =~= seq_dash());
        }
        issues.push(issue);
        i = i + 1;
        assert(ws.take(i as int) =~= ws.take(i - 1).push(ws[i - 1]));
        assert(issues_view(issues@) =~= issues_view(prev).push(issue@));
        assert(ws.take(i as int).map_values(|w: Seq<char>| warning_issue(w)) =~= ws.take(
            i - 1,
        ).map_values(|w: Seq<char>| warning_issue(w)).push(warning_issue(ws[i - 1])));
    }
    assert(ws.take(ws.len() as int) =~= ws);
    assert(integrity_rule() == rule_of(IssueKind::IntegrityMismatch, allow, ign_reg));
    assert(issues_view(issues@) =~= issues_model(
        *scan,
        packages_view(lockfile.packages@),
        ws,
        allow,
        ign_reg,
        ign,
    ));
    issues
}

/// Some issue of `s` has severity `sev`.
pub open spec fn has_severity(s: Seq<Issue>, sev: Severity) -> bool {
    exists|i: int| 0 <= i < s.len() && (#[trigger] s[i]).severity == sev
}

/// 2 when a high issue meets the threshold, 1 when a warn or info issue
/// does, 0 otherwise.
pub open spec fn exit_code(s: Seq<Issue>, threshold: Severity) -> i32 {
    if has_severity(s, Severity::High) && Severity::High.rank() >= threshold.rank() {
        2
    } else if has_severity(s, Severity::Warn) && Severity::Warn.rank() >= threshold.rank() {
        1
    } else if has_severity(s, Severity::Info) && Severity::Info.rank() >= threshold.rank() {
        1
    } else {
        0
    }
}

fn any_with(issues: &[Issue], sev: Severity) -> (r: bool)
    ensures
        r == has_severity(issues@, sev),
{
    let mut i: usize = 0;
    while i < issues.len()
        invariant
            i <= issues@.len(),
            forall|k: int| 0 <= k < i ==> issues@[k].severity != sev,
        decreases issues@.len() - i,
    {
        if issues[i].severity == sev {
            return true;
        }
        i = i + 1;
    }
    false
}

/// The process exit code for `issues` at severity `threshold`.
pub fn decide_exit_code(issues: &[Issue], threshold: Severity) -> (r: i32)
    ensures
        r == exit_code(issues@, threshold),
{
    let high = any_with(issues, Severity::High);
    let warn = any_with(issues, Severity::Warn);
    let info = any_with(issues, Severity::Info);
    let t = threshold.level();
    if high && 2 >= t {
        2
    } else if warn && 1 >= t {
        1
    } else if info && t == 0 {
        1
    } else {
        0
    }
}

/// How many of the first `k` issues have severity `sev`.
pub open spec fn severity_count(s: Seq<Issue>, sev: Severity, k: nat) -> nat
    decreases k,
{
    if k == 0 {
        0
    } else {
        severity_count(s, sev, (k - 1) as nat) + if s[k - 1].severity == sev {
            1nat
        } else {
            0nat
        }
    }
}

/// How many issues have severity `sev`.
pub fn count_severity(issues: &[Issue], sev: Severity) -> (r: usize)
    ensures
        r == severity_count(issues@, sev, issues@.len()),
{
    let mut n: usize = 0;
    let mut i: usize = 0;
    while i < issues.len()
        invariant
            i <= issues@.len(),
            n == severity_count(issues@, sev, i as nat),
            n <= i,
        decreases issues@.len() - i,
    {
        if issues[i].severity == sev {
            n = n + 1;
        }
        i = i + 1;
    }
    n
}

} // verus!

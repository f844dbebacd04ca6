use bun_xray_core::audit::{
    collect_issues, count_severity, decide_exit_code, registry_allowed, Issue, IssueKind, Severity,
};
use bun_xray_core::model::{ResolutionKind, TrailerInfo};
use bun_xray_core::security::{
    build_declared_set, extract_host, is_integrity_valid, is_registry_trusted,
    is_version_suspicious,
};
use bun_xray_core::{Lockfile, Package, PackageJson, SecurityScanner};

fn package(name: &str, version: &str, registry: &str, integrity: Option<&str>) -> Package {
    Package {
        name: name.to_string(),
        version: version.to_string(),
        registry_url: registry.to_string(),
        integrity_hash: integrity.map(|s| s.to_string()),
        resolution: ResolutionKind::Root,
        dependencies: Vec::new(),
    }
}

fn lockfile(packages: Vec<Package>) -> Lockfile {
    Lockfile {
        format_version: 3,
        meta_hash: [0; 32],
        packages,
        trailers: TrailerInfo {
            trusted_hashes: Vec::new(),
            has_empty_trusted: false,
            overrides: Vec::new(),
            patched: Vec::new(),
            catalogs: Vec::new(),
            default_catalog: Vec::new(),
            workspaces_count: 0,
        },
    }
}

fn strings(v: &[&str]) -> Vec<String> {
    v.iter().map(|s| s.to_string()).collect()
}

#[test]
fn hosts_are_extracted() {
    assert_eq!(extract_host("https://registry.npmjs.org/foo/-/foo.tgz"), Some("registry.npmjs.org"));
    assert_eq!(extract_host("npm"), Some("npm"));
    assert_eq!(extract_host("github.com/a/b"), Some("github.com"));
    assert_eq!(extract_host("a://b:x://c"), Some("b:x"));
    assert_eq!(extract_host(""), Some(""));
}

#[test]
fn default_registry_allow_list() {
    assert!(is_registry_trusted("https://registry.npmjs.org/"));
    assert!(is_registry_trusted("https://registry.NPMJS.com/x"));
    assert!(is_registry_trusted("npm"));
    assert!(is_registry_trusted("https://JSR.io/@std/path"));
    assert!(is_registry_trusted("https://github.com/o/r"));
    assert!(!is_registry_trusted("npmx"));
    assert!(!is_registry_trusted("https://evil.example.com/npmjs.org"));
    assert!(!is_registry_trusted("octo/repo"));
    assert!(!is_registry_trusted(""));
}

#[test]
fn integrity_strings_are_checked() {
    assert!(is_integrity_valid("sha512-abcdefgh"));
    assert!(is_integrity_valid("  SHA1-abcdefgh \n"));
    assert!(!is_integrity_valid("sha1-abcd"));
    assert!(!is_integrity_valid("sha1-abcde"));
    assert!(is_integrity_valid("sha1-abcdef"));
    assert!(!is_integrity_valid("md5-abcdefghijkl"));
    assert!(!is_integrity_valid(""));
}

#[test]
fn suspicious_versions_are_flagged() {
    assert!(!is_version_suspicious("1.0.0"));
    assert!(!is_version_suspicious(" 2.0.0\t"));
    assert!(is_version_suspicious("1.0.0-beta"));
    assert!(is_version_suspicious("git+https://example.com/x.git"));
    assert!(is_version_suspicious("file:../x"));
    assert!(is_version_suspicious("https://x"));
    assert!(is_version_suspicious("a#b"));
    assert!(!is_version_suspicious(""));
}

#[test]
fn declared_set_joins_both_lists() {
    let pj = PackageJson {
        dependencies: Some(vec![("react".into(), "^18".into())]),
        dev_dependencies: Some(vec![("vitest".into(), "^1".into()), ("tsx".into(), "*".into())]),
    };
    assert_eq!(build_declared_set(Some(&pj)), Some(strings(&["react", "vitest", "tsx"])));
    assert_eq!(build_declared_set(None), None);
    let empty = PackageJson { dependencies: None, dev_dependencies: None };
    assert_eq!(build_declared_set(Some(&empty)), Some(Vec::new()));
}

fn sample() -> Lockfile {
    lockfile(vec![
        package("react", "18.2.0", "https://registry.npmjs.org/", Some("sha512-0123456789abcdef")),
        package("left-pad", "1.3.0-rc", "https://evil.example.com/", Some("md5-xyz")),
        package("local", "", "../local", None),
    ])
}

#[test]
fn scan_flags_each_rule() {
    let lock = sample();
    let pj = PackageJson {
        dependencies: Some(vec![("react".into(), "^18".into())]),
        dev_dependencies: None,
    };
    let r = lock.scan(Some(&pj));
    assert_eq!(r.total_packages, 3);
    let names = |v: &Vec<Package>| v.iter().map(|p| p.name.clone()).collect::<Vec<_>>();
    assert_eq!(names(&r.phantom_dependencies), strings(&["left-pad", "local"]));
    assert_eq!(names(&r.untrusted_registries), strings(&["left-pad", "local"]));
    assert_eq!(names(&r.integrity_mismatches), strings(&["left-pad"]));
    assert_eq!(names(&r.suspicious_versions), strings(&["left-pad"]));
    assert_eq!(r.integrity_mismatches[0], lock.packages[1]);

    let without = lock.scan(None);
    assert!(without.phantom_dependencies.is_empty());
}

#[test]
fn severities_parse_in_any_case() {
    assert_eq!(Severity::from_str("info"), Some(Severity::Info));
    assert_eq!(Severity::from_str("WARNING"), Some(Severity::Warn));
    assert_eq!(Severity::from_str("Warn"), Some(Severity::Warn));
    assert_eq!(Severity::from_str("critical"), Some(Severity::High));
    assert_eq!(Severity::from_str("high"), Some(Severity::High));
    assert_eq!(Severity::from_str("bogus"), None);
    assert_eq!(Severity::High.as_str(), "high");
    assert_eq!(Severity::Info.as_str(), "info");
}

#[test]
fn registry_allow_and_ignore_lists() {
    let url = "https://Mirror.Corp.example/pkg";
    assert!(!registry_allowed(url, &[], &[]));
    assert!(registry_allowed(url, &[], &strings(&["CORP"])));
    assert!(registry_allowed(url, &strings(&["mirror"]), &[]));
    assert!(!registry_allowed(url, &strings(&["other"]), &[]));
}

#[test]
fn issues_are_collected_in_order_and_numbered() {
    let lock = sample();
    let pj = PackageJson {
        dependencies: Some(vec![("react".into(), "^18".into())]),
        dev_dependencies: None,
    };
    let scan = lock.scan(Some(&pj));
    let issues = collect_issues(
        &scan,
        &lock,
        strings(&["TrailerUnknownTag"]),
        &[],
        &strings(&["example.com"]),
        &strings(&["local"]),
    );
    let kinds: Vec<IssueKind> = issues.iter().map(|i| i.kind).collect();
    assert_eq!(
        kinds,
        vec![
            IssueKind::IntegrityMismatch,
            IssueKind::PhantomDependency,
            IssueKind::SuspiciousVersion,
            IssueKind::ParserWarning,
        ]
    );
    let ids: Vec<usize> = issues.iter().map(|i| i.id).collect();
    assert_eq!(ids, vec![1, 2, 3, 4]);
    assert_eq!(issues[0].severity, Severity::High);
    assert_eq!(issues[0].detail, "md5-xyz");
    assert_eq!(issues[1].detail, "Not declared in package.json");
    assert_eq!(issues[2].detail, "1.3.0-rc");
    assert_eq!(issues[3].package, "-");
    assert_eq!(issues[3].detail, "TrailerUnknownTag");
    assert_eq!(count_severity(&issues, Severity::Warn), 3);
    assert_eq!(count_severity(&issues, Severity::High), 1);
}

#[test]
fn missing_integrity_and_untrusted_registry_issues() {
    let lock = sample();
    let scan = lock.scan(None);
    let issues = collect_issues(&scan, &lock, Vec::new(), &[], &[], &[]);
    let last: Vec<(IssueKind, String)> =
        issues.iter().map(|i| (i.kind, i.package.clone())).collect();
    assert_eq!(
        last,
        vec![
            (IssueKind::IntegrityMismatch, "left-pad".to_string()),
            (IssueKind::SuspiciousVersion, "left-pad".to_string()),
            (IssueKind::UntrustedRegistry, "left-pad".to_string()),
            (IssueKind::UntrustedRegistry, "local".to_string()),
            (IssueKind::MissingIntegrity, "local".to_string()),
        ]
    );
    assert_eq!(issues[4].detail, "No integrity hash");
}

fn issue(severity: Severity) -> Issue {
    Issue {
        id: 1,
        severity,
        kind: IssueKind::ParserWarning,
        package: "-".into(),
        version: "-".into(),
        detail: String::new(),
    }
}

#[test]
fn exit_codes_follow_the_threshold() {
    let high = vec![issue(Severity::High), issue(Severity::Warn)];
    assert_eq!(decide_exit_code(&high, Severity::Warn), 2);
    assert_eq!(decide_exit_code(&high, Severity::High), 2);
    let warn = vec![issue(Severity::Warn)];
    assert_eq!(decide_exit_code(&warn, Severity::Warn), 1);
    assert_eq!(decide_exit_code(&warn, Severity::High), 0);
    let info = vec![issue(Severity::Info)];
    assert_eq!(decide_exit_code(&info, Severity::Info), 1);
    assert_eq!(decide_exit_code(&info, Severity::Warn), 0);
    assert_eq!(decide_exit_code(&[], Severity::Info), 0);
}

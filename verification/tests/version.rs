use er_overlay::version::{parse_version, releases_newer_than, version_newer, version_string, ReleaseInfo};

fn v(text: &str) -> er_overlay::version::SemVer {
    parse_version(text).unwrap()
}

fn release(tag: &str, draft: bool, prerelease: bool) -> ReleaseInfo {
    ReleaseInfo { tag_name: tag.to_string(), draft, prerelease }
}

#[test]
fn tags_are_trimmed_and_lose_their_v() {
    let x = v("  v1.2.3 ");
    assert_eq!((x.major, x.minor, x.patch), (1, 2, 3));
    assert!(x.pre.is_empty() && x.build.is_empty());
    let y = v("vv2.0.0-rc.1+build.7");
    assert_eq!(y.pre, vec!["rc", "1"]);
    assert_eq!(y.build, vec!["build", "7"]);
    assert_eq!(version_string(&y), "2.0.0-rc.1+build.7");
    assert!(parse_version("1.2").is_none());
    assert!(parse_version("release").is_none());
}

#[test]
fn versions_follow_semver_precedence() {
    assert!(version_newer(&v("1.10.0"), &v("1.9.9")));
    assert!(version_newer(&v("1.0.0"), &v("1.0.0-rc.1")));
    assert!(version_newer(&v("1.0.0-beta.11"), &v("1.0.0-beta.2")));
    assert!(version_newer(&v("1.0.0-alpha.beta"), &v("1.0.0-alpha.1")));
    assert!(version_newer(&v("1.0.0-alpha.1"), &v("1.0.0-alpha")));
    assert!(!version_newer(&v("1.0.0"), &v("1.0.0")));
    assert!(version_newer(&v("1.0.0+b"), &v("1.0.0")));
}

#[test]
fn newer_stable_releases_come_oldest_first() {
    let releases = vec![
        release("v1.3.0", false, false),
        release("v1.1.0", false, false),
        release("v1.2.0", true, false),
        release("v1.4.0-rc.1", false, true),
        release("not-a-version", false, false),
        release("v1.0.0", false, false),
        release("1.1.0", false, false),
        release("v0.9.0", false, false),
    ];
    assert_eq!(releases_newer_than(&releases, &v("1.0.0")), vec![1, 6, 0]);
    assert!(releases_newer_than(&releases, &v("1.3.0")).is_empty());
}

use niterpack::source::BuildSource;
use niterpack::sync::{
    accept_download, check_download, distinct_by_file, needs_hash, plan, sha512_hex, LocalFile, SyncError, SyncPlan,
};

fn artifact(name: &str, file: &str, hash: Option<&str>) -> BuildSource {
    BuildSource {
        name: name.to_string(),
        url: format!("https://cdn.example.com/{}", file),
        file: file.to_string(),
        sha512: hash.map(|h| h.to_string()),
    }
}

fn local(name: &str, hash: Option<&str>) -> LocalFile {
    LocalFile { name: name.to_string(), hash: hash.map(|h| h.to_string()) }
}

fn files(plan: &SyncPlan) -> Vec<String> {
    plan.download.iter().map(|b| b.file.clone()).collect()
}

/// The directory after the plan is applied, each downloaded file carrying
/// the digest its artifact claims (or none).
fn apply(listing: &[LocalFile], plan: &SyncPlan) -> Vec<LocalFile> {
    let mut dir: Vec<LocalFile> = listing.iter().filter(|f| !plan.remove.contains(&f.name)).cloned().collect();
    for b in &plan.download {
        dir.push(LocalFile { name: b.file.clone(), hash: b.sha512.clone() });
    }
    dir
}

fn names(dir: &[LocalFile]) -> Vec<String> {
    let mut n: Vec<String> = dir.iter().map(|f| f.name.clone()).collect();
    n.sort();
    n
}

#[test]
fn matching_file_kept_and_orphan_deleted() {
    let desired = vec![artifact("sodium", "sodium-1.jar", Some("abc123"))];
    let listing = vec![local("sodium-1.jar", Some("abc123")), local("old.jar", None)];
    let p = plan(&desired, &listing);
    assert_eq!(p.keep, vec!["sodium-1.jar".to_string()]);
    assert_eq!(p.remove, vec!["old.jar".to_string()]);
    assert!(p.download.is_empty());
}

#[test]
fn empty_directory_downloads_one_file() {
    let body = b"lithium bytes".to_vec();
    let digest = sha512_hex(&body);
    let desired = vec![artifact("lithium", "lithium.jar", Some(&digest))];
    let p = plan(&desired, &Vec::new());
    assert!(p.keep.is_empty());
    assert!(p.remove.is_empty());
    assert_eq!(files(&p), vec!["lithium.jar".to_string()]);
    assert!(check_download(&p.download[0], &body).is_ok());
    let dir = apply(&[], &p);
    assert_eq!(names(&dir), vec!["lithium.jar".to_string()]);
    assert_eq!(dir[0].hash.as_deref(), Some(digest.as_str()));
}

#[test]
fn second_run_downloads_nothing() {
    let desired = vec![
        artifact("sodium", "sodium-1.jar", Some("aaa")),
        artifact("lithium", "lithium.jar", Some("bbb")),
        artifact("direct", "direct.jar", None),
    ];
    let listing = vec![local("sodium-1.jar", Some("stale")), local("old.jar", None), local("direct.jar", None)];
    let first = plan(&desired, &listing);
    assert_eq!(files(&first), vec!["sodium-1.jar".to_string(), "lithium.jar".to_string()]);
    let dir = apply(&listing, &first);
    let second = plan(&desired, &dir);
    assert!(second.download.is_empty());
    assert!(second.remove.is_empty());
    assert_eq!(second.keep.len(), 3);
}

#[test]
fn final_names_are_the_desired_names() {
    let desired = vec![
        artifact("a", "a.jar", Some("h1")),
        artifact("b", "b.jar", None),
        artifact("c", "c.jar", Some("h3")),
    ];
    let cases = vec![
        vec![],
        vec![local("a.jar", Some("h1"))],
        vec![local("a.jar", Some("h1")), local("b.jar", None), local("c.jar", Some("h3"))],
        vec![local("x.jar", None), local("c.jar", Some("other")), local("y.jar", Some("h1"))],
    ];
    for listing in cases {
        let p = plan(&desired, &listing);
        let dir = apply(&listing, &p);
        assert_eq!(names(&dir), vec!["a.jar".to_string(), "b.jar".to_string(), "c.jar".to_string()]);
    }
}

#[test]
fn stale_file_is_deleted_and_fetched_once() {
    let desired = vec![artifact("sodium", "sodium-1.jar", Some("good"))];
    let listing = vec![local("sodium-1.jar", Some("bad"))];
    let p = plan(&desired, &listing);
    assert!(p.keep.is_empty());
    assert_eq!(p.remove, vec!["sodium-1.jar".to_string()]);
    assert_eq!(files(&p), vec!["sodium-1.jar".to_string()]);
    assert_eq!(p.download[0].sha512.as_deref(), Some("good"));
}

#[test]
fn file_without_digest_counts_as_stale_when_one_is_claimed() {
    let desired = vec![artifact("sodium", "sodium-1.jar", Some("good"))];
    let p = plan(&desired, &vec![local("sodium-1.jar", None)]);
    assert_eq!(p.remove, vec!["sodium-1.jar".to_string()]);
    assert_eq!(files(&p), vec!["sodium-1.jar".to_string()]);
}

#[test]
fn presence_is_enough_without_a_claimed_digest() {
    let desired = vec![artifact("direct", "direct.jar", None)];
    let p = plan(&desired, &vec![local("direct.jar", Some("anything"))]);
    assert_eq!(p.keep, vec!["direct.jar".to_string()]);
    assert!(p.remove.is_empty());
    assert!(p.download.is_empty());
}

#[test]
fn digest_needed_only_where_claimed() {
    let desired = vec![artifact("a", "a.jar", Some("h")), artifact("b", "b.jar", None)];
    assert!(needs_hash(&desired, &"a.jar".to_string()));
    assert!(!needs_hash(&desired, &"b.jar".to_string()));
    assert!(!needs_hash(&desired, &"c.jar".to_string()));
}

#[test]
fn first_artifact_wins_a_shared_file_name() {
    let sources = vec![
        artifact("one", "x.jar", Some("1")),
        artifact("two", "y.jar", None),
        artifact("three", "x.jar", Some("3")),
    ];
    let d = distinct_by_file(&sources);
    let kept: Vec<String> = d.iter().map(|b| b.name.clone()).collect();
    assert_eq!(kept, vec!["one".to_string(), "two".to_string()]);
}

#[test]
fn sha512_hex_of_abc() {
    assert_eq!(
        sha512_hex(b"abc"),
        "ddaf35a193617abacc417349ae20413112e6fa4e89a97ea20a9eeee64b55d39a2192992a274fc1a836ba3c23a3feebbd454d4423643ce80e2a9ac94fa54ca49f"
    );
}

#[test]
fn download_with_wrong_digest_is_refused() {
    let a = artifact("lithium", "lithium.jar", Some("def"));
    match check_download(&a, b"other bytes") {
        Err(SyncError::HashMismatchAfterDownload { name, file }) => {
            assert_eq!(name, "lithium");
            assert_eq!(file, "lithium.jar");
        }
        other => panic!("unexpected {:?}", other),
    }
    assert!(accept_download(&a, &"def".to_string()).is_ok());
    assert!(accept_download(&artifact("d", "d.jar", None), &"zzz".to_string()).is_ok());
}

use niterpack::manifest::Manifest;
use niterpack::modrinth::{
    check_id, check_slug, project, project_versions, version, ModrinthError, ModrinthVersionFileHashes, Version,
    VersionFile,
};
use niterpack::project::{collect_sources, Mod, Project};
use niterpack::source::{file_name_from_segments, BuildSource, RegistryReply, Resolution, Source, SourceError};

fn manifest(loader: Option<&str>, game: Option<&str>) -> Manifest {
    Manifest::new("pack".to_string(), "0.1.0".to_string(), game.map(|s| s.to_string()), loader.map(|s| s.to_string()))
}

fn direct(name: &str, url: &str, file: Option<&str>) -> Mod {
    Mod::new(name.to_string(), file.map(|s| s.to_string()), Source::Download { url: url.to_string() })
}

fn registry(name: &str, version: &str) -> Mod {
    Mod::new(name.to_string(), None, Source::Modrinth { version: version.to_string() })
}

fn vfile(name: &str, primary: bool) -> VersionFile {
    VersionFile {
        url: format!("https://cdn.modrinth.com/{}", name),
        filename: name.to_string(),
        primary,
        hashes: ModrinthVersionFileHashes { sha512: format!("sha512-of-{}", name), sha1: format!("sha1-of-{}", name) },
    }
}

fn ver(id: &str, label: &str, files: Vec<VersionFile>) -> Version {
    Version { id: id.to_string(), name: format!("Release {}", label), version_number: label.to_string(), files }
}

fn resolved(r: Resolution) -> BuildSource {
    match r {
        Resolution::Resolved(b) => b,
        other => panic!("not resolved: {:?}", other),
    }
}

#[test]
fn direct_url_gives_last_path_segment() {
    let b = resolved(BuildSource::generate(&manifest(None, None), &direct("sodium", "https://cdn.example.com/mods/sodium-1.jar", None)));
    assert_eq!(b.name, "sodium");
    assert_eq!(b.file, "sodium-1.jar");
    assert_eq!(b.url, "https://cdn.example.com/mods/sodium-1.jar");
    assert_eq!(b.sha512, None);
}

#[test]
fn direct_url_without_file_name_is_malformed() {
    for url in ["https://cdn.example.com/mods/", "https://cdn.example.com", "not a url"] {
        match BuildSource::generate(&manifest(None, None), &direct("m", url, None)) {
            Resolution::Failed(SourceError::MalformedReference { name, url: u }) => {
                assert_eq!(name, "m");
                assert_eq!(u, url);
            }
            other => panic!("unexpected {:?}", other),
        }
    }
}

#[test]
fn file_name_override_wins() {
    let b = resolved(BuildSource::generate(&manifest(None, None), &direct("m", "https://cdn.example.com/mods/", Some("m.jar"))));
    assert_eq!(b.file, "m.jar");
}

#[test]
fn segments_to_file_name() {
    assert_eq!(file_name_from_segments(&vec!["a".to_string(), "b.jar".to_string()]), Some("b.jar".to_string()));
    assert_eq!(file_name_from_segments(&vec!["a".to_string(), "".to_string()]), None);
    assert_eq!(file_name_from_segments(&vec![]), None);
}

#[test]
fn identifier_is_looked_up_first() {
    match BuildSource::generate(&manifest(Some("fabric"), None), &registry("sodium", "AABBcc12")) {
        Resolution::LookupVersion(q) => {
            assert_eq!(q.url(), "https://api.modrinth.com/v2/version/AABBcc12");
            assert!(q.query.is_empty());
        }
        other => panic!("unexpected {:?}", other),
    }
}

#[test]
fn label_goes_to_filtered_listing() {
    match registry("sodium", "0.4.10").build_source(&manifest(Some("fabric"), Some("1.20.1"))) {
        Resolution::ListVersions(q) => {
            assert_eq!(q.url(), "https://api.modrinth.com/v2/project/sodium/version");
            assert_eq!(
                q.query,
                vec![
                    ("loaders".to_string(), "[\"fabric\"]".to_string()),
                    ("game_versions".to_string(), "[\"1.20.1\"]".to_string())
                ]
            );
        }
        other => panic!("unexpected {:?}", other),
    }
}

#[test]
fn malformed_slug_is_refused_before_any_request() {
    match BuildSource::generate(&manifest(None, None), &registry("a b", "0.4.10")) {
        Resolution::Failed(SourceError::InvalidReference { name }) => assert_eq!(name, "a b"),
        other => panic!("unexpected {:?}", other),
    }
}

#[test]
fn not_found_falls_back_to_listing_and_matches_label() {
    let m = manifest(Some("fabric"), None);
    let md = registry("sodium", "mc1.20-0.5");
    match BuildSource::resume(&m, &md, RegistryReply::Version(None)) {
        Resolution::ListVersions(q) => {
            assert_eq!(q.query, vec![("loaders".to_string(), "[\"fabric\"]".to_string())]);
        }
        other => panic!("unexpected {:?}", other),
    }
    let list = vec![
        ver("AAAA0001", "mc1.20-0.4", vec![vfile("old.jar", true)]),
        ver("AAAA0002", "mc1.20-0.5", vec![vfile("sources.jar", false), vfile("sodium-0.5.jar", true)]),
    ];
    let b = resolved(BuildSource::resume(&m, &md, RegistryReply::Versions(list)));
    assert_eq!(b.name, "sodium");
    assert_eq!(b.file, "sodium-0.5.jar");
    assert_eq!(b.url, "https://cdn.modrinth.com/sodium-0.5.jar");
    assert_eq!(b.sha512.as_deref(), Some("sha512-of-sodium-0.5.jar"));
}

#[test]
fn first_file_when_none_is_primary() {
    let md = registry("sodium", "AABBCCDD");
    let v = ver("AABBCCDD", "1.0", vec![vfile("first.jar", false), vfile("second.jar", false)]);
    let b1 = resolved(BuildSource::resume(&manifest(None, None), &md, RegistryReply::Version(Some(v.clone()))));
    let b2 = resolved(BuildSource::resume(&manifest(None, None), &md, RegistryReply::Version(Some(v))));
    assert_eq!(b1.file, "first.jar");
    assert_eq!(b2.file, "first.jar");
}

#[test]
fn missing_label_is_version_not_found() {
    let md = registry("sodium", "9.9");
    let list = vec![ver("AAAA0001", "1.0", vec![vfile("a.jar", true)])];
    match BuildSource::resume(&manifest(None, None), &md, RegistryReply::Versions(list)) {
        Resolution::Failed(SourceError::VersionNotFound { name, version }) => {
            assert_eq!(name, "sodium");
            assert_eq!(version, "9.9");
        }
        other => panic!("unexpected {:?}", other),
    }
}

#[test]
fn version_without_files_fails() {
    let md = registry("sodium", "AABBCCDD");
    match BuildSource::resume(&manifest(None, None), &md, RegistryReply::Version(Some(ver("AABBCCDD", "1.0", vec![])))) {
        Resolution::Failed(SourceError::PrimaryFileNotFound { name, version }) => {
            assert_eq!(name, "sodium");
            assert_eq!(version, "AABBCCDD");
        }
        other => panic!("unexpected {:?}", other),
    }
}

#[test]
fn unreachable_registry_is_reported() {
    match BuildSource::resume(&manifest(None, None), &registry("sodium", "AABBCCDD"), RegistryReply::Unavailable) {
        Resolution::Failed(SourceError::RegistryUnavailable { name }) => assert_eq!(name, "sodium"),
        other => panic!("unexpected {:?}", other),
    }
}

#[test]
fn first_failure_aborts_collection() {
    let ok = |n: &str| Ok(BuildSource { name: n.to_string(), url: String::new(), file: format!("{}.jar", n), sha512: None });
    let all = collect_sources(vec![ok("a"), ok("b")]).unwrap();
    assert_eq!(all.len(), 2);
    assert_eq!(all[1].name, "b");
    let err = collect_sources(vec![
        ok("a"),
        Err(SourceError::InvalidReference { name: "x".to_string() }),
        Err(SourceError::RegistryUnavailable { name: "y".to_string() }),
    ]);
    match err {
        Err(SourceError::InvalidReference { name }) => assert_eq!(name, "x"),
        other => panic!("unexpected {:?}", other),
    }
}

#[test]
fn every_mod_gets_a_first_step() {
    let p = Project::new(manifest(None, None), vec![direct("a", "https://x.org/a.jar", None), registry("b", "AABBCCDD")], None);
    let steps = p.build_sources();
    assert_eq!(steps.len(), 2);
    assert!(matches!(steps[0], Resolution::Resolved(_)));
    assert!(matches!(steps[1], Resolution::LookupVersion(_)));
}

#[test]
fn identifier_and_slug_shapes() {
    assert!(check_id("AABBcc12"));
    assert!(!check_id("AABBcc1"));
    assert!(!check_id("AABBcc12x"));
    assert!(!check_id("AABB-c12"));
    assert!(check_slug("sodium"));
    assert!(check_slug("fabric-api"));
    assert!(!check_slug("ab"));
    assert!(!check_slug("has space"));
}

#[test]
fn requests_refused_locally() {
    match version("0.4.10") {
        Err(ModrinthError::InvalidSlugOrId(s)) => assert_eq!(s, "0.4.10"),
        other => panic!("unexpected {:?}", other),
    }
    assert!(matches!(project("a b"), Err(ModrinthError::InvalidSlugOrId(_))));
    assert_eq!(project("sodium").unwrap().url(), "https://api.modrinth.com/v2/project/sodium");
    let q = project_versions("sodium", None, None).unwrap();
    assert!(q.query.is_empty());
    assert!(matches!(project_versions("x", Some("fabric"), None), Err(ModrinthError::InvalidSlugOrId(_))));
}

#[test]
fn registry_file_keeps_its_name() {
    let md = Mod::new("sodium".to_string(), Some("renamed.jar".to_string()), Source::Modrinth { version: "AABBCCDD".to_string() });
    let v = ver("AABBCCDD", "1.0", vec![vfile("sodium-1.0.jar", true)]);
    let b = resolved(BuildSource::resume(&manifest(None, None), &md, RegistryReply::Version(Some(v))));
    assert_eq!(b.file, "sodium-1.0.jar");
}

#[test]
fn query_values_are_json_escaped() {
    let q = project_versions("sodium", Some("a\"b\\c\n"), None).unwrap();
    assert_eq!(q.query, vec![("loaders".to_string(), "[\"a\\\"b\\\\c\\n\"]".to_string())]);
    let q = project_versions("sodium", Some("\u{1}"), None).unwrap();
    assert_eq!(q.query[0].1, "[\"\\u0001\"]");
}

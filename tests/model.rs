use niterpack::format::{
    create_all, format_all, join_path, mod_file_stem, mod_names, MainFile, ModFile, Modpack, ProjectFormatter,
};
use niterpack::manifest::Manifest;
use niterpack::mrpack::{Dependencies, EnvironmentSupport, Environments, File, Game, Hashes, Index};
use niterpack::pack;
use niterpack::parse::{
    check_format, CheckFormatError, FormatValueExpected, MainFileAlreadyExists, MainFileNotFound, ModAlreadyAdded,
    NotADirectory, UnsupportedFormat,
};
use niterpack::project::Mod;
use niterpack::registry::{get_project, get_version, ModrinthVersion, ModrinthVersionFile};
use niterpack::source::{Resolution, Source};
use niterpack::toml_format::{project_from_manifest, TomlManifest, TomlManifestMinecraft, TomlManifestModpack, TomlMod};

#[test]
fn manifest_from_toml_reads_filters() {
    let t = TomlManifest {
        modpack: TomlManifestModpack { name: "pack".to_string(), version: "1.0".to_string() },
        minecraft: Some(TomlManifestMinecraft { loader: Some("fabric".to_string()), version: Some("1.20.1".to_string()) }),
    };
    let m = Manifest::from(t.clone());
    assert_eq!(m.name, "pack");
    assert_eq!(m.version, "1.0");
    assert_eq!(m.loader.as_deref(), Some("fabric"));
    assert_eq!(m.minecraft_version.as_deref(), Some("1.20.1"));
    let back = TomlManifest::from(m);
    assert_eq!(back.modpack.name, "pack");
    assert!(back.minecraft.is_none());
    let p = project_from_manifest(t);
    assert!(p.mods.is_empty());
    assert!(p.config_dir.is_none());
}

#[test]
fn mod_round_trips_through_toml_shape() {
    let m = Mod::new("sodium".to_string(), Some("s.jar".to_string()), Source::Modrinth { version: "AABBCCDD".to_string() });
    let t = TomlMod::from(m);
    assert_eq!(t.name, "sodium");
    let back = Mod::from(t);
    assert_eq!(back.file.as_deref(), Some("s.jar"));
    assert!(matches!(back.source, Source::Modrinth { ref version } if version == "AABBCCDD"));
}

#[test]
fn paths_join_with_one_separator() {
    assert_eq!(join_path("proj", "mods"), "proj/mods");
    assert_eq!(join_path("proj/", "mods"), "proj/mods");
    assert_eq!(join_path("", "mods"), "mods");
    assert_eq!(join_path("proj", "/abs"), "/abs");
    assert_eq!(MainFile::in_path("/home/p"), "/home/p/niter.toml");
    let f = ProjectFormatter {
        main_file: MainFile::new(Modpack::new("p".to_string(), "1".to_string())),
        path: "/home/p".to_string(),
    };
    assert_eq!(f.mods_path(), "/home/p/mods");
}

#[test]
fn mod_file_named_by_file_when_unnamed() {
    let unnamed = ModFile { name: None, file: None, source: Source::Download { url: "https://x.org/a.jar".to_string() } };
    assert_eq!(unnamed.to_mod(|| "fallback".to_string()).name, "fallback");
    let named = ModFile { name: Some("real".to_string()), file: None, source: Source::Download { url: "u".to_string() } };
    assert_eq!(named.to_mod(|| "fallback".to_string()).name, "real");
}

#[test]
fn project_files_round_trip() {
    let mut p = pack::Project::new("pack".to_string(), "2.0".to_string());
    p.mods.push(pack::Mod::new("a".to_string(), None, Source::Download { url: "https://x.org/a.jar".to_string() }));
    p.mods.push(pack::Mod::new("b".to_string(), Some("b.jar".to_string()), Source::Modrinth { version: "1.0".to_string() }));
    let (main, files) = create_all(&p);
    assert_eq!(main.modpack.name, "pack");
    assert_eq!(files.len(), 2);
    assert_eq!(files[1].0, "b");
    let back = format_all(main, files);
    assert_eq!(back.name, "pack");
    assert_eq!(back.version, "2.0");
    assert_eq!(back.mods.len(), 2);
    assert_eq!(back.mods[1].file.as_deref(), Some("b.jar"));
    let m = MainFile::from(back);
    assert_eq!(m.modpack.version, "2.0");
}

#[test]
fn pack_mod_file_name() {
    let a = pack::Mod::new("a".to_string(), None, Source::Download { url: "https://x.org/dl/a-1.jar".to_string() });
    match a.file_or_source() {
        pack::FileName::Resolving(Resolution::Resolved(b)) => assert_eq!(b.file, "a-1.jar"),
        other => panic!("unexpected {:?}", other),
    }
    let b = pack::Mod::new("b".to_string(), Some("b.jar".to_string()), Source::Modrinth { version: "1".to_string() });
    assert!(matches!(b.file_or_source(), pack::FileName::Known(ref f) if f == "b.jar"));
    let c = pack::Mod::new("sodium".to_string(), None, Source::Modrinth { version: "AABBCCDD".to_string() });
    match c.file_or_source() {
        pack::FileName::Resolving(Resolution::LookupVersion(q)) => {
            assert_eq!(q.url(), "https://api.modrinth.com/v2/version/AABBCCDD")
        }
        other => panic!("unexpected {:?}", other),
    }
    let d = pack::Mod::new("sodium".to_string(), None, Source::Modrinth { version: "0.5".to_string() });
    match d.file_or_source() {
        pack::FileName::Resolving(Resolution::ListVersions(q)) => assert!(q.query.is_empty()),
        other => panic!("unexpected {:?}", other),
    }
    assert_eq!(d.to_project_mod().name, "sodium");
}

#[test]
fn parse_failures_have_messages() {
    assert_eq!(ModAlreadyAdded("sodium".to_string()).message(), "mod 'sodium' is already added");
    assert_eq!(FormatValueExpected.message(), "value for 'format' in 'niter.json' not found");
    assert_eq!(MainFileAlreadyExists.message(), "file 'niter.json' already exists");
    assert_eq!(MainFileNotFound.message(), "could not find 'niter.json'");
    assert_eq!(NotADirectory.message(), "not a directory");
    assert_eq!(UnsupportedFormat("1".to_string()).message(), "format '1' is not supported");
}

#[test]
fn only_the_supported_format_is_read() {
    assert!(check_format(Some("0beta")).is_ok());
    assert!(matches!(check_format(None), Err(CheckFormatError::Missing(_))));
    match check_format(Some("1")) {
        Err(CheckFormatError::Unsupported(UnsupportedFormat(f))) => assert_eq!(f, "1"),
        other => panic!("unexpected {:?}", other),
    }
}

#[test]
fn mrpack_index_parts() {
    let deps = Dependencies::fabric("1.20.1".to_string(), "0.14.21".to_string());
    assert_eq!(deps.fabric.as_deref(), Some("0.14.21"));
    assert!(deps.forge.is_none() && deps.quilt.is_none());
    assert_eq!(Dependencies::forge("1.20.1".to_string(), "47".to_string()).forge.as_deref(), Some("47"));
    assert_eq!(Dependencies::quilt("1.20.1".to_string(), "0.19".to_string()).quilt.as_deref(), Some("0.19"));
    let env = Environments { client: EnvironmentSupport::Required, server: EnvironmentSupport::Optional };
    let f = File::new("mods/a.jar".to_string(), Hashes::new("s1".to_string(), "s512".to_string()), Some(env));
    assert_eq!(f.hashes.sha512, "s512");
    let idx = Index::new("pack".to_string(), "1.0".to_string(), None, vec![f], deps);
    assert_eq!(idx.format, 1);
    assert_eq!(idx.game, Game::Minecraft);
    assert_eq!(Game::default(), Game::Minecraft);
    assert_eq!(idx.files.len(), 1);
}

#[test]
fn short_registry_records() {
    let v = ModrinthVersion {
        id: "AABBCCDD".to_string(),
        name: "r".to_string(),
        version_number: "1.0".to_string(),
        files: vec![
            ModrinthVersionFile { url: "u1".to_string(), filename: "a.jar".to_string(), primary: false },
            ModrinthVersionFile { url: "u2".to_string(), filename: "b.jar".to_string(), primary: true },
        ],
    };
    assert_eq!(v.primary_file().map(|f| f.filename.as_str()), Some("b.jar"));
    let unflagged = ModrinthVersion {
        id: "AABBCCDE".to_string(),
        name: "r".to_string(),
        version_number: "1.1".to_string(),
        files: vec![
            ModrinthVersionFile { url: "u1".to_string(), filename: "first.jar".to_string(), primary: false },
            ModrinthVersionFile { url: "u2".to_string(), filename: "second.jar".to_string(), primary: false },
        ],
    };
    assert_eq!(unflagged.primary_file().map(|f| f.filename.as_str()), Some("first.jar"));
    let none = ModrinthVersion { id: "x".to_string(), name: "x".to_string(), version_number: "x".to_string(), files: vec![] };
    assert!(none.primary_file().is_none());
    assert!(get_version("0.4.10").is_none());
    assert_eq!(get_version("AABBCCDD").unwrap().url(), "https://api.modrinth.com/v2/version/AABBCCDD");
    assert!(get_project("a").is_none());
    assert_eq!(get_project("sodium").unwrap().path, vec!["project".to_string(), "sodium".to_string()]);
}

#[test]
fn mod_files_are_named_by_their_stem() {
    assert_eq!(mod_file_stem("sodium.toml").as_deref(), Some("sodium"));
    assert_eq!(mod_file_stem("a.b.toml").as_deref(), Some("a.b"));
    assert_eq!(mod_file_stem(".toml"), None);
    assert_eq!(mod_file_stem("sodium.json"), None);
    let names = vec!["b.toml".to_string(), "readme.md".to_string(), "a.toml".to_string()];
    assert_eq!(mod_names(&names), vec!["b".to_string(), "a".to_string()]);
}

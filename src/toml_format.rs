//! The on-disk TOML shapes of the manifest and of a mod, and their
//! conversions to the project model.

use crate::manifest::Manifest;
use crate::project::{Mod, Project};
use crate::source::Source;
use vstd::prelude::*;

verus! {

/// The manifest file: a `[modpack]` table and an optional `[minecraft]` one.
#[derive(Debug, Clone)]
pub struct TomlManifest {
    pub modpack: TomlManifestModpack,
    pub minecraft: Option<TomlManifestMinecraft>,
}

#[derive(Debug, Clone)]
pub struct TomlManifestModpack {
    pub name: String,
    pub version: String,
}

#[derive(Debug, Clone)]
pub struct TomlManifestMinecraft {
    pub loader: Option<String>,
    pub version: Option<String>,
}

/// A mod file: the mod's name, an optional file name, and its source fields.
#[derive(Debug, Clone)]
pub struct TomlMod {
    pub name: String,
    pub file: Option<String>,
    pub source: Source,
}

pub open spec fn manifest_of(value: TomlManifest) -> Manifest {
    Manifest {
        name: value.modpack.name,
        version: value.modpack.version,
        minecraft_version: match value.minecraft {
            Some(m) => m.version,
            None => None,
        },
        loader: match value.minecraft {
            Some(m) => m.loader,
            None => None,
        },
    }
}

impl From<TomlManifest> for Manifest {
    fn from(value: TomlManifest) -> (r: Manifest)
        ensures
            r == manifest_of(value),
    {
        let (minecraft_version, loader) = match value.minecraft {
            Some(m) => (m.version, m.loader),
            None => (None, None),
        };
        Manifest::new(value.modpack.name, value.modpack.version, minecraft_version, loader)
    }
}

impl vstd::std_specs::convert::FromSpecImpl<TomlManifest> for Manifest {
    open spec fn obeys_from_spec() -> bool {
        true
    }

    open spec fn from_spec(v: TomlManifest) -> Manifest {
        manifest_of(v)
    }
}

/// Only the `[modpack]` table is written; the filters are left out.
pub open spec fn toml_manifest_of(value: Manifest) -> TomlManifest {
    TomlManifest {
        modpack: TomlManifestModpack { name: value.name, version: value.version },
        minecraft: None,
    }
}

impl From<Manifest> for TomlManifest {
    fn from(value: Manifest) -> (r: TomlManifest)
        ensures
            r == toml_manifest_of(value),
    {
        TomlManifest {
            modpack: TomlManifestModpack { name: value.name, version: value.version },
            minecraft: None,
        }
    }
}

impl vstd::std_specs::convert::FromSpecImpl<Manifest> for TomlManifest {
    open spec fn obeys_from_spec() -> bool {
        true
    }

    open spec fn from_spec(v: Manifest) -> TomlManifest {
        toml_manifest_of(v)
    }
}


impl From<TomlMod> for Mod {
    fn from(value: TomlMod) -> (r: Mod)
        ensures
            r == (Mod { name: value.name, file: value.file, source: value.source }),
    {
        Mod::new(value.name, value.file, value.source)
    }
}

impl vstd::std_specs::convert::FromSpecImpl<TomlMod> for Mod {
    open spec fn obeys_from_spec() -> bool {
        true
    }

    open spec fn from_spec(v: TomlMod) -> Mod {
        Mod { name: v.name, file: v.file, source: v.source }
    }
}

impl From<Mod> for TomlMod {
    fn from(value: Mod) -> (r: TomlMod)
        ensures
            r == (TomlMod { name: value.name, file: value.file, source: value.source }),
    {
        TomlMod { name: value.name, file: value.file, source: value.source }
    }
}

impl vstd::std_specs::convert::FromSpecImpl<Mod> for TomlMod {
    open spec fn obeys_from_spec() -> bool {
        true
    }

    open spec fn from_spec(v: Mod) -> TomlMod {
        TomlMod { name: v.name, file: v.file, source: v.source }
    }
}

/// The project described by a manifest file alone: no mods yet.
pub fn project_from_manifest(value: TomlManifest) -> (r: Project)
    ensures
        r.manifest == manifest_of(value),
        r.mods@.len() == 0,
        r.config_dir is None,
{
    Project::new(Manifest::from(value), Vec::new(), None)
}

} // verus!

//! Project metadata.

use vstd::prelude::*;

verus! {

/// Metadata of a modpack project. The loader and game version, when set,
/// narrow the registry's version listings.
#[derive(Debug, Clone)]
pub struct Manifest {
    pub name: String,
    pub version: String,
    pub minecraft_version: Option<String>,
    pub loader: Option<String>,
}

impl Manifest {
    pub fn new(name: String, version: String, minecraft_version: Option<String>, loader: Option<String>) -> (r: Manifest)
        ensures
            r.name == name,
            r.version == version,
            r.minecraft_version == minecraft_version,
            r.loader == loader,
    {
        Manifest { name, version, minecraft_version, loader }
    }
}

} // verus!

//! The index of a `.mrpack` modpack archive: the pack's identity, its files
//! with their digests, and the game and loader versions it depends on.

use vstd::prelude::*;

verus! {

/// Version of the index format written.
pub const FORMAT_VERSION: i32 = 1;

#[derive(Debug)]
pub struct Index {
    pub format: i32,
    pub game: Game,
    pub name: String,
    pub version: String,
    pub summary: Option<String>,
    pub files: Vec<File>,
    pub dependencies: Dependencies,
}

#[derive(Debug, Clone, Copy, PartialEq, Eq, Structural)]
pub enum Game {
    Minecraft,
}

impl Default for Game {
    fn default() -> (r: Game)
        ensures
            r == Game::Minecraft,
    {
        Game::Minecraft
    }
}

/// A file of the pack: its path inside the instance, its digests, and on
/// which sides it is needed.
#[derive(Debug)]
pub struct File {
    pub path: String,
    pub hashes: Hashes,
    pub environments: Option<Environments>,
}

#[derive(Debug)]
pub struct Hashes {
    pub sha1: String,
    pub sha512: String,
}

#[derive(Debug, Clone, Copy)]
pub struct Environments {
    pub client: EnvironmentSupport,
    pub server: EnvironmentSupport,
}

#[derive(Debug, Clone, Copy, PartialEq, Eq, Structural)]
pub enum EnvironmentSupport {
    Required,
    Optional,
    Unsupported,
}

/// The game version and at most one mod loader version.
#[derive(Debug)]
pub struct Dependencies {
    pub minecraft: String,
    pub forge: Option<String>,
    pub fabric: Option<String>,
    pub quilt: Option<String>,
}

impl Index {
    pub fn new(name: String, version: String, summary: Option<String>, files: Vec<File>, dependencies: Dependencies) -> (r: Index)
        ensures
            r.format == FORMAT_VERSION,
            r.game == Game::Minecraft,
            r.name == name,
            r.version == version,
            r.summary == summary,
            r.files == files,
            r.dependencies == dependencies,
    {
        Index { format: FORMAT_VERSION, game: Game::Minecraft, name, version, summary, files, dependencies }
    }
}

impl File {
    pub fn new(path: String, hashes: Hashes, environments: Option<Environments>) -> (r: File)
        ensures
            r.path == path,
            r.hashes == hashes,
            r.environments == environments,
    {
        File { path, hashes, environments }
    }
}

impl Hashes {
    pub fn new(sha1: String, sha512: String) -> (r: Hashes)
        ensures
            r.sha1 == sha1,
            r.sha512 == sha512,
    {
        Hashes { sha1, sha512 }
    }
}

impl Dependencies {
    /// Minecraft with Forge.
    pub fn forge(minecraft: String, forge: String) -> (r: Dependencies)
        ensures
            r.minecraft == minecraft,
            r.forge == Some(forge),
            r.fabric is None,
            r.quilt is None,
    {
        Dependencies { minecraft, forge: Some(forge), fabric: None, quilt: None }
    }

    /// Minecraft with the Fabric loader.
    pub fn fabric(minecraft: String, fabric: String) -> (r: Dependencies)
        ensures
            r.minecraft == minecraft,
            r.forge is None,
            r.fabric == Some(fabric),
            r.quilt is None,
    {
        Dependencies { minecraft, forge: None, fabric: Some(fabric), quilt: None }
    }

    /// Minecraft with the Quilt loader.
    pub fn quilt(minecraft: String, quilt: String) -> (r: Dependencies)
        ensures
            r.minecraft == minecraft,
            r.forge is None,
            r.fabric is None,
            r.quilt == Some(quilt),
    {
        Dependencies { minecraft, forge: None, fabric: None, quilt: Some(quilt) }
    }
}

} // verus!

//! The pack project as the `niter.toml` layout describes it: a name, a
//! version and the mods, each kept in a file of its own.

use crate::manifest::Manifest;
use crate::source::{first_step, BuildSource, Resolution, Source};
use vstd::prelude::*;

verus! {

#[derive(Debug)]
pub struct Project {
    pub name: String,
    pub version: String,
    pub mods: Vec<Mod>,
}

impl Project {
    /// A project with no mods.
    pub fn new(name: String, version: String) -> (r: Project)
        ensures
            r.name == name,
            r.version == version,
            r.mods@.len() == 0,
    {
        Project { name, version, mods: Vec::new() }
    }
}

/// A mod: its name, an optional file name, and where it comes from.
#[derive(Debug)]
pub struct Mod {
    pub name: String,
    pub file: Option<String>,
    pub source: Source,
}

impl Clone for Mod {
    fn clone(&self) -> (r: Mod)
        ensures
            r == *self,
    {
        Mod { name: self.name.clone(), file: crate::source::clone_text(&self.file), source: self.source.clone() }
    }
}

/// A mod's file name: known at once when the mod gives it, else found by
/// resolving the mod; the name is then that of the resolved artifact.
#[derive(Debug)]
pub enum FileName {
    Known(String),
    Resolving(Resolution),
}

/// The same mod in the project model.
pub open spec fn as_project_mod(m: Mod) -> crate::project::Mod {
    crate::project::Mod { name: m.name, file: m.file, source: m.source }
}

impl Mod {
    pub fn new(name: String, file: Option<String>, source: Source) -> (r: Mod)
        ensures
            r.name == name,
            r.file == file,
            r.source == source,
    {
        Mod { name, file, source }
    }

    /// The same mod in the project model, to go on resolving it with
    /// [`BuildSource::resume`].
    pub fn to_project_mod(&self) -> (r: crate::project::Mod)
        ensures
            r == as_project_mod(*self),
    {
        crate::project::Mod::new(self.name.clone(), crate::source::clone_text(&self.file), self.source.clone())
    }

    /// The file name this mod is stored under: the given one, with no
    /// request; else the first step of resolving the mod without filters
    /// (a direct URL resolves at once, a registry version asks the registry).
    pub fn file_or_source(&self) -> (r: FileName)
        ensures
            match self.file {
                Some(f) => r == FileName::Known(f),
                None => r matches FileName::Resolving(step) && step@ == first_step(None, None, as_project_mod(*self)),
            },
    {
        match &self.file {
            Some(file) => FileName::Known(file.clone()),
            None => {
                let unfiltered = Manifest::new(String::new(), String::new(), None, None);
                FileName::Resolving(BuildSource::generate(&unfiltered, &self.to_project_mod()))
            },
        }
    }
}

} // verus!

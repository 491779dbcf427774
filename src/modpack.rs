//! A built modpack: its name, version and the files it downloads.

use vstd::prelude::*;

verus! {

#[derive(Debug)]
pub struct Modpack {
    pub name: String,
    pub version: String,
    pub mods: Vec<Mod>,
}

/// A file of the modpack and the address it is downloaded from.
#[derive(Debug)]
pub struct Mod {
    pub file: String,
    pub download: String,
}

} // verus!

//! The `niter.toml` project layout: a main file with the pack's name and
//! version, and a `mods` directory with one file per mod.

use crate::pack::{Mod, Project};
use crate::source::{clone_text, Source};
use vstd::prelude::*;
use vstd::string::*;

verus! {

/// `part` appended to the path `base`, separated by one `/`; an absolute
/// `part` replaces `base`.
pub open spec fn joined_path(base: Seq<char>, part: Seq<char>) -> Seq<char> {
    if part.len() > 0 && part[0] == '/' {
        part
    } else if base.len() == 0 {
        part
    } else if base.last() == '/' {
        base + part
    } else {
        base + seq!['/'] + part
    }
}

/// `part` appended to the path `base` (see [`joined_path`]).
pub fn join_path(base: &str, part: &str) -> (r: String)
    ensures
        r@ == joined_path(base@, part@),
{
    proof {
        reveal_strlit("/");
    }
    let np = part.unicode_len();
    if np > 0 && part.get_char(0) == '/' {
        return part.to_string();
    }
    let nb = base.unicode_len();
    if nb == 0 {
        return part.to_string();
    }
    let mut r = base.to_string();
    if base.get_char(nb - 1) != '/' {
        r.append("/");
    }
    r.append(part);
    assert("/"@ =~= seq!['/']);
    r
}

/// The stem of a mod file's name: the name without its `.toml` extension,
/// when it has that extension after a non-empty stem.
pub open spec fn toml_stem(name: Seq<char>) -> Option<Seq<char>> {
    if name.len() > 5 && name.subrange(name.len() - 5, name.len() as int) == ".toml"@ {
        Some(name.subrange(0, name.len() - 5))
    } else {
        None
    }
}

/// The stems of the mod file names among `names`, in order.
pub open spec fn toml_stems(names: Seq<Seq<char>>) -> Seq<Seq<char>>
    decreases names.len(),
{
    if names.len() == 0 {
        Seq::empty()
    } else {
        match toml_stem(names.last()) {
            Some(s) => toml_stems(names.drop_last()).push(s),
            None => toml_stems(names.drop_last()),
        }
    }
}

/// The mod name a file name stands for, if it is a mod file.
pub fn mod_file_stem(name: &str) -> (r: Option<String>)
    ensures
        crate::source::opt_view(r) == toml_stem(name@),
{
    let n = name.unicode_len();
    if n <= 5 {
        return None;
    }
    let suffix = name.substring_char(n - 5, n).to_string();
    if suffix == String::from_str(".toml") {
        Some(name.substring_char(0, n - 5).to_string())
    } else {
        None
    }
}

/// The mods of a project, named by the stems of the mod files found among
/// the file names of its mods directory.
pub fn mod_names(file_names: &Vec<String>) -> (r: Vec<String>)
    ensures
        crate::modrinth::texts(r@) == toml_stems(crate::modrinth::texts(file_names@)),
{
    let ghost names = crate::modrinth::texts(file_names@);
    let mut result: Vec<String> = Vec::new();
    let mut i: usize = 0;
    while i < file_names.len()
        invariant
            names == crate::modrinth::texts(file_names@),
            i <= file_names@.len(),
            crate::modrinth::texts(result@) == toml_stems(names.subrange(0, i as int)),
        decreases file_names@.len() - i,
    {
        let ghost prefix = names.subrange(0, i as int + 1);
        proof {
            assert(prefix.drop_last() =~= names.subrange(0, i as int));
            assert(prefix.last() == file_names@[i as int]@);
        }
        if let Some(stem) = mod_file_stem(file_names[i].as_str()) {
            result.push(stem);
        }
        proof {
            assert(crate::modrinth::texts(result@) =~= toml_stems(prefix));
        }
        i = i + 1;
    }
    proof {
        assert(names.subrange(0, i as int) =~= names);
    }
    result
}

/// The main file: the pack's `[modpack]` table.
#[derive(Debug)]
pub struct MainFile {
    pub modpack: Modpack,
}

#[derive(Debug)]
pub struct Modpack {
    pub name: String,
    pub version: String,
}

impl MainFile {
    pub fn new(modpack: Modpack) -> (r: MainFile)
        ensures
            r.modpack == modpack,
    {
        MainFile { modpack }
    }

    /// Where the main file of the project in `path` lives.
    pub fn in_path(path: &str) -> (r: String)
        ensures
            r@ == joined_path(path@, "niter.toml"@),
    {
        join_path(path, "niter.toml")
    }
}

impl Modpack {
    pub fn new(name: String, version: String) -> (r: Modpack)
        ensures
            r.name == name,
            r.version == version,
    {
        Modpack { name, version }
    }
}

impl From<Project> for MainFile {
    fn from(value: Project) -> (r: MainFile)
        ensures
            r == (MainFile { modpack: Modpack { name: value.name, version: value.version } }),
    {
        MainFile::new(Modpack::new(value.name, value.version))
    }
}

impl vstd::std_specs::convert::FromSpecImpl<Project> for MainFile {
    open spec fn obeys_from_spec() -> bool {
        true
    }

    open spec fn from_spec(v: Project) -> MainFile {
        MainFile { modpack: Modpack { name: v.name, version: v.version } }
    }
}

/// A mod file: the mod's name (else the file's own name stands for it), an
/// optional file name, and its source.
#[derive(Debug)]
pub struct ModFile {
    pub name: Option<String>,
    pub file: Option<String>,
    pub source: Source,
}

impl ModFile {
    /// The mod this file describes; `f` names it when the file does not.
    pub fn to_mod<F>(&self, f: F) -> (r: Mod)
        where
            F: FnOnce() -> String,
        requires
            self.name is None ==> f.requires(()),
        ensures
            match self.name {
                Some(n) => r.name == n,
                None => f.ensures((), r.name),
            },
            r.file == self.file,
            r.source == self.source,
    {
        let name = match &self.name {
            Some(n) => n.clone(),
            None => f(),
        };
        Mod { name, file: clone_text(&self.file), source: self.source.clone() }
    }
}

impl From<Mod> for ModFile {
    fn from(value: Mod) -> (r: ModFile)
        ensures
            r == (ModFile { name: Some(value.name), file: value.file, source: value.source }),
    {
        ModFile { name: Some(value.name), source: value.source, file: value.file }
    }
}

impl vstd::std_specs::convert::FromSpecImpl<Mod> for ModFile {
    open spec fn obeys_from_spec() -> bool {
        true
    }

    open spec fn from_spec(v: Mod) -> ModFile {
        ModFile { name: Some(v.name), file: v.file, source: v.source }
    }
}

/// A project directory as read: its main file and where it lies.
#[derive(Debug)]
pub struct ProjectFormatter {
    pub main_file: MainFile,
    pub path: String,
}

impl ProjectFormatter {
    /// The directory that holds the mod files.
    pub fn mods_path(&self) -> (r: String)
        ensures
            r@ == joined_path(self.path@, "mods"@),
    {
        join_path(self.path.as_str(), "mods")
    }
}

/// The mod described by `file`, named `name` when the file names no mod.
pub open spec fn mod_of(name: String, file: ModFile) -> Mod {
    Mod {
        name: match file.name {
            Some(n) => n,
            None => name,
        },
        file: file.file,
        source: file.source,
    }
}

/// The project read from its main file and its mod files, each given with
/// the name of the file it was read from.
pub fn format_all(main_file: MainFile, mods: Vec<(String, ModFile)>) -> (r: Project)
    ensures
        r.name == main_file.modpack.name,
        r.version == main_file.modpack.version,
        r.mods@.len() == mods@.len(),
        forall|i: int| 0 <= i < mods@.len() ==> (#[trigger] r.mods@[i]) == mod_of(mods@[i].0, mods@[i].1),
{
    let mut result: Vec<Mod> = Vec::new();
    let mut i: usize = 0;
    while i < mods.len()
        invariant
            i <= mods@.len(),
            result@.len() == i,
            forall|j: int| 0 <= j < i ==> (#[trigger] result@[j]) == mod_of(mods@[j].0, mods@[j].1),
        decreases mods@.len() - i,
    {
        let name = &mods[i].0;
        let m = mods[i].1.to_mod(|| -> (n: String)
            ensures
                n == *name,
            { name.clone() });
        result.push(m);
        i = i + 1;
    }
    Project { name: main_file.modpack.name, version: main_file.modpack.version, mods: result }
}

/// The files that describe `project`: its main file, and for each mod, its
/// name (the file's stem) with its mod file.
pub fn create_all(project: &Project) -> (r: (MainFile, Vec<(String, ModFile)>))
    ensures
        r.0.modpack.name == project.name,
        r.0.modpack.version == project.version,
        r.1@.len() == project.mods@.len(),
        forall|i: int| 0 <= i < r.1@.len() ==> {
            let m = project.mods@[i];
            (#[trigger] r.1@[i]) == (m.name, ModFile { name: Some(m.name), file: m.file, source: m.source })
        },
{
    let main_file = MainFile::new(Modpack::new(project.name.clone(), project.version.clone()));
    let mut files: Vec<(String, ModFile)> = Vec::new();
    let mut i: usize = 0;
    while i < project.mods.len()
        invariant
            i <= project.mods@.len(),
            files@.len() == i,
            forall|j: int| 0 <= j < i ==> {
                let m = project.mods@[j];
                (#[trigger] files@[j]) == (m.name, ModFile { name: Some(m.name), file: m.file, source: m.source })
            },
        decreases project.mods@.len() - i,
    {
        let m = project.mods[i].clone();
        let name = m.name.clone();
        files.push((name, ModFile::from(m)));
        i = i + 1;
    }
    (main_file, files)
}

} // verus!

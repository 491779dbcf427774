//! A modpack project: its manifest and the mods it references.

use crate::manifest::Manifest;
use crate::source::{start_spec, BuildSource, Resolution, Source, SourceError};
use vstd::prelude::*;

verus! {

/// A mod of the project: its name (unique within the project), an optional
/// file name that overrides the resolved one, and where it comes from.
#[derive(Debug, Clone)]
pub struct Mod {
    pub name: String,
    pub file: Option<String>,
    pub source: Source,
}

/// A project: its manifest, its mods, and the directory of configuration
/// files copied into each build, if any.
#[derive(Debug, Clone)]
pub struct Project {
    pub manifest: Manifest,
    pub mods: Vec<Mod>,
    pub config_dir: Option<String>,
}

impl Mod {
    pub fn new(name: String, file: Option<String>, source: Source) -> (r: Mod)
        ensures
            r.name == name,
            r.file == file,
            r.source == source,
    {
        Mod { name, file, source }
    }

    /// First step of resolving this mod into an artifact.
    pub fn build_source(&self, manifest: &Manifest) -> (r: Resolution)
        ensures
            r@ == start_spec(*manifest, *self),
    {
        BuildSource::generate(manifest, self)
    }
}

impl Project {
    pub fn new(manifest: Manifest, mods: Vec<Mod>, config_dir: Option<String>) -> (r: Project)
        ensures
            r.manifest == manifest,
            r.mods == mods,
            r.config_dir == config_dir,
    {
        Project { manifest, mods, config_dir }
    }

    /// First resolution step of every mod, in the order of the mods.
    pub fn build_sources(&self) -> (r: Vec<Resolution>)
        ensures
            r@.len() == self.mods@.len(),
            forall|i: int| 0 <= i < r@.len() ==> (#[trigger] r@[i])@ == start_spec(self.manifest, self.mods@[i]),
    {
        let mut result: Vec<Resolution> = Vec::new();
        let mut i: usize = 0;
        while i < self.mods.len()
            invariant
                i <= self.mods@.len(),
                result@.len() == i,
                forall|j: int| 0 <= j < i ==> (#[trigger] result@[j])@ == start_spec(self.manifest, self.mods@[j]),
            decreases self.mods@.len() - i,
        {
            result.push(self.mods[i].build_source(&self.manifest));
            i = i + 1;
        }
        result
    }
}


/// Index of the first failed resolution, if any.
pub open spec fn first_failure(results: Seq<Result<BuildSource, SourceError>>) -> Option<int> {
    if exists|i: int| 0 <= i < results.len() && (#[trigger] results[i]) is Err
        && forall|j: int| 0 <= j < i ==> (#[trigger] results[j]) is Ok {
        Some(choose|i: int| 0 <= i < results.len() && (#[trigger] results[i]) is Err
            && forall|j: int| 0 <= j < i ==> (#[trigger] results[j]) is Ok)
    } else {
        None
    }
}

/// The artifacts of all mods, in order, or the first mod's failure: one
/// failure aborts the build.
pub fn collect_sources(results: Vec<Result<BuildSource, SourceError>>) -> (r: Result<Vec<BuildSource>, SourceError>)
    ensures
        match first_failure(results@) {
            Some(i) => r == Err::<Vec<BuildSource>, SourceError>(results@[i]->Err_0),
            None => r matches Ok(v) && v@.len() == results@.len()
                && forall|i: int| 0 <= i < v@.len() ==> results@[i] == Ok::<BuildSource, SourceError>(#[trigger] v@[i]),
        },
{
    let total = results.len();
    let ghost orig = results@;
    let mut rest = results;
    let mut out: Vec<BuildSource> = Vec::new();
    let mut n: usize = 0;
    while rest.len() > 0
        invariant
            n + rest@.len() == orig.len(),
            orig.len() <= usize::MAX,
            orig == results@,
            rest@ == orig.subrange(n as int, orig.len() as int),
            out@.len() == n,
            forall|j: int| 0 <= j < n ==> orig[j] == Ok::<BuildSource, SourceError>(#[trigger] out@[j]),
        decreases rest@.len(),
    {
        let item = rest.remove(0);
        assert(item == orig[n as int]);
        match item {
            Ok(b) => {
                out.push(b);
                n = n + 1;
            },
            Err(e) => {
                proof {
                    let i = n as int;
                    assert forall|j: int| 0 <= j < i implies (#[trigger] orig[j]) is Ok by {
                        assert(orig[j] == Ok::<BuildSource, SourceError>(out@[j]));
                    }
                    assert(orig[i] is Err);
                    assert(0 <= i < orig.len() && (#[trigger] orig[i]) is Err
                        && forall|j: int| 0 <= j < i ==> (#[trigger] orig[j]) is Ok);
                    let k = choose|k: int| 0 <= k < orig.len() && (#[trigger] orig[k]) is Err
                        && forall|j: int| 0 <= j < k ==> (#[trigger] orig[j]) is Ok;
                    if k < i {
                        assert(orig[k] == Ok::<BuildSource, SourceError>(out@[k]));
                    }
                    if i < k {
                        assert(orig[i] is Ok);
                    }
                }
                return Err(e);
            },
        }
    }
    proof {
        if exists|i: int| 0 <= i < orig.len() && (#[trigger] orig[i]) is Err
            && forall|j: int| 0 <= j < i ==> (#[trigger] orig[j]) is Ok {
            let k = choose|k: int| 0 <= k < orig.len() && (#[trigger] orig[k]) is Err
                && forall|j: int| 0 <= j < k ==> (#[trigger] orig[j]) is Ok;
            assert(orig[k] == Ok::<BuildSource, SourceError>(out@[k]));
        }
    }
    Ok(out)
}

} // verus!

//! Registry records in their short form (files without digests), and the
//! lookups that answer "not found" locally for malformed references.

use crate::modrinth::{check_id, check_slug, is_id, is_slug, RegistryRequest, RequestView};
use vstd::prelude::*;

verus! {

#[derive(Debug)]
pub struct ModrinthProject {
    pub slug: String,
    pub id: String,
    pub project_type: ModrinthProjectType,
    pub versions: Vec<String>,
}

#[derive(Debug, Clone, Copy, PartialEq, Eq, Structural)]
pub enum ModrinthProjectType {
    Mod,
    Modpack,
    ResourcePack,
    Shader,
}

#[derive(Debug)]
pub struct ModrinthVersion {
    pub id: String,
    pub name: String,
    pub version_number: String,
    pub files: Vec<ModrinthVersionFile>,
}

#[derive(Debug)]
pub struct ModrinthVersionFile {
    pub url: String,
    pub filename: String,
    pub primary: bool,
}

/// `i` is the first file flagged primary.
pub open spec fn is_first_flagged(files: Seq<ModrinthVersionFile>, i: int) -> bool {
    &&& 0 <= i < files.len()
    &&& files[i].primary
    &&& forall|j: int| 0 <= j < i ==> !(#[trigger] files[j]).primary
}

/// Index of the file that stands for a version: the first one flagged
/// primary, else the first one; none for an empty list.
pub open spec fn flagged_index(files: Seq<ModrinthVersionFile>) -> Option<int> {
    if exists|i: int| is_first_flagged(files, i) {
        Some(choose|i: int| is_first_flagged(files, i))
    } else if files.len() > 0 {
        Some(0)
    } else {
        None
    }
}

impl ModrinthVersion {
    /// The file flagged primary; the first file when none is flagged.
    pub fn primary_file(&self) -> (r: Option<&ModrinthVersionFile>)
        ensures
            r is Some <==> self.files@.len() > 0,
            r matches Some(f) ==> flagged_index(self.files@) matches Some(i) && *f == self.files@[i],
    {
        let mut i: usize = 0;
        while i < self.files.len()
            invariant
                i <= self.files@.len(),
                forall|j: int| 0 <= j < i ==> !(#[trigger] self.files@[j]).primary,
            decreases self.files@.len() - i,
        {
            if self.files[i].primary {
                proof {
                    assert(is_first_flagged(self.files@, i as int));
                    let k = choose|k: int| is_first_flagged(self.files@, k);
                    if k < i {
                        assert(!self.files@[k].primary);
                    } else if i < k {
                        assert(!self.files@[i as int].primary);
                    }
                }
                return Some(&self.files[i]);
            }
            i = i + 1;
        }
        if self.files.len() > 0 {
            assert(!exists|k: int| is_first_flagged(self.files@, k));
            Some(&self.files[0])
        } else {
            None
        }
    }
}

/// Request for the version with identifier `id`, or `None` when `id` is not
/// shaped like an identifier (no such version can exist).
pub fn get_version(id: &str) -> (r: Option<RegistryRequest>)
    ensures
        r is Some <==> is_id(id@),
        r matches Some(q) ==> q@ == (RequestView { path: seq!["version"@, id@], query: Seq::empty() }),
{
    if !check_id(id) {
        return None;
    }
    match crate::modrinth::version(id) {
        Ok(q) => Some(q),
        Err(_) => None,
    }
}

/// Request for the project with slug or identifier `id`, or `None` when `id`
/// is not a well-formed slug (no such project can exist).
pub fn get_project(id: &str) -> (r: Option<RegistryRequest>)
    ensures
        r is Some <==> is_slug(id@),
        r matches Some(q) ==> q@ == (RequestView { path: seq!["project"@, id@], query: Seq::empty() }),
{
    if !check_slug(id) {
        return None;
    }
    match crate::modrinth::project(id) {
        Ok(q) => Some(q),
        Err(_) => None,
    }
}

} // verus!

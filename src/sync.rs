//! Build synchronizer: reconciles a mods directory with the desired artifacts.
//!
//! The reconciliation is split in two. [`plan`] is a pure function of the
//! desired artifacts and a listing of the directory; it classifies every
//! existing file (keep, stale, orphan) and every desired artifact without a
//! file (new). Applying the plan (deleting, then downloading) is left to the
//! caller, which checks each download with [`accept_download`].

use crate::modrinth::texts;
use crate::source::{BuildSource, BuildSourceView};
use vstd::prelude::*;

verus! {

/// Why applying a plan failed; each names the file involved.
#[derive(Debug, Clone)]
pub enum SyncError {
    /// Fetching the artifact failed.
    DownloadFailed { name: String, file: String },
    /// The fetched bytes do not have the digest the artifact claims.
    HashMismatchAfterDownload { name: String, file: String },
    /// Creating, deleting or writing a file failed.
    FilesystemError { file: String },
}

/// The SHA-512 digest of `data`.
pub uninterp spec fn sha512_of(data: Seq<u8>) -> Seq<u8>;

/// Relies on sha2::Sha512::digest: the 64-byte SHA-512 digest of the data.
#[verifier::external_body]
fn sha512_digest(data: &[u8]) -> (r: Vec<u8>)
    ensures
        r@ == sha512_of(data@),
        r@.len() == 64,
{
    <sha2::Sha512 as sha2::Digest>::digest(data).to_vec()
}

pub open spec fn hex_digit(n: int) -> char {
    seq!['0', '1', '2', '3', '4', '5', '6', '7', '8', '9', 'a', 'b', 'c', 'd', 'e', 'f'][n]
}

/// Two lower-case hex digits per byte, high half first.
pub open spec fn hex_lower(b: Seq<u8>) -> Seq<char>
    decreases b.len(),
{
    if b.len() == 0 {
        Seq::empty()
    } else {
        hex_lower(b.drop_last()) + seq![hex_digit(b.last() as int / 16), hex_digit(b.last() as int % 16)]
    }
}

/// Relies on hex::encode: each byte as two lower-case hex digits, in order.
#[verifier::external_body]
fn hex_encode(data: &[u8]) -> (r: String)
    ensures
        r@ == hex_lower(data@),
{
    hex::encode(data)
}

/// The content digest of a file's bytes: SHA-512 in lower-case hex.
pub fn sha512_hex(data: &[u8]) -> (r: String)
    ensures
        r@ == hex_lower(sha512_of(data@)),
{
    let digest = sha512_digest(data);
    hex_encode(digest.as_slice())
}

/// Whether fetched bytes with content digest `digest` may be stored for
/// `artifact`: always when it claims no digest, else only when the digests
/// agree.
pub fn accept_download(artifact: &BuildSource, digest: &String) -> (r: Result<(), SyncError>)
    ensures
        r is Ok <==> (artifact@.sha512 matches Some(h) ==> h == digest@),
        r matches Err(e) ==> e matches SyncError::HashMismatchAfterDownload { name, file }
            && name@ == artifact.name@ && file@ == artifact.file@,
{
    match &artifact.sha512 {
        Some(h) => if *h == *digest {
            Ok(())
        } else {
            Err(SyncError::HashMismatchAfterDownload { name: artifact.name.clone(), file: artifact.file.clone() })
        },
        None => Ok(()),
    }
}

/// Checks fetched bytes against the digest `artifact` claims; the digest is
/// only computed when one is claimed.
pub fn check_download(artifact: &BuildSource, data: &[u8]) -> (r: Result<(), SyncError>)
    ensures
        r is Ok <==> (artifact@.sha512 matches Some(h) ==> h == hex_lower(sha512_of(data@))),
        r matches Err(e) ==> e matches SyncError::HashMismatchAfterDownload { name, file }
            && name@ == artifact.name@ && file@ == artifact.file@,
{
    if artifact.sha512.is_none() {
        return Ok(());
    }
    let digest = sha512_hex(data);
    accept_download(artifact, &digest)
}

/// A file found in the mods directory, with its content digest (SHA-512, hex)
/// when it was computed. The digest is only needed where a desired artifact
/// of that name claims one (see [`needs_hash`]).
#[derive(Debug, Clone)]
pub struct LocalFile {
    pub name: String,
    pub hash: Option<String>,
}

pub struct LocalFileView {
    pub name: Seq<char>,
    pub hash: Option<Seq<char>>,
}

impl View for LocalFile {
    type V = LocalFileView;

    open spec fn view(&self) -> LocalFileView {
        LocalFileView { name: self.name@, hash: crate::source::opt_view(self.hash) }
    }
}

/// What to do to the directory: files left alone, files deleted (orphans
/// and stale ones, in listing order), and artifacts fetched (those replacing
/// stale files, in listing order, then those with no file, in desired order).
/// Deletions come before downloads.
#[derive(Debug)]
pub struct SyncPlan {
    pub keep: Vec<String>,
    pub remove: Vec<String>,
    pub download: Vec<BuildSource>,
}

pub open spec fn artifact_views(s: Seq<BuildSource>) -> Seq<BuildSourceView> {
    s.map_values(|b: BuildSource| b@)
}

pub open spec fn file_views(s: Seq<LocalFile>) -> Seq<LocalFileView> {
    s.map_values(|f: LocalFile| f@)
}

/// `i` is the first desired artifact stored under `name`.
pub open spec fn is_first_file(d: Seq<BuildSourceView>, name: Seq<char>, i: int) -> bool {
    &&& 0 <= i < d.len()
    &&& d[i].file == name
    &&& forall|j: int| 0 <= j < i ==> (#[trigger] d[j]).file != name
}

/// The desired artifact that a file of this name stands for: the first one
/// stored under the name.
pub open spec fn file_index(d: Seq<BuildSourceView>, name: Seq<char>) -> Option<int> {
    if exists|i: int| is_first_file(d, name, i) {
        Some(choose|i: int| is_first_file(d, name, i))
    } else {
        None
    }
}

/// An existing file is kept when a desired artifact has its name and either
/// claims no digest (presence is enough) or claims the file's own digest.
pub open spec fn keeps(d: Seq<BuildSourceView>, e: LocalFileView) -> bool {
    match file_index(d, e.name) {
        Some(i) => match d[i].sha512 {
            Some(h) => e.hash == Some(h),
            None => true,
        },
        None => false,
    }
}

/// An existing file is stale when a desired artifact has its name but the
/// file is not kept.
pub open spec fn is_stale(d: Seq<BuildSourceView>, e: LocalFileView) -> bool {
    file_index(d, e.name) is Some && !keeps(d, e)
}

/// Names of the files kept, in listing order.
pub open spec fn kept_names(d: Seq<BuildSourceView>, l: Seq<LocalFileView>) -> Seq<Seq<char>>
    decreases l.len(),
{
    if l.len() == 0 {
        Seq::empty()
    } else if keeps(d, l.last()) {
        kept_names(d, l.drop_last()).push(l.last().name)
    } else {
        kept_names(d, l.drop_last())
    }
}

/// Names of the files deleted (orphans and stale files), in listing order.
pub open spec fn removed_names(d: Seq<BuildSourceView>, l: Seq<LocalFileView>) -> Seq<Seq<char>>
    decreases l.len(),
{
    if l.len() == 0 {
        Seq::empty()
    } else if keeps(d, l.last()) {
        removed_names(d, l.drop_last())
    } else {
        removed_names(d, l.drop_last()).push(l.last().name)
    }
}

/// The artifacts that replace stale files, in listing order.
pub open spec fn replaced(d: Seq<BuildSourceView>, l: Seq<LocalFileView>) -> Seq<BuildSourceView>
    decreases l.len(),
{
    if l.len() == 0 {
        Seq::empty()
    } else if is_stale(d, l.last()) {
        replaced(d, l.drop_last()).push(target(d, l.last()))
    } else {
        replaced(d, l.drop_last())
    }
}

/// The desired artifact that an existing file stands for.
pub open spec fn target(d: Seq<BuildSourceView>, e: LocalFileView) -> BuildSourceView {
    d[file_index(d, e.name)->0]
}

/// Some existing file has this name.
pub open spec fn named(l: Seq<LocalFileView>, name: Seq<char>) -> bool {
    exists|k: int| 0 <= k < l.len() && (#[trigger] l[k]).name == name
}

/// The desired artifacts that no existing file stands for, in desired order.
pub open spec fn missing(d: Seq<BuildSourceView>, l: Seq<LocalFileView>) -> Seq<BuildSourceView>
    decreases d.len(),
{
    if d.len() == 0 {
        Seq::empty()
    } else if named(l, d.last().file) {
        missing(d.drop_last(), l)
    } else {
        missing(d.drop_last(), l).push(d.last())
    }
}

/// The artifacts fetched: those replacing stale files, then the missing ones.
pub open spec fn planned_downloads(d: Seq<BuildSourceView>, l: Seq<LocalFileView>) -> Seq<BuildSourceView> {
    replaced(d, l) + missing(d, l)
}

/// Index of the first desired artifact stored under `name`.
pub fn find_file(desired: &Vec<BuildSource>, name: &String) -> (r: Option<usize>)
    ensures
        match r {
            Some(i) => file_index(artifact_views(desired@), name@) == Some(i as int),
            None => file_index(artifact_views(desired@), name@) is None,
        },
{
    let ghost d = artifact_views(desired@);
    let mut i: usize = 0;
    while i < desired.len()
        invariant
            d == artifact_views(desired@),
            i <= desired@.len(),
            forall|j: int| 0 <= j < i ==> (#[trigger] d[j]).file != name@,
        decreases desired@.len() - i,
    {
        if desired[i].file == *name {
            proof {
                assert(is_first_file(d, name@, i as int));
                let k = choose|k: int| is_first_file(d, name@, k);
                lemma_first_file_unique(d, name@, i as int, k);
            }
            return Some(i);
        }
        i = i + 1;
    }
    proof {
        if exists|k: int| is_first_file(d, name@, k) {
            let k = choose|k: int| is_first_file(d, name@, k);
            assert(d[k].file == name@);
        }
    }
    None
}

pub proof fn lemma_first_file_unique(d: Seq<BuildSourceView>, name: Seq<char>, i: int, k: int)
    requires
        is_first_file(d, name, i),
        is_first_file(d, name, k),
    ensures
        i == k,
{
    if i < k {
        assert(d[i].file != name);
    } else if k < i {
        assert(d[k].file != name);
    }
}

/// Whether the digest of an existing file called `name` is needed: a desired
/// artifact of that name claims a digest.
pub fn needs_hash(desired: &Vec<BuildSource>, name: &String) -> (r: bool)
    ensures
        r == (file_index(artifact_views(desired@), name@) matches Some(i)
            && artifact_views(desired@)[i].sha512 is Some),
{
    match find_file(desired, name) {
        Some(i) => desired[i].sha512.is_some(),
        None => false,
    }
}

fn is_named(local: &Vec<LocalFile>, name: &String) -> (r: bool)
    ensures
        r == named(file_views(local@), name@),
{
    let ghost l = file_views(local@);
    let mut k: usize = 0;
    while k < local.len()
        invariant
            l == file_views(local@),
            k <= local@.len(),
            forall|j: int| 0 <= j < k ==> (#[trigger] l[j]).name != name@,
        decreases local@.len() - k,
    {
        if local[k].name == *name {
            assert(l[k as int].name == name@);
            return true;
        }
        k = k + 1;
    }
    false
}

/// Reconciliation plan for the directory listing `local` against the
/// desired artifacts.
pub fn plan(desired: &Vec<BuildSource>, local: &Vec<LocalFile>) -> (r: SyncPlan)
    ensures
        texts(r.keep@) == kept_names(artifact_views(desired@), file_views(local@)),
        texts(r.remove@) == removed_names(artifact_views(desired@), file_views(local@)),
        artifact_views(r.download@) == planned_downloads(artifact_views(desired@), file_views(local@)),
{
    let ghost d = artifact_views(desired@);
    let ghost l = file_views(local@);
    let mut keep: Vec<String> = Vec::new();
    let mut remove: Vec<String> = Vec::new();
    let mut download: Vec<BuildSource> = Vec::new();
    let mut k: usize = 0;
    while k < local.len()
        invariant
            d == artifact_views(desired@),
            l == file_views(local@),
            k <= local@.len(),
            texts(keep@) == kept_names(d, l.subrange(0, k as int)),
            texts(remove@) == removed_names(d, l.subrange(0, k as int)),
            artifact_views(download@) == replaced(d, l.subrange(0, k as int)),
        decreases local@.len() - k,
    {
        let entry = &local[k];
        let ghost prefix = l.subrange(0, k as int + 1);
        proof {
            assert(prefix.drop_last() =~= l.subrange(0, k as int));
            assert(prefix.last() == entry@);
        }
        let kept = match find_file(desired, &entry.name) {
            Some(i) => {
                let keep_it = match &desired[i].sha512 {
                    Some(h) => match &entry.hash {
                        Some(x) => *x == *h,
                        None => false,
                    },
                    None => true,
                };
                if !keep_it {
                    download.push(desired[i].clone());
                }
                keep_it
            },
            None => false,
        };
        if kept {
            keep.push(entry.name.clone());
        } else {
            remove.push(entry.name.clone());
        }
        proof {
            assert(kept == keeps(d, entry@));
            assert(texts(keep@) =~= kept_names(d, prefix));
            assert(texts(remove@) =~= removed_names(d, prefix));
            assert(artifact_views(download@) =~= replaced(d, prefix));
        }
        k = k + 1;
    }
    proof {
        assert(l.subrange(0, k as int) =~= l);
    }
    let ghost stale_part = artifact_views(download@);
    let mut i: usize = 0;
    while i < desired.len()
        invariant
            d == artifact_views(desired@),
            l == file_views(local@),
            i <= desired@.len(),
            stale_part == replaced(d, l),
            artifact_views(download@) == stale_part + missing(d.subrange(0, i as int), l),
        decreases desired@.len() - i,
    {
        let ghost prefix = d.subrange(0, i as int + 1);
        proof {
            assert(prefix.drop_last() =~= d.subrange(0, i as int));
            assert(prefix.last() == desired@[i as int]@);
        }
        let ghost before = artifact_views(download@);
        if !is_named(local, &desired[i].file) {
            download.push(desired[i].clone());
            proof {
                assert(!named(l, prefix.last().file));
                assert(missing(prefix, l) == missing(d.subrange(0, i as int), l).push(prefix.last()));
                assert(artifact_views(download@) =~= before.push(prefix.last()));
            }
        } else {
            proof {
                assert(named(l, prefix.last().file));
                assert(missing(prefix, l) == missing(d.subrange(0, i as int), l));
            }
        }
        proof {
            assert(artifact_views(download@) =~= stale_part + missing(prefix, l));
        }
        i = i + 1;
    }
    proof {
        assert(d.subrange(0, i as int) =~= d);
    }
    SyncPlan { keep, remove, download }
}


/// Some artifact of `d` is stored under `name`.
pub open spec fn has_file(d: Seq<BuildSourceView>, name: Seq<char>) -> bool {
    exists|j: int| 0 <= j < d.len() && (#[trigger] d[j]).file == name
}

/// The artifacts of `d` that come first under their file name, in order.
pub open spec fn first_of_each(d: Seq<BuildSourceView>) -> Seq<BuildSourceView>
    decreases d.len(),
{
    if d.len() == 0 {
        Seq::empty()
    } else if has_file(d.drop_last(), d.last().file) {
        first_of_each(d.drop_last())
    } else {
        first_of_each(d.drop_last()).push(d.last())
    }
}

proof fn lemma_first_of_each(d: Seq<BuildSourceView>)
    ensures
        distinct_files(first_of_each(d)),
        forall|j: int| 0 <= j < first_of_each(d).len() ==> exists|i: int| 0 <= i < d.len() && (#[trigger] first_of_each(d)[j]) == d[i],
        forall|i: int| 0 <= i < d.len() ==> has_file(first_of_each(d), #[trigger] d[i].file),
    decreases d.len(),
{
    if d.len() > 0 {
        let p = d.drop_last();
        lemma_first_of_each(p);
        let r = first_of_each(d);
        let rp = first_of_each(p);
        assert forall|j: int| 0 <= j < r.len() implies exists|i: int| 0 <= i < d.len() && (#[trigger] r[j]) == d[i] by {
            if j < rp.len() {
                let i = choose|i: int| 0 <= i < p.len() && (#[trigger] rp[j]) == p[i];
                assert(d[i] == p[i]);
                assert(r[j] == rp[j]);
            } else {
                assert(r[j] == d[d.len() - 1]);
            }
        }
        assert forall|i: int| 0 <= i < d.len() implies has_file(r, #[trigger] d[i].file) by {
            if i < p.len() {
                assert(p[i] == d[i]);
                assert(has_file(rp, p[i].file));
                let j = choose|j: int| 0 <= j < rp.len() && (#[trigger] rp[j]).file == p[i].file;
                assert(r[j] == rp[j]);
            } else if has_file(p, d.last().file) {
                let i2 = choose|i2: int| 0 <= i2 < p.len() && (#[trigger] p[i2]).file == d.last().file;
                assert(has_file(rp, p[i2].file));
                assert(d[i] == d.last());
            } else {
                assert(r[rp.len() as int] == d[i]);
            }
        }
        if !has_file(p, d.last().file) {
            assert forall|a: int, b: int| 0 <= a < r.len() && 0 <= b < r.len() && a != b implies r[a].file != r[b].file by {
                if a < rp.len() && b < rp.len() {
                    assert(r[a] == rp[a] && r[b] == rp[b]);
                } else if a < rp.len() {
                    let i = choose|i: int| 0 <= i < p.len() && (#[trigger] rp[a]) == p[i];
                    assert(r[a] == rp[a]);
                    assert(p[i].file != d.last().file);
                } else {
                    let i = choose|i: int| 0 <= i < p.len() && (#[trigger] rp[b]) == p[i];
                    assert(r[b] == rp[b]);
                    assert(p[i].file != d.last().file);
                }
            }
        }
    }
}

/// The artifacts with one per file name: where several share a name, the
/// first one wins.
pub fn distinct_by_file(sources: &Vec<BuildSource>) -> (r: Vec<BuildSource>)
    ensures
        artifact_views(r@) == first_of_each(artifact_views(sources@)),
        distinct_files(artifact_views(r@)),
        files_of(artifact_views(r@)).to_set() == files_of(artifact_views(sources@)).to_set(),
{
    let ghost d = artifact_views(sources@);
    let mut result: Vec<BuildSource> = Vec::new();
    let mut i: usize = 0;
    while i < sources.len()
        invariant
            d == artifact_views(sources@),
            i <= sources@.len(),
            artifact_views(result@) == first_of_each(d.subrange(0, i as int)),
        decreases sources@.len() - i,
    {
        let ghost prefix = d.subrange(0, i as int + 1);
        proof {
            assert(prefix.drop_last() =~= d.subrange(0, i as int));
            assert(prefix.last() == sources@[i as int]@);
        }
        let mut seen = false;
        let mut j: usize = 0;
        while j < i
            invariant
                d == artifact_views(sources@),
                j <= i,
                i < sources@.len(),
                seen == has_file(d.subrange(0, j as int), d[i as int].file),
            decreases i - j,
        {
            proof {
                let q = d.subrange(0, j as int + 1);
                if has_file(q, d[i as int].file) {
                    let w = choose|w: int| 0 <= w < q.len() && (#[trigger] q[w]).file == d[i as int].file;
                    if w < j {
                        assert(d.subrange(0, j as int)[w] == q[w]);
                    }
                }
                if has_file(d.subrange(0, j as int), d[i as int].file) {
                    let w = choose|w: int| 0 <= w < j && (#[trigger] d.subrange(0, j as int)[w]).file == d[i as int].file;
                    assert(q[w] == d.subrange(0, j as int)[w]);
                }
                assert(q[j as int] == d[j as int]);
            }
            if sources[j].file == sources[i].file {
                seen = true;
            }
            j = j + 1;
        }
        if !seen {
            result.push(sources[i].clone());
        }
        proof {
            assert(artifact_views(result@) =~= first_of_each(prefix));
        }
        i = i + 1;
    }
    proof {
        assert(d.subrange(0, i as int) =~= d);
        lemma_first_of_each(d);
        let r = first_of_each(d);
        assert forall|x: Seq<char>| files_of(r).to_set().contains(x) <==> files_of(d).to_set().contains(x) by {
            if files_of(r).to_set().contains(x) {
                let j = choose|j: int| 0 <= j < files_of(r).len() && files_of(r)[j] == x;
                let i = choose|i: int| 0 <= i < d.len() && (#[trigger] r[j]) == d[i];
                assert(files_of(d)[i] == x);
            }
            if files_of(d).to_set().contains(x) {
                let i = choose|i: int| 0 <= i < files_of(d).len() && files_of(d)[i] == x;
                assert(has_file(r, d[i].file));
                let j = choose|j: int| 0 <= j < r.len() && (#[trigger] r[j]).file == d[i].file;
                assert(files_of(r)[j] == x);
            }
        }
        assert(files_of(r).to_set() =~= files_of(d).to_set());
    }
    result
}

/// No two desired artifacts share a file name.
pub open spec fn distinct_files(d: Seq<BuildSourceView>) -> bool {
    forall|a: int, b: int| 0 <= a < d.len() && 0 <= b < d.len() && a != b ==> d[a].file != d[b].file
}

/// No two listed files share a name (as in any directory).
pub open spec fn distinct_names(l: Seq<LocalFileView>) -> bool {
    forall|a: int, b: int| 0 <= a < l.len() && 0 <= b < l.len() && a != b ==> l[a].name != l[b].name
}

pub open spec fn files_of(s: Seq<BuildSourceView>) -> Seq<Seq<char>> {
    s.map_values(|b: BuildSourceView| b.file)
}

pub open spec fn names_of(l: Seq<LocalFileView>) -> Seq<Seq<char>> {
    l.map_values(|e: LocalFileView| e.name)
}

/// The file names in the directory once `removed` are deleted and
/// `downloads` are fetched.
pub open spec fn names_after(names: Set<Seq<char>>, removed: Seq<Seq<char>>, downloads: Seq<BuildSourceView>) -> Set<Seq<char>> {
    names.difference(removed.to_set()).union(files_of(downloads).to_set())
}

/// Number of artifacts in `s` stored under `name`.
pub open spec fn count_file(s: Seq<BuildSourceView>, name: Seq<char>) -> nat
    decreases s.len(),
{
    if s.len() == 0 {
        0
    } else {
        count_file(s.drop_last(), name) + if s.last().file == name { 1nat } else { 0nat }
    }
}

/// Number of stale files called `name` in the listing.
pub open spec fn stale_count(d: Seq<BuildSourceView>, l: Seq<LocalFileView>, name: Seq<char>) -> nat
    decreases l.len(),
{
    if l.len() == 0 {
        0
    } else {
        stale_count(d, l.drop_last(), name) + if is_stale(d, l.last()) && l.last().name == name { 1nat } else { 0nat }
    }
}

proof fn lemma_file_index_found(d: Seq<BuildSourceView>, name: Seq<char>, i: int)
    requires
        0 <= i < d.len(),
        d[i].file == name,
    ensures
        file_index(d, name) matches Some(k) && is_first_file(d, name, k) && k <= i,
    decreases i,
{
    if exists|j: int| 0 <= j < i && #[trigger] d[j].file == name {
        let j = choose|j: int| 0 <= j < i && #[trigger] d[j].file == name;
        lemma_file_index_found(d, name, j);
    } else {
        assert(is_first_file(d, name, i));
        let k = choose|k: int| is_first_file(d, name, k);
        lemma_first_file_unique(d, name, i, k);
    }
}

proof fn lemma_file_index_distinct(d: Seq<BuildSourceView>, i: int)
    requires
        distinct_files(d),
        0 <= i < d.len(),
    ensures
        file_index(d, d[i].file) == Some(i),
{
    lemma_file_index_found(d, d[i].file, i);
    let k = file_index(d, d[i].file)->0;
    assert(d[k].file == d[i].file);
}

proof fn lemma_file_index_some(d: Seq<BuildSourceView>, name: Seq<char>)
    requires
        file_index(d, name) is Some,
    ensures
        file_index(d, name) matches Some(k) && is_first_file(d, name, k),
{
}

proof fn lemma_removed_members(d: Seq<BuildSourceView>, l: Seq<LocalFileView>, x: Seq<char>)
    ensures
        removed_names(d, l).contains(x) <==> exists|k: int| 0 <= k < l.len() && (#[trigger] l[k]).name == x && !keeps(d, l[k]),
    decreases l.len(),
{
    if l.len() > 0 {
        let p = l.drop_last();
        lemma_removed_members(d, p, x);
        if removed_names(d, l).contains(x) {
            if removed_names(d, p).contains(x) {
                let k = choose|k: int| 0 <= k < p.len() && (#[trigger] p[k]).name == x && !keeps(d, p[k]);
                assert(l[k] == p[k]);
            } else {
                assert(!keeps(d, l.last()));
                assert(removed_names(d, l) == removed_names(d, p).push(l.last().name));
                let j = choose|j: int| 0 <= j < removed_names(d, l).len() && removed_names(d, l)[j] == x;
                assert(j == removed_names(d, p).len());
                assert(l[l.len() - 1].name == x);
            }
        }
        if exists|k: int| 0 <= k < l.len() && (#[trigger] l[k]).name == x && !keeps(d, l[k]) {
            let k = choose|k: int| 0 <= k < l.len() && (#[trigger] l[k]).name == x && !keeps(d, l[k]);
            if k < l.len() - 1 {
                assert(p[k] == l[k]);
                assert(removed_names(d, p).contains(x));
                if !keeps(d, l.last()) {
                    let j = choose|j: int| 0 <= j < removed_names(d, p).len() && removed_names(d, p)[j] == x;
                    assert(removed_names(d, l)[j] == x);
                }
            } else {
                assert(removed_names(d, l) == removed_names(d, p).push(l.last().name));
                assert(removed_names(d, l)[removed_names(d, p).len() as int] == x);
            }
        }
    }
}

proof fn lemma_replaced_members(d: Seq<BuildSourceView>, l: Seq<LocalFileView>)
    ensures
        forall|j: int| #![trigger replaced(d, l)[j]] 0 <= j < replaced(d, l).len() ==> exists|k: int| 0 <= k < l.len()
            && is_stale(d, #[trigger] l[k]) && replaced(d, l)[j] == target(d, l[k]),
        forall|k: int| 0 <= k < l.len() && is_stale(d, #[trigger] l[k]) ==> exists|j: int| 0 <= j < replaced(d, l).len()
            && replaced(d, l)[j] == target(d, l[k]),
    decreases l.len(),
{
    if l.len() > 0 {
        let p = l.drop_last();
        lemma_replaced_members(d, p);
        let r = replaced(d, l);
        let rp = replaced(d, p);
        assert forall|j: int| #![trigger r[j]] 0 <= j < r.len() implies exists|k: int| 0 <= k < l.len()
            && is_stale(d, #[trigger] l[k]) && r[j] == target(d, l[k]) by {
            if j < rp.len() {
                let k = choose|k: int| 0 <= k < p.len()
                    && is_stale(d, #[trigger] p[k]) && rp[j] == target(d, p[k]);
                assert(l[k] == p[k]);
                if is_stale(d, l.last()) {
                    assert(r[j] == rp[j]);
                }
            } else {
                assert(is_stale(d, l.last()));
                assert(l[l.len() - 1] == l.last());
            }
        }
        assert forall|k: int| 0 <= k < l.len() && is_stale(d, #[trigger] l[k]) implies exists|j: int| 0 <= j < r.len()
            && r[j] == target(d, l[k]) by {
            if k < l.len() - 1 {
                assert(p[k] == l[k]);
                let j = choose|j: int| 0 <= j < rp.len() && rp[j] == target(d, p[k]);
                if is_stale(d, l.last()) {
                    assert(r[j] == rp[j]);
                }
            } else {
                assert(l[k] == l.last());
                assert(r[rp.len() as int] == target(d, l[k]));
            }
        }
    }
}

proof fn lemma_missing_members(d: Seq<BuildSourceView>, l: Seq<LocalFileView>)
    ensures
        forall|j: int| #![trigger missing(d, l)[j]] 0 <= j < missing(d, l).len() ==> exists|i: int| 0 <= i < d.len()
            && missing(d, l)[j] == #[trigger] d[i] && !named(l, d[i].file),
        forall|i: int| 0 <= i < d.len() && !named(l, #[trigger] d[i].file) ==> exists|j: int| 0 <= j < missing(d, l).len()
            && missing(d, l)[j] == d[i],
    decreases d.len(),
{
    if d.len() > 0 {
        let p = d.drop_last();
        lemma_missing_members(p, l);
        let m = missing(d, l);
        let mp = missing(p, l);
        assert forall|j: int| #![trigger m[j]] 0 <= j < m.len() implies exists|i: int| 0 <= i < d.len()
            && m[j] == #[trigger] d[i] && !named(l, d[i].file) by {
            if j < mp.len() {
                let i = choose|i: int| 0 <= i < p.len() && mp[j] == #[trigger] p[i] && !named(l, p[i].file);
                assert(d[i] == p[i]);
                if !named(l, d.last().file) {
                    assert(m[j] == mp[j]);
                }
            } else {
                assert(m[j] == d[d.len() - 1]);
            }
        }
        assert forall|i: int| 0 <= i < d.len() && !named(l, #[trigger] d[i].file) implies exists|j: int| 0 <= j < m.len()
            && m[j] == d[i] by {
            if i < d.len() - 1 {
                assert(p[i] == d[i]);
                let j = choose|j: int| 0 <= j < mp.len() && mp[j] == p[i];
                if !named(l, d.last().file) {
                    assert(m[j] == mp[j]);
                }
            } else {
                assert(m[mp.len() as int] == d[i]);
            }
        }
    }
}

/// Every planned download is one of the desired artifacts.
proof fn lemma_downloads_desired(d: Seq<BuildSourceView>, l: Seq<LocalFileView>, j: int)
    requires
        0 <= j < planned_downloads(d, l).len(),
    ensures
        exists|i: int| 0 <= i < d.len() && planned_downloads(d, l)[j] == #[trigger] d[i],
{
    lemma_replaced_members(d, l);
    lemma_missing_members(d, l);
    let r = replaced(d, l);
    if j < r.len() {
        let k = choose|k: int| 0 <= k < l.len() && is_stale(d, #[trigger] l[k]) && r[j] == target(d, l[k]);
        lemma_file_index_some(d, l[k].name);
        let i = file_index(d, l[k].name)->0;
        assert(planned_downloads(d, l)[j] == d[i]);
    } else {
        let jm = j - r.len();
        let i = choose|i: int| 0 <= i < d.len() && missing(d, l)[jm] == #[trigger] d[i] && !named(l, d[i].file);
        assert(planned_downloads(d, l)[j] == d[i]);
    }
}

/// Convergence: whatever the directory held, once the plan's deletions and
/// downloads are done its file names are exactly those of the desired
/// artifacts.
pub proof fn lemma_sync_converges(d: Seq<BuildSourceView>, l: Seq<LocalFileView>)
    requires
        distinct_names(l),
    ensures
        names_after(names_of(l).to_set(), removed_names(d, l), planned_downloads(d, l)) =~= files_of(d).to_set(),
{
    let after = names_after(names_of(l).to_set(), removed_names(d, l), planned_downloads(d, l));
    let dl = planned_downloads(d, l);
    lemma_replaced_members(d, l);
    lemma_missing_members(d, l);
    assert forall|x: Seq<char>| after.contains(x) implies files_of(d).to_set().contains(x) by {
        lemma_removed_members(d, l, x);
        if files_of(dl).to_set().contains(x) {
            let j = choose|j: int| 0 <= j < files_of(dl).len() && files_of(dl)[j] == x;
            lemma_downloads_desired(d, l, j);
            let i = choose|i: int| 0 <= i < d.len() && dl[j] == #[trigger] d[i];
            assert(files_of(d)[i] == x);
        } else {
            let k = choose|k: int| 0 <= k < names_of(l).len() && names_of(l)[k] == x;
            assert(l[k].name == x);
            assert(keeps(d, l[k]));
            let i = file_index(d, x)->0;
            assert(files_of(d)[i] == x);
        }
    }
    assert forall|x: Seq<char>| files_of(d).to_set().contains(x) implies after.contains(x) by {
        lemma_removed_members(d, l, x);
        let i = choose|i: int| 0 <= i < files_of(d).len() && files_of(d)[i] == x;
        assert(d[i].file == x);
        if named(l, x) {
            let k = choose|k: int| 0 <= k < l.len() && (#[trigger] l[k]).name == x;
            if keeps(d, l[k]) {
                assert(names_of(l)[k] == x);
                assert(names_of(l).to_set().contains(x));
                if removed_names(d, l).contains(x) {
                    let k2 = choose|k2: int| 0 <= k2 < l.len() && (#[trigger] l[k2]).name == x && !keeps(d, l[k2]);
                    assert(k2 == k);
                }
            } else {
                lemma_file_index_found(d, x, i);
                assert(is_stale(d, l[k]));
                let j = choose|j: int| 0 <= j < replaced(d, l).len() && replaced(d, l)[j] == target(d, l[k]);
                lemma_file_index_some(d, x);
                assert(dl[j] == replaced(d, l)[j]);
                assert(files_of(dl)[j] == x);
            }
        } else {
            let j = choose|j: int| 0 <= j < missing(d, l).len() && missing(d, l)[j] == d[i];
            let jj = replaced(d, l).len() + j;
            assert(dl[jj] == d[i]);
            assert(files_of(dl)[jj] == x);
        }
    }
}


proof fn lemma_count_concat(a: Seq<BuildSourceView>, b: Seq<BuildSourceView>, x: Seq<char>)
    ensures
        count_file(a + b, x) == count_file(a, x) + count_file(b, x),
    decreases b.len(),
{
    if b.len() > 0 {
        assert((a + b).drop_last() =~= a + b.drop_last());
        lemma_count_concat(a, b.drop_last(), x);
    } else {
        assert(a + b =~= a);
    }
}

proof fn lemma_count_replaced(d: Seq<BuildSourceView>, l: Seq<LocalFileView>, x: Seq<char>)
    ensures
        count_file(replaced(d, l), x) == stale_count(d, l, x),
    decreases l.len(),
{
    if l.len() > 0 {
        lemma_count_replaced(d, l.drop_last(), x);
        if is_stale(d, l.last()) {
            lemma_file_index_some(d, l.last().name);
            assert(replaced(d, l).drop_last() =~= replaced(d, l.drop_last()));
        }
    }
}

proof fn lemma_stale_count_absent(d: Seq<BuildSourceView>, l: Seq<LocalFileView>, x: Seq<char>)
    requires
        forall|j: int| 0 <= j < l.len() ==> (#[trigger] l[j]).name != x,
    ensures
        stale_count(d, l, x) == 0,
    decreases l.len(),
{
    if l.len() > 0 {
        let p = l.drop_last();
        assert forall|j: int| 0 <= j < p.len() implies (#[trigger] p[j]).name != x by {
            assert(p[j] == l[j]);
        }
        lemma_stale_count_absent(d, p, x);
        assert(l[l.len() - 1] == l.last());
    }
}

proof fn lemma_stale_count_single(d: Seq<BuildSourceView>, l: Seq<LocalFileView>, k: int)
    requires
        distinct_names(l),
        0 <= k < l.len(),
    ensures
        stale_count(d, l, l[k].name) == if is_stale(d, l[k]) { 1nat } else { 0nat },
    decreases l.len(),
{
    let x = l[k].name;
    let p = l.drop_last();
    if k == l.len() - 1 {
        assert forall|j: int| 0 <= j < p.len() implies (#[trigger] p[j]).name != x by {
            assert(p[j] == l[j]);
        }
        lemma_stale_count_absent(d, p, x);
    } else {
        assert(p[k] == l[k]);
        assert(distinct_names(p)) by {
            assert forall|a: int, b: int| 0 <= a < p.len() && 0 <= b < p.len() && a != b implies p[a].name != p[b].name by {
                assert(p[a] == l[a] && p[b] == l[b]);
            }
        }
        lemma_stale_count_single(d, p, k);
        assert(l.last().name != x) by {
            assert(l[l.len() - 1] == l.last());
        }
    }
}

proof fn lemma_count_missing_named(d: Seq<BuildSourceView>, l: Seq<LocalFileView>, x: Seq<char>)
    requires
        named(l, x),
    ensures
        count_file(missing(d, l), x) == 0,
    decreases d.len(),
{
    if d.len() > 0 {
        lemma_count_missing_named(d.drop_last(), l, x);
        if !named(l, d.last().file) {
            assert(missing(d, l).drop_last() =~= missing(d.drop_last(), l));
        }
    }
}

/// Hash fidelity: take a desired artifact that claims a digest and the file
/// of its name. When the file's digest is the claimed one, nothing is
/// fetched under that name. Otherwise the file is deleted and exactly one
/// download is planned under that name, that of the artifact (whose bytes
/// [`accept_download`] then holds to the claimed digest).
pub proof fn lemma_hash_fidelity(d: Seq<BuildSourceView>, l: Seq<LocalFileView>, i: int, k: int)
    requires
        distinct_files(d),
        distinct_names(l),
        0 <= i < d.len(),
        d[i].sha512 is Some,
        0 <= k < l.len(),
        l[k].name == d[i].file,
    ensures
        l[k].hash == d[i].sha512 ==> count_file(planned_downloads(d, l), d[i].file) == 0,
        l[k].hash != d[i].sha512 ==> {
            &&& count_file(planned_downloads(d, l), d[i].file) == 1
            &&& planned_downloads(d, l).contains(d[i])
            &&& removed_names(d, l).contains(d[i].file)
        },
{
    let x = d[i].file;
    lemma_file_index_distinct(d, i);
    lemma_count_concat(replaced(d, l), missing(d, l), x);
    lemma_count_replaced(d, l, x);
    lemma_stale_count_single(d, l, k);
    assert(named(l, x));
    lemma_count_missing_named(d, l, x);
    if l[k].hash != d[i].sha512 {
        assert(is_stale(d, l[k]));
        lemma_replaced_members(d, l);
        let j = choose|j: int| 0 <= j < replaced(d, l).len() && replaced(d, l)[j] == target(d, l[k]);
        assert(planned_downloads(d, l)[j] == d[i]);
        lemma_removed_members(d, l, x);
    }
}

proof fn lemma_all_kept(d: Seq<BuildSourceView>, l: Seq<LocalFileView>)
    requires
        forall|m: int| 0 <= m < l.len() ==> keeps(d, #[trigger] l[m]),
    ensures
        replaced(d, l).len() == 0,
        removed_names(d, l).len() == 0,
    decreases l.len(),
{
    if l.len() > 0 {
        let p = l.drop_last();
        assert forall|m: int| 0 <= m < p.len() implies keeps(d, #[trigger] p[m]) by {
            assert(p[m] == l[m]);
        }
        lemma_all_kept(d, p);
        assert(l[l.len() - 1] == l.last());
    }
}

proof fn lemma_none_missing(d: Seq<BuildSourceView>, l: Seq<LocalFileView>)
    requires
        forall|i: int| 0 <= i < d.len() ==> named(l, #[trigger] d[i].file),
    ensures
        missing(d, l).len() == 0,
    decreases d.len(),
{
    if d.len() > 0 {
        let p = d.drop_last();
        assert forall|i: int| 0 <= i < p.len() implies named(l, #[trigger] p[i].file) by {
            assert(p[i] == d[i]);
        }
        lemma_none_missing(p, l);
        assert(d[d.len() - 1] == d.last());
    }
}

/// A listed file after a run: one the run kept, untouched, or one it
/// fetched, whose digest was checked against the one its artifact claims.
pub open spec fn left_by_run(d: Seq<BuildSourceView>, l: Seq<LocalFileView>, e: LocalFileView) -> bool {
    ||| exists|k: int| 0 <= k < l.len() && keeps(d, #[trigger] l[k]) && l[k] == e
    ||| exists|j: int| 0 <= j < planned_downloads(d, l).len()
        && (#[trigger] planned_downloads(d, l)[j]).file == e.name
        && (planned_downloads(d, l)[j].sha512 is Some ==> e.hash == planned_downloads(d, l)[j].sha512)
}

/// Idempotence: listed again after a successful run (its file names are those
/// the plan leaves, each file kept untouched or fetched and checked), the
/// directory needs no download and no deletion.
pub proof fn lemma_sync_idempotent(d: Seq<BuildSourceView>, l: Seq<LocalFileView>, l2: Seq<LocalFileView>)
    requires
        distinct_files(d),
        distinct_names(l),
        names_of(l2).to_set() == names_after(names_of(l).to_set(), removed_names(d, l), planned_downloads(d, l)),
        forall|m: int| 0 <= m < l2.len() ==> left_by_run(d, l, #[trigger] l2[m]),
    ensures
        planned_downloads(d, l2).len() == 0,
        removed_names(d, l2).len() == 0,
{
    lemma_sync_converges(d, l);
    let dl = planned_downloads(d, l);
    assert forall|m: int| 0 <= m < l2.len() implies keeps(d, #[trigger] l2[m]) by {
        let e = l2[m];
        if !(exists|k: int| 0 <= k < l.len() && keeps(d, #[trigger] l[k]) && l[k] == e) {
            let j = choose|j: int| 0 <= j < dl.len() && (#[trigger] dl[j]).file == e.name
                && (dl[j].sha512 is Some ==> e.hash == dl[j].sha512);
            lemma_downloads_desired(d, l, j);
            let i = choose|i: int| 0 <= i < d.len() && dl[j] == #[trigger] d[i];
            lemma_file_index_distinct(d, i);
        }
    }
    lemma_all_kept(d, l2);
    assert forall|i: int| 0 <= i < d.len() implies named(l2, #[trigger] d[i].file) by {
        assert(files_of(d)[i] == d[i].file);
        assert(files_of(d).to_set().contains(d[i].file));
        let m = choose|m: int| 0 <= m < names_of(l2).len() && names_of(l2)[m] == d[i].file;
        assert(l2[m].name == d[i].file);
    }
    lemma_none_missing(d, l2);
}


proof fn lemma_count_missing_bounded(d: Seq<BuildSourceView>, l: Seq<LocalFileView>, x: Seq<char>)
    ensures
        count_file(missing(d, l), x) <= count_file(d, x),
    decreases d.len(),
{
    if d.len() > 0 {
        lemma_count_missing_bounded(d.drop_last(), l, x);
        if !named(l, d.last().file) {
            assert(missing(d, l).drop_last() =~= missing(d.drop_last(), l));
        }
    }
}

proof fn lemma_count_present(d: Seq<BuildSourceView>, x: Seq<char>)
    requires
        count_file(d, x) > 0,
    ensures
        has_file(d, x),
    decreases d.len(),
{
    let p = d.drop_last();
    if d.last().file == x {
        assert(d[d.len() - 1] == d.last());
    } else {
        lemma_count_present(p, x);
        let j = choose|j: int| 0 <= j < p.len() && (#[trigger] p[j]).file == x;
        assert(d[j] == p[j]);
    }
}

proof fn lemma_count_distinct(d: Seq<BuildSourceView>, x: Seq<char>)
    requires
        distinct_files(d),
    ensures
        count_file(d, x) <= 1,
    decreases d.len(),
{
    if d.len() > 0 {
        let p = d.drop_last();
        assert(distinct_files(p)) by {
            assert forall|a: int, b: int| 0 <= a < p.len() && 0 <= b < p.len() && a != b implies p[a].file != p[b].file by {
                assert(p[a] == d[a] && p[b] == d[b]);
            }
        }
        lemma_count_distinct(p, x);
        if d.last().file == x && count_file(p, x) == 1 {
            lemma_count_present(p, x);
            let j = choose|j: int| 0 <= j < p.len() && (#[trigger] p[j]).file == x;
            assert(d[j] == p[j]);
            assert(d[d.len() - 1] == d.last());
        }
    }
}

/// At most one fetch per artifact: with distinct desired file names and a
/// directory listing, no file name is downloaded twice in one run.
pub proof fn lemma_download_at_most_once(d: Seq<BuildSourceView>, l: Seq<LocalFileView>, x: Seq<char>)
    requires
        distinct_files(d),
        distinct_names(l),
    ensures
        count_file(planned_downloads(d, l), x) <= 1,
{
    lemma_count_concat(replaced(d, l), missing(d, l), x);
    lemma_count_replaced(d, l, x);
    lemma_count_missing_bounded(d, l, x);
    lemma_count_distinct(d, x);
    if named(l, x) {
        let k = choose|k: int| 0 <= k < l.len() && (#[trigger] l[k]).name == x;
        lemma_stale_count_single(d, l, k);
        lemma_count_missing_named(d, l, x);
    } else {
        lemma_stale_count_absent(d, l, x);
    }
}

} // verus!

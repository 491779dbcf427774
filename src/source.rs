//! Source resolution: turning a mod's reference into a concrete artifact.
//!
//! A mod that names a direct URL resolves at once. One that names a registry
//! version needs the registry's answers; resolution is then a small state
//! machine: [`BuildSource::generate`] gives either the outcome or the request
//! to make, and [`BuildSource::resume`] takes the registry's reply and gives
//! the next step. Whoever performs the requests drives the loop.

use crate::manifest::Manifest;
use crate::modrinth::{
    self, is_id, is_slug, primary_index, texts, version_filters, RegistryRequest, RequestView,
    Version,
};
use crate::project::Mod;
use vstd::prelude::*;

verus! {

/// Where a mod comes from: a direct download URL, or a version on the
/// registry given by identifier or by version label.
#[derive(Debug)]
pub enum Source {
    Download { url: String },
    Modrinth { version: String },
}

impl Clone for Source {
    fn clone(&self) -> (r: Source)
        ensures
            r == *self,
    {
        match self {
            Source::Download { url } => Source::Download { url: url.clone() },
            Source::Modrinth { version } => Source::Modrinth { version: version.clone() },
        }
    }
}

/// A copy of an optional text.
pub fn clone_text(o: &Option<String>) -> (r: Option<String>)
    ensures
        r == *o,
{
    match o {
        Some(s) => Some(s.clone()),
        None => None,
    }
}

/// A concrete artifact: the mod's name, where to fetch it, the file name it
/// is stored under, and its SHA-512 digest in lower-case hex when known. A
/// mod's file-name override names the file of a direct URL; a registry
/// version's file keeps the registry's name.
#[derive(Debug)]
pub struct BuildSource {
    pub name: String,
    pub url: String,
    pub file: String,
    pub sha512: Option<String>,
}

pub struct BuildSourceView {
    pub name: Seq<char>,
    pub url: Seq<char>,
    pub file: Seq<char>,
    pub sha512: Option<Seq<char>>,
}

pub open spec fn opt_view(o: Option<String>) -> Option<Seq<char>> {
    match o {
        Some(s) => Some(s@),
        None => None,
    }
}

impl View for BuildSource {
    type V = BuildSourceView;

    open spec fn view(&self) -> BuildSourceView {
        BuildSourceView {
            name: self.name@,
            url: self.url@,
            file: self.file@,
            sha512: opt_view(self.sha512),
        }
    }
}

impl Clone for BuildSource {
    fn clone(&self) -> (r: BuildSource)
        ensures
            r == *self,
    {
        BuildSource {
            name: self.name.clone(),
            url: self.url.clone(),
            file: self.file.clone(),
            sha512: match &self.sha512 {
                Some(h) => Some(h.clone()),
                None => None,
            },
        }
    }
}

/// Why a mod could not be resolved; each names the mod.
#[derive(Debug, Clone)]
pub enum SourceError {
    /// No file name can be taken from the URL and none is given.
    MalformedReference { name: String, url: String },
    /// The mod's name is not a well-formed project slug.
    InvalidReference { name: String },
    /// No version of the project carries the label.
    VersionNotFound { name: String, version: String },
    /// The version (by identifier) lists no file.
    PrimaryFileNotFound { name: String, version: String },
    /// The registry could not be reached or failed to answer.
    RegistryUnavailable { name: String },
}

pub enum SourceErrorView {
    MalformedReference { name: Seq<char>, url: Seq<char> },
    InvalidReference { name: Seq<char> },
    VersionNotFound { name: Seq<char>, version: Seq<char> },
    PrimaryFileNotFound { name: Seq<char>, version: Seq<char> },
    RegistryUnavailable { name: Seq<char> },
}

impl View for SourceError {
    type V = SourceErrorView;

    open spec fn view(&self) -> SourceErrorView {
        match self {
            SourceError::MalformedReference { name, url } => SourceErrorView::MalformedReference { name: name@, url: url@ },
            SourceError::InvalidReference { name } => SourceErrorView::InvalidReference { name: name@ },
            SourceError::VersionNotFound { name, version } => SourceErrorView::VersionNotFound { name: name@, version: version@ },
            SourceError::PrimaryFileNotFound { name, version } => SourceErrorView::PrimaryFileNotFound { name: name@, version: version@ },
            SourceError::RegistryUnavailable { name } => SourceErrorView::RegistryUnavailable { name: name@ },
        }
    }
}

/// One step of resolution: the outcome, or the registry request to make next.
#[derive(Debug)]
pub enum Resolution {
    Resolved(BuildSource),
    Failed(SourceError),
    /// Look the version up by identifier; answer with [`RegistryReply::Version`].
    LookupVersion(RegistryRequest),
    /// List the project's versions; answer with [`RegistryReply::Versions`].
    ListVersions(RegistryRequest),
}

pub enum ResolutionView {
    Resolved(BuildSourceView),
    Failed(SourceErrorView),
    LookupVersion(RequestView),
    ListVersions(RequestView),
}

impl View for Resolution {
    type V = ResolutionView;

    open spec fn view(&self) -> ResolutionView {
        match self {
            Resolution::Resolved(b) => ResolutionView::Resolved(b@),
            Resolution::Failed(e) => ResolutionView::Failed(e@),
            Resolution::LookupVersion(q) => ResolutionView::LookupVersion(q@),
            Resolution::ListVersions(q) => ResolutionView::ListVersions(q@),
        }
    }
}

/// The registry's answer to the last request.
#[derive(Debug)]
pub enum RegistryReply {
    /// The version looked up by identifier; `None` when the registry reports
    /// that it does not exist.
    Version(Option<Version>),
    /// The project's versions, narrowed by the build's filters.
    Versions(Vec<Version>),
    /// Transport or server failure.
    Unavailable,
}

/// The `/`-separated path segments of `url` once parsed as a URL; none where
/// it does not parse or cannot be a base.
pub uninterp spec fn url_path_segments(url: Seq<char>) -> Option<Seq<Seq<char>>>;

/// Relies on url::Url::parse and url::Url::path_segments: the path segments of
/// the parsed URL, at least one when there are any.
#[verifier::external_body]
pub(crate) fn path_segments_of(url: &str) -> (r: Option<Vec<String>>)
    ensures
        match r {
            Some(v) => url_path_segments(url@) == Some(texts(v@)) && v@.len() >= 1,
            None => url_path_segments(url@) is None,
        },
{
    match url::Url::parse(url) {
        Ok(u) => u.path_segments().map(|segments| segments.map(|s| s.to_string()).collect()),
        Err(_) => None,
    }
}

/// The last path segment, when there is one and it is not empty.
pub open spec fn last_file_segment(segments: Seq<Seq<char>>) -> Option<Seq<char>> {
    if segments.len() > 0 && segments.last().len() > 0 {
        Some(segments.last())
    } else {
        None
    }
}

/// The file name that a URL designates: its last non-empty path segment.
pub open spec fn url_file_name(url: Seq<char>) -> Option<Seq<char>> {
    match url_path_segments(url) {
        Some(s) => last_file_segment(s),
        None => None,
    }
}

/// The file name taken from a URL's path segments: the last one, unless it is
/// empty.
pub fn file_name_from_segments(segments: &Vec<String>) -> (r: Option<String>)
    ensures
        opt_view(r) == last_file_segment(texts(segments@)),
{
    let n = segments.len();
    if n == 0 {
        return None;
    }
    let last = &segments[n - 1];
    if last.as_str().is_empty() {
        None
    } else {
        Some(last.clone())
    }
}

/// A direct URL: the file name is the override, else the URL's last non-empty
/// path segment; no digest is known.
pub open spec fn direct_spec(md: Mod, url: Seq<char>) -> ResolutionView {
    let file = match md.file {
        Some(f) => Some(f@),
        None => url_file_name(url),
    };
    match file {
        Some(f) => ResolutionView::Resolved(BuildSourceView { name: md.name@, url, file: f, sha512: None }),
        None => ResolutionView::Failed(SourceErrorView::MalformedReference { name: md.name@, url }),
    }
}

/// The listing of the project's versions, narrowed by a loader and a game
/// version; refused before any request when the mod's name is not a
/// well-formed slug.
pub open spec fn listing_with(loader: Option<Seq<char>>, game_version: Option<Seq<char>>, md: Mod) -> ResolutionView {
    if !is_slug(md.name@) {
        ResolutionView::Failed(SourceErrorView::InvalidReference { name: md.name@ })
    } else {
        ResolutionView::ListVersions(RequestView {
            path: seq!["project"@, md.name@, "version"@],
            query: version_filters(loader, game_version),
        })
    }
}

/// The listing narrowed by the manifest's loader and game version.
pub open spec fn listing_spec(m: Manifest, md: Mod) -> ResolutionView {
    listing_with(opt_view(m.loader), opt_view(m.minecraft_version), md)
}

/// The first step under the given filters: a direct URL resolves at once; a
/// registry reference shaped like an identifier is looked up as one, any
/// other goes to the listing.
pub open spec fn first_step(loader: Option<Seq<char>>, game_version: Option<Seq<char>>, md: Mod) -> ResolutionView {
    match md.source {
        Source::Download { url } => direct_spec(md, url@),
        Source::Modrinth { version } => if is_id(version@) {
            ResolutionView::LookupVersion(RequestView { path: seq!["version"@, version@], query: Seq::empty() })
        } else {
            listing_with(loader, game_version, md)
        },
    }
}

/// The first step under the manifest's filters.
pub open spec fn start_spec(m: Manifest, md: Mod) -> ResolutionView {
    first_step(opt_view(m.loader), opt_view(m.minecraft_version), md)
}

/// The artifact of a registry version: its primary file (the first file when
/// none is flagged), under that file's name.
pub open spec fn from_version_spec(md: Mod, v: Version) -> ResolutionView {
    match primary_index(v.files@) {
        Some(i) => ResolutionView::Resolved(BuildSourceView {
            name: md.name@,
            url: v.files@[i].url@,
            file: v.files@[i].filename@,
            sha512: Some(v.files@[i].hashes.sha512@),
        }),
        None => ResolutionView::Failed(SourceErrorView::PrimaryFileNotFound { name: md.name@, version: v.id@ }),
    }
}

/// `i` is the first version of `list` whose label is `label`.
pub open spec fn is_first_label(list: Seq<Version>, label: Seq<char>, i: int) -> bool {
    &&& 0 <= i < list.len()
    &&& list[i].version_number@ == label
    &&& forall|j: int| 0 <= j < i ==> (#[trigger] list[j]).version_number@ != label
}

/// The version a label designates: the first one that carries it.
pub open spec fn label_index(list: Seq<Version>, label: Seq<char>) -> Option<int> {
    if exists|i: int| is_first_label(list, label, i) {
        Some(choose|i: int| is_first_label(list, label, i))
    } else {
        None
    }
}

pub proof fn lemma_first_label_unique(list: Seq<Version>, label: Seq<char>, i: int, k: int)
    requires
        is_first_label(list, label, i),
        is_first_label(list, label, k),
    ensures
        i == k,
{
    if i < k {
        assert(list[i].version_number@ != label);
    } else if k < i {
        assert(list[k].version_number@ != label);
    }
}

/// The step after the registry's reply.
pub open spec fn resume_spec(m: Manifest, md: Mod, reply: RegistryReply) -> ResolutionView {
    match md.source {
        Source::Download { url } => direct_spec(md, url@),
        Source::Modrinth { version } => match reply {
            RegistryReply::Unavailable => ResolutionView::Failed(SourceErrorView::RegistryUnavailable { name: md.name@ }),
            RegistryReply::Version(Some(v)) => from_version_spec(md, v),
            RegistryReply::Version(None) => listing_spec(m, md),
            RegistryReply::Versions(list) => match label_index(list@, version@) {
                Some(i) => from_version_spec(md, list@[i]),
                None => ResolutionView::Failed(SourceErrorView::VersionNotFound { name: md.name@, version: version@ }),
            },
        },
    }
}

fn resolve_direct(mod_data: &Mod, url: &String) -> (r: Resolution)
    ensures
        r@ == direct_spec(*mod_data, url@),
{
    let file = match &mod_data.file {
        Some(f) => Some(f.clone()),
        None => match path_segments_of(url.as_str()) {
            Some(segments) => file_name_from_segments(&segments),
            None => None,
        },
    };
    match file {
        Some(file) => Resolution::Resolved(BuildSource { name: mod_data.name.clone(), url: url.clone(), file, sha512: None }),
        None => Resolution::Failed(SourceError::MalformedReference { name: mod_data.name.clone(), url: url.clone() }),
    }
}

fn list_versions(manifest: &Manifest, mod_data: &Mod) -> (r: Resolution)
    ensures
        r@ == listing_spec(*manifest, *mod_data),
{
    let loader: Option<&str> = match &manifest.loader {
        Some(l) => Some(l.as_str()),
        None => None,
    };
    let game_version: Option<&str> = match &manifest.minecraft_version {
        Some(g) => Some(g.as_str()),
        None => None,
    };
    match modrinth::project_versions(mod_data.name.as_str(), loader, game_version) {
        Ok(req) => Resolution::ListVersions(req),
        Err(modrinth::ModrinthError::InvalidSlugOrId(_)) => Resolution::Failed(SourceError::InvalidReference { name: mod_data.name.clone() }),
    }
}

fn from_version(mod_data: &Mod, v: &Version) -> (r: Resolution)
    ensures
        r@ == from_version_spec(*mod_data, *v),
{
    match v.primary_file() {
        Some(f) => {
            Resolution::Resolved(BuildSource {
                name: mod_data.name.clone(),
                url: f.url.clone(),
                file: f.filename.clone(),
                sha512: Some(f.hashes.sha512.clone()),
            })
        },
        None => Resolution::Failed(SourceError::PrimaryFileNotFound { name: mod_data.name.clone(), version: v.id.clone() }),
    }
}

fn find_label(list: &Vec<Version>, label: &String) -> (r: Option<usize>)
    ensures
        match r {
            Some(i) => label_index(list@, label@) == Some(i as int),
            None => label_index(list@, label@) is None,
        },
{
    let mut i: usize = 0;
    while i < list.len()
        invariant
            i <= list@.len(),
            forall|j: int| 0 <= j < i ==> (#[trigger] list@[j]).version_number@ != label@,
        decreases list@.len() - i,
    {
        if list[i].version_number == *label {
            proof {
                assert(is_first_label(list@, label@, i as int));
                let k = choose|k: int| is_first_label(list@, label@, k);
                lemma_first_label_unique(list@, label@, i as int, k);
            }
            return Some(i);
        }
        i = i + 1;
    }
    None
}

impl BuildSource {
    /// First step of resolving `mod_data` under the manifest's filters.
    pub fn generate(manifest: &Manifest, mod_data: &Mod) -> (r: Resolution)
        ensures
            r@ == start_spec(*manifest, *mod_data),
    {
        match &mod_data.source {
            Source::Download { url } => resolve_direct(mod_data, url),
            Source::Modrinth { version } => match modrinth::version(version.as_str()) {
                Ok(req) => Resolution::LookupVersion(req),
                Err(_) => list_versions(manifest, mod_data),
            },
        }
    }

    /// The step that follows the registry's `reply` to the last request.
    pub fn resume(manifest: &Manifest, mod_data: &Mod, reply: RegistryReply) -> (r: Resolution)
        ensures
            r@ == resume_spec(*manifest, *mod_data, reply),
    {
        match &mod_data.source {
            Source::Download { url } => resolve_direct(mod_data, url),
            Source::Modrinth { version } => match reply {
                RegistryReply::Unavailable => Resolution::Failed(SourceError::RegistryUnavailable { name: mod_data.name.clone() }),
                RegistryReply::Version(Some(v)) => from_version(mod_data, &v),
                RegistryReply::Version(None) => list_versions(manifest, mod_data),
                RegistryReply::Versions(list) => match find_label(&list, version) {
                    Some(i) => from_version(mod_data, &list[i]),
                    None => Resolution::Failed(SourceError::VersionNotFound { name: mod_data.name.clone(), version: version.clone() }),
                },
            },
        }
    }
}


/// Fallback resolution: for a registry reference that the registry reports
/// as no existing identifier, resolution turns to the project's version
/// listing, narrowed by the manifest's loader and game version; when exactly
/// one listed version carries the reference as its label, resolution
/// succeeds with that version's selected file. (The listing is only asked
/// for a well-formed project slug, and a version with no file cannot
/// resolve.)
pub proof fn lemma_fallback_resolution(m: Manifest, md: Mod, list: Vec<Version>, i: int)
    requires
        md.source is Modrinth,
        is_slug(md.name@),
        0 <= i < list@.len(),
        list@[i].version_number@ == md.source->version@,
        forall|j: int| 0 <= j < list@.len() && j != i ==> (#[trigger] list@[j]).version_number@ != md.source->version@,
        list@[i].files@.len() > 0,
    ensures
        ({
            let listing = ResolutionView::ListVersions(RequestView {
                path: seq!["project"@, md.name@, "version"@],
                query: version_filters(opt_view(m.loader), opt_view(m.minecraft_version)),
            });
            &&& resume_spec(m, md, RegistryReply::Version(None)) == listing
            &&& !is_id(md.source->version@) ==> start_spec(m, md) == listing
        }),
        primary_index(list@[i].files@) matches Some(f) && resume_spec(m, md, RegistryReply::Versions(list))
            == ResolutionView::Resolved(BuildSourceView {
                name: md.name@,
                url: list@[i].files@[f].url@,
                file: list@[i].files@[f].filename@,
                sha512: Some(list@[i].files@[f].hashes.sha512@),
            }),
{
    let label = md.source->version@;
    assert(is_first_label(list@, label, i));
    let k = choose|k: int| is_first_label(list@, label, k);
    lemma_first_label_unique(list@, label, i, k);
    let files = list@[i].files@;
    if exists|f: int| modrinth::is_first_primary(files, f) {
        let f = choose|f: int| modrinth::is_first_primary(files, f);
        assert(primary_index(files) == Some(f));
    }
}

/// Primary-file selection: when no file of a version is flagged primary, the
/// first file is selected, whether the version was looked up by identifier
/// or found by its label; the artifact is then fixed by the file order
/// alone.
pub proof fn lemma_primary_fallback(m: Manifest, md: Mod, v: Version, list: Vec<Version>)
    requires
        md.source is Modrinth,
        v.files@.len() > 0,
        forall|j: int| 0 <= j < v.files@.len() ==> !(#[trigger] v.files@[j]).primary,
    ensures
        primary_index(v.files@) == Some(0int),
        ({
            let first = ResolutionView::Resolved(BuildSourceView {
                name: md.name@,
                url: v.files@[0].url@,
                file: v.files@[0].filename@,
                sha512: Some(v.files@[0].hashes.sha512@),
            });
            &&& from_version_spec(md, v) == first
            &&& resume_spec(m, md, RegistryReply::Version(Some(v))) == first
            &&& list@ == seq![v] && v.version_number@ == md.source->version@
                ==> resume_spec(m, md, RegistryReply::Versions(list)) == first
        }),
{
    assert(!exists|i: int| modrinth::is_first_primary(v.files@, i));
    if list@ == seq![v] && v.version_number@ == md.source->version@ {
        assert(is_first_label(list@, md.source->version@, 0));
        let k = choose|k: int| is_first_label(list@, md.source->version@, k);
        lemma_first_label_unique(list@, md.source->version@, 0, k);
    }
}

} // verus!

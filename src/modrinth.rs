//! Data model of the mod registry's answers and the requests made to it.

use vstd::prelude::*;
use vstd::string::*;

verus! {

/// A project (a mod, a modpack, ...) hosted on the registry.
#[derive(Debug, Clone)]
pub struct Project {
    pub slug: String,
    pub id: String,
    pub project_type: ProjectType,
    pub versions: Vec<String>,
}

#[derive(Debug, Clone, Copy, PartialEq, Eq, Structural)]
pub enum ProjectType {
    Mod,
    Modpack,
    ResourcePack,
    Shader,
}

/// One published version of a project, with its downloadable files.
#[derive(Debug, Clone)]
pub struct Version {
    pub id: String,
    pub name: String,
    pub version_number: String,
    pub files: Vec<VersionFile>,
}

#[derive(Debug, Clone)]
pub struct VersionFile {
    pub url: String,
    pub filename: String,
    pub primary: bool,
    pub hashes: ModrinthVersionFileHashes,
}

#[derive(Debug, Clone)]
pub struct ModrinthVersionFileHashes {
    pub sha512: String,
    pub sha1: String,
}

/// `i` is the first file of `files` flagged primary.
pub open spec fn is_first_primary(files: Seq<VersionFile>, i: int) -> bool {
    &&& 0 <= i < files.len()
    &&& files[i].primary
    &&& forall|j: int| 0 <= j < i ==> !(#[trigger] files[j]).primary
}

/// Index of the file that stands for a version: the first one flagged
/// primary, else the first one; none for an empty list.
pub open spec fn primary_index(files: Seq<VersionFile>) -> Option<int> {
    if exists|i: int| is_first_primary(files, i) {
        Some(choose|i: int| is_first_primary(files, i))
    } else if files.len() > 0 {
        Some(0)
    } else {
        None
    }
}

/// Two indices that are both the first primary file coincide.
pub proof fn lemma_first_primary_unique(files: Seq<VersionFile>, i: int, k: int)
    requires
        is_first_primary(files, i),
        is_first_primary(files, k),
    ensures
        i == k,
{
    if i < k {
        assert(!files[i].primary);
    } else if k < i {
        assert(!files[k].primary);
    }
}

impl Version {
    /// The file flagged primary; the first file when none is flagged.
    pub fn primary_file(&self) -> (r: Option<&VersionFile>)
        ensures
            r is Some <==> self.files@.len() > 0,
            r matches Some(f) ==> primary_index(self.files@) matches Some(i) && *f == self.files@[i],
    {
        let mut i: usize = 0;
        while i < self.files.len()
            invariant
                i <= self.files@.len(),
                forall|j: int| 0 <= j < i ==> !(#[trigger] self.files@[j]).primary,
            decreases self.files@.len() - i,
        {
            if self.files[i].primary {
                proof {
                    assert(is_first_primary(self.files@, i as int));
                    let k = choose|k: int| is_first_primary(self.files@, k);
                    lemma_first_primary_unique(self.files@, i as int, k);
                }
                return Some(&self.files[i]);
            }
            i = i + 1;
        }
        if self.files.len() > 0 {
            assert(!exists|k: int| is_first_primary(self.files@, k));
            Some(&self.files[0])
        } else {
            None
        }
    }
}


/// Root of the registry's HTTP API.
pub const API_ROOT: &'static str = "https://api.modrinth.com/v2";

/// The regular expression a project slug (or id) has to match.
pub const SLUG_PATTERN: &'static str = r#"^[\w!@$()`.+,"\-']{3,64}$"#;

/// A well-formed project slug (or id): one that [`SLUG_PATTERN`] matches, as
/// the regex crate decides ([`regex_outcome`]). Nothing is requested for any
/// other.
pub open spec fn is_slug(s: Seq<char>) -> bool {
    regex_outcome(SLUG_PATTERN@, s) == Some(true)
}

pub open spec fn is_ascii_alphanumeric(c: char) -> bool {
    ('a' <= c && c <= 'z') || ('A' <= c && c <= 'Z') || ('0' <= c && c <= '9')
}

/// A version identifier: exactly eight ASCII letters or digits.
pub open spec fn is_id(s: Seq<char>) -> bool {
    &&& s.len() == 8
    &&& forall|i: int| 0 <= i < s.len() ==> is_ascii_alphanumeric(#[trigger] s[i])
}

/// What `regex::Regex::new(pattern)` followed by `is_match(text)` gives:
/// `None` where the pattern does not compile.
pub uninterp spec fn regex_outcome(pattern: Seq<char>, text: Seq<char>) -> Option<bool>;

/// Relies on regex::Regex::new and Regex::is_match (re-exported by lazy_regex):
/// whether `text` holds a match of `pattern`, none where the pattern is refused.
#[verifier::external_body]
fn regex_match(pattern: &str, text: &str) -> (r: Option<bool>)
    ensures
        r == regex_outcome(pattern@, text@),
{
    match lazy_regex::Regex::new(pattern) {
        Ok(re) => Some(re.is_match(text)),
        Err(_) => None,
    }
}

/// A character inside a JSON string as serde_json writes it: `"` and `\`
/// escaped by a backslash, the control characters by their short escape or
/// as `\u00XX` (lower-case hex), every other character as it is.
pub open spec fn json_char(c: char) -> Seq<char> {
    if c == '"' {
        seq!['\\', '"']
    } else if c == '\\' {
        seq!['\\', '\\']
    } else if c == '\u{08}' {
        seq!['\\', 'b']
    } else if c == '\t' {
        seq!['\\', 't']
    } else if c == '\n' {
        seq!['\\', 'n']
    } else if c == '\u{0C}' {
        seq!['\\', 'f']
    } else if c == '\r' {
        seq!['\\', 'r']
    } else if (c as u32) < 0x20 {
        seq!['\\', 'u', '0', '0', crate::sync::hex_digit((c as u32) as int / 16), crate::sync::hex_digit((c as u32) as int % 16)]
    } else {
        seq![c]
    }
}

/// The escaped contents of a JSON string.
pub open spec fn json_escaped(s: Seq<char>) -> Seq<char>
    decreases s.len(),
{
    if s.len() == 0 {
        Seq::empty()
    } else {
        json_escaped(s.drop_last()) + json_char(s.last())
    }
}

/// The compact JSON text of the one-element string array `[item]`.
pub open spec fn json_string_list(item: Seq<char>) -> Seq<char> {
    seq!['[', '"'] + json_escaped(item) + seq!['"', ']']
}

/// serde_json's error type, carried as it is.
#[verifier::external_type_specification]
#[verifier::external_body]
pub struct ExJsonError(serde_json::Error);

/// Relies on serde_json::to_string: the compact JSON text of the array
/// `[item]` (strings escaped by the table in its `ser.rs`); it fails only for
/// a value whose `Serialize` fails or a map with non-string keys, neither of
/// which a list of strings is.
#[verifier::external_body]
fn json_list_of(item: &str) -> (r: Result<String, serde_json::Error>)
    ensures
        r is Ok,
        r matches Ok(t) ==> t@ == json_string_list(item@),
{
    serde_json::to_string(&vec![item])
}

/// Whether `slug` may name a project on the registry.
pub fn check_slug(slug: &str) -> (r: bool)
    ensures
        r == is_slug(slug@),
{
    match regex_match(SLUG_PATTERN, slug) {
        Some(b) => b,
        None => false,
    }
}

/// Whether `id` has the shape of a version identifier.
pub fn check_id(id: &str) -> (r: bool)
    ensures
        r == is_id(id@),
{
    let n = id.unicode_len();
    if n != 8 {
        return false;
    }
    let mut i: usize = 0;
    while i < n
        invariant
            n == id@.len(),
            i <= n,
            forall|j: int| 0 <= j < i ==> is_ascii_alphanumeric(#[trigger] id@[j]),
        decreases n - i,
    {
        let c = id.get_char(i);
        if !(('a' <= c && c <= 'z') || ('A' <= c && c <= 'Z') || ('0' <= c && c <= '9')) {
            assert(!is_ascii_alphanumeric(id@[i as int]));
            return false;
        }
        i = i + 1;
    }
    true
}

/// Failures of the registry client that happen before any request is sent.
#[derive(Debug)]
pub enum ModrinthError {
    /// The text is not a well-formed slug or identifier.
    InvalidSlugOrId(String),
}

fn check_slug_err(slug: &str) -> (r: Result<(), ModrinthError>)
    ensures
        r is Ok <==> is_slug(slug@),
        r matches Err(e) ==> e matches ModrinthError::InvalidSlugOrId(s) && s@ == slug@,
{
    if check_slug(slug) {
        Ok(())
    } else {
        Err(ModrinthError::InvalidSlugOrId(slug.to_string()))
    }
}

fn check_id_err(id: &str) -> (r: Result<(), ModrinthError>)
    ensures
        r is Ok <==> is_id(id@),
        r matches Err(e) ==> e matches ModrinthError::InvalidSlugOrId(s) && s@ == id@,
{
    if check_id(id) {
        Ok(())
    } else {
        Err(ModrinthError::InvalidSlugOrId(id.to_string()))
    }
}

/// A GET request to the registry: the path below [`API_ROOT`] as segments,
/// and the query pairs.
#[derive(Debug, Clone)]
pub struct RegistryRequest {
    pub path: Vec<String>,
    pub query: Vec<(String, String)>,
}

/// A request as plain text: path segments and query pairs.
pub struct RequestView {
    pub path: Seq<Seq<char>>,
    pub query: Seq<(Seq<char>, Seq<char>)>,
}

impl View for RegistryRequest {
    type V = RequestView;

    open spec fn view(&self) -> RequestView {
        RequestView { path: texts(self.path@), query: pair_texts(self.query@) }
    }
}

pub open spec fn texts(v: Seq<String>) -> Seq<Seq<char>> {
    v.map_values(|s: String| s@)
}

pub open spec fn pair_texts(v: Seq<(String, String)>) -> Seq<(Seq<char>, Seq<char>)> {
    v.map_values(|p: (String, String)| (p.0@, p.1@))
}

/// The segments joined by `/`.
pub open spec fn joined(segments: Seq<Seq<char>>) -> Seq<char>
    decreases segments.len(),
{
    if segments.len() == 0 {
        Seq::empty()
    } else if segments.len() == 1 {
        segments[0]
    } else {
        joined(segments.drop_last()) + seq!['/'] + segments.last()
    }
}

impl RegistryRequest {
    /// The request's address, without its query.
    pub fn url(&self) -> (r: String)
        ensures
            r@ == API_ROOT@ + seq!['/'] + joined(texts(self.path@)),
    {
        proof {
            reveal_strlit("/");
        }
        let mut path = String::new();
        let mut i: usize = 0;
        while i < self.path.len()
            invariant
                i <= self.path@.len(),
                path@ == joined(texts(self.path@.subrange(0, i as int))),
            decreases self.path@.len() - i,
        {
            proof {
                let s = self.path@.subrange(0, i as int + 1);
                assert(s.drop_last() == self.path@.subrange(0, i as int));
                assert(texts(s).drop_last() =~= texts(s.drop_last()));
                assert(texts(s).last() == self.path@[i as int]@);
                assert(texts(s).len() == i + 1);
            }
            if i > 0 {
                path.append("/");
            }
            path.append(self.path[i].as_str());
            proof {
                reveal_strlit("/");
                assert("/"@ =~= seq!['/']);
            }
            i = i + 1;
        }
        assert(self.path@.subrange(0, i as int) == self.path@);
        let mut r = String::from_str(API_ROOT);
        r.append("/");
        r.append(path.as_str());
        assert("/"@ =~= seq!['/']);
        r
    }
}

/// Request for the version with identifier `id`; refused locally when `id`
/// is not shaped like an identifier.
pub fn version(id: &str) -> (r: Result<RegistryRequest, ModrinthError>)
    ensures
        r is Ok <==> is_id(id@),
        r matches Ok(q) ==> q@ == (RequestView { path: seq!["version"@, id@], query: Seq::empty() }),
        r matches Err(e) ==> e matches ModrinthError::InvalidSlugOrId(s) && s@ == id@,
{
    check_id_err(id)?;
    let path = vec![String::from_str("version"), id.to_string()];
    proof {
        assert(texts(path@) =~= seq!["version"@, id@]);
    }
    let q = RegistryRequest { path, query: Vec::new() };
    assert(q@.query =~= Seq::empty());
    Ok(q)
}

/// Request for the project with slug or identifier `id`; refused locally
/// when `id` is not a well-formed slug.
pub fn project(id: &str) -> (r: Result<RegistryRequest, ModrinthError>)
    ensures
        r is Ok <==> is_slug(id@),
        r matches Ok(q) ==> q@ == (RequestView { path: seq!["project"@, id@], query: Seq::empty() }),
        r matches Err(e) ==> e matches ModrinthError::InvalidSlugOrId(s) && s@ == id@,
{
    check_slug_err(id)?;
    let path = vec![String::from_str("project"), id.to_string()];
    proof {
        assert(texts(path@) =~= seq!["project"@, id@]);
    }
    let q = RegistryRequest { path, query: Vec::new() };
    assert(q@.query =~= Seq::empty());
    Ok(q)
}

/// The query pair `(key, [value])` when a value is given.
pub open spec fn encoded_filter(key: Seq<char>, value: Option<Seq<char>>) -> Seq<(Seq<char>, Seq<char>)> {
    match value {
        None => Seq::empty(),
        Some(x) => seq![(key, json_string_list(x))],
    }
}

/// The query pairs that narrow a version listing to a loader and a game
/// version, each given as a JSON list of one string.
pub open spec fn version_filters(loader: Option<Seq<char>>, game_version: Option<Seq<char>>) -> Seq<(Seq<char>, Seq<char>)> {
    encoded_filter("loaders"@, loader) + encoded_filter("game_versions"@, game_version)
}

pub open spec fn opt_text(o: Option<&str>) -> Option<Seq<char>> {
    match o {
        Some(s) => Some(s@),
        None => None,
    }
}

/// Request for the versions of project `id`, narrowed to a loader and a game
/// version when they are given; refused locally when `id` is not a
/// well-formed slug.
pub fn project_versions(id: &str, loader: Option<&str>, game_version: Option<&str>) -> (r: Result<RegistryRequest, ModrinthError>)
    ensures
        !is_slug(id@) ==> (r matches Err(e) && e matches ModrinthError::InvalidSlugOrId(s) && s@ == id@),
        is_slug(id@) ==> (r matches Ok(q) && q@ == (RequestView {
            path: seq!["project"@, id@, "version"@],
            query: version_filters(opt_text(loader), opt_text(game_version)),
        })),
{
    check_slug_err(id)?;
    let path = vec![String::from_str("project"), id.to_string(), String::from_str("version")];
    let mut query: Vec<(String, String)> = Vec::new();
    if let Some(l) = loader {
        let t = json_list_of(l).unwrap();
        query.push((String::from_str("loaders"), t));
    }
    if let Some(g) = game_version {
        let t = json_list_of(g).unwrap();
        query.push((String::from_str("game_versions"), t));
    }
    proof {
        assert(texts(path@) =~= seq!["project"@, id@, "version"@]);
        assert(pair_texts(query@) =~= version_filters(opt_text(loader), opt_text(game_version)));
    }
    Ok(RegistryRequest { path, query })
}

} // verus!

//! What the editor asks of file providers, and the searches it runs over a project.

use crate::text::{join, joined, texts};
use vstd::prelude::*;
use vstd::string::*;

verus! {

/// What a file system can do.
#[derive(Clone, Copy, Debug, PartialEq, Eq, Structural)]
pub struct FileSystemCapabilities {
    pub atomic_write: bool,
    pub directory_listing: bool,
    pub conflict_detection: bool,
}

impl Default for FileSystemCapabilities {
    fn default() -> (r: Self)
        ensures
            !r.atomic_write && !r.directory_listing && !r.conflict_detection,
    {
        FileSystemCapabilities {
            atomic_write: false,
            directory_listing: false,
            conflict_detection: false,
        }
    }
}

#[derive(Clone, Copy, Debug, PartialEq, Eq, Structural)]
pub enum WriteMode {
    CreateOrReplace,
    CreateNew,
    AtomicReplace,
}

#[derive(Clone, Debug, PartialEq, Eq)]
pub struct FileStat<V> {
    pub version: V,
    pub is_read_only: bool,
}

#[derive(Clone, Debug, PartialEq, Eq)]
pub struct IdeFileData<V> {
    pub text: String,
    pub version: V,
}

#[derive(Clone, Debug, PartialEq, Eq)]
pub struct IdeProjectInfo {
    pub root_path: String,
    pub name: String,
    pub is_git_repo: bool,
    pub git_branch: Option<String>,
    pub file_count: u32,
}

/// A watched path of a node.
#[derive(Clone, Debug, PartialEq, Eq, Hash)]
pub struct IdeWatchKey {
    pub node_id: String,
    pub path: String,
}

impl IdeWatchKey {
    pub fn new(node_id: String, path: String) -> (r: Self)
        ensures
            r.node_id@ == node_id@ && r.path@ == path@,
    {
        IdeWatchKey { node_id, path }
    }
}

#[derive(Clone, Debug, PartialEq, Eq)]
pub struct IdeWatchEvent {
    pub path: String,
    pub kind: String,
}

/// A search over the files of a project.
#[derive(Clone, Debug, PartialEq, Eq)]
pub struct IdeSearchQuery {
    pub pattern: String,
    pub root_path: String,
    pub case_sensitive: bool,
    pub regex: bool,
    pub include_globs: Vec<String>,
    pub exclude_globs: Vec<String>,
    pub include_hidden: bool,
    pub max_results: u32,
    pub stale_token: u64,
}

pub open spec fn flag_name(flag: bool) -> Seq<char> {
    if flag {
        "true"@
    } else {
        "false"@
    }
}

fn append_flag(out: &mut String, flag: bool)
    ensures
        final(out)@ == old(out)@ + flag_name(flag),
{
    if flag {
        out.append("true");
    } else {
        out.append("false");
    }
}

impl IdeSearchQuery {
    /// A literal search that ignores case, over the files that a project usually holds.
    pub fn tauri_literal_project_search(
        pattern: String,
        root_path: String,
        max_results: u32,
        stale_token: u64,
    ) -> (r: Self)
        ensures
            r.pattern@ == pattern@,
            r.root_path@ == root_path@,
            !r.case_sensitive && !r.regex && !r.include_hidden,
            texts(r.include_globs@) == project_globs(),
            r.exclude_globs@.len() == 0,
            r.max_results == max_results,
            r.stale_token == stale_token,
    {
        IdeSearchQuery {
            pattern,
            root_path,
            case_sensitive: false,
            regex: false,
            include_globs: tauri_project_search_include_globs(),
            exclude_globs: Vec::new(),
            include_hidden: false,
            max_results,
            stale_token,
        }
    }

    /// What tells the results of one search from those of another.
    pub open spec fn key(self) -> Seq<char> {
        self.root_path@ + ":"@ + self.pattern@ + ":"@ + flag_name(self.case_sensitive) + ":"@
            + flag_name(self.regex) + ":"@ + flag_name(self.include_hidden) + ":"@ + joined(
            texts(self.include_globs@),
            ","@,
        ) + ":"@ + joined(texts(self.exclude_globs@), ","@)
    }

    pub fn cache_key(&self) -> (r: String)
        ensures
            r@ == self.key(),
    {
        let mut out = self.root_path.clone();
        out.append(":");
        out.append(self.pattern.as_str());
        out.append(":");
        append_flag(&mut out, self.case_sensitive);
        out.append(":");
        append_flag(&mut out, self.regex);
        out.append(":");
        append_flag(&mut out, self.include_hidden);
        out.append(":");
        out.append(join(self.include_globs.as_slice(), ",").as_str());
        out.append(":");
        out.append(join(self.exclude_globs.as_slice(), ",").as_str());
        out
    }
}

/// A search is found again however many results it asks for and however old it is.
pub proof fn law_cache_key_ignores_limits(a: IdeSearchQuery, b: IdeSearchQuery)
    requires
        a.pattern@ == b.pattern@,
        a.root_path@ == b.root_path@,
        a.case_sensitive == b.case_sensitive,
        a.regex == b.regex,
        a.include_hidden == b.include_hidden,
        texts(a.include_globs@) == texts(b.include_globs@),
        texts(a.exclude_globs@) == texts(b.exclude_globs@),
    ensures
        a.key() == b.key(),
{
}

/// The files that a project usually holds.
pub open spec fn project_globs() -> Seq<Seq<char>> {
    seq![
        "*.ts"@,
        "*.tsx"@,
        "*.js"@,
        "*.jsx"@,
        "*.json"@,
        "*.rs"@,
        "*.toml"@,
        "*.md"@,
        "*.txt"@,
        "*.py"@,
        "*.go"@,
        "*.java"@,
        "*.c"@,
        "*.cpp"@,
        "*.h"@,
        "*.css"@,
        "*.scss"@,
        "*.html"@,
        "*.vue"@,
        "*.svelte"@,
        "*.yaml"@,
        "*.yml"@,
        "*.sh"@,
        "*.bash"@,
    ]
}

pub fn tauri_project_search_include_globs() -> (r: Vec<String>)
    ensures
        texts(r@) == project_globs(),
{
    let globs = [
        "*.ts",
        "*.tsx",
        "*.js",
        "*.jsx",
        "*.json",
        "*.rs",
        "*.toml",
        "*.md",
        "*.txt",
        "*.py",
        "*.go",
        "*.java",
        "*.c",
        "*.cpp",
        "*.h",
        "*.css",
        "*.scss",
        "*.html",
        "*.vue",
        "*.svelte",
        "*.yaml",
        "*.yml",
        "*.sh",
        "*.bash",
    ];
    let mut out: Vec<String> = Vec::new();
    let mut i: usize = 0;
    assert(Seq::new(24, |k: int| globs@[k]@) =~= project_globs());
    while i < 24
        invariant
            i <= 24,
            globs@.len() == 24,
            out@.len() == i,
            forall|k: int| 0 <= k < 24 ==> (#[trigger] globs@[k])@ == project_globs()[k],
            forall|k: int| 0 <= k < i ==> (#[trigger] out@[k])@ == project_globs()[k],
        decreases 24 - i,
    {
        out.push(globs[i].to_owned());
        i = i + 1;
    }
    assert(texts(out@) =~= project_globs());
    out
}

#[derive(Clone, Copy, Debug, PartialEq, Eq, Structural)]
pub struct IdePathStat {
    pub size: u64,
    pub mtime: u64,
    pub is_dir: bool,
}

#[derive(Clone, Debug, PartialEq, Eq)]
pub enum IdeFileCheck {
    Editable { size: u64, mtime: u64 },
    TooLarge { size: u64, limit: u64 },
    Binary,
    NotEditable { reason: String },
}

#[derive(Clone, Copy, Debug, PartialEq, Eq, Structural)]
pub enum IdeFileErrorKind {
    Disconnected,
    Timeout,
    PermissionDenied,
    NotFound,
    Conflict,
    Unsupported,
    Other,
}

#[derive(Clone, Debug, PartialEq, Eq)]
pub struct IdeFileError {
    pub kind: IdeFileErrorKind,
    pub message: String,
}

/// The name of a kind of error.
pub open spec fn kind_name(kind: IdeFileErrorKind) -> Seq<char> {
    match kind {
        IdeFileErrorKind::Disconnected => "Disconnected"@,
        IdeFileErrorKind::Timeout => "Timeout"@,
        IdeFileErrorKind::PermissionDenied => "PermissionDenied"@,
        IdeFileErrorKind::NotFound => "NotFound"@,
        IdeFileErrorKind::Conflict => "Conflict"@,
        IdeFileErrorKind::Unsupported => "Unsupported"@,
        IdeFileErrorKind::Other => "Other"@,
    }
}

impl IdeFileError {
    pub fn new(kind: IdeFileErrorKind, message: String) -> (r: Self)
        ensures
            r.kind == kind && r.message@ == message@,
    {
        IdeFileError { kind, message }
    }

    /// How the error reads.
    pub fn text(&self) -> (r: String)
        ensures
            r@ == kind_name(self.kind) + ": "@ + self.message@,
    {
        let name = match self.kind {
            IdeFileErrorKind::Disconnected => "Disconnected",
            IdeFileErrorKind::Timeout => "Timeout",
            IdeFileErrorKind::PermissionDenied => "PermissionDenied",
            IdeFileErrorKind::NotFound => "NotFound",
            IdeFileErrorKind::Conflict => "Conflict",
            IdeFileErrorKind::Unsupported => "Unsupported",
            IdeFileErrorKind::Other => "Other",
        };
        crate::text::concat3(name, ": ", self.message.as_str())
    }
}

/// A local or remote provider of files.
pub trait IdeFileSystem {
    type Location;

    type Version;

    type Entry;

    fn capabilities(&self) -> FileSystemCapabilities;

    fn read_file(&self, location: &Self::Location) -> Result<
        IdeFileData<Self::Version>,
        IdeFileError,
    >;

    fn stat(&self, location: &Self::Location) -> Result<FileStat<Self::Version>, IdeFileError>;

    fn list_dir(&self, location: &Self::Location) -> Result<Vec<Self::Entry>, IdeFileError>;

    fn write_file(
        &self,
        location: &Self::Location,
        text: &str,
        expected_version: Option<&Self::Version>,
        mode: WriteMode,
    ) -> Result<Self::Version, IdeFileError>;
}

/// The files that a project usually holds, by their endings.
pub proof fn law_usual_files_of_projects()
    ensures
        project_globs().len() == 24,
        project_globs()[0] == "*.ts"@,
        project_globs()[1] == "*.tsx"@,
        project_globs()[2] == "*.js"@,
        project_globs()[3] == "*.jsx"@,
        project_globs()[4] == "*.json"@,
        project_globs()[5] == "*.rs"@,
        project_globs()[6] == "*.toml"@,
        project_globs()[7] == "*.md"@,
        project_globs()[8] == "*.txt"@,
        project_globs()[9] == "*.py"@,
        project_globs()[10] == "*.go"@,
        project_globs()[11] == "*.java"@,
        project_globs()[12] == "*.c"@,
        project_globs()[13] == "*.cpp"@,
        project_globs()[14] == "*.h"@,
        project_globs()[15] == "*.css"@,
        project_globs()[16] == "*.scss"@,
        project_globs()[17] == "*.html"@,
        project_globs()[18] == "*.vue"@,
        project_globs()[19] == "*.svelte"@,
        project_globs()[20] == "*.yaml"@,
        project_globs()[21] == "*.yml"@,
        project_globs()[22] == "*.sh"@,
        project_globs()[23] == "*.bash"@,
{
}

/// What tells searches apart stands in their key in this order, with colons between.
pub proof fn law_keys_of_searches(query: IdeSearchQuery)
    ensures
        query.key() == query.root_path@ + seq![':'] + query.pattern@ + seq![':'] + flag_name(
            query.case_sensitive,
        ) + seq![':'] + flag_name(query.regex) + seq![':'] + flag_name(query.include_hidden)
            + seq![':'] + joined(texts(query.include_globs@), seq![',']) + seq![':'] + joined(
            texts(query.exclude_globs@),
            seq![','],
        ),
        flag_name(true) == seq!['t', 'r', 'u', 'e'],
        flag_name(false) == seq!['f', 'a', 'l', 's', 'e'],
{
    reveal_strlit(":");
    reveal_strlit(",");
    reveal_strlit("true");
    reveal_strlit("false");
    assert(":"@ =~= seq![':']);
    assert(","@ =~= seq![',']);
    assert("true"@ =~= seq!['t', 'r', 'u', 'e']);
    assert("false"@ =~= seq!['f', 'a', 'l', 's', 'e']);
}

/// How the kinds of errors are named.
pub proof fn law_errors_are_named()
    ensures
        kind_name(IdeFileErrorKind::Disconnected) == "Disconnected"@,
        kind_name(IdeFileErrorKind::Timeout) == "Timeout"@,
        kind_name(IdeFileErrorKind::PermissionDenied) == "PermissionDenied"@,
        kind_name(IdeFileErrorKind::NotFound) == "NotFound"@,
        kind_name(IdeFileErrorKind::Conflict) == "Conflict"@,
        kind_name(IdeFileErrorKind::Unsupported) == "Unsupported"@,
        kind_name(IdeFileErrorKind::Other) == "Other"@,
{
}

} // verus!

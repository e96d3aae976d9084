//! Project files and sessions: which files the editor may open, how project
//! paths are shown and keyed, and the answers a project restore gives.
use vstd::prelude::*;

use vstd::string::StringSliceAdditionalSpecFns;

use crate::text::{
    alpha, decimal, decimal_string, is_ascii_alpha, chars_of, lower_chars, lower_seq, owned, replace_char, replace_char_seq, slice_chars,
    starts_with, starts_with_exec, string_from_chars, trim, trim_chars, vec_eq,
};

verus! {

pub const MAX_EDITABLE_FILE_BYTES: u64 = 8388608;

pub const MAX_PROJECT_FILES: usize = 2000;

pub const MAX_PROJECT_ENTRIES: usize = 10000;

pub const MAX_PROJECT_DEPTH: usize = 8;

#[derive(Clone, Debug)]
pub struct ProjectFile {
    pub path: String,
    pub name: String,
    pub kind: String,
    pub size_bytes: u64,
}

#[derive(Clone, Debug, Default)]
pub struct ProjectState {
    pub root: String,
    pub files: Vec<ProjectFile>,
    pub truncated: bool,
}

#[derive(Clone, Debug, Default)]
pub struct PanelSizes {
    pub left: Option<u32>,
    pub right: Option<u32>,
    pub dock: Option<u32>,
}

#[derive(Clone, Debug, Default)]
pub struct ProjectDocumentSession {
    pub path: String,
    pub cursor_start: usize,
    pub cursor_end: usize,
    pub draft_content: Option<String>,
}

#[derive(Clone, Debug, Default)]
pub struct ProjectSessionSnapshot {
    pub open_documents: Vec<ProjectDocumentSession>,
    pub closed_documents: Vec<ProjectDocumentSession>,
    pub active_document: Option<String>,
    pub panels: PanelSizes,
}

#[derive(Clone, Debug)]
pub struct UnavailableProject {
    pub path: String,
    pub reason: String,
}

#[derive(Clone, Debug)]
pub struct ProjectRestoreResponse {
    pub status: String,
    pub project: Option<ProjectState>,
    pub session: ProjectSessionSnapshot,
    pub unavailable: Option<UnavailableProject>,
}

#[derive(Clone, Debug)]
pub struct ProjectFileChangeEvent {
    pub root: String,
    pub changed_paths: Vec<String>,
}

/// Where project sessions are kept: an index naming the last project, and one
/// session file per project.
#[derive(Clone, Debug)]
pub struct ProjectSessionStore {
    pub index_path: String,
    pub sessions_dir: String,
}

/// Why a project path or file was refused.
#[derive(Clone, Debug, PartialEq, Eq)]
pub enum ProjectError {
    EmptyPath,
    NotRelative,
    ParentRootOrPrefix,
    Unsupported(String),
    FileTooLarge(u64),
    ContentTooLarge(u64),
    NotUnderRoot,
    /// A directory could not be read; the text says why.
    ReadFailed(String),
}

pub open spec fn empty_session(s: ProjectSessionSnapshot) -> bool {
    &&& s.open_documents@.len() == 0
    &&& s.closed_documents@.len() == 0
    &&& s.active_document is None
    &&& s.panels.left is None
    &&& s.panels.right is None
    &&& s.panels.dock is None
}

pub fn empty_session_snapshot() -> (r: ProjectSessionSnapshot)
    ensures
        empty_session(r),
{
    ProjectSessionSnapshot {
        open_documents: Vec::new(),
        closed_documents: Vec::new(),
        active_document: None,
        panels: PanelSizes { left: None, right: None, dock: None },
    }
}

impl ProjectRestoreResponse {
    /// The project was restored with its session.
    pub fn ready(project: ProjectState, session: ProjectSessionSnapshot) -> (r: Self)
        ensures
            r.status@ == "ready"@,
            r.project == Some(project),
            r.session == session,
            r.unavailable is None,
    {
        ProjectRestoreResponse {
            status: owned("ready"),
            project: Some(project),
            session,
            unavailable: None,
        }
    }

    /// The last project cannot be opened, for the given reason.
    pub fn unavailable(path: String, reason: String) -> (r: Self)
        ensures
            r.status@ == "unavailable"@,
            r.project is None,
            empty_session(r.session),
            r.unavailable matches Some(u) && u.path == path && u.reason == reason,
    {
        ProjectRestoreResponse {
            status: owned("unavailable"),
            project: None,
            session: empty_session_snapshot(),
            unavailable: Some(UnavailableProject { path, reason }),
        }
    }

    /// The user cancelled choosing a project.
    pub fn cancelled() -> (r: Self)
        ensures
            r.status@ == "cancelled"@,
            r.project is None,
            empty_session(r.session),
            r.unavailable is None,
    {
        ProjectRestoreResponse {
            status: owned("cancelled"),
            project: None,
            session: empty_session_snapshot(),
            unavailable: None,
        }
    }
}

// ---------------------------------------------------------------------------
// Showing paths.
// ---------------------------------------------------------------------------

/// A path as the user sees it: slashes only, and without the `//?/` or
/// `//?/UNC/` prefix of Windows extended paths.
pub open spec fn display_path_spec(p: Seq<char>) -> Seq<char> {
    let n = replace_char_seq(p, '\\', '/');
    if starts_with(n, "//?/UNC/"@) {
        "//"@ + n.subrange(8, n.len() as int)
    } else if starts_with(n, "//?/"@) {
        n.subrange(4, n.len() as int)
    } else {
        n
    }
}

pub fn display_path(path: &str) -> (r: String)
    ensures
        r@ == display_path_spec(path@),
{
    let normalized = replace_char(path, '\\', '/');
    let n = chars_of(normalized.as_str());
    let unc = chars_of("//?/UNC/");
    let ext = chars_of("//?/");
    proof {
        reveal_strlit("//?/UNC/");
        reveal_strlit("//?/");
    }
    if starts_with_exec(&n, &unc) {
        let mut out = chars_of("//");
        let mut rest = slice_chars(&n, 8, n.len());
        out.append(&mut rest);
        string_from_chars(&out)
    } else if starts_with_exec(&n, &ext) {
        let rest = slice_chars(&n, 4, n.len());
        string_from_chars(&rest)
    } else {
        normalized
    }
}

// ---------------------------------------------------------------------------
// Project keys: FNV-1a over the displayed path's UTF-8 bytes, in hex.
// ---------------------------------------------------------------------------

pub open spec fn fnv_upto(bytes: Seq<u8>, n: int) -> u64
    decreases n,
{
    if n <= 0 || n > bytes.len() {
        0xcbf29ce484222325u64
    } else {
        (fnv_upto(bytes, n - 1) ^ (bytes[n - 1] as u64)).wrapping_mul(0x100000001b3u64)
    }
}

pub open spec fn fnv1a(bytes: Seq<u8>) -> u64 {
    fnv_upto(bytes, bytes.len() as int)
}

pub open spec fn hex_digit(n: u64) -> char {
    if n < 10 {
        ((n + 48) as u8) as char
    } else {
        ((n + 87) as u8) as char
    }
}

pub open spec fn nibble(h: u64, i: int) -> u64 {
    (h >> ((60 - 4 * i) as u64)) & 0xfu64
}

/// Sixteen lower-case hex digits, most significant first (`{:016x}`).
pub open spec fn hex16(h: u64) -> Seq<char> {
    Seq::new(16, |i: int| hex_digit(nibble(h, i)))
}

pub open spec fn stable_key_spec(root: Seq<char>) -> Seq<char> {
    let shown = display_path_spec(root);
    hex16(fnv1a(vstd::utf8::encode_utf8(shown)))
}

fn hex_digit_exec(n: u64) -> (r: char)
    requires
        n < 16,
    ensures
        r == hex_digit(n),
{
    if n < 10 {
        ((n + 48) as u8) as char
    } else {
        ((n + 87) as u8) as char
    }
}

/// A fixed-length key for a project's session file.
pub fn stable_project_key(root: &str) -> (r: String)
    ensures
        r@ == stable_key_spec(root@),
{
    let shown = display_path(root);
    let bytes = shown.as_str().as_bytes();
    let mut hash: u64 = 0xcbf29ce484222325u64;
    let mut i: usize = 0;
    while i < bytes.len()
        invariant
            0 <= i <= bytes@.len(),
            hash == fnv_upto(bytes@, i as int),
        decreases bytes.len() - i,
    {
        hash = (hash ^ (bytes[i] as u64)).wrapping_mul(0x100000001b3u64);
        i = i + 1;
    }
    let mut out: Vec<char> = Vec::new();
    let mut k: usize = 0;
    while k < 16
        invariant
            0 <= k <= 16,
            out@ =~= hex16(hash).take(k as int),
        decreases 16 - k,
    {
        let shift: u64 = (60 - 4 * k) as u64;
        let n = (hash >> shift) & 0xfu64;
        assert(n < 16) by (bit_vector)
            requires
                n == (hash >> shift) & 0xfu64,
        ;
        out.push(hex_digit_exec(n));
        k = k + 1;
    }
    string_from_chars(&out)
}

impl ProjectSessionStore {
    /// The store kept under `data_dir/project-sessions`.
    pub fn with_data_dir(data_dir: &str) -> (r: Self)
        ensures
            r.index_path@ == data_dir@ + "/project-sessions/index.json"@,
            r.sessions_dir@ == data_dir@ + "/project-sessions/projects"@,
    {
        ProjectSessionStore {
            index_path: crate::text::concat(data_dir, "/project-sessions/index.json"),
            sessions_dir: crate::text::concat(data_dir, "/project-sessions/projects"),
        }
    }

    /// The session file of a project: its stable key with `.json`.
    pub fn session_path(&self, root: &str) -> (r: String)
        ensures
            r@ == self.sessions_dir@ + "/"@ + stable_key_spec(root@) + ".json"@,
    {
        let key = stable_project_key(root);
        let a = crate::text::concat(self.sessions_dir.as_str(), "/");
        let b = crate::text::concat(a.as_str(), key.as_str());
        crate::text::concat(b.as_str(), ".json")
    }
}

} // verus!

verus! {

// ---------------------------------------------------------------------------
// Path components ('/'-separated).
// ---------------------------------------------------------------------------

/// A piece that names something: not empty and not `.`.
pub open spec fn named(piece: Seq<char>) -> bool {
    piece.len() > 0 && piece != seq!['.']
}

/// The pieces between slashes within the first `n` characters: the finished
/// named pieces, and the piece in progress.
pub open spec fn piece_state(p: Seq<char>, n: int) -> (Seq<Seq<char>>, Seq<char>)
    decreases n,
{
    if n <= 0 || n > p.len() {
        (Seq::empty(), Seq::empty())
    } else {
        let st = piece_state(p, n - 1);
        if p[n - 1] == '/' {
            if named(st.1) {
                (st.0.push(st.1), Seq::empty())
            } else {
                (st.0, Seq::empty())
            }
        } else {
            (st.0, st.1.push(p[n - 1]))
        }
    }
}

/// The named pieces of a path, in order (empty pieces and `.` dropped).
pub open spec fn components(p: Seq<char>) -> Seq<Seq<char>> {
    let st = piece_state(p, p.len() as int);
    if named(st.1) {
        st.0.push(st.1)
    } else {
        st.0
    }
}

/// `Path::file_name`: the last named piece, unless it is `..`.
pub open spec fn file_name_spec(p: Seq<char>) -> Option<Seq<char>> {
    let cs = components(p);
    if cs.len() == 0 || cs.last() == seq!['.', '.'] {
        None
    } else {
        Some(cs.last())
    }
}

/// The position of the last `.` in a name, if any.
pub open spec fn last_dot_upto(name: Seq<char>, n: int) -> Option<int>
    decreases n,
{
    if n <= 0 || n > name.len() {
        None
    } else if name[n - 1] == '.' {
        Some(n - 1)
    } else {
        last_dot_upto(name, n - 1)
    }
}

/// `Path::extension`: after the last `.`, unless that `.` starts the name.
pub open spec fn extension_spec(name: Seq<char>) -> Option<Seq<char>> {
    match last_dot_upto(name, name.len() as int) {
        Some(k) if k > 0 => Some(name.subrange(k + 1, name.len() as int)),
        _ => None,
    }
}

pub fn path_components(p: &Vec<char>) -> (r: Vec<Vec<char>>)
    ensures
        r@.len() == components(p@).len(),
        forall|i: int| 0 <= i < r@.len() ==> (#[trigger] r@[i])@ == components(p@)[i],
{
    let mut done: Vec<Vec<char>> = Vec::new();
    let mut cur: Vec<char> = Vec::new();
    let mut i: usize = 0;
    while i < p.len()
        invariant
            0 <= i <= p@.len(),
            done@.len() == piece_state(p@, i as int).0.len(),
            forall|k: int|
                0 <= k < done@.len() ==> (#[trigger] done@[k])@ == piece_state(p@, i as int).0[k],
            cur@ == piece_state(p@, i as int).1,
        decreases p.len() - i,
    {
        let c = p[i];
        if c == '/' {
            let is_dot = cur.len() == 1 && cur[0] == '.';
            assert(is_dot == (cur@ == seq!['.'])) by {
                if cur@.len() == 1 && cur@[0] == '.' {
                    assert(cur@ =~= seq!['.']);
                }
            }
            if cur.len() > 0 && !is_dot {
                let finished = cur;
                done.push(finished);
            }
            cur = Vec::new();
        } else {
            cur.push(c);
        }
        i = i + 1;
    }
    let is_dot = cur.len() == 1 && cur[0] == '.';
    assert(is_dot == (cur@ == seq!['.'])) by {
        if cur@.len() == 1 && cur@[0] == '.' {
            assert(cur@ =~= seq!['.']);
        }
    }
    if cur.len() > 0 && !is_dot {
        done.push(cur);
    }
    done
}

fn is_dot_dot(v: &Vec<char>) -> (r: bool)
    ensures
        r == (v@ == seq!['.', '.']),
{
    let r = v.len() == 2 && v[0] == '.' && v[1] == '.';
    if r {
        assert(v@ =~= seq!['.', '.']);
    }
    r
}

pub fn file_name(path: &str) -> (r: Option<String>)
    ensures
        match file_name_spec(path@) {
            Some(n) => r matches Some(s) && s@ == n,
            None => r is None,
        },
{
    let p = chars_of(path);
    let cs = path_components(&p);
    if cs.len() == 0 {
        return None;
    }
    let last = &cs[cs.len() - 1];
    if is_dot_dot(last) {
        return None;
    }
    Some(string_from_chars(last))
}

pub fn extension(name: &str) -> (r: Option<String>)
    ensures
        match extension_spec(name@) {
            Some(e) => r matches Some(s) && s@ == e,
            None => r is None,
        },
{
    let v = chars_of(name);
    let mut n = v.len();
    while n > 0
        invariant
            0 <= n <= v@.len(),
            v@ == name@,
            last_dot_upto(v@, n as int) == last_dot_upto(v@, v@.len() as int),
        decreases n,
    {
        if v[n - 1] == '.' {
            if n - 1 == 0 {
                return None;
            }
            let rest = slice_chars(&v, n, v.len());
            return Some(string_from_chars(&rest));
        }
        n = n - 1;
    }
    None
}

// ---------------------------------------------------------------------------
// Editable files.
// ---------------------------------------------------------------------------

pub open spec fn editable_name(n: Seq<char>) -> bool {
    ||| n == "description"@
    ||| n == "namespace"@
    ||| n == "license"@
    ||| n == "news"@
    ||| n == ".rbuildignore"@
    ||| n == ".gitignore"@
    ||| n == ".renviron"@
    ||| n == ".rprofile"@
}

pub open spec fn editable_extension(e: Seq<char>) -> bool {
    ||| e == "r"@
    ||| e == "rmd"@
    ||| e == "qmd"@
    ||| e == "rd"@
    ||| e == "rproj"@
    ||| e == "md"@
    ||| e == "txt"@
    ||| e == "csv"@
    ||| e == "tsv"@
    ||| e == "yaml"@
    ||| e == "yml"@
    ||| e == "json"@
    ||| e == "toml"@
    ||| e == "ini"@
    ||| e == "html"@
    ||| e == "css"@
    ||| e == "js"@
    ||| e == "ts"@
    ||| e == "jsx"@
    ||| e == "tsx"@
    ||| e == "sql"@
    ||| e == "stan"@
    ||| e == "c"@
    ||| e == "cc"@
    ||| e == "cpp"@
    ||| e == "h"@
    ||| e == "hpp"@
    ||| e == "sh"@
    ||| e == "ps1"@
    ||| e == "bat"@
}

pub open spec fn or_empty(s: Option<Seq<char>>) -> Seq<char> {
    match s {
        Some(v) => v,
        None => Seq::empty(),
    }
}

/// The lower-cased file name of a path, empty when it has none.
pub open spec fn lower_file_name(p: Seq<char>) -> Seq<char> {
    lower_seq(or_empty(file_name_spec(p)))
}

/// The lower-cased extension of a path's file name, empty when it has none.
pub open spec fn lower_extension(p: Seq<char>) -> Seq<char> {
    lower_seq(or_empty(extension_spec(or_empty(file_name_spec(p)))))
}

pub open spec fn editable_path(p: Seq<char>) -> bool {
    editable_name(lower_file_name(p)) || editable_extension(lower_extension(p))
}

fn eq_lit(v: &Vec<char>, lit: &str) -> (r: bool)
    ensures
        r == (v@ == lit@),
{
    let l = chars_of(lit);
    vec_eq(v, &l)
}

fn is_editable_name(n: &Vec<char>) -> (r: bool)
    ensures
        r == editable_name(n@),
{
    eq_lit(n, "description") || eq_lit(n, "namespace") || eq_lit(n, "license") || eq_lit(n, "news")
        || eq_lit(n, ".rbuildignore") || eq_lit(n, ".gitignore") || eq_lit(n, ".renviron")
        || eq_lit(n, ".rprofile")
}

fn is_editable_extension(e: &Vec<char>) -> (r: bool)
    ensures
        r == editable_extension(e@),
{
    eq_lit(e, "r") || eq_lit(e, "rmd") || eq_lit(e, "qmd") || eq_lit(e, "rd") || eq_lit(e, "rproj")
        || eq_lit(e, "md") || eq_lit(e, "txt") || eq_lit(e, "csv") || eq_lit(e, "tsv") || eq_lit(
        e,
        "yaml",
    ) || eq_lit(e, "yml") || eq_lit(e, "json") || eq_lit(e, "toml") || eq_lit(e, "ini")
        || eq_lit(e, "html") || eq_lit(e, "css") || eq_lit(e, "js") || eq_lit(e, "ts") || eq_lit(
        e,
        "jsx",
    ) || eq_lit(e, "tsx") || eq_lit(e, "sql") || eq_lit(e, "stan") || eq_lit(e, "c") || eq_lit(
        e,
        "cc",
    ) || eq_lit(e, "cpp") || eq_lit(e, "h") || eq_lit(e, "hpp") || eq_lit(e, "sh") || eq_lit(
        e,
        "ps1",
    ) || eq_lit(e, "bat")
}

fn opt_chars_of(s: &Option<String>) -> (r: Vec<char>)
    ensures
        r@ == or_empty(crate::text::opt_view(*s)),
{
    match s {
        Some(v) => chars_of(v.as_str()),
        None => Vec::new(),
    }
}

/// Only text files the source editor supports may be opened or written: known
/// R package files by name, or known source and data files by extension.
pub fn ensure_editable_file(path: &str) -> (r: Result<(), ProjectError>)
    ensures
        editable_path(path@) ==> r is Ok,
        (lower_extension(path@) == "r"@ || lower_extension(path@) == "rmd"@ || lower_extension(
            path@,
        ) == "qmd"@ || lower_extension(path@) == "rd"@) ==> r is Ok,
        !editable_path(path@) ==> (r matches Err(ProjectError::Unsupported(n)) && n@
            == lower_file_name(path@)),
{
    let name = file_name(path);
    let name_chars = opt_chars_of(&name);
    let lower_name = lower_chars(&name_chars);
    let ext = match &name {
        Some(n) => extension(n.as_str()),
        None => None,
    };
    let ext_chars = opt_chars_of(&ext);
    let lower_ext = lower_chars(&ext_chars);
    proof {
        assert(extension_spec(Seq::<char>::empty()) is None) by {
            assert(last_dot_upto(Seq::<char>::empty(), 0) is None);
        }
    }
    if is_editable_name(&lower_name) || is_editable_extension(&lower_ext) {
        Ok(())
    } else {
        Err(ProjectError::Unsupported(string_from_chars(&lower_name)))
    }
}

/// The source editor opens R and R package files, R Markdown and Quarto
/// documents, and the common text, data, web, C/C++ and shell sources: every
/// path whose lower-cased extension is one of these, and every path named
/// like a package's own files (DESCRIPTION, NAMESPACE, LICENSE, NEWS and the
/// R and Git dot files), in any letter case.
pub proof fn law_source_files_are_editable(p: Seq<char>)
    ensures
        ({
            let e = lower_extension(p);
            ||| e == "r"@
            ||| e == "rmd"@
            ||| e == "qmd"@
            ||| e == "rd"@
            ||| e == "rproj"@
            ||| e == "md"@
            ||| e == "txt"@
            ||| e == "csv"@
            ||| e == "tsv"@
            ||| e == "yaml"@
            ||| e == "yml"@
            ||| e == "json"@
            ||| e == "toml"@
            ||| e == "ini"@
            ||| e == "html"@
            ||| e == "css"@
            ||| e == "js"@
            ||| e == "ts"@
            ||| e == "jsx"@
            ||| e == "tsx"@
            ||| e == "sql"@
            ||| e == "stan"@
            ||| e == "c"@
            ||| e == "cc"@
            ||| e == "cpp"@
            ||| e == "h"@
            ||| e == "hpp"@
            ||| e == "sh"@
            ||| e == "ps1"@
            ||| e == "bat"@
        }) ==> editable_path(p),
        ({
            let n = lower_file_name(p);
            ||| n == "description"@
            ||| n == "namespace"@
            ||| n == "license"@
            ||| n == "news"@
            ||| n == ".rbuildignore"@
            ||| n == ".gitignore"@
            ||| n == ".renviron"@
            ||| n == ".rprofile"@
        }) ==> editable_path(p),
{
}

/// The project tree never shows version control, tool state or dependency
/// caches: `.git`, `.rho`, `.Rproj.user`, `.worktrees`, `target`, `renv` and
/// `node_modules`, in any letter case, are ignored directories.
pub proof fn law_tool_directories_are_ignored(name: Seq<char>)
    ensures
        ({
            let n = lower_seq(name);
            ||| n == ".git"@
            ||| n == ".rho"@
            ||| n == ".rproj.user"@
            ||| n == ".worktrees"@
            ||| n == "target"@
            ||| n == "renv"@
            ||| n == "node_modules"@
        }) ==> ignored_directory(name),
{
}

/// Files above 8 MiB are not opened in the source editor.
pub fn ensure_editable_file_size(size: u64) -> (r: Result<(), ProjectError>)
    ensures
        size <= MAX_EDITABLE_FILE_BYTES ==> r is Ok,
        size > MAX_EDITABLE_FILE_BYTES ==> r == Err::<(), ProjectError>(
            ProjectError::FileTooLarge(size),
        ),
{
    if size <= MAX_EDITABLE_FILE_BYTES {
        Ok(())
    } else {
        Err(ProjectError::FileTooLarge(size))
    }
}

/// Content above 8 MiB (in UTF-8 bytes) is not written from the source editor.
pub fn ensure_editable_content_size(content: &str) -> (r: Result<(), ProjectError>)
    ensures
        content.spec_bytes().len() <= MAX_EDITABLE_FILE_BYTES ==> r is Ok,
        content.spec_bytes().len() > MAX_EDITABLE_FILE_BYTES ==> r == Err::<(), ProjectError>(
            ProjectError::ContentTooLarge(content.spec_bytes().len() as u64),
        ),
{
    let size = content.as_bytes().len() as u64;
    if size <= MAX_EDITABLE_FILE_BYTES {
        Ok(())
    } else {
        Err(ProjectError::ContentTooLarge(size))
    }
}

pub open spec fn ignored_directory(name: Seq<char>) -> bool {
    let n = lower_seq(name);
    ||| n == ".git"@
    ||| n == ".rho"@
    ||| n == ".rproj.user"@
    ||| n == ".worktrees"@
    ||| n == "target"@
    ||| n == "renv"@
    ||| n == "node_modules"@
}

/// Directories never listed in the project tree.
pub fn ignored_project_directory(name: &str) -> (r: bool)
    ensures
        r == ignored_directory(name@),
        (lower_seq(name@) == ".git"@ || lower_seq(name@) == ".rho"@ || lower_seq(name@)
            == ".rproj.user"@ || lower_seq(name@) == ".worktrees"@ || lower_seq(name@) == "target"@
            || lower_seq(name@) == "renv"@ || lower_seq(name@) == "node_modules"@) ==> r,
{
    let n = lower_chars(&chars_of(name));
    eq_lit(&n, ".git") || eq_lit(&n, ".rho") || eq_lit(&n, ".rproj.user") || eq_lit(
        &n,
        ".worktrees",
    ) || eq_lit(&n, "target") || eq_lit(&n, "renv") || eq_lit(&n, "node_modules")
}

// ---------------------------------------------------------------------------
// Relative project paths.
// ---------------------------------------------------------------------------

/// A path separator: a slash, or a backslash as Windows writes it.
pub open spec fn is_separator(c: char) -> bool {
    c == '/' || c == '\\'
}

/// A Windows drive prefix at the start of a path, such as `C:`.
pub open spec fn has_drive_prefix(p: Seq<char>) -> bool {
    p.len() >= 2 && is_ascii_alpha(p[0]) && p[1] == ':'
}

/// The pieces between separators, including empty ones.
pub open spec fn raw_piece_state(p: Seq<char>, n: int) -> (Seq<Seq<char>>, Seq<char>)
    decreases n,
{
    if n <= 0 || n > p.len() {
        (Seq::empty(), Seq::empty())
    } else {
        let st = raw_piece_state(p, n - 1);
        if is_separator(p[n - 1]) {
            (st.0.push(st.1), Seq::empty())
        } else {
            (st.0, st.1.push(p[n - 1]))
        }
    }
}

pub open spec fn raw_pieces(p: Seq<char>) -> Seq<Seq<char>> {
    let st = raw_piece_state(p, p.len() as int);
    st.0.push(st.1)
}

/// A path written by the user for a file in the project: not blank, relative
/// (neither rooted nor an absolute drive path), and without a drive prefix or
/// `..` pieces; slashes and backslashes both separate pieces.
pub open spec fn relative_path_problem(p: Seq<char>) -> Option<ProjectError> {
    if trim(p).len() == 0 {
        Some(ProjectError::EmptyPath)
    } else if (p.len() > 0 && is_separator(p[0])) || (has_drive_prefix(p) && p.len() >= 3
        && is_separator(p[2])) {
        Some(ProjectError::NotRelative)
    } else if has_drive_prefix(p) || raw_pieces(p).contains(seq!['.', '.']) {
        Some(ProjectError::ParentRootOrPrefix)
    } else {
        None
    }
}

fn raw_piece_list(p: &Vec<char>) -> (r: Vec<Vec<char>>)
    ensures
        r@.len() == raw_pieces(p@).len(),
        forall|i: int| 0 <= i < r@.len() ==> (#[trigger] r@[i])@ == raw_pieces(p@)[i],
{
    let mut done: Vec<Vec<char>> = Vec::new();
    let mut cur: Vec<char> = Vec::new();
    let mut i: usize = 0;
    while i < p.len()
        invariant
            0 <= i <= p@.len(),
            done@.len() == raw_piece_state(p@, i as int).0.len(),
            forall|k: int|
                0 <= k < done@.len() ==> (#[trigger] done@[k])@ == raw_piece_state(p@, i as int).0[k],
            cur@ == raw_piece_state(p@, i as int).1,
        decreases p.len() - i,
    {
        let c = p[i];
        if c == '/' || c == '\\' {
            let finished = cur;
            done.push(finished);
            cur = Vec::new();
        } else {
            cur.push(c);
        }
        i = i + 1;
    }
    done.push(cur);
    done
}

/// Checks a user-written project path before it is resolved under the root.
pub fn check_relative_project_path(relative: &str) -> (r: Result<(), ProjectError>)
    ensures
        match relative_path_problem(relative@) {
            Some(e) => r == Err::<(), ProjectError>(e),
            None => r is Ok,
        },
{
    let v = chars_of(relative);
    let t = trim_chars(&v);
    if t.len() == 0 {
        return Err(ProjectError::EmptyPath);
    }
    let drive = v.len() >= 2 && alpha(v[0]) && v[1] == ':';
    if (v.len() > 0 && (v[0] == '/' || v[0] == '\\')) || (drive && v.len() >= 3 && (v[2] == '/'
        || v[2] == '\\')) {
        return Err(ProjectError::NotRelative);
    }
    if drive {
        return Err(ProjectError::ParentRootOrPrefix);
    }
    let pieces = raw_piece_list(&v);
    let mut i: usize = 0;
    while i < pieces.len()
        invariant
            0 <= i <= pieces@.len(),
            v@ == relative@,
            trim(relative@).len() > 0,
            !((relative@.len() > 0 && is_separator(relative@[0])) || (has_drive_prefix(relative@)
                && relative@.len() >= 3 && is_separator(relative@[2]))),
            !has_drive_prefix(relative@),
            pieces@.len() == raw_pieces(v@).len(),
            forall|k: int| 0 <= k < pieces@.len() ==> (#[trigger] pieces@[k])@ == raw_pieces(v@)[k],
            forall|k: int| 0 <= k < i ==> raw_pieces(v@)[k] != seq!['.', '.'],
        decreases pieces.len() - i,
    {
        if is_dot_dot(&pieces[i]) {
            assert(raw_pieces(v@)[i as int] == seq!['.', '.']);
            assert(raw_pieces(v@).contains(seq!['.', '.']));
            return Err(ProjectError::ParentRootOrPrefix);
        }
        i = i + 1;
    }
    assert(!raw_pieces(v@).contains(seq!['.', '.']));
    Ok(())
}

/// `path` below `root`, component by component, written with `/`.
pub open spec fn join_slash(cs: Seq<Seq<char>>) -> Seq<char>
    decreases cs.len(),
{
    if cs.len() == 0 {
        Seq::empty()
    } else if cs.len() == 1 {
        cs[0]
    } else {
        join_slash(cs.drop_last()) + seq!['/'] + cs.last()
    }
}

pub open spec fn rooted(p: Seq<char>) -> bool {
    p.len() > 0 && p[0] == '/'
}

/// The path below the root when the root's components begin the path's.
pub open spec fn relative_below(root: Seq<char>, path: Seq<char>) -> Option<Seq<char>> {
    let rc = components(root);
    let pc = components(path);
    if rooted(root) == rooted(path) && rc.len() <= pc.len() && pc.take(rc.len() as int) == rc {
        Some(join_slash(pc.skip(rc.len() as int)))
    } else {
        None
    }
}

fn join_components(cs: &Vec<Vec<char>>, from: usize) -> (r: Vec<char>)
    requires
        from <= cs@.len(),
    ensures
        r@ == join_slash(cs@.skip(from as int).map_values(|c: Vec<char>| c@)),
{
    let ghost all = cs@.skip(from as int).map_values(|c: Vec<char>| c@);
    let mut out: Vec<char> = Vec::new();
    let mut i: usize = from;
    while i < cs.len()
        invariant
            from <= i <= cs@.len(),
            all == cs@.skip(from as int).map_values(|c: Vec<char>| c@),
            out@ == join_slash(all.take(i - from)),
        decreases cs.len() - i,
    {
        assert(all.take(i + 1 - from).drop_last() =~= all.take(i - from));
        assert(all[i - from] == cs@[i as int]@);
        if i > from {
            out.push('/');
        }
        let ghost base = out@;
        let mut k: usize = 0;
        while k < cs[i].len()
            invariant
                from <= i < cs@.len(),
                0 <= k <= cs@[i as int]@.len(),
                out@ == base + cs@[i as int]@.take(k as int),
            decreases cs@[i as int]@.len() - k,
        {
            out.push(cs[i][k]);
            k = k + 1;
        }
        assert(cs@[i as int]@.take(k as int) =~= cs@[i as int]@);
        if i == from {
            assert(out@ =~= all.take(1)[0]);
        } else {
            assert(out@ =~= join_slash(all.take(i - from)) + seq!['/'] + cs@[i as int]@);
        }
        i = i + 1;
    }
    assert(all.take(cs@.len() - from) =~= all);
    out
}

/// The path of a file below the project root, written with `/`.
pub fn relative_project_path(root: &str, path: &str) -> (r: Result<String, ProjectError>)
    ensures
        match relative_below(root@, replace_char_seq(path@, '\\', '/')) {
            Some(rel) => r matches Ok(s) && s@ == rel,
            None => r == Err::<String, ProjectError>(ProjectError::NotUnderRoot),
        },
{
    let rv = chars_of(root);
    let normalized = replace_char(path, '\\', '/');
    let pv = chars_of(normalized.as_str());
    let rc = path_components(&rv);
    let pc = path_components(&pv);
    let root_rooted = rv.len() > 0 && rv[0] == '/';
    let path_rooted = pv.len() > 0 && pv[0] == '/';
    if root_rooted != path_rooted || rc.len() > pc.len() {
        return Err(ProjectError::NotUnderRoot);
    }
    let ghost rcs = components(rv@);
    let ghost pcs = components(pv@);
    let mut i: usize = 0;
    while i < rc.len()
        invariant
            0 <= i <= rc@.len() <= pc@.len(),
            rv@ == root@,
            pv@ == replace_char_seq(path@, '\\', '/'),
            rooted(rv@) == rooted(pv@),
            rc@.len() == rcs.len(),
            pc@.len() == pcs.len(),
            rcs == components(rv@),
            pcs == components(pv@),
            forall|k: int| 0 <= k < rc@.len() ==> (#[trigger] rc@[k])@ == rcs[k],
            forall|k: int| 0 <= k < pc@.len() ==> (#[trigger] pc@[k])@ == pcs[k],
            forall|k: int| 0 <= k < i ==> pcs[k] == rcs[k],
        decreases rc.len() - i,
    {
        if !vec_eq(&rc[i], &pc[i]) {
            assert(pcs.take(rcs.len() as int)[i as int] != rcs[i as int]);
            return Err(ProjectError::NotUnderRoot);
        }
        i = i + 1;
    }
    assert(pcs.take(rcs.len() as int) =~= rcs);
    let out = join_components(&pc, rc.len());
    proof {
        assert(pc@.skip(rc@.len() as int).map_values(|c: Vec<char>| c@) =~= pcs.skip(
            rcs.len() as int,
        ));
    }
    Ok(string_from_chars(&out))
}

/// Of the changed paths, those below the root that name the root itself or an
/// editable file, as relative paths, in order.
pub open spec fn changed_path_kept(root: Seq<char>, path: Seq<char>) -> Option<Seq<char>> {
    match relative_below(root, replace_char_seq(path, '\\', '/')) {
        Some(rel) => if rel.len() == 0 || editable_path(rel) {
            Some(rel)
        } else {
            None
        },
        None => None,
    }
}

pub fn collect_changed_paths(root: &str, paths: &Vec<String>) -> (r: Vec<String>)
    ensures
        r@.map_values(|s: String| s@) == paths@.map_values(|p: String| p@).filter_map(
            |p: Seq<char>| changed_path_kept(root@, p),
        ),
{
    let ghost f = |p: Seq<char>| changed_path_kept(root@, p);
    let ghost src = paths@.map_values(|p: String| p@);
    let mut out: Vec<String> = Vec::new();
    let mut i: usize = 0;
    while i < paths.len()
        invariant
            0 <= i <= paths@.len(),
            src == paths@.map_values(|p: String| p@),
            f == (|p: Seq<char>| changed_path_kept(root@, p)),
            out@.map_values(|s: String| s@) == src.take(i as int).filter_map(f),
        decreases paths.len() - i,
    {
        proof {
            src.lemma_filter_map_take_succ(f, i as int);
        }
        match relative_project_path(root, paths[i].as_str()) {
            Ok(rel) => {
                if rel.as_str().is_empty() || ensure_editable_file(rel.as_str()).is_ok() {
                    let ghost before = out@;
                    out.push(rel);
                    assert(out@.map_values(|s: String| s@) =~= before.map_values(|s: String| s@).push(
                        out@.last()@,
                    ));
                }
            },
            Err(_) => {},
        }
        i = i + 1;
    }
    assert(src.take(paths@.len() as int) =~= src);
    out
}

} // verus!

verus! {

/// The message a project error shows.
pub open spec fn project_error_text(e: ProjectError) -> Seq<char> {
    match e {
        ProjectError::EmptyPath => "Project file path is empty"@,
        ProjectError::NotRelative => "Project file path must be relative"@,
        ProjectError::ParentRootOrPrefix =>
            "Project file path contains a parent, root or drive prefix"@,
        ProjectError::Unsupported(n) => "Unsupported or binary project file: "@ + n@,
        ProjectError::FileTooLarge(size) => "Project file is too large for the source editor: "@
            + decimal(size as nat) + " bytes (limit: 8388608 bytes)"@,
        ProjectError::ContentTooLarge(size) =>
            "Project file content is too large for the source editor: "@ + decimal(size as nat)
            + " bytes (limit: 8388608 bytes)"@,
        ProjectError::NotUnderRoot => "prefix not found"@,
        ProjectError::ReadFailed(m) => m@,
    }
}

impl ProjectError {
    pub fn message(&self) -> (r: String)
        ensures
            r@ == project_error_text(*self),
    {
        match self {
            ProjectError::EmptyPath => owned("Project file path is empty"),
            ProjectError::NotRelative => owned("Project file path must be relative"),
            ProjectError::ParentRootOrPrefix => owned(
                "Project file path contains a parent, root or drive prefix",
            ),
            ProjectError::Unsupported(n) => crate::text::concat(
                "Unsupported or binary project file: ",
                n.as_str(),
            ),
            ProjectError::FileTooLarge(size) => {
                let a = crate::text::concat(
                    "Project file is too large for the source editor: ",
                    decimal_string(*size).as_str(),
                );
                crate::text::concat(a.as_str(), " bytes (limit: 8388608 bytes)")
            },
            ProjectError::ContentTooLarge(size) => {
                let a = crate::text::concat(
                    "Project file content is too large for the source editor: ",
                    decimal_string(*size).as_str(),
                );
                crate::text::concat(a.as_str(), " bytes (limit: 8388608 bytes)")
            },
            ProjectError::NotUnderRoot => owned("prefix not found"),
            ProjectError::ReadFailed(m) => m.clone(),
        }
    }
}

} // verus!

//! Locating the session file that belongs to a working directory.

use vstd::prelude::*;
use crate::types::opt_string_view;

verus! {

broadcast use vstd::string::group_string_axioms;

/// Whether `c` is an ASCII letter or digit.
pub open spec fn is_ascii_alnum(c: char) -> bool {
    ('0' <= c && c <= '9') || ('a' <= c && c <= 'z') || ('A' <= c && c <= 'Z')
}

/// Whether `c` is an ASCII hexadecimal digit.
pub open spec fn is_ascii_hex(c: char) -> bool {
    ('0' <= c && c <= '9') || ('a' <= c && c <= 'f') || ('A' <= c && c <= 'F')
}

/// Every character that is not an ASCII letter or digit becomes `-`.
pub open spec fn mangled_char(c: char) -> char {
    if is_ascii_alnum(c) {
        c
    } else {
        '-'
    }
}

/// The project directory name for a working directory path.
pub open spec fn mangled(path: Seq<char>) -> Seq<char> {
    path.map_values(|c: char| mangled_char(c))
}

/// A session id has the shape of a UUID: one or more hex digits and dashes.
pub open spec fn valid_session_id(s: Seq<char>) -> bool {
    &&& s.len() > 0
    &&& forall|i: int| 0 <= i < s.len() ==> is_ascii_hex(#[trigger] s[i]) || s[i] == '-'
}

/// Mangle an absolute path into the directory name under which session
/// logs of that working directory are kept: every character that is not
/// an ASCII letter or digit becomes `-`.
///
/// Example: `/Users/tz/Projects/foo` becomes `-Users-tz-Projects-foo`.
pub fn mangle_cwd(cwd: &str) -> (r: String)
    ensures
        r@ == mangled(cwd@),
{
    let mut out = String::new();
    for c in it: cwd.chars()
        invariant
            it.seq() == cwd@,
            out@ == mangled(cwd@.take(it.index())),
    {
        let ghost i = it.index();
        let m = if ('0' <= c && c <= '9') || ('a' <= c && c <= 'z') || ('A' <= c && c <= 'Z') {
            c
        } else {
            '-'
        };
        out.push(m);
        proof {
            assert(mangled(cwd@.take(i + 1)) =~= mangled(cwd@.take(i)).push(m));
        }
    }
    proof {
        assert(cwd@.take(cwd@.len() as int) =~= cwd@);
    }
    out
}

/// Returns true if the string looks like a session id: a UUID-style
/// token of hex digits and dashes. Empty strings, path separators, `..`
/// and unexpanded shell placeholders are all rejected.
pub fn is_valid_session_id(s: &str) -> (r: bool)
    ensures
        r == valid_session_id(s@),
{
    let mut ok = true;
    let mut seen = false;
    for c in it: s.chars()
        invariant
            it.seq() == s@,
            seen == (it.index() > 0),
            ok == (forall|i: int| 0 <= i < it.index() ==> is_ascii_hex(#[trigger] s@[i]) || s@[i] == '-'),
    {
        if !(('0' <= c && c <= '9') || ('a' <= c && c <= 'f') || ('A' <= c && c <= 'F') || c == '-') {
            ok = false;
        }
        seen = true;
    }
    ok && seen
}

/// Walk depth for the global lookup: covers `<projects>/<project>/<file>.jsonl`
/// with headroom for older, deeper layouts.
pub const GLOBAL_SEARCH_DEPTH: usize = 3;

/// Walk depth inside a single project directory: sessions live directly in it.
pub const PROJECT_SEARCH_DEPTH: usize = 1;

/// The base with a separator after it, unless it is empty or already ends
/// in one.
pub open spec fn dir_prefix(base: Seq<char>) -> Seq<char> {
    if base.len() == 0 || base.last() == '/' {
        base
    } else {
        base + seq!['/']
    }
}

/// The path that joining `child` onto `base` gives on Unix: an absolute
/// child replaces the base; a relative one is appended after a separator,
/// which is added only when the base is non-empty and does not already end
/// in one.
pub open spec fn joined_path(base: Seq<char>, child: Seq<char>) -> Seq<char> {
    if child.len() > 0 && child[0] == '/' {
        child
    } else {
        dir_prefix(base) + child
    }
}

/// Names the path that `std::path::Path::parent` returns for a path.
pub uninterp spec fn path_parent_result(path: Seq<char>) -> Option<Seq<char>>;

/// Whether `s` starts with `/`.
fn starts_with_slash(s: &str) -> (r: bool)
    ensures
        r == (s@.len() > 0 && s@[0] == '/'),
{
    let mut seen = false;
    let mut first_is_slash = false;
    for c in it: s.chars()
        invariant
            it.seq() == s@,
            seen == (it.index() > 0),
            first_is_slash == (it.index() > 0 && s@[0] == '/'),
    {
        if !seen {
            first_is_slash = c == '/';
        }
        seen = true;
    }
    first_is_slash
}

/// Whether `s` is empty or ends with `/`.
fn empty_or_ends_with_slash(s: &str) -> (r: bool)
    ensures
        r == (s@.len() == 0 || s@.last() == '/'),
{
    let mut last_is_slash = true;
    let mut seen = false;
    for c in it: s.chars()
        invariant
            it.seq() == s@,
            seen == (it.index() > 0),
            last_is_slash == (it.index() == 0 || s@[it.index() - 1] == '/'),
    {
        last_is_slash = c == '/';
        seen = true;
    }
    last_is_slash
}

/// Join `child` onto `base` as `std::path::Path::join` does on Unix.
pub fn join_path(base: &str, child: &str) -> (r: String)
    ensures
        r@ == joined_path(base@, child@),
{
    if starts_with_slash(child) {
        String::from_str(child)
    } else {
        let mut out = String::from_str(base);
        if !empty_or_ends_with_slash(base) {
            out.push('/');
        }
        out.append(child);
        out
    }
}

/// Calls `std::path::Path::parent`: the result is the named parent. The
/// documentation describes the parent as the path without its final
/// component, so when there is one it is shorter than the path itself;
/// that is all this states of it beyond the name.
#[verifier::external_body]
fn parent_path(path: &str) -> (r: Option<String>)
    ensures
        opt_string_view(r) == path_parent_result(path@),
        r matches Some(q) ==> q@.len() < path@.len(),
{
    match std::path::Path::new(path).parent() {
        Some(q) => Some(q.to_string_lossy().into_owned()),
        None => None,
    }
}

/// The path followed by each of its ancestors, nearest first.
pub open spec fn ancestors(path: Seq<char>) -> Seq<Seq<char>>
    decreases path.len(),
{
    match path_parent_result(path) {
        Some(q) => if q.len() < path.len() {
            seq![path] + ancestors(q)
        } else {
            seq![path]
        },
        None => seq![path],
    }
}

/// The project directory under `session_dir` for a working directory.
pub open spec fn project_dir(session_dir: Seq<char>, dir: Seq<char>) -> Seq<char> {
    joined_path(session_dir, mangled(dir))
}

/// The file name of the session log with a given id.
pub open spec fn session_file_name(id: Seq<char>) -> Seq<char> {
    id + ".jsonl"@
}

/// The project directories to search for `cwd`, from `cwd` itself up
/// through its ancestors.
pub open spec fn project_dirs(session_dir: Seq<char>, cwd: Seq<char>) -> Seq<Seq<char>> {
    ancestors(cwd).map_values(|a: Seq<char>| project_dir(session_dir, a))
}

/// The paths at which the log of session `id` may stand, nearest project
/// first; none when the id does not have the shape of a session id.
pub open spec fn session_id_paths(session_dir: Seq<char>, cwd: Seq<char>, id: Seq<char>) -> Seq<
    Seq<char>,
> {
    if valid_session_id(id) {
        project_dirs(session_dir, cwd).map_values(
            |d: Seq<char>| joined_path(d, session_file_name(id)),
        )
    } else {
        seq![]
    }
}

/// The views of a list of strings.
pub open spec fn string_views(v: Seq<String>) -> Seq<Seq<char>> {
    v.map_values(|s: String| s@)
}

/// The project directories to search for `cwd`: the mangled name of `cwd`
/// and of each of its ancestors, each under `session_dir`.
pub fn project_dir_candidates(session_dir: &str, cwd: &str) -> (r: Vec<String>)
    ensures
        string_views(r@) == project_dirs(session_dir@, cwd@),
{
    let mut out: Vec<String> = Vec::new();
    let mut current: Option<String> = Some(String::from_str(cwd));
    let ghost mut rest: Seq<Seq<char>> = ancestors(cwd@);
    while current.is_some()
        invariant
            current matches Some(c) ==> rest == ancestors(c@),
            current is None ==> rest.len() == 0,
            string_views(out@) + rest.map_values(|a: Seq<char>| project_dir(session_dir@, a))
                == project_dirs(session_dir@, cwd@),
        decreases
            match current {
                Some(c) => c@.len() + 1,
                None => 0,
            },
    {
        let dir = current.unwrap();
        let name = mangle_cwd(dir.as_str());
        let candidate = join_path(session_dir, name.as_str());
        let next = parent_path(dir.as_str());
        proof {
            let tail = match &next {
                Some(q) => ancestors(q@),
                None => seq![],
            };
            assert(rest =~= seq![dir@] + tail);
            let f = |a: Seq<char>| project_dir(session_dir@, a);
            assert(rest.map_values(f) =~= seq![candidate@] + tail.map_values(f));
            assert(string_views(out@.push(candidate)) =~= string_views(out@).push(candidate@));
            rest = tail;
        }
        out.push(candidate);
        current = next;
    }
    proof {
        assert(rest.map_values(|a: Seq<char>| project_dir(session_dir@, a)) =~= seq![]);
        assert(string_views(out@) + seq![] =~= string_views(out@));
    }
    out
}

/// The paths at which the log of `session_id` may stand: `<id>.jsonl` in
/// the project directory of `cwd` and of each of its ancestors, nearest
/// first. Empty when the id does not have the shape of a session id, so
/// that nothing malformed ever reaches the file system.
pub fn session_id_candidates(session_dir: &str, cwd: &str, session_id: &str) -> (r: Vec<String>)
    ensures
        string_views(r@) == session_id_paths(session_dir@, cwd@, session_id@),
{
    if !is_valid_session_id(session_id) {
        let empty: Vec<String> = Vec::new();
        proof {
            assert(string_views(empty@) =~= seq![]);
        }
        return empty;
    }
    let dirs = project_dir_candidates(session_dir, cwd);
    let mut file = String::from_str(session_id);
    file.append(".jsonl");
    let ghost f = |d: Seq<char>| joined_path(d, session_file_name(session_id@));
    let mut out: Vec<String> = Vec::new();
    let n = dirs.len();
    for i in 0..n
        invariant
            n == dirs@.len(),
            file@ == session_file_name(session_id@),
            f == (|d: Seq<char>| joined_path(d, session_file_name(session_id@))),
            string_views(dirs@) == project_dirs(session_dir@, cwd@),
            string_views(out@) =~= string_views(dirs@.take(i as int)).map_values(f),
    {
        let candidate = join_path(dirs[i].as_str(), file.as_str());
        proof {
            assert(string_views(dirs@.take(i + 1)) =~= string_views(dirs@.take(i as int)).push(
                dirs@[i as int]@,
            ));
            assert(string_views(out@.push(candidate)) =~= string_views(out@).push(candidate@));
            assert(f(dirs@[i as int]@) == candidate@);
            assert(string_views(dirs@.take(i as int)).push(dirs@[i as int]@).map_values(f)
                =~= string_views(dirs@.take(i as int)).map_values(f).push(candidate@));
        }
        out.push(candidate);
    }
    proof {
        assert(dirs@.take(n as int) =~= dirs@);
    }
    out
}

/// The first of `paths`, from index `from` on, whose mark is set; a path
/// without a mark counts as unmarked.
pub open spec fn first_marked(paths: Seq<Seq<char>>, marks: Seq<bool>, from: int) -> Option<
    Seq<char>,
>
    decreases paths.len() - from,
{
    if from < 0 || from >= paths.len() {
        None
    } else if from < marks.len() && marks[from] {
        Some(paths[from])
    } else {
        first_marked(paths, marks, from + 1)
    }
}

/// Find a session by its exact id, walking up from `cwd` through its
/// ancestors. `is_file[i]` tells whether the `i`-th path of
/// `session_id_candidates(session_dir, cwd, session_id)` is an existing
/// file. The result is the first candidate that is; `None` when the id is
/// malformed or no candidate exists, so that callers can fall back to a
/// lookup by modification time.
pub fn find_session_by_id(session_dir: &str, cwd: &str, session_id: &str, is_file: &[bool]) -> (r:
    Option<String>)
    ensures
        opt_string_view(r) == first_marked(
            session_id_paths(session_dir@, cwd@, session_id@),
            is_file@,
            0,
        ),
{
    let candidates = session_id_candidates(session_dir, cwd, session_id);
    let ghost paths = session_id_paths(session_dir@, cwd@, session_id@);
    let n = candidates.len();
    let mut i: usize = 0;
    while i < n
        invariant
            n == candidates@.len(),
            i <= n,
            paths == session_id_paths(session_dir@, cwd@, session_id@),
            string_views(candidates@) == paths,
            first_marked(paths, is_file@, 0) == first_marked(paths, is_file@, i as int),
        decreases n - i,
    {
        assert(paths.len() == n);
        assert(paths[i as int] == candidates@[i as int]@);
        if i < is_file.len() && is_file[i] {
            let found = candidates[i].clone();
            assert(first_marked(paths, is_file@, i as int) == Some(paths[i as int]));
            return Some(found);
        }
        i = i + 1;
    }
    None
}

/// One entry met while walking a directory tree, with the facts about it
/// that the lookups decide on.
#[derive(Debug, Clone)]
pub struct WalkEntry {
    /// The entry's full path.
    pub path: String,
    /// The components of the path, in order.
    pub components: Vec<String>,
    /// The final component, when the path has one.
    pub file_name: Option<String>,
    /// The extension of the final component, when it has one.
    pub extension: Option<String>,
    /// Whether the entry is a regular file.
    pub is_file: bool,
    /// The modification time in nanoseconds since the Unix epoch, when it
    /// could be read.
    pub modified: Option<i128>,
    /// How many levels below the walk's root the entry lies (the root is 0).
    pub depth: usize,
}

/// Whether the entry lies inside a directory of subagent sessions.
pub open spec fn in_subagents(e: WalkEntry) -> bool {
    string_views(e.components@).contains("subagents"@)
}

/// Whether the entry is a session log that a lookup by modification time
/// may pick: a `.jsonl` file at most `max_depth` levels deep, outside any
/// subagent directory, whose modification time is known.
pub open spec fn is_session_log(e: WalkEntry, max_depth: nat) -> bool {
    &&& e.depth <= max_depth
    &&& !in_subagents(e)
    &&& opt_string_view(e.extension) == Some("jsonl"@)
    &&& e.is_file
    &&& e.modified is Some
}

/// The index of the most recently modified session log among `es`; the
/// earliest such entry when several share the newest time.
pub open spec fn newest_index(es: Seq<WalkEntry>, max_depth: nat) -> Option<int>
    decreases es.len(),
{
    if es.len() == 0 {
        None
    } else {
        let prev = newest_index(es.drop_last(), max_depth);
        let e = es.last();
        if is_session_log(e, max_depth) && (prev is None || e.modified->0 > es[prev->0].modified->0) {
            Some(es.len() - 1)
        } else {
            prev
        }
    }
}

/// The path of the most recently modified session log among `es`.
pub open spec fn newest_session(es: Seq<WalkEntry>, max_depth: nat) -> Option<Seq<char>> {
    match newest_index(es, max_depth) {
        Some(i) => Some(es[i].path@),
        None => None,
    }
}

/// Whether one of `e`'s path components is `name`.
fn has_component(e: &WalkEntry, name: &String) -> (r: bool)
    ensures
        r == string_views(e.components@).contains(name@),
{
    let n = e.components.len();
    for j in 0..n
        invariant
            n == e.components@.len(),
            forall|k: int| 0 <= k < j ==> e.components@[k]@ != name@,
    {
        if e.components[j] == *name {
            assert(string_views(e.components@)[j as int] == name@);
            return true;
        }
    }
    proof {
        if string_views(e.components@).contains(name@) {
            let k = choose|k: int|
                0 <= k < string_views(e.components@).len() && string_views(e.components@)[k]
                    == name@;
            assert(e.components@[k]@ == name@);
        }
    }
    false
}

/// Whether `o` holds a string equal to `text`.
fn holds_text(o: &Option<String>, text: &String) -> (r: bool)
    ensures
        r == (opt_string_view(*o) == Some(text@)),
{
    match o {
        Some(s) => *s == *text,
        None => false,
    }
}

/// The most recently modified `.jsonl` file among the entries of a walk
/// that lie at most `max_depth` levels deep, skipping subagent sessions and
/// entries whose modification time is unknown; of several equally recent
/// files, the first one met.
pub fn most_recent_jsonl(entries: &[WalkEntry], max_depth: usize) -> (r: Option<String>)
    ensures
        opt_string_view(r) == newest_session(entries@, max_depth as nat),
{
    let subagents = String::from_str("subagents");
    let jsonl = String::from_str("jsonl");
    let mut best: Option<usize> = None;
    let mut best_time: i128 = 0;
    let n = entries.len();
    for i in 0..n
        invariant
            n == entries@.len(),
            subagents@ == "subagents"@,
            jsonl@ == "jsonl"@,
            match best {
                Some(b) => {
                    &&& newest_index(entries@.take(i as int), max_depth as nat) == Some(b as int)
                    &&& b < i
                    &&& entries@[b as int].modified == Some(best_time)
                },
                None => newest_index(entries@.take(i as int), max_depth as nat) is None,
            },
    {
        let e = &entries[i];
        proof {
            assert(entries@.take(i + 1).drop_last() =~= entries@.take(i as int));
            assert(entries@.take(i + 1).last() == entries@[i as int]);
            if let Some(b) = best {
                assert(entries@.take(i + 1)[b as int] == entries@[b as int]);
            }
        }
        let log = e.depth <= max_depth && !has_component(e, &subagents) && holds_text(&e.extension, &jsonl) && e.is_file
            && e.modified.is_some();
        if log {
            let t = e.modified.unwrap();
            if best.is_none() || t > best_time {
                best = Some(i);
                best_time = t;
            }
        }
    }
    proof {
        assert(entries@.take(n as int) =~= entries@);
    }
    match best {
        Some(b) => Some(entries[b].path.clone()),
        None => None,
    }
}

/// Why a session lookup found nothing.
#[derive(Debug)]
pub enum SessionError {
    /// No session log at all under the directory.
    NoSessionFiles { dir: String },
    /// No log for the session id under the directory.
    SessionNotFound { id: String, dir: String },
}

/// The text of a lookup error.
pub open spec fn error_text(e: SessionError) -> Seq<char> {
    match e {
        SessionError::NoSessionFiles { dir } => "No session files found in "@ + dir@,
        SessionError::SessionNotFound { id, dir } => "Session "@ + id@ + " not found in "@ + dir@,
    }
}

impl SessionError {
    /// The text that explains the error.
    pub fn message(&self) -> (r: String)
        ensures
            r@ == error_text(*self),
    {
        match self {
            SessionError::NoSessionFiles { dir } => {
                let mut out = String::from_str("No session files found in ");
                out.append(dir.as_str());
                out
            },
            SessionError::SessionNotFound { id, dir } => {
                let mut out = String::from_str("Session ");
                out.append(id.as_str());
                out.append(" not found in ");
                out.append(dir.as_str());
                out
            },
        }
    }
}

/// Find the most recently modified session log among the entries of a
/// walk of `session_dir` (down to `GLOBAL_SEARCH_DEPTH`), excluding
/// subagent sessions; an error when there is none.
pub fn find_most_recent_session(session_dir: &str, entries: &[WalkEntry]) -> (r: Result<
    String,
    SessionError,
>)
    ensures
        match r {
            Ok(p) => newest_session(entries@, GLOBAL_SEARCH_DEPTH as nat) == Some(p@),
            Err(e) => {
                &&& newest_session(entries@, GLOBAL_SEARCH_DEPTH as nat) is None
                &&& e matches SessionError::NoSessionFiles { dir } && dir@ == session_dir@
            },
        },
{
    match most_recent_jsonl(entries, GLOBAL_SEARCH_DEPTH) {
        Some(p) => Ok(p),
        None => Err(SessionError::NoSessionFiles { dir: String::from_str(session_dir) }),
    }
}

/// The session that a listing of one project directory yields: nothing
/// when the directory does not exist, else its newest session log.
pub open spec fn listing_session(listing: Option<Vec<WalkEntry>>) -> Option<Seq<char>> {
    match listing {
        Some(es) => newest_session(es@, PROJECT_SEARCH_DEPTH as nat),
        None => None,
    }
}

/// The session of the first listing, among the first `count` from index
/// `from` on, that yields one.
pub open spec fn first_listed(listings: Seq<Option<Vec<WalkEntry>>>, count: int, from: int) -> Option<
    Seq<char>,
>
    decreases count - from,
{
    if from < 0 || from >= count || from >= listings.len() {
        None
    } else {
        match listing_session(listings[from]) {
            Some(p) => Some(p),
            None => first_listed(listings, count, from + 1),
        }
    }
}

/// Find the most recent session of the project that `cwd` belongs to.
///
/// `listings[i]` is the walk (down to `PROJECT_SEARCH_DEPTH`) of the `i`-th
/// directory of `project_dir_candidates(session_dir, cwd)`, or `None` when
/// that directory does not exist. Walking up from `cwd`, the first project
/// directory that holds a session log gives the result, so running from a
/// subdirectory of a project still finds the project's session. `None`
/// when no ancestor has one: callers fall back to the global lookup.
pub fn find_session_for_cwd(session_dir: &str, cwd: &str, listings: &[Option<Vec<WalkEntry>>]) -> (r:
    Option<String>)
    ensures
        opt_string_view(r) == first_listed(
            listings@,
            project_dirs(session_dir@, cwd@).len() as int,
            0,
        ),
{
    let dirs = project_dir_candidates(session_dir, cwd);
    let count = dirs.len();
    let ghost total = project_dirs(session_dir@, cwd@).len() as int;
    assert(string_views(dirs@).len() == dirs@.len());
    let mut i: usize = 0;
    while i < count && i < listings.len()
        invariant
            count == total,
            total == project_dirs(session_dir@, cwd@).len() as int,
            first_listed(listings@, total, 0) == first_listed(listings@, total, i as int),
        decreases count - i,
    {
        if let Some(entries) = &listings[i] {
            if let Some(found) = most_recent_jsonl(entries.as_slice(), PROJECT_SEARCH_DEPTH) {
                return Some(found);
            }
        }
        i = i + 1;
    }
    None
}

/// Whether the entry is the log file of session `id`: a file named
/// `<id>.jsonl` outside any subagent directory.
pub open spec fn is_log_named(e: WalkEntry, id: Seq<char>) -> bool {
    &&& e.depth <= GLOBAL_SEARCH_DEPTH
    &&& !in_subagents(e)
    &&& e.is_file
    &&& opt_string_view(e.file_name) == Some(session_file_name(id))
}

/// The path of the first entry, from index `from` on, that is the log of
/// session `id`.
pub open spec fn first_named(es: Seq<WalkEntry>, id: Seq<char>, from: int) -> Option<Seq<char>>
    decreases es.len() - from,
{
    if from < 0 || from >= es.len() {
        None
    } else if is_log_named(es[from], id) {
        Some(es[from].path@)
    } else {
        first_named(es, id, from + 1)
    }
}

/// Find the log of session `session_id` anywhere in a walk of the session
/// directory, whatever its project directory is named. `None` when the id
/// does not have the shape of a session id or no such file was met.
pub fn find_session_by_name(session_id: &str, entries: &[WalkEntry]) -> (r: Option<String>)
    ensures
        opt_string_view(r) == if valid_session_id(session_id@) {
            first_named(entries@, session_id@, 0)
        } else {
            None
        },
{
    if !is_valid_session_id(session_id) {
        return None;
    }
    let subagents = String::from_str("subagents");
    let mut file = String::from_str(session_id);
    file.append(".jsonl");
    let n = entries.len();
    let mut i: usize = 0;
    while i < n
        invariant
            n == entries@.len(),
            i <= n,
            subagents@ == "subagents"@,
            file@ == session_file_name(session_id@),
            valid_session_id(session_id@),
            first_named(entries@, session_id@, 0) == first_named(entries@, session_id@, i as int),
        decreases n - i,
    {
        let e = &entries[i];
        if e.depth <= GLOBAL_SEARCH_DEPTH && !has_component(e, &subagents) && e.is_file
            && holds_text(&e.file_name, &file) {
            return Some(e.path.clone());
        }
        i = i + 1;
    }
    None
}

/// What a caller gathered from the file system for one session lookup.
#[derive(Debug)]
pub struct SessionProbes {
    /// Whether each path of `session_id_candidates` is an existing file.
    pub id_paths_exist: Vec<bool>,
    /// The entries of a walk of the session directory, down to
    /// `GLOBAL_SEARCH_DEPTH`.
    pub all_entries: Vec<WalkEntry>,
    /// For each directory of `project_dir_candidates`, its walk down to
    /// `PROJECT_SEARCH_DEPTH`, or `None` when it does not exist.
    pub project_listings: Vec<Option<Vec<WalkEntry>>>,
}

/// The session a lookup settled on.
#[derive(Debug)]
pub struct ResolvedSession {
    /// The session log's path.
    pub path: String,
    /// Whether the lookup fell back to the most recent session of all
    /// projects because the working directory's projects had none.
    pub fell_back: bool,
}

/// Whether the lookup is pinned to an exact session id.
pub open spec fn pinned_id(session_id: Option<&str>) -> bool {
    session_id matches Some(id) && valid_session_id(id@)
}

/// The session a lookup settles on, and whether it fell back to the
/// global lookup; `None` when it finds nothing.
///
/// A well-formed session id is looked up exactly, first in the project
/// directories of `cwd` and its ancestors, then anywhere under the
/// session directory; it never falls back to another session. Without one
/// (an absent, empty or malformed id), the newest session of the nearest
/// project directory wins, and failing that the newest of all.
pub open spec fn resolved(
    session_dir: Seq<char>,
    cwd: Seq<char>,
    session_id: Option<&str>,
    probes: SessionProbes,
) -> Option<(Seq<char>, bool)> {
    if pinned_id(session_id) {
        let id = session_id->0@;
        match first_marked(session_id_paths(session_dir, cwd, id), probes.id_paths_exist@, 0) {
            Some(p) => Some((p, false)),
            None => match first_named(probes.all_entries@, id, 0) {
                Some(p) => Some((p, false)),
                None => None,
            },
        }
    } else {
        match first_listed(
            probes.project_listings@,
            project_dirs(session_dir, cwd).len() as int,
            0,
        ) {
            Some(p) => Some((p, false)),
            None => match newest_session(probes.all_entries@, GLOBAL_SEARCH_DEPTH as nat) {
                Some(p) => Some((p, true)),
                None => None,
            },
        }
    }
}

/// Settle which session log to read: an exact id when one is given and
/// well formed, else the working directory's project, else the most
/// recent session overall. A well-formed id that cannot be found is an
/// error rather than a silent fall-back to some other conversation.
pub fn resolve_session(
    session_dir: &str,
    cwd: &str,
    session_id: Option<&str>,
    probes: &SessionProbes,
) -> (r: Result<ResolvedSession, SessionError>)
    ensures
        match r {
            Ok(res) => resolved(session_dir@, cwd@, session_id, *probes) == Some(
                (res.path@, res.fell_back),
            ),
            Err(e) => {
                &&& resolved(session_dir@, cwd@, session_id, *probes) is None
                &&& if pinned_id(session_id) {
                    e matches SessionError::SessionNotFound { id, dir } && id@ == session_id->0@
                        && dir@ == session_dir@
                } else {
                    e matches SessionError::NoSessionFiles { dir } && dir@ == session_dir@
                }
            },
        },
{
    let pinned = match session_id {
        Some(id) => is_valid_session_id(id),
        None => false,
    };
    if pinned {
        let id = session_id.unwrap();
        match find_session_by_id(session_dir, cwd, id, probes.id_paths_exist.as_slice()) {
            Some(p) => Ok(ResolvedSession { path: p, fell_back: false }),
            None => match find_session_by_name(id, probes.all_entries.as_slice()) {
                Some(p) => Ok(ResolvedSession { path: p, fell_back: false }),
                None => Err(
                    SessionError::SessionNotFound {
                        id: String::from_str(id),
                        dir: String::from_str(session_dir),
                    },
                ),
            },
        }
    } else {
        match find_session_for_cwd(session_dir, cwd, probes.project_listings.as_slice()) {
            Some(p) => Ok(ResolvedSession { path: p, fell_back: false }),
            None => match find_most_recent_session(session_dir, probes.all_entries.as_slice()) {
                Ok(p) => Ok(ResolvedSession { path: p, fell_back: true }),
                Err(e) => Err(e),
            },
        }
    }
}

} // verus!

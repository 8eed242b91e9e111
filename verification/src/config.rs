//! Where the editor keeps its files: in the configuration directory that the
//! system gives the application.
use vstd::prelude::*;
use vstd::string::*;
use crate::error::IcyDrawError;

verus! {

/// The configuration directory of the application named by `qualifier`,
/// `organization` and `application`, through `directories::ProjectDirs::from`
/// and `ProjectDirs::config_dir`. What it is, and whether there is one,
/// depends on the operating system and the user's environment, so nothing is
/// stated of the result.
#[verifier::external_body]
fn project_config_dir(qualifier: &str, organization: &str, application: &str) -> (r: Option<String>) {
    match directories::ProjectDirs::from(qualifier, organization, application) {
        Some(dirs) => Some(dirs.config_dir().to_string_lossy().into_owned()),
        None => None,
    }
}

/// A path that starts with a verbatim prefix (`\\?\`, Windows only).
pub open spec fn verbatim(p: Seq<char>) -> bool {
    p.len() >= 4 && p[0] == '\\' && p[1] == '\\' && p[2] == '?' && p[3] == '\\'
}

/// A name that is relative on every platform: not empty, with no root (`/`
/// or `\` in front) and no prefix (no `:` anywhere).
pub open spec fn plain_relative(name: Seq<char>) -> bool {
    &&& name.len() > 0
    &&& name[0] != '/'
    &&& name[0] != '\\'
    &&& forall|i: int| 0 <= i < name.len() ==> #[trigger] name[i] != ':'
}

/// A Windows drive with nothing after it, such as `C:`.
pub open spec fn drive_only(d: Seq<char>) -> bool {
    &&& d.len() == 2
    &&& d[1] == ':'
    &&& ((65 <= (d[0] as u32) && (d[0] as u32) <= 90) || (97 <= (d[0] as u32) && (d[0] as u32) <= 122))
}

/// `name` put inside `dir` where `/` alone separates: after a `/`, unless
/// `dir` is empty or already ends with one.
pub open spec fn unix_join(dir: Seq<char>, name: Seq<char>) -> Seq<char> {
    if dir.len() == 0 || dir.last() == '/' {
        dir + name
    } else {
        dir + seq!['/'] + name
    }
}

/// `name` put inside `dir` where `/` and `\` separate: after a `\`, unless
/// `dir` is empty, already ends with a separator, or is a drive alone.
pub open spec fn windows_join(dir: Seq<char>, name: Seq<char>) -> Seq<char> {
    if dir.len() == 0 || dir.last() == '/' || dir.last() == '\\' || drive_only(dir) {
        dir + name
    } else {
        dir + seq!['\\'] + name
    }
}

/// `p` is `dir` extended with `name`: `name` appended, after the platform's
/// separator where one is needed.
pub open spec fn extended_with(dir: Seq<char>, name: Seq<char>, p: Seq<char>) -> bool {
    p == unix_join(dir, name) || p == windows_join(dir, name)
}

/// Whether `p` ends with `name`.
pub open spec fn ends_with(p: Seq<char>, name: Seq<char>) -> bool {
    p.len() >= name.len() && p.subrange(p.len() - name.len(), p.len() as int) == name
}

/// What joining the relative name `name` to the directory `dir` gives: `dir`
/// extended with `name`; where `dir` has a verbatim prefix (which makes the
/// joined path normalized), a path with that prefix.
pub open spec fn joined(dir: Seq<char>, name: Seq<char>, p: Seq<char>) -> bool {
    if verbatim(dir) {
        verbatim(p)
    } else {
        extended_with(dir, name, p)
    }
}

/// The path `name` inside the directory `dir`, through
/// `std::path::Path::join`, which extends `dir` with `name` as
/// `PathBuf::push` does: a relative `name` is appended after the platform's
/// separator (`/`; `\` on Windows) unless `dir` is empty, already ends with
/// a separator, or (on Windows) is a drive alone, and where `dir` has a verbatim prefix the result is
/// normalized but keeps that prefix. Which separator is used depends on the
/// platform, and what a `name` that is absolute or has a prefix does is not
/// stated.
#[verifier::external_body]
fn join_path(dir: &str, name: &str) -> (r: String)
    ensures
        plain_relative(name@) ==> joined(dir@, name@, r@),
{
    std::path::Path::new(dir).join(name).to_string_lossy().into_owned()
}

/// A relative name joined to a directory that neither is empty, nor ends
/// with a separator, nor is a drive alone or verbatim lies inside it: the
/// path is the directory, one separator, and the name.
pub proof fn lemma_joined_inside(dir: Seq<char>, name: Seq<char>, p: Seq<char>)
    requires
        joined(dir, name, p),
        !verbatim(dir),
        dir.len() > 0,
        dir.last() != '/',
        dir.last() != '\\',
        !drive_only(dir),
    ensures
        p == dir + seq!['/'] + name || p == dir + seq!['\\'] + name,
        p.len() == dir.len() + 1 + name.len(),
        p.subrange(0, dir.len() as int) == dir,
        p.subrange(dir.len() + 1int, p.len() as int) == name,
{
    assert((dir + seq!['/'] + name).subrange(0, dir.len() as int) =~= dir);
    assert((dir + seq!['\\'] + name).subrange(0, dir.len() as int) =~= dir);
    assert((dir + seq!['/'] + name).subrange(dir.len() + 1int, dir.len() + 1int + name.len()) =~= name);
    assert((dir + seq!['\\'] + name).subrange(dir.len() + 1int, dir.len() + 1int + name.len()) =~= name);
}

/// The path `name` inside the configuration directory `dir`; where there is
/// no such directory, the error that names `what`.
pub fn path_in_config_dir(dir: Option<String>, name: &str, what: &str) -> (r: Result<String, IcyDrawError>)
    ensures
        dir is None <==> r is Err,
        r matches Err(e) ==> (e matches IcyDrawError::ErrorCreatingDirectory(m) && m@ == what@),
        plain_relative(name@) ==> (r matches Ok(p) ==> joined(dir->Some_0@, name@, p@)),
{
    match dir {
        Some(d) => Ok(join_path(d.as_str(), name)),
        None => Err(IcyDrawError::ErrorCreatingDirectory(String::from_str(what))),
    }
}

/// The names by which the system knows icy_draw: qualifier, organization
/// and application, as the configuration directory is looked up with them.
pub fn app_ids() -> (r: (&'static str, &'static str, &'static str))
    ensures
        r.0@ == "com"@,
        r.1@ == "GitHub"@,
        r.2@ == "icy_draw"@,
{
    ("com", "GitHub", "icy_draw")
}

/// The configuration directory that the system gives icy_draw (looked up
/// with `app_ids`), if it gives one. It depends on the operating system and
/// the user's environment, so nothing is stated of it.
pub fn config_dir() -> Option<String> {
    let ids = app_ids();
    project_config_dir(ids.0, ids.1, ids.2)
}

/// The file that holds the key bindings, in the configuration directory
/// `dir`; the error that names "key_bindings" where there is none.
pub fn key_bindings_file(dir: Option<String>) -> (r: Result<String, IcyDrawError>)
    ensures
        dir is None <==> r is Err,
        r matches Err(e) ==> (e matches IcyDrawError::ErrorCreatingDirectory(m) && m@ == "key_bindings"@),
        r matches Ok(p) ==> joined(dir->Some_0@, "key_bindings.json"@, p@),
{
    proof {
        reveal_strlit("key_bindings.json");
    }
    path_in_config_dir(dir, "key_bindings.json", "key_bindings")
}

/// The size in bytes above which the log file is deleted when the editor
/// starts.
pub const MAX_LOG_FILE_SIZE: u64 = 262144;

/// Whether a log file of `len` bytes is deleted when the editor starts.
pub fn log_file_too_large(len: u64) -> (r: bool)
    ensures
        r == (len > MAX_LOG_FILE_SIZE),
{
    len > MAX_LOG_FILE_SIZE
}

} // verus!

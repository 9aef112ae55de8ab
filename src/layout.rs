//! Where the server and the extension live on disk.

use vstd::prelude::*;

use crate::text::has_suffix;

verus! {

/// Version of the PostgreSQL server that is installed and run.
pub const PG_VERSION: &'static str = "16.3.0";

/// Name of the database that the demonstration works in.
pub const DATABASE_NAME: &'static str = "test";

/// Appending one relative component to a path, with a single `/` between them.
pub open spec fn joined(base: Seq<char>, name: Seq<char>) -> Seq<char> {
    if base.len() == 0 {
        name
    } else if base.last() == '/' {
        base + name
    } else {
        base + seq!['/'] + name
    }
}

/// `base` joined with the relative component `name`, as `Path::join` does on Unix.
pub fn join_path(base: &str, name: &str) -> (r: String)
    ensures
        r@ == joined(base@, name@),
{
    if base.is_empty() {
        return name.to_owned();
    }
    let mut r = base.to_owned();
    let slash = "/";
    proof {
        reveal_strlit("/");
    }
    if !has_suffix(base, slash) {
        r.append(slash);
    } else {
        assert(base@.last() == '/') by {
            assert(base@[base@.len() - 1] == slash@[0]);
        }
    }
    r.append(name);
    r
}

/// The directory that holds the server's files: `<cwd>/data`.
pub open spec fn storage_dir_of(cwd: Seq<char>) -> Seq<char> {
    joined(cwd, "data"@)
}

/// The file that keeps the server's password between runs.
pub open spec fn password_file_of(storage: Seq<char>) -> Seq<char> {
    joined(storage, ".pgpass"@)
}

/// The directory that the server's binaries are installed under.
pub open spec fn installation_dir_of(storage: Seq<char>) -> Seq<char> {
    joined(storage, "pg"@)
}

/// The directory that the server keeps its databases in.
pub open spec fn data_dir_of(storage: Seq<char>) -> Seq<char> {
    joined(storage, "pg_data"@)
}

/// The installation tree of the server version in use.
pub open spec fn version_dir_of(install: Seq<char>) -> Seq<char> {
    joined(install, PG_VERSION@)
}

/// The server's directory of loadable libraries.
pub open spec fn library_dir_of(install: Seq<char>) -> Seq<char> {
    joined(version_dir_of(install), "lib"@)
}

/// The server's directory of extension control and schema files.
pub open spec fn extension_dir_of(install: Seq<char>) -> Seq<char> {
    joined(joined(version_dir_of(install), "share"@), "extension"@)
}

/// Where the extension's compiled library is placed.
pub open spec fn library_file_of(install: Seq<char>) -> Seq<char> {
    joined(library_dir_of(install), "vectors.so"@)
}

/// `<cwd>/data`.
pub fn storage_dir(cwd: &str) -> (r: String)
    ensures
        r@ == storage_dir_of(cwd@),
{
    join_path(cwd, "data")
}

/// `<storage>/.pgpass`.
pub fn password_file(storage: &str) -> (r: String)
    ensures
        r@ == password_file_of(storage@),
{
    join_path(storage, ".pgpass")
}

/// `<storage>/pg`.
pub fn installation_dir(storage: &str) -> (r: String)
    ensures
        r@ == installation_dir_of(storage@),
{
    join_path(storage, "pg")
}

/// `<storage>/pg_data`.
pub fn data_dir(storage: &str) -> (r: String)
    ensures
        r@ == data_dir_of(storage@),
{
    join_path(storage, "pg_data")
}

/// `<install>/<version>`.
pub fn version_dir(install: &str) -> (r: String)
    ensures
        r@ == version_dir_of(install@),
{
    join_path(install, PG_VERSION)
}

/// `<install>/<version>/lib`.
pub fn library_dir(install: &str) -> (r: String)
    ensures
        r@ == library_dir_of(install@),
{
    let v = version_dir(install);
    join_path(v.as_str(), "lib")
}

/// `<install>/<version>/share/extension`.
pub fn extension_dir(install: &str) -> (r: String)
    ensures
        r@ == extension_dir_of(install@),
{
    let v = version_dir(install);
    let share = join_path(v.as_str(), "share");
    join_path(share.as_str(), "extension")
}

/// The file whose presence marks the extension as installed:
/// `<install>/<version>/lib/vectors.so`. Only its existence is looked at,
/// not its content.
pub fn library_file(install: &str) -> (r: String)
    ensures
        r@ == library_file_of(install@),
{
    let lib = library_dir(install);
    join_path(lib.as_str(), "vectors.so")
}

} // verus!

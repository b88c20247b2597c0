//! Verified startup computations: the project root derived from the
//! executable's directory, the development backend directory and
//! interpreter below it, the command line the backend is started with,
//! the database file path, and the base URL handed to the front-end views.

use crate::paths::join_spec;
use crate::paths::last_sep_idx;
use crate::text::dec_spec;
use crate::text::u16_to_dec;
use vstd::prelude::*;
use vstd::string::StringExecFns;

verus! {

/// How many directories lie between the executable's directory and the
/// project root in a development build.
pub const PARENTS_TO_PROJECT_ROOT: u32 = 5;

/// The result of cutting `s` at its last separator `n` times, or nothing
/// when a cut finds no separator.
pub open spec fn nth_parent_spec(s: Seq<char>, sep: char, n: nat) -> Option<Seq<char>>
    decreases n,
{
    if n == 0 {
        Some(s)
    } else if last_sep_idx(s, sep) < 0 {
        None
    } else {
        nth_parent_spec(s.subrange(0, last_sep_idx(s, sep)), sep, (n - 1) as nat)
    }
}

/// Walks up `n` parent directories from `p`.
pub fn nth_parent(p: &str, sep: &str, n: u32) -> (r: Option<String>)
    requires
        sep@.len() == 1,
    ensures
        match r {
            Some(q) => nth_parent_spec(p@, sep@[0], n as nat) == Some(q@),
            None => nth_parent_spec(p@, sep@[0], n as nat) is None,
        },
    decreases n,
{
    if n == 0 {
        Some(String::from_str(p))
    } else {
        match crate::paths::parent_dir(p, sep) {
            Some(q) => nth_parent(q.as_str(), sep, n - 1),
            None => None,
        }
    }
}

/// The project root in a development build: five directories above the
/// executable's directory, or nothing when the path is too shallow.
pub fn project_root_from_exe_dir(exe_dir: &str, sep: &str) -> (r: Option<String>)
    requires
        sep@.len() == 1,
    ensures
        match r {
            Some(q) => nth_parent_spec(exe_dir@, sep@[0], PARENTS_TO_PROJECT_ROOT as nat) == Some(
                q@,
            ),
            None => nth_parent_spec(exe_dir@, sep@[0], PARENTS_TO_PROJECT_ROOT as nat) is None,
        },
{
    nth_parent(exe_dir, sep, PARENTS_TO_PROJECT_ROOT)
}

/// The development backend directory under the project root.
pub fn dev_backend_dir(project_root: &str, sep: &str) -> (r: String)
    ensures
        r@ == project_root@ + sep@ + "app"@ + sep@ + "backend"@,
{
    let under_app = crate::paths::join_path(project_root, sep, "app");
    let r = crate::paths::join_path(under_app.as_str(), sep, "backend");
    proof {
        assert(r@ =~= project_root@ + sep@ + "app"@ + sep@ + "backend"@);
    }
    r
}

/// The virtual-environment interpreter a development backend is started
/// with: the `Scripts` layout on Windows, the `bin` layout elsewhere.
pub open spec fn dev_python_spec(backend_dir: Seq<char>, sep: Seq<char>, windows: bool) -> Seq<
    char,
> {
    if windows {
        backend_dir + sep + "venv"@ + sep + "Scripts"@ + sep + "python.exe"@
    } else {
        backend_dir + sep + "venv"@ + sep + "bin"@ + sep + "python"@
    }
}

/// Builds the path of the development backend's interpreter.
pub fn dev_python_exe(backend_dir: &str, sep: &str, windows: bool) -> (r: String)
    ensures
        r@ == dev_python_spec(backend_dir@, sep@, windows),
{
    let venv = crate::paths::join_path(backend_dir, sep, "venv");
    let r = if windows {
        let scripts = crate::paths::join_path(venv.as_str(), sep, "Scripts");
        crate::paths::join_path(scripts.as_str(), sep, "python.exe")
    } else {
        let bin = crate::paths::join_path(venv.as_str(), sep, "bin");
        crate::paths::join_path(bin.as_str(), sep, "python")
    };
    proof {
        assert(r@ =~= dev_python_spec(backend_dir@, sep@, windows));
    }
    r
}

/// The arguments the backend module is started with: run the `api` module
/// on the chosen port against the database file.
pub open spec fn backend_args_spec(port: nat, db: Seq<char>) -> Seq<Seq<char>> {
    seq!["-m"@, "api"@, "--port"@, dec_spec(port), "--db"@, db]
}

/// Builds the backend's command-line arguments.
pub fn backend_args(port: u16, db: &str) -> (r: Vec<String>)
    ensures
        r.deep_view() == backend_args_spec(port as nat, db@),
{
    let mut r: Vec<String> = Vec::new();
    r.push(String::from_str("-m"));
    r.push(String::from_str("api"));
    r.push(String::from_str("--port"));
    r.push(u16_to_dec(port));
    r.push(String::from_str("--db"));
    r.push(String::from_str(db));
    proof {
        assert(r.deep_view() =~= backend_args_spec(port as nat, db@));
    }
    r
}

/// The database file inside the application's data directory.
pub fn db_file_path(data_dir: &str, sep: &str) -> (r: String)
    ensures
        r@ == join_spec(data_dir@, sep@, "app.db"@),
{
    crate::paths::join_path(data_dir, sep, "app.db")
}

/// The base URL the front-end views reach the backend at.
pub open spec fn api_base_spec(port: nat) -> Seq<char> {
    "http://127.0.0.1:"@ + dec_spec(port)
}

/// Builds the backend's base URL for the chosen port.
pub fn api_base_url(port: u16) -> (r: String)
    ensures
        r@ == api_base_spec(port as nat),
{
    let mut r = String::from_str("http://127.0.0.1:");
    let digits = u16_to_dec(port);
    r.append(digits.as_str());
    r
}

/// The interpreter used when the virtual environment fails to start: the
/// one named by the environment, or plain `python` when none is named.
pub fn fallback_python(env_python: Option<String>) -> (r: String)
    ensures
        match env_python {
            Some(p) => r@ == p@,
            None => r@ == "python"@,
        },
{
    match env_python {
        Some(p) => p,
        None => String::from_str("python"),
    }
}

} // verus!

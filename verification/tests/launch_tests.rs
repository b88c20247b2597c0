use voice_shell::launch::api_base_url;
use voice_shell::launch::backend_args;
use voice_shell::launch::db_file_path;
use voice_shell::launch::dev_backend_dir;
use voice_shell::launch::dev_python_exe;
use voice_shell::launch::fallback_python;
use voice_shell::launch::nth_parent;
use voice_shell::launch::project_root_from_exe_dir;
use voice_shell::launch::PARENTS_TO_PROJECT_ROOT;

fn strings(items: &[&str]) -> Vec<String> {
    items.iter().map(|s| s.to_string()).collect()
}

#[test]
fn nth_parent_zero_is_identity() {
    assert_eq!(nth_parent("a/b", "/", 0), Some("a/b".to_string()));
}

#[test]
fn nth_parent_walks_up() {
    assert_eq!(nth_parent("a/b/c/d/e/f", "/", 5), Some("a".to_string()));
    assert_eq!(nth_parent("a/b/c", "/", 2), Some("a".to_string()));
}

#[test]
fn nth_parent_too_shallow() {
    assert_eq!(nth_parent("a/b", "/", 5), None);
}

#[test]
fn project_root_five_levels_up() {
    let exe_dir = "home/u/proj/app/ui/src-tauri/target/debug";
    assert_eq!(project_root_from_exe_dir(exe_dir, "/"), Some("home/u/proj".to_string()));
    assert_eq!(PARENTS_TO_PROJECT_ROOT, 5);
}

#[test]
fn project_root_too_shallow() {
    assert_eq!(project_root_from_exe_dir("target/debug", "/"), None);
}

#[test]
fn backend_dir_under_root() {
    assert_eq!(dev_backend_dir("root", "/"), "root/app/backend");
}

#[test]
fn python_exe_windows_layout() {
    assert_eq!(
        dev_python_exe("bd", "\\", true),
        "bd\\venv\\Scripts\\python.exe"
    );
}

#[test]
fn python_exe_unix_layout() {
    assert_eq!(dev_python_exe("bd", "/", false), "bd/venv/bin/python");
}

#[test]
fn backend_arg_list() {
    assert_eq!(
        backend_args(8080, "d/app.db"),
        strings(&["-m", "api", "--port", "8080", "--db", "d/app.db"])
    );
}

#[test]
fn db_path_in_data_dir() {
    assert_eq!(db_file_path("data", "/"), "data/app.db");
}

#[test]
fn api_base_for_port() {
    assert_eq!(api_base_url(8080), "http://127.0.0.1:8080");
    assert_eq!(api_base_url(0), "http://127.0.0.1:0");
    assert_eq!(api_base_url(u16::MAX), "http://127.0.0.1:65535");
}

#[test]
fn fallback_python_from_environment() {
    assert_eq!(fallback_python(Some("py3".to_string())), "py3");
}

#[test]
fn fallback_python_default() {
    assert_eq!(fallback_python(None), "python");
}

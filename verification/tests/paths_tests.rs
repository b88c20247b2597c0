use voice_shell::paths::ancestors;
use voice_shell::paths::backend_candidates;
use voice_shell::paths::choose_backend_dir;
use voice_shell::paths::choose_python;
use voice_shell::paths::contains_string;
use voice_shell::paths::dedup_paths;
use voice_shell::paths::join_path;
use voice_shell::paths::parent_dir;
use voice_shell::paths::python_commands;
use voice_shell::paths::select_first;
use voice_shell::paths::venv_candidates;

fn strings(items: &[&str]) -> Vec<String> {
    items.iter().map(|s| s.to_string()).collect()
}

#[test]
fn join_simple() {
    assert_eq!(join_path("a", "/", "b"), "a/b");
    assert_eq!(join_path("c:", "\\", "dir"), "c:\\dir");
}

#[test]
fn parent_of_nested() {
    assert_eq!(parent_dir("a/b/c", "/"), Some("a/b".to_string()));
}

#[test]
fn parent_of_separator_free() {
    assert_eq!(parent_dir("abc", "/"), None);
}

#[test]
fn parent_of_rooted() {
    assert_eq!(parent_dir("/a", "/"), Some("".to_string()));
}

#[test]
fn parent_of_trailing_separator() {
    assert_eq!(parent_dir("a/", "/"), Some("a".to_string()));
}

#[test]
fn ancestors_chain() {
    assert_eq!(ancestors("a/b/c", "/"), strings(&["a/b/c", "a/b", "a"]));
}

#[test]
fn ancestors_rooted() {
    assert_eq!(ancestors("/a/b", "/"), strings(&["/a/b", "/a", ""]));
}

#[test]
fn ancestors_single() {
    assert_eq!(ancestors("a", "/"), strings(&["a"]));
}

#[test]
fn dedup_keeps_first_occurrences() {
    let v = strings(&["a", "b", "a", "c", "b"]);
    assert_eq!(dedup_paths(&v), strings(&["a", "b", "c"]));
}

#[test]
fn dedup_empty() {
    let v: Vec<String> = Vec::new();
    assert_eq!(dedup_paths(&v), Vec::<String>::new());
}

#[test]
fn dedup_no_duplicates() {
    let v = strings(&["x", "y"]);
    assert_eq!(dedup_paths(&v), strings(&["x", "y"]));
}

#[test]
fn contains_string_finds() {
    let v = strings(&["a", "b"]);
    assert!(contains_string(&v, &"b".to_string()));
    assert!(!contains_string(&v, &"c".to_string()));
}

#[test]
fn venv_candidate_order() {
    let c = venv_candidates("bd", "/");
    assert_eq!(
        c,
        strings(&[
            "bd/venv/Scripts/python.exe",
            "bd/.venv/Scripts/python.exe",
            "bd/venv/bin/python3",
            "bd/.venv/bin/python3",
            "bd/venv/bin/python",
            "bd/.venv/bin/python",
        ])
    );
}

#[test]
fn python_command_order() {
    assert_eq!(python_commands(), strings(&["py", "python3", "python"]));
}

#[test]
fn backend_candidates_per_base() {
    let bases = strings(&["r1", "r2"]);
    assert_eq!(
        backend_candidates(&bases, "/"),
        strings(&["r1/app/backend", "r1/backend", "r2/app/backend", "r2/backend"])
    );
}

#[test]
fn backend_candidates_empty() {
    let bases: Vec<String> = Vec::new();
    assert_eq!(backend_candidates(&bases, "/"), Vec::<String>::new());
}

#[test]
fn select_first_hit_in_middle() {
    let c = strings(&["a", "b", "c"]);
    let ok = vec![false, true, true];
    assert_eq!(select_first(&c, &ok), Some("b".to_string()));
}

#[test]
fn select_first_none() {
    let c = strings(&["a", "b"]);
    let ok = vec![false, false];
    assert_eq!(select_first(&c, &ok), None);
}

#[test]
fn select_first_empty() {
    let c: Vec<String> = Vec::new();
    let ok: Vec<bool> = Vec::new();
    assert_eq!(select_first(&c, &ok), None);
}

#[test]
fn choose_python_prefers_venv() {
    let venv = strings(&["v1", "v2"]);
    let commands = strings(&["py", "python3", "python"]);
    let r = choose_python(&venv, &vec![false, true], &commands, &vec![true, true, true]);
    assert_eq!(r, "v2");
}

#[test]
fn choose_python_falls_back_to_commands() {
    let venv = strings(&["v1", "v2"]);
    let commands = strings(&["py", "python3", "python"]);
    let r = choose_python(&venv, &vec![false, false], &commands, &vec![false, true, false]);
    assert_eq!(r, "python3");
}

#[test]
fn choose_python_final_fallback() {
    let venv = strings(&["v1"]);
    let commands = strings(&["py", "python3", "python"]);
    let r = choose_python(&venv, &vec![false], &commands, &vec![false, false, false]);
    assert_eq!(r, "python");
}

#[test]
fn choose_backend_dir_first_found() {
    let c = strings(&["x/app/backend", "x/backend"]);
    assert_eq!(choose_backend_dir(&c, &vec![false, true], "cwd"), "x/backend");
}

#[test]
fn choose_backend_dir_fallback() {
    let c = strings(&["x/app/backend"]);
    assert_eq!(choose_backend_dir(&c, &vec![false], "cwd"), "cwd");
}

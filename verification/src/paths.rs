//! Verified path-string manipulation: joining components, walking up to
//! parent directories, enumerating the candidate locations of the backend
//! directory and of a Python interpreter, removing duplicate candidates, and
//! selecting the first candidate whose filesystem probe succeeded.
//!
//! Paths are plain strings; the directory separator is a one-character
//! string handed in by the caller, so the same logic serves both `/` and
//! `\` conventions.

use vstd::prelude::*;
use vstd::std_specs::vec::vec_index;
use vstd::string::StrSliceExecFns;
use vstd::string::StringExecFns;

verus! {

/// `dir`, then the separator, then `name`.
pub open spec fn join_spec(dir: Seq<char>, sep: Seq<char>, name: Seq<char>) -> Seq<char> {
    dir + sep + name
}

/// Joins one component onto `dir` with the separator `sep`.
pub fn join_path(dir: &str, sep: &str, name: &str) -> (r: String)
    ensures
        r@ == join_spec(dir@, sep@, name@),
{
    let mut r = String::from_str(dir);
    r.append(sep);
    r.append(name);
    r
}

/// The position of the last occurrence of `sep` in `s`, or `-1` when `s`
/// has none.
pub open spec fn last_sep_idx(s: Seq<char>, sep: char) -> int
    decreases s.len(),
{
    if s.len() == 0 {
        -1
    } else if s.last() == sep {
        s.len() - 1
    } else {
        last_sep_idx(s.drop_last(), sep)
    }
}

/// `last_sep_idx` stays within bounds, marks a separator, and nothing after
/// it is one.
proof fn lemma_last_sep_idx(s: Seq<char>, sep: char)
    ensures
        -1 <= last_sep_idx(s, sep) < s.len(),
        last_sep_idx(s, sep) >= 0 ==> s[last_sep_idx(s, sep)] == sep,
        forall|j: int| last_sep_idx(s, sep) < j < s.len() ==> s[j] != sep,
    decreases s.len(),
{
    if s.len() == 0 {
    } else if s.last() == sep {
    } else {
        lemma_last_sep_idx(s.drop_last(), sep);
        let t = s.drop_last();
        assert forall|j: int| last_sep_idx(s, sep) < j < s.len() implies s[j] != sep by {
            if j < t.len() {
                assert(t[j] != sep);
            }
        }
    }
}

/// A separator at `i` with none after it is the last one.
proof fn lemma_last_sep_idx_at(s: Seq<char>, sep: char, i: int)
    requires
        0 <= i < s.len(),
        s[i] == sep,
        forall|j: int| i < j < s.len() ==> s[j] != sep,
    ensures
        last_sep_idx(s, sep) == i,
    decreases s.len(),
{
    if i == s.len() - 1 {
    } else {
        assert(s.last() != sep);
        let t = s.drop_last();
        assert(forall|j: int| i < j < t.len() ==> t[j] != sep);
        lemma_last_sep_idx_at(t, sep, i);
    }
}

/// With no separator anywhere there is no last one.
proof fn lemma_last_sep_idx_none(s: Seq<char>, sep: char)
    requires
        forall|j: int| 0 <= j < s.len() ==> s[j] != sep,
    ensures
        last_sep_idx(s, sep) == -1,
    decreases s.len(),
{
    if s.len() == 0 {
    } else {
        lemma_last_sep_idx_none(s.drop_last(), sep);
    }
}

/// Everything before the last separator of `p`, or nothing when `p` has no
/// separator.  The result of `Some` is strictly shorter than `p`.
pub fn parent_dir(p: &str, sep: &str) -> (r: Option<String>)
    requires
        sep@.len() == 1,
    ensures
        match r {
            Some(q) => {
                &&& last_sep_idx(p@, sep@[0]) >= 0
                &&& q@ == p@.subrange(0, last_sep_idx(p@, sep@[0]))
                &&& q@.len() < p@.len()
            },
            None => last_sep_idx(p@, sep@[0]) == -1,
        },
{
    let len = p.unicode_len();
    let sep_char = sep.get_char(0);
    let mut j: usize = len;
    while j > 0
        invariant
            0 <= j <= len,
            len == p@.len(),
            sep_char == sep@[0],
            forall|m: int| j <= m < len ==> p@[m] != sep_char,
        decreases j,
    {
        if p.get_char(j - 1) == sep_char {
            proof {
                lemma_last_sep_idx_at(p@, sep_char, j - 1);
            }
            let q = p.substring_char(0, j - 1);
            proof {
                lemma_last_sep_idx(p@, sep_char);
            }
            return Some(String::from_str(q));
        }
        j = j - 1;
    }
    proof {
        lemma_last_sep_idx_none(p@, sep_char);
    }
    None
}

/// The chain of prefixes of `s` obtained by repeatedly cutting at the last
/// separator: `s` itself first, ending with a prefix that has no separator.
pub open spec fn ancestors_spec(s: Seq<char>, sep: char) -> Seq<Seq<char>>
    decreases s.len(),
    via ancestors_spec_decreases
{
    if last_sep_idx(s, sep) < 0 {
        seq![s]
    } else {
        seq![s] + ancestors_spec(s.subrange(0, last_sep_idx(s, sep)), sep)
    }
}

#[via_fn]
proof fn ancestors_spec_decreases(s: Seq<char>, sep: char) {
    lemma_last_sep_idx(s, sep);
}

/// All ancestors of `p`: `p` first, then each parent in turn.
pub fn ancestors(p: &str, sep: &str) -> (r: Vec<String>)
    requires
        sep@.len() == 1,
    ensures
        r.deep_view() == ancestors_spec(p@, sep@[0]),
    decreases p@.len(),
{
    let mut r: Vec<String> = Vec::new();
    r.push(String::from_str(p));
    match parent_dir(p, sep) {
        Some(q) => {
            let mut rest = ancestors(q.as_str(), sep);
            r.append(&mut rest);
            proof {
                assert(r.deep_view() =~= ancestors_spec(p@, sep@[0]));
            }
        },
        None => {
            proof {
                assert(r.deep_view() =~= ancestors_spec(p@, sep@[0]));
            }
        },
    }
    r
}

/// Whether some element of `v` reads `x`.
pub fn contains_string(v: &Vec<String>, x: &String) -> (r: bool)
    ensures
        r == v.deep_view().contains(x@),
{
    let mut i: usize = 0;
    while i < v.len()
        invariant
            0 <= i <= v@.len(),
            forall|j: int| 0 <= j < i ==> v.deep_view()[j] != x@,
        decreases v@.len() - i,
    {
        if vec_index(v, i).eq(x) {
            proof {
                assert(v.deep_view()[i as int] == x@);
            }
            return true;
        }
        i = i + 1;
    }
    proof {
        if v.deep_view().contains(x@) {
            let j = choose|j: int| 0 <= j < v.deep_view().len() && v.deep_view()[j] == x@;
            assert(false);
        }
    }
    false
}

/// `s` with every repeated element removed: each element keeps its first
/// occurrence and the order of first occurrences is preserved.
pub open spec fn first_occurrences(s: Seq<Seq<char>>) -> Seq<Seq<char>>
    decreases s.len(),
{
    if s.len() == 0 {
        s
    } else {
        let front = first_occurrences(s.drop_last());
        if s.drop_last().contains(s.last()) {
            front
        } else {
            front.push(s.last())
        }
    }
}

/// Removes duplicate paths, keeping the first occurrence of each and the
/// order in which they first appear.
pub fn dedup_paths(v: &Vec<String>) -> (r: Vec<String>)
    ensures
        r.deep_view() == first_occurrences(v.deep_view()),
{
    let mut r: Vec<String> = Vec::new();
    let mut i: usize = 0;
    while i < v.len()
        invariant
            0 <= i <= v@.len(),
            r.deep_view() == first_occurrences(v.deep_view().take(i as int)),
            forall|x: Seq<char>| #[trigger] r.deep_view().contains(x) <==> v.deep_view().take(
                i as int,
            ).contains(x),
        decreases v@.len() - i,
    {
        let ghost prefix = v.deep_view().take(i as int);
        let ghost prefix1 = v.deep_view().take(i + 1);
        proof {
            assert(prefix1.drop_last() =~= prefix);
            assert(prefix1.last() == v.deep_view()[i as int]);
        }
        let x = vec_index(v, i).clone();
        proof {
            assert(x@ == v.deep_view()[i as int]);
        }
        let ghost old_r = r.deep_view();
        if !contains_string(&r, &x) {
            r.push(x);
            proof {
                assert(r.deep_view() =~= old_r.push(prefix1.last()));
                assert(!prefix.contains(prefix1.last()));
                assert(first_occurrences(prefix1) == old_r.push(prefix1.last()));
            }
        } else {
            proof {
                assert(prefix.contains(prefix1.last()));
                assert(first_occurrences(prefix1) == old_r);
            }
        }
        proof {
            assert forall|y: Seq<char>| #[trigger] r.deep_view().contains(y) <==> prefix1.contains(
                y,
            ) by {
                if r.deep_view().contains(y) {
                    let k = choose|k: int| 0 <= k < r.deep_view().len() && r.deep_view()[k] == y;
                    if k < old_r.len() {
                        assert(old_r.contains(y));
                        let m = choose|m: int| 0 <= m < prefix.len() && prefix[m] == y;
                        assert(prefix1[m] == y);
                    } else {
                        assert(y == prefix1.last());
                        assert(prefix1[prefix1.len() - 1] == y);
                    }
                }
                if prefix1.contains(y) {
                    let m = choose|m: int| 0 <= m < prefix1.len() && prefix1[m] == y;
                    if m < prefix.len() {
                        assert(prefix[m] == y);
                        assert(prefix.contains(y));
                        assert(old_r.contains(y));
                        let k = choose|k: int| 0 <= k < old_r.len() && old_r[k] == y;
                        assert(r.deep_view()[k] == y);
                    } else {
                        assert(y == v.deep_view()[i as int]);
                        if old_r.contains(y) {
                            let k = choose|k: int| 0 <= k < old_r.len() && old_r[k] == y;
                            assert(r.deep_view()[k] == y);
                        } else {
                            assert(r.deep_view()[r.deep_view().len() - 1] == y);
                        }
                    }
                }
            }
        }
        i = i + 1;
    }
    proof {
        assert(v.deep_view().take(i as int) =~= v.deep_view());
    }
    r
}

/// The index of the first `true` in `ok`, or `-1` when there is none.
pub open spec fn first_true(ok: Seq<bool>) -> int
    decreases ok.len(),
{
    if ok.len() == 0 {
        -1
    } else if ok[0] {
        0
    } else {
        let r = first_true(ok.drop_first());
        if r < 0 {
            -1
        } else {
            r + 1
        }
    }
}

/// A `true` at `i` with none before it is the first one.
proof fn lemma_first_true_at(ok: Seq<bool>, i: int)
    requires
        0 <= i < ok.len(),
        ok[i],
        forall|j: int| 0 <= j < i ==> !ok[j],
    ensures
        first_true(ok) == i,
    decreases i,
{
    if i == 0 {
    } else {
        assert(!ok[0]);
        let t = ok.drop_first();
        assert(forall|j: int| 0 <= j < i - 1 ==> t[j] == ok[j + 1] && !t[j]);
        assert(t[i - 1]);
        lemma_first_true_at(t, i - 1);
    }
}

/// With no `true` anywhere there is no first one.
proof fn lemma_first_true_none(ok: Seq<bool>)
    requires
        forall|j: int| 0 <= j < ok.len() ==> !ok[j],
    ensures
        first_true(ok) == -1,
    decreases ok.len(),
{
    if ok.len() == 0 {
    } else {
        let t = ok.drop_first();
        assert(forall|j: int| 0 <= j < t.len() ==> t[j] == ok[j + 1]);
        lemma_first_true_none(t);
    }
}

/// The candidate at the first position whose probe succeeded, or `None`
/// when every probe failed.  `ok[i]` reports the probe of `candidates[i]`.
pub fn select_first(candidates: &Vec<String>, ok: &Vec<bool>) -> (r: Option<String>)
    requires
        candidates@.len() == ok@.len(),
    ensures
        match r {
            Some(s) => first_true(ok@) >= 0 && s@ == candidates.deep_view()[first_true(ok@)],
            None => first_true(ok@) == -1,
        },
{
    let mut i: usize = 0;
    while i < ok.len()
        invariant
            0 <= i <= ok@.len(),
            candidates@.len() == ok@.len(),
            forall|j: int| 0 <= j < i ==> !ok@[j],
        decreases ok@.len() - i,
    {
        if *vec_index(ok, i) {
            proof {
                lemma_first_true_at(ok@, i as int);
            }
            return Some(vec_index(candidates, i).clone());
        }
        i = i + 1;
    }
    proof {
        lemma_first_true_none(ok@);
    }
    None
}

/// The interpreter locations probed inside a backend directory, in order of
/// preference: the `venv` and `.venv` virtual environments, first with the
/// Windows `Scripts` layout, then the Unix `bin` layout with `python3`
/// before `python`.
pub open spec fn venv_candidates_spec(dir: Seq<char>, sep: Seq<char>) -> Seq<Seq<char>> {
    seq![
        dir + sep + "venv"@ + sep + "Scripts"@ + sep + "python.exe"@,
        dir + sep + ".venv"@ + sep + "Scripts"@ + sep + "python.exe"@,
        dir + sep + "venv"@ + sep + "bin"@ + sep + "python3"@,
        dir + sep + ".venv"@ + sep + "bin"@ + sep + "python3"@,
        dir + sep + "venv"@ + sep + "bin"@ + sep + "python"@,
        dir + sep + ".venv"@ + sep + "bin"@ + sep + "python"@,
    ]
}

/// Builds the interpreter candidates for `backend_dir`.
pub fn venv_candidates(backend_dir: &str, sep: &str) -> (r: Vec<String>)
    ensures
        r.deep_view() == venv_candidates_spec(backend_dir@, sep@),
{
    let venv = join_path(backend_dir, sep, "venv");
    let dot_venv = join_path(backend_dir, sep, ".venv");
    let venv_scripts = join_path(venv.as_str(), sep, "Scripts");
    let dot_venv_scripts = join_path(dot_venv.as_str(), sep, "Scripts");
    let venv_bin = join_path(venv.as_str(), sep, "bin");
    let dot_venv_bin = join_path(dot_venv.as_str(), sep, "bin");
    let mut r: Vec<String> = Vec::new();
    r.push(join_path(venv_scripts.as_str(), sep, "python.exe"));
    r.push(join_path(dot_venv_scripts.as_str(), sep, "python.exe"));
    r.push(join_path(venv_bin.as_str(), sep, "python3"));
    r.push(join_path(dot_venv_bin.as_str(), sep, "python3"));
    r.push(join_path(venv_bin.as_str(), sep, "python"));
    r.push(join_path(dot_venv_bin.as_str(), sep, "python"));
    proof {
        assert(r.deep_view() =~= venv_candidates_spec(backend_dir@, sep@));
    }
    r
}

/// The interpreter names tried on the search path, in order.
pub open spec fn python_commands_spec() -> Seq<Seq<char>> {
    seq!["py"@, "python3"@, "python"@]
}

/// Builds the on-path interpreter candidates.
pub fn python_commands() -> (r: Vec<String>)
    ensures
        r.deep_view() == python_commands_spec(),
{
    let mut r: Vec<String> = Vec::new();
    r.push(String::from_str("py"));
    r.push(String::from_str("python3"));
    r.push(String::from_str("python"));
    proof {
        assert(r.deep_view() =~= python_commands_spec());
    }
    r
}

/// For each base directory, the two places a backend may sit under it:
/// `base/app/backend` first, then `base/backend`.
pub open spec fn backend_candidates_spec(bases: Seq<Seq<char>>, sep: Seq<char>) -> Seq<Seq<char>>
    decreases bases.len(),
{
    if bases.len() == 0 {
        Seq::empty()
    } else {
        seq![
            bases[0] + sep + "app"@ + sep + "backend"@,
            bases[0] + sep + "backend"@,
        ] + backend_candidates_spec(bases.drop_first(), sep)
    }
}

/// Builds the backend-directory candidates for the given base directories.
pub fn backend_candidates(bases: &Vec<String>, sep: &str) -> (r: Vec<String>)
    ensures
        r.deep_view() == backend_candidates_spec(bases.deep_view(), sep@),
{
    let mut r: Vec<String> = Vec::new();
    let mut i: usize = 0;
    proof {
        assert(bases.deep_view().skip(0) =~= bases.deep_view());
        assert(r.deep_view() =~= Seq::<Seq<char>>::empty());
        assert(backend_candidates_spec(bases.deep_view(), sep@) =~= r.deep_view()
            + backend_candidates_spec(bases.deep_view().skip(0), sep@));
    }
    while i < bases.len()
        invariant
            0 <= i <= bases@.len(),
            backend_candidates_spec(bases.deep_view(), sep@) == r.deep_view()
                + backend_candidates_spec(bases.deep_view().skip(i as int), sep@),
        decreases bases@.len() - i,
    {
        let ghost suffix = bases.deep_view().skip(i as int);
        proof {
            assert(suffix[0] == bases.deep_view()[i as int]);
            assert(suffix.drop_first() =~= bases.deep_view().skip(i + 1));
        }
        let base = vec_index(bases, i);
        let under_app = join_path(base.as_str(), sep, "app");
        let ghost old_r = r.deep_view();
        r.push(join_path(under_app.as_str(), sep, "backend"));
        r.push(join_path(base.as_str(), sep, "backend"));
        proof {
            assert(r.deep_view() =~= old_r + seq![
                suffix[0] + sep@ + "app"@ + sep@ + "backend"@,
                suffix[0] + sep@ + "backend"@,
            ]);
            assert(old_r + backend_candidates_spec(suffix, sep@) == old_r + (seq![
                suffix[0] + sep@ + "app"@ + sep@ + "backend"@,
                suffix[0] + sep@ + "backend"@,
            ] + backend_candidates_spec(suffix.drop_first(), sep@)));
            assert(old_r + (seq![
                suffix[0] + sep@ + "app"@ + sep@ + "backend"@,
                suffix[0] + sep@ + "backend"@,
            ] + backend_candidates_spec(suffix.drop_first(), sep@)) =~= r.deep_view()
                + backend_candidates_spec(bases.deep_view().skip(i + 1), sep@));
        }
        i = i + 1;
    }
    proof {
        assert(bases.deep_view().skip(i as int) =~= Seq::<Seq<char>>::empty());
        assert(r.deep_view() =~= r.deep_view() + backend_candidates_spec(
            bases.deep_view().skip(i as int),
            sep@,
        ));
    }
    r
}

/// What the interpreter search resolves to: the first virtual-environment
/// candidate that exists, else the first on-path command that answered a
/// version probe, else plain `python`.
pub open spec fn choose_python_spec(
    venv: Seq<Seq<char>>,
    venv_ok: Seq<bool>,
    commands: Seq<Seq<char>>,
    command_ok: Seq<bool>,
) -> Seq<char> {
    if first_true(venv_ok) >= 0 {
        venv[first_true(venv_ok)]
    } else if first_true(command_ok) >= 0 {
        commands[first_true(command_ok)]
    } else {
        "python"@
    }
}

/// Resolves the interpreter from the probe results: `venv_ok[i]` says
/// whether `venv[i]` exists on disk, `command_ok[i]` whether `commands[i]`
/// answered a version probe.
pub fn choose_python(
    venv: &Vec<String>,
    venv_ok: &Vec<bool>,
    commands: &Vec<String>,
    command_ok: &Vec<bool>,
) -> (r: String)
    requires
        venv@.len() == venv_ok@.len(),
        commands@.len() == command_ok@.len(),
    ensures
        r@ == choose_python_spec(venv.deep_view(), venv_ok@, commands.deep_view(), command_ok@),
{
    match select_first(venv, venv_ok) {
        Some(p) => p,
        None => match select_first(commands, command_ok) {
            Some(c) => c,
            None => String::from_str("python"),
        },
    }
}

/// What the backend-directory search resolves to: the first candidate whose
/// probe succeeded, else the fallback directory.
pub open spec fn choose_dir_spec(
    candidates: Seq<Seq<char>>,
    found: Seq<bool>,
    fallback: Seq<char>,
) -> Seq<char> {
    if first_true(found) >= 0 {
        candidates[first_true(found)]
    } else {
        fallback
    }
}

/// Resolves the backend directory from the probe results; `found[i]` says
/// whether `candidates[i]` exists and holds the transcriber script.
pub fn choose_backend_dir(candidates: &Vec<String>, found: &Vec<bool>, fallback: &str) -> (r:
    String)
    requires
        candidates@.len() == found@.len(),
    ensures
        r@ == choose_dir_spec(candidates.deep_view(), found@, fallback@),
{
    match select_first(candidates, found) {
        Some(p) => p,
        None => String::from_str(fallback),
    }
}

} // verus!

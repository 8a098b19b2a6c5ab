//! Where project files live, and how a project name or path becomes the
//! file to load. The file system is read by the caller; these functions
//! decide from what it found.

use vstd::prelude::*;
use crate::env::Env;
use crate::herdr_backend::opt_view;
use crate::project_spec::opt_str;
use crate::text::{chars_of, extend_str, path_join, path_join_chars, str_eq, string_of};
use crate::util::{expand_path, file_stem_matches, path_file_stem, spec_expand_path};

verus! {

pub const LOCAL_DEFAULTS: [&'static str; 2] = ["./.tmuxinator.yml", "./.tmuxinator.yaml"];

pub const NO_LOCAL_FILE_MSG: &'static str = "Project file at ./.tmuxinator.yml doesn't exist.";

pub const NO_PROJECT_FOUND_MSG: &'static str = "Project could not be found.";

/// `~/.tmuxinator`.
pub fn home_dir(env: &Env) -> (r: String)
    ensures
        r@ == env.home@ + "/.tmuxinator"@,
{
    let mut out: Vec<char> = Vec::new();
    extend_str(&mut out, env.home.as_str());
    extend_str(&mut out, "/.tmuxinator");
    string_of(out.as_slice())
}

pub open spec fn spec_xdg_dir(env: Env) -> Seq<char> {
    spec_expand_path(
        match env.xdg_config_home {
            Some(x) => x@,
            None => "~/.config"@,
        },
        env.cwd@,
        env.home@,
    ) + "/tmuxinator"@
}

/// `$XDG_CONFIG_HOME/tmuxinator`, with `~/.config` for an unset
/// `$XDG_CONFIG_HOME`.
pub fn xdg_dir(env: &Env) -> (r: String)
    ensures
        r@ == spec_xdg_dir(*env),
{
    let config_home = match &env.xdg_config_home {
        Some(x) => expand_path(x.as_str(), env.cwd.as_str(), env.home.as_str()),
        None => expand_path("~/.config", env.cwd.as_str(), env.home.as_str()),
    };
    let mut out: Vec<char> = Vec::new();
    extend_str(&mut out, config_home.as_str());
    extend_str(&mut out, "/tmuxinator");
    string_of(out.as_slice())
}

/// What the file system showed of the configuration directories.
pub struct ConfigDirs {
    /// `$TMUXINATOR_CONFIG`, when it is set, not empty, and a directory
    /// (it is created when it is missing).
    pub environment: Option<String>,
    /// Whether [`xdg_dir`] is a directory.
    pub xdg_is_dir: bool,
    /// Whether [`home_dir`] is a directory.
    pub home_is_dir: bool,
}

/// The directory new projects go to: `$TMUXINATOR_CONFIG`, else the first
/// of the XDG and home directories that exists, else the XDG directory
/// (which the caller then creates).
pub fn directory(env: &Env, dirs: &ConfigDirs) -> (r: String)
    ensures
        r@ == match dirs.environment {
            Some(d) => d@,
            None => if dirs.xdg_is_dir {
                spec_xdg_dir(*env)
            } else if dirs.home_is_dir {
                env.home@ + "/.tmuxinator"@
            } else {
                spec_xdg_dir(*env)
            },
        },
{
    match &dirs.environment {
        Some(d) => d.clone(),
        None => {
            if dirs.xdg_is_dir {
                xdg_dir(env)
            } else if dirs.home_is_dir {
                home_dir(env)
            } else {
                xdg_dir(env)
            }
        },
    }
}

/// The existing configuration directories in search order:
/// `$TMUXINATOR_CONFIG` alone when it is set, else the XDG and home
/// directories that exist.
pub fn directories(env: &Env, dirs: &ConfigDirs) -> (r: Vec<String>)
    ensures
        r@.map_values(|s: String| s@) == match dirs.environment {
            Some(d) => seq![d@],
            None => (if dirs.xdg_is_dir {
                seq![spec_xdg_dir(*env)]
            } else {
                seq![]
            }) + (if dirs.home_is_dir {
                seq![env.home@ + "/.tmuxinator"@]
            } else {
                seq![]
            }),
        },
{
    let mut out: Vec<String> = Vec::new();
    match &dirs.environment {
        Some(d) => {
            out.push(d.clone());
            assert(out@.map_values(|s: String| s@) =~= seq![d@]);
        },
        None => {
            if dirs.xdg_is_dir {
                out.push(xdg_dir(env));
            }
            if dirs.home_is_dir {
                out.push(home_dir(env));
            }
            assert(out@.map_values(|s: String| s@) =~= (if dirs.xdg_is_dir {
                seq![spec_xdg_dir(*env)]
            } else {
                seq![]
            }) + (if dirs.home_is_dir {
                seq![env.home@ + "/.tmuxinator"@]
            } else {
                seq![]
            }));
        },
    }
    out
}

/// The local project file: the first of [`LOCAL_DEFAULTS`] that exists in
/// the working directory; `present[i]` tells whether `LOCAL_DEFAULTS[i]`
/// does.
pub fn local_project(present: &[bool; 2]) -> (r: Option<String>)
    ensures
        opt_str(r) == if present[0] {
            Some("./.tmuxinator.yml"@)
        } else if present[1] {
            Some("./.tmuxinator.yaml"@)
        } else {
            None
        },
{
    if present[0] {
        Some("./.tmuxinator.yml".to_owned())
    } else if present[1] {
        Some("./.tmuxinator.yaml".to_owned())
    } else {
        None
    }
}

/// Where a new project named `name` goes in `directory`.
pub fn default_project(directory: &str, name: &str) -> (r: String)
    ensures
        r@ == directory@ + "/"@ + name@ + ".yml"@,
{
    let mut out: Vec<char> = Vec::new();
    extend_str(&mut out, directory);
    extend_str(&mut out, "/");
    extend_str(&mut out, name);
    extend_str(&mut out, ".yml");
    string_of(out.as_slice())
}

/// What `std::path::Path::extension` gives for a path, as a string.
pub uninterp spec fn path_extension(path: Seq<char>) -> Option<Seq<char>>;

/// Calls `std::path::Path::extension`: the part of the final component's
/// name after its last dot, `None` where there is none. Nothing more of it
/// is stated.
#[verifier::external_body]
fn extension_of(path: &str) -> (r: Option<String>)
    ensures
        opt_str(r) == path_extension(path@),
{
    std::path::Path::new(path).extension().map(|e| e.to_string_lossy().into_owned())
}

/// A YAML project file named `name`: its extension is `yml` or `yaml`, its
/// stem is the name.
pub open spec fn names_project(path: Seq<char>, name: Seq<char>) -> bool {
    (path_extension(path) == Some("yml"@) || path_extension(path) == Some("yaml"@))
        && path_file_stem(path) == Some(name)
}

/// Whether `x` comes before `y` when paths are ordered: `/` before every
/// other character, the others in code-point order.
pub open spec fn path_char_lt(x: char, y: char) -> bool {
    (x == '/' && y != '/') || (x != '/' && y != '/' && x < y)
}

/// The order of paths listed under one directory, as `std::path::Path`
/// compares them: component by component, which for such paths is
/// character by character with `/` first.
pub open spec fn path_le(a: Seq<char>, b: Seq<char>) -> bool
    decreases a.len(),
{
    if a.len() == 0 {
        true
    } else if b.len() == 0 {
        false
    } else if a[0] != b[0] {
        path_char_lt(a[0], b[0])
    } else {
        path_le(a.drop_first(), b.drop_first())
    }
}

pub proof fn lemma_path_le_total(a: Seq<char>, b: Seq<char>)
    ensures
        path_le(a, b) || path_le(b, a),
    decreases a.len(),
{
    if a.len() > 0 && b.len() > 0 {
        if a[0] == b[0] {
            lemma_path_le_total(a.drop_first(), b.drop_first());
        }
    }
}

pub proof fn lemma_path_le_trans(a: Seq<char>, b: Seq<char>, c: Seq<char>)
    requires
        path_le(a, b),
        path_le(b, c),
    ensures
        path_le(a, c),
    decreases a.len(),
{
    if a.len() > 0 && b.len() > 0 && c.len() > 0 && a[0] == b[0] && b[0] == c[0] {
        lemma_path_le_trans(a.drop_first(), b.drop_first(), c.drop_first());
    }
}

fn path_le_from(a: &Vec<char>, b: &Vec<char>, i: usize) -> (r: bool)
    requires
        i <= a@.len(),
        i <= b@.len(),
    ensures
        r == path_le(a@.skip(i as int), b@.skip(i as int)),
    decreases a@.len() - i,
{
    if i == a.len() {
        return true;
    }
    if i == b.len() {
        return false;
    }
    assert(a@.skip(i as int)[0] == a@[i as int]);
    assert(b@.skip(i as int)[0] == b@[i as int]);
    if a[i] != b[i] {
        if a[i] == '/' {
            return true;
        }
        if b[i] == '/' {
            return false;
        }
        return a[i] < b[i];
    }
    assert(a@.skip(i as int).drop_first() == a@.skip(i + 1));
    assert(b@.skip(i as int).drop_first() == b@.skip(i + 1));
    path_le_from(a, b, i + 1)
}

/// Whether path `a` comes no later than path `b`.
pub fn path_before(a: &str, b: &str) -> (r: bool)
    ensures
        r == path_le(a@, b@),
{
    let x = chars_of(a);
    let y = chars_of(b);
    assert(x@.skip(0) == x@);
    assert(y@.skip(0) == y@);
    path_le_from(&x, &y, 0)
}

/// The least of `candidates`, in path order, that names the project.
pub open spec fn least_project(candidates: Seq<String>, name: Seq<char>) -> Option<Seq<char>>
    decreases candidates.len(),
{
    if candidates.len() == 0 {
        None
    } else {
        let rest = least_project(candidates.drop_last(), name);
        let x = candidates.last()@;
        if !names_project(x, name) {
            rest
        } else {
            match rest {
                Some(p) => if path_le(p, x) {
                    Some(p)
                } else {
                    Some(x)
                },
                None => Some(x),
            }
        }
    }
}

/// A directory's project file is the least of its files, in path order,
/// that names the project; there is none exactly when no file names it.
pub proof fn least_project_is_least(candidates: Seq<String>, name: Seq<char>)
    ensures
        match least_project(candidates, name) {
            None => forall|i: int| 0 <= i < candidates.len() ==> !names_project(#[trigger] candidates[i]@, name),
            Some(p) => names_project(p, name) && (exists|i: int| 0 <= i < candidates.len() && #[trigger] candidates[i]@ == p)
                && forall|j: int| 0 <= j < candidates.len() && names_project(#[trigger] candidates[j]@, name) ==> path_le(p, candidates[j]@),
        },
    decreases candidates.len(),
{
    if candidates.len() > 0 {
        let init = candidates.drop_last();
        least_project_is_least(init, name);
        let x = candidates.last()@;
        let n = candidates.len() - 1;
        assert(forall|i: int| 0 <= i < n ==> #[trigger] candidates[i] == init[i]);
        match least_project(init, name) {
            Some(p) => {
                let k = choose|i: int| 0 <= i < init.len() && #[trigger] init[i]@ == p;
                assert(candidates[k]@ == p);
                if names_project(x, name) {
                    lemma_path_le_total(p, x);
                    if path_le(p, x) {
                        assert forall|j: int| 0 <= j < candidates.len() && names_project(#[trigger] candidates[j]@, name) implies path_le(p, candidates[j]@) by {
                            if j < n {
                                assert(init[j] == candidates[j]);
                            }
                        }
                    } else {
                        assert(candidates[n]@ == x);
                        assert forall|j: int| 0 <= j < candidates.len() && names_project(#[trigger] candidates[j]@, name) implies path_le(x, candidates[j]@) by {
                            if j == n {
                                lemma_path_le_total(x, x);
                            } else {
                                assert(init[j] == candidates[j]);
                                lemma_path_le_trans(x, p, candidates[j]@);
                            }
                        }
                    }
                } else {
                    assert forall|j: int| 0 <= j < candidates.len() && names_project(#[trigger] candidates[j]@, name) implies path_le(p, candidates[j]@) by {
                        if j < n {
                            assert(init[j] == candidates[j]);
                        }
                    }
                }
            },
            None => {
                if names_project(x, name) {
                    assert(candidates[n]@ == x);
                    assert forall|j: int| 0 <= j < candidates.len() && names_project(#[trigger] candidates[j]@, name) implies path_le(x, candidates[j]@) by {
                        if j == n {
                            lemma_path_le_total(x, x);
                        } else {
                            assert(init[j] == candidates[j]);
                        }
                    }
                } else {
                    assert forall|i: int| 0 <= i < candidates.len() implies !names_project(#[trigger] candidates[i]@, name) by {
                        if i < n {
                            assert(init[i] == candidates[i]);
                        }
                    }
                }
            },
        }
    }
}

/// The project file named `name` among the files of a configuration
/// directory: the least in path order, whatever order they are listed in.
pub fn project_in(candidates: &Vec<String>, name: &str) -> (r: Option<String>)
    ensures
        opt_str(r) == least_project(candidates@, name@),
{
    let mut best: Option<String> = None;
    let mut i: usize = 0;
    while i < candidates.len()
        invariant
            i <= candidates@.len(),
            opt_str(best) == least_project(candidates@.take(i as int), name@),
        decreases candidates.len() - i,
    {
        let path = candidates[i].as_str();
        let yaml_file = match extension_of(path) {
            Some(e) => str_eq(e.as_str(), "yml") || str_eq(e.as_str(), "yaml"),
            None => false,
        };
        proof {
            let t = candidates@.take(i + 1);
            assert(t.drop_last() == candidates@.take(i as int));
            assert(t.last() == candidates@[i as int]);
        }
        if yaml_file && file_stem_matches(path, name) {
            let replace = match &best {
                Some(b) => !path_before(b.as_str(), path),
                None => true,
            };
            if replace {
                best = Some(candidates[i].clone());
            }
        }
        i += 1;
    }
    assert(candidates@.take(candidates@.len() as int) == candidates@);
    best
}

/// The first directory, in search order, that holds the project.
pub open spec fn first_in_dirs(searches: Seq<Vec<String>>, name: Seq<char>) -> Option<Seq<char>>
    decreases searches.len(),
{
    if searches.len() == 0 {
        None
    } else {
        match least_project(searches[0]@, name) {
            Some(p) => Some(p),
            None => first_in_dirs(searches.drop_first(), name),
        }
    }
}

/// The project file named `name` in the configuration directories:
/// `$TMUXINATOR_CONFIG`, then the XDG directory, then `~/.tmuxinator`.
/// `searches` holds the files of each, in that order (none for a directory
/// that does not exist); within a directory the least path wins.
pub fn global_project(searches: &Vec<Vec<String>>, name: &str) -> (r: Option<String>)
    ensures
        opt_str(r) == first_in_dirs(searches@, name@),
{
    let mut i: usize = 0;
    assert(searches@.skip(0) == searches@);
    while i < searches.len()
        invariant
            i <= searches@.len(),
            first_in_dirs(searches@, name@) == first_in_dirs(searches@.skip(i as int), name@),
        decreases searches.len() - i,
    {
        assert(searches@.skip(i as int)[0] == searches@[i as int]);
        match project_in(&searches[i], name) {
            Some(p) => {
                return Some(p);
            },
            None => {},
        }
        assert(searches@.skip(i as int).drop_first() == searches@.skip(i + 1));
        i += 1;
    }
    None
}

/// The file of a named project: the one found in a configuration
/// directory, else the local project file, else where a new one would go.
pub fn project(global: Option<String>, local: Option<String>, default: String) -> (r: String)
    ensures
        r@ == match global {
            Some(g) => g@,
            None => match local {
                Some(l) => l@,
                None => default@,
            },
        },
{
    match global {
        Some(g) => g,
        None => match local {
            Some(l) => l,
            None => default,
        },
    }
}

/// `cwd.join(path)`: an absolute path stays as it is.
pub fn resolve(cwd: &str, path: &str) -> (r: String)
    ensures
        r@ == if path@.len() > 0 && path@[0] == '/' {
            path@
        } else {
            path_join(cwd@, path@)
        },
{
    let p = chars_of(path);
    if p.len() > 0 && p[0] == '/' {
        return string_of(p.as_slice());
    }
    let c = chars_of(cwd);
    string_of(path_join_chars(c.as_slice(), p.as_slice()).as_slice())
}

/// Whether a name is one of the sessions.
pub open spec fn among(sessions: Seq<String>, name: Seq<char>) -> bool {
    exists|k: int| 0 <= k < sessions.len() && (#[trigger] sessions[k])@ == name
}

/// The configured projects with a running session (each once), those
/// without one, or all of them.
pub open spec fn spec_configs(names: Seq<String>, active: Option<(bool, Seq<String>)>) -> Seq<Seq<char>>
    decreases names.len(),
{
    if names.len() == 0 {
        seq![]
    } else {
        let rest = spec_configs(names.drop_last(), active);
        let n = names.last()@;
        let keep = match active {
            Some((true, sessions)) => among(sessions, n) && !rest.contains(n),
            Some((false, sessions)) => !among(sessions, n),
            None => true,
        };
        if keep {
            rest.push(n)
        } else {
            rest
        }
    }
}

fn contains_name(items: &Vec<String>, name: &str) -> (r: bool)
    ensures
        r == items@.map_values(|s: String| s@).contains(name@),
{
    let ghost v = items@.map_values(|s: String| s@);
    let mut k: usize = 0;
    while k < items.len()
        invariant
            k <= items@.len(),
            v == items@.map_values(|s: String| s@),
            forall|j: int| 0 <= j < k ==> v[j] != name@,
        decreases items.len() - k,
    {
        if str_eq(items[k].as_str(), name) {
            assert(v[k as int] == name@);
            return true;
        }
        k += 1;
    }
    false
}

fn among_exec(sessions: &[String], name: &str) -> (r: bool)
    ensures
        r == among(sessions@, name@),
{
    let mut k: usize = 0;
    let n = sessions.len();
    while k < n
        invariant
            k <= n,
            n == sessions@.len(),
            forall|j: int| 0 <= j < k ==> (#[trigger] sessions@[j])@ != name@,
        decreases n - k,
    {
        if str_eq(sessions[k].as_str(), name) {
            return true;
        }
        k += 1;
    }
    false
}

/// The configured project names filtered by running sessions:
/// `Some((true, sessions))` keeps the names with a session, each once;
/// `Some((false, sessions))` keeps those without one; `None` keeps all.
pub fn configs(names: Vec<String>, active_sessions: Option<(bool, &[String])>) -> (r: Vec<String>)
    ensures
        r@.map_values(|s: String| s@) == spec_configs(
            names@,
            match active_sessions {
                Some((b, s)) => Some((b, s@)),
                None => None,
            },
        ),
{
    let ghost active = match active_sessions {
        Some((b, s)) => Some((b, s@)),
        None => None,
    };
    let mut out: Vec<String> = Vec::new();
    let mut i: usize = 0;
    assert(names@.take(0) =~= Seq::<String>::empty());
    while i < names.len()
        invariant
            i <= names@.len(),
            active == match active_sessions {
                Some((b, s)) => Some((b, s@)),
                None => None,
            },
            out@.map_values(|s: String| s@) == spec_configs(names@.take(i as int), active),
        decreases names.len() - i,
    {
        let ghost t = names@.take(i + 1);
        assert(t.drop_last() == names@.take(i as int));
        assert(t.last() == names@[i as int]);
        let name = names[i].as_str();
        let keep = match active_sessions {
            Some((true, sessions)) => among_exec(sessions, name) && !contains_name(&out, name),
            Some((false, sessions)) => !among_exec(sessions, name),
            None => true,
        };
        if keep {
            let ghost before = out@;
            out.push(names[i].clone());
            assert(out@.map_values(|s: String| s@) =~= before.map_values(|s: String| s@).push(
                names@[i as int]@,
            ));
        }
        i += 1;
    }
    assert(names@.take(names@.len() as int) == names@);
    out
}

/// Which file a command loads: `-p PATH`, else the local project file when
/// no name is given, else the named project.
pub struct ProjectFileQuery<'a> {
    pub name: Option<&'a str>,
    pub project_config: Option<&'a str>,
}

/// The project file a command loads, from what the caller found:
/// `config_exists` tells whether the `-p` path exists, `local` is the
/// local project file, `named` is the named project's file and
/// `named_exists` whether it exists.
pub fn find_project_file(
    query: &ProjectFileQuery,
    config_exists: bool,
    local: Option<String>,
    named: String,
    named_exists: bool,
) -> (r: Result<String, String>)
    ensures
        match query.project_config {
            Some(path) => if config_exists {
                r matches Ok(p) && p@ == path@
            } else {
                r matches Err(m) && m@ == "Project config ("@ + path@ + ") doesn't exist."@
            },
            None => match query.name {
                None => match local {
                    Some(l) => r matches Ok(p) && p@ == l@,
                    None => r matches Err(m) && m@ == NO_LOCAL_FILE_MSG@,
                },
                Some(name) => if named_exists {
                    r matches Ok(p) && p@ == named@
                } else {
                    r matches Err(m) && m@ == "Project "@ + name@ + " doesn't exist."@
                },
            },
        },
{
    match query.project_config {
        Some(path) => {
            if !config_exists {
                let mut m: Vec<char> = Vec::new();
                extend_str(&mut m, "Project config (");
                extend_str(&mut m, path);
                extend_str(&mut m, ") doesn't exist.");
                return Err(string_of(m.as_slice()));
            }
            Ok(path.to_owned())
        },
        None => match query.name {
            None => match local {
                Some(l) => Ok(l),
                None => Err(NO_LOCAL_FILE_MSG.to_owned()),
            },
            Some(name) => {
                if !named_exists {
                    let mut m: Vec<char> = Vec::new();
                    extend_str(&mut m, "Project ");
                    extend_str(&mut m, name);
                    extend_str(&mut m, " doesn't exist.");
                    return Err(string_of(m.as_slice()));
                }
                Ok(named)
            },
        },
    }
}

} // verus!

verus! {

/// Code-point (and so UTF-8 byte) order of strings: `a` is a prefix of `b`,
/// or is smaller at the first place they differ.
pub open spec fn lex_le(a: Seq<char>, b: Seq<char>) -> bool
    decreases a.len(),
{
    if a.len() == 0 {
        true
    } else if b.len() == 0 {
        false
    } else if a[0] != b[0] {
        a[0] < b[0]
    } else {
        lex_le(a.drop_first(), b.drop_first())
    }
}

pub open spec fn sorted_names(v: Seq<Seq<char>>) -> bool {
    forall|i: int, j: int| 0 <= i < j < v.len() ==> lex_le(#[trigger] v[i], #[trigger] v[j])
}

proof fn lemma_lex_total(a: Seq<char>, b: Seq<char>)
    ensures
        lex_le(a, b) || lex_le(b, a),
    decreases a.len(),
{
    if a.len() > 0 && b.len() > 0 {
        if a[0] == b[0] {
            lemma_lex_total(a.drop_first(), b.drop_first());
        }
    }
}

proof fn lemma_lex_trans(a: Seq<char>, b: Seq<char>, c: Seq<char>)
    requires
        lex_le(a, b),
        lex_le(b, c),
    ensures
        lex_le(a, c),
    decreases a.len(),
{
    if a.len() > 0 && b.len() > 0 && c.len() > 0 && a[0] == b[0] && b[0] == c[0] {
        lemma_lex_trans(a.drop_first(), b.drop_first(), c.drop_first());
    }
}

fn chars_lex_le(a: &[char], b: &[char]) -> (r: bool)
    ensures
        r == lex_le(a@, b@),
{
    let mut i: usize = 0;
    assert(a@.skip(0) == a@ && b@.skip(0) == b@);
    while i < a.len() && i < b.len() && a[i] == b[i]
        invariant
            i <= a@.len(),
            i <= b@.len(),
            lex_le(a@, b@) == lex_le(a@.skip(i as int), b@.skip(i as int)),
        decreases a.len() - i,
    {
        assert(a@.skip(i as int).drop_first() == a@.skip(i + 1));
        assert(b@.skip(i as int).drop_first() == b@.skip(i + 1));
        i += 1;
    }
    if i == a.len() {
        return true;
    }
    if i == b.len() {
        return false;
    }
    a[i] < b[i]
}

/// Sorts names in code-point order.
pub fn sort_names(names: Vec<String>) -> (r: Vec<String>)
    ensures
        sorted_names(r@.map_values(|s: String| s@)),
        r@.map_values(|s: String| s@).to_multiset() == names@.map_values(|s: String| s@).to_multiset(),
{
    let mut out: Vec<String> = Vec::new();
    let mut i: usize = 0;
    let ghost src = names@.map_values(|s: String| s@);
    assert(out@.map_values(|s: String| s@) =~= src.take(0));
    while i < names.len()
        invariant
            i <= names@.len(),
            src == names@.map_values(|s: String| s@),
            sorted_names(out@.map_values(|s: String| s@)),
            out@.map_values(|s: String| s@).to_multiset() == src.take(i as int).to_multiset(),
        decreases names.len() - i,
    {
        let x = names[i].clone();
        let xc = chars_of(x.as_str());
        let ghost v = out@.map_values(|s: String| s@);
        let mut p: usize = 0;
        while p < out.len() && chars_lex_le(chars_of(out[p].as_str()).as_slice(), xc.as_slice())
            invariant
                p <= out@.len(),
                v == out@.map_values(|s: String| s@),
                xc@ == x@,
                forall|k: int| 0 <= k < p ==> lex_le(#[trigger] v[k], x@),
            decreases out.len() - p,
        {
            p += 1;
        }
        proof {
            if p < v.len() {
                lemma_lex_total(v[p as int], x@);
                assert(lex_le(x@, v[p as int]));
            }
        }
        out.insert(p, x);
        let ghost w = out@.map_values(|s: String| s@);
        assert(w =~= v.insert(p as int, x@));
        proof {
            assert forall|a: int, b: int| 0 <= a < b < w.len() implies lex_le(
                #[trigger] w[a],
                #[trigger] w[b],
            ) by {
                if b < p {
                    assert(w[a] == v[a] && w[b] == v[b]);
                } else if b == p {
                    assert(w[b] == x@ && w[a] == v[a]);
                } else if a == p {
                    assert(w[a] == x@ && w[b] == v[b - 1]);
                    if b - 1 > p {
                        lemma_lex_trans(x@, v[p as int], v[b - 1]);
                    }
                } else if a < p {
                    assert(w[a] == v[a] && w[b] == v[b - 1]);
                } else {
                    assert(w[a] == v[a - 1] && w[b] == v[b - 1]);
                }
            }
            vstd::seq_lib::to_multiset_insert(v, p as int, x@);
            let t = src.take(i + 1);
            assert(t =~= src.take(i as int).push(src[i as int]));
            vstd::seq_lib::to_multiset_build(src.take(i as int), src[i as int]);
        }
        i += 1;
    }
    assert(src.take(names@.len() as int) == src);
    out
}

} // verus!

verus! {

/// Whether `pat` occurs in `s` at `i`.
pub open spec fn occurs_at(s: Seq<char>, pat: Seq<char>, i: int) -> bool {
    0 <= i && i + pat.len() <= s.len() && s.subrange(i, i + pat.len()) == pat
}

/// The first place at or after `i` where `pat` occurs.
pub open spec fn search(s: Seq<char>, pat: Seq<char>, i: nat) -> Option<nat>
    decreases s.len() + 1 - i,
{
    if i + pat.len() > s.len() {
        None
    } else if occurs_at(s, pat, i as int) {
        Some(i)
    } else {
        search(s, pat, i + 1)
    }
}

/// `str::replacen(pat, "", 1)`: the first occurrence of `pat` removed.
pub open spec fn remove_first(s: Seq<char>, pat: Seq<char>) -> Seq<char> {
    match search(s, pat, 0) {
        Some(i) => s.take(i as int) + s.skip((i + pat.len()) as int),
        None => s,
    }
}

/// `str::replace(pat, "")` for a non-empty `pat`: every occurrence removed,
/// scanning from the left.
pub open spec fn remove_all(s: Seq<char>, pat: Seq<char>) -> Seq<char>
    decreases s.len(),
{
    if pat.len() == 0 || s.len() == 0 {
        s
    } else if occurs_at(s, pat, 0) {
        remove_all(s.skip(pat.len() as int), pat)
    } else {
        seq![s[0]] + remove_all(s.drop_first(), pat)
    }
}

/// The name a project file is listed under: its path inside the directory,
/// with every `.yml` removed.
pub open spec fn spec_basename(dir: Seq<char>, path: Seq<char>) -> Seq<char> {
    remove_all(remove_first(path, dir + "/"@), ".yml"@)
}

fn occurs_at_exec(v: &[char], pat: &[char], i: usize) -> (r: bool)
    requires
        i <= v@.len(),
    ensures
        r == occurs_at(v@, pat@, i as int),
{
    if pat.len() > v.len() - i {
        return false;
    }
    let rest = crate::text::slice_chars(v, i, v.len());
    let r = crate::text::starts_with(rest.as_slice(), pat);
    assert(rest@.subrange(0, pat@.len() as int) =~= v@.subrange(i as int, i + pat@.len()));
    r
}

fn remove_first_exec(v: &[char], pat: &[char]) -> (r: Vec<char>)
    ensures
        r@ == remove_first(v@, pat@),
{
    let n = v.len();
    if pat.len() > n {
        assert(v@.subrange(0, n as int) =~= v@);
        return crate::text::slice_chars(v, 0, n);
    }
    let last = n - pat.len();
    let mut i: usize = 0;
    loop
        invariant
            i <= last,
            last == n - pat@.len(),
            n == v@.len(),
            search(v@, pat@, 0) == search(v@, pat@, i as nat),
        ensures
            search(v@, pat@, 0) is None,
        decreases last - i,
    {
        if occurs_at_exec(v, pat, i) {
            let mut out = crate::text::slice_chars(v, 0, i);
            let tail = crate::text::slice_chars(v, i + pat.len(), n);
            crate::text::extend_chars(&mut out, tail.as_slice());
            return out;
        }
        if i == last {
            assert(search(v@, pat@, (i + 1) as nat) is None);
            assert(search(v@, pat@, i as nat) == search(v@, pat@, (i + 1) as nat));
            break;
        }
        i += 1;
    }
    assert(v@.subrange(0, n as int) =~= v@);
    crate::text::slice_chars(v, 0, n)
}

fn remove_all_exec(v: &[char], pat: &[char]) -> (r: Vec<char>)
    requires
        pat@.len() > 0,
    ensures
        r@ == remove_all(v@, pat@),
{
    let n = v.len();
    let mut out: Vec<char> = Vec::new();
    let mut i: usize = 0;
    assert(v@.skip(0) == v@);
    while i < n
        invariant
            i <= n,
            n == v@.len(),
            pat@.len() > 0,
            remove_all(v@, pat@) == out@ + remove_all(v@.skip(i as int), pat@),
        decreases n - i,
    {
        let ghost rest = v@.skip(i as int);
        if occurs_at_exec(v, pat, i) {
            assert(rest.subrange(0, pat@.len() as int) == v@.subrange(i as int, i + pat@.len()));
            assert(occurs_at(rest, pat@, 0));
            assert(rest.skip(pat@.len() as int) == v@.skip(i + pat@.len()));
            i += pat.len();
        } else {
            assert(!occurs_at(rest, pat@, 0)) by {
                if rest.len() >= pat@.len() {
                    assert(rest.subrange(0, pat@.len() as int) == v@.subrange(i as int, i + pat@.len()));
                }
            }
            let ghost before = out@;
            out.push(v[i]);
            assert(rest.drop_first() == v@.skip(i + 1));
            assert(seq![rest[0]] + remove_all(rest.drop_first(), pat@) == remove_all(rest, pat@));
            assert(out@ + remove_all(v@.skip(i + 1), pat@) =~= before + (seq![v@[i as int]] + remove_all(
                v@.skip(i + 1),
                pat@,
            )));
            i += 1;
        }
    }
    assert(v@.skip(n as int).len() == 0);
    assert(out@ + remove_all(v@.skip(n as int), pat@) =~= out@);
    out
}

/// The name a project file is listed under.
pub fn basename(dir: &str, path: &str) -> (r: String)
    ensures
        r@ == spec_basename(dir@, path@),
{
    let mut prefix = chars_of(dir);
    prefix.push('/');
    assert(prefix@ =~= dir@ + "/"@) by {
        reveal_strlit("/");
    }
    let p = chars_of(path);
    let once = remove_first_exec(p.as_slice(), prefix.as_slice());
    let yml = chars_of(".yml");
    proof {
        reveal_strlit(".yml");
    }
    string_of(remove_all_exec(once.as_slice(), yml.as_slice()).as_slice())
}

/// The listed names of the files of one directory: those whose extension
/// is `yml`.
pub open spec fn listed(dir: Seq<char>, files: Seq<String>) -> Seq<Seq<char>>
    decreases files.len(),
{
    if files.len() == 0 {
        seq![]
    } else {
        listed(dir, files.drop_last()) + if path_extension(files.last()@) == Some("yml"@) {
            seq![spec_basename(dir, files.last()@)]
        } else {
            seq![]
        }
    }
}

pub open spec fn listed_all(listing: Seq<(String, Vec<String>)>) -> Seq<Seq<char>>
    decreases listing.len(),
{
    if listing.len() == 0 {
        seq![]
    } else {
        listed_all(listing.drop_last()) + listed(listing.last().0@, listing.last().1@)
    }
}

/// The names of the configured projects, sorted: `listing` holds each
/// configuration directory (see [`directories`]) with the files under it.
/// Only `.yml` files are listed (lookup accepts `.yaml` too), and every
/// `.yml` in the relative path is dropped, as tmuxinator does.
pub fn config_file_basenames(listing: &Vec<(String, Vec<String>)>) -> (r: Vec<String>)
    ensures
        sorted_names(r@.map_values(|s: String| s@)),
        r@.map_values(|s: String| s@).to_multiset() == listed_all(listing@).to_multiset(),
{
    let mut names: Vec<String> = Vec::new();
    let mut i: usize = 0;
    assert(names@.map_values(|s: String| s@) =~= listed_all(listing@.take(0)));
    while i < listing.len()
        invariant
            i <= listing@.len(),
            names@.map_values(|s: String| s@) == listed_all(listing@.take(i as int)),
        decreases listing.len() - i,
    {
        let dir = listing[i].0.as_str();
        let files = &listing[i].1;
        let ghost base = names@.map_values(|s: String| s@);
        let mut j: usize = 0;
        assert(files@.take(0) =~= Seq::<String>::empty());
        assert(base + listed(dir@, files@.take(0)) =~= base);
        while j < files.len()
            invariant
                j <= files@.len(),
                names@.map_values(|s: String| s@) == base + listed(dir@, files@.take(j as int)),
            decreases files.len() - j,
        {
            let ghost t = files@.take(j + 1);
            assert(t.drop_last() == files@.take(j as int));
            assert(t.last() == files@[j as int]);
            let is_yml = match extension_of(files[j].as_str()) {
                Some(e) => str_eq(e.as_str(), "yml"),
                None => false,
            };
            let ghost before = names@.map_values(|s: String| s@);
            if is_yml {
                names.push(basename(dir, files[j].as_str()));
                assert(names@.map_values(|s: String| s@) =~= before.push(spec_basename(dir@, files@[j as int]@)));
            }
            assert(names@.map_values(|s: String| s@) =~= base + listed(dir@, t));
            j += 1;
        }
        assert(files@.take(files@.len() as int) == files@);
        let ghost u = listing@.take(i + 1);
        assert(u.drop_last() == listing@.take(i as int));
        assert(u.last() == listing@[i as int]);
        i += 1;
    }
    assert(listing@.take(listing@.len() as int) == listing@);
    sort_names(names)
}

} // verus!

verus! {

/// Listing the projects that have a running session names each project
/// once, however often it is configured.
pub proof fn running_projects_are_listed_once(names: Seq<String>, sessions: Seq<String>)
    ensures
        spec_configs(names, Some((true, sessions))).no_duplicates(),
        forall|k: int|
            0 <= k < spec_configs(names, Some((true, sessions))).len() ==> among(
                sessions,
                #[trigger] spec_configs(names, Some((true, sessions)))[k],
            ),
    decreases names.len(),
{
    if names.len() > 0 {
        running_projects_are_listed_once(names.drop_last(), sessions);
        let rest = spec_configs(names.drop_last(), Some((true, sessions)));
        let n = names.last()@;
        if among(sessions, n) && !rest.contains(n) {
            let all = rest.push(n);
            assert forall|i: int, j: int| 0 <= i < all.len() && 0 <= j < all.len() && i != j implies all[i]
                != all[j] by {
                if i < rest.len() && j < rest.len() {
                } else if i == rest.len() {
                    assert(all[j] == rest[j]);
                } else {
                    assert(all[i] == rest[i]);
                }
            }
            assert forall|k: int| 0 <= k < all.len() implies among(sessions, #[trigger] all[k]) by {
                if k < rest.len() {
                    assert(all[k] == rest[k]);
                }
            }
        }
    }
}

} // verus!

//! A project file written from a running tmux session: its windows, their
//! layouts and the directories of their panes, as tmux reports them.

use vstd::prelude::*;
use crate::text::{chars_eq, extend_str, has_prefix, starts_with, chars_of, extend_chars, is_ws, is_ws_char, lines_of, slice_chars, spec_lines, string_of};
use crate::tmux::ws_run;
use crate::yaml_ext::Yaml;

verus! {

/// The whitespace-separated words of a line.
pub open spec fn words(s: Seq<char>) -> Seq<Seq<char>>
    decreases s.len(),
{
    let a = ws_run(s, true);
    let r = s.skip(a as int);
    let n = ws_run(r, false);
    if r.len() == 0 || n == 0 {
        seq![]
    } else {
        proof {
            lemma_ws_run_bound(s, true);
            lemma_ws_run_bound(r, false);
        }
        seq![r.take(n as int)] + words(r.skip(n as int))
    }
}

pub proof fn lemma_ws_run_bound(s: Seq<char>, ws: bool)
    ensures
        ws_run(s, ws) <= s.len(),
        ws_run(s, ws) < s.len() ==> is_ws(s[ws_run(s, ws) as int]) != ws,
        s.len() > 0 && is_ws(s[0]) == ws ==> ws_run(s, ws) > 0,
    decreases s.len(),
{
    if s.len() > 0 && is_ws(s[0]) == ws {
        lemma_ws_run_bound(s.drop_first(), ws);
        if ws_run(s, ws) < s.len() {
            assert(s[ws_run(s, ws) as int] == s.drop_first()[ws_run(s.drop_first(), ws) as int]);
        }
    }
}

fn run_end(v: &[char], i: usize, ws: bool) -> (r: usize)
    requires
        i <= v@.len(),
    ensures
        r == i + ws_run(v@.skip(i as int), ws),
        r <= v@.len(),
{
    let n = v.len();
    let mut j: usize = i;
    while j < n && is_ws_char(v[j]) == ws
        invariant
            i <= j <= n,
            n == v@.len(),
            ws_run(v@.skip(i as int), ws) == (j - i) + ws_run(v@.skip(j as int), ws),
        decreases n - j,
    {
        assert(v@.skip(j as int).drop_first() == v@.skip(j + 1));
        j += 1;
    }
    j
}

/// `str::split_whitespace`.
pub fn words_of(v: &[char]) -> (r: Vec<Vec<char>>)
    ensures
        r@.map_values(|w: Vec<char>| w@) == words(v@),
{
    let mut out: Vec<Vec<char>> = Vec::new();
    let n = v.len();
    let mut i: usize = 0;
    assert(v@.skip(0) == v@);
    loop
        invariant
            i <= n,
            n == v@.len(),
            words(v@) == out@.map_values(|w: Vec<char>| w@) + words(v@.skip(i as int)),
        decreases n - i,
    {
        let a = run_end(v, i, true);
        let ghost s = v@.skip(i as int);
        proof {
            lemma_ws_run_bound(s, true);
            assert(s.skip(ws_run(s, true) as int) == v@.skip(a as int));
        }
        let b = run_end(v, a, false);
        proof {
            lemma_ws_run_bound(v@.skip(a as int), false);
        }
        if a == n || b == a {
            proof {
                if a < n {
                    lemma_ws_run_bound(v@.skip(a as int), true);
                    assert(v@.skip(a as int)[0] == v@[a as int]);
                    lemma_ws_run_bound(s, true);
                    assert(s[ws_run(s, true) as int] == v@[a as int]);
                    lemma_ws_run_bound(v@.skip(a as int), false);
                }
            }
            assert(words(s) =~= Seq::<Seq<char>>::empty());
            assert(out@.map_values(|w: Vec<char>| w@) + seq![] =~= out@.map_values(|w: Vec<char>| w@));
            return out;
        }
        let w = slice_chars(v, a, b);
        let ghost before = out@.map_values(|w: Vec<char>| w@);
        out.push(w);
        proof {
            let r = v@.skip(a as int);
            assert(r.take(ws_run(r, false) as int) =~= w@);
            assert(r.skip(ws_run(r, false) as int) =~= v@.skip(b as int));
            assert(words(s) == seq![w@] + words(v@.skip(b as int)));
            assert(out@.map_values(|w: Vec<char>| w@) =~= before.push(w@));
            vstd::seq_lib::lemma_concat_associative(before, seq![w@], words(v@.skip(b as int)));
            assert(before.push(w@) =~= before + seq![w@]);
        }
        i = b;
    }
}

/// `default-path "…"` of the session options, from the first line that
/// spells it.
pub open spec fn default_path(lines: Seq<Seq<char>>) -> Option<Seq<char>>
    decreases lines.len(),
{
    if lines.len() == 0 {
        None
    } else {
        let l = lines[0];
        let p = "default-path \""@;
        if l.len() >= p.len() + 1 && has_prefix(l, p) && l.last() == '"' {
            Some(l.subrange(p.len() as int, l.len() - 1))
        } else {
            default_path(lines.drop_first())
        }
    }
}

/// The directories of a window's panes: the second word of each pane line
/// whose first word is the window.
pub open spec fn pane_paths(pane_lines: Seq<Seq<char>>, window: Seq<char>) -> Seq<Seq<char>>
    decreases pane_lines.len(),
{
    if pane_lines.len() == 0 {
        seq![]
    } else {
        let ws = words(pane_lines.last());
        pane_paths(pane_lines.drop_last(), window) + if ws.len() >= 2 && ws[0] == window {
            seq![ws[1]]
        } else {
            seq![]
        }
    }
}

/// The window lines that describe a window: at least four words.
pub open spec fn window_lines(lines: Seq<Seq<char>>) -> Seq<Seq<Seq<char>>>
    decreases lines.len(),
{
    if lines.len() == 0 {
        seq![]
    } else {
        window_lines(lines.drop_last()) + if words(lines.last()).len() >= 4 {
            seq![words(lines.last())]
        } else {
            seq![]
        }
    }
}

/// The directory of the first active window.
pub open spec fn first_active_path(ws: Seq<Seq<Seq<char>>>) -> Option<Seq<char>>
    decreases ws.len(),
{
    if ws.len() == 0 {
        None
    } else {
        match first_active_path(ws.drop_last()) {
            Some(p) => Some(p),
            None => if ws.last()[2] == "1"@ {
                Some(ws.last()[3])
            } else {
                None
            },
        }
    }
}

/// The project root: `default-path` of the options, else the directory of
/// the first active window.
pub open spec fn session_root(windows: Seq<Seq<Seq<char>>>, options: Seq<char>) -> Option<Seq<char>> {
    match default_path(spec_lines(options)) {
        Some(p) => Some(p),
        None => first_active_path(windows),
    }
}

/// Whether a YAML value is this string.
pub open spec fn is_str(y: Yaml, s: Seq<char>) -> bool {
    y matches Yaml::String(t) && t@ == s
}

/// A window entry `name: {layout: …, panes: [cd …, …]}`.
pub open spec fn window_entry(y: Yaml, words: Seq<Seq<char>>, paths: Seq<Seq<char>>) -> bool {
    y matches Yaml::Mapping(m) && m@.len() == 1 && is_str(m@[0].0, words[0]) && (m@[0].1 matches Yaml::Mapping(o)
        && o@.len() == 2 && is_str(o@[0].0, "layout"@) && is_str(o@[0].1, words[1]) && is_str(
        o@[1].0,
        "panes"@,
    ) && (o@[1].1 matches Yaml::Sequence(ps) && ps@.len() == paths.len() && forall|j: int|
        0 <= j < paths.len() ==> is_str(#[trigger] ps@[j], "cd "@ + paths[j])))
}

/// What the project file written from a session holds: the name, the root
/// (null when tmux reported none) and one entry per window.
pub open spec fn project_describes(y: Yaml, name: Seq<char>, windows: Seq<char>, panes: Seq<char>, options: Seq<char>) -> bool {
    let wl = window_lines(spec_lines(windows));
    let pl = spec_lines(panes);
    let root = session_root(wl, options);
    y matches Yaml::Mapping(m) && m@.len() == 3 && is_str(m@[0].0, "name"@) && is_str(m@[0].1, name)
        && is_str(m@[1].0, "project_root"@) && (match root {
        Some(r) => is_str(m@[1].1, r),
        None => m@[1].1 == Yaml::Null,
    }) && is_str(m@[2].0, "windows"@) && (m@[2].1 matches Yaml::Sequence(ws) && ws@.len() == wl.len()
        && forall|i: int| 0 <= i < wl.len() ==> window_entry(#[trigger] ws@[i], wl[i], pane_paths(pl, wl[i][0])))
}

fn text_of(chars: &Vec<char>) -> (r: String)
    ensures
        r@ == chars@,
{
    string_of(chars.as_slice())
}

fn yaml_str(s: &str) -> (r: Yaml)
    ensures
        is_str(r, s@),
{
    Yaml::String(s.to_owned())
}

fn default_path_of(lines: &Vec<Vec<char>>) -> (r: Option<Vec<char>>)
    ensures
        match r {
            Some(p) => default_path(lines@.map_values(|l: Vec<char>| l@)) == Some(p@),
            None => default_path(lines@.map_values(|l: Vec<char>| l@)) is None,
        },
{
    let ghost ls = lines@.map_values(|l: Vec<char>| l@);
    let prefix = chars_of("default-path \"");
    proof {
        reveal_strlit("default-path \"");
    }
    let mut i: usize = 0;
    assert(ls.skip(0) == ls);
    while i < lines.len()
        invariant
            i <= lines@.len(),
            ls == lines@.map_values(|l: Vec<char>| l@),
            prefix@ == "default-path \""@,
            default_path(ls) == default_path(ls.skip(i as int)),
        decreases lines.len() - i,
    {
        let l = &lines[i];
        assert(ls.skip(i as int)[0] == l@);
        let n = l.len();
        if n > prefix.len() && starts_with(l.as_slice(), prefix.as_slice()) && l[n - 1] == '"' {
            let middle = slice_chars(l.as_slice(), prefix.len(), n - 1);
            return Some(middle);
        }
        assert(ls.skip(i as int).drop_first() == ls.skip(i + 1));
        i += 1;
    }
    None
}

/// The project file for a running tmux session, from what tmux printed:
/// `list-windows` as `#W #{window_layout} #{window_active}
/// #{pane_current_path}`, `list-panes -s` as `#W #{pane_current_path}`, and
/// `show-options`.
pub fn project_from_session(name: &str, windows_output: &str, panes_output: &str, options_output: &str) -> (r: Yaml)
    ensures
        project_describes(r, name@, windows_output@, panes_output@, options_output@),
{
    let wlines = lines_of(chars_of(windows_output).as_slice());
    let plines = lines_of(chars_of(panes_output).as_slice());
    let olines = lines_of(chars_of(options_output).as_slice());
    let ghost wl = spec_lines(windows_output@);
    let ghost pl = spec_lines(panes_output@);
    let ghost options = options_output@;
    proof {
        assert(wlines@.len() == wl.len());
        assert(plines@.len() == pl.len());
    }
    let mut root: Option<String> = match default_path_of(&olines) {
        Some(p) => Some(text_of(&p)),
        None => None,
    };
    // The words of each pane line.
    let mut pane_words: Vec<Vec<Vec<char>>> = Vec::new();
    let mut k: usize = 0;
    while k < plines.len()
        invariant
            k <= plines@.len(),
            plines@.map_values(|l: Vec<char>| l@) == pl,
            pane_words@.len() == k,
            forall|j: int| 0 <= j < k ==> (#[trigger] pane_words@[j])@.map_values(|w: Vec<char>| w@) == words(pl[j]),
        decreases plines.len() - k,
    {
        assert(plines@.map_values(|l: Vec<char>| l@)[k as int] == plines@[k as int]@);
        pane_words.push(words_of(plines[k].as_slice()));
        k += 1;
    }
    let mut windows: Vec<Yaml> = Vec::new();
    let mut i: usize = 0;
    while i < wlines.len()
        invariant
            i <= wlines@.len(),
            wlines@.map_values(|l: Vec<char>| l@) == wl,
            pane_words@.len() == pl.len(),
            forall|j: int| 0 <= j < pl.len() ==> (#[trigger] pane_words@[j])@.map_values(|w: Vec<char>| w@) == words(pl[j]),
            windows@.len() == window_lines(wl.take(i as int)).len(),
            forall|k: int| 0 <= k < windows@.len() ==> window_entry(#[trigger] windows@[k], window_lines(wl.take(i as int))[k], pane_paths(pl, window_lines(wl.take(i as int))[k][0])),
            match root {
                Some(r) => session_root(window_lines(wl.take(i as int)), options) == Some(r@),
                None => session_root(window_lines(wl.take(i as int)), options) is None,
            },
        decreases wlines.len() - i,
    {
        let ghost before = window_lines(wl.take(i as int));
        proof {
            assert(wlines@.map_values(|l: Vec<char>| l@)[i as int] == wlines@[i as int]@);
            assert(wl.take(i + 1).drop_last() == wl.take(i as int));
            assert(wl.take(i + 1).last() == wl[i as int]);
        }
        let ws = words_of(wlines[i].as_slice());
        let ghost wv = ws@.map_values(|w: Vec<char>| w@);
        if ws.len() >= 4 {
            proof {
                assert(window_lines(wl.take(i + 1)) == before.push(wv));
                assert(wv[2] == ws@[2]@ && wv[3] == ws@[3]@ && wv[0] == ws@[0]@ && wv[1] == ws@[1]@);
            }
            if root.is_none() && ws[2].len() == 1 && ws[2][0] == '1' {
                proof {
                    assert(ws@[2]@ =~= "1"@) by { reveal_strlit("1"); }
                    assert(before.push(wv).drop_last() == before);
                }
                root = Some(text_of(&ws[3]));
            } else {
                proof {
                    assert(before.push(wv).drop_last() == before);
                    if root is None {
                        reveal_strlit("1");
                        assert(ws@[2]@ != "1"@) by {
                            if ws@[2]@ == "1"@ {
                                assert(ws@[2]@.len() == 1 && ws@[2]@[0] == '1');
                            }
                        }
                    }
                }
            }
            let window_name = &ws[0];
            let ghost w0 = window_name@;
            let mut panes: Vec<Yaml> = Vec::new();
            let mut j: usize = 0;
            while j < pane_words.len()
                invariant
                    j <= pane_words@.len(),
                    w0 == window_name@,
                    pane_words@.len() == pl.len(),
                    forall|q: int| 0 <= q < pl.len() ==> (#[trigger] pane_words@[q])@.map_values(|w: Vec<char>| w@) == words(pl[q]),
                    panes@.len() == pane_paths(pl.take(j as int), w0).len(),
                    forall|q: int| 0 <= q < panes@.len() ==> is_str(#[trigger] panes@[q], "cd "@ + pane_paths(pl.take(j as int), w0)[q]),
                decreases pane_words.len() - j,
            {
                let pw = &pane_words[j];
                proof {
                    assert(pl.take(j + 1).drop_last() == pl.take(j as int));
                    assert(pl.take(j + 1).last() == pl[j as int]);
                }
                let ghost pv = pw@.map_values(|w: Vec<char>| w@);
                assert(pv == words(pl[j as int]));
                let ghost step = if pv.len() >= 2 && pv[0] == w0 { seq![pv[1]] } else { Seq::<Seq<char>>::empty() };
                assert(pane_paths(pl.take(j + 1), w0) == pane_paths(pl.take(j as int), w0) + step) by {
                    let t = pl.take(j + 1);
                    assert(t.len() > 0);
                    assert(t.drop_last() == pl.take(j as int));
                    assert(t.last() == pl[j as int]);
                }
                if pw.len() >= 2 && chars_eq(pw[0].as_slice(), window_name.as_slice()) {
                    let mut cmd: Vec<char> = Vec::new();
                    extend_str(&mut cmd, "cd ");
                    extend_chars(&mut cmd, pw[1].as_slice());
                    proof {
                        assert(pv[0] == pw@[0]@ && pv[1] == pw@[1]@);
                        assert(cmd@ =~= "cd "@ + pv[1]);
                    }
                    let ghost old_panes = panes@;
                    panes.push(Yaml::String(text_of(&cmd)));
                    proof {
                        assert(pv.len() >= 2 && pv[0] == w0);
                        assert(step == seq![pv[1]]);
                        assert forall|q: int| 0 <= q < panes@.len() implies is_str(#[trigger] panes@[q], "cd "@ + pane_paths(pl.take(j + 1), w0)[q]) by {
                            if q < old_panes.len() {
                                assert(panes@[q] == old_panes[q]);
                            }
                        }
                    }
                } else {
                    proof {
                        if pv.len() >= 2 {
                            assert(pv[0] == pw@[0]@);
                        }
                        assert(step =~= Seq::<Seq<char>>::empty());
                        assert(pane_paths(pl.take(j as int), w0) + step =~= pane_paths(pl.take(j as int), w0));
                    }
                }
                j += 1;
            }
            proof {
                assert(pl.take(pl.len() as int) == pl);
            }
            let mut opts: Vec<(Yaml, Yaml)> = Vec::new();
            opts.push((yaml_str("layout"), Yaml::String(text_of(&ws[1]))));
            opts.push((yaml_str("panes"), Yaml::Sequence(panes)));
            let mut entry: Vec<(Yaml, Yaml)> = Vec::new();
            entry.push((Yaml::String(text_of(window_name)), Yaml::Mapping(opts)));
            let ghost old_windows = windows@;
            let item = Yaml::Mapping(entry);
            proof {
                reveal_strlit("layout");
                reveal_strlit("panes");
                assert(window_entry(item, wv, pane_paths(pl, wv[0])));
            }
            windows.push(item);
            proof {
                assert forall|k: int| 0 <= k < windows@.len() implies window_entry(#[trigger] windows@[k], window_lines(wl.take(i + 1))[k], pane_paths(pl, window_lines(wl.take(i + 1))[k][0])) by {
                    if k < old_windows.len() {
                        assert(windows@[k] == old_windows[k]);
                    }
                }
            }
        } else {
            proof {
                assert(window_lines(wl.take(i + 1)) == before);
            }
        }
        i += 1;
    }
    proof {
        assert(wl.take(wl.len() as int) == wl);
    }
    let mut top: Vec<(Yaml, Yaml)> = Vec::new();
    top.push((yaml_str("name"), yaml_str(name)));
    top.push((yaml_str("project_root"), match root {
        Some(r) => Yaml::String(r),
        None => Yaml::Null,
    }));
    top.push((yaml_str("windows"), Yaml::Sequence(windows)));
    Yaml::Mapping(top)
}

} // verus!

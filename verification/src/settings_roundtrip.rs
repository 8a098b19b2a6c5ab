//! What `set` promises: the document it writes reads back as the backend
//! it was given.

use vstd::prelude::*;
use crate::settings::{
    Backend, DEFAULT_BACKEND_KEY, SettingsFailure, TomlStringError, comment_cut,
    is_assignment_line, parse_lines, rewrite_lines, setting_line, spec_assignment,
    spec_backend_name, spec_document_with_default_backend, spec_parse_backend,
    spec_parse_settings, spec_parse_toml_string, spec_strip_toml_comment, toml_unescape,
};
use crate::text::{
    ascii_lower, ascii_lower_seq, find_char, is_ws, lead_ws, lemma_find_char, lemma_lead_ws_exact,
    lemma_trail_ws_exact, lines_from, spec_lines, split_once, starts_with_char, strip_bom, strip_cr,
    trail_ws, trim, trim_end, trim_start,
};

verus! {

/// Whether a line holds no newline.
pub open spec fn no_newline(l: Seq<char>) -> bool {
    forall|k: int| 0 <= k < l.len() ==> (#[trigger] l[k]) != '\n'
}

/// Lines, each followed by a newline.
pub open spec fn join_lines(ls: Seq<Seq<char>>) -> Seq<char>
    decreases ls.len(),
{
    if ls.len() == 0 {
        seq![]
    } else {
        ls[0] + seq!['\n'] + join_lines(ls.drop_first())
    }
}

/// The lines `rewrite_lines` writes from line `i` on.
pub open spec fn emitted(
    lines: Seq<Seq<char>>,
    i: int,
    in_top: bool,
    replaced: bool,
    a: Seq<char>,
) -> Seq<Seq<char>>
    decreases lines.len() - i,
{
    if i >= lines.len() || i < 0 {
        if replaced {
            seq![]
        } else {
            seq![a]
        }
    } else {
        let line = setting_line(lines[i]);
        let opens_table = in_top && starts_with_char(line, '[');
        let pre: Seq<Seq<char>> = if opens_table && !replaced {
            seq![a]
        } else {
            seq![]
        };
        let in_top2 = in_top && !opens_table;
        let assign = in_top2 && is_assignment_line(line);
        pre + seq![
            if assign {
                a
            } else {
                lines[i]
            },
        ] + emitted(lines, i + 1, in_top2, replaced || opens_table || assign, a)
    }
}

/// `parse_lines` over a list of lines, without line numbers: `None` when
/// it fails.
pub open spec fn reads(ls: Seq<Seq<char>>, in_top: bool, found: Option<Backend>) -> Option<
    Option<Backend>,
>
    decreases ls.len(),
{
    if ls.len() == 0 {
        Some(found)
    } else {
        let line = setting_line(ls[0]);
        let rest = ls.drop_first();
        if line.len() == 0 || line[0] == '#' {
            reads(rest, in_top, found)
        } else if line[0] == '[' {
            reads(rest, false, found)
        } else if !in_top {
            reads(rest, in_top, found)
        } else {
            match split_once(line, '=') {
                None => reads(rest, in_top, found),
                Some((k, v)) => if trim(k) != DEFAULT_BACKEND_KEY@ {
                    reads(rest, in_top, found)
                } else if found is Some {
                    None
                } else {
                    match spec_parse_toml_string(v) {
                        Err(_) => None,
                        Ok(s) => match spec_parse_backend(s) {
                            None => None,
                            Some(b) => reads(rest, in_top, Some(b)),
                        },
                    }
                },
            }
        }
    }
}

proof fn lemma_join_append(a: Seq<Seq<char>>, b: Seq<Seq<char>>)
    ensures
        join_lines(a + b) == join_lines(a) + join_lines(b),
    decreases a.len(),
{
    if a.len() == 0 {
        assert(a + b == b);
    } else {
        lemma_join_append(a.drop_first(), b);
        assert((a + b).drop_first() == a.drop_first() + b);
        assert((a + b)[0] == a[0]);
    }
}

proof fn lemma_lines_one(x: Seq<char>, rest: Seq<char>, cur: Seq<char>)
    requires
        no_newline(x),
    ensures
        lines_from(x + seq!['\n'] + rest, cur) == seq![strip_cr(cur + x)] + lines_from(rest, seq![]),
    decreases x.len(),
{
    let s = x + seq!['\n'] + rest;
    if x.len() == 0 {
        assert(s[0] == '\n');
        assert(s.drop_first() == rest);
        assert(cur + x == cur);
    } else {
        assert(s[0] == x[0]);
        assert(s.drop_first() == x.drop_first() + seq!['\n'] + rest);
        lemma_lines_one(x.drop_first(), rest, cur.push(x[0]));
        assert(cur.push(x[0]) + x.drop_first() == cur + x);
    }
}

proof fn lemma_lines_join(ls: Seq<Seq<char>>)
    requires
        forall|i: int| 0 <= i < ls.len() ==> no_newline(#[trigger] ls[i]),
    ensures
        spec_lines(join_lines(ls)) == ls.map_values(|l: Seq<char>| strip_cr(l)),
    decreases ls.len(),
{
    if ls.len() == 0 {
        assert(spec_lines(join_lines(ls)) == Seq::<Seq<char>>::empty());
        assert(ls.map_values(|l: Seq<char>| strip_cr(l)) == Seq::<Seq<char>>::empty());
    } else {
        let rest = ls.drop_first();
        assert forall|i: int| 0 <= i < rest.len() implies no_newline(#[trigger] rest[i]) by {
            assert(rest[i] == ls[i + 1]);
        }
        lemma_lines_join(rest);
        lemma_lines_one(ls[0], join_lines(rest), seq![]);
        assert(Seq::<char>::empty() + ls[0] == ls[0]);
        assert(ls.map_values(|l: Seq<char>| strip_cr(l)) == seq![strip_cr(ls[0])] + rest.map_values(
            |l: Seq<char>| strip_cr(l),
        ));
    }
}

proof fn lemma_lines_from_no_newline(s: Seq<char>, cur: Seq<char>)
    requires
        no_newline(cur),
    ensures
        forall|i: int| 0 <= i < lines_from(s, cur).len() ==> no_newline(#[trigger] lines_from(s, cur)[i]),
    decreases s.len(),
{
    if s.len() > 0 {
        if s[0] == '\n' {
            lemma_lines_from_no_newline(s.drop_first(), seq![]);
            let r = lines_from(s.drop_first(), seq![]);
            assert forall|i: int| 0 <= i < lines_from(s, cur).len() implies no_newline(
                #[trigger] lines_from(s, cur)[i],
            ) by {
                if i > 0 {
                    assert(lines_from(s, cur)[i] == r[i - 1]);
                } else {
                    assert(lines_from(s, cur)[0] == strip_cr(cur));
                    assert forall|k: int| 0 <= k < strip_cr(cur).len() implies (
                    #[trigger] strip_cr(cur)[k]) != '\n' by {
                        assert(strip_cr(cur)[k] == cur[k]);
                    }
                }
            }
        } else {
            assert(lines_from(s, cur) == lines_from(s.drop_first(), cur.push(s[0])));
            assert(no_newline(cur.push(s[0]))) by {
                assert forall|k: int| 0 <= k < cur.push(s[0]).len() implies (#[trigger] cur.push(
                    s[0],
                )[k]) != '\n' by {
                    if k < cur.len() {
                        assert(cur.push(s[0])[k] == cur[k]);
                    }
                }
            }
            lemma_lines_from_no_newline(s.drop_first(), cur.push(s[0]));
        }
    } else {
        if cur.len() > 0 {
            assert(lines_from(s, cur) == seq![cur]);
            assert(lines_from(s, cur)[0] == cur);
        } else {
            assert(lines_from(s, cur).len() == 0);
        }
    }
}

proof fn lemma_rewrite_join(lines: Seq<Seq<char>>, i: int, in_top: bool, replaced: bool, a: Seq<char>)
    requires
        0 <= i,
    ensures
        rewrite_lines(lines, i, in_top, replaced, a) == join_lines(emitted(lines, i, in_top, replaced, a)),
    decreases lines.len() - i,
{
    if i >= lines.len() {
        if !replaced {
            assert(seq![a].drop_first() =~= Seq::<Seq<char>>::empty());
            assert(join_lines(seq![a]) == a + seq!['\n'] + join_lines(Seq::<Seq<char>>::empty()));
            assert(a + seq!['\n'] + Seq::<char>::empty() == a + seq!['\n']);
        }
    } else {
        let line = setting_line(lines[i]);
        let opens_table = in_top && starts_with_char(line, '[');
        let in_top2 = in_top && !opens_table;
        let assign = in_top2 && is_assignment_line(line);
        let r2 = replaced || opens_table || assign;
        lemma_rewrite_join(lines, i + 1, in_top2, r2, a);
        let pre: Seq<Seq<char>> = if opens_table && !replaced {
            seq![a]
        } else {
            seq![]
        };
        let mid: Seq<char> = if assign {
            a
        } else {
            lines[i]
        };
        let tail = emitted(lines, i + 1, in_top2, r2, a);
        lemma_join_append(pre, seq![mid]);
        lemma_join_append(pre + seq![mid], tail);
        assert(seq![mid].drop_first() =~= Seq::<Seq<char>>::empty());
        assert(join_lines(seq![mid]) == mid + seq!['\n'] + join_lines(Seq::<Seq<char>>::empty()));
        if opens_table && !replaced {
            assert(pre.drop_first() =~= Seq::<Seq<char>>::empty());
            assert(join_lines(pre) == a + seq!['\n'] + join_lines(Seq::<Seq<char>>::empty()));
        } else {
            assert(join_lines(pre) == Seq::<char>::empty());
        }
    }
}

proof fn lemma_reads_parse(ls: Seq<Seq<char>>, i: int, in_top: bool, found: Option<Backend>)
    requires
        0 <= i <= ls.len(),
    ensures
        parse_lines(ls, i, in_top, found) is Ok <==> reads(ls.skip(i), in_top, found) is Some,
        parse_lines(ls, i, in_top, found) matches Ok(x) ==> reads(ls.skip(i), in_top, found) == Some(
            x,
        ),
    decreases ls.len() - i,
{
    if i < ls.len() {
        assert(ls.skip(i)[0] == ls[i]);
        assert(ls.skip(i).drop_first() == ls.skip(i + 1));
        let line = setting_line(ls[i]);
        if line.len() == 0 || line[0] == '#' {
            lemma_reads_parse(ls, i + 1, in_top, found);
        } else if line[0] == '[' {
            lemma_reads_parse(ls, i + 1, false, found);
        } else if !in_top {
            lemma_reads_parse(ls, i + 1, in_top, found);
        } else {
            match split_once(line, '=') {
                None => lemma_reads_parse(ls, i + 1, in_top, found),
                Some((k, v)) => {
                    if trim(k) != DEFAULT_BACKEND_KEY@ {
                        lemma_reads_parse(ls, i + 1, in_top, found);
                    } else if found is None {
                        match spec_parse_toml_string(v) {
                            Err(_) => {},
                            Ok(s) => match spec_parse_backend(s) {
                                None => {},
                                Some(b) => lemma_reads_parse(ls, i + 1, in_top, Some(b)),
                            },
                        }
                    }
                },
            }
        }
    } else {
        assert(ls.skip(i).len() == 0);
    }
}

proof fn lemma_strip_cr_line(l: Seq<char>)
    ensures
        setting_line(strip_cr(l)) == setting_line(l),
    decreases l.len(),
{
    if l.len() > 0 && l.last() == '\r' {
        lemma_strip_bom_cr(l);
        let b = strip_bom(l);
        if b.len() > 0 {
            assert(b.last() == '\r');
            lemma_trim_drop_ws_last(b);
        }
    }
}

/// Removing a final carriage return commutes with removing leading
/// byte-order marks.
proof fn lemma_strip_bom_cr(l: Seq<char>)
    requires
        l.len() > 0,
        l.last() == '\r',
    ensures
        strip_bom(l).len() > 0 ==> strip_bom(l).last() == '\r' && strip_bom(strip_cr(l)) == strip_bom(
            l,
        ).drop_last(),
        strip_bom(l).len() == 0 ==> strip_bom(strip_cr(l)).len() == 0,
    decreases l.len(),
{
    if l[0] == '\u{feff}' {
        let t = l.drop_first();
        if t.len() > 0 {
            lemma_strip_bom_cr(t);
            assert(strip_cr(l) == seq![l[0]] + strip_cr(t));
            assert((seq![l[0]] + strip_cr(t)).drop_first() == strip_cr(t));
        } else {
            assert(l.last() == l[0]);
        }
    } else {
        assert(strip_bom(l) == l);
        if strip_cr(l).len() > 0 {
            assert(strip_cr(l)[0] == l[0]);
        }
    }
}

proof fn lemma_trim_drop_ws_last(b: Seq<char>)
    requires
        b.len() > 0,
        is_ws(b.last()),
    ensures
        trim(b.drop_last()) == trim(b),
{
    let d = b.drop_last();
    let n = lead_ws(b);
    crate::text::lemma_lead_ws_bound(b);
    crate::text::lemma_lead_ws_bound(d);
    let m = lead_ws(d);
    if n == b.len() {
        assert forall|i: int| 0 <= i < d.len() implies is_ws(#[trigger] d[i]) by {
            assert(d[i] == b[i]);
        }
        lemma_lead_ws_exact(d, d.len());
        assert(trim(b) == Seq::<char>::empty());
        assert(trim(d) == Seq::<char>::empty());
    } else {
        assert forall|i: int| 0 <= i < n implies is_ws(#[trigger] d[i]) by {
            assert(d[i] == b[i]);
        }
        assert(n < d.len());
        assert(d[n as int] == b[n as int]);
        lemma_lead_ws_exact(d, n);
        let ts = trim_start(b);
        let td = trim_start(d);
        assert(td == ts.drop_last());
        crate::text::lemma_trail_ws_bound(ts);
        crate::text::lemma_trail_ws_bound(td);
        let t = trail_ws(ts);
        assert(ts.last() == b.last());
        assert(t >= 1) by {
            assert(ts.len() > 0);
        }
        assert forall|i: int| td.len() - (t - 1) <= i < td.len() implies is_ws(#[trigger] td[i]) by {
            assert(td[i] == ts[i]);
        }
        if t - 1 < td.len() {
            assert(td[td.len() - (t - 1) - 1] == ts[ts.len() - t - 1]);
        }
        lemma_trail_ws_exact(td, (t - 1) as nat);
        assert(trim_end(td) =~= trim_end(ts));
    }
}

proof fn lemma_reads_strip_cr(ls: Seq<Seq<char>>, in_top: bool, found: Option<Backend>)
    ensures
        reads(ls.map_values(|l: Seq<char>| strip_cr(l)), in_top, found) == reads(ls, in_top, found),
    decreases ls.len(),
{
    let m = ls.map_values(|l: Seq<char>| strip_cr(l));
    if ls.len() > 0 {
        lemma_strip_cr_line(ls[0]);
        assert(m[0] == strip_cr(ls[0]));
        assert(m.drop_first() == ls.drop_first().map_values(|l: Seq<char>| strip_cr(l)));
        let line = setting_line(ls[0]);
        lemma_reads_strip_cr(ls.drop_first(), false, found);
        lemma_reads_strip_cr(ls.drop_first(), in_top, found);
        match split_once(line, '=') {
            Some((k, v)) => match spec_parse_toml_string(v) {
                Ok(s) => match spec_parse_backend(s) {
                    Some(b) => lemma_reads_strip_cr(ls.drop_first(), in_top, Some(b)),
                    None => {},
                },
                Err(_) => {},
            },
            None => {},
        }
    }
}

pub open spec fn backend_name_chars(b: Backend) -> Seq<char> {
    match b {
        Backend::Tmux => seq!['t', 'm', 'u', 'x'],
        Backend::Herdr => seq!['h', 'e', 'r', 'd', 'r'],
        Backend::Zellij => seq!['z', 'e', 'l', 'l', 'i', 'j'],
    }
}

/// The characters of a backend name: lower-case ASCII letters.
proof fn lemma_name_chars(b: Backend)
    ensures
        spec_backend_name(b) == backend_name_chars(b),
        backend_name_chars(b).len() >= 4,
        forall|j: int|
            0 <= j < backend_name_chars(b).len() ==> 'a' <= #[trigger] backend_name_chars(b)[j]
                <= 'z',
{
    reveal_strlit("tmux");
    reveal_strlit("herdr");
    reveal_strlit("zellij");
    let n = backend_name_chars(b);
    assert(spec_backend_name(b) =~= n);
    assert forall|j: int| 0 <= j < n.len() implies 'a' <= #[trigger] n[j] <= 'z' by {
        match b {
            Backend::Tmux => {
                if j == 0 {
                } else if j == 1 {
                } else if j == 2 {
                } else {
                }
            },
            Backend::Herdr => {
                if j == 0 {
                } else if j == 1 {
                } else if j == 2 {
                } else if j == 3 {
                } else {
                }
            },
            Backend::Zellij => {
                if j == 0 {
                } else if j == 1 {
                } else if j == 2 {
                } else if j == 3 {
                } else if j == 4 {
                } else {
                }
            },
        }
    }
}

proof fn lemma_key_chars()
    ensures
        DEFAULT_BACKEND_KEY@.len() == 15,
        forall|j: int| 0 <= j < 15 ==> (#[trigger] DEFAULT_BACKEND_KEY@[j]) != '=' && !is_ws(
            DEFAULT_BACKEND_KEY@[j],
        ) && DEFAULT_BACKEND_KEY@[j] != '#' && DEFAULT_BACKEND_KEY@[j] != '[',
        DEFAULT_BACKEND_KEY@[0] == 'd',
{
    reveal_strlit("default_backend");
    let k = DEFAULT_BACKEND_KEY@;
    assert(k =~= seq!['d', 'e', 'f', 'a', 'u', 'l', 't', '_', 'b', 'a', 'c', 'k', 'e', 'n', 'd']);
    assert forall|j: int| 0 <= j < 15 implies (#[trigger] k[j]) != '=' && !is_ws(k[j]) && k[j] != '#'
        && k[j] != '[' by {
        if j == 0 {
        } else if j == 1 {
        } else if j == 2 {
        } else if j == 3 {
        } else if j == 4 {
        } else if j == 5 {
        } else if j == 6 {
        } else if j == 7 {
        } else if j == 8 {
        } else if j == 9 {
        } else if j == 10 {
        } else if j == 11 {
        } else if j == 12 {
        } else if j == 13 {
        } else if j == 14 {
        }
    }
}

proof fn lemma_unescape_plain(n: Seq<char>)
    requires
        forall|j: int| 0 <= j < n.len() ==> (#[trigger] n[j]) != '\\',
    ensures
        toml_unescape(n) == Ok::<Seq<char>, TomlStringError>(n),
    decreases n.len(),
{
    if n.len() > 0 {
        let t = n.drop_first();
        assert forall|j: int| 0 <= j < t.len() implies (#[trigger] t[j]) != '\\' by {
            assert(t[j] == n[j + 1]);
        }
        lemma_unescape_plain(t);
        assert(seq![n[0]] + t == n);
    } else {
        assert(n =~= Seq::<char>::empty());
    }
}

proof fn lemma_cut_in_quotes(v: Seq<char>, i: int)
    requires
        2 <= i <= v.len() - 1,
        v.last() == '"',
        forall|j: int| i <= j < v.len() - 1 ==> (#[trigger] v[j]) != '\\' && v[j] != '"',
    ensures
        comment_cut(v, i, false, true, false) == v.len(),
    decreases v.len() - i,
{
    assert(v[v.len() - 1] == v.last());
    if i < v.len() - 1 {
        lemma_cut_in_quotes(v, i + 1);
        assert(v[i] != '\\' && v[i] != '"');
        assert(comment_cut(v, i, false, true, false) == comment_cut(v, i + 1, false, true, false));
    } else {
        assert(v[i] == '"');
        assert(comment_cut(v, i, false, true, false) == comment_cut(v, i + 1, false, false, false));
    }
}

/// The assignment `set` writes reads back as its backend.
proof fn lemma_assignment_reads(b: Backend)
    ensures
        setting_line(spec_assignment(b)) == spec_assignment(b),
        spec_assignment(b).len() > 0,
        spec_assignment(b)[0] != '#' && spec_assignment(b)[0] != '[',
        is_assignment_line(spec_assignment(b)),
        no_newline(spec_assignment(b)),
        split_once(spec_assignment(b), '=') matches Some((k, v)) && trim(k) == DEFAULT_BACKEND_KEY@
            && spec_parse_toml_string(v) == Ok::<Seq<char>, TomlStringError>(spec_backend_name(b))
            && spec_parse_backend(spec_backend_name(b)) == Some(b),
{
    lemma_key_chars();
    lemma_name_chars(b);
    reveal_strlit(" = \"");
    reveal_strlit("\"");
    let k = DEFAULT_BACKEND_KEY@;
    let n = spec_backend_name(b);
    let a = spec_assignment(b);
    assert(" = \""@ =~= seq![' ', '=', ' ', '"']);
    assert("\""@ =~= seq!['"']);
    assert(a =~= k + seq![' ', '=', ' ', '"'] + n + seq!['"']);
    // no newline, no byte-order mark, no surrounding whitespace
    assert forall|j: int| 0 <= j < a.len() implies (#[trigger] a[j]) != '\n' by {
        if j < 15 {
            assert(a[j] == k[j]);
        } else if j >= 19 && j < 19 + n.len() {
            assert(a[j] == n[j - 19]);
        }
    }
    assert(a[0] == 'd');
    assert(strip_bom(a) == a);
    lemma_lead_ws_exact(a, 0);
    lemma_trail_ws_exact(a, 0);
    assert(trim(a) =~= a);
    // the key
    assert(a[16] == '=');
    assert forall|j: int| 0 <= j < 16 implies (#[trigger] a[j]) != '=' by {
        if j < 15 {
            assert(a[j] == k[j]);
        }
    }
    lemma_find_char(a, '=');
    assert(find_char(a, '=') == 16) by {
        let f = find_char(a, '=');
        if f < 16 {
            assert(a[f as int] == '=');
        }
    }
    let key = a.subrange(0, 16);
    let val = a.subrange(17, a.len() as int);
    assert(key =~= k + seq![' ']);
    lemma_lead_ws_exact(key, 0);
    assert(is_ws(key[15]));
    assert(key[14] == k[14]);
    assert(trim_start(key) =~= key);
    lemma_trail_ws_exact(key, 1);
    assert(trim(key) =~= k);
    // the value
    assert(val =~= seq![' ', '"'] + n + seq!['"']);
    assert forall|j: int| 2 <= j < val.len() - 1 implies (#[trigger] val[j]) != '\\' && val[j] != '"' by {
        assert(val[j] == n[j - 2]);
    }
    lemma_cut_in_quotes(val, 2);
    assert(comment_cut(val, 0, false, false, false) == comment_cut(val, 1, false, false, false));
    assert(comment_cut(val, 1, false, false, false) == comment_cut(val, 2, false, true, false));
    assert(spec_strip_toml_comment(val) =~= val);
    assert(is_ws(val[0]) && !is_ws(val[1]));
    lemma_lead_ws_exact(val, 1);
    lemma_trail_ws_exact(val, 0);
    let q = trim(val);
    assert(q =~= seq!['"'] + n + seq!['"']);
    assert(q.subrange(1, q.len() - 1) =~= n);
    assert forall|j: int| 0 <= j < n.len() implies (#[trigger] n[j]) != '\\' by {}
    lemma_unescape_plain(n);
    // the name
    assert(!is_ws(n[0]) && !is_ws(n[n.len() - 1]));
    lemma_lead_ws_exact(n, 0);
    lemma_trail_ws_exact(n, 0);
    assert(trim(n) =~= n);
    assert(ascii_lower_seq(n) =~= n) by {
        assert forall|j: int| 0 <= j < n.len() implies ascii_lower(#[trigger] n[j]) == n[j] by {}
    }
    reveal_strlit("tmux");
    reveal_strlit("herdr");
    reveal_strlit("zellij");
    assert("tmux"@ =~= seq!['t', 'm', 'u', 'x']);
    assert("herdr"@ =~= seq!['h', 'e', 'r', 'd', 'r']);
    assert("zellij"@ =~= seq!['z', 'e', 'l', 'l', 'i', 'j']);
}


/// A line that assigns `default_backend` starts with neither `#` nor `[`.
proof fn lemma_assignment_start(sl: Seq<char>)
    requires
        is_assignment_line(sl),
    ensures
        sl.len() > 0 && sl[0] != '#' && sl[0] != '[',
{
    lemma_key_chars();
    let idx = find_char(sl, '=');
    lemma_find_char(sl, '=');
    let key = sl.subrange(0, idx as int);
    crate::text::lemma_lead_ws_bound(key);
    if sl.len() > 0 && (sl[0] == '#' || sl[0] == '[') {
        if key.len() > 0 {
            assert(key[0] == sl[0]);
            lemma_lead_ws_exact(key, 0);
            let ts = trim_start(key);
            assert(ts =~= key);
            crate::text::lemma_trail_ws_bound(ts);
            assert(trim(key)[0] == key[0]) by {
                if trim(key).len() > 0 {
                    assert(trim(key)[0] == ts[0]);
                }
            }
        } else {
            assert(trim(key).len() == 0);
        }
    }
}

proof fn lemma_emitted_no_newline(lines: Seq<Seq<char>>, i: int, in_top: bool, replaced: bool, a: Seq<char>)
    requires
        0 <= i,
        no_newline(a),
        forall|j: int| 0 <= j < lines.len() ==> no_newline(#[trigger] lines[j]),
    ensures
        forall|j: int|
            0 <= j < emitted(lines, i, in_top, replaced, a).len() ==> no_newline(
                #[trigger] emitted(lines, i, in_top, replaced, a)[j],
            ),
    decreases lines.len() - i,
{
    let e = emitted(lines, i, in_top, replaced, a);
    if i < lines.len() {
        let line = setting_line(lines[i]);
        let opens_table = in_top && starts_with_char(line, '[');
        let in_top2 = in_top && !opens_table;
        let assign = in_top2 && is_assignment_line(line);
        let r2 = replaced || opens_table || assign;
        lemma_emitted_no_newline(lines, i + 1, in_top2, r2, a);
        let tail = emitted(lines, i + 1, in_top2, r2, a);
        assert forall|j: int| 0 <= j < e.len() implies no_newline(#[trigger] e[j]) by {
            let pre: Seq<Seq<char>> = if opens_table && !replaced {
                seq![a]
            } else {
                seq![]
            };
            let mid: Seq<char> = if assign {
                a
            } else {
                lines[i]
            };
            assert(e == pre + seq![mid] + tail);
            if j < pre.len() {
                assert(e[j] == a);
            } else if j == pre.len() {
                assert(e[j] == mid);
            } else {
                assert(e[j] == tail[j - pre.len() - 1]);
            }
        }
    } else {
        assert forall|j: int| 0 <= j < e.len() implies no_newline(#[trigger] e[j]) by {
            assert(e[j] == a);
        }
    }
}

/// Reading what `rewrite_lines` writes from line `i` on ends with the new
/// backend, provided the old document read without error from there.
proof fn lemma_rewrite_reads(
    lines: Seq<Seq<char>>,
    i: int,
    in_top: bool,
    replaced: bool,
    fd: Option<Backend>,
    b: Backend,
)
    requires
        0 <= i <= lines.len(),
        parse_lines(lines, i, in_top, fd) is Ok,
        in_top ==> (replaced <==> fd is Some),
        !in_top ==> replaced,
    ensures
        reads(
            emitted(lines, i, in_top, replaced, spec_assignment(b)),
            in_top,
            if replaced {
                Some(b)
            } else {
                None
            },
        ) == Some(Some(b)),
    decreases lines.len() - i,
{
    let a = spec_assignment(b);
    lemma_assignment_reads(b);
    lemma_assignment_start(a);
    let newf: Option<Backend> = if replaced {
        Some(b)
    } else {
        None
    };
    let e = emitted(lines, i, in_top, replaced, a);
    if i == lines.len() {
        if !replaced {
            assert(e == seq![a]);
            assert(e.drop_first() =~= Seq::<Seq<char>>::empty());
            assert(e[0] == a);
            assert(reads(e.drop_first(), in_top, Some(b)) == Some(Some(b)));
            assert(reads(e, in_top, newf) == Some(Some(b)));
        } else {
            assert(e.len() == 0);
            assert(reads(e, in_top, newf) == Some(Some(b)));
        }
    } else {
        let l = lines[i];
        let sl = setting_line(l);
        let opens_table = in_top && starts_with_char(sl, '[');
        let in_top2 = in_top && !opens_table;
        let assign = in_top2 && is_assignment_line(sl);
        let r2 = replaced || opens_table || assign;
        let tail = emitted(lines, i + 1, in_top2, r2, a);
        if is_assignment_line(sl) {
            lemma_assignment_start(sl);
        }
        if sl.len() == 0 || sl[0] == '#' {
            assert(!opens_table && !assign);
            assert(e == seq![l] + tail);
            assert((seq![l] + tail)[0] == l);
            assert((seq![l] + tail).drop_first() == tail);
            lemma_rewrite_reads(lines, i + 1, in_top, replaced, fd, b);
            assert(reads(e, in_top, newf) == Some(Some(b)));
        } else if sl[0] == '[' {
            assert(!assign);
            lemma_rewrite_reads(lines, i + 1, false, true, fd, b);
            if in_top && !replaced {
                assert(e == seq![a] + seq![l] + tail);
                let x = seq![a] + seq![l] + tail;
                assert(x[0] == a);
                assert(x.drop_first() == seq![l] + tail);
                assert((seq![l] + tail)[0] == l);
                assert((seq![l] + tail).drop_first() == tail);
                assert(reads(seq![l] + tail, in_top, Some(b)) == Some(Some(b)));
                assert(reads(e, in_top, newf) == Some(Some(b)));
            } else {
                assert(e == seq![l] + tail);
                assert((seq![l] + tail)[0] == l);
                assert((seq![l] + tail).drop_first() == tail);
                assert(reads(e, in_top, newf) == Some(Some(b)));
            }
        } else if !in_top {
            assert(!assign);
            assert(e == seq![l] + tail);
            assert((seq![l] + tail)[0] == l);
            assert((seq![l] + tail).drop_first() == tail);
            lemma_rewrite_reads(lines, i + 1, in_top, replaced, fd, b);
        } else if assign {
            let (k, v) = split_once(sl, '=')->Some_0;
            assert(fd is None);
            let s = spec_parse_toml_string(v)->Ok_0;
            let b0 = spec_parse_backend(s)->Some_0;
            lemma_rewrite_reads(lines, i + 1, in_top, true, Some(b0), b);
            assert(e == seq![a] + tail);
            assert((seq![a] + tail)[0] == a);
            assert((seq![a] + tail).drop_first() == tail);
            assert(reads(e, in_top, newf) == Some(Some(b)));
        } else {
            assert(e == seq![l] + tail);
            assert((seq![l] + tail)[0] == l);
            assert((seq![l] + tail).drop_first() == tail);
            lemma_rewrite_reads(lines, i + 1, in_top, replaced, fd, b);
        }
    }
}

/// What `set` writes reads back: setting `default_backend` to `b` in a
/// settings document that reads without error gives a document whose
/// default backend is `b`.
pub proof fn written_backend_reads_back(document: Seq<char>, b: Backend)
    requires
        spec_parse_settings(document) is Ok,
    ensures
        spec_parse_settings(spec_document_with_default_backend(document, b)) == Ok::<
            Option<Backend>,
            SettingsFailure,
        >(Some(b)),
{
    let lines = spec_lines(document);
    let a = spec_assignment(b);
    lemma_assignment_reads(b);
    lemma_rewrite_join(lines, 0, true, false, a);
    let e = emitted(lines, 0, true, false, a);
    lemma_lines_from_no_newline(document, seq![]);
    lemma_emitted_no_newline(lines, 0, true, false, a);
    lemma_lines_join(e);
    let e2 = e.map_values(|l: Seq<char>| strip_cr(l));
    lemma_reads_parse(e2, 0, true, None);
    assert(e2.skip(0) == e2);
    lemma_reads_strip_cr(e, true, None);
    lemma_rewrite_reads(lines, 0, true, false, None, b);
}

} // verus!

verus! {

/// Every backend's name parses back to that backend.
pub proof fn backend_names_parse_back(b: Backend)
    ensures
        spec_parse_backend(spec_backend_name(b)) == Some(b),
{
    lemma_assignment_reads(b);
}

} // verus!

//! Path expansion and small helpers shared by the commands.

use vstd::prelude::*;
use crate::text::{chars_of, string_of, extend_chars, has_prefix, starts_with, str_eq};

verus! {

/// `s` without any trailing `c`.
pub open spec fn trim_end_char(s: Seq<char>, c: char) -> Seq<char>
    decreases s.len(),
{
    if s.len() > 0 && s.last() == c {
        trim_end_char(s.drop_last(), c)
    } else {
        s
    }
}

/// What one path segment does to the segments kept so far: empty and `.`
/// segments vanish, `..` drops the last kept segment (there is nothing above
/// the root), anything else is kept.
pub open spec fn apply_segment(parts: Seq<Seq<char>>, seg: Seq<char>) -> Seq<Seq<char>> {
    if seg.len() == 0 || seg == seq!['.'] {
        parts
    } else if seg == seq!['.', '.'] {
        if parts.len() > 0 {
            parts.drop_last()
        } else {
            parts
        }
    } else {
        parts.push(seg)
    }
}

/// The kept segments and the segment being read, after reading `s`.
pub open spec fn norm_state(s: Seq<char>) -> (Seq<Seq<char>>, Seq<char>)
    decreases s.len(),
{
    if s.len() == 0 {
        (seq![], seq![])
    } else {
        let (p, c) = norm_state(s.drop_last());
        if s.last() == '/' {
            (apply_segment(p, c), seq![])
        } else {
            (p, c.push(s.last()))
        }
    }
}

/// Each segment preceded by a slash.
pub open spec fn slash_joined(parts: Seq<Seq<char>>) -> Seq<char>
    decreases parts.len(),
{
    if parts.len() == 0 {
        seq![]
    } else {
        slash_joined(parts.drop_last()) + seq!['/'] + parts.last()
    }
}

/// The absolute path that `s` names once `.`, `..` and repeated slashes are
/// resolved lexically.
pub open spec fn spec_normalize(s: Seq<char>) -> Seq<char> {
    let (p, c) = norm_state(s);
    let parts = apply_segment(p, c);
    if parts.len() == 0 {
        seq!['/']
    } else {
        slash_joined(parts)
    }
}

/// The path before normalisation: `~` and `~/` expand to `home`, an absolute
/// path stands, and a relative one is taken from `base`.
pub open spec fn spec_joined(path: Seq<char>, base: Seq<char>, home: Seq<char>) -> Seq<char> {
    if path == seq!['~'] {
        home
    } else if has_prefix(path, seq!['~', '/']) {
        trim_end_char(home, '/') + seq!['/'] + path.skip(2)
    } else if path.len() > 0 && path[0] == '/' {
        path
    } else {
        trim_end_char(base, '/') + seq!['/'] + path
    }
}

pub open spec fn spec_expand_path(path: Seq<char>, base: Seq<char>, home: Seq<char>) -> Seq<char> {
    spec_normalize(spec_joined(path, base, home))
}

fn trim_end_slashes(v: &[char]) -> (r: Vec<char>)
    ensures
        r@ == trim_end_char(v@, '/'),
{
    let mut n = v.len();
    assert(v@.take(n as int) == v@);
    while n > 0 && v[n - 1] == '/'
        invariant
            n <= v@.len(),
            trim_end_char(v@, '/') == trim_end_char(v@.take(n as int), '/'),
        decreases n,
    {
        assert(v@.take(n as int).drop_last() == v@.take(n - 1));
        n -= 1;
    }
    let mut r: Vec<char> = Vec::new();
    let mut i: usize = 0;
    while i < n
        invariant
            n <= v@.len(),
            i <= n,
            r@ == v@.take(i as int),
        decreases n - i,
    {
        r.push(v[i]);
        assert(v@.take(i + 1) == v@.take(i as int).push(v@[i as int]));
        i += 1;
    }
    r
}

fn push_segment(parts: &mut Vec<Vec<char>>, seg: Vec<char>)
    ensures
        final(parts)@.map_values(|p: Vec<char>| p@) == apply_segment(
            old(parts)@.map_values(|p: Vec<char>| p@),
            seg@,
        ),
{
    let ghost before = parts@.map_values(|p: Vec<char>| p@);
    if seg.len() == 0 || (seg.len() == 1 && seg[0] == '.') {
        assert(seg.len() == 1 ==> seg@ == seq!['.']);
        return ;
    }
    if seg.len() == 2 && seg[0] == '.' && seg[1] == '.' {
        assert(seg@ == seq!['.', '.']);
        if parts.len() > 0 {
            parts.pop();
            assert(parts@.map_values(|p: Vec<char>| p@) == before.drop_last());
        }
        return ;
    }
    assert(seg@ != seq!['.']) by {
        if seg@ == seq!['.'] {
            assert(seg@.len() == 1);
        }
    }
    assert(seg@ != seq!['.', '.']) by {
        if seg@ == seq!['.', '.'] {
            assert(seg@[0] == '.' && seg@[1] == '.');
        }
    }
    parts.push(seg);
    assert(parts@.map_values(|p: Vec<char>| p@) == before.push(seg@));
}

/// Resolves `.`, `..` and repeated slashes without touching the
/// filesystem; the result is absolute.
fn normalize_lexically(path: &[char]) -> (r: Vec<char>)
    ensures
        r@ == spec_normalize(path@),
{
    let mut parts: Vec<Vec<char>> = Vec::new();
    let mut cur: Vec<char> = Vec::new();
    let mut i: usize = 0;
    while i < path.len()
        invariant
            i <= path@.len(),
            norm_state(path@.take(i as int)) == (parts@.map_values(|p: Vec<char>| p@), cur@),
        decreases path.len() - i,
    {
        let ghost pre = path@.take(i as int);
        assert(path@.take(i + 1).drop_last() == pre);
        let c = path[i];
        if c == '/' {
            let seg = cur;
            cur = Vec::new();
            push_segment(&mut parts, seg);
        } else {
            cur.push(c);
        }
        i += 1;
    }
    assert(path@.take(path@.len() as int) == path@);
    push_segment(&mut parts, cur);
    let ghost ps = parts@.map_values(|p: Vec<char>| p@);
    let mut out: Vec<char> = Vec::new();
    if parts.len() == 0 {
        out.push('/');
        return out;
    }
    let mut k: usize = 0;
    while k < parts.len()
        invariant
            k <= parts@.len(),
            ps == parts@.map_values(|p: Vec<char>| p@),
            out@ == slash_joined(ps.take(k as int)),
        decreases parts.len() - k,
    {
        assert(ps.take(k + 1).drop_last() == ps.take(k as int));
        out.push('/');
        extend_chars(&mut out, parts[k].as_slice());
        k += 1;
    }
    assert(ps.take(ps.len() as int) == ps);
    out
}

/// Ruby's `File.expand_path`, lexically: `~` and `~/...` expand against
/// `home`, relative paths against `base`, then `.`, `..` and repeated
/// slashes are resolved.
pub fn expand_path(path: &str, base: &str, home: &str) -> (r: String)
    ensures
        r@ == spec_expand_path(path@, base@, home@),
{
    let p = chars_of(path);
    let tilde_slash = chars_of("~/");
    proof {
        reveal_strlit("~");
        reveal_strlit("~/");
        assert("~"@ =~= seq!['~']);
        assert("~/"@ =~= seq!['~', '/']);
    }
    let joined: Vec<char> = if str_eq(path, "~") {
        chars_of(home)
    } else if starts_with(p.as_slice(), tilde_slash.as_slice()) {
        let h = chars_of(home);
        let mut j = trim_end_slashes(h.as_slice());
        j.push('/');
        let mut i: usize = 2;
        let ghost start = j@;
        while i < p.len()
            invariant
                2 <= i <= p@.len(),
                j@ == start + p@.subrange(2, i as int),
            decreases p.len() - i,
        {
            assert(p@.subrange(2, i + 1) == p@.subrange(2, i as int).push(p@[i as int]));
            j.push(p[i]);
            i += 1;
        }
        assert(p@.subrange(2, p@.len() as int) == p@.skip(2));
        j
    } else if p.len() > 0 && p[0] == '/' {
        p
    } else {
        let b = chars_of(base);
        let mut j = trim_end_slashes(b.as_slice());
        j.push('/');
        extend_chars(&mut j, p.as_slice());
        j
    };
    assert(joined@ == spec_joined(path@, base@, home@));
    let n = normalize_lexically(joined.as_slice());
    string_of(n.as_slice())
}

/// Whether an optional string is absent or empty.
pub fn blank(s: Option<&str>) -> (r: bool)
    ensures
        r == match s {
            Some(v) => v@.len() == 0,
            None => true,
        },
{
    match s {
        Some(v) => v.is_empty(),
        None => true,
    }
}

/// The colours bootmux prints status words in.
#[derive(Clone, Copy, Debug, PartialEq, Eq)]
pub enum Color {
    Red,
    Green,
    Yellow,
}

pub open spec fn spec_color_code(color: Color) -> Seq<char> {
    match color {
        Color::Red => "31"@,
        Color::Green => "32"@,
        Color::Yellow => "33"@,
    }
}

/// The ANSI colour number of `color`.
pub fn color_code(color: Color) -> (r: &'static str)
    ensures
        r@ == spec_color_code(color),
{
    match color {
        Color::Red => "31",
        Color::Green => "32",
        Color::Yellow => "33",
    }
}

/// The word a yes/no check prints, with its colour: a green `Yes` or a red
/// `No`.
pub fn yes_no(condition: bool) -> (r: (&'static str, Color))
    ensures
        condition ==> r.0@ == "Yes"@ && r.1 == Color::Green,
        !condition ==> r.0@ == "No"@ && r.1 == Color::Red,
{
    if condition {
        ("Yes", Color::Green)
    } else {
        ("No", Color::Red)
    }
}

/// What `std::path::Path::file_stem` gives for a path, as a string.
pub uninterp spec fn path_file_stem(path: Seq<char>) -> Option<Seq<char>>;

/// Calls `std::path::Path::file_stem`: the final component's name without
/// its extension, `None` where the path has no file name. Nothing more of
/// it is stated.
#[verifier::external_body]
fn file_stem_of(path: &str) -> (r: Option<String>)
    ensures
        match r {
            Some(s) => path_file_stem(path@) == Some(s@),
            None => path_file_stem(path@) is None,
        },
{
    std::path::Path::new(path).file_stem().map(|stem| stem.to_string_lossy().into_owned())
}

/// Whether the path's file stem is exactly `name`.
pub fn file_stem_matches(path: &str, name: &str) -> (r: bool)
    ensures
        r == (path_file_stem(path@) == Some(name@)),
{
    match file_stem_of(path) {
        Some(stem) => str_eq(stem.as_str(), name),
        None => false,
    }
}

} // verus!

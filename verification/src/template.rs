//! Project files are MiniJinja templates, and may also use mux's tiny,
//! non-executable ERB dialect for `key=value` settings.

use vstd::prelude::*;
use crate::env::lookup;
use crate::text::{chars_of, extend_chars, extend_str, string_of};

verus! {

pub const ERB_MIGRATION_HINT: &'static str = "this file contains ERB tags (`<% ... %>`), which tmuxinator supported but bootmux only accepts in mux's restricted `<%= @settings[\"key\"] %>` form. For other templates, migrate to MiniJinja: `<%= @args[0] %>` becomes `{{ args[0] }}` and `<%= ENV[\"VAR\"] %>` to `{{ env.VAR }}`.";

/// Where `pat` first occurs in `s` at or after `i`.
pub open spec fn find_from(s: Seq<char>, pat: Seq<char>, i: int) -> Option<int>
    decreases s.len() + 1 - i,
{
    if i < 0 || i + pat.len() > s.len() {
        None
    } else if s.subrange(i, i + pat.len()) == pat {
        Some(i)
    } else {
        find_from(s, pat, i + 1)
    }
}

/// `s` without the spaces at either end.
pub open spec fn trim_spaces(s: Seq<char>) -> Seq<char>
    decreases s.len(),
{
    if s.len() > 0 && s[0] == ' ' {
        trim_spaces(s.drop_first())
    } else if s.len() > 0 && s.last() == ' ' {
        trim_spaces(s.drop_last())
    } else {
        s
    }
}

/// The key of a `@settings["key"]` expression.
pub open spec fn settings_key(expr: Seq<char>) -> Option<Seq<char>> {
    let prefix = "@settings[\""@;
    let suffix = "\"]"@;
    if expr.len() >= prefix.len() + suffix.len() && expr.take(prefix.len() as int) == prefix
        && expr.skip(expr.len() - suffix.len()) == suffix && expr.len() > prefix.len()
        + suffix.len() {
        Some(expr.subrange(prefix.len() as int, expr.len() - suffix.len()))
    } else {
        None
    }
}

/// mux's ERB dialect: every `<%= @settings["key"] %>` tag becomes the
/// setting's value (empty when unset); any other ERB tag is refused.
pub open spec fn spec_substitute(s: Seq<char>, settings: Seq<(String, String)>) -> Option<Seq<char>>
    decreases s.len(),
{
    match find_from(s, seq!['<', '%'], 0) {
        None => Some(s),
        Some(open) => {
            let tag = s.skip(open);
            if !(tag.len() >= 3 && tag.take(3) == seq!['<', '%', '=']) {
                None
            } else {
                match find_from(tag, seq!['%', '>'], 0) {
                    None => None,
                    Some(close) => if close < 3 {
                        None
                    } else {
                        match settings_key(trim_spaces(tag.subrange(3, close))) {
                            None => None,
                            Some(key) => {
                                let value = match lookup(settings, key) {
                                    Some(v) => v,
                                    None => seq![],
                                };
                                proof {
                                    lemma_find_from_bounds(s, seq!['<', '%'], 0);
                                    lemma_find_from_bounds(tag, seq!['%', '>'], 0);
                                }
                                match spec_substitute(tag.skip(close + 2), settings) {
                                    None => None,
                                    Some(rest) => Some(s.take(open) + value + rest),
                                }
                            },
                        }
                    },
                }
            }
        },
    }
}

pub proof fn lemma_find_from_bounds(s: Seq<char>, pat: Seq<char>, i: int)
    requires
        pat.len() > 0,
    ensures
        find_from(s, pat, i) matches Some(k) ==> i <= k && k + pat.len() <= s.len()
            && s.subrange(k, k + pat.len()) == pat,
    decreases s.len() + 1 - i,
{
    if !(i < 0 || i + pat.len() > s.len()) && s.subrange(i, i + pat.len()) != pat {
        lemma_find_from_bounds(s, pat, i + 1);
    }
}

fn matches_at(s: &[char], pat: &[char], i: usize) -> (r: bool)
    requires
        i + pat@.len() <= s@.len(),
    ensures
        r == (s@.subrange(i as int, i + pat@.len()) == pat@),
{
    let n = s.len();
    let mut j: usize = 0;
    while j < pat.len()
        invariant
            j <= pat@.len(),
            n == s@.len(),
            i + pat@.len() <= n,
            forall|k: int| 0 <= k < j ==> s@[i + k] == pat@[k],
        decreases pat.len() - j,
    {
        if s[i + j] != pat[j] {
            assert(s@.subrange(i as int, i + pat@.len())[j as int] != pat@[j as int]);
            return false;
        }
        j += 1;
    }
    assert(s@.subrange(i as int, i + pat@.len()) =~= pat@);
    true
}

fn find_pattern(s: &[char], pat: &[char], start: usize) -> (r: Option<usize>)
    requires
        pat@.len() > 0,
        start <= s@.len(),
    ensures
        match r {
            Some(k) => find_from(s@, pat@, start as int) == Some(k as int),
            None => find_from(s@, pat@, start as int) is None,
        },
{
    let mut i: usize = start;
    while pat.len() <= s.len() - i
        invariant
            start <= i <= s@.len(),
            pat@.len() > 0,
            find_from(s@, pat@, start as int) == find_from(s@, pat@, i as int),
        decreases s.len() - i,
    {
        if matches_at(s, pat, i) {
            return Some(i);
        }
        i += 1;
    }
    None
}

fn trim_space_chars(s: &[char]) -> (r: Vec<char>)
    ensures
        r@ == trim_spaces(s@),
{
    let mut a: usize = 0;
    let mut b: usize = s.len();
    assert(s@.subrange(0, s@.len() as int) == s@);
    while a < b && (s[a] == ' ' || s[b - 1] == ' ')
        invariant
            a <= b <= s@.len(),
            trim_spaces(s@) == trim_spaces(s@.subrange(a as int, b as int)),
        decreases b - a,
    {
        let ghost t = s@.subrange(a as int, b as int);
        if s[a] == ' ' {
            assert(t.drop_first() == s@.subrange(a + 1, b as int));
            a += 1;
        } else {
            assert(t.drop_last() == s@.subrange(a as int, b - 1));
            b -= 1;
        }
    }
    crate::text::slice_chars(s, a, b)
}

fn setting_value<'a>(settings: &'a Vec<(String, String)>, key: &[char]) -> (r: Option<&'a String>)
    ensures
        match r {
            Some(v) => lookup(settings@, key@) == Some(v@),
            None => lookup(settings@, key@) is None,
        },
{
    let mut i: usize = 0;
    assert(settings@.skip(0) == settings@);
    while i < settings.len()
        invariant
            i <= settings@.len(),
            lookup(settings@, key@) == lookup(settings@.skip(i as int), key@),
        decreases settings.len() - i,
    {
        let ghost rest = settings@.skip(i as int);
        assert(rest[0] == settings@[i as int]);
        if crate::text::str_eq_chars(settings[i].0.as_str(), key) {
            return Some(&settings[i].1);
        }
        assert(rest.drop_first() == settings@.skip(i + 1));
        i += 1;
    }
    None
}

fn settings_key_chars(expr: &[char]) -> (r: Option<Vec<char>>)
    ensures
        match r {
            Some(k) => settings_key(expr@) == Some(k@),
            None => settings_key(expr@) is None,
        },
{
    let prefix = chars_of("@settings[\"");
    let suffix = chars_of("\"]");
    proof {
        reveal_strlit("@settings[\"");
        reveal_strlit("\"]");
    }
    let n = expr.len();
    if n <= prefix.len() + suffix.len() {
        return None;
    }
    let head = crate::text::slice_chars(expr, 0, prefix.len());
    let tail = crate::text::slice_chars(expr, n - suffix.len(), n);
    assert(head@ == expr@.take(prefix@.len() as int));
    assert(tail@ == expr@.skip(expr@.len() - suffix@.len()));
    if !crate::text::chars_eq(head.as_slice(), prefix.as_slice()) || !crate::text::chars_eq(
        tail.as_slice(),
        suffix.as_slice(),
    ) {
        return None;
    }
    Some(crate::text::slice_chars(expr, prefix.len(), n - suffix.len()))
}

/// Replaces mux's `<%= @settings["key"] %>` tags; `None` when another ERB
/// tag is present.
pub fn substitute_mux_settings(source: &str, settings: &Vec<(String, String)>) -> (r: Option<String>)
    ensures
        match r {
            Some(s) => spec_substitute(source@, settings@) == Some(s@),
            None => spec_substitute(source@, settings@) is None,
        },
{
    let s = chars_of(source);
    let open_pat = chars_of("<%");
    let expr_pat = chars_of("<%=");
    let close_pat = chars_of("%>");
    proof {
        reveal_strlit("<%");
        reveal_strlit("<%=");
        reveal_strlit("%>");
        assert(open_pat@ =~= seq!['<', '%']);
        assert(expr_pat@ =~= seq!['<', '%', '=']);
        assert(close_pat@ =~= seq!['%', '>']);
    }
    let mut out: Vec<char> = Vec::new();
    let mut pos: usize = 0;
    assert(s@.skip(0) == s@);
    while pos <= s.len()
        invariant
            pos <= s@.len(),
            open_pat@ == seq!['<', '%'],
            expr_pat@ == seq!['<', '%', '='],
            close_pat@ == seq!['%', '>'],
            spec_substitute(source@, settings@) == match spec_substitute(s@.skip(pos as int), settings@) {
                None => None,
                Some(rest) => Some(out@ + rest),
            },
            s@ == source@,
        decreases s.len() - pos,
    {
        let rest = crate::text::slice_chars(s.as_slice(), pos, s.len());
        assert(rest@ == s@.skip(pos as int));
        let open = match find_pattern(rest.as_slice(), open_pat.as_slice(), 0) {
            None => {
                extend_chars(&mut out, rest.as_slice());
                return Some(string_of(out.as_slice()));
            },
            Some(o) => o,
        };
        proof {
            lemma_find_from_bounds(rest@, open_pat@, 0);
        }
        let tag = crate::text::slice_chars(rest.as_slice(), open, rest.len());
        assert(tag@ == rest@.skip(open as int));
        if tag.len() < 3 || !(tag[0] == '<' && tag[1] == '%' && tag[2] == '=') {
            proof {
                if tag@.len() >= 3 {
                    if tag@.take(3) == seq!['<', '%', '='] {
                        assert(tag@.take(3)[0] == '<');
                        assert(tag@.take(3)[1] == '%');
                        assert(tag@.take(3)[2] == '=');
                    }
                }
            }
            return None;
        }
        assert(tag@.take(3) =~= seq!['<', '%', '=']);
        let close = match find_pattern(tag.as_slice(), close_pat.as_slice(), 0) {
            None => {
                return None;
            },
            Some(c) => c,
        };
        proof {
            lemma_find_from_bounds(tag@, close_pat@, 0);
        }
        if close < 3 {
            return None;
        }
        let inner = crate::text::slice_chars(tag.as_slice(), 3, close);
        let expr = trim_space_chars(inner.as_slice());
        let key = match settings_key_chars(expr.as_slice()) {
            None => {
                return None;
            },
            Some(k) => k,
        };
        let ghost before = out@;
        extend_chars(&mut out, crate::text::slice_chars(rest.as_slice(), 0, open).as_slice());
        match setting_value(settings, key.as_slice()) {
            Some(v) => extend_str(&mut out, v.as_str()),
            None => {},
        }
        proof {
            let value = match lookup(settings@, key@) {
                Some(v) => v,
                None => Seq::<char>::empty(),
            };
            assert(out@ =~= before + (rest@.take(open as int) + value));
            assert(s@.skip(pos as int).skip(open as int).skip(close + 2) =~= s@.skip(
                pos + open + close + 2,
            ));
        }
        pos = pos + open + close + 2;
    }
    None
}

/// What MiniJinja renders for a template whose context maps two keys to
/// maps of strings and one key to a list of strings (undefined values print
/// as empty); `Err` holds its error message.
pub uninterp spec fn jinja_config(
    source: Seq<char>,
    map_keys: (Seq<char>, Seq<char>),
    maps: (Seq<(Seq<char>, Seq<char>)>, Seq<(Seq<char>, Seq<char>)>),
    list_key: Seq<char>,
    list: Seq<Seq<char>>,
) -> Result<Seq<char>, Seq<char>>;

/// Calls `minijinja::Environment::render_str` with lenient undefined
/// values and a context of two maps and a list under the given keys; its
/// error comes back as its message.
#[verifier::external_body]
fn jinja_render(
    source: &str,
    map_keys: (&str, &str),
    maps: (&Vec<(String, String)>, &Vec<(String, String)>),
    list_key: &str,
    list: &Vec<String>,
) -> (r: Result<String, String>)
    ensures
        match r {
            Ok(t) => jinja_config(source@, (map_keys.0@, map_keys.1@), (maps.0.deep_view(), maps.1.deep_view()), list_key@, list.deep_view())
                == Ok::<Seq<char>, Seq<char>>(t@),
            Err(e) => jinja_config(source@, (map_keys.0@, map_keys.1@), (maps.0.deep_view(), maps.1.deep_view()), list_key@, list.deep_view())
                == Err::<Seq<char>, Seq<char>>(e@),
        },
{
    let mut jinja = minijinja::Environment::new();
    jinja.set_undefined_behavior(minijinja::UndefinedBehavior::Lenient);
    let first: minijinja::Value = maps.0.iter().map(|(k, v)| (k.as_str(), v.as_str())).collect();
    let second: minijinja::Value = maps.1.iter().map(|(k, v)| (k.as_str(), v.as_str())).collect();
    let items = minijinja::Value::from_serialize(list);
    let context: minijinja::Value = [(map_keys.0, first), (list_key, items), (map_keys.1, second)].into_iter().collect();
    jinja.render_str(source, context).map_err(|error| error.to_string())
}

pub open spec fn parse_failure(detail: Seq<char>) -> Seq<char> {
    "Failed to parse config file: "@ + detail
}

/// The result of a project file once MiniJinja gave `rendered`.
pub open spec fn spec_finish(rendered: Result<Seq<char>, Seq<char>>, settings: Seq<(String, String)>) -> Result<
    Seq<char>,
    Seq<char>,
> {
    match rendered {
        Err(e) => Err(parse_failure(e)),
        Ok(text) => match spec_substitute(text, settings) {
            Some(s) => Ok(s),
            None => Err(parse_failure(ERB_MIGRATION_HINT@)),
        },
    }
}

/// What a rendered project file becomes: a MiniJinja error or a refused
/// ERB tag is a parse failure; otherwise the settings tags are replaced.
pub fn finish_render(rendered: Result<String, String>, settings: &Vec<(String, String)>) -> (r:
    Result<String, String>)
    ensures
        match rendered {
            Err(e) => r matches Err(m) && m@ == parse_failure(e@),
            Ok(text) => match spec_substitute(text@, settings@) {
                Some(s) => r matches Ok(x) && x@ == s,
                None => r matches Err(m) && m@ == parse_failure(ERB_MIGRATION_HINT@),
            },
        },
{
    match rendered {
        Err(e) => {
            let mut m: Vec<char> = Vec::new();
            extend_str(&mut m, "Failed to parse config file: ");
            extend_str(&mut m, e.as_str());
            Err(string_of(m.as_slice()))
        },
        Ok(text) => match substitute_mux_settings(text.as_str(), settings) {
            Some(s) => Ok(s),
            None => {
                let mut m: Vec<char> = Vec::new();
                extend_str(&mut m, "Failed to parse config file: ");
                extend_str(&mut m, ERB_MIGRATION_HINT);
                Err(string_of(m.as_slice()))
            },
        },
    }
}

/// Renders a project file: MiniJinja first, then mux's settings tags. A
/// failure is reported as a parse failure of the config file.
pub fn render_config(
    source: &str,
    settings: &Vec<(String, String)>,
    args: &Vec<String>,
    env: &crate::env::Env,
) -> (r: Result<String, String>)
    ensures
        spec_finish(
            jinja_config(source@, ("settings"@, "env"@), (settings.deep_view(), env.all.deep_view()), "args"@, args.deep_view()),
            settings@,
        )
            == match r {
            Ok(t) => Ok::<Seq<char>, Seq<char>>(t@),
            Err(e) => Err::<Seq<char>, Seq<char>>(e@),
        },
        r matches Err(m) ==> m@.len() >= 29 && m@.take(29) == "Failed to parse config file: "@,
{
    let rendered = jinja_render(source, ("settings", "env"), (settings, &env.all), "args", args);
    let r = finish_render(rendered, settings);
    proof {
        reveal_strlit("Failed to parse config file: ");
        if r is Err {
            assert(r->Err_0@.take(29) =~= "Failed to parse config file: "@);
        }
    }
    r
}

/// What MiniJinja renders for a template whose context maps two keys to
/// strings (undefined values print as empty); `Err` holds its error
/// message.
pub uninterp spec fn jinja_sample(source: Seq<char>, first: (Seq<char>, Seq<char>), second: (Seq<char>, Seq<char>)) -> Result<
    Seq<char>,
    Seq<char>,
>;

/// Calls `minijinja::Environment::render_str` with lenient undefined
/// values and a context of two strings under the given keys; its error
/// comes back as its message.
#[verifier::external_body]
fn jinja_render_sample(source: &str, first: (&str, &str), second: (&str, &str)) -> (r: Result<String, String>)
    ensures
        match r {
            Ok(s) => jinja_sample(source@, (first.0@, first.1@), (second.0@, second.1@)) == Ok::<Seq<char>, Seq<char>>(s@),
            Err(e) => jinja_sample(source@, (first.0@, first.1@), (second.0@, second.1@)) == Err::<Seq<char>, Seq<char>>(e@),
        },
{
    let mut jinja = minijinja::Environment::new();
    jinja.set_undefined_behavior(minijinja::UndefinedBehavior::Lenient);
    let mut context: std::collections::BTreeMap<&str, &str> = std::collections::BTreeMap::new();
    context.insert(first.0, first.1);
    context.insert(second.0, second.1);
    jinja.render_str(source, context).map_err(|error| error.to_string())
}

/// Renders the sample project written by `bootmux new`.
pub fn render_sample(source: &str, name: &str, path: &str) -> (r: Result<String, String>)
    ensures
        match r {
            Ok(s) => jinja_sample(source@, ("name"@, name@), ("path"@, path@)) == Ok::<Seq<char>, Seq<char>>(s@),
            Err(e) => jinja_sample(source@, ("name"@, name@), ("path"@, path@)) == Err::<Seq<char>, Seq<char>>(e@),
        },
{
    jinja_render_sample(source, ("name", name), ("path", path))
}

} // verus!

//! A YAML document as plain values, and the lookups project files are read
//! with: tmuxinator's key aliases, Ruby truthiness and `to_s`, and mux's
//! reading of `attach`.

use vstd::prelude::*;
use crate::text::{extend_str, str_eq, string_of};

verus! {

/// A YAML value. A mapping keeps its entries in document order, each key
/// once.
#[derive(Debug, PartialEq)]
pub enum Yaml {
    Null,
    Bool(bool),
    /// A number, spelled as Ruby's `to_s` would: integers in decimal
    /// (integers wider than 64 bits are kept as strings instead), floats
    /// as Rust's `{:?}`.
    Number(String),
    String(String),
    Sequence(Vec<Yaml>),
    Mapping(Vec<(Yaml, Yaml)>),
    /// A tagged value (`!Tag value`).
    Tagged(String, Box<Yaml>),
}

/// Ruby `to_s` of a scalar; `None` for null, sequences and mappings.
pub open spec fn spec_scalar(v: Yaml) -> Option<Seq<char>>
    decreases v,
{
    match v {
        Yaml::Null => None,
        Yaml::Bool(b) => Some(
            if b {
                "true"@
            } else {
                "false"@
            },
        ),
        Yaml::Number(n) => Some(n@),
        Yaml::String(s) => Some(s@),
        Yaml::Tagged(_, inner) => spec_scalar(*inner),
        Yaml::Sequence(_) => None,
        Yaml::Mapping(_) => None,
    }
}

/// Whether a mapping key is the string `key`.
pub open spec fn is_key(k: Yaml, key: Seq<char>) -> bool {
    k matches Yaml::String(s) && s@ == key
}

/// The value of the first entry whose key is the string `key`.
pub open spec fn pairs_get(m: Seq<(Yaml, Yaml)>, key: Seq<char>) -> Option<Yaml>
    decreases m.len(),
{
    if m.len() == 0 {
        None
    } else if is_key(m[0].0, key) {
        Some(m[0].1)
    } else {
        pairs_get(m.drop_first(), key)
    }
}

/// The value under `key` in a mapping.
pub open spec fn spec_get(y: Yaml, key: Seq<char>) -> Option<Yaml> {
    match y {
        Yaml::Mapping(m) => pairs_get(m@, key),
        _ => None,
    }
}

/// Ruby truthiness: only an absent value, null and `false` are false.
pub open spec fn spec_truthy(v: Option<Yaml>) -> bool {
    match v {
        None => false,
        Some(Yaml::Null) => false,
        Some(Yaml::Bool(b)) => b,
        Some(_) => true,
    }
}

/// mux reads `attach` as false only for the scalar spellings `false` and
/// `0`.
pub open spec fn spec_mux_attach(v: Option<Yaml>) -> bool {
    match v {
        None => true,
        Some(Yaml::Null) => true,
        Some(x) => !(spec_scalar(x) == Some("false"@) || spec_scalar(x) == Some("0"@)),
    }
}

/// Several strings joined by a separator.
pub open spec fn join(items: Seq<Seq<char>>, sep: Seq<char>) -> Seq<char>
    decreases items.len(),
{
    if items.len() == 0 {
        seq![]
    } else if items.len() == 1 {
        items[0]
    } else {
        join(items.drop_last(), sep) + sep + items.last()
    }
}

/// The `to_s` of each item, empty for those without one.
pub open spec fn scalars_or_empty(items: Seq<Yaml>) -> Seq<Seq<char>> {
    items.map_values(
        |y: Yaml|
            match spec_scalar(y) {
                Some(s) => s,
                None => seq![],
            },
    )
}

/// Ruby's reading of a hook or `pre` value: a sequence is joined with the
/// separator, a scalar passes through.
pub open spec fn spec_join_or_string(v: Option<Yaml>, sep: Seq<char>) -> Option<Seq<char>> {
    match v {
        None => None,
        Some(Yaml::Null) => None,
        Some(Yaml::Sequence(items)) => Some(join(scalars_or_empty(items@), sep)),
        Some(x) => spec_scalar(x),
    }
}

/// Whether a key names the setting: its `to_s` is the canonical name or
/// one of the aliases.
pub open spec fn names_setting(k: Yaml, canonical: Seq<char>, aliases: Seq<&str>) -> bool {
    spec_scalar(k) matches Some(s) && (s == canonical || exists|j: int|
        0 <= j < aliases.len() && (#[trigger] aliases[j])@ == s)
}

/// The last entry, in document order, whose key names the setting and
/// whose value is a scalar.
pub open spec fn last_aliased_scalar(m: Seq<(Yaml, Yaml)>, canonical: Seq<char>, aliases: Seq<&str>) -> Option<Yaml>
    decreases m.len(),
{
    if m.len() == 0 {
        None
    } else if names_setting(m.last().0, canonical, aliases) && spec_scalar(m.last().1) is Some {
        Some(m.last().1)
    } else {
        last_aliased_scalar(m.drop_last(), canonical, aliases)
    }
}

/// The last entry whose key names the setting and whose value is a
/// non-empty sequence.
pub open spec fn last_aliased_sequence(m: Seq<(Yaml, Yaml)>, canonical: Seq<char>, aliases: Seq<&str>) -> Option<Seq<Yaml>>
    decreases m.len(),
{
    if m.len() == 0 {
        None
    } else if names_setting(m.last().0, canonical, aliases) && (m.last().1 matches Yaml::Sequence(
        items,
    ) && items@.len() > 0) {
        Some(m.last().1->Sequence_0@)
    } else {
        last_aliased_sequence(m.drop_last(), canonical, aliases)
    }
}

pub proof fn lemma_last_aliased_sequence_nonempty(m: Seq<(Yaml, Yaml)>, canonical: Seq<char>, aliases: Seq<&str>)
    ensures
        last_aliased_sequence(m, canonical, aliases) matches Some(s) ==> s.len() > 0,
    decreases m.len(),
{
    if m.len() > 0 {
        lemma_last_aliased_sequence_nonempty(m.drop_last(), canonical, aliases);
    }
}

/// The value under `key` in a mapping.
pub fn get<'a>(yaml: &'a Yaml, key: &str) -> (r: Option<&'a Yaml>)
    ensures
        match r {
            Some(v) => spec_get(*yaml, key@) == Some(*v),
            None => spec_get(*yaml, key@) is None,
        },
{
    match yaml {
        Yaml::Mapping(m) => {
            let mut i: usize = 0;
            assert(m@.skip(0) == m@);
            while i < m.len()
                invariant
                    i <= m@.len(),
                    *yaml == Yaml::Mapping(*m),
                    pairs_get(m@, key@) == pairs_get(m@.skip(i as int), key@),
                decreases m.len() - i,
            {
                let ghost rest = m@.skip(i as int);
                assert(rest[0] == m@[i as int]);
                let hit = match &m[i].0 {
                    Yaml::String(s) => str_eq(s.as_str(), key),
                    _ => false,
                };
                assert(hit == is_key(m@[i as int].0, key@));
                if hit {
                    assert(rest.len() > 0);
                    assert(pairs_get(rest, key@) == Some(rest[0].1));
                    return Some(&m[i].1);
                }
                assert(rest.drop_first() == m@.skip(i + 1));
                i += 1;
            }
            None
        },
        _ => None,
    }
}

/// Ruby `to_s` for YAML scalars.
pub fn scalar_to_string(value: &Yaml) -> (r: Option<String>)
    ensures
        match r {
            Some(s) => spec_scalar(*value) == Some(s@),
            None => spec_scalar(*value) is None,
        },
    decreases value,
{
    match value {
        Yaml::Null => None,
        Yaml::Bool(b) => {
            if *b {
                Some("true".to_owned())
            } else {
                Some("false".to_owned())
            }
        },
        Yaml::Number(n) => Some(n.clone()),
        Yaml::String(s) => Some(s.clone()),
        Yaml::Tagged(_, inner) => scalar_to_string(inner),
        Yaml::Sequence(_) => None,
        Yaml::Mapping(_) => None,
    }
}

/// The `to_s` of the value under `key`.
pub fn get_string(yaml: &Yaml, key: &str) -> (r: Option<String>)
    ensures
        match r {
            Some(s) => spec_get(*yaml, key@) matches Some(v) && spec_scalar(v) == Some(s@),
            None => match spec_get(*yaml, key@) {
                Some(v) => spec_scalar(v) is None,
                None => true,
            },
        },
{
    match get(yaml, key) {
        Some(v) => scalar_to_string(v),
        None => None,
    }
}

/// Ruby truthiness of an optional value.
pub fn truthy(value: Option<&Yaml>) -> (r: bool)
    ensures
        r == spec_truthy(
            match value {
                Some(v) => Some(*v),
                None => None,
            },
        ),
{
    match value {
        None => false,
        Some(Yaml::Null) => false,
        Some(Yaml::Bool(b)) => *b,
        Some(_) => true,
    }
}

/// mux's reading of `attach`.
pub fn mux_attach(value: Option<&Yaml>) -> (r: bool)
    ensures
        r == spec_mux_attach(
            match value {
                Some(v) => Some(*v),
                None => None,
            },
        ),
{
    match value {
        None => true,
        Some(Yaml::Null) => true,
        Some(v) => match scalar_to_string(v) {
            Some(s) => !(str_eq(s.as_str(), "false") || str_eq(s.as_str(), "0")),
            None => true,
        },
    }
}

/// A sequence joined with `separator` (items without a `to_s` count as
/// empty), or a scalar's `to_s`.
pub fn join_or_string(value: Option<&Yaml>, separator: &str) -> (r: Option<String>)
    ensures
        match r {
            Some(s) => spec_join_or_string(
                match value {
                    Some(v) => Some(*v),
                    None => None,
                },
                separator@,
            ) == Some(s@),
            None => spec_join_or_string(
                match value {
                    Some(v) => Some(*v),
                    None => None,
                },
                separator@,
            ) is None,
        },
{
    match value {
        None => None,
        Some(Yaml::Null) => None,
        Some(Yaml::Sequence(items)) => {
            let ghost all = scalars_or_empty(items@);
            let mut out: Vec<char> = Vec::new();
            let mut i: usize = 0;
            while i < items.len()
                invariant
                    i <= items@.len(),
                    all == scalars_or_empty(items@),
                    out@ == join(all.take(i as int), separator@),
                decreases items.len() - i,
            {
                assert(all.take(i + 1).drop_last() == all.take(i as int));
                assert(all.take(i + 1).last() == all[i as int]);
                if i > 0 {
                    extend_str(&mut out, separator);
                }
                match scalar_to_string(&items[i]) {
                    Some(s) => extend_str(&mut out, s.as_str()),
                    None => {},
                }
                proof {
                    if i == 0 {
                        assert(all.take(1) == seq![all[0]]);
                    }
                }
                i += 1;
            }
            assert(all.take(all.len() as int) == all);
            Some(string_of(out.as_slice()))
        },
        Some(other) => scalar_to_string(other),
    }
}

/// The key and value of a mapping's first entry.
pub fn first_entry(value: &Yaml) -> (r: (Option<&Yaml>, Option<&Yaml>))
    ensures
        match *value {
            Yaml::Mapping(m) if m@.len() > 0 => r.0 == Some(&m@[0].0) && r.1 == Some(&m@[0].1),
            _ => r.0 is None && r.1 is None,
        },
{
    match value {
        Yaml::Mapping(m) => {
            if m.len() > 0 {
                (Some(&m[0].0), Some(&m[0].1))
            } else {
                (None, None)
            }
        },
        _ => (None, None),
    }
}

fn names_setting_exec(key: &Yaml, canonical: &str, aliases: &[&str]) -> (r: bool)
    ensures
        r == names_setting(*key, canonical@, aliases@),
{
    match scalar_to_string(key) {
        None => false,
        Some(s) => {
            if str_eq(s.as_str(), canonical) {
                return true;
            }
            let mut j: usize = 0;
            while j < aliases.len()
                invariant
                    j <= aliases@.len(),
                    spec_scalar(*key) == Some(s@),
                    s@ != canonical@,
                    forall|k: int| 0 <= k < j ==> (#[trigger] aliases@[k])@ != s@,
                decreases aliases.len() - j,
            {
                if str_eq(aliases[j], s.as_str()) {
                    return true;
                }
                j += 1;
            }
            false
        },
    }
}

/// The scalar setting under its canonical key or an alias; when the
/// document spells it more than once the last spelling wins, as mux reads
/// keys in document order.
pub fn get_aliased_scalar<'a>(yaml: &'a Yaml, canonical: &str, aliases: &[&str]) -> (r: Option<
    &'a Yaml,
>)
    ensures
        match *yaml {
            Yaml::Mapping(m) => match r {
                Some(v) => last_aliased_scalar(m@, canonical@, aliases@) == Some(*v),
                None => last_aliased_scalar(m@, canonical@, aliases@) is None,
            },
            _ => r is None,
        },
{
    match yaml {
        Yaml::Mapping(m) => {
            let mut i: usize = m.len();
            assert(m@.take(m@.len() as int) == m@);
            while i > 0
                invariant
                    i <= m@.len(),
                    *yaml == Yaml::Mapping(*m),
                    last_aliased_scalar(m@, canonical@, aliases@) == last_aliased_scalar(
                        m@.take(i as int),
                        canonical@,
                        aliases@,
                    ),
                decreases i,
            {
                let ghost t = m@.take(i as int);
                assert(t.last() == m@[i - 1]);
                assert(t.drop_last() == m@.take(i - 1));
                let k = &m[i - 1].0;
                let v = &m[i - 1].1;
                if names_setting_exec(k, canonical, aliases) {
                    match scalar_to_string(v) {
                        Some(_) => {
                            assert(last_aliased_scalar(t, canonical@, aliases@) == Some(*v));
                            return Some(v);
                        },
                        None => {},
                    }
                }
                i -= 1;
            }
            None
        },
        _ => None,
    }
}

/// The non-empty sequence under the canonical key or an alias; the last
/// such spelling wins.
pub fn get_aliased_nonempty_sequence<'a>(yaml: &'a Yaml, canonical: &str, aliases: &[&str]) -> (r:
    Option<&'a Vec<Yaml>>)
    ensures
        match *yaml {
            Yaml::Mapping(m) => match r {
                Some(v) => last_aliased_sequence(m@, canonical@, aliases@) == Some(v@),
                None => last_aliased_sequence(m@, canonical@, aliases@) is None,
            },
            _ => r is None,
        },
{
    match yaml {
        Yaml::Mapping(m) => {
            let mut i: usize = m.len();
            assert(m@.take(m@.len() as int) == m@);
            while i > 0
                invariant
                    i <= m@.len(),
                    *yaml == Yaml::Mapping(*m),
                    last_aliased_sequence(m@, canonical@, aliases@) == last_aliased_sequence(
                        m@.take(i as int),
                        canonical@,
                        aliases@,
                    ),
                decreases i,
            {
                let ghost t = m@.take(i as int);
                assert(t.last() == m@[i - 1]);
                assert(t.drop_last() == m@.take(i - 1));
                let k = &m[i - 1].0;
                let v = &m[i - 1].1;
                if names_setting_exec(k, canonical, aliases) {
                    match v {
                        Yaml::Sequence(items) => {
                            if items.len() > 0 {
                                assert(last_aliased_sequence(t, canonical@, aliases@) == Some(items@));
                                return Some(items);
                            }
                        },
                        _ => {},
                    }
                }
                i -= 1;
            }
            None
        },
        _ => None,
    }
}

} // verus!

verus! {

/// Whether two mapping keys are the same key: scalars of one kind with one
/// spelling (a tag included). Sequence and mapping keys are never taken
/// for the same.
pub open spec fn same_key(a: Yaml, b: Yaml) -> bool
    decreases a,
{
    match (a, b) {
        (Yaml::Null, Yaml::Null) => true,
        (Yaml::Bool(x), Yaml::Bool(y)) => x == y,
        (Yaml::Number(x), Yaml::Number(y)) => x@ == y@,
        (Yaml::String(x), Yaml::String(y)) => x@ == y@,
        (Yaml::Tagged(t, x), Yaml::Tagged(u, y)) => t@ == u@ && same_key(*x, *y),
        _ => false,
    }
}

/// No key of the mapping entries occurs twice.
pub open spec fn keys_unique(m: Seq<(Yaml, Yaml)>) -> bool {
    forall|i: int, j: int| 0 <= i < j < m.len() ==> !same_key(#[trigger] m[i].0, #[trigger] m[j].0)
}

fn same_key_exec(a: &Yaml, b: &Yaml) -> (r: bool)
    ensures
        r == same_key(*a, *b),
    decreases a,
{
    match (a, b) {
        (Yaml::Null, Yaml::Null) => true,
        (Yaml::Bool(x), Yaml::Bool(y)) => *x == *y,
        (Yaml::Number(x), Yaml::Number(y)) => str_eq(x.as_str(), y.as_str()),
        (Yaml::String(x), Yaml::String(y)) => str_eq(x.as_str(), y.as_str()),
        (Yaml::Tagged(t, x), Yaml::Tagged(u, y)) => str_eq(t.as_str(), u.as_str()) && same_key_exec(x, y),
        _ => false,
    }
}

/// Refuses a document whose top-level mapping spells a key twice, as a
/// YAML reader must.
#[verifier::loop_isolation(false)]
pub fn check_unique_keys(yaml: &Yaml) -> (r: Result<(), String>)
    ensures
        match *yaml {
            Yaml::Mapping(m) => r is Ok <==> keys_unique(m@),
            _ => r is Ok,
        },
        r matches Err(e) ==> e@ == "duplicate entry in YAML mapping"@,
{
    match yaml {
        Yaml::Mapping(m) => {
            let n = m.len();
            let mut j: usize = 0;
            while j < n
                invariant
                    j <= n,
                    n == m@.len(),
                    forall|a: int, b: int| 0 <= a < b < j ==> !same_key(#[trigger] m@[a].0, #[trigger] m@[b].0),
                decreases n - j,
            {
                let mut i: usize = 0;
                while i < j
                    invariant
                        i <= j,
                        j < n,
                        n == m@.len(),
                        forall|a: int| 0 <= a < i ==> !same_key(#[trigger] m@[a].0, m@[j as int].0),
                    decreases j - i,
                {
                    if same_key_exec(&m[i].0, &m[j].0) {
                        assert(!keys_unique(m@)) by {
                            assert(same_key(m@[i as int].0, m@[j as int].0));
                        }
                        return Err("duplicate entry in YAML mapping".to_owned());
                    }
                    i += 1;
                }
                j += 1;
            }
            Ok(())
        },
        _ => Ok(()),
    }
}

} // verus!

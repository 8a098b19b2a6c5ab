//! The backend-neutral project model shared by the Herdr and zellij
//! backends: windows, panes, pane chains and focus, read from a parsed
//! project document.

use vstd::prelude::*;
use crate::yaml_ext::{
    first_entry, get, get_string, join_or_string, scalar_to_string, spec_get, spec_join_or_string,
    spec_scalar, spec_truthy, truthy, Yaml,
};
use crate::text::{chars_of, extend_str, parse_decimal, parse_unsigned, str_eq, string_of, trim,
    trimmed};
use crate::herdr::strings_view;
use crate::layout::Ratio;

verus! {

/// Where a pane-chain entry splits its predecessor.
#[derive(Clone, Copy, Debug, PartialEq, Eq)]
pub enum SplitDirection {
    Right,
    Down,
}

/// The split that creates a pane of a chain.
#[derive(Clone, Copy, Debug, PartialEq, Eq)]
pub struct PaneSplit {
    pub direction: SplitDirection,
    /// The share retained by the existing (first) pane.
    pub ratio: Ratio,
}

#[derive(Debug, PartialEq)]
pub struct PaneSpec {
    pub title: Option<String>,
    pub commands: Vec<String>,
    pub split: Option<PaneSplit>,
}

/// A pane as plain values.
pub struct PaneView {
    pub title: Option<Seq<char>>,
    pub commands: Seq<Seq<char>>,
    pub split: Option<PaneSplit>,
}

pub open spec fn opt_str(o: Option<String>) -> Option<Seq<char>> {
    match o {
        Some(s) => Some(s@),
        None => None,
    }
}

impl View for PaneSpec {
    type V = PaneView;

    open spec fn view(&self) -> PaneView {
        PaneView { title: opt_str(self.title), commands: strings_view(self.commands@), split: self.split }
    }
}

pub open spec fn panes_view(ps: Seq<PaneSpec>) -> Seq<PaneView> {
    ps.map_values(|p: PaneSpec| p@)
}

pub(crate) fn clone_opt_string(o: &Option<String>) -> (r: Option<String>)
    ensures
        opt_str(r) == opt_str(*o),
{
    match o {
        Some(s) => Some(s.clone()),
        None => None,
    }
}

pub(crate) fn clone_strings(v: &Vec<String>) -> (r: Vec<String>)
    ensures
        strings_view(r@) == strings_view(v@),
{
    let mut out: Vec<String> = Vec::new();
    let mut i: usize = 0;
    while i < v.len()
        invariant
            i <= v@.len(),
            strings_view(out@) == strings_view(v@.take(i as int)),
        decreases v.len() - i,
    {
        let ghost before = out@;
        out.push(v[i].clone());
        assert(strings_view(out@) =~= strings_view(before).push(v@[i as int]@));
        assert(v@.take(i + 1) == v@.take(i as int).push(v@[i as int]));
        assert(strings_view(v@.take(i + 1)) =~= strings_view(v@.take(i as int)).push(v@[i as int]@));
        i += 1;
    }
    assert(v@.take(v@.len() as int) == v@);
    out
}

impl PaneSpec {
    /// A copy of this pane.
    pub fn duplicate(&self) -> (r: PaneSpec)
        ensures
            r@ == self@,
    {
        PaneSpec {
            title: clone_opt_string(&self.title),
            commands: clone_strings(&self.commands),
            split: self.split,
        }
    }
}

pub(crate) fn clone_panes(v: &Vec<PaneSpec>) -> (r: Vec<PaneSpec>)
    ensures
        panes_view(r@) == panes_view(v@),
{
    let mut out: Vec<PaneSpec> = Vec::new();
    let mut i: usize = 0;
    while i < v.len()
        invariant
            i <= v@.len(),
            panes_view(out@) == panes_view(v@.take(i as int)),
        decreases v.len() - i,
    {
        let ghost before = out@;
        out.push(v[i].duplicate());
        assert(panes_view(out@) =~= panes_view(before).push(v@[i as int]@));
        assert(v@.take(i + 1) == v@.take(i as int).push(v@[i as int]));
        assert(panes_view(v@.take(i + 1)) =~= panes_view(v@.take(i as int)).push(v@[i as int]@));
        i += 1;
    }
    assert(v@.take(v@.len() as int) == v@);
    out
}

/// `right` or `down`.
pub open spec fn spec_parse_direction(v: Yaml) -> Result<SplitDirection, Seq<char>> {
    match spec_scalar(v) {
        Some(s) => if s == "right"@ {
            Ok(SplitDirection::Right)
        } else if s == "down"@ {
            Ok(SplitDirection::Down)
        } else {
            Err("Pane split direction must be `right` or `down`, got `"@ + s + "`."@)
        },
        None => Err("Pane split direction must be `right` or `down`."@),
    }
}

impl SplitDirection {
    /// Reads a pane split direction.
    pub fn parse(value: &Yaml) -> (r: Result<SplitDirection, String>)
        ensures
            match r {
                Ok(d) => spec_parse_direction(*value) == Ok::<SplitDirection, Seq<char>>(d),
                Err(m) => spec_parse_direction(*value) == Err::<SplitDirection, Seq<char>>(m@),
            },
    {
        match scalar_to_string(value) {
            Some(s) => {
                if str_eq(s.as_str(), "right") {
                    Ok(SplitDirection::Right)
                } else if str_eq(s.as_str(), "down") {
                    Ok(SplitDirection::Down)
                } else {
                    let mut m: Vec<char> = Vec::new();
                    extend_str(&mut m, "Pane split direction must be `right` or `down`, got `");
                    extend_str(&mut m, s.as_str());
                    extend_str(&mut m, "`.");
                    Err(string_of(m.as_slice()))
                }
            },
            None => Err("Pane split direction must be `right` or `down`.".to_owned()),
        }
    }
}

/// The `to_s` of each item that has one.
pub open spec fn scalars_of(items: Seq<Yaml>) -> Seq<Seq<char>>
    decreases items.len(),
{
    if items.len() == 0 {
        seq![]
    } else {
        scalars_of(items.drop_last()) + match spec_scalar(items.last()) {
            Some(s) => seq![s],
            None => seq![],
        }
    }
}

/// A pane's or window's commands: a sequence of scalars, or one scalar.
pub open spec fn spec_command_list(v: Option<Yaml>) -> Seq<Seq<char>> {
    match v {
        None => seq![],
        Some(Yaml::Null) => seq![],
        Some(Yaml::Sequence(items)) => scalars_of(items@),
        Some(x) => match spec_scalar(x) {
            Some(s) => seq![s],
            None => seq![],
        },
    }
}

pub open spec fn opt_yaml(v: Option<&Yaml>) -> Option<Yaml> {
    match v {
        Some(y) => Some(*y),
        None => None,
    }
}

/// Reads a command list.
pub fn command_list(value: Option<&Yaml>) -> (r: Vec<String>)
    ensures
        strings_view(r@) == spec_command_list(opt_yaml(value)),
{
    let mut out: Vec<String> = Vec::new();
    match value {
        None => {},
        Some(Yaml::Null) => {},
        Some(Yaml::Sequence(items)) => {
            let mut i: usize = 0;
            while i < items.len()
                invariant
                    i <= items@.len(),
                    strings_view(out@) == scalars_of(items@.take(i as int)),
                decreases items.len() - i,
            {
                assert(items@.take(i + 1).drop_last() == items@.take(i as int));
                assert(items@.take(i + 1).last() == items@[i as int]);
                let ghost before = out@;
                match scalar_to_string(&items[i]) {
                    Some(s) => {
                        out.push(s);
                        assert(strings_view(out@) =~= strings_view(before) + seq![s@]);
                    },
                    None => {
                        assert(strings_view(out@) =~= strings_view(before) + Seq::<Seq<char>>::empty());
                    },
                }
                i += 1;
            }
            assert(items@.take(items@.len() as int) == items@);
        },
        Some(other) => {
            match scalar_to_string(other) {
                Some(s) => {
                    out.push(s);
                    assert(strings_view(out@) =~= seq![s@]);
                },
                None => {
                    assert(strings_view(out@) =~= Seq::<Seq<char>>::empty());
                },
            }
        },
    }
    out
}

/// Whether a pane entry is a pane-chain entry: a mapping with `command`,
/// `commands`, `split` or `ratio`.
pub open spec fn spec_is_chain_body(v: Yaml) -> bool {
    &&& v is Mapping
    &&& (spec_get(v, "command"@) is Some || spec_get(v, "commands"@) is Some || spec_get(
        v,
        "split"@,
    ) is Some || spec_get(v, "ratio"@) is Some)
}

pub fn is_chain_body(value: &Yaml) -> (r: bool)
    ensures
        r == spec_is_chain_body(*value),
{
    match value {
        Yaml::Mapping(_) => get(value, "command").is_some() || get(value, "commands").is_some()
            || get(value, "split").is_some() || get(value, "ratio").is_some(),
        _ => false,
    }
}

/// An index given as a number or a numeric string.
pub open spec fn spec_as_index(v: Yaml) -> Option<nat> {
    match v {
        Yaml::Number(n) => parse_unsigned(n@, usize::MAX as nat),
        Yaml::String(s) => parse_unsigned(trim(s@), usize::MAX as nat),
        _ => None,
    }
}

pub fn as_index(value: &Yaml) -> (r: Option<usize>)
    ensures
        match r {
            Some(i) => spec_as_index(*value) == Some(i as nat),
            None => spec_as_index(*value) is None,
        },
{
    match value {
        Yaml::Number(n) => {
            let cs = chars_of(n.as_str());
            match parse_decimal(cs.as_slice(), usize::MAX as u64) {
                Some(v) => Some(v as usize),
                None => None,
            }
        },
        Yaml::String(s) => {
            let t = trimmed(s.as_str());
            match parse_decimal(t.as_slice(), usize::MAX as u64) {
                Some(v) => Some(v as usize),
                None => None,
            }
        },
        _ => None,
    }
}

/// The first position whose name is `wanted`.
pub open spec fn first_named(names: Seq<Option<Seq<char>>>, wanted: Seq<char>) -> Option<nat>
    decreases names.len(),
{
    if names.len() == 0 {
        None
    } else if names[0] == Some(wanted) {
        Some(0)
    } else {
        match first_named(names.drop_first(), wanted) {
            Some(i) => Some(i + 1),
            None => None,
        }
    }
}

/// Resolves a window or pane selection: unset or falsy selects the first;
/// an index must be in range; otherwise the value names one.
pub open spec fn spec_resolve(
    v: Option<Yaml>,
    names: Seq<Option<Seq<char>>>,
    field: Seq<char>,
    kind: Seq<char>,
) -> Result<nat, Seq<char>> {
    if !spec_truthy(v) {
        Ok(0)
    } else {
        let x = v.unwrap();
        match spec_as_index(x) {
            Some(i) => if i < names.len() {
                Ok(i)
            } else {
                Err(seq!['`'] + field + "` index "@ + crate::zellij::decimal(i)
                    + " is outside the configured "@ + kind + "s."@)
            },
            None => {
                let wanted = match spec_scalar(x) {
                    Some(s) => s,
                    None => seq![],
                };
                match first_named(names, wanted) {
                    Some(i) => Ok(i),
                    None => Err(seq!['`'] + field + "` refers to unknown "@ + kind + " `"@ + wanted
                        + "`."@),
                }
            },
        }
    }
}

pub open spec fn pane_titles(ps: Seq<PaneSpec>) -> Seq<Option<Seq<char>>> {
    ps.map_values(|p: PaneSpec| opt_str(p.title))
}

#[verifier::loop_isolation(false)]
fn resolve_by_names(value: Option<&Yaml>, names: &Vec<Option<String>>, field: &str, kind: &str) -> (r:
    Result<usize, String>)
    ensures
        ({
            let ns = names@.map_values(|o: Option<String>| opt_str(o));
            match r {
                Ok(i) => spec_resolve(opt_yaml(value), ns, field@, kind@) == Ok::<nat, Seq<char>>(
                    i as nat,
                ),
                Err(m) => spec_resolve(opt_yaml(value), ns, field@, kind@) == Err::<nat, Seq<char>>(
                    m@,
                ),
            }
        }),
{
    let ghost ns = names@.map_values(|o: Option<String>| opt_str(o));
    if !truthy(value) {
        return Ok(0);
    }
    let x = match value {
        Some(x) => x,
        None => {
            return Ok(0);
        },
    };
    match as_index(x) {
        Some(i) => {
            if i < names.len() {
                Ok(i)
            } else {
                let mut m: Vec<char> = Vec::new();
                m.push('`');
                extend_str(&mut m, field);
                extend_str(&mut m, "` index ");
                let d = crate::zellij::decimal_string_u64(i as u64);
                extend_str(&mut m, d.as_str());
                extend_str(&mut m, " is outside the configured ");
                extend_str(&mut m, kind);
                extend_str(&mut m, "s.");
                Err(string_of(m.as_slice()))
            }
        },
        None => {
            let wanted = match scalar_to_string(x) {
                Some(s) => s,
                None => String::new(),
            };
            let mut k: usize = 0;
            assert(ns.skip(0) == ns);
            while k < names.len()
                invariant
                    k <= names@.len(),
                    ns == names@.map_values(|o: Option<String>| opt_str(o)),
                    first_named(ns, wanted@) == match first_named(ns.skip(k as int), wanted@) {
                        Some(j) => Some((j + k) as nat),
                        None => None::<nat>,
                    },
                decreases names.len() - k,
            {
                let ghost rest = ns.skip(k as int);
                assert(rest[0] == opt_str(names@[k as int]));
                let hit = match &names[k] {
                    Some(n) => str_eq(n.as_str(), wanted.as_str()),
                    None => false,
                };
                assert(hit == (rest[0] == Some(wanted@)));
                if hit {
                    return Ok(k);
                }
                assert(rest.drop_first() == ns.skip(k + 1));
                k += 1;
            }
            let mut m: Vec<char> = Vec::new();
            m.push('`');
            extend_str(&mut m, field);
            extend_str(&mut m, "` refers to unknown ");
            extend_str(&mut m, kind);
            extend_str(&mut m, " `");
            extend_str(&mut m, wanted.as_str());
            extend_str(&mut m, "`.");
            Err(string_of(m.as_slice()))
        },
    }
}

/// Resolves `focused_pane` or `startup_pane` against some panes.
pub fn resolve_pane(value: Option<&Yaml>, panes: &Vec<PaneSpec>, field: &str) -> (r: Result<
    usize,
    String,
>)
    ensures
        match r {
            Ok(i) => spec_resolve(opt_yaml(value), pane_titles(panes@), field@, "pane"@) == Ok::<
                nat,
                Seq<char>,
            >(i as nat),
            Err(m) => spec_resolve(opt_yaml(value), pane_titles(panes@), field@, "pane"@) == Err::<
                nat,
                Seq<char>,
            >(m@),
        },
{
    let mut names: Vec<Option<String>> = Vec::new();
    let mut i: usize = 0;
    while i < panes.len()
        invariant
            i <= panes@.len(),
            names@.map_values(|o: Option<String>| opt_str(o)) == pane_titles(panes@.take(i as int)),
        decreases panes.len() - i,
    {
        let ghost before = names@;
        names.push(clone_opt_string(&panes[i].title));
        assert(names@.map_values(|o: Option<String>| opt_str(o)) =~= before.map_values(
            |o: Option<String>| opt_str(o),
        ).push(opt_str(panes@[i as int].title)));
        assert(pane_titles(panes@.take(i + 1)) =~= pane_titles(panes@.take(i as int)).push(
            opt_str(panes@[i as int].title),
        ));
        i += 1;
    }
    assert(panes@.take(panes@.len() as int) == panes@);
    resolve_by_names(value, &names, field, "pane")
}

} // verus!

verus! {

pub open spec fn pow10(n: nat) -> nat
    decreases n,
{
    if n == 0 {
        1
    } else {
        10 * pow10((n - 1) as nat)
    }
}

/// A plain decimal number: an optional sign, digits, and optionally a point
/// and more digits; at least one digit and at most eighteen in all. Gives
/// the sign (whether it is negative) and the digits before and after the
/// point.
pub open spec fn spec_decimal(s: Seq<char>) -> Option<(bool, Seq<char>, Seq<char>)> {
    let neg = s.len() > 0 && s[0] == '-';
    let body = if s.len() > 0 && (s[0] == '-' || s[0] == '+') {
        s.drop_first()
    } else {
        s
    };
    let parts = match crate::text::split_once(body, '.') {
        Some((a, b)) => (a, b),
        None => (body, seq![]),
    };
    if parts.0.len() + parts.1.len() == 0 || parts.0.len() + parts.1.len() > 18
        || !crate::text::all_digits(parts.0) || !crate::text::all_digits(parts.1) {
        None
    } else {
        Some((neg, parts.0, parts.1))
    }
}

/// Digits without their leading zeros.
pub open spec fn strip_leading_zeros(s: Seq<char>) -> Seq<char>
    decreases s.len(),
{
    if s.len() > 0 && s[0] == '0' {
        strip_leading_zeros(s.drop_first())
    } else {
        s
    }
}

/// Digits without their trailing zeros.
pub open spec fn strip_trailing_zeros(s: Seq<char>) -> Seq<char>
    decreases s.len(),
{
    if s.len() > 0 && s.last() == '0' {
        strip_trailing_zeros(s.drop_last())
    } else {
        s
    }
}

/// How a decimal number is printed: no superfluous zeros, no empty
/// fraction.
pub open spec fn decimal_text(neg: bool, ip: Seq<char>, fp: Seq<char>) -> Seq<char> {
    let i = strip_leading_zeros(ip);
    let f = strip_trailing_zeros(fp);
    (if neg {
        seq!['-']
    } else {
        seq![]
    }) + (if i.len() == 0 {
        seq!['0']
    } else {
        i
    }) + (if f.len() == 0 {
        seq![]
    } else {
        seq!['.'] + f
    })
}

/// A pane-chain `ratio`: a number from 0.1 through 0.9, as a fraction of a
/// power of ten.
pub open spec fn spec_parse_ratio(v: Yaml) -> Result<Ratio, Seq<char>> {
    let text = match v {
        Yaml::Number(n) => Some(n@),
        Yaml::String(s) => Some(s@),
        _ => None,
    };
    match text {
        None => Err("Pane split `ratio` must be a number from 0.1 through 0.9."@),
        Some(t) => match spec_decimal(t) {
            None => Err("Pane split `ratio` must be a number from 0.1 through 0.9."@),
            Some((neg, ip, fp)) => spec_ratio_of(neg, ip, fp),
        },
    }
}

/// The ratio a decimal number denotes, when it is from 0.1 through 0.9.
pub open spec fn spec_ratio_of(neg: bool, ip: Seq<char>, fp: Seq<char>) -> Result<Ratio, Seq<char>> {
    let n = crate::text::dec_value(ip + fp);
    let d = pow10(fp.len());
    if !neg && 10 * n >= d && 10 * n <= 9 * d {
        Ok(Ratio { first: n as u64, whole: d as u64 })
    } else {
        Err("Pane split `ratio` must be from 0.1 through 0.9, got "@ + decimal_text(neg, ip, fp)
            + "."@)
    }
}

pub(crate) proof fn lemma_pow10_positive(n: nat)
    ensures
        pow10(n) >= 1,
    decreases n,
{
    if n > 0 {
        lemma_pow10_positive((n - 1) as nat);
    }
}

pub(crate) proof fn lemma_pow10_bound(n: nat)
    requires
        n <= 18,
    ensures
        pow10(n) <= 1_000_000_000_000_000_000,
        pow10(n) >= 1,
{
    lemma_pow10_positive(n);
    lemma_pow10_mono(n, 18);
    reveal_with_fuel(pow10, 19);
}

pub(crate) proof fn lemma_dec_value_bound(s: Seq<char>)
    requires
        crate::text::all_digits(s),
    ensures
        crate::text::dec_value(s) < pow10(s.len()),
    decreases s.len(),
{
    if s.len() > 0 {
        lemma_dec_value_bound(s.drop_last());
        assert(crate::text::is_digit(s[s.len() - 1]));
    }
}

fn strip_leading_zero_chars(s: &[char]) -> (r: Vec<char>)
    ensures
        r@ == strip_leading_zeros(s@),
{
    let mut i: usize = 0;
    assert(s@.skip(0) == s@);
    while i < s.len() && s[i] == '0'
        invariant
            i <= s@.len(),
            strip_leading_zeros(s@) == strip_leading_zeros(s@.skip(i as int)),
        decreases s.len() - i,
    {
        assert(s@.skip(i as int).drop_first() == s@.skip(i + 1));
        i += 1;
    }
    assert(s@.skip(i as int) == s@.subrange(i as int, s@.len() as int));
    crate::text::slice_chars(s, i, s.len())
}

fn strip_trailing_zero_chars(s: &[char]) -> (r: Vec<char>)
    ensures
        r@ == strip_trailing_zeros(s@),
{
    let mut j: usize = s.len();
    assert(s@.take(s@.len() as int) == s@);
    while j > 0 && s[j - 1] == '0'
        invariant
            j <= s@.len(),
            strip_trailing_zeros(s@) == strip_trailing_zeros(s@.take(j as int)),
        decreases j,
    {
        assert(s@.take(j as int).drop_last() == s@.take(j - 1));
        j -= 1;
    }
    assert(s@.take(j as int) == s@.subrange(0, j as int));
    crate::text::slice_chars(s, 0, j)
}

pub(crate) fn digits_value(s: &[char]) -> (r: u64)
    requires
        crate::text::all_digits(s@),
        s@.len() <= 18,
    ensures
        r as nat == crate::text::dec_value(s@),
{
    let mut v: u64 = 0;
    let mut i: usize = 0;
    while i < s.len()
        invariant
            i <= s@.len(),
            s@.len() <= 18,
            crate::text::all_digits(s@),
            v as nat == crate::text::dec_value(s@.take(i as int)),
        decreases s.len() - i,
    {
        proof {
            assert(s@.take(i + 1).drop_last() == s@.take(i as int));
            assert(s@.take(i + 1).last() == s@[i as int]);
            lemma_dec_value_bound(s@.take(i as int));
            lemma_pow10_bound(i as nat);
            lemma_pow10_bound(17);
            assert(crate::text::is_digit(s@[i as int]));
            assert(pow10(i as nat) <= pow10(17)) by {
                lemma_pow10_mono(i as nat, 17);
            }
        }
        let d = (s[i] as u32 - 48) as u64;
        v = v * 10 + d;
        i += 1;
    }
    assert(s@.take(s@.len() as int) == s@);
    v
}

pub(crate) proof fn lemma_pow10_mono(a: nat, b: nat)
    requires
        a <= b,
    ensures
        pow10(a) <= pow10(b),
    decreases b,
{
    if a < b {
        lemma_pow10_mono(a, (b - 1) as nat);
    }
}

pub(crate) fn all_digit_chars(s: &[char]) -> (r: bool)
    ensures
        r == crate::text::all_digits(s@),
{
    let mut i: usize = 0;
    while i < s.len()
        invariant
            i <= s@.len(),
            forall|j: int| 0 <= j < i ==> crate::text::is_digit(#[trigger] s@[j]),
        decreases s.len() - i,
    {
        if !('0' <= s[i] && s[i] <= '9') {
            return false;
        }
        i += 1;
    }
    true
}

pub(crate) fn decimal_parts(s: &[char]) -> (r: Option<(bool, Vec<char>, Vec<char>)>)
    ensures
        match r {
            Some(p) => spec_decimal(s@) == Some((p.0, p.1@, p.2@)),
            None => spec_decimal(s@) is None,
        },
{
    let neg = s.len() > 0 && s[0] == '-';
    let body: Vec<char> = if s.len() > 0 && (s[0] == '-' || s[0] == '+') {
        crate::text::slice_chars(s, 1, s.len())
    } else {
        crate::text::slice_chars(s, 0, s.len())
    };
    proof {
        if s@.len() > 0 && (s@[0] == '-' || s@[0] == '+') {
            assert(body@ == s@.drop_first());
        } else {
            assert(body@ == s@);
        }
    }
    let dot = crate::text::find_char_index(body.as_slice(), '.');
    proof {
        crate::text::lemma_find_char(body@, '.');
    }
    let ip: Vec<char> = crate::text::slice_chars(body.as_slice(), 0, if dot < body.len() {
        dot
    } else {
        body.len()
    });
    let fp: Vec<char> = if dot < body.len() {
        crate::text::slice_chars(body.as_slice(), dot + 1, body.len())
    } else {
        Vec::new()
    };
    proof {
        if dot >= body@.len() {
            assert(ip@ == body@);
        }
    }
    if ip.len() + fp.len() == 0 || ip.len() + fp.len() > 18 || !all_digit_chars(ip.as_slice())
        || !all_digit_chars(fp.as_slice()) {
        return None;
    }
    Some((neg, ip, fp))
}

fn ratio_of_parts(neg: bool, ip: &[char], fp: &[char]) -> (r: Result<Ratio, String>)
    requires
        crate::text::all_digits(ip@),
        crate::text::all_digits(fp@),
        ip@.len() + fp@.len() <= 18,
    ensures
        match r {
            Ok(x) => spec_ratio_of(neg, ip@, fp@) == Ok::<Ratio, Seq<char>>(x),
            Err(m) => spec_ratio_of(neg, ip@, fp@) == Err::<Ratio, Seq<char>>(m@),
        },
{
    let mut all: Vec<char> = Vec::new();
    crate::text::extend_chars(&mut all, ip);
    crate::text::extend_chars(&mut all, fp);
    assert(crate::text::all_digits(all@)) by {
        assert forall|j: int| 0 <= j < all@.len() implies crate::text::is_digit(#[trigger] all@[j]) by {
            if j < ip@.len() {
                assert(all@[j] == ip@[j]);
            } else {
                assert(all@[j] == fp@[j - ip@.len()]);
            }
        }
    }
    let n = digits_value(all.as_slice());
    let mut d: u64 = 1;
    let mut e: usize = 0;
    while e < fp.len()
        invariant
            e <= fp@.len(),
            fp@.len() <= 18,
            d as nat == pow10(e as nat),
        decreases fp.len() - e,
    {
        proof {
            lemma_pow10_bound((e + 1) as nat);
        }
        d = d * 10;
        e += 1;
    }
    assert(all@ =~= ip@ + fp@);
    assert(d as nat == pow10(fp@.len()));
    let n128 = n as u128;
    let d128 = d as u128;
    if !neg && 10 * n128 >= d128 && 10 * n128 <= 9 * d128 {
        proof {
            let nn = crate::text::dec_value(ip@ + fp@);
            let dd = pow10(fp@.len());
            assert(nn == n as nat);
            assert(dd == d as nat);
        }
        Ok(Ratio { first: n, whole: d })
    } else {
        let mut m: Vec<char> = Vec::new();
        extend_str(&mut m, "Pane split `ratio` must be from 0.1 through 0.9, got ");
        if neg {
            m.push('-');
        }
        let i = strip_leading_zero_chars(ip);
        if i.len() == 0 {
            m.push('0');
        } else {
            crate::text::extend_chars(&mut m, i.as_slice());
        }
        let f = strip_trailing_zero_chars(fp);
        if f.len() > 0 {
            m.push('.');
            crate::text::extend_chars(&mut m, f.as_slice());
        }
        extend_str(&mut m, ".");
        proof {
            let nn = crate::text::dec_value(ip@ + fp@);
            let dd = pow10(fp@.len());
            assert(nn == n as nat);
            assert(dd == d as nat);
            assert(!(!neg && 10 * nn >= dd && 10 * nn <= 9 * dd));
            let sgn = if neg {
                seq!['-']
            } else {
                Seq::<char>::empty()
            };
            let ii = strip_leading_zeros(ip@);
            let ff = strip_trailing_zeros(fp@);
            assert(m@ =~= "Pane split `ratio` must be from 0.1 through 0.9, got "@ + sgn + (if ii.len()
                == 0 {
                seq!['0']
            } else {
                ii
            }) + (if ff.len() == 0 {
                Seq::<char>::empty()
            } else {
                seq!['.'] + ff
            }) + "."@);
            assert(m@ =~= "Pane split `ratio` must be from 0.1 through 0.9, got "@ + decimal_text(
                neg,
                ip@,
                fp@,
            ) + "."@);
        }
        Err(string_of(m.as_slice()))
    }
}

/// Reads a pane-chain `ratio`.
pub fn parse_ratio(value: &Yaml) -> (r: Result<Ratio, String>)
    ensures
        match r {
            Ok(x) => spec_parse_ratio(*value) == Ok::<Ratio, Seq<char>>(x),
            Err(m) => spec_parse_ratio(*value) == Err::<Ratio, Seq<char>>(m@),
        },
{
    let text: &String = match value {
        Yaml::Number(n) => n,
        Yaml::String(s) => s,
        _ => {
            return Err("Pane split `ratio` must be a number from 0.1 through 0.9.".to_owned());
        },
    };
    let s = chars_of(text.as_str());
    match decimal_parts(s.as_slice()) {
        None => Err("Pane split `ratio` must be a number from 0.1 through 0.9.".to_owned()),
        Some((neg, ip, fp)) => ratio_of_parts(neg, ip.as_slice(), fp.as_slice()),
    }
}

} // verus!

verus! {

/// One entry of a window's `panes`, read but not yet placed in the list.
pub struct ItemView {
    pub title: Option<Seq<char>>,
    pub commands: Seq<Seq<char>>,
    pub direction: Option<SplitDirection>,
    pub ratio: Option<Ratio>,
    pub structured: bool,
}

struct ParsedItem {
    title: Option<String>,
    commands: Vec<String>,
    direction: Option<SplitDirection>,
    ratio: Option<Ratio>,
    structured: bool,
}

impl View for ParsedItem {
    type V = ItemView;

    closed spec fn view(&self) -> ItemView {
        ItemView {
            title: opt_str(self.title),
            commands: strings_view(self.commands@),
            direction: self.direction,
            ratio: self.ratio,
            structured: self.structured,
        }
    }
}

/// A pane entry's title and body: `- title: body`, `- body`, or nothing.
pub open spec fn item_title_body(item: Yaml) -> (Option<Seq<char>>, Option<Yaml>) {
    match item {
        Yaml::Mapping(m) => if m@.len() > 0 {
            (spec_scalar(m@[0].0), Some(m@[0].1))
        } else {
            (None, None)
        },
        Yaml::Null => (None, None),
        _ => (None, Some(item)),
    }
}

pub open spec fn opt_direction(v: Option<Yaml>) -> Result<Option<SplitDirection>, Seq<char>> {
    match v {
        None => Ok(None),
        Some(x) => match spec_parse_direction(x) {
            Ok(d) => Ok(Some(d)),
            Err(e) => Err(e),
        },
    }
}

pub open spec fn opt_ratio(v: Option<Yaml>) -> Result<Option<Ratio>, Seq<char>> {
    match v {
        None => Ok(None),
        Some(x) => match spec_parse_ratio(x) {
            Ok(r) => Ok(Some(r)),
            Err(e) => Err(e),
        },
    }
}

/// Reads the pane entry at `index`.
pub open spec fn spec_item(item: Yaml, index: nat) -> Result<ItemView, Seq<char>> {
    let (title, body) = item_title_body(item);
    let structured = match body {
        Some(b) => spec_is_chain_body(b),
        None => false,
    };
    if structured {
        let b = body.unwrap();
        let command = spec_get(b, "command"@);
        let commands = spec_get(b, "commands"@);
        if command is Some && commands is Some {
            Err("Pane "@ + crate::zellij::decimal(index)
                + " cannot specify both `command` and `commands`."@)
        } else {
            let cmds = spec_command_list(
                if command is Some {
                    command
                } else {
                    commands
                },
            );
            match opt_direction(spec_get(b, "split"@)) {
                Err(e) => Err(e),
                Ok(direction) => match opt_ratio(spec_get(b, "ratio"@)) {
                    Err(e) => Err(e),
                    Ok(ratio) => if index == 0 && (direction is Some || ratio is Some) {
                        Err("The first pane in a pane chain cannot specify `split` or `ratio`."@)
                    } else {
                        Ok(
                            ItemView {
                                title,
                                commands: cmds,
                                direction,
                                ratio,
                                structured: true,
                            },
                        )
                    },
                },
            }
        }
    } else {
        Ok(
            ItemView {
                title,
                commands: spec_command_list(body),
                direction: None,
                ratio: None,
                structured: false,
            },
        )
    }
}

/// The pane entries: a sequence, or a single entry.
pub open spec fn pane_items(v: Yaml) -> Seq<Yaml> {
    match v {
        Yaml::Sequence(items) => items@,
        _ => seq![v],
    }
}

/// Reads pane entries in order; the first failing entry reports.
pub open spec fn parse_items(items: Seq<Yaml>) -> Result<Seq<ItemView>, Seq<char>>
    decreases items.len(),
{
    if items.len() == 0 {
        Ok(seq![])
    } else {
        match parse_items(items.drop_last()) {
            Err(e) => Err(e),
            Ok(ps) => match spec_item(items.last(), (items.len() - 1) as nat) {
                Err(e) => Err(e),
                Ok(p) => Ok(ps.push(p)),
            },
        }
    }
}

pub open spec fn any_structured(ps: Seq<ItemView>) -> bool {
    exists|i: int| 0 <= i < ps.len() && (#[trigger] ps[i]).structured
}

/// A pane of a window. In a pane chain every pane but the first splits its
/// predecessor, to the right and in half unless the entry says otherwise.
pub open spec fn pane_of(p: ItemView, index: int, chain: bool) -> PaneView {
    PaneView {
        title: p.title,
        commands: p.commands,
        split: if index == 0 {
            None
        } else if chain || p.direction is Some || p.ratio is Some {
            Some(
                PaneSplit {
                    direction: match p.direction {
                        Some(d) => d,
                        None => SplitDirection::Right,
                    },
                    ratio: match p.ratio {
                        Some(r) => r,
                        None => Ratio { first: 1, whole: 2 },
                    },
                },
            )
        } else {
            None
        },
    }
}

/// A window's `panes`, and whether they form a pane chain (one entry
/// with `command`, `commands`, `split` or `ratio` makes them one).
pub open spec fn spec_parse_panes(v: Option<Yaml>) -> Result<(Seq<PaneView>, bool), Seq<char>> {
    match v {
        None => Ok((seq![], false)),
        Some(Yaml::Null) => Ok((seq![], false)),
        Some(x) => match parse_items(pane_items(x)) {
            Err(e) => Err(e),
            Ok(ps) => {
                let chain = any_structured(ps);
                Ok((Seq::new(ps.len(), |i: int| pane_of(ps[i], i, chain)), chain))
            },
        },
    }
}

fn opt_value<'a>(v: Option<&'a Yaml>) -> (r: Option<&'a Yaml>)
    ensures
        opt_yaml(r) == opt_yaml(v),
{
    v
}

fn parse_item(item: &Yaml, index: usize) -> (r: Result<ParsedItem, String>)
    ensures
        match r {
            Ok(p) => spec_item(*item, index as nat) == Ok::<ItemView, Seq<char>>(p@),
            Err(m) => spec_item(*item, index as nat) == Err::<ItemView, Seq<char>>(m@),
        },
{
    let (title, body): (Option<String>, Option<&Yaml>) = match item {
        Yaml::Mapping(m) => {
            if m.len() > 0 {
                (scalar_to_string(&m[0].0), Some(&m[0].1))
            } else {
                (None, None)
            }
        },
        Yaml::Null => (None, None),
        _ => (None, Some(item)),
    };
    assert(item_title_body(*item) == (opt_str(title), opt_yaml(body)));
    let structured = match body {
        Some(b) => is_chain_body(b),
        None => false,
    };
    if structured {
        let b = match body {
            Some(b) => b,
            None => {
                return Err(String::new());
            },
        };
        let command = get(b, "command");
        let commands = get(b, "commands");
        if command.is_some() && commands.is_some() {
            let mut m: Vec<char> = Vec::new();
            extend_str(&mut m, "Pane ");
            let d = crate::zellij::decimal_string_u64(index as u64);
            extend_str(&mut m, d.as_str());
            extend_str(&mut m, " cannot specify both `command` and `commands`.");
            return Err(string_of(m.as_slice()));
        }
        let chosen = if command.is_some() {
            command
        } else {
            commands
        };
        let cmds = command_list(chosen);
        let direction = match get(b, "split") {
            None => None,
            Some(v) => match SplitDirection::parse(v) {
                Ok(d) => Some(d),
                Err(e) => {
                    return Err(e);
                },
            },
        };
        let ratio = match get(b, "ratio") {
            None => None,
            Some(v) => match parse_ratio(v) {
                Ok(x) => Some(x),
                Err(e) => {
                    return Err(e);
                },
            },
        };
        if index == 0 && (direction.is_some() || ratio.is_some()) {
            return Err("The first pane in a pane chain cannot specify `split` or `ratio`.".to_owned());
        }
        Ok(ParsedItem { title, commands: cmds, direction, ratio, structured: true })
    } else {
        let cmds = command_list(body);
        Ok(ParsedItem { title, commands: cmds, direction: None, ratio: None, structured: false })
    }
}

/// Reads a window's `panes` and whether they form a pane chain.
pub fn parse_panes(value: Option<&Yaml>) -> (r: Result<(Vec<PaneSpec>, bool), String>)
    ensures
        match r {
            Ok((ps, chain)) => spec_parse_panes(opt_yaml(value)) == Ok::<
                (Seq<PaneView>, bool),
                Seq<char>,
            >((panes_view(ps@), chain)),
            Err(m) => spec_parse_panes(opt_yaml(value)) == Err::<(Seq<PaneView>, bool), Seq<char>>(
                m@,
            ),
        },
{
    let none: Vec<PaneSpec> = Vec::new();
    assert(panes_view(none@) =~= Seq::<PaneView>::empty());
    let x = match value {
        None => {
            return Ok((none, false));
        },
        Some(Yaml::Null) => {
            return Ok((none, false));
        },
        Some(x) => x,
    };
    let single: Vec<&Yaml> = vec![x];
    let items: Vec<&Yaml> = match x {
        Yaml::Sequence(items) => {
            let mut refs: Vec<&Yaml> = Vec::new();
            let mut i: usize = 0;
            while i < items.len()
                invariant
                    i <= items@.len(),
                    refs@.len() == i,
                    forall|j: int| 0 <= j < i ==> *(#[trigger] refs@[j]) == items@[j],
                decreases items.len() - i,
            {
                refs.push(&items[i]);
                i += 1;
            }
            refs
        },
        _ => single,
    };
    let ghost all = pane_items(*x);
    assert(items@.len() == all.len());
    assert(forall|j: int| 0 <= j < all.len() ==> *(#[trigger] items@[j]) == all[j]);
    let mut parsed: Vec<ParsedItem> = Vec::new();
    let mut chain = false;
    let mut i: usize = 0;
    assert(all.take(0) =~= Seq::<Yaml>::empty());
    assert(parsed@.map_values(|p: ParsedItem| p@) =~= Seq::<ItemView>::empty());
    while i < items.len()
        invariant
            i <= items@.len(),
            parsed@.len() == i,
            all == pane_items(*x),
            value == Some(x),
            *x != Yaml::Null,
            items@.len() == all.len(),
            forall|j: int| 0 <= j < all.len() ==> *(#[trigger] items@[j]) == all[j],
            parse_items(all.take(i as int)) == Ok::<Seq<ItemView>, Seq<char>>(
                parsed@.map_values(|p: ParsedItem| p@),
            ),
            chain == any_structured(parsed@.map_values(|p: ParsedItem| p@)),
        decreases items.len() - i,
    {
        assert(all.take(i + 1).drop_last() == all.take(i as int));
        assert(all.take(i + 1).last() == all[i as int]);
        match parse_item(items[i], i) {
            Err(e) => {
                proof {
                    lemma_parse_items_prefix_error(all, (i + 1) as nat);
                }
                return Err(e);
            },
            Ok(p) => {
                let ghost before = parsed@.map_values(|q: ParsedItem| q@);
                let s = p.structured;
                parsed.push(p);
                assert(parsed@.map_values(|q: ParsedItem| q@) =~= before.push(p@));
                proof {
                    let now = parsed@.map_values(|q: ParsedItem| q@);
                    if s {
                        assert(now[i as int].structured);
                    }
                    if any_structured(before) {
                        let k = choose|k: int| 0 <= k < before.len() && before[k].structured;
                        assert(now[k] == before[k]);
                    }
                    if any_structured(now) {
                        let k = choose|k: int| 0 <= k < now.len() && now[k].structured;
                        if k < i {
                            assert(before[k] == now[k]);
                        }
                    }
                }
                chain = chain || s;
            },
        }
        i += 1;
    }
    assert(all.take(all.len() as int) == all);
    let ghost ps = parsed@.map_values(|p: ParsedItem| p@);
    let mut panes: Vec<PaneSpec> = Vec::new();
    let mut k: usize = 0;
    while k < parsed.len()
        invariant
            k <= parsed@.len(),
            ps == parsed@.map_values(|p: ParsedItem| p@),
            chain == any_structured(ps),
            panes@.len() == k,
            forall|j: int| 0 <= j < k ==> (#[trigger] panes@[j])@ == pane_of(ps[j], j, chain),
        decreases parsed.len() - k,
    {
        let p = &parsed[k];
        let split = if k == 0 {
            None
        } else if chain || p.direction.is_some() || p.ratio.is_some() {
            Some(
                PaneSplit {
                    direction: match p.direction {
                        Some(d) => d,
                        None => SplitDirection::Right,
                    },
                    ratio: match p.ratio {
                        Some(r) => r,
                        None => Ratio { first: 1, whole: 2 },
                    },
                },
            )
        } else {
            None
        };
        let ghost before = panes@;
        panes.push(
            PaneSpec {
                title: clone_opt_string(&p.title),
                commands: clone_strings(&p.commands),
                split,
            },
        );
        assert(panes@[k as int]@ == pane_of(ps[k as int], k as int, chain));
        assert(forall|j: int| 0 <= j < k ==> panes@[j] == before[j]);
        k += 1;
    }
    assert(panes_view(panes@) =~= Seq::new(ps.len(), |j: int| pane_of(ps[j], j, chain)));
    Ok((panes, chain))
}

proof fn lemma_parse_items_prefix_error(items: Seq<Yaml>, n: nat)
    requires
        n <= items.len(),
        parse_items(items.take(n as int)) is Err,
    ensures
        parse_items(items) == parse_items(items.take(n as int)),
    decreases items.len() - n,
{
    if n < items.len() {
        assert(items.take((n + 1) as int).drop_last() == items.take(n as int));
        lemma_parse_items_prefix_error(items, n + 1);
    } else {
        assert(items.take(n as int) == items);
    }
}

} // verus!

verus! {

#[derive(Debug, PartialEq)]
pub struct WindowSpec {
    pub name: Option<String>,
    pub root: String,
    pub pre: Option<String>,
    pub commands: Vec<String>,
    pub panes: Vec<PaneSpec>,
    pub layout: Option<String>,
    pub pane_chain: bool,
    pub focused_pane: usize,
}

/// A window as plain values.
pub struct WindowView {
    pub name: Option<Seq<char>>,
    pub root: Seq<char>,
    pub pre: Option<Seq<char>>,
    pub commands: Seq<Seq<char>>,
    pub panes: Seq<PaneView>,
    pub layout: Option<Seq<char>>,
    pub pane_chain: bool,
    pub focused_pane: nat,
}

impl View for WindowSpec {
    type V = WindowView;

    open spec fn view(&self) -> WindowView {
        WindowView {
            name: opt_str(self.name),
            root: self.root@,
            pre: opt_str(self.pre),
            commands: strings_view(self.commands@),
            panes: panes_view(self.panes@),
            layout: opt_str(self.layout),
            pane_chain: self.pane_chain,
            focused_pane: self.focused_pane as nat,
        }
    }
}

/// The panes a window opens: its panes, or one pane running its commands.
pub open spec fn spec_effective(panes: Seq<PaneView>, commands: Seq<Seq<char>>) -> Seq<PaneView> {
    if panes.len() == 0 {
        seq![PaneView { title: None, commands, split: None }]
    } else {
        panes
    }
}

pub open spec fn view_titles(ps: Seq<PaneView>) -> Seq<Option<Seq<char>>> {
    ps.map_values(|p: PaneView| p.title)
}

impl WindowSpec {
    /// The panes this window opens.
    pub fn effective_panes(&self) -> (r: Vec<PaneSpec>)
        ensures
            panes_view(r@) == spec_effective(self@.panes, self@.commands),
    {
        if self.panes.len() == 0 {
            let mut v: Vec<PaneSpec> = Vec::new();
            v.push(PaneSpec { title: None, commands: clone_strings(&self.commands), split: None });
            assert(panes_view(v@) =~= spec_effective(self@.panes, self@.commands));
            v
        } else {
            clone_panes(&self.panes)
        }
    }
}

/// A non-empty scalar setting.
pub open spec fn nonempty_scalar(v: Option<Yaml>) -> Option<Seq<char>> {
    match v {
        Some(x) => match spec_scalar(x) {
            Some(s) => if s.len() > 0 {
                Some(s)
            } else {
                None
            },
            None => None,
        },
        None => None,
    }
}

pub open spec fn window_entry_message() -> Seq<char> {
    "Failed to parse config file: window entries must be mappings, e.g. `- editor: vim`"@
}

pub open spec fn herdr_synchronize_message() -> Seq<char> {
    "`synchronize` is not supported by the Herdr backend because it changes interactive input semantics."@
}

pub open spec fn zellij_synchronize_warning() -> Seq<char> {
    "`synchronize` controls tmux synchronized panes and is ignored by zellij."@
}

pub open spec fn chain_layout_message() -> Seq<char> {
    "A pane chain (`split`/`ratio`/`command(s)`) cannot be combined with a window `layout`."@
}

/// A window entry `- name: body`: the window, and the warning it gives.
pub open spec fn spec_build_window(
    entry: Yaml,
    project_root: Seq<char>,
    home: Seq<char>,
    backend: crate::settings::Backend,
) -> Result<(WindowView, Option<Seq<char>>), Seq<char>> {
    match entry {
        Yaml::Mapping(m) => {
            let name = if m@.len() > 0 {
                spec_scalar(m@[0].0)
            } else {
                None
            };
            let body = if m@.len() > 0 {
                m@[0].1
            } else {
                Yaml::Null
            };
            let sync = spec_truthy(spec_get(body, "synchronize"@));
            if sync && backend == crate::settings::Backend::Herdr {
                Err(herdr_synchronize_message())
            } else {
                let warning = if sync && backend == crate::settings::Backend::Zellij {
                    Some(zellij_synchronize_warning())
                } else {
                    None
                };
                let root = match nonempty_scalar(spec_get(body, "root"@)) {
                    Some(s) => crate::util::spec_expand_path(s, project_root, home),
                    None => project_root,
                };
                let pre = spec_join_or_string(spec_get(body, "pre"@), "; "@);
                let layout = nonempty_scalar(spec_get(body, "layout"@));
                match spec_parse_panes(spec_get(body, "panes"@)) {
                    Err(e) => Err(e),
                    Ok((panes, chain)) => if chain && layout is Some {
                        Err(chain_layout_message())
                    } else {
                        let commands = if body is Mapping {
                            seq![]
                        } else {
                            spec_command_list(Some(body))
                        };
                        let effective = spec_effective(panes, commands);
                        match spec_resolve(
                            spec_get(body, "focused_pane"@),
                            view_titles(effective),
                            "focused_pane"@,
                            "pane"@,
                        ) {
                            Err(e) => Err(e),
                            Ok(f) => Ok(
                                (
                                    WindowView {
                                        name,
                                        root,
                                        pre,
                                        commands,
                                        panes,
                                        layout,
                                        pane_chain: chain,
                                        focused_pane: f,
                                    },
                                    warning,
                                ),
                            ),
                        }
                    },
                }
            }
        },
        _ => Err(window_entry_message()),
    }
}

fn nonempty_string(v: Option<String>) -> (r: Option<String>)
    ensures
        opt_str(r) == match opt_str(v) {
            Some(s) => if s.len() > 0 {
                Some(s)
            } else {
                None
            },
            None => None,
        },
{
    match v {
        Some(s) => if s.as_str().is_empty() {
            None
        } else {
            Some(s)
        },
        None => None,
    }
}

/// Builds a window from its entry; the warning, if any, is returned
/// beside it.
pub fn build_window(
    entry: &Yaml,
    project_root: &str,
    home: &str,
    backend: crate::settings::Backend,
) -> (r: Result<(WindowSpec, Option<String>), String>)
    ensures
        match r {
            Ok((w, warning)) => spec_build_window(*entry, project_root@, home@, backend) == Ok::<
                (WindowView, Option<Seq<char>>),
                Seq<char>,
            >((w@, opt_str(warning))),
            Err(m) => spec_build_window(*entry, project_root@, home@, backend) == Err::<
                (WindowView, Option<Seq<char>>),
                Seq<char>,
            >(m@),
        },
{
    match entry {
        Yaml::Mapping(_) => {},
        _ => {
            return Err(
                "Failed to parse config file: window entries must be mappings, e.g. `- editor: vim`".to_owned(),
            );
        },
    }
    let (key, body_ref) = first_entry(entry);
    let null = Yaml::Null;
    let name: Option<String> = match key {
        Some(k) => scalar_to_string(k),
        None => None,
    };
    let body: &Yaml = match body_ref {
        Some(b) => b,
        None => &null,
    };
    let sync = truthy(get(body, "synchronize"));
    let mut warning: Option<String> = None;
    if sync {
        match backend {
            crate::settings::Backend::Herdr => {
                return Err(
                    "`synchronize` is not supported by the Herdr backend because it changes interactive input semantics.".to_owned(),
                );
            },
            crate::settings::Backend::Zellij => {
                warning = Some(
                    "`synchronize` controls tmux synchronized panes and is ignored by zellij.".to_owned(),
                );
            },
            crate::settings::Backend::Tmux => {},
        }
    }
    let root: String = match nonempty_string(get_string(body, "root")) {
        Some(v) => crate::util::expand_path(v.as_str(), project_root, home),
        None => project_root.to_owned(),
    };
    let pre = join_or_string(get(body, "pre"), "; ");
    let layout = nonempty_string(get_string(body, "layout"));
    let (panes, pane_chain) = match parse_panes(get(body, "panes")) {
        Ok(p) => p,
        Err(e) => {
            return Err(e);
        },
    };
    if pane_chain && layout.is_some() {
        return Err(
            "A pane chain (`split`/`ratio`/`command(s)`) cannot be combined with a window `layout`.".to_owned(),
        );
    }
    let commands: Vec<String> = match body {
        Yaml::Mapping(_) => Vec::new(),
        _ => command_list(Some(body)),
    };
    proof {
        if body is Mapping {
            assert(strings_view(commands@) =~= Seq::<Seq<char>>::empty());
        }
    }
    let focused_pane = if panes.len() == 0 {
        let mut effective: Vec<PaneSpec> = Vec::new();
        effective.push(PaneSpec { title: None, commands: clone_strings(&commands), split: None });
        assert(pane_titles(effective@) =~= view_titles(
            spec_effective(panes_view(panes@), strings_view(commands@)),
        ));
        resolve_pane(get(body, "focused_pane"), &effective, "focused_pane")
    } else {
        assert(pane_titles(panes@) =~= view_titles(panes_view(panes@)));
        resolve_pane(get(body, "focused_pane"), &panes, "focused_pane")
    };
    let focused_pane = match focused_pane {
        Ok(f) => f,
        Err(e) => {
            return Err(e);
        },
    };
    Ok(
        (
            WindowSpec { name, root, pre, commands, panes, layout, pane_chain, focused_pane },
            warning,
        ),
    )
}

} // verus!

verus! {

pub open spec fn layout_direction(d: SplitDirection) -> crate::layout::SplitDirection {
    match d {
        SplitDirection::Right => crate::layout::SplitDirection::Right,
        SplitDirection::Down => crate::layout::SplitDirection::Down,
    }
}

/// A window's pane chain after its first `k` panes: the layout and the
/// pane the next entry splits.
pub open spec fn spec_chain_tree(panes: Seq<PaneView>, k: nat) -> Result<
    (crate::layout::Layout, usize),
    Seq<char>,
>
    decreases k,
{
    if k <= 1 {
        Ok((crate::layout::Layout::Pane(0), 0))
    } else {
        match spec_chain_tree(panes, (k - 1) as nat) {
            Err(e) => Err(e),
            Ok((l, tail)) => {
                let idx = (k - 1) as usize;
                match panes[k - 1].split {
                    None => Err("pane chain entry "@ + crate::zellij::decimal((k - 1) as nat)
                        + " is missing its split definition"@),
                    Some(sp) => if !crate::pane_chain::pane_share_ok(sp.ratio) {
                        Err(
                            crate::layout::layout_error_message(
                                crate::layout::LayoutError::InvalidPaneShare { ratio: sp.ratio },
                            ),
                        )
                    } else if crate::layout::layout_panes(l).contains(idx) {
                        Err(
                            crate::layout::layout_error_message(
                                crate::layout::LayoutError::DuplicatePane { index: idx },
                            ),
                        )
                    } else {
                        Ok(
                            (
                                crate::pane_chain::spec_replace(
                                    l,
                                    tail,
                                    crate::pane_chain::chain_split(
                                        layout_direction(sp.direction),
                                        sp.ratio,
                                        tail,
                                        idx,
                                    ),
                                ),
                                idx,
                            ),
                        )
                    },
                }
            },
        }
    }
}

/// The position of the first `x`.
pub open spec fn index_in(ids: Seq<usize>, x: usize) -> nat
    decreases ids.len(),
{
    if ids.len() == 0 || ids[0] == x {
        0
    } else {
        1 + index_in(ids.drop_first(), x)
    }
}

/// A layout with every pane renumbered by its position in `ids`.
pub open spec fn spec_reindex(l: crate::layout::Layout, ids: Seq<usize>) -> crate::layout::Layout
    decreases l,
{
    match l {
        crate::layout::Layout::Pane(i) => crate::layout::Layout::Pane(index_in(ids, i) as usize),
        crate::layout::Layout::Split { direction, ratio, first, second } => crate::layout::Layout::Split {
            direction,
            ratio,
            first: Box::new(spec_reindex(*first, ids)),
            second: Box::new(spec_reindex(*second, ids)),
        },
    }
}

/// The layout a window's `layout` field names: tiled when absent or
/// empty, a preset by name, or a serialized tmux layout whose panes are
/// renumbered in configured order.
pub open spec fn spec_named_layout(layout: Option<Seq<char>>, n: nat) -> Result<
    crate::layout::Layout,
    Seq<char>,
> {
    match layout {
        None => Ok(crate::layout::spec_tiled(n)),
        Some(l) => if l.len() == 0 {
            Ok(crate::layout::spec_tiled(n))
        } else if exists|p: crate::layout::LayoutPreset| crate::layout::preset_name(p) == l {
            Ok(
                crate::layout::spec_preset(
                    choose|p: crate::layout::LayoutPreset| crate::layout::preset_name(p) == l,
                    n,
                ),
            )
        } else {
            spec_serialized_layout(l, n)
        },
    }
}

/// A serialized tmux layout for `n` panes, renumbered in configured order.
pub open spec fn spec_serialized_layout(l: Seq<char>, n: nat) -> Result<
    crate::layout::Layout,
    Seq<char>,
> {
    match crate::layout::spec_parse_tmux(vstd::utf8::encode_utf8(l)) {
        Err((pos, msg)) => Err("invalid tmux serialized layout `"@ + l + "`: "@ + (
        "invalid tmux layout at byte "@ + crate::zellij::decimal(pos as nat) + ": "@ + msg)),
        Ok(parsed) => {
            let ids = crate::layout::layout_panes(parsed);
            if ids.len() != n {
                Err("tmux serialized layout contains "@ + crate::zellij::decimal(ids.len())
                    + " panes but "@ + crate::zellij::decimal(n) + " panes are configured."@)
            } else {
                Ok(spec_reindex(parsed, ids))
            }
        },
    }
}

/// A window's layout tree: its pane chain, or its named layout.
pub open spec fn spec_layout_tree(w: WindowView) -> Result<crate::layout::Layout, Seq<char>> {
    if w.pane_chain {
        match spec_chain_tree(w.panes, if w.panes.len() == 0 {
            1
        } else {
            w.panes.len()
        }) {
            Ok((l, _)) => Ok(l),
            Err(e) => Err(e),
        }
    } else {
        spec_named_layout(w.layout, spec_effective(w.panes, w.commands).len())
    }
}

fn to_layout_direction(d: SplitDirection) -> (r: crate::layout::SplitDirection)
    ensures
        r == layout_direction(d),
{
    match d {
        SplitDirection::Right => crate::layout::SplitDirection::Right,
        SplitDirection::Down => crate::layout::SplitDirection::Down,
    }
}

fn position_of(ids: &Vec<usize>, x: usize) -> (r: usize)
    requires
        ids@.contains(x),
    ensures
        r as nat == index_in(ids@, x),
        r < ids@.len(),
{
    let mut i: usize = 0;
    assert(ids@.skip(0) == ids@);
    while i < ids.len() && ids[i] != x
        invariant
            i <= ids@.len(),
            index_in(ids@, x) == i + index_in(ids@.skip(i as int), x),
            forall|j: int| 0 <= j < i ==> ids@[j] != x,
        decreases ids.len() - i,
    {
        assert(ids@.skip(i as int).drop_first() == ids@.skip(i + 1));
        i += 1;
    }
    proof {
        if i == ids@.len() {
            let k = choose|k: int| 0 <= k < ids@.len() && ids@[k] == x;
            assert(false);
        }
    }
    i
}

fn reindex_layout(layout: &crate::layout::Layout, ids: &Vec<usize>) -> (r: crate::layout::Layout)
    requires
        forall|i: int|
            0 <= i < crate::layout::layout_panes(*layout).len() ==> ids@.contains(
                #[trigger] crate::layout::layout_panes(*layout)[i],
            ),
    ensures
        r == spec_reindex(*layout, ids@),
    decreases layout,
{
    match layout {
        crate::layout::Layout::Pane(i) => {
            assert(crate::layout::layout_panes(*layout)[0] == *i);
            crate::layout::Layout::Pane(position_of(ids, *i))
        },
        crate::layout::Layout::Split { direction, ratio, first, second } => {
            let ghost a = crate::layout::layout_panes(**first);
            let ghost b = crate::layout::layout_panes(**second);
            assert(crate::layout::layout_panes(*layout) == a + b);
            assert forall|i: int| 0 <= i < a.len() implies ids@.contains(#[trigger] a[i]) by {
                assert((a + b)[i] == a[i]);
                assert(ids@.contains(crate::layout::layout_panes(*layout)[i]));
            }
            assert forall|i: int| 0 <= i < b.len() implies ids@.contains(#[trigger] b[i]) by {
                assert((a + b)[a.len() + i] == b[i]);
                assert(ids@.contains(crate::layout::layout_panes(*layout)[a.len() + i]));
            }
            let f = reindex_layout(first, ids);
            let s = reindex_layout(second, ids);
            crate::layout::Layout::Split {
                direction: *direction,
                ratio: *ratio,
                first: Box::new(f),
                second: Box::new(s),
            }
        },
    }
}

impl WindowSpec {
    /// Resolves this window's pane chain, `layout` field or default into
    /// the backend-neutral split tree, panes numbered in configured order.
    pub fn layout_tree(&self) -> (r: Result<crate::layout::Layout, String>)
        ensures
            match r {
                Ok(l) => spec_layout_tree(self@) == Ok::<crate::layout::Layout, Seq<char>>(l),
                Err(m) => spec_layout_tree(self@) == Err::<crate::layout::Layout, Seq<char>>(m@),
            },
    {
        if self.pane_chain {
            return self.chain_tree();
        }
        let pane_count = if self.panes.len() == 0 {
            1
        } else {
            self.panes.len()
        };
        assert(pane_count as nat == spec_effective(self@.panes, self@.commands).len());
        named_layout(&self.layout, pane_count)
    }

    fn chain_tree(&self) -> (r: Result<crate::layout::Layout, String>)
        requires
            self.pane_chain,
        ensures
            match r {
                Ok(l) => spec_layout_tree(self@) == Ok::<crate::layout::Layout, Seq<char>>(l),
                Err(m) => spec_layout_tree(self@) == Err::<crate::layout::Layout, Seq<char>>(m@),
            },
    {
        let ghost ps = self@.panes;
        let ghost total: nat = if ps.len() == 0 {
            1
        } else {
            ps.len()
        };
        let mut builder = crate::pane_chain::PaneChainBuilder::new(0);
        let mut index: usize = 1;
        while index < self.panes.len()
            invariant
                1 <= index,
                index <= total,
                total == (if ps.len() == 0 {
                    1
                } else {
                    ps.len()
                }),
                ps == self@.panes,
                self.pane_chain,
                spec_chain_tree(ps, index as nat) == Ok::<(crate::layout::Layout, usize), Seq<char>>(
                    (builder.layout_view(), builder.tail_view()),
                ),
            decreases self.panes.len() - index,
        {
            let split = match self.panes[index].split {
                Some(s) => s,
                None => {
                    let mut m: Vec<char> = Vec::new();
                    extend_str(&mut m, "pane chain entry ");
                    let d = crate::zellij::decimal_string_u64(index as u64);
                    extend_str(&mut m, d.as_str());
                    extend_str(&mut m, " is missing its split definition");
                    proof {
                        lemma_chain_tree_error(ps, (index + 1) as nat, total);
                    }
                    return Err(string_of(m.as_slice()));
                },
            };
            let direction = to_layout_direction(split.direction);
            builder = match builder.split_pane(index, direction, split.ratio) {
                Ok(b) => b,
                Err(e) => {
                    proof {
                        lemma_chain_tree_error(ps, (index + 1) as nat, total);
                    }
                    return Err(e.message());
                },
            };
            index += 1;
        }
        Ok(builder.build())
    }
}

proof fn lemma_chain_tree_error(ps: Seq<PaneView>, k: nat, total: nat)
    requires
        1 <= k <= total,
        spec_chain_tree(ps, k) is Err,
    ensures
        spec_chain_tree(ps, total) == spec_chain_tree(ps, k),
    decreases total - k,
{
    if k < total {
        lemma_chain_tree_error(ps, k + 1, total);
    }
}

fn named_layout(layout: &Option<String>, pane_count: usize) -> (r: Result<
    crate::layout::Layout,
    String,
>)
    requires
        pane_count > 0,
    ensures
        match r {
            Ok(l) => spec_named_layout(opt_str(*layout), pane_count as nat) == Ok::<
                crate::layout::Layout,
                Seq<char>,
            >(l),
            Err(m) => spec_named_layout(opt_str(*layout), pane_count as nat) == Err::<
                crate::layout::Layout,
                Seq<char>,
            >(m@),
        },
{
    let l: &String = match layout {
        None => {
            return match crate::layout::Layout::default_tiled(pane_count) {
                Ok(t) => Ok(t),
                Err(e) => Err(e.message()),
            };
        },
        Some(l) => l,
    };
    if l.as_str().is_empty() {
        return match crate::layout::Layout::default_tiled(pane_count) {
            Ok(t) => Ok(t),
            Err(e) => Err(e.message()),
        };
    }
    match crate::layout::LayoutPreset::parse(l.as_str()) {
        Ok(p) => {
            proof {
                let q = choose|q: crate::layout::LayoutPreset| crate::layout::preset_name(q) == l@;
                lemma_preset_name_unique(p, q);
            }
            return match p.build(pane_count) {
                Ok(t) => Ok(t),
                Err(e) => Err(e.message()),
            };
        },
        Err(_) => {},
    }
    assert(!exists|p: crate::layout::LayoutPreset| crate::layout::preset_name(p) == l@);
    serialized_layout(l.as_str(), pane_count)
}

fn serialized_layout(l: &str, pane_count: usize) -> (r: Result<crate::layout::Layout, String>)
    ensures
        match r {
            Ok(t) => spec_serialized_layout(l@, pane_count as nat) == Ok::<
                crate::layout::Layout,
                Seq<char>,
            >(t),
            Err(m) => spec_serialized_layout(l@, pane_count as nat) == Err::<
                crate::layout::Layout,
                Seq<char>,
            >(m@),
        },
{
    match crate::layout::parse_tmux_layout(l) {
        Err(e) => {
            let mut m: Vec<char> = Vec::new();
            extend_str(&mut m, "invalid tmux serialized layout `");
            extend_str(&mut m, l);
            extend_str(&mut m, "`: ");
            let t = e.to_string();
            extend_str(&mut m, t.as_str());
            proof {
                let (pos, msg) = crate::layout::spec_parse_tmux(vstd::utf8::encode_utf8(l@))->Err_0;
                assert(e.position_view() == pos);
                assert(m@ =~= "invalid tmux serialized layout `"@ + l@ + "`: "@ + (
                "invalid tmux layout at byte "@ + crate::zellij::decimal(pos as nat) + ": "@ + msg));
            }
            Err(string_of(m.as_slice()))
        },
        Ok(parsed) => {
            let ids = parsed.pane_indices();
            if ids.len() != pane_count {
                let mut m: Vec<char> = Vec::new();
                extend_str(&mut m, "tmux serialized layout contains ");
                let a = crate::zellij::decimal_string_u64(ids.len() as u64);
                extend_str(&mut m, a.as_str());
                extend_str(&mut m, " panes but ");
                let b = crate::zellij::decimal_string_u64(pane_count as u64);
                extend_str(&mut m, b.as_str());
                extend_str(&mut m, " panes are configured.");
                return Err(string_of(m.as_slice()));
            }
            assert forall|i: int| 0 <= i < crate::layout::layout_panes(parsed).len() implies ids@.contains(
                #[trigger] crate::layout::layout_panes(parsed)[i],
            ) by {
                assert(ids@[i] == crate::layout::layout_panes(parsed)[i]);
            }
            Ok(reindex_layout(&parsed, &ids))
        },
    }
}

proof fn lemma_preset_name_unique(p: crate::layout::LayoutPreset, q: crate::layout::LayoutPreset)
    requires
        crate::layout::preset_name(p) == crate::layout::preset_name(q),
    ensures
        p == q,
{
    reveal_strlit("tiled");
    reveal_strlit("even-horizontal");
    reveal_strlit("even-vertical");
    reveal_strlit("main-horizontal");
    reveal_strlit("main-vertical");
    if p != q {
        let a = crate::layout::preset_name(p);
        let b = crate::layout::preset_name(q);
        if a.len() == b.len() {
            assert(a[0] != b[0] || a[5] != b[5]);
        }
    }
}

} // verus!

verus! {

#[derive(Debug, Default, PartialEq)]
pub struct Hooks {
    pub start: Option<String>,
    pub first_start: Option<String>,
    pub restart: Option<String>,
    pub exit: Option<String>,
    pub stop: Option<String>,
}

pub struct HooksView {
    pub start: Option<Seq<char>>,
    pub first_start: Option<Seq<char>>,
    pub restart: Option<Seq<char>>,
    pub exit: Option<Seq<char>>,
    pub stop: Option<Seq<char>>,
}

impl View for Hooks {
    type V = HooksView;

    open spec fn view(&self) -> HooksView {
        HooksView {
            start: opt_str(self.start),
            first_start: opt_str(self.first_start),
            restart: opt_str(self.restart),
            exit: opt_str(self.exit),
            stop: opt_str(self.stop),
        }
    }
}

#[derive(Debug, PartialEq)]
pub struct ProjectSpec {
    pub source_path: String,
    pub name: String,
    pub root: String,
    pub attach: bool,
    pub append: bool,
    pub socket_name: Option<String>,
    pub socket_path: Option<String>,
    pub startup_window: usize,
    /// Explicit project-level pane selection. When omitted, the startup tab
    /// retains its own `focused_pane` selection.
    pub startup_pane: Option<usize>,
    pub pre_window: Option<String>,
    pub hooks: Hooks,
    pub windows: Vec<WindowSpec>,
    pub warnings: Vec<String>,
}

pub struct ProjectView {
    pub source_path: Seq<char>,
    pub name: Seq<char>,
    pub root: Seq<char>,
    pub attach: bool,
    pub append: bool,
    pub socket_name: Option<Seq<char>>,
    pub socket_path: Option<Seq<char>>,
    pub startup_window: nat,
    pub startup_pane: Option<nat>,
    pub pre_window: Option<Seq<char>>,
    pub hooks: HooksView,
    pub windows: Seq<WindowView>,
    pub warnings: Seq<Seq<char>>,
}

pub open spec fn windows_view(ws: Seq<WindowSpec>) -> Seq<WindowView> {
    ws.map_values(|w: WindowSpec| w@)
}

impl View for ProjectSpec {
    type V = ProjectView;

    open spec fn view(&self) -> ProjectView {
        ProjectView {
            source_path: self.source_path@,
            name: self.name@,
            root: self.root@,
            attach: self.attach,
            append: self.append,
            socket_name: opt_str(self.socket_name),
            socket_path: opt_str(self.socket_path),
            startup_window: self.startup_window as nat,
            startup_pane: match self.startup_pane {
                Some(p) => Some(p as nat),
                None => None,
            },
            pre_window: opt_str(self.pre_window),
            hooks: self.hooks@,
            windows: windows_view(self.windows@),
            warnings: strings_view(self.warnings@),
        }
    }
}

/// Forcing attachment and detachment at once is refused.
pub fn check_load_options(opts: &crate::project::LoadOptions) -> (r: Result<(), String>)
    ensures
        r is Ok <==> !(opts.force_attach && opts.force_detach),
        r matches Err(m) ==> m@ == "Cannot force_attach and force_detach at the same time"@,
{
    if opts.force_attach && opts.force_detach {
        return Err("Cannot force_attach and force_detach at the same time".to_owned());
    }
    Ok(())
}

/// The project name: the custom name when one is given, else `name` or
/// its alias `project_name`; it must not be empty.
pub open spec fn spec_project_name(yaml: Yaml, custom: Option<Seq<char>>) -> Option<Seq<char>> {
    let raw = match custom {
        Some(c) => Some(c),
        None => match yaml {
            Yaml::Mapping(m) => match crate::yaml_ext::last_aliased_scalar(
                m@,
                "name"@,
                seq!["project_name"],
            ) {
                Some(v) => spec_scalar(v),
                None => None,
            },
            _ => None,
        },
    };
    match raw {
        Some(n) => if n.len() > 0 {
            Some(n)
        } else {
            None
        },
        None => None,
    }
}

/// Reads the project name.
pub fn project_name(yaml: &Yaml, custom_name: Option<&str>) -> (r: Result<String, String>)
    ensures
        match r {
            Ok(n) => spec_project_name(*yaml, crate::herdr_backend::opt_view(custom_name)) == Some(n@),
            Err(m) => spec_project_name(*yaml, crate::herdr_backend::opt_view(custom_name)) is None
                && m@ == "Your project file didn't specify a 'project_name'"@,
        },
{
    let aliases: [&str; 1] = ["project_name"];
    let raw: Option<String> = match custom_name {
        Some(c) => Some(c.to_owned()),
        None => match crate::yaml_ext::get_aliased_scalar(yaml, "name", &aliases) {
            Some(v) => scalar_to_string(v),
            None => None,
        },
    };
    proof {
        assert(aliases@ == seq!["project_name"]);
    }
    match nonempty_string(raw) {
        Some(n) => Ok(n),
        None => Err("Your project file didn't specify a 'project_name'".to_owned()),
    }
}

/// The project root before it is resolved on disk: `root` or its alias
/// `project_root`, expanded against the working directory, else the
/// working directory.
pub open spec fn spec_project_root(yaml: Yaml, env: crate::env::Env) -> Seq<char> {
    let raw = match yaml {
        Yaml::Mapping(m) => match crate::yaml_ext::last_aliased_scalar(m@, "root"@, seq!["project_root"]) {
            Some(v) => spec_scalar(v),
            None => None,
        },
        _ => None,
    };
    match raw {
        Some(r) => if r.len() > 0 {
            crate::util::spec_expand_path(r, env.cwd@, env.home@)
        } else {
            env.cwd@
        },
        None => env.cwd@,
    }
}

/// Reads the project root.
pub fn project_root(yaml: &Yaml, env: &crate::env::Env) -> (r: String)
    ensures
        r@ == spec_project_root(*yaml, *env),
{
    let aliases: [&str; 1] = ["project_root"];
    let raw: Option<String> = match crate::yaml_ext::get_aliased_scalar(yaml, "root", &aliases) {
        Some(v) => scalar_to_string(v),
        None => None,
    };
    proof {
        assert(aliases@ == seq!["project_root"]);
    }
    match nonempty_string(raw) {
        Some(r) => crate::util::expand_path(r.as_str(), env.cwd.as_str(), env.home.as_str()),
        None => env.cwd.clone(),
    }
}

} // verus!

verus! {

pub open spec fn tmux_key_warning(key: Seq<char>, b: crate::settings::Backend) -> Seq<char> {
    seq!['`'] + key + "` is tmux-specific and is ignored by the "@
        + crate::settings::spec_backend_display_name(b) + " backend."@
}

pub open spec fn border_warning(key: Seq<char>, b: crate::settings::Backend) -> Seq<char> {
    seq!['`'] + key + "` only controls tmux pane borders and is ignored by "@
        + crate::settings::spec_backend_display_name(b) + "."@
}

pub open spec fn endpoint_warning(key: Seq<char>) -> Seq<char> {
    seq!['`'] + key + "` selects a tmux or Herdr endpoint and is ignored by zellij."@
}

pub open spec fn warn_if(yaml: Yaml, key: Seq<char>, w: Seq<char>) -> Seq<Seq<char>> {
    if spec_truthy(spec_get(yaml, key)) {
        seq![w]
    } else {
        seq![]
    }
}

/// The warnings about project settings that the backend ignores.
pub open spec fn spec_static_warnings(yaml: Yaml, b: crate::settings::Backend) -> Seq<Seq<char>> {
    warn_if(yaml, "tmux_options"@, tmux_key_warning("tmux_options"@, b)) + warn_if(
        yaml,
        "cli_args"@,
        tmux_key_warning("cli_args"@, b),
    ) + warn_if(yaml, "tmux_command"@, tmux_key_warning("tmux_command"@, b)) + warn_if(
        yaml,
        "enable_pane_titles"@,
        border_warning("enable_pane_titles"@, b),
    ) + warn_if(yaml, "pane_title_position"@, border_warning("pane_title_position"@, b)) + warn_if(
        yaml,
        "pane_title_format"@,
        border_warning("pane_title_format"@, b),
    ) + if b == crate::settings::Backend::Zellij {
        warn_if(yaml, "socket_name"@, endpoint_warning("socket_name"@)) + warn_if(
            yaml,
            "socket_path"@,
            endpoint_warning("socket_path"@),
        )
    } else {
        seq![]
    }
}

/// The windows of the entries, in order, with their warnings; the first
/// failing entry reports.
pub open spec fn spec_windows(
    entries: Seq<Yaml>,
    root: Seq<char>,
    home: Seq<char>,
    b: crate::settings::Backend,
) -> Result<(Seq<WindowView>, Seq<Seq<char>>), Seq<char>>
    decreases entries.len(),
{
    if entries.len() == 0 {
        Ok((seq![], seq![]))
    } else {
        match spec_windows(entries.drop_last(), root, home, b) {
            Err(e) => Err(e),
            Ok((ws, warns)) => match spec_build_window(entries.last(), root, home, b) {
                Err(e) => Err(e),
                Ok((w, wn)) => Ok(
                    (
                        ws.push(w),
                        warns + match wn {
                            Some(x) => seq![x],
                            None => seq![],
                        },
                    ),
                ),
            },
        }
    }
}

pub open spec fn window_names(ws: Seq<WindowView>) -> Seq<Option<Seq<char>>> {
    ws.map_values(|w: WindowView| w.name)
}

/// The window entries: `windows` or its alias `tabs`, when non-empty.
pub open spec fn window_entries(yaml: Yaml) -> Seq<Yaml> {
    match yaml {
        Yaml::Mapping(m) => match crate::yaml_ext::last_aliased_sequence(m@, "windows"@, seq!["tabs"]) {
            Some(s) => s,
            None => seq![],
        },
        _ => seq![],
    }
}

pub open spec fn spec_hooks(yaml: Yaml) -> HooksView {
    HooksView {
        start: spec_join_or_string(spec_get(yaml, "on_project_start"@), "; "@),
        first_start: spec_join_or_string(spec_get(yaml, "on_project_first_start"@), "; "@),
        restart: spec_join_or_string(spec_get(yaml, "on_project_restart"@), "; "@),
        exit: spec_join_or_string(spec_get(yaml, "on_project_exit"@), "; "@),
        stop: spec_join_or_string(spec_get(yaml, "on_project_stop"@), "; "@),
    }
}

/// The project a parsed document describes, given its resolved source path,
/// name and root. Window roots are returned as written (expanded, not yet
/// resolved on disk).
pub open spec fn spec_from_yaml(
    source_path: Seq<char>,
    yaml: Yaml,
    name: Seq<char>,
    root: Seq<char>,
    opts: crate::project::LoadOptions,
    env: crate::env::Env,
    b: crate::settings::Backend,
) -> Result<ProjectView, Seq<char>> {
    let entries = window_entries(yaml);
    if entries.len() == 0 {
        Err("Your project file should include some windows."@)
    } else {
        match spec_windows(entries, root, env.home@, b) {
            Err(e) => Err(e),
            Ok((ws, window_warnings)) => match spec_resolve(
                spec_get(yaml, "startup_window"@),
                window_names(ws),
                "startup_window"@,
                "window"@,
            ) {
                Err(e) => Err(e),
                Ok(sw) => {
                    let sp_value = spec_get(yaml, "startup_pane"@);
                    let sp = if spec_truthy(sp_value) {
                        spec_resolve(
                            sp_value,
                            view_titles(spec_effective(ws[sw as int].panes, ws[sw as int].commands)),
                            "startup_pane"@,
                            "pane"@,
                        )
                    } else {
                        Ok(0)
                    };
                    match sp {
                        Err(e) => Err(e),
                        Ok(p) => Ok(
                            ProjectView {
                                source_path,
                                name,
                                root,
                                attach: opts.force_attach || (!opts.force_detach
                                    && crate::yaml_ext::spec_mux_attach(spec_get(yaml, "attach"@))),
                                append: opts.append,
                                socket_name: nonempty_scalar(spec_get(yaml, "socket_name"@)),
                                socket_path: nonempty_scalar(spec_get(yaml, "socket_path"@)),
                                startup_window: sw,
                                startup_pane: if spec_truthy(sp_value) {
                                    Some(p)
                                } else {
                                    None
                                },
                                pre_window: if opts.no_pre_window {
                                    None
                                } else {
                                    spec_join_or_string(spec_get(yaml, "pre_window"@), "; "@)
                                },
                                hooks: spec_hooks(yaml),
                                windows: ws,
                                warnings: spec_static_warnings(yaml, b) + window_warnings,
                            },
                        ),
                    }
                },
            },
        }
    }
}

fn warn_if_set(yaml: &Yaml, key: &str, warning: String, warnings: &mut Vec<String>)
    ensures
        strings_view(final(warnings)@) == strings_view(old(warnings)@) + warn_if(
            *yaml,
            key@,
            warning@,
        ),
{
    let ghost before = warnings@;
    if truthy(get(yaml, key)) {
        warnings.push(warning);
        assert(strings_view(warnings@) =~= strings_view(before) + seq![warning@]);
    } else {
        assert(strings_view(warnings@) =~= strings_view(before) + Seq::<Seq<char>>::empty());
    }
}

fn warning_text(key: &str, middle: &str, backend_name: &str, end: &str) -> (r: String)
    ensures
        r@ == seq!['`'] + key@ + middle@ + backend_name@ + end@,
{
    let mut m: Vec<char> = Vec::new();
    m.push('`');
    extend_str(&mut m, key);
    extend_str(&mut m, middle);
    extend_str(&mut m, backend_name);
    extend_str(&mut m, end);
    string_of(m.as_slice())
}

fn static_warnings(yaml: &Yaml, backend: crate::settings::Backend) -> (r: Vec<String>)
    ensures
        strings_view(r@) == spec_static_warnings(*yaml, backend),
{
    let mut warnings: Vec<String> = Vec::new();
    let name = backend.display_name();
    warn_if_set(
        yaml,
        "tmux_options",
        warning_text("tmux_options", "` is tmux-specific and is ignored by the ", name, " backend."),
        &mut warnings,
    );
    warn_if_set(
        yaml,
        "cli_args",
        warning_text("cli_args", "` is tmux-specific and is ignored by the ", name, " backend."),
        &mut warnings,
    );
    warn_if_set(
        yaml,
        "tmux_command",
        warning_text("tmux_command", "` is tmux-specific and is ignored by the ", name, " backend."),
        &mut warnings,
    );
    warn_if_set(
        yaml,
        "enable_pane_titles",
        warning_text("enable_pane_titles", "` only controls tmux pane borders and is ignored by ", name, "."),
        &mut warnings,
    );
    warn_if_set(
        yaml,
        "pane_title_position",
        warning_text("pane_title_position", "` only controls tmux pane borders and is ignored by ", name, "."),
        &mut warnings,
    );
    warn_if_set(
        yaml,
        "pane_title_format",
        warning_text("pane_title_format", "` only controls tmux pane borders and is ignored by ", name, "."),
        &mut warnings,
    );
    let zellij = match backend {
        crate::settings::Backend::Zellij => true,
        _ => false,
    };
    if zellij {
        warn_if_set(
            yaml,
            "socket_name",
            warning_text("socket_name", "` selects a tmux or Herdr endpoint and is ignored by zellij.", "", ""),
            &mut warnings,
        );
        warn_if_set(
            yaml,
            "socket_path",
            warning_text("socket_path", "` selects a tmux or Herdr endpoint and is ignored by zellij.", "", ""),
            &mut warnings,
        );
    }
    proof {
        reveal_strlit("");
        assert(""@ =~= Seq::<char>::empty());
    }
    assert(strings_view(warnings@) =~= spec_static_warnings(*yaml, backend));
    warnings
}

} // verus!

verus! {

proof fn lemma_windows_prefix_error(
    entries: Seq<Yaml>,
    n: nat,
    root: Seq<char>,
    home: Seq<char>,
    b: crate::settings::Backend,
)
    requires
        n <= entries.len(),
        spec_windows(entries.take(n as int), root, home, b) is Err,
    ensures
        spec_windows(entries, root, home, b) == spec_windows(entries.take(n as int), root, home, b),
    decreases entries.len() - n,
{
    if n < entries.len() {
        assert(entries.take((n + 1) as int).drop_last() == entries.take(n as int));
        lemma_windows_prefix_error(entries, n + 1, root, home, b);
    } else {
        assert(entries.take(n as int) == entries);
    }
}

proof fn lemma_first_named_bound(names: Seq<Option<Seq<char>>>, wanted: Seq<char>)
    ensures
        first_named(names, wanted) matches Some(i) ==> i < names.len(),
    decreases names.len(),
{
    if names.len() > 0 && names[0] != Some(wanted) {
        lemma_first_named_bound(names.drop_first(), wanted);
    }
}

proof fn lemma_resolve_bound(v: Option<Yaml>, names: Seq<Option<Seq<char>>>, field: Seq<char>, kind: Seq<char>)
    requires
        names.len() > 0,
    ensures
        spec_resolve(v, names, field, kind) matches Ok(i) ==> i < names.len(),
{
    if spec_truthy(v) {
        let x = v.unwrap();
        let wanted = match spec_scalar(x) {
            Some(s) => s,
            None => seq![],
        };
        lemma_first_named_bound(names, wanted);
    }
}

proof fn lemma_windows_len(entries: Seq<Yaml>, root: Seq<char>, home: Seq<char>, b: crate::settings::Backend)
    ensures
        spec_windows(entries, root, home, b) matches Ok((ws, _)) ==> ws.len() == entries.len(),
    decreases entries.len(),
{
    if entries.len() > 0 {
        lemma_windows_len(entries.drop_last(), root, home, b);
    }
}

fn build_windows(entries: &Vec<Yaml>, root: &str, home: &str, backend: crate::settings::Backend) -> (r:
    Result<(Vec<WindowSpec>, Vec<String>), String>)
    ensures
        match r {
            Ok((ws, warns)) => spec_windows(entries@, root@, home@, backend) == Ok::<
                (Seq<WindowView>, Seq<Seq<char>>),
                Seq<char>,
            >((windows_view(ws@), strings_view(warns@))),
            Err(m) => spec_windows(entries@, root@, home@, backend) == Err::<
                (Seq<WindowView>, Seq<Seq<char>>),
                Seq<char>,
            >(m@),
        },
{
    let mut windows: Vec<WindowSpec> = Vec::new();
    let mut warnings: Vec<String> = Vec::new();
    let mut i: usize = 0;
    assert(entries@.take(0) =~= Seq::<Yaml>::empty());
    assert(windows_view(windows@) =~= Seq::<WindowView>::empty());
    assert(strings_view(warnings@) =~= Seq::<Seq<char>>::empty());
    while i < entries.len()
        invariant
            i <= entries@.len(),
            spec_windows(entries@.take(i as int), root@, home@, backend) == Ok::<
                (Seq<WindowView>, Seq<Seq<char>>),
                Seq<char>,
            >((windows_view(windows@), strings_view(warnings@))),
        decreases entries.len() - i,
    {
        assert(entries@.take(i + 1).drop_last() == entries@.take(i as int));
        assert(entries@.take(i + 1).last() == entries@[i as int]);
        match build_window(&entries[i], root, home, backend) {
            Err(e) => {
                proof {
                    lemma_windows_prefix_error(entries@, (i + 1) as nat, root@, home@, backend);
                }
                return Err(e);
            },
            Ok((w, warning)) => {
                let ghost wb = windows@;
                let ghost before = warnings@;
                windows.push(w);
                assert(windows_view(windows@) =~= windows_view(wb).push(w@));
                match warning {
                    Some(x) => {
                        warnings.push(x);
                        assert(strings_view(warnings@) =~= strings_view(before) + seq![x@]);
                    },
                    None => {
                        assert(strings_view(warnings@) =~= strings_view(before) + Seq::<Seq<char>>::empty());
                    },
                }
            },
        }
        i += 1;
    }
    assert(entries@.take(entries@.len() as int) == entries@);
    Ok((windows, warnings))
}

fn window_name_list(windows: &Vec<WindowSpec>) -> (r: Vec<Option<String>>)
    ensures
        r@.map_values(|o: Option<String>| opt_str(o)) == window_names(windows_view(windows@)),
{
    let mut names: Vec<Option<String>> = Vec::new();
    let mut k: usize = 0;
    while k < windows.len()
        invariant
            k <= windows@.len(),
            names@.map_values(|o: Option<String>| opt_str(o)) == window_names(
                windows_view(windows@).take(k as int),
            ),
        decreases windows.len() - k,
    {
        let ghost nb = names@;
        let c = clone_opt_string(&windows[k].name);
        names.push(c);
        assert(names@ == nb.push(c));
        assert(names@.map_values(|o: Option<String>| opt_str(o)) =~= nb.map_values(
            |o: Option<String>| opt_str(o),
        ).push(opt_str(c)));
        assert(windows_view(windows@).take(k + 1) =~= windows_view(windows@).take(k as int).push(
            windows@[k as int]@,
        ));
        assert(window_names(windows_view(windows@).take(k + 1)) =~= window_names(
            windows_view(windows@).take(k as int),
        ).push(opt_str(windows@[k as int].name)));
        k += 1;
    }
    assert(windows_view(windows@).take(windows@.len() as int) == windows_view(windows@));
    names
}

fn hooks_of(yaml: &Yaml) -> (r: Hooks)
    ensures
        r@ == spec_hooks(*yaml),
{
    Hooks {
        start: join_or_string(get(yaml, crate::project::HOOK_ON_PROJECT_START), "; "),
        first_start: join_or_string(get(yaml, crate::project::HOOK_ON_PROJECT_FIRST_START), "; "),
        restart: join_or_string(get(yaml, crate::project::HOOK_ON_PROJECT_RESTART), "; "),
        exit: join_or_string(get(yaml, crate::project::HOOK_ON_PROJECT_EXIT), "; "),
        stop: join_or_string(get(yaml, crate::project::HOOK_ON_PROJECT_STOP), "; "),
    }
}

impl ProjectSpec {
    /// The project a parsed document describes. `source_path` and `root`
    /// are already resolved; window roots come back expanded but not yet
    /// resolved on disk.
    pub fn from_yaml(
        source_path: String,
        yaml: &Yaml,
        name: String,
        root: String,
        opts: &crate::project::LoadOptions,
        env: &crate::env::Env,
        backend: crate::settings::Backend,
    ) -> (r: Result<ProjectSpec, String>)
        ensures
            match r {
                Ok(p) => spec_from_yaml(source_path@, *yaml, name@, root@, *opts, *env, backend)
                    == Ok::<ProjectView, Seq<char>>(p@),
                Err(m) => spec_from_yaml(source_path@, *yaml, name@, root@, *opts, *env, backend)
                    == Err::<ProjectView, Seq<char>>(m@),
            },
    {
        let aliases: [&str; 1] = ["tabs"];
        let entries: &Vec<Yaml> = match crate::yaml_ext::get_aliased_nonempty_sequence(
            yaml,
            "windows",
            &aliases,
        ) {
            Some(e) => e,
            None => {
                proof {
                    assert(aliases@ == seq!["tabs"]);
                }
                return Err("Your project file should include some windows.".to_owned());
            },
        };
        proof {
            assert(aliases@ == seq!["tabs"]);
            assert(entries@ == window_entries(*yaml));
            if let Yaml::Mapping(m) = yaml {
                crate::yaml_ext::lemma_last_aliased_sequence_nonempty(m@, "windows"@, aliases@);
            }
            assert(entries@.len() > 0);
        }
        let mut warnings = static_warnings(yaml, backend);
        let (windows, window_warnings) = match build_windows(
            entries,
            root.as_str(),
            env.home.as_str(),
            backend,
        ) {
            Ok(p) => p,
            Err(e) => {
                return Err(e);
            },
        };
        let ghost sw_part = strings_view(warnings@);
        let mut j: usize = 0;
        while j < window_warnings.len()
            invariant
                j <= window_warnings@.len(),
                strings_view(warnings@) == sw_part + strings_view(window_warnings@).take(j as int),
            decreases window_warnings.len() - j,
        {
            let ghost before = warnings@;
            warnings.push(window_warnings[j].clone());
            assert(strings_view(window_warnings@).take(j + 1) =~= strings_view(window_warnings@).take(
                j as int,
            ).push(window_warnings@[j as int]@));
            assert(strings_view(warnings@) =~= strings_view(before).push(window_warnings@[j as int]@));
            j += 1;
        }
        assert(strings_view(window_warnings@).take(window_warnings@.len() as int) == strings_view(
            window_warnings@,
        ));
        let names = window_name_list(&windows);
        let sw_value = get(yaml, "startup_window");
        proof {
            lemma_windows_len(entries@, root@, env.home@, backend);
            lemma_resolve_bound(
                opt_yaml(sw_value),
                window_names(windows_view(windows@)),
                "startup_window"@,
                "window"@,
            );
        }
        let startup_window = match resolve_by_names(sw_value, &names, "startup_window", "window") {
            Ok(w) => w,
            Err(e) => {
                return Err(e);
            },
        };
        let sp_value = get(yaml, "startup_pane");
        let startup_pane: Option<usize> = if truthy(sp_value) {
            let effective = windows[startup_window].effective_panes();
            assert(pane_titles(effective@) =~= view_titles(panes_view(effective@)));
            match resolve_pane(sp_value, &effective, "startup_pane") {
                Ok(p) => Some(p),
                Err(e) => {
                    return Err(e);
                },
            }
        } else {
            None
        };
        let attach = opts.force_attach || (!opts.force_detach && crate::yaml_ext::mux_attach(
            get(yaml, "attach"),
        ));
        let socket_name = nonempty_string(get_string(yaml, "socket_name"));
        let socket_path = nonempty_string(get_string(yaml, "socket_path"));
        let pre_window = if opts.no_pre_window {
            None
        } else {
            join_or_string(get(yaml, "pre_window"), "; ")
        };
        let hooks = hooks_of(yaml);
        Ok(
            ProjectSpec {
                source_path,
                name,
                root,
                attach,
                append: opts.append,
                socket_name,
                socket_path,
                startup_window,
                startup_pane,
                pre_window,
                hooks,
                windows,
                warnings,
            },
        )
    }
}

} // verus!

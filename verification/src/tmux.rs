//! tmux itself: which releases bootmux supports, and what a tmux project is
//! loaded with from the running server.

use vstd::prelude::*;
use crate::env::Env;
use crate::project_spec::{pow10, lemma_pow10_positive, lemma_dec_value_bound};
use crate::text::{
    all_digits, chars_of, dec_value, find_char, find_char_index, is_digit, is_ws, is_ws_char,
    lemma_find_char, parse_decimal, parse_unsigned, split_once, string_of,
};
use crate::zellij::{decimal, signed_decimal};

verus! {

/// The oldest tmux release bootmux supports.
pub const MINIMUM_SUPPORTED_VERSION: &'static str = "2.6";

pub const UNSUPPORTED_VERSION_MSG: &'static str =
    "WARNING: You are running bootmux with an unsupported version of tmux.\nPlease consider using a supported version (tmux >= 2.6).";

/// A tmux release as `tmux -V` reports it.
#[derive(Clone, Debug, PartialEq, Eq)]
pub enum TmuxVersion {
    /// A development build.
    Master,
    /// A release number: its digits up to the minor part, as printed
    /// (`3.2` for `3.2a`).
    Numeric(String),
}

pub enum TmuxVersionView {
    Master,
    Numeric(Seq<char>),
}

impl View for TmuxVersion {
    type V = TmuxVersionView;

    open spec fn view(&self) -> TmuxVersionView {
        match self {
            TmuxVersion::Master => TmuxVersionView::Master,
            TmuxVersion::Numeric(t) => TmuxVersionView::Numeric(t@),
        }
    }
}

/// The number of leading characters of `s` that are whitespace (`ws`) or
/// that are not (`!ws`).
pub open spec fn ws_run(s: Seq<char>, ws: bool) -> nat
    decreases s.len(),
{
    if s.len() > 0 && is_ws(s[0]) == ws {
        1 + ws_run(s.drop_first(), ws)
    } else {
        0
    }
}

/// The second whitespace-separated word of `s`.
pub open spec fn second_word(s: Seq<char>) -> Option<Seq<char>> {
    let r1 = s.skip(ws_run(s, true) as int);
    let r2 = r1.skip(ws_run(r1, false) as int);
    let r3 = r2.skip(ws_run(r2, true) as int);
    let w = r3.take(ws_run(r3, false) as int);
    if w.len() == 0 {
        None
    } else {
        Some(w)
    }
}

/// The number of leading characters of `s` that are not ASCII digits.
pub open spec fn non_digit_run(s: Seq<char>) -> nat
    decreases s.len(),
{
    if s.len() > 0 && !is_digit(s[0]) {
        1 + non_digit_run(s.drop_first())
    } else {
        0
    }
}

/// The number of leading characters of `s` that are ASCII digits or dots.
pub open spec fn digit_dot_run(s: Seq<char>) -> nat
    decreases s.len(),
{
    if s.len() > 0 && (is_digit(s[0]) || s[0] == '.') {
        1 + digit_dot_run(s.drop_first())
    } else {
        0
    }
}

/// The first run of digits and dots in a word, from its first digit on.
pub open spec fn version_digits(w: Seq<char>) -> Seq<char> {
    let r = w.skip(non_digit_run(w) as int);
    r.take(digit_dot_run(r) as int)
}

/// `major` or `major.minor` of dotted digits: what follows a second dot is
/// dropped.
pub open spec fn numeric_part(d: Seq<char>) -> Seq<char> {
    let i = find_char(d, '.');
    if i == d.len() {
        d
    } else {
        let rest = d.skip(i + 1int);
        d.take(i + 1int) + rest.take(find_char(rest, '.') as int)
    }
}

/// The release that the output of `tmux -V` names: its second word,
/// `master` for a development build, or else the digits in it (a suffix
/// letter or a prefix such as `next-` is dropped).
pub open spec fn spec_parse_version(out: Seq<char>) -> Option<TmuxVersionView> {
    match second_word(out) {
        None => None,
        Some(w) => if w == "master"@ {
            Some(TmuxVersionView::Master)
        } else {
            let d = version_digits(w);
            if d.len() == 0 {
                None
            } else {
                Some(TmuxVersionView::Numeric(numeric_part(d)))
            }
        },
    }
}

/// A release number from 2.6 on: the text is `major` or `major.minor` in
/// decimal digits, and its value is at least 2.6.
pub open spec fn at_least_2_6(t: Seq<char>) -> bool {
    let (major, minor) = match split_once(t, '.') {
        Some((a, b)) => (a, b),
        None => (t, seq![]),
    };
    major.len() > 0 && all_digits(major) && all_digits(minor) && 10 * dec_value(major + minor) >= 26
        * pow10(minor.len())
}

pub open spec fn spec_version_supported(v: TmuxVersionView) -> bool {
    match v {
        TmuxVersionView::Master => true,
        TmuxVersionView::Numeric(t) => at_least_2_6(t),
    }
}

proof fn lemma_ws_run_step(s: Seq<char>, i: int, ws: bool)
    requires
        0 <= i < s.len(),
        is_ws(s[i]) == ws,
    ensures
        ws_run(s.skip(i), ws) == 1 + ws_run(s.skip(i + 1), ws),
{
    assert(s.skip(i).drop_first() == s.skip(i + 1));
}

/// The index past the run of whitespace (`ws`) or non-whitespace (`!ws`)
/// characters that starts at `i`.
fn skip_run(v: &[char], i: usize, ws: bool) -> (r: usize)
    requires
        i <= v@.len(),
    ensures
        i <= r <= v@.len(),
        r == i + ws_run(v@.skip(i as int), ws),
        v@.skip(i as int).take(ws_run(v@.skip(i as int), ws) as int) == v@.subrange(i as int, r as int),
{
    let n = v.len();
    let mut j: usize = i;
    while j < n && is_ws_char(v[j]) == ws
        invariant
            i <= j <= n,
            n == v@.len(),
            ws_run(v@.skip(i as int), ws) == (j - i) + ws_run(v@.skip(j as int), ws),
        decreases n - j,
    {
        proof {
            lemma_ws_run_step(v@, j as int, ws);
        }
        j += 1;
    }
    assert(ws_run(v@.skip(j as int), ws) == 0);
    assert(v@.skip(i as int).take(ws_run(v@.skip(i as int), ws) as int) =~= v@.subrange(
        i as int,
        j as int,
    ));
    j
}

fn skip_non_digits(v: &[char]) -> (r: usize)
    ensures
        r == non_digit_run(v@),
        r <= v@.len(),
{
    let n = v.len();
    let mut j: usize = 0;
    assert(v@.skip(0) == v@);
    while j < n && !('0' <= v[j] && v[j] <= '9')
        invariant
            j <= n,
            n == v@.len(),
            non_digit_run(v@) == j + non_digit_run(v@.skip(j as int)),
        decreases n - j,
    {
        assert(v@.skip(j as int).drop_first() == v@.skip(j + 1));
        j += 1;
    }
    j
}

fn take_digits_dots(v: &[char], i: usize) -> (r: usize)
    requires
        i <= v@.len(),
    ensures
        i <= r <= v@.len(),
        r == i + digit_dot_run(v@.skip(i as int)),
{
    let n = v.len();
    let mut j: usize = i;
    while j < n && (('0' <= v[j] && v[j] <= '9') || v[j] == '.')
        invariant
            i <= j <= n,
            n == v@.len(),
            digit_dot_run(v@.skip(i as int)) == (j - i) + digit_dot_run(v@.skip(j as int)),
        decreases n - j,
    {
        assert(v@.skip(j as int).drop_first() == v@.skip(j + 1));
        j += 1;
    }
    j
}

/// Whether `s` is the word `master`.
fn is_master(s: &[char]) -> (r: bool)
    ensures
        r == (s@ == "master"@),
{
    proof {
        reveal_strlit("master");
    }
    let r = s.len() == 6 && s[0] == 'm' && s[1] == 'a' && s[2] == 's' && s[3] == 't' && s[4] == 'e'
        && s[5] == 'r';
    if r {
        assert(s@ =~= "master"@);
    }
    r
}

/// Digits without their leading zeros, as an index range.
fn leading_zeros(v: &[char], a: usize, b: usize) -> (r: usize)
    requires
        a <= b <= v@.len(),
    ensures
        a <= r <= b,
        forall|k: int| a <= k < r ==> v@[k] == '0',
        r < b ==> v@[r as int] != '0',
{
    let mut j: usize = a;
    while j < b && v[j] == '0'
        invariant
            a <= j <= b,
            b <= v@.len(),
            forall|k: int| a <= k < j ==> v@[k] == '0',
        decreases b - j,
    {
        j += 1;
    }
    j
}

proof fn lemma_dec_concat(a: Seq<char>, b: Seq<char>)
    ensures
        dec_value(a + b) == dec_value(a) * pow10(b.len()) + dec_value(b),
    decreases b.len(),
{
    if b.len() == 0 {
        assert(a + b == a);
        assert(pow10(0) == 1);
        assert(dec_value(b) == 0);
    } else {
        lemma_dec_concat(a, b.drop_last());
        assert((a + b).drop_last() == a + b.drop_last());
        assert((a + b).last() == b.last());
        let p = pow10((b.len() - 1) as nat);
        assert(pow10(b.len()) == 10 * p);
        let x = dec_value(a);
        let y = dec_value(b.drop_last());
        let g: int = (((b.last() as int) - 48) as nat) as int;
        assert(dec_value(a + b) == (x * p + y) * 10 + g);
        assert(dec_value(b) == y * 10 + g);
        assert((x * p + y) * 10 + g == x * (10 * p) + (y * 10 + g)) by (nonlinear_arith);
        assert(dec_value(a + b) == x * pow10(b.len()) + dec_value(b));
    }
}

proof fn lemma_dec_leading_zeros(s: Seq<char>, z: int)
    requires
        0 <= z <= s.len(),
        forall|k: int| 0 <= k < z ==> s[k] == '0',
    ensures
        dec_value(s) == dec_value(s.skip(z)),
{
    let zs = s.take(z);
    assert(s == zs + s.skip(z));
    lemma_dec_concat(zs, s.skip(z));
    lemma_dec_zeros(zs);
}

proof fn lemma_dec_zeros(s: Seq<char>)
    requires
        forall|k: int| 0 <= k < s.len() ==> s[k] == '0',
    ensures
        dec_value(s) == 0,
    decreases s.len(),
{
    if s.len() > 0 {
        lemma_dec_zeros(s.drop_last());
        assert(s.last() == '0');
    }
}

/// A digit string whose first digit is `d` is `d` times a power of ten
/// plus less than that power.
proof fn lemma_dec_first_digit(s: Seq<char>)
    requires
        s.len() > 0,
        all_digits(s),
    ensures
        dec_value(s) == ((s[0] as int) - 48) * pow10((s.len() - 1) as nat) + dec_value(s.drop_first()),
        dec_value(s.drop_first()) < pow10((s.len() - 1) as nat),
{
    let head = s.take(1);
    assert(s == head + s.drop_first());
    lemma_dec_concat(head, s.drop_first());
    assert(head.drop_last() =~= Seq::<char>::empty());
    assert(dec_value(head.drop_last()) == 0);
    assert(is_digit(s[0]));
    assert(dec_value(head) == (s[0] as int) - 48);
    assert(all_digits(s.drop_first())) by {
        assert forall|k: int| 0 <= k < s.drop_first().len() implies is_digit(
            #[trigger] s.drop_first()[k],
        ) by {
            assert(s.drop_first()[k] == s[k + 1]);
        }
    }
    lemma_dec_value_bound(s.drop_first());
}

impl TmuxVersion {
    /// Whether bootmux supports this release: development builds and
    /// releases from 2.6 on.
    pub fn supported(&self) -> (r: bool)
        ensures
            r == spec_version_supported(self@),
    {
        match self {
            TmuxVersion::Master => true,
            TmuxVersion::Numeric(t) => numeric_at_least_2_6(t.as_str()),
        }
    }

    /// Reads the output of `tmux -V`.
    pub fn parse(tmux_v_output: &str) -> (r: Option<TmuxVersion>)
        ensures
            match r {
                Some(v) => spec_parse_version(tmux_v_output@) == Some(v@),
                None => spec_parse_version(tmux_v_output@) is None,
            },
    {
        let v = chars_of(tmux_v_output);
        let word = match second_word_of(v.as_slice()) {
            Some(w) => w,
            None => {
                return None;
            },
        };
        if is_master(word.as_slice()) {
            return Some(TmuxVersion::Master);
        }
        let start = skip_non_digits(word.as_slice());
        let end = take_digits_dots(word.as_slice(), start);
        if end == start {
            return None;
        }
        let digits: Vec<char> = crate::text::slice_chars(word.as_slice(), start, end);
        assert(digits@ =~= version_digits(word@));
        Some(TmuxVersion::Numeric(string_of(numeric_part_of(digits.as_slice()).as_slice())))
    }
}

/// The second whitespace-separated word.
fn second_word_of(v: &[char]) -> (r: Option<Vec<char>>)
    ensures
        match r {
            Some(w) => second_word(v@) == Some(w@),
            None => second_word(v@) is None,
        },
{
    let ghost s = v@;
    let a = skip_run(v, 0, true);
    assert(s.skip(0) == s);
    let b = skip_run(v, a, false);
    assert(s.skip(a as int).skip(ws_run(s.skip(a as int), false) as int) == s.skip(b as int));
    let c = skip_run(v, b, true);
    assert(s.skip(b as int).skip(ws_run(s.skip(b as int), true) as int) == s.skip(c as int));
    let e = skip_run(v, c, false);
    if e == c {
        return None;
    }
    let word: Vec<char> = crate::text::slice_chars(v, c, e);
    Some(word)
}

/// `numeric_part` computed.
fn numeric_part_of(digits: &[char]) -> (r: Vec<char>)
    ensures
        r@ == numeric_part(digits@),
{
    let i = find_char_index(digits, '.');
    proof {
        lemma_find_char(digits@, '.');
    }
    if i == digits.len() {
        return crate::text::slice_chars(digits, 0, i);
    }
    let rest: Vec<char> = crate::text::slice_chars(digits, i + 1, digits.len());
    assert(rest@ =~= digits@.skip(i + 1));
    let j = find_char_index(rest.as_slice(), '.');
    proof {
        lemma_find_char(rest@, '.');
    }
    let mut out: Vec<char> = crate::text::slice_chars(digits, 0, i + 1);
    let minor: Vec<char> = crate::text::slice_chars(rest.as_slice(), 0, j);
    crate::text::extend_chars(&mut out, minor.as_slice());
    assert(out@ =~= numeric_part(digits@));
    out
}

/// Whether `t` is a release number from 2.6 on.
fn numeric_at_least_2_6(t: &str) -> (r: bool)
    ensures
        r == at_least_2_6(t@),
{
    let v = chars_of(t);
    let n = v.len();
    let i = find_char_index(v.as_slice(), '.');
    proof {
        lemma_find_char(v@, '.');
    }
    let minor_start: usize = if i < n {
        i + 1
    } else {
        n
    };
    let ghost major = v@.subrange(0, i as int);
    let ghost minor = v@.subrange(minor_start as int, n as int);
    assert(match split_once(v@, '.') {
        Some((a, b)) => a == major && b == minor,
        None => major == v@ && minor == Seq::<char>::empty(),
    });
    if i == 0 || !crate::project_spec::all_digit_chars(crate::text::slice_chars(v.as_slice(), 0, i).as_slice())
        || !crate::project_spec::all_digit_chars(
        crate::text::slice_chars(v.as_slice(), minor_start, n).as_slice(),
    ) {
        return false;
    }
    proof {
        lemma_dec_concat(major, minor);
        lemma_dec_value_bound(minor);
        lemma_pow10_positive(minor.len());
    }
    let ghost big_m = dec_value(major);
    let ghost f = dec_value(minor);
    let ghost d = pow10(minor.len());
    assert(dec_value(major + minor) == big_m * d + f);
    let z = leading_zeros(v.as_slice(), 0, i);
    proof {
        assert(major.take(z as int) == v@.subrange(0, z as int));
        lemma_dec_leading_zeros(major, z as int);
    }
    let ghost m = major.skip(z as int);
    assert(m =~= v@.subrange(z as int, i as int));
    if z == i {
        // The whole number is below one.
        proof {
            assert(m.len() == 0);
            assert(big_m == 0);
            assert(10 * (big_m * d + f) < 26 * d) by (nonlinear_arith)
                requires
                    big_m == 0,
                    f < d,
                    d >= 1,
            ;
        }
        return false;
    }
    assert(all_digits(m)) by {
        assert forall|k: int| 0 <= k < m.len() implies is_digit(#[trigger] m[k]) by {
            assert(m[k] == major[k + z]);
        }
    }
    proof {
        lemma_dec_first_digit(m);
        lemma_pow10_positive((m.len() - 1) as nat);
    }
    if i - z >= 2 {
        proof {
            crate::project_spec::lemma_pow10_mono(1, (m.len() - 1) as nat);
            assert(pow10(1) == 10) by {
                reveal_with_fuel(pow10, 2);
            }
            assert(m[0] != '0');
            assert(is_digit(m[0]));
            let g = (m[0] as int) - 48;
            let q = pow10((m.len() - 1) as nat);
            let rest = dec_value(m.drop_first());
            assert(big_m >= 10) by (nonlinear_arith)
                requires
                    big_m == g * q + rest,
                    g >= 1,
                    q >= 10,
                    rest >= 0,
            ;
            assert(10 * (big_m * d + f) >= 26 * d) by (nonlinear_arith)
                requires
                    big_m >= 10,
                    d >= 1,
                    f >= 0,
            ;
        }
        return true;
    }
    assert(m.len() == 1);
    assert(m.drop_first() =~= Seq::<char>::empty());
    assert(dec_value(m.drop_first()) == 0);
    assert(pow10(0) == 1);
    let c = v[z];
    assert(c == m[0]);
    assert(big_m == ((c as int) - 48) * 1 + 0);
    assert(((c as int) - 48) * 1 == (c as int) - 48);
    assert(big_m == (c as int) - 48);
    if c > '2' {
        proof {
            assert((c as int) > ('2' as int));
            assert(big_m >= 3);
            assert(10 * (big_m * d + f) >= 26 * d) by (nonlinear_arith)
                requires
                    big_m >= 3,
                    d >= 1,
                    f >= 0,
            ;
        }
        return true;
    }
    if '2' > c {
        proof {
            assert((c as int) < ('2' as int));
            assert(big_m <= 1);
            assert(10 * (big_m * d + f) < 26 * d) by (nonlinear_arith)
                requires
                    big_m <= 1,
                    f < d,
                    d >= 1,
            ;
        }
        return false;
    }
    assert((c as int) == ('2' as int));
    assert(big_m == 2);
    if minor_start == n {
        assert(minor.len() == 0);
        assert(d == 1);
        assert(f == 0);
        return false;
    }
    let f0 = v[minor_start];
    proof {
        lemma_dec_first_digit(minor);
        assert(minor[0] == f0);
        let p = pow10((minor.len() - 1) as nat);
        let rest = dec_value(minor.drop_first());
        assert(d == 10 * p);
        let g = (f0 as int) - 48;
        assert(f == g * p + rest);
        assert(0 <= g <= 9);
        if f0 >= '6' {
            assert(10 * (2 * d + f) >= 26 * d) by (nonlinear_arith)
                requires
                    d == 10 * p,
                    f == g * p + rest,
                    g >= 6,
                    rest >= 0,
                    p >= 1,
            ;
        } else {
            assert(10 * (2 * d + f) < 26 * d) by (nonlinear_arith)
                requires
                    d == 10 * p,
                    f == g * p + rest,
                    g <= 5,
                    rest < p,
                    p >= 1,
            ;
        }
    }
    f0 >= '6'
}

/// What bootmux asks of a running tmux server. One implementation asks
/// tmux itself; [`MockTmux`] answers from fixed values.
pub trait TmuxContext {
    /// The global `base-index` and `pane-base-index` options, by name.
    fn extract_tmux_config(&self, tmux_cmd: &str) -> Vec<(String, String)>;

    fn has_session(&self, tmux_cmd: &str, unescaped_name: &str) -> bool;

    fn last_window_index(&self, tmux_cmd: &str) -> i64;

    fn current_session_name(&self, env: &Env) -> String;

    fn version(&self) -> Option<TmuxVersion>;

    fn active_sessions(&self) -> Vec<String>;

    /// The output of a shell command, or why it failed.
    fn capture(&self, command: &str) -> Result<String, String>;
}

/// Fixed answers, the ones tmuxinator's own debug snapshots were taken
/// with.
#[derive(Clone, Debug, Default)]
pub struct MockTmux {
    pub base_index: i64,
    pub pane_base_index: i64,
    pub session_exists: bool,
    pub last_window_index: i64,
    pub current_session: String,
}

/// `i64::to_string`.
pub fn signed_string(n: i64) -> (r: String)
    ensures
        r@ == signed_decimal(n as int),
{
    let mut out: Vec<char> = Vec::new();
    push_wide(&mut out, n as i128);
    string_of(out.as_slice())
}

/// Appends the decimal digits of `n`.
fn push_decimal_wide(out: &mut Vec<char>, n: u128)
    ensures
        final(out)@ == old(out)@ + decimal(n as nat),
    decreases n,
{
    if n >= 10 {
        push_decimal_wide(out, n / 10);
    }
    let d: u128 = n % 10;
    out.push(((d + 48) as u8) as char);
}

/// Appends `n` in decimal, with a minus sign when it is negative.
pub(crate) fn push_wide(out: &mut Vec<char>, n: i128)
    requires
        n > i128::MIN,
    ensures
        final(out)@ == old(out)@ + signed_decimal(n as int),
{
    if n < 0 {
        out.push('-');
        push_decimal_wide(out, (0 - n) as u128);
    } else {
        push_decimal_wide(out, n as u128);
    }
}

/// `str::parse::<i64>`: an optional sign, then at least one decimal digit,
/// within range.
pub open spec fn parse_signed(s: Seq<char>) -> Option<int> {
    if s.len() > 0 && s[0] == '-' {
        let d = s.drop_first();
        if d.len() > 0 && d[0] == '+' {
            None
        } else {
            match parse_unsigned(d, 0x8000_0000_0000_0000) {
                Some(v) => Some(-v),
                None => None,
            }
        }
    } else {
        match parse_unsigned(s, 0x7fff_ffff_ffff_ffff) {
            Some(v) => Some(v as int),
            None => None,
        }
    }
}

/// `str::parse::<i64>`.
pub fn parse_i64(s: &str) -> (r: Option<i64>)
    ensures
        match r {
            Some(n) => parse_signed(s@) == Some(n as int),
            None => parse_signed(s@) is None,
        },
{
    let v = chars_of(s);
    parse_i64_chars(v.as_slice())
}

/// `str::parse::<i64>` on characters.
pub fn parse_i64_chars(v: &[char]) -> (r: Option<i64>)
    ensures
        match r {
            Some(n) => parse_signed(v@) == Some(n as int),
            None => parse_signed(v@) is None,
        },
{
    if v.len() > 0 && v[0] == '-' {
        let d: Vec<char> = crate::text::slice_chars(v, 1, v.len());
        assert(d@ =~= v@.drop_first());
        if d.len() > 0 && d[0] == '+' {
            return None;
        }
        match parse_decimal(d.as_slice(), 0x8000_0000_0000_0000u64) {
            Some(m) => {
                if m == 0x8000_0000_0000_0000u64 {
                    Some(i64::MIN)
                } else {
                    Some(0 - (m as i64))
                }
            },
            None => None,
        }
    } else {
        match parse_decimal(v, 0x7fff_ffff_ffff_ffffu64) {
            Some(m) => Some(m as i64),
            None => None,
        }
    }
}

impl TmuxContext for MockTmux {
    /// The two index options, as tmux prints them.
    fn extract_tmux_config(&self, tmux_cmd: &str) -> (r: Vec<(String, String)>)
        ensures
            r@.len() == 2,
            r@[0].0@ == "base-index"@ && r@[0].1@ == signed_decimal(self.base_index as int),
            r@[1].0@ == "pane-base-index"@ && r@[1].1@ == signed_decimal(self.pane_base_index as int),
    {
        let mut options: Vec<(String, String)> = Vec::new();
        options.push(("base-index".to_owned(), signed_string(self.base_index)));
        options.push(("pane-base-index".to_owned(), signed_string(self.pane_base_index)));
        options
    }

    fn has_session(&self, tmux_cmd: &str, unescaped_name: &str) -> bool {
        self.session_exists
    }

    fn last_window_index(&self, tmux_cmd: &str) -> i64 {
        self.last_window_index
    }

    fn current_session_name(&self, env: &Env) -> String {
        self.current_session.clone()
    }

    fn version(&self) -> Option<TmuxVersion> {
        Some(TmuxVersion::Numeric(MINIMUM_SUPPORTED_VERSION.to_owned()))
    }

    fn active_sessions(&self) -> Vec<String> {
        Vec::new()
    }

    fn capture(&self, command: &str) -> Result<String, String> {
        Ok(String::new())
    }
}

} // verus!

//! Character-level building blocks shared by the text formats: conversions
//! between strings and character vectors, the character classes that Rust's
//! `char` methods use, and trimming.

use vstd::prelude::*;

verus! {

/// Rust's `char::is_whitespace`: the Unicode `White_Space` property.
pub open spec fn is_ws(c: char) -> bool {
    let u = c as u32;
    (0x09 <= u && u <= 0x0d) || u == 0x20 || u == 0x85 || u == 0xa0 || u == 0x1680 || (0x2000
        <= u && u <= 0x200a) || u == 0x2028 || u == 0x2029 || u == 0x202f || u == 0x205f || u
        == 0x3000
}

pub open spec fn is_digit(c: char) -> bool {
    '0' <= c && c <= '9'
}

pub open spec fn is_hex_digit(c: char) -> bool {
    is_digit(c) || ('a' <= c && c <= 'f') || ('A' <= c && c <= 'F')
}

pub open spec fn is_alnum(c: char) -> bool {
    is_digit(c) || ('a' <= c && c <= 'z') || ('A' <= c && c <= 'Z')
}

/// Index of the first character that is not whitespace (or the length).
pub open spec fn lead_ws(s: Seq<char>) -> nat
    decreases s.len(),
{
    if s.len() == 0 {
        0
    } else if is_ws(s[0]) {
        1 + lead_ws(s.drop_first())
    } else {
        0
    }
}

/// Number of whitespace characters at the end.
pub open spec fn trail_ws(s: Seq<char>) -> nat
    decreases s.len(),
{
    if s.len() == 0 {
        0
    } else if is_ws(s.last()) {
        1 + trail_ws(s.drop_last())
    } else {
        0
    }
}

/// `str::trim_start`.
pub open spec fn trim_start(s: Seq<char>) -> Seq<char> {
    s.subrange(lead_ws(s) as int, s.len() as int)
}

/// `str::trim_end`.
pub open spec fn trim_end(s: Seq<char>) -> Seq<char> {
    s.subrange(0, s.len() - trail_ws(s))
}

/// `str::trim`.
pub open spec fn trim(s: Seq<char>) -> Seq<char> {
    trim_end(trim_start(s))
}

pub proof fn lemma_lead_ws_bound(s: Seq<char>)
    ensures
        lead_ws(s) <= s.len(),
        forall|i: int| 0 <= i < lead_ws(s) ==> is_ws(#[trigger] s[i]),
        lead_ws(s) < s.len() ==> !is_ws(s[lead_ws(s) as int]),
    decreases s.len(),
{
    if s.len() > 0 && is_ws(s[0]) {
        lemma_lead_ws_bound(s.drop_first());
        assert forall|i: int| 0 <= i < lead_ws(s) implies is_ws(#[trigger] s[i]) by {
            if i > 0 {
                assert(s[i] == s.drop_first()[i - 1]);
            }
        }
    }
}

pub proof fn lemma_trail_ws_bound(s: Seq<char>)
    ensures
        trail_ws(s) <= s.len(),
        forall|i: int| s.len() - trail_ws(s) <= i < s.len() ==> is_ws(#[trigger] s[i]),
        trail_ws(s) < s.len() ==> !is_ws(s[s.len() - trail_ws(s) - 1]),
    decreases s.len(),
{
    if s.len() > 0 && is_ws(s.last()) {
        lemma_trail_ws_bound(s.drop_last());
        assert forall|i: int| s.len() - trail_ws(s) <= i < s.len() implies is_ws(#[trigger] s[i]) by {
            if i < s.len() - 1 {
                assert(s[i] == s.drop_last()[i]);
            }
        }
    }
}

/// The characters of a string slice.
pub fn chars_of(s: &str) -> (v: Vec<char>)
    ensures
        v@ == s@,
{
    let mut v: Vec<char> = Vec::new();
    for c in it: s.chars()
        invariant
            it.seq() == s@,
            v@ == s@.take(it.index() as int),
    {
        v.push(c);
        proof {
            assert(v@ =~= s@.take(it.index() + 1));
        }
    }
    assert(v@ =~= s@);
    v
}

/// A string holding exactly the given characters.
#[verifier::external_body]
pub fn string_of(v: &[char]) -> (s: String)
    ensures
        s@ == v@,
{
    v.iter().collect()
}

/// Appends one character.
#[verifier::external_body]
pub fn push_char(s: &mut String, c: char)
    ensures
        final(s)@ == old(s)@.push(c),
{
    s.push(c)
}

/// Appends the characters of a slice to a vector.
pub fn extend_chars(out: &mut Vec<char>, src: &[char])
    ensures
        final(out)@ == old(out)@ + src@,
{
    let ghost start = out@;
    let mut i: usize = 0;
    while i < src.len()
        invariant
            i <= src.len(),
            out@ == start + src@.subrange(0, i as int),
        decreases src.len() - i,
    {
        out.push(src[i]);
        i += 1;
        assert(src@.subrange(0, i as int) == src@.subrange(0, i - 1).push(src@[i - 1]));
    }
    assert(src@.subrange(0, src.len() as int) == src@);
}

/// Appends the characters of a string slice to a vector.
pub fn extend_str(out: &mut Vec<char>, src: &str)
    ensures
        final(out)@ == old(out)@ + src@,
{
    let cs = chars_of(src);
    extend_chars(out, cs.as_slice());
}

pub fn is_ws_char(c: char) -> (b: bool)
    ensures
        b == is_ws(c),
{
    let u = c as u32;
    (0x09 <= u && u <= 0x0d) || u == 0x20 || u == 0x85 || u == 0xa0 || u == 0x1680 || (0x2000
        <= u && u <= 0x200a) || u == 0x2028 || u == 0x2029 || u == 0x202f || u == 0x205f || u
        == 0x3000
}

/// Bounds `(start, end)` such that `v[start..end]` is `trim(v)`.
pub fn trim_bounds(v: &[char]) -> (r: (usize, usize))
    ensures
        r.0 <= r.1 <= v@.len(),
        v@.subrange(r.0 as int, r.1 as int) == trim(v@),
{
    let mut start: usize = 0;
    while start < v.len() && is_ws_char(v[start])
        invariant
            start <= v@.len(),
            forall|i: int| 0 <= i < start ==> is_ws(#[trigger] v@[i]),
        decreases v.len() - start,
    {
        start += 1;
    }
    proof {
        lemma_lead_ws_exact(v@, start as nat);
    }
    let ghost t = v@.subrange(start as int, v@.len() as int);
    let mut end: usize = v.len();
    while end > start && is_ws_char(v[end - 1])
        invariant
            start <= end <= v@.len(),
            forall|i: int| end <= i < v@.len() ==> is_ws(#[trigger] v@[i]),
        decreases end,
    {
        end -= 1;
    }
    proof {
        assert forall|i: int| t.len() - (v@.len() - end) <= i < t.len() implies is_ws(
            #[trigger] t[i],
        ) by {
            assert(t[i] == v@[start + i]);
        }
        if end > start {
            assert(t[end - start - 1] == v@[end - 1]);
        }
        lemma_trail_ws_exact(t, (v@.len() - end) as nat);
        assert(v@.subrange(start as int, end as int) == t.subrange(0, t.len() - trail_ws(t)));
    }
    (start, end)
}

/// If the first `n` characters are whitespace and the next is not (or the
/// string ends), then `lead_ws` is `n`.
pub proof fn lemma_lead_ws_exact(s: Seq<char>, n: nat)
    requires
        n <= s.len(),
        forall|i: int| 0 <= i < n ==> is_ws(#[trigger] s[i]),
        n < s.len() ==> !is_ws(s[n as int]),
    ensures
        lead_ws(s) == n,
    decreases n,
{
    if n > 0 {
        let t = s.drop_first();
        assert forall|i: int| 0 <= i < n - 1 implies is_ws(#[trigger] t[i]) by {
            assert(t[i] == s[i + 1]);
        }
        if n < s.len() {
            assert(t[n - 1] == s[n as int]);
        }
        assert(is_ws(s[0]));
        lemma_lead_ws_exact(t, (n - 1) as nat);
    }
}

/// If the last `n` characters are whitespace and the one before is not (or
/// the string starts there), then `trail_ws` is `n`.
pub proof fn lemma_trail_ws_exact(s: Seq<char>, n: nat)
    requires
        n <= s.len(),
        forall|i: int| s.len() - n <= i < s.len() ==> is_ws(#[trigger] s[i]),
        n < s.len() ==> !is_ws(s[s.len() - n - 1]),
    ensures
        trail_ws(s) == n,
    decreases n,
{
    if n > 0 {
        let t = s.drop_last();
        assert forall|i: int| t.len() - (n - 1) <= i < t.len() implies is_ws(#[trigger] t[i]) by {
            assert(t[i] == s[i]);
        }
        if n < s.len() {
            assert(t[t.len() - (n - 1) - 1] == s[s.len() - n - 1]);
        }
        assert(is_ws(s[s.len() - 1]));
        lemma_trail_ws_exact(t, (n - 1) as nat);
    }
}

/// The trimmed characters of a string slice.
pub fn trimmed(s: &str) -> (v: Vec<char>)
    ensures
        v@ == trim(s@),
{
    let cs = chars_of(s);
    let (a, b) = trim_bounds(cs.as_slice());
    slice_chars(cs.as_slice(), a, b)
}

/// `v[a..b]` as a new vector.
pub fn slice_chars(v: &[char], a: usize, b: usize) -> (r: Vec<char>)
    requires
        a <= b <= v@.len(),
    ensures
        r@ == v@.subrange(a as int, b as int),
{
    let mut r: Vec<char> = Vec::new();
    let mut i = a;
    while i < b
        invariant
            a <= i <= b,
            b <= v@.len(),
            r@ == v@.subrange(a as int, i as int),
        decreases b - i,
    {
        r.push(v[i]);
        i += 1;
        assert(v@.subrange(a as int, i as int) == v@.subrange(a as int, i - 1).push(v@[i - 1]));
    }
    r
}

/// Whether two character slices are equal.
pub fn chars_eq(a: &[char], b: &[char]) -> (r: bool)
    ensures
        r == (a@ == b@),
{
    if a.len() != b.len() {
        return false;
    }
    let mut i: usize = 0;
    while i < a.len()
        invariant
            a@.len() == b@.len(),
            i <= a@.len(),
            forall|j: int| 0 <= j < i ==> a@[j] == b@[j],
        decreases a.len() - i,
    {
        if a[i] != b[i] {
            return false;
        }
        i += 1;
    }
    assert(a@ =~= b@);
    true
}

/// Whether a string slice equals a character slice.
pub fn str_eq_chars(s: &str, b: &[char]) -> (r: bool)
    ensures
        r == (s@ == b@),
{
    let a = chars_of(s);
    chars_eq(a.as_slice(), b)
}

/// Whether two string slices are equal.
pub fn str_eq(s: &str, t: &str) -> (r: bool)
    ensures
        r == (s@ == t@),
{
    let a = chars_of(s);
    let b = chars_of(t);
    chars_eq(a.as_slice(), b.as_slice())
}

/// Whether a character occurs in a slice.
pub fn contains_char(v: &[char], c: char) -> (r: bool)
    ensures
        r == v@.contains(c),
{
    let mut i: usize = 0;
    while i < v.len()
        invariant
            i <= v@.len(),
            forall|j: int| 0 <= j < i ==> v@[j] != c,
        decreases v.len() - i,
    {
        if v[i] == c {
            assert(v@[i as int] == c);
            return true;
        }
        i += 1;
    }
    false
}


/// Value of a string of decimal digits.
pub open spec fn dec_value(s: Seq<char>) -> nat
    decreases s.len(),
{
    if s.len() == 0 {
        0
    } else {
        dec_value(s.drop_last()) * 10 + ((s.last() as int) - 48) as nat
    }
}

pub open spec fn all_digits(s: Seq<char>) -> bool {
    forall|i: int| 0 <= i < s.len() ==> is_digit(#[trigger] s[i])
}

/// `str::parse` for an unsigned integer type whose largest value is `max`:
/// an optional `+`, then at least one decimal digit, with no overflow.
pub open spec fn parse_unsigned(s: Seq<char>, max: nat) -> Option<nat> {
    let d = if s.len() > 0 && s[0] == '+' {
        s.drop_first()
    } else {
        s
    };
    if d.len() == 0 || !all_digits(d) || dec_value(d) > max {
        None
    } else {
        Some(dec_value(d))
    }
}

pub proof fn lemma_dec_value_prefix_mono(s: Seq<char>, j: int, k: int)
    requires
        0 <= j <= k <= s.len(),
        all_digits(s),
    ensures
        dec_value(s.subrange(0, j)) <= dec_value(s.subrange(0, k)),
    decreases k - j,
{
    if j < k {
        lemma_dec_value_prefix_mono(s, j, k - 1);
        let t = s.subrange(0, k);
        assert(t.drop_last() == s.subrange(0, k - 1));
        assert(is_digit(s[k - 1]));
    }
}

/// `str::parse` into an unsigned integer no larger than `max`.
pub fn parse_decimal(v: &[char], max: u64) -> (r: Option<u64>)
    ensures
        match r {
            Some(n) => parse_unsigned(v@, max as nat) == Some(n as nat),
            None => parse_unsigned(v@, max as nat) is None,
        },
{
    let start: usize = if v.len() > 0 && v[0] == '+' {
        1
    } else {
        0
    };
    let ghost d = if v@.len() > 0 && v@[0] == '+' {
        v@.drop_first()
    } else {
        v@
    };
    assert(d == v@.subrange(start as int, v@.len() as int));
    if start == v.len() {
        return None;
    }
    let mut i: usize = start;
    while i < v.len()
        invariant
            start <= i <= v@.len(),
            d == v@.subrange(start as int, v@.len() as int),
            d == (if v@.len() > 0 && v@[0] == '+' { v@.drop_first() } else { v@ }),
            forall|j: int| 0 <= j < i - start ==> is_digit(#[trigger] d[j]),
        decreases v.len() - i,
    {
        if !('0' <= v[i] && v[i] <= '9') {
            assert(!is_digit(d[i - start]));
            return None;
        }
        i += 1;
    }
    assert(all_digits(d));
    let mut value: u128 = 0;
    let mut i: usize = start;
    while i < v.len()
        invariant
            start <= i <= v@.len(),
            d == v@.subrange(start as int, v@.len() as int),
            d == (if v@.len() > 0 && v@[0] == '+' { v@.drop_first() } else { v@ }),
            all_digits(d),
            value == dec_value(d.subrange(0, i - start)),
            value <= max,
        decreases v.len() - i,
    {
        assert(is_digit(d[i - start]));
        let digit = (v[i] as u32 - 48) as u128;
        let next = value * 10 + digit;
        proof {
            let t = d.subrange(0, i - start + 1);
            assert(t.drop_last() == d.subrange(0, i - start));
            assert(t.last() == v@[i as int]);
        }
        if next > max as u128 {
            proof {
                lemma_dec_value_prefix_mono(d, i - start + 1, d.len() as int);
                assert(d.subrange(0, d.len() as int) == d);
            }
            return None;
        }
        value = next;
        i += 1;
    }
    assert(d.subrange(0, d.len() as int) == d);
    Some(value as u64)
}


/// A line without the carriage return of a `\r\n` ending.
pub open spec fn strip_cr(l: Seq<char>) -> Seq<char> {
    if l.len() > 0 && l.last() == '\r' {
        l.drop_last()
    } else {
        l
    }
}

/// The lines of `s` after the partial line `cur`, as `str::lines` splits
/// them: at `\n` or `\r\n`, with no empty line after a final newline.
pub open spec fn lines_from(s: Seq<char>, cur: Seq<char>) -> Seq<Seq<char>>
    decreases s.len(),
{
    if s.len() == 0 {
        if cur.len() == 0 {
            seq![]
        } else {
            seq![cur]
        }
    } else if s[0] == '\n' {
        seq![strip_cr(cur)] + lines_from(s.drop_first(), seq![])
    } else {
        lines_from(s.drop_first(), cur.push(s[0]))
    }
}

/// `str::lines`.
pub open spec fn spec_lines(s: Seq<char>) -> Seq<Seq<char>> {
    lines_from(s, seq![])
}

/// `str::lines`, each line as a character vector.
pub fn lines_of(s: &[char]) -> (r: Vec<Vec<char>>)
    ensures
        r@.map_values(|l: Vec<char>| l@) == spec_lines(s@),
{
    let mut out: Vec<Vec<char>> = Vec::new();
    let mut cur: Vec<char> = Vec::new();
    let mut i: usize = 0;
    assert(s@.skip(0) == s@);
    assert(out@.map_values(|l: Vec<char>| l@) =~= Seq::<Seq<char>>::empty());
    while i < s.len()
        invariant
            i <= s@.len(),
            out@.map_values(|l: Vec<char>| l@) + lines_from(s@.skip(i as int), cur@) == spec_lines(
                s@,
            ),
        decreases s.len() - i,
    {
        let ghost rest = s@.skip(i as int);
        assert(rest.drop_first() == s@.skip(i + 1));
        if s[i] == '\n' {
            let n = cur.len();
            let line = if n > 0 && cur[n - 1] == '\r' {
                slice_chars(cur.as_slice(), 0, n - 1)
            } else {
                slice_chars(cur.as_slice(), 0, n)
            };
            assert(line@ == strip_cr(cur@)) by {
                assert(cur@.subrange(0, n as int) == cur@);
            }
            let ghost before = out@;
            out.push(line);
            assert(out@.map_values(|l: Vec<char>| l@) == before.map_values(|l: Vec<char>| l@).push(
                strip_cr(cur@),
            ));
            cur = Vec::new();
        } else {
            cur.push(s[i]);
        }
        i += 1;
    }
    assert(s@.skip(s@.len() as int) == Seq::<char>::empty());
    if cur.len() > 0 {
        let ghost before = out@;
        out.push(cur);
        assert(out@.map_values(|l: Vec<char>| l@) == before.map_values(|l: Vec<char>| l@).push(
            out@.last()@,
        ));
    }
    out
}

/// `s` without its leading byte-order marks (`trim_start_matches('\u{feff}')`).
pub open spec fn strip_bom(s: Seq<char>) -> Seq<char>
    decreases s.len(),
{
    if s.len() > 0 && s[0] == '\u{feff}' {
        strip_bom(s.drop_first())
    } else {
        s
    }
}

pub fn strip_bom_chars(v: &[char]) -> (r: Vec<char>)
    ensures
        r@ == strip_bom(v@),
{
    let mut i: usize = 0;
    assert(v@.skip(0) == v@);
    while i < v.len() && v[i] == '\u{feff}'
        invariant
            i <= v@.len(),
            strip_bom(v@) == strip_bom(v@.skip(i as int)),
        decreases v.len() - i,
    {
        assert(v@.skip(i as int).drop_first() == v@.skip(i + 1));
        i += 1;
    }
    assert(v@.skip(i as int) == v@.subrange(i as int, v@.len() as int));
    slice_chars(v, i, v.len())
}

/// Index of the first occurrence of `c` (the length when absent).
pub open spec fn find_char(s: Seq<char>, c: char) -> nat
    decreases s.len(),
{
    if s.len() == 0 {
        0
    } else if s[0] == c {
        0
    } else {
        1 + find_char(s.drop_first(), c)
    }
}

pub proof fn lemma_find_char(s: Seq<char>, c: char)
    ensures
        find_char(s, c) <= s.len(),
        forall|i: int| 0 <= i < find_char(s, c) ==> s[i] != c,
        find_char(s, c) < s.len() ==> s[find_char(s, c) as int] == c,
    decreases s.len(),
{
    if s.len() > 0 && s[0] != c {
        lemma_find_char(s.drop_first(), c);
        assert forall|i: int| 0 <= i < find_char(s, c) implies s[i] != c by {
            if i > 0 {
                assert(s[i] == s.drop_first()[i - 1]);
            }
        }
    }
}

/// `find_char` computed.
pub fn find_char_index(v: &[char], c: char) -> (r: usize)
    ensures
        r == find_char(v@, c),
{
    let mut i: usize = 0;
    assert(v@.skip(0) == v@);
    while i < v.len() && v[i] != c
        invariant
            i <= v@.len(),
            find_char(v@, c) == i + find_char(v@.skip(i as int), c),
        decreases v.len() - i,
    {
        assert(v@.skip(i as int).drop_first() == v@.skip(i + 1));
        i += 1;
    }
    i
}

/// `str::split_once(c)`: the parts before and after the first `c`.
pub open spec fn split_once(s: Seq<char>, c: char) -> Option<(Seq<char>, Seq<char>)> {
    let i = find_char(s, c);
    if i < s.len() {
        Some((s.subrange(0, i as int), s.subrange(i as int + 1, s.len() as int)))
    } else {
        None
    }
}

/// Whether `s` starts with `c`.
pub open spec fn starts_with_char(s: Seq<char>, c: char) -> bool {
    s.len() > 0 && s[0] == c
}

/// ASCII lower-casing.
pub open spec fn ascii_lower(c: char) -> char {
    if 'A' <= c && c <= 'Z' {
        ((c as u32) + 32) as char
    } else {
        c
    }
}

pub open spec fn ascii_lower_seq(s: Seq<char>) -> Seq<char> {
    s.map_values(|c: char| ascii_lower(c))
}

pub fn to_ascii_lower(v: &[char]) -> (r: Vec<char>)
    ensures
        r@ == ascii_lower_seq(v@),
{
    let mut r: Vec<char> = Vec::new();
    let mut i: usize = 0;
    while i < v.len()
        invariant
            i <= v@.len(),
            r@ == ascii_lower_seq(v@.subrange(0, i as int)),
        decreases v.len() - i,
    {
        let c = v[i];
        let l = if 'A' <= c && c <= 'Z' {
            ((c as u32 + 32) as u8) as char
        } else {
            c
        };
        r.push(l);
        assert(v@.subrange(0, i + 1) == v@.subrange(0, i as int).push(c));
        i += 1;
    }
    assert(v@.subrange(0, v@.len() as int) == v@);
    r
}


/// `PathBuf::push` of a relative component: a separator is added unless the
/// base is empty or already ends with one.
pub open spec fn path_join(base: Seq<char>, part: Seq<char>) -> Seq<char> {
    if base.len() == 0 {
        part
    } else if base.last() == '/' {
        base + part
    } else {
        base + seq!['/'] + part
    }
}

pub fn path_join_chars(base: &[char], part: &[char]) -> (r: Vec<char>)
    ensures
        r@ == path_join(base@, part@),
{
    let mut out: Vec<char> = Vec::new();
    extend_chars(&mut out, base);
    if base.len() > 0 && base[base.len() - 1] != '/' {
        out.push('/');
    }
    extend_chars(&mut out, part);
    out
}


/// Whether `s` begins with `p`.
pub open spec fn has_prefix(s: Seq<char>, p: Seq<char>) -> bool {
    p.len() <= s.len() && s.subrange(0, p.len() as int) == p
}

pub fn starts_with(s: &[char], p: &[char]) -> (r: bool)
    ensures
        r == has_prefix(s@, p@),
{
    if p.len() > s.len() {
        return false;
    }
    let mut i: usize = 0;
    while i < p.len()
        invariant
            p@.len() <= s@.len(),
            i <= p@.len(),
            forall|j: int| 0 <= j < i ==> s@[j] == p@[j],
        decreases p.len() - i,
    {
        if s[i] != p[i] {
            assert(s@.subrange(0, p@.len() as int)[i as int] != p@[i as int]);
            return false;
        }
        i += 1;
    }
    assert(s@.subrange(0, p@.len() as int) =~= p@);
    true
}

} // verus!

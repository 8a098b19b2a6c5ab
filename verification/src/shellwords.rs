//! Ruby `Shellwords`-compatible escaping (backslash style, `a\ b`), and word
//! splitting through the `shell-words` crate.

use vstd::prelude::*;
use crate::text::{chars_of, is_alnum, string_of};

verus! {

/// Characters that Ruby's `Shellwords.escape` leaves untouched.
pub open spec fn is_safe_char(c: char) -> bool {
    is_alnum(c) || c == '_' || c == '-' || c == '.' || c == ',' || c == ':' || c == '+' || c
        == '/' || c == '@'
}

/// The escaped form of one character.
pub open spec fn escape_char(c: char) -> Seq<char> {
    if is_safe_char(c) {
        seq![c]
    } else if c == '\n' {
        seq!['\'', '\n', '\'']
    } else {
        seq!['\\', c]
    }
}

/// Every character escaped in turn.
pub open spec fn escape_chars(s: Seq<char>) -> Seq<char>
    decreases s.len(),
{
    if s.len() == 0 {
        seq![]
    } else {
        escape_chars(s.drop_last()) + escape_char(s.last())
    }
}

/// `Shellwords.escape`: the empty string becomes `''`.
pub open spec fn spec_escape(s: Seq<char>) -> Seq<char> {
    if s.len() == 0 {
        seq!['\'', '\'']
    } else {
        escape_chars(s)
    }
}

/// The characters that need no quoting in a shell word: ASCII letters and
/// digits and `_ - . , : + / @`.
pub open spec fn plain_shell_char(c: char) -> bool {
    ||| ('A' <= c && c <= 'Z')
    ||| ('a' <= c && c <= 'z')
    ||| ('0' <= c && c <= '9')
    ||| c == '@' || c == '/' || c == '+' || c == ':' || c == ',' || c == '.' || c == '-' || c == '_'
}

/// Escaping a word escapes each character in turn: a plain character stays
/// as it is, a newline is put in single quotes, and every other character
/// (shell metacharacters such as `|`, `;`, `&`, `$` and spaces among them)
/// gets a backslash; only the empty word becomes `''`.
pub proof fn escape_law(s: Seq<char>, c: char)
    ensures
        escape_chars(s.push(c)) == escape_chars(s) + if plain_shell_char(c) {
            seq![c]
        } else if c == '\n' {
            seq!['\'', '\n', '\'']
        } else {
            seq!['\\', c]
        },
        escape_chars(Seq::<char>::empty()) == Seq::<char>::empty(),
        spec_escape(s) == if s.len() == 0 {
            seq!['\'', '\'']
        } else {
            escape_chars(s)
        },
{
    assert(s.push(c).drop_last() == s);
    assert(s.push(c).last() == c);
}

/// Concatenation of words.
pub open spec fn concat(ws: Seq<Seq<char>>) -> Seq<char>
    decreases ws.len(),
{
    if ws.len() == 0 {
        seq![]
    } else {
        concat(ws.drop_last()) + ws.last()
    }
}

/// What `shell_words::split` returns for a string: the words, or `None` for
/// an unmatched quote.
pub uninterp spec fn shell_split(s: Seq<char>) -> Option<Seq<Seq<char>>>;

/// The words of `split`: those of `shell_words::split`, none when it fails.
pub open spec fn spec_split(s: Seq<char>) -> Seq<Seq<char>> {
    match shell_split(s) {
        Some(words) => words,
        None => seq![],
    }
}

pub open spec fn views(v: Seq<String>) -> Seq<Seq<char>> {
    v.map_values(|w: String| w@)
}

pub fn is_safe(c: char) -> (b: bool)
    ensures
        b == is_safe_char(c),
{
    ('A' <= c && c <= 'Z') || ('a' <= c && c <= 'z') || ('0' <= c && c <= '9') || c == '_' || c
        == '-' || c == '.' || c == ',' || c == ':' || c == '+' || c == '/' || c == '@'
}

/// Ruby `Shellwords.escape`.
pub fn escape(s: &str) -> (r: String)
    ensures
        r@ == spec_escape(s@),
{
    let cs = chars_of(s);
    if cs.len() == 0 {
        return string_of(&['\'', '\'']);
    }
    let mut out: Vec<char> = Vec::new();
    let mut i: usize = 0;
    while i < cs.len()
        invariant
            i <= cs@.len(),
            out@ == escape_chars(cs@.subrange(0, i as int)),
        decreases cs.len() - i,
    {
        let c = cs[i];
        if is_safe(c) {
            out.push(c);
        } else if c == '\n' {
            out.push('\'');
            out.push('\n');
            out.push('\'');
        } else {
            out.push('\\');
            out.push(c);
        }
        proof {
            let t = cs@.subrange(0, i + 1);
            assert(t.drop_last() == cs@.subrange(0, i as int));
            assert(t.last() == c);
        }
        i += 1;
    }
    assert(cs@.subrange(0, cs@.len() as int) == cs@);
    string_of(out.as_slice())
}

/// Calls `shell_words::split`; `None` stands for its error.
#[verifier::external_body]
fn shell_words_split(s: &str) -> (r: Option<Vec<String>>)
    ensures
        match r {
            Some(words) => shell_split(s@) == Some(views(words@)),
            None => shell_split(s@) is None,
        },
{
    shell_words::split(s).ok()
}

/// Splits a command line into words; an unmatched quote yields no words.
pub fn split(s: &str) -> (r: Vec<String>)
    ensures
        views(r@) == spec_split(s@),
{
    match shell_words_split(s) {
        Some(words) => words,
        None => {
            let empty: Vec<String> = Vec::new();
            assert(views(empty@) =~= seq![]);
            empty
        },
    }
}

/// Removes shell quoting: the words of `s`, joined without a separator.
pub fn unescape(s: &str) -> (r: String)
    ensures
        r@ == concat(spec_split(s@)),
{
    let words = split(s);
    let mut out = String::new();
    let mut i: usize = 0;
    while i < words.len()
        invariant
            i <= words@.len(),
            views(words@) == spec_split(s@),
            out@ == concat(views(words@).subrange(0, i as int)),
        decreases words.len() - i,
    {
        let ghost before = out@;
        out.append(words[i].as_str());
        proof {
            let t = views(words@).subrange(0, i + 1);
            assert(t.drop_last() == views(words@).subrange(0, i as int));
            assert(t.last() == words@[i as int]@);
        }
        i += 1;
    }
    assert(views(words@).subrange(0, words@.len() as int) == views(words@));
    out
}

} // verus!

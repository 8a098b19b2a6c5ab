//! The child-process boundary shared by the structured backends.
//!
//! Both the Herdr and zellij clients drive their multiplexer through a
//! command-line binary. Every call goes through [`CommandRunner`], so the
//! argv, environment and working directory of each call can be checked in
//! tests without a live server.

use vstd::prelude::*;
use crate::text::{extend_str, string_of};

verus! {

#[verifier::external_type_specification]
#[verifier::external_body]
pub struct ExIoError(std::io::Error);

#[verifier::external_type_specification]
#[verifier::external_body]
pub struct ExJsonError(serde_json::Error);

/// A process invocation independent of `std::process::Command`.
#[derive(Clone, Debug, PartialEq, Eq)]
pub struct Invocation {
    pub program: String,
    pub args: Vec<String>,
    /// Ordered by name, each name once: `Some(value)` sets a variable and
    /// `None` removes it.
    pub env: Vec<(String, Option<String>)>,
    pub current_dir: Option<String>,
}

/// What `format!("{:?}", s)` gives for a string: the string in double
/// quotes with Rust's debug escapes.
pub uninterp spec fn debug_quoted(s: Seq<char>) -> Seq<char>;

/// Calls std's `Debug` formatting of a `str` (`format!("{:?}", s)`).
#[verifier::external_body]
pub(crate) fn debug_quote(s: &str) -> (r: String)
    ensures
        r@ == debug_quoted(s@),
{
    format!("{:?}", s)
}

/// What `format!("{:?}", c)` gives for a character: the character in
/// single quotes with Rust's debug escapes.
pub uninterp spec fn debug_char(c: char) -> Seq<char>;

/// Calls std's `Debug` formatting of a `char` (`format!("{:?}", c)`).
#[verifier::external_body]
pub(crate) fn debug_quote_char(c: char) -> (r: String)
    ensures
        r@ == debug_char(c),
{
    format!("{:?}", c)
}

/// The program followed by each argument in debug quotes, space-separated.
pub open spec fn spec_display(program: Seq<char>, args: Seq<String>) -> Seq<char>
    decreases args.len(),
{
    if args.len() == 0 {
        program
    } else {
        spec_display(program, args.drop_last()) + seq![' '] + debug_quoted(args.last()@)
    }
}

impl Invocation {
    /// The command line as it is shown in error messages.
    pub fn display(&self) -> (r: String)
        ensures
            r@ == spec_display(self.program@, self.args@),
    {
        let mut out: Vec<char> = Vec::new();
        extend_str(&mut out, self.program.as_str());
        let mut i: usize = 0;
        while i < self.args.len()
            invariant
                i <= self.args@.len(),
                out@ == spec_display(self.program@, self.args@.take(i as int)),
            decreases self.args.len() - i,
        {
            assert(self.args@.take(i + 1).drop_last() == self.args@.take(i as int));
            out.push(' ');
            let q = debug_quote(self.args[i].as_str());
            extend_str(&mut out, q.as_str());
            i += 1;
        }
        assert(self.args@.take(self.args@.len() as int) == self.args@);
        string_of(out.as_slice())
    }
}

/// What a finished child process gave back.
#[derive(Clone, Debug, PartialEq, Eq)]
pub struct CommandOutput {
    pub success: bool,
    pub code: Option<i32>,
    pub stdout: Vec<u8>,
    pub stderr: Vec<u8>,
}

/// The boundary around all child-process interaction. Implementations run
/// the invocation for real or answer it from a script in tests; nothing is
/// assumed of what they return.
pub trait CommandRunner {
    fn run(&self, invocation: &Invocation) -> std::io::Result<CommandOutput>;

    fn spawn_detached(&self, invocation: &Invocation) -> std::io::Result<u32>;

    /// The `code` and `message` of Herdr's JSON error envelope
    /// (`{"error": {"code": ..., "message": ...}}`) that some output holds,
    /// if it holds one.
    fn error_envelope(&self, output: &[u8]) -> Option<(String, String)>;
}

} // verus!

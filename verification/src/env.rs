//! The process environment bootmux reads, captured as plain values.

use vstd::prelude::*;
use crate::text::str_eq;

verus! {

/// The environment a command runs in. `all` holds every variable; the first
/// entry with a given name is the one that counts (the process environment
/// has each name once).
#[derive(Clone, Debug, Default)]
pub struct Env {
    pub shell: Option<String>,
    pub editor: Option<String>,
    pub home: String,
    pub xdg_config_home: Option<String>,
    pub tmuxinator_config: Option<String>,
    pub tmux: Option<String>,
    pub cwd: String,
    pub all: Vec<(String, String)>,
}

/// The value of the first variable named `key`.
pub open spec fn lookup(all: Seq<(String, String)>, key: Seq<char>) -> Option<Seq<char>>
    decreases all.len(),
{
    if all.len() == 0 {
        None
    } else if all[0].0@ == key {
        Some(all[0].1@)
    } else {
        lookup(all.drop_first(), key)
    }
}

/// A variable that is set to a non-empty value.
pub open spec fn populated(all: Seq<(String, String)>, key: Seq<char>) -> bool {
    lookup(all, key) matches Some(v) && v.len() > 0
}

pub open spec fn spec_shell_or_default(shell: Option<String>) -> Seq<char> {
    match shell {
        Some(s) if s@.len() > 0 => s@,
        _ => "/bin/bash"@,
    }
}

impl Env {
    /// The value of the variable `key`.
    pub fn var(&self, key: &str) -> (r: Option<&String>)
        ensures
            match r {
                Some(v) => lookup(self.all@, key@) == Some(v@),
                None => lookup(self.all@, key@) is None,
            },
    {
        let mut i: usize = 0;
        assert(self.all@.skip(0) == self.all@);
        while i < self.all.len()
            invariant
                i <= self.all@.len(),
                lookup(self.all@, key@) == lookup(self.all@.skip(i as int), key@),
            decreases self.all.len() - i,
        {
            let ghost rest = self.all@.skip(i as int);
            assert(rest[0] == self.all@[i as int]);
            if str_eq(self.all[i].0.as_str(), key) {
                return Some(&self.all[i].1);
            }
            assert(rest.drop_first() == self.all@.skip(i + 1));
            i += 1;
        }
        None
    }

    /// Whether the variable `key` is set to a non-empty value.
    pub fn populated(&self, key: &str) -> (r: bool)
        ensures
            r == populated(self.all@, key@),
    {
        match self.var(key) {
            Some(v) => !v.as_str().is_empty(),
            None => false,
        }
    }

    /// `$SHELL`, or `/bin/bash` when it is unset or empty.
    pub fn shell_or_default(&self) -> (r: &str)
        ensures
            r@ == spec_shell_or_default(self.shell),
    {
        match &self.shell {
            Some(s) if !s.as_str().is_empty() => s.as_str(),
            _ => "/bin/bash",
        }
    }

    /// Whether `$TMUX` is set.
    pub fn inside_tmux(&self) -> (r: bool)
        ensures
            r == self.tmux.is_some(),
    {
        self.tmux.is_some()
    }
}

} // verus!

//! The parameters of `start`, `debug` and friends.

use vstd::prelude::*;
use crate::project::LoadOptions;
use crate::project_spec::{clone_opt_string, opt_str};

verus! {

/// What the user asked `start` for.
pub struct StartParams {
    pub project: Option<String>,
    pub args: Vec<String>,
    /// `Some(true)` forces attaching, `Some(false)` detaching.
    pub attach: Option<bool>,
    pub custom_name: Option<String>,
    pub project_config: Option<String>,
    pub append: bool,
    pub no_pre_window: bool,
}

impl StartParams {
    /// `-p` takes precedence: a project name given alongside it becomes the
    /// first template argument.
    pub fn normalized(self) -> (r: StartParams)
        ensures
            (self.project_config is Some && self.project is Some) ==> (r.project is None && r.args@
                == seq![self.project.unwrap()] + self.args@),
            !(self.project_config is Some && self.project is Some) ==> (r.project == self.project
                && r.args@ == self.args@),
            r.attach == self.attach,
            r.custom_name == self.custom_name,
            r.project_config == self.project_config,
            r.append == self.append,
            r.no_pre_window == self.no_pre_window,
    {
        let StartParams { project, args, attach, custom_name, project_config, append, no_pre_window } =
            self;
        let mut args = args;
        let project = if project_config.is_some() {
            match project {
                Some(name) => {
                    let ghost old_args = args@;
                    args.insert(0, name);
                    assert(args@ =~= seq![name] + old_args);
                    None
                },
                None => None,
            }
        } else {
            project
        };
        StartParams { project, args, attach, custom_name, project_config, append, no_pre_window }
    }

    /// How the project is loaded.
    pub fn load_options(&self) -> (r: LoadOptions)
        ensures
            opt_str(r.custom_name) == opt_str(self.custom_name),
            r.force_attach == (self.attach == Some(true)),
            r.force_detach == (self.attach == Some(false)),
            r.append == self.append,
            r.no_pre_window == self.no_pre_window,
    {
        LoadOptions {
            custom_name: clone_opt_string(&self.custom_name),
            force_attach: match self.attach {
                Some(true) => true,
                _ => false,
            },
            force_detach: match self.attach {
                Some(false) => true,
                _ => false,
            },
            append: self.append,
            no_pre_window: self.no_pre_window,
        }
    }
}

} // verus!

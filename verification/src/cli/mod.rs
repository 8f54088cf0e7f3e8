//! The command line: its options and what a run does with them.
use vstd::prelude::*;
use crate::cli::cmd::{Action, CommandError, CommandFault, action_views, confirms_spec, opt_rel_view, plan_result};
use crate::cli::ctx::{CliContext, new_result, opt_view};
use crate::cli::log::LogOptions;
use crate::fs::abs::{AbsPathStr, RelPathStr};
use crate::prof::AllProfiles;

pub mod cmd;
pub mod ctx;
pub mod log;

verus! {

/// What a run is asked to do.
#[derive(Debug, Clone, Copy, PartialEq, Eq)]
pub enum CliCmd {
    /// List changes between home and backup directories.
    List,
    /// Save changes in home directory to the backup.
    Save,
    /// Restore changes in backup directory to the home.
    Restore,
    /// Delete tracked dotfiles.
    Delete,
    /// Run init scripts.
    Run,
    /// Show dependency tree of profiles.
    Tree,
    /// Clear untracked files in backup directories.
    Clear,
}

/// The options of a run.
#[derive(Debug, Clone, PartialEq, Eq)]
pub struct Cli {
    /// What to do.
    pub cmd: CliCmd,
    /// Which profile to use.
    pub profile: Option<RelPathStr>,
    /// A different home directory to use.
    pub home: Option<AbsPathStr>,
    /// A different root directory to use.
    pub root: Option<AbsPathStr>,
    /// Answer yes to all prompts.
    pub assume_yes: bool,
    /// Answer no to all prompts.
    pub assume_no: bool,
    /// The level at which logs are shown.
    pub log: Option<String>,
}

/// The level at which logs are shown: the one asked for, else `off`.
pub open spec fn log_level_of(log: Option<String>) -> Seq<char> {
    match log {
        Some(l) => l@,
        None => "off"@,
    }
}

impl Cli {
    /// The level at which logs are shown: the one asked for, else `off`.
    pub fn log_level(&self) -> (res: &str)
        ensures
            res@ == log_level_of(self.log),
    {
        match &self.log {
            Some(l) => l.as_str(),
            None => "off",
        }
    }

    /// The logging options of the run.
    pub fn log_options(&self) -> (res: LogOptions<'_>)
        ensures
            res.level_view() == log_level_of(self.log),
    {
        LogOptions::new(self.log_level())
    }

    /// Sets up the context of the run (see [`CliContext::new`]) and gives it
    /// with the file work that its command calls for with its profile (see
    /// [`CliContext::plan`]); `found_home` and `found_root` are the home and
    /// current directories as the environment gives them, and `profiles`
    /// those found in the configuration directory.
    pub fn run(&self, found_home: Option<String>, found_root: Option<String>, profiles: AllProfiles) -> (res: Result<(CliContext, Vec<Action>), CommandError>)
        ensures
            match new_result(opt_view(self.home), opt_view(self.root), found_home.deep_view(), found_root.deep_view(), profiles@) {
                Err(f) => res matches Err(e) && e@ == CommandFault::Context(f),
                Ok(ctx) => match plan_result(ctx, self.cmd, opt_rel_view(self.profile)) {
                    Ok(a) => res matches Ok((c, v)) && c@ == ctx && action_views(v@) == a,
                    Err(f) => res matches Err(e) && e@ == f,
                },
            },
    {
        let ctx = match CliContext::new(&self.home, &self.root, found_home, found_root, profiles) {
            Ok(c) => c,
            Err(e) => return Err(CommandError::Context(e)),
        };
        let actions = ctx.plan(self.cmd, &self.profile)?;
        Ok((ctx, actions))
    }

    /// Whether the run asks before each change: only when told neither yes nor no.
    pub fn asks(&self) -> (res: bool)
        ensures
            res == (!self.assume_yes && !self.assume_no),
    {
        !self.assume_yes && !self.assume_no
    }

    /// Whether a change is made, given the reply to its prompt (which is
    /// only asked for when [`Cli::asks`]).
    pub fn confirms(&self, reply: bool) -> (res: bool)
        ensures
            res == confirms_spec(self.assume_yes, self.assume_no, reply),
    {
        if self.assume_yes {
            true
        } else if self.assume_no {
            false
        } else {
            reply
        }
    }
}

} // verus!

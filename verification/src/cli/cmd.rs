//! What each command does with the selected profile: the file work that it
//! calls for, decided here and carried out by the caller.
use vstd::prelude::*;
use vstd::string::*;
use crate::cli::CliCmd;
use crate::cli::ctx::{CliContext, ContextError, ContextFault, ContextView, Paths, PathsView};
use crate::fs::abs::{AbsPathStr, RelPathStr, rel_result, join_text, law_join_stays_below};
use crate::fs::path::{PathError, PathErrorKind, PartView};
use crate::prof::{
    AllProfiles, Profile, ProfileView, abs_views, any_backs_up, backs_up, joins_to, each_joined, join_each, profile_dir, profile_dir_of,
    profile_of, rel_views,
};

verus! {

/// A piece of file work that a command calls for.
#[derive(Debug)]
pub enum Action {
    /// Show how the home copy of a dotfile differs from its backup copy.
    Compare { home: AbsPathStr, backup: AbsPathStr },
    /// Copy the file `from` over the file `to`.
    Copy { from: AbsPathStr, to: AbsPathStr },
    /// Delete the path.
    Remove { path: AbsPathStr },
    /// Run the script.
    RunScript { path: AbsPathStr },
    /// Show a dotfile of the profile.
    Show { path: RelPathStr },
    /// Delete every file below the directory that no profile keeps a backup of.
    ClearUnder { dir: AbsPathStr },
}

/// The value of an [`Action`].
pub enum ActionView {
    Compare(Seq<char>, Seq<char>),
    Copy(Seq<char>, Seq<char>),
    Remove(Seq<char>),
    RunScript(Seq<char>),
    Show(Seq<char>),
    ClearUnder(Seq<char>),
}

impl View for Action {
    type V = ActionView;

    open spec fn view(&self) -> ActionView {
        match self {
            Action::Compare { home, backup } => ActionView::Compare(home@, backup@),
            Action::Copy { from, to } => ActionView::Copy(from@, to@),
            Action::Remove { path } => ActionView::Remove(path@),
            Action::RunScript { path } => ActionView::RunScript(path@),
            Action::Show { path } => ActionView::Show(path@),
            Action::ClearUnder { dir } => ActionView::ClearUnder(dir@),
        }
    }
}

/// The values of a sequence of actions.
pub open spec fn action_views(v: Seq<Action>) -> Seq<ActionView> {
    v.map_values(|a: Action| a@)
}

/// Why a command could not be planned.
#[derive(Debug)]
pub enum CommandError {
    /// The context of the run could not be set up.
    Context(ContextError),
    /// No profile was named.
    NoProfile,
    /// No profile has the name given.
    UnknownProfile(String),
    /// A path built for the profile was refused.
    Path(PathError),
}

/// The value of a [`CommandError`].
pub enum CommandFault {
    Context(ContextFault),
    NoProfile,
    UnknownProfile(Seq<char>),
    Path((PathErrorKind, Seq<char>)),
}

impl View for CommandError {
    type V = CommandFault;

    open spec fn view(&self) -> CommandFault {
        match self {
            CommandError::Context(e) => CommandFault::Context(e@),
            CommandError::NoProfile => CommandFault::NoProfile,
            CommandError::UnknownProfile(n) => CommandFault::UnknownProfile(n@),
            CommandError::Path(e) => CommandFault::Path(e@),
        }
    }
}

/// The relative path of a profile's configuration file: its name with `.conf` added.
pub open spec fn config_key(name: Seq<char>) -> Seq<char> {
    name + seq!['.', 'c', 'o', 'n', 'f']
}

/// The profile named `name`: a name is needed, and the profile is the one
/// filed under the name's configuration file.
pub open spec fn selected_profile(
    profiles: Map<Seq<PartView>, ProfileView>,
    name: Option<Seq<char>>,
) -> Result<ProfileView, CommandFault> {
    match name {
        None => Err(CommandFault::NoProfile),
        Some(n) => match rel_result(config_key(n)) {
            Err(_) => Err(CommandFault::UnknownProfile(n)),
            Ok(k) => match profile_of(profiles, k) {
                None => Err(CommandFault::UnknownProfile(n)),
                Some(p) => Ok(p),
            },
        },
    }
}

/// The dotfiles of a profile in the home directory and in its backup directory.
pub open spec fn home_and_backup(paths: PathsView, p: ProfileView) -> Result<(Seq<Seq<char>>, Seq<Seq<char>>), (PathErrorKind, Seq<char>)> {
    match each_joined(paths.home, p.dotfiles) {
        Err(e) => Err(e),
        Ok(h) => match profile_dir(paths.backup, p.name) {
            Err(e) => Err(e),
            Ok(d) => match each_joined(d, p.dotfiles) {
                Err(e) => Err(e),
                Ok(b) => Ok((h, b)),
            },
        },
    }
}

/// The file work of a command for one profile.
/// - list: compare each dotfile's home copy with its backup copy;
/// - save: copy each dotfile from home to backup;
/// - restore: copy each dotfile from backup to home;
/// - delete: delete each dotfile from home;
/// - run: run each of the profile's scripts from its run directory;
/// - tree: show each dotfile of the profile;
/// - clear: clear the profile's backup directory of what no profile backs up.
pub open spec fn plan_for(paths: PathsView, cmd: CliCmd, p: ProfileView) -> Result<Seq<ActionView>, (PathErrorKind, Seq<char>)> {
    match cmd {
        CliCmd::List => match home_and_backup(paths, p) {
            Err(e) => Err(e),
            Ok((h, b)) => Ok(Seq::new(h.len(), |i: int| ActionView::Compare(h[i], b[i]))),
        },
        CliCmd::Save => match home_and_backup(paths, p) {
            Err(e) => Err(e),
            Ok((h, b)) => Ok(Seq::new(h.len(), |i: int| ActionView::Copy(h[i], b[i]))),
        },
        CliCmd::Restore => match home_and_backup(paths, p) {
            Err(e) => Err(e),
            Ok((h, b)) => Ok(Seq::new(h.len(), |i: int| ActionView::Copy(b[i], h[i]))),
        },
        CliCmd::Delete => match each_joined(paths.home, p.dotfiles) {
            Err(e) => Err(e),
            Ok(h) => Ok(Seq::new(h.len(), |i: int| ActionView::Remove(h[i]))),
        },
        CliCmd::Run => match profile_dir(paths.run, p.name) {
            Err(e) => Err(e),
            Ok(d) => match each_joined(d, p.scripts) {
                Err(e) => Err(e),
                Ok(s) => Ok(Seq::new(s.len(), |i: int| ActionView::RunScript(s[i]))),
            },
        },
        CliCmd::Tree => Ok(Seq::new(p.dotfiles.len(), |i: int| ActionView::Show(p.dotfiles[i]))),
        CliCmd::Clear => match profile_dir(paths.backup, p.name) {
            Err(e) => Err(e),
            Ok(d) => Ok(seq![ActionView::ClearUnder(d)]),
        },
    }
}

/// The file work of a command: that of the selected profile.
pub open spec fn plan_result(ctx: ContextView, cmd: CliCmd, profile: Option<Seq<char>>) -> Result<Seq<ActionView>, CommandFault> {
    match selected_profile(ctx.profiles, profile) {
        Err(f) => Err(f),
        Ok(p) => match plan_for(ctx.paths, cmd, p) {
            Err(e) => Err(CommandFault::Path(e)),
            Ok(a) => Ok(a),
        },
    }
}

/// The text of an optional relative path.
pub open spec fn opt_rel_view(p: Option<RelPathStr>) -> Option<Seq<char>> {
    match p {
        Some(p) => Some(p@),
        None => None,
    }
}

/// Whether a file found below a backup directory is to be cleared away:
/// no profile keeps a backup copy there.
pub open spec fn clears(ctx: ContextView, file: Seq<char>) -> bool {
    !any_backs_up(ctx.profiles, ctx.paths.backup, file)
}

/// Whether a change is to be made: `yes` to every prompt makes it, `no` to
/// every prompt skips it, and otherwise the reply to the prompt decides.
pub open spec fn confirms_spec(assume_yes: bool, assume_no: bool, reply: bool) -> bool {
    if assume_yes {
        true
    } else if assume_no {
        false
    } else {
        reply
    }
}

/// Restoring undoes the direction of saving: for every profile, `restore`
/// copies back along exactly the pairs of paths that `save` copies along,
/// in the same order, and both fail alike.
pub proof fn law_restore_reverses_save(paths: PathsView, p: ProfileView)
    ensures
        plan_for(paths, CliCmd::Save, p) is Ok <==> plan_for(paths, CliCmd::Restore, p) is Ok,
        plan_for(paths, CliCmd::Save, p) matches Ok(s) ==> (plan_for(paths, CliCmd::Restore, p) matches Ok(r) && r.len() == s.len()
            && forall|i: int| 0 <= i < s.len() ==> (#[trigger] s[i] matches ActionView::Copy(from, to) && r[i] == ActionView::Copy(to, from))),
        plan_for(paths, CliCmd::Save, p) matches Err(e) ==> plan_for(paths, CliCmd::Restore, p) == Err::<Seq<ActionView>, _>(e),
{
}

/// Clearing never deletes a file that a profile keeps a backup copy of:
/// every dotfile of every profile, below that profile's backup directory,
/// is left alone.
pub proof fn law_clear_keeps_backups(ctx: ContextView, key: Seq<PartView>, i: int, file: Seq<char>)
    requires
        ctx.profiles.contains_key(key),
        profile_dir(ctx.paths.backup, ctx.profiles[key].name) is Ok,
        0 <= i < ctx.profiles[key].dotfiles.len(),
        joins_to(profile_dir(ctx.paths.backup, ctx.profiles[key].name)->Ok_0, ctx.profiles[key].dotfiles[i], file),
    ensures
        !clears(ctx, file),
{
    assert(backs_up(ctx.paths.backup, ctx.profiles[key], file));
}

/// Every item joined onto a base, in order: the joined paths are the
/// joined texts, one for each item.
proof fn lemma_each_joined_texts(base: Seq<char>, items: Seq<Seq<char>>)
    ensures
        each_joined(base, items) matches Ok(v) ==> v.len() == items.len() && forall|i: int|
            0 <= i < items.len() ==> #[trigger] v[i] == join_text(base, items[i]),
    decreases items.len(),
{
    if items.len() > 0 {
        lemma_each_joined_texts(base, items.drop_last());
    }
}

proof fn lemma_prefix_trans(a: Seq<char>, b: Seq<char>, c: Seq<char>)
    requires
        a.is_prefix_of(b),
        b.is_prefix_of(c),
    ensures
        a.is_prefix_of(c),
{
    assert forall|i: int| 0 <= i < a.len() implies a[i] == c[i] by {
        assert(a[i] == b.subrange(0, a.len() as int)[i]);
        assert(b[i] == c.subrange(0, b.len() as int)[i]);
    }
    assert(a =~= c.subrange(0, a.len() as int));
}

/// Saving copies each dotfile of the profile, in order, from the home
/// directory into the profile's directory below the backup directory; list
/// compares the very same pairs, and delete removes the very same home copies.
pub proof fn law_save_copies_home_into_backup(paths: PathsView, p: ProfileView)
    ensures
        plan_for(paths, CliCmd::Save, p) matches Ok(s) ==> {
            &&& s.len() == p.dotfiles.len()
            &&& profile_dir(paths.backup, p.name) is Ok
            &&& forall|i: int| 0 <= i < s.len() ==> (#[trigger] s[i] matches ActionView::Copy(from, to)
                && from == join_text(paths.home, p.dotfiles[i])
                && to == join_text(profile_dir(paths.backup, p.name)->Ok_0, p.dotfiles[i])
                && paths.home.is_prefix_of(from)
                && paths.backup.is_prefix_of(to))
        },
        plan_for(paths, CliCmd::Save, p) matches Ok(s) ==> (plan_for(paths, CliCmd::List, p) matches Ok(l) && l.len() == s.len()
            && forall|i: int| 0 <= i < s.len() ==> (#[trigger] s[i] matches ActionView::Copy(from, to) && l[i] == ActionView::Compare(from, to))),
        plan_for(paths, CliCmd::Save, p) matches Ok(s) ==> (plan_for(paths, CliCmd::Delete, p) matches Ok(d) && d.len() == s.len()
            && forall|i: int| 0 <= i < s.len() ==> (#[trigger] s[i] matches ActionView::Copy(from, to) && d[i] == ActionView::Remove(from))),
{
    lemma_each_joined_texts(paths.home, p.dotfiles);
    if let Ok(dir) = profile_dir(paths.backup, p.name) {
        lemma_each_joined_texts(dir, p.dotfiles);
        assert(dir == join_text(paths.backup, rel_result(p.name)->Ok_0));
        law_join_stays_below(paths.backup, rel_result(p.name)->Ok_0);
        assert forall|i: int| 0 <= i < p.dotfiles.len() implies paths.home.is_prefix_of(join_text(paths.home, p.dotfiles[i]))
            && paths.backup.is_prefix_of(join_text(dir, #[trigger] p.dotfiles[i])) by {
            law_join_stays_below(paths.home, p.dotfiles[i]);
            law_join_stays_below(dir, p.dotfiles[i]);
            lemma_prefix_trans(paths.backup, dir, join_text(dir, p.dotfiles[i]));
        }
    }
}

/// Whether a change is made: `yes` to every prompt makes it, `no` alone
/// skips it, and without either the reply decides.
pub proof fn law_prompts(reply: bool)
    ensures
        confirms_spec(true, false, reply),
        !confirms_spec(false, true, reply),
        confirms_spec(false, false, reply) == reply,
{
}

/// The profile selected by a name is the one filed under the name's
/// configuration file; without a name none is.
pub proof fn law_selection_finds_the_conf_file(profiles: Map<Seq<PartView>, ProfileView>, name: Seq<char>, p: ProfileView)
    ensures
        selected_profile(profiles, None) == Err::<ProfileView, _>(CommandFault::NoProfile),
        rel_result(config_key(name)) is Ok && profile_of(profiles, config_key(name)) == Some(p) ==> selected_profile(
            profiles,
            Some(name),
        ) == Ok::<_, CommandFault>(p),
        selected_profile(profiles, Some(name)) matches Ok(q) ==> profile_of(profiles, config_key(name)) == Some(q),
{
}

/// Clearing removes exactly what no profile backs up: a file that no
/// dotfile of any profile, below that profile's backup directory, names the
/// same path as is cleared.
pub proof fn law_clear_removes_the_rest(ctx: ContextView, file: Seq<char>)
    requires
        forall|k: Seq<PartView>, i: int|
            #![trigger ctx.profiles[k].dotfiles[i]]
            ctx.profiles.contains_key(k) && profile_dir(ctx.paths.backup, ctx.profiles[k].name) is Ok && 0 <= i
                < ctx.profiles[k].dotfiles.len() ==> !joins_to(
                profile_dir(ctx.paths.backup, ctx.profiles[k].name)->Ok_0,
                ctx.profiles[k].dotfiles[i],
                file,
            ),
    ensures
        clears(ctx, file),
{
    assert forall|k: Seq<PartView>| #[trigger] ctx.profiles.contains_key(k) implies !backs_up(ctx.paths.backup, ctx.profiles[k], file) by {
        if backs_up(ctx.paths.backup, ctx.profiles[k], file) {
            let i = choose|i: int|
                0 <= i < ctx.profiles[k].dotfiles.len() && #[trigger] joins_to(
                    profile_dir(ctx.paths.backup, ctx.profiles[k].name)->Ok_0,
                    ctx.profiles[k].dotfiles[i],
                    file,
                );
            assert(ctx.profiles[k].dotfiles[i] == ctx.profiles[k].dotfiles[i]);
        }
    }
}

/// A copy is made only where its source exists and differs from its target.
pub fn should_copy(source_exists: bool, same_content: bool) -> (res: bool)
    ensures
        res == (source_exists && !same_content),
{
    source_exists && !same_content
}

/// Builds one action for each pair of paths.
fn pair_actions(cmd: CliCmd, h: Vec<AbsPathStr>, b: Vec<AbsPathStr>) -> (res: Vec<Action>)
    requires
        h.len() == b.len(),
        cmd == CliCmd::List || cmd == CliCmd::Save || cmd == CliCmd::Restore,
    ensures
        cmd == CliCmd::List ==> action_views(res@) == Seq::new(h.len() as nat, |i: int| ActionView::Compare(abs_views(h@)[i], abs_views(b@)[i])),
        cmd == CliCmd::Save ==> action_views(res@) == Seq::new(h.len() as nat, |i: int| ActionView::Copy(abs_views(h@)[i], abs_views(b@)[i])),
        cmd == CliCmd::Restore ==> action_views(res@) == Seq::new(h.len() as nat, |i: int| ActionView::Copy(abs_views(b@)[i], abs_views(h@)[i])),
{
    let ghost hv = abs_views(h@);
    let ghost bv = abs_views(b@);
    let mut out: Vec<Action> = Vec::new();
    let mut i: usize = 0;
    while i < h.len()
        invariant
            i <= h.len(),
            h.len() == b.len(),
            out.len() == i,
            hv == abs_views(h@),
            bv == abs_views(b@),
            cmd == CliCmd::List || cmd == CliCmd::Save || cmd == CliCmd::Restore,
            cmd == CliCmd::List ==> action_views(out@) == Seq::new(i as nat, |j: int| ActionView::Compare(hv[j], bv[j])),
            cmd == CliCmd::Save ==> action_views(out@) == Seq::new(i as nat, |j: int| ActionView::Copy(hv[j], bv[j])),
            cmd == CliCmd::Restore ==> action_views(out@) == Seq::new(i as nat, |j: int| ActionView::Copy(bv[j], hv[j])),
        decreases h.len() - i,
    {
        let ghost before = action_views(out@);
        let a = match cmd {
            CliCmd::List => Action::Compare { home: h[i].clone(), backup: b[i].clone() },
            CliCmd::Save => Action::Copy { from: h[i].clone(), to: b[i].clone() },
            _ => Action::Copy { from: b[i].clone(), to: h[i].clone() },
        };
        out.push(a);
        assert(action_views(out@) =~= before.push(a@));
        proof {
            if cmd == CliCmd::List {
                assert(action_views(out@) =~= Seq::new((i + 1) as nat, |j: int| ActionView::Compare(hv[j], bv[j])));
            } else if cmd == CliCmd::Save {
                assert(action_views(out@) =~= Seq::new((i + 1) as nat, |j: int| ActionView::Copy(hv[j], bv[j])));
            } else {
                assert(action_views(out@) =~= Seq::new((i + 1) as nat, |j: int| ActionView::Copy(bv[j], hv[j])));
            }
        }
        i = i + 1;
    }
    out
}

/// Builds one action of the given kind for each path.
fn single_actions(remove: bool, p: Vec<AbsPathStr>) -> (res: Vec<Action>)
    ensures
        remove ==> action_views(res@) == Seq::new(p.len() as nat, |i: int| ActionView::Remove(abs_views(p@)[i])),
        !remove ==> action_views(res@) == Seq::new(p.len() as nat, |i: int| ActionView::RunScript(abs_views(p@)[i])),
{
    let ghost pv = abs_views(p@);
    let mut out: Vec<Action> = Vec::new();
    let mut i: usize = 0;
    while i < p.len()
        invariant
            i <= p.len(),
            out.len() == i,
            pv == abs_views(p@),
            remove ==> action_views(out@) == Seq::new(i as nat, |j: int| ActionView::Remove(pv[j])),
            !remove ==> action_views(out@) == Seq::new(i as nat, |j: int| ActionView::RunScript(pv[j])),
        decreases p.len() - i,
    {
        let ghost before = action_views(out@);
        let a = if remove {
            Action::Remove { path: p[i].clone() }
        } else {
            Action::RunScript { path: p[i].clone() }
        };
        out.push(a);
        assert(action_views(out@) =~= before.push(a@));
        proof {
            if remove {
                assert(action_views(out@) =~= Seq::new((i + 1) as nat, |j: int| ActionView::Remove(pv[j])));
            } else {
                assert(action_views(out@) =~= Seq::new((i + 1) as nat, |j: int| ActionView::RunScript(pv[j])));
            }
        }
        i = i + 1;
    }
    out
}

/// One `Show` action for each dotfile.
fn show_actions(d: &Vec<RelPathStr>) -> (res: Vec<Action>)
    ensures
        action_views(res@) == Seq::new(d.len() as nat, |i: int| ActionView::Show(rel_views(d@)[i])),
{
    let ghost dv = rel_views(d@);
    let mut out: Vec<Action> = Vec::new();
    let mut i: usize = 0;
    while i < d.len()
        invariant
            i <= d.len(),
            out.len() == i,
            dv == rel_views(d@),
            action_views(out@) == Seq::new(i as nat, |j: int| ActionView::Show(dv[j])),
        decreases d.len() - i,
    {
        let ghost before = action_views(out@);
        let a = Action::Show { path: d[i].clone() };
        out.push(a);
        assert(action_views(out@) =~= before.push(a@));
        assert(action_views(out@) =~= Seq::new((i + 1) as nat, |j: int| ActionView::Show(dv[j])));
        i = i + 1;
    }
    out
}

/// The dotfiles of a profile in the home directory and in its backup directory.
fn home_and_backup_of(home: &AbsPathStr, backup: &AbsPathStr, p: &Profile) -> (res: Result<(Vec<AbsPathStr>, Vec<AbsPathStr>), PathError>)
    ensures
        match home_and_backup(PathsView { home: home@, root: Seq::empty(), backup: backup@, config: Seq::empty(), run: Seq::empty() }, p@) {
            Ok((h, b)) => res matches Ok((hx, bx)) && abs_views(hx@) == h && abs_views(bx@) == b && hx.len() == bx.len()
                && hx.len() == p@.dotfiles.len(),
            Err(e) => res matches Err(x) && x@ == e,
        },
{
    let h = join_each(home, p.dotfiles())?;
    let d = profile_dir_of(backup, p.name())?;
    let b = join_each(&d, p.dotfiles())?;
    Ok((h, b))
}

impl CliContext {
    /// The profile named `profile`, found by its configuration file `<name>.conf`.
    pub fn select(&self, profile: &Option<RelPathStr>) -> (res: Result<&Profile, CommandError>)
        ensures
            match selected_profile(self@.profiles, opt_rel_view(*profile)) {
                Ok(v) => res matches Ok(p) && p@ == v,
                Err(f) => res matches Err(e) && e@ == f,
            },
    {
        let name = match profile {
            None => return Err(CommandError::NoProfile),
            Some(n) => n,
        };
        let mut key = name.to_string_lossy();
        proof {
            reveal_strlit(".conf");
        }
        key.append(".conf");
        assert(key@ =~= config_key(name@));
        let k = match RelPathStr::from_text(key.as_str()) {
            Ok(k) => k,
            Err(_) => return Err(CommandError::UnknownProfile(name.to_string_lossy())),
        };
        match self.profiles().get(&k) {
            Some(p) => Ok(p),
            None => Err(CommandError::UnknownProfile(name.to_string_lossy())),
        }
    }

    /// The file work that the command `cmd` calls for with the profile `profile`.
    pub fn plan(&self, cmd: CliCmd, profile: &Option<RelPathStr>) -> (res: Result<Vec<Action>, CommandError>)
        ensures
            match plan_result(self@, cmd, opt_rel_view(*profile)) {
                Ok(a) => res matches Ok(v) && action_views(v@) == a,
                Err(f) => res matches Err(e) && e@ == f,
            },
    {
        let p = self.select(profile)?;
        let home = self.path(&Paths::Home);
        let backup = self.path(&Paths::Backup);
        let run = self.path(&Paths::Run);
        let ghost paths = self@.paths;
        let ghost pv = p@;
        assert(home_and_backup(paths, pv) == home_and_backup(
            PathsView { home: home@, root: Seq::empty(), backup: backup@, config: Seq::empty(), run: Seq::empty() },
            pv,
        ));
        match cmd {
            CliCmd::List | CliCmd::Save | CliCmd::Restore => match home_and_backup_of(home, backup, p) {
                Err(e) => Err(CommandError::Path(e)),
                Ok((h, b)) => Ok(pair_actions(cmd, h, b)),
            },
            CliCmd::Delete => match join_each(home, p.dotfiles()) {
                Err(e) => Err(CommandError::Path(e)),
                Ok(h) => Ok(single_actions(true, h)),
            },
            CliCmd::Run => {
                let d = match profile_dir_of(run, p.name()) {
                    Ok(d) => d,
                    Err(e) => return Err(CommandError::Path(e)),
                };
                match join_each(&d, p.scripts()) {
                    Err(e) => Err(CommandError::Path(e)),
                    Ok(s) => Ok(single_actions(false, s)),
                }
            },
            CliCmd::Tree => Ok(show_actions(p.dotfiles())),
            CliCmd::Clear => match profile_dir_of(backup, p.name()) {
                Err(e) => Err(CommandError::Path(e)),
                Ok(d) => {
                    let mut v: Vec<Action> = Vec::new();
                    v.push(Action::ClearUnder { dir: d });
                    assert(action_views(v@) =~= seq![ActionView::ClearUnder(d@)]);
                    Ok(v)
                },
            },
        }
    }

    /// Whether a file found below a backup directory is to be cleared away:
    /// no profile, of all of them, keeps a backup copy there.
    pub fn clears(&self, file: &AbsPathStr) -> (res: bool)
        ensures
            res == clears(self@, file@),
    {
        !self.profiles().any_backs_up(self.path(&Paths::Backup), file)
    }
}

} // verus!

//! The context of a run: its directories, its profiles, and the name that
//! stands for every profile.
use vstd::prelude::*;
use vstd::string::*;
use crate::fs::FindCtx;
use crate::fs::abs::{AbsPathStr, RelPathStr, abs_result, rel_result, join_text, to_rel_result, law_join_stays_below,
    law_join_name_stays_valid};
use crate::fs::path::{PathError, PathErrorKind, PartView, is_single_name, law_single_name_is_one_component};
use crate::prof::{AllProfiles, ProfileView};

verus! {

/// The directories that a run works with.
#[derive(Debug, Clone, Copy, PartialEq, Eq, Hash)]
pub enum Paths {
    Home,
    Root,
    Backup,
    Config,
    Run,
}

/// The value of a [`PathTable`]: the text of each directory.
pub struct PathsView {
    pub home: Seq<char>,
    pub root: Seq<char>,
    pub backup: Seq<char>,
    pub config: Seq<char>,
    pub run: Seq<char>,
}

impl PathsView {
    /// The text of the directory `which`.
    pub open spec fn of(self, which: Paths) -> Seq<char> {
        match which {
            Paths::Home => self.home,
            Paths::Root => self.root,
            Paths::Backup => self.backup,
            Paths::Config => self.config,
            Paths::Run => self.run,
        }
    }
}

/// One absolute path for each of the [`Paths`].
#[derive(Debug)]
pub struct PathTable {
    home: AbsPathStr,
    root: AbsPathStr,
    backup: AbsPathStr,
    config: AbsPathStr,
    run: AbsPathStr,
}

impl View for PathTable {
    type V = PathsView;

    closed spec fn view(&self) -> PathsView {
        PathsView {
            home: self.home@,
            root: self.root@,
            backup: self.backup@,
            config: self.config@,
            run: self.run@,
        }
    }
}

impl PathTable {
    /// The path of the directory `which`.
    pub fn get(&self, which: &Paths) -> (res: &AbsPathStr)
        ensures
            res@ == self@.of(*which),
    {
        match which {
            Paths::Home => &self.home,
            Paths::Root => &self.root,
            Paths::Backup => &self.backup,
            Paths::Config => &self.config,
            Paths::Run => &self.run,
        }
    }
}

/// Why the context of a run could not be set up.
#[derive(Debug)]
pub enum ContextError {
    /// No home directory was given and none could be found.
    NoHomeDir,
    /// The home directory found is not a valid absolute path.
    InvalidHomeDir(PathError),
    /// No root directory was given and the current directory could not be found.
    NoRootDir,
    /// The current directory is not a valid absolute path.
    InvalidRootDir(PathError),
    /// A path built from the root directory was refused.
    Path(PathError),
}

/// The value of a [`ContextError`].
pub enum ContextFault {
    NoHomeDir,
    InvalidHomeDir((PathErrorKind, Seq<char>)),
    NoRootDir,
    InvalidRootDir((PathErrorKind, Seq<char>)),
    Path((PathErrorKind, Seq<char>)),
}

impl View for ContextError {
    type V = ContextFault;

    open spec fn view(&self) -> ContextFault {
        match self {
            ContextError::NoHomeDir => ContextFault::NoHomeDir,
            ContextError::InvalidHomeDir(e) => ContextFault::InvalidHomeDir(e@),
            ContextError::NoRootDir => ContextFault::NoRootDir,
            ContextError::InvalidRootDir(e) => ContextFault::InvalidRootDir(e@),
            ContextError::Path(e) => ContextFault::Path(e@),
        }
    }
}

/// The text of an optional path.
pub open spec fn opt_view(p: Option<AbsPathStr>) -> Option<Seq<char>> {
    match p {
        Some(p) => Some(p@),
        None => None,
    }
}

/// The directory that was given, else the one found in the environment,
/// which must be a valid absolute path.
pub open spec fn resolve_dir(
    given: Option<Seq<char>>,
    found: Option<Seq<char>>,
    missing: ContextFault,
    is_home: bool,
) -> Result<Seq<char>, ContextFault> {
    match given {
        Some(g) => Ok(g),
        None => match found {
            None => Err(missing),
            Some(f) => match abs_result(f) {
                Ok(p) => Ok(p),
                Err(e) => if is_home {
                    Err(ContextFault::InvalidHomeDir(e))
                } else {
                    Err(ContextFault::InvalidRootDir(e))
                },
            },
        },
    }
}

/// The directory `name` below `base`: the name must be a valid relative
/// path, and the joined text a valid absolute path.
pub open spec fn join_result(base: Seq<char>, name: Seq<char>) -> Result<Seq<char>, ContextFault> {
    match rel_result(name) {
        Err(e) => Err(ContextFault::Path(e)),
        Ok(n) => match abs_result(join_text(base, n)) {
            Err(e) => Err(ContextFault::Path(e)),
            Ok(p) => Ok(p),
        },
    }
}

/// The directories of a run: home and root as given or found, and the
/// backup, config and run directories below the root.
pub open spec fn load_paths_result(
    home: Option<Seq<char>>,
    root: Option<Seq<char>>,
    found_home: Option<Seq<char>>,
    found_root: Option<Seq<char>>,
) -> Result<PathsView, ContextFault> {
    match resolve_dir(home, found_home, ContextFault::NoHomeDir, true) {
        Err(f) => Err(f),
        Ok(h) => match resolve_dir(root, found_root, ContextFault::NoRootDir, false) {
            Err(f) => Err(f),
            Ok(r) => match join_result(r, "backup"@) {
                Err(f) => Err(f),
                Ok(b) => match join_result(r, "config"@) {
                    Err(f) => Err(f),
                    Ok(c) => match join_result(r, "run"@) {
                        Err(f) => Err(f),
                        Ok(u) => Ok(PathsView { home: h, root: r, backup: b, config: c, run: u }),
                    },
                },
            },
        },
    }
}

/// The backup, config and run directories lie below the root directory,
/// and a home or root directory that was given is used as it is.
pub proof fn law_dirs_lie_below_root(
    home: Option<Seq<char>>,
    root: Option<Seq<char>>,
    found_home: Option<Seq<char>>,
    found_root: Option<Seq<char>>,
)
    ensures
        load_paths_result(home, root, found_home, found_root) matches Ok(v) ==> {
            &&& v.root.is_prefix_of(v.backup)
            &&& v.root.is_prefix_of(v.config)
            &&& v.root.is_prefix_of(v.run)
            &&& (home matches Some(h) ==> v.home == h)
            &&& (root matches Some(r) ==> v.root == r)
        },
{
    if let Ok(v) = load_paths_result(home, root, found_home, found_root) {
        law_join_stays_below(v.root, "backup"@);
        law_join_stays_below(v.root, "config"@);
        law_join_stays_below(v.root, "run"@);
    }
}

proof fn lemma_fixed_names_are_single()
    ensures
        is_single_name("backup"@),
        is_single_name("config"@),
        is_single_name("run"@),
        is_single_name("all"@),
{
    reveal_strlit("backup");
    reveal_strlit("config");
    reveal_strlit("run");
    reveal_strlit("all");
    assert(("backup"@).len() == 6 && seq!['.'].len() == 1 && seq!['.', '.'].len() == 2);
    assert(("config"@).len() == 6 && ("run"@).len() == 3 && ("all"@).len() == 3);
    assert("backup"@ != seq!['.']);
    assert("backup"@ != seq!['.', '.']);
    assert("config"@ != seq!['.']);
    assert("config"@ != seq!['.', '.']);
    assert("run"@ != seq!['.']);
    assert("run"@ != seq!['.', '.']);
    assert("all"@ != seq!['.']);
    assert("all"@ != seq!['.', '.']);
}

/// The directories of a run are always set up once its home and root
/// directories are known (given, or found as valid absolute paths): the
/// backup, config and run directories below a valid root are valid.
pub proof fn law_paths_load_when_dirs_are_known(
    home: Option<Seq<char>>,
    root: Option<Seq<char>>,
    found_home: Option<Seq<char>>,
    found_root: Option<Seq<char>>,
    profiles: Map<Seq<PartView>, ProfileView>,
)
    requires
        home matches Some(h) ==> abs_result(h) is Ok,
        root matches Some(r) ==> abs_result(r) is Ok,
        home is None ==> (found_home matches Some(f) && abs_result(f) is Ok),
        root is None ==> (found_root matches Some(f) && abs_result(f) is Ok),
    ensures
        load_paths_result(home, root, found_home, found_root) is Ok,
        new_result(home, root, found_home, found_root, profiles) is Ok,
{
    lemma_fixed_names_are_single();
    let r = match root {
        Some(r) => r,
        None => found_root.unwrap(),
    };
    law_join_name_stays_valid(r, "backup"@);
    law_join_name_stays_valid(r, "config"@);
    law_join_name_stays_valid(r, "run"@);
    law_single_name_is_one_component("all"@);
    assert(("all"@)[0] != '/');
}

/// The value of a [`CliContext`].
pub struct ContextView {
    pub paths: PathsView,
    pub profiles: Map<Seq<PartView>, ProfileView>,
    pub all_name: Seq<char>,
}

/// What [`CliContext::new`] gives.
pub open spec fn new_result(
    home: Option<Seq<char>>,
    root: Option<Seq<char>>,
    found_home: Option<Seq<char>>,
    found_root: Option<Seq<char>>,
    profiles: Map<Seq<PartView>, ProfileView>,
) -> Result<ContextView, ContextFault> {
    match load_paths_result(home, root, found_home, found_root) {
        Err(f) => Err(f),
        Ok(paths) => match rel_result("all"@) {
            Err(e) => Err(ContextFault::Path(e)),
            Ok(a) => Ok(ContextView { paths, profiles, all_name: a }),
        },
    }
}

/// The profile that a configuration file holds: none for a dotfile; else
/// its path relative to the configuration directory, when it ends in
/// `.conf`, less that suffix.
pub open spec fn profile_name(file_name: Seq<char>, rel: Seq<char>) -> Option<Seq<char>> {
    if file_name.len() > 0 && file_name[0] == '.' {
        None
    } else if rel.len() >= 5 && rel.subrange(rel.len() - 5, rel.len() as int) == seq!['.', 'c', 'o', 'n', 'f'] {
        Some(rel.subrange(0, rel.len() - 5))
    } else {
        None
    }
}

/// A profile's name, with `.conf` put back, is the relative path of its file.
pub proof fn law_profile_name_restores_path(file_name: Seq<char>, rel: Seq<char>)
    ensures
        profile_name(file_name, rel) matches Some(name) ==> name + seq!['.', 'c', 'o', 'n', 'f'] == rel,
{
    if rel.len() >= 5 {
        assert(rel.subrange(0, rel.len() - 5) + rel.subrange(rel.len() - 5, rel.len() as int) =~= rel);
    }
}

/// Every file whose name does not start with `.` and whose relative path
/// is some name followed by `.conf` holds the profile of that name, and no
/// other file holds a profile.
pub proof fn law_conf_files_hold_profiles(file_name: Seq<char>, name: Seq<char>, rel: Seq<char>)
    ensures
        (file_name.len() == 0 || file_name[0] != '.') && rel == name + seq!['.', 'c', 'o', 'n', 'f'] ==> profile_name(
            file_name,
            rel,
        ) == Some(name),
        file_name.len() > 0 && file_name[0] == '.' ==> profile_name(file_name, rel) is None,
        profile_name(file_name, rel) is Some ==> (file_name.len() == 0 || file_name[0] != '.')
            && rel.len() >= 5 && rel.subrange(rel.len() - 5, rel.len() as int) == seq!['.', 'c', 'o', 'n', 'f'],
{
    let suffix = seq!['.', 'c', 'o', 'n', 'f'];
    if rel == name + suffix {
        assert(rel.subrange(rel.len() - 5, rel.len() as int) =~= suffix);
        assert(rel.subrange(0, rel.len() - 5) =~= name);
    }
}

/// The directories, profiles and the name of every profile for a run.
#[derive(Debug)]
pub struct CliContext {
    paths: PathTable,
    profiles: AllProfiles,
    all_name: RelPathStr,
}

impl View for CliContext {
    type V = ContextView;

    closed spec fn view(&self) -> ContextView {
        ContextView { paths: self.paths@, profiles: self.profiles@, all_name: self.all_name@ }
    }
}

/// Accepts a directory found in the environment as an absolute path.
fn resolve(
    given: &Option<AbsPathStr>,
    found: Option<String>,
    is_home: bool,
) -> (res: Result<AbsPathStr, ContextError>)
    ensures
        match resolve_dir(
            opt_view(*given),
            found.deep_view(),
            if is_home { ContextFault::NoHomeDir } else { ContextFault::NoRootDir },
            is_home,
        ) {
            Ok(p) => res matches Ok(d) && d@ == p,
            Err(f) => res matches Err(e) && e@ == f,
        },
{
    match given {
        Some(dir) => Ok(dir.clone()),
        None => match found {
            None => if is_home {
                Err(ContextError::NoHomeDir)
            } else {
                Err(ContextError::NoRootDir)
            },
            Some(text) => match AbsPathStr::new_from_pathbuf(text) {
                Ok(dir) => Ok(dir),
                Err(e) => if is_home {
                    Err(ContextError::InvalidHomeDir(e))
                } else {
                    Err(ContextError::InvalidRootDir(e))
                },
            },
        },
    }
}

/// The directory `name` below `base`.
fn join_name(base: &AbsPathStr, name: &str) -> (res: Result<AbsPathStr, ContextError>)
    ensures
        match join_result(base@, name@) {
            Ok(p) => res matches Ok(d) && d@ == p,
            Err(f) => res matches Err(e) && e@ == f,
        },
{
    match RelPathStr::from_text(name) {
        Err(e) => Err(ContextError::Path(e)),
        Ok(rel) => match base.join(&rel) {
            Err(e) => Err(ContextError::Path(e)),
            Ok(p) => Ok(p),
        },
    }
}

impl CliContext {
    /// The directories of a run. `found_home` and `found_root` are the home
    /// directory and the current directory as the environment gives them; each
    /// is used only where the directory was not given.
    pub fn load_paths(
        home: &Option<AbsPathStr>,
        root: &Option<AbsPathStr>,
        found_home: Option<String>,
        found_root: Option<String>,
    ) -> (res: Result<PathTable, ContextError>)
        ensures
            match load_paths_result(opt_view(*home), opt_view(*root), found_home.deep_view(), found_root.deep_view()) {
                Ok(v) => res matches Ok(t) && t@ == v,
                Err(f) => res matches Err(e) && e@ == f,
            },
    {
        let home_dir = resolve(home, found_home, true)?;
        let root_dir = resolve(root, found_root, false)?;
        let backup_dir = join_name(&root_dir, "backup")?;
        let config_dir = join_name(&root_dir, "config")?;
        let run_dir = join_name(&root_dir, "run")?;
        Ok(PathTable { home: home_dir, root: root_dir, backup: backup_dir, config: config_dir, run: run_dir })
    }

    /// The context of a run: its directories (see [`CliContext::load_paths`]),
    /// the profiles found in its configuration directory, and the name `all`.
    pub fn new(
        home: &Option<AbsPathStr>,
        root: &Option<AbsPathStr>,
        found_home: Option<String>,
        found_root: Option<String>,
        profiles: AllProfiles,
    ) -> (res: Result<Self, ContextError>)
        ensures
            match new_result(opt_view(*home), opt_view(*root), found_home.deep_view(), found_root.deep_view(), profiles@) {
                Ok(v) => res matches Ok(c) && c@ == v,
                Err(f) => res matches Err(e) && e@ == f,
            },
    {
        let paths = Self::load_paths(home, root, found_home, found_root)?;
        let all_name = match RelPathStr::from_text("all") {
            Ok(a) => a,
            Err(e) => return Err(ContextError::Path(e)),
        };
        Ok(CliContext { paths, profiles, all_name })
    }

    /// Where a file met in the configuration directory goes: `None` for a
    /// dotfile or a file not ending in `.conf`, else its path relative to the
    /// configuration directory and the name of its profile.
    pub fn profile_entry(config_dir: &AbsPathStr, ctx: &FindCtx) -> (res: Result<Option<(RelPathStr, String)>, ContextError>)
        ensures
            match to_rel_result(ctx.path@, config_dir@) {
                Err(e) => res matches Err(c) && c@ == ContextFault::Path(e),
                Ok(rel) => match profile_name(ctx.file_name@, rel) {
                    None => res matches Ok(None),
                    Some(name) => res matches Ok(Some((r, n))) && r@ == rel && n@ == name,
                },
            },
    {
        let conf_rel = match ctx.path.to_rel(config_dir) {
            Ok(r) => r,
            Err(e) => return Err(ContextError::Path(e)),
        };
        let fname = ctx.file_name.as_str();
        if fname.unicode_len() > 0 && fname.get_char(0) == '.' {
            return Ok(None);
        }
        let text = conf_rel.path();
        let n = text.unicode_len();
        if n >= 5 && text.get_char(n - 5) == '.' && text.get_char(n - 4) == 'c' && text.get_char(n - 3) == 'o'
            && text.get_char(n - 2) == 'n' && text.get_char(n - 1) == 'f' {
            let name = text.substring_char(0, n - 5).to_owned();
            assert(text@.subrange(n - 5, n as int) =~= seq!['.', 'c', 'o', 'n', 'f']);
            Ok(Some((conf_rel, name)))
        } else {
            proof {
                if n >= 5 {
                    let tail = text@.subrange(n - 5, n as int);
                    if tail == seq!['.', 'c', 'o', 'n', 'f'] {
                        assert(tail[0] == text@[n - 5]);
                        assert(tail[1] == text@[n - 4]);
                        assert(tail[2] == text@[n - 3]);
                        assert(tail[3] == text@[n - 2]);
                        assert(tail[4] == text@[n - 1]);
                    }
                }
            }
            Ok(None)
        }
    }

    /// The profiles of a run whose configuration directory is missing: none.
    /// `None` where the directory is there, to be scanned for profiles.
    pub fn profiles_without_config(config_is_dir: bool) -> (res: Option<AllProfiles>)
        ensures
            config_is_dir <==> res is None,
            res matches Some(p) ==> p@ == Map::<Seq<PartView>, ProfileView>::empty(),
    {
        if config_is_dir {
            None
        } else {
            Some(AllProfiles::new())
        }
    }

    /// The path of the directory `path`.
    pub fn path(&self, path: &Paths) -> (res: &AbsPathStr)
        ensures
            res@ == self@.paths.of(*path),
    {
        self.paths.get(path)
    }

    /// The profiles.
    pub fn profiles(&self) -> (res: &AllProfiles)
        ensures
            res@ == self@.profiles,
    {
        &self.profiles
    }

    /// The name that stands for every profile.
    pub fn all_name(&self) -> (res: &RelPathStr)
        ensures
            res@ == self@.all_name,
    {
        &self.all_name
    }
}

} // verus!

use autosaver::cli::cmd::{should_copy, Action, CommandError};
use autosaver::cli::ctx::{CliContext, ContextError, Paths};
use autosaver::cli::log::LogOptions;
use autosaver::cli::{Cli, CliCmd};
use autosaver::fs::abs::{AbsPathStr, RelPathStr};
use autosaver::fs::path::PathErrorKind;
use autosaver::fs::FindCtx;
use autosaver::prof::{AllProfiles, Profile};
use std::str::FromStr;

fn abs(s: &str) -> AbsPathStr {
    AbsPathStr::from_str(s).unwrap()
}

fn rel(s: &str) -> RelPathStr {
    RelPathStr::from_str(s).unwrap()
}

#[test]
fn context_uses_given_dirs() {
    let mut profiles = AllProfiles::new();
    profiles.insert(rel("vim.conf"), Profile::parse_config(".vimrc", "vim").unwrap());
    let ctx = CliContext::new(&Some(abs("/home/u")), &Some(abs("/srv/dots")), None, None, profiles).unwrap();
    assert_eq!(ctx.path(&Paths::Home).path(), "/home/u");
    assert_eq!(ctx.path(&Paths::Root).path(), "/srv/dots");
    assert_eq!(ctx.path(&Paths::Backup).path(), "/srv/dots/backup");
    assert_eq!(ctx.path(&Paths::Config).path(), "/srv/dots/config");
    assert_eq!(ctx.path(&Paths::Run).path(), "/srv/dots/run");
    assert_eq!(ctx.all_name().path(), "all");
    let p = ctx.profiles().get(&rel("vim.conf")).unwrap();
    assert_eq!(p.name(), "vim");
    assert_eq!(p.dotfiles()[0].path(), ".vimrc");
}

#[test]
fn context_falls_back_to_found_dirs() {
    let ctx = CliContext::new(&None, &None, Some("/home/v".to_string()), Some("/work".to_string()), AllProfiles::new())
        .unwrap();
    assert_eq!(ctx.path(&Paths::Home).path(), "/home/v");
    assert_eq!(ctx.path(&Paths::Config).path(), "/work/config");
}

#[test]
fn given_dirs_win_over_found_ones() {
    let t = CliContext::load_paths(&Some(abs("/h")), &Some(abs("/r")), Some("/x".to_string()), Some("/y".to_string()))
        .unwrap();
    assert_eq!(t.get(&Paths::Home).path(), "/h");
    assert_eq!(t.get(&Paths::Root).path(), "/r");
    for p in [Paths::Backup, Paths::Config, Paths::Run] {
        assert!(t.get(&p).path().starts_with("/r/"));
    }
}

#[test]
fn missing_home_is_an_error() {
    let e = CliContext::new(&None, &Some(abs("/r")), None, None, AllProfiles::new()).unwrap_err();
    assert!(matches!(e, ContextError::NoHomeDir));
}

#[test]
fn invalid_home_is_an_error() {
    match CliContext::load_paths(&None, &Some(abs("/r")), Some("home".to_string()), None).unwrap_err() {
        ContextError::InvalidHomeDir(e) => {
            assert_eq!(e.kind, PathErrorKind::NotAbsolute);
            assert_eq!(e.path, "home");
        }
        other => panic!("unexpected error {:?}", other),
    }
}

#[test]
fn missing_or_invalid_root_is_an_error() {
    let e = CliContext::load_paths(&Some(abs("/h")), &None, None, None).unwrap_err();
    assert!(matches!(e, ContextError::NoRootDir));
    match CliContext::load_paths(&Some(abs("/h")), &None, None, Some("/a/../b".to_string())).unwrap_err() {
        ContextError::InvalidRootDir(e) => assert_eq!(e.kind, PathErrorKind::ParentDir),
        other => panic!("unexpected error {:?}", other),
    }
}

#[test]
fn home_is_checked_before_root() {
    let e = CliContext::load_paths(&None, &None, None, None).unwrap_err();
    assert!(matches!(e, ContextError::NoHomeDir));
}

#[test]
fn profile_entries() {
    let config = abs("/r/config");
    let entry = |p: &str, n: &str| FindCtx::new(abs(p), n.to_string(), 1);
    let (r, name) = CliContext::profile_entry(&config, &entry("/r/config/vim.conf", "vim.conf")).unwrap().unwrap();
    assert_eq!(r.path(), "vim.conf");
    assert_eq!(name, "vim");
    let (r, name) = CliContext::profile_entry(&config, &entry("/r/config/sub/x.conf", "x.conf")).unwrap().unwrap();
    assert_eq!(r.path(), "sub/x.conf");
    assert_eq!(name, "sub/x");
    assert_eq!(format!("{}.conf", name), r.path());
    assert!(CliContext::profile_entry(&config, &entry("/r/config/.hidden.conf", ".hidden.conf")).unwrap().is_none());
    assert!(CliContext::profile_entry(&config, &entry("/r/config/readme", "readme")).unwrap().is_none());
    assert!(CliContext::profile_entry(&config, &entry("/r/config/conf", "conf")).unwrap().is_none());
    match CliContext::profile_entry(&config, &entry("/elsewhere/a.conf", "a.conf")).unwrap_err() {
        ContextError::Path(e) => assert_eq!(e.kind, PathErrorKind::NotUnderBase),
        other => panic!("unexpected error {:?}", other),
    }
}

#[test]
fn profiles_insert_then_get() {
    let mut all = AllProfiles::new();
    assert!(all.get(&rel("a.conf")).is_none());
    all.insert(rel("a.conf"), Profile::parse_config("one", "a").unwrap());
    all.insert(rel("b.conf"), Profile::parse_config("two", "b").unwrap());
    assert_eq!(all.get(&rel("a.conf")).unwrap().dotfiles()[0].path(), "one");
    all.insert(rel("a.conf"), Profile::parse_config("three", "a").unwrap());
    assert_eq!(all.get(&rel("a.conf")).unwrap().dotfiles()[0].path(), "three");
    assert_eq!(all.get(&rel("b.conf")).unwrap().dotfiles()[0].path(), "two");
    assert!(all.get(&rel("c.conf")).is_none());
}

fn cli(log: Option<&str>, home: Option<&str>, root: Option<&str>) -> Cli {
    Cli {
        cmd: CliCmd::List,
        profile: None,
        home: home.map(abs),
        root: root.map(abs),
        assume_yes: false,
        assume_no: false,
        log: log.map(|s| s.to_string()),
    }
}

#[test]
fn log_level_defaults_to_off() {
    assert_eq!(cli(None, None, None).log_level(), "off");
    assert_eq!(cli(Some("debug"), None, None).log_level(), "debug");
    let c = cli(Some("info"), None, None);
    assert_eq!(c.log_options().level(), "info");
    assert_eq!(LogOptions::new("trace").level(), "trace");
}

#[test]
fn run_sets_up_the_context() {
    let mut c = cli(None, Some("/h"), Some("/r"));
    c.cmd = CliCmd::Tree;
    c.profile = Some(rel("vim"));
    let (ctx, actions) = c.run(None, None, vim_profiles()).unwrap();
    assert_eq!(ctx.path(&Paths::Home).path(), "/h");
    assert_eq!(actions.len(), 2);
    let mut d = cli(None, None, Some("/r"));
    d.profile = Some(rel("vim"));
    assert!(d.run(Some("/h".to_string()), None, vim_profiles()).is_ok());
    assert!(matches!(
        cli(None, None, Some("/r")).run(None, None, AllProfiles::new()),
        Err(CommandError::Context(ContextError::NoHomeDir))
    ));
    assert!(matches!(cli(None, Some("/h"), Some("/r")).run(None, None, AllProfiles::new()), Err(CommandError::NoProfile)));
}

#[test]
fn profiles_are_keyed_by_path_not_by_text() {
    let mut all = AllProfiles::new();
    all.insert(rel("sub/x.conf"), Profile::parse_config("one", "sub/x").unwrap());
    assert_eq!(all.get(&rel("sub//x.conf")).unwrap().dotfiles()[0].path(), "one");
    all.insert(rel("sub/./x.conf"), Profile::parse_config("two", "sub/x").unwrap());
    assert_eq!(all.get(&rel("sub/x.conf")).unwrap().dotfiles()[0].path(), "two");
    assert!(all.get(&rel("sub/y.conf")).is_none());
}

fn vim_profiles() -> AllProfiles {
    let mut all = AllProfiles::new();
    all.insert(rel("vim.conf"), Profile::parse_config("# vim\n.vimrc\nrun setup.sh\n.vim/colors\n", "vim").unwrap());
    all.insert(rel("git.conf"), Profile::parse_config(".gitconfig\n", "git").unwrap());
    all
}

fn vim_context() -> CliContext {
    CliContext::new(&Some(abs("/h")), &Some(abs("/r")), None, None, vim_profiles()).unwrap()
}

fn texts(actions: &[Action]) -> Vec<String> {
    actions
        .iter()
        .map(|a| match a {
            Action::Compare { home, backup } => format!("compare {} {}", home.path(), backup.path()),
            Action::Copy { from, to } => format!("copy {} {}", from.path(), to.path()),
            Action::Remove { path } => format!("remove {}", path.path()),
            Action::RunScript { path } => format!("run {}", path.path()),
            Action::Show { path } => format!("show {}", path.path()),
            Action::ClearUnder { dir } => format!("clear {}", dir.path()),
        })
        .collect()
}

#[test]
fn parse_config_reads_dotfiles_and_scripts() {
    let p = Profile::parse_config("# comment\n.vimrc\n\nrun setup.sh\n.config/nvim/init.lua\n", "vim").unwrap();
    assert_eq!(p.name(), "vim");
    let d: Vec<&str> = p.dotfiles().iter().map(|r| r.path()).collect();
    assert_eq!(d, vec![".vimrc", ".config/nvim/init.lua"]);
    let s: Vec<&str> = p.scripts().iter().map(|r| r.path()).collect();
    assert_eq!(s, vec!["setup.sh"]);
    assert!(Profile::parse_config("", "empty").unwrap().dotfiles().is_empty());
}

#[test]
fn parse_config_refuses_bad_paths() {
    let e = Profile::parse_config(".vimrc\n../escape\nrun /abs\n", "x").unwrap_err();
    assert_eq!(e.kind, PathErrorKind::ParentDir);
    assert_eq!(e.path, "../escape");
    let e = Profile::parse_config("run /abs\n", "x").unwrap_err();
    assert_eq!(e.kind, PathErrorKind::NotRelative);
    assert_eq!(e.path, "/abs");
}

#[test]
fn save_copies_home_to_backup_and_restore_back() {
    let ctx = vim_context();
    let name = Some(rel("vim"));
    let save = ctx.plan(CliCmd::Save, &name).unwrap();
    assert_eq!(texts(&save), vec!["copy /h/.vimrc /r/backup/vim/.vimrc", "copy /h/.vim/colors /r/backup/vim/.vim/colors"]);
    let restore = ctx.plan(CliCmd::Restore, &name).unwrap();
    assert_eq!(texts(&restore), vec!["copy /r/backup/vim/.vimrc /h/.vimrc", "copy /r/backup/vim/.vim/colors /h/.vim/colors"]);
    let list = ctx.plan(CliCmd::List, &name).unwrap();
    assert_eq!(texts(&list)[0], "compare /h/.vimrc /r/backup/vim/.vimrc");
}

#[test]
fn delete_run_tree_and_clear_plans() {
    let ctx = vim_context();
    let name = Some(rel("vim"));
    assert_eq!(texts(&ctx.plan(CliCmd::Delete, &name).unwrap()), vec!["remove /h/.vimrc", "remove /h/.vim/colors"]);
    assert_eq!(texts(&ctx.plan(CliCmd::Run, &name).unwrap()), vec!["run /r/run/vim/setup.sh"]);
    assert_eq!(texts(&ctx.plan(CliCmd::Tree, &name).unwrap()), vec!["show .vimrc", "show .vim/colors"]);
    assert_eq!(texts(&ctx.plan(CliCmd::Clear, &name).unwrap()), vec!["clear /r/backup/vim"]);
    let git = Some(rel("git"));
    assert_eq!(texts(&ctx.plan(CliCmd::Save, &git).unwrap()), vec!["copy /h/.gitconfig /r/backup/git/.gitconfig"]);
}

#[test]
fn the_profile_must_be_named_and_known() {
    let ctx = vim_context();
    assert!(matches!(ctx.plan(CliCmd::Save, &None), Err(CommandError::NoProfile)));
    match ctx.plan(CliCmd::Save, &Some(rel("emacs"))) {
        Err(CommandError::UnknownProfile(n)) => assert_eq!(n, "emacs"),
        other => panic!("unexpected {:?}", other),
    }
    assert_eq!(ctx.select(&Some(rel("vim"))).unwrap().name(), "vim");
}

#[test]
fn clear_keeps_every_backed_up_file() {
    let ctx = vim_context();
    assert!(!ctx.clears(&abs("/r/backup/vim/.vimrc")));
    assert!(!ctx.clears(&abs("/r/backup/vim//.vim/colors")));
    assert!(!ctx.clears(&abs("/r/backup/git/.gitconfig")));
    assert!(ctx.clears(&abs("/r/backup/vim/old")));
    assert!(ctx.clears(&abs("/r/backup/vim/.gitconfig")));
}

#[test]
fn prompts_and_copies() {
    let mut c = cli(None, None, None);
    assert!(c.asks());
    assert!(c.confirms(true));
    assert!(!c.confirms(false));
    c.assume_yes = true;
    assert!(!c.asks());
    assert!(c.confirms(false));
    c.assume_yes = false;
    c.assume_no = true;
    assert!(!c.confirms(true));
    assert!(should_copy(true, false));
    assert!(!should_copy(true, true));
    assert!(!should_copy(false, false));
}

#[test]
fn a_missing_config_dir_means_no_profiles() {
    let none = CliContext::profiles_without_config(false).unwrap();
    assert!(none.get(&rel("vim.conf")).is_none());
    assert!(CliContext::profiles_without_config(true).is_none());
}

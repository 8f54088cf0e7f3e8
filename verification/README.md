# autosaver

The verified core of a dotfiles manager.

- `src/fs/path.rs`: `PathStr`, a path held as text in which no component is
  `..` or `.`, and equal to another when their components are the same. The
  component split of `std::path` is stated as documented for Unix paths;
  it, the parent and prefix stripping are reached through three small
  trusted wrappers.
- `src/fs/abs.rs`: absolute and relative paths, joining and relativising.
- `src/fs/mod.rs`: the decisions of the recursive directory walk (a state
  machine over a stack of pending directories), of path removal, of file
  creation and of file comparison.
- `src/prof.rs`: profiles keyed by the relative path of their file. A
  profile's configuration lists, one per line, the dotfiles it tracks
  (relative to the home directory) and, as `run <path>`, the scripts it runs
  (relative to its run directory); empty lines and `#` comments are skipped.
- `src/cli/`: the command-line options, the context of a run, and the file
  work that each command calls for (`cmd.rs`): list, save, restore and delete
  work on the profile's dotfiles in the home directory and below
  `backup/<profile>`, run runs the scripts below `run/<profile>`, and clear
  removes what no profile backs up below `backup/<profile>`.
- `app/`: the file-system and environment work, logging, and the clap
  command line, driven by the library's decisions.

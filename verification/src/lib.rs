//! A dotfiles manager's core: validated path strings, the decisions of the
//! directory walk and of path removal, and the command-line context.
pub mod cli;
pub mod fs;
pub mod prof;

//! Decision logic of `reemerge`, an interactive tool that builds a pull-request
//! branch out of hand-picked commits and, within them, hand-picked files.

pub mod answers;
pub mod apply;
pub mod branches;
pub mod commits;
pub mod course;
pub mod dialogue;
pub mod flow;
pub mod git;
pub mod laws;
pub mod lists;
pub mod messages;
pub mod options;
pub mod selection;
pub mod session;
pub mod style;
pub mod text;
pub mod truncate;
pub mod wording;

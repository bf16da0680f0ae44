//! Decisions behind a note-taking garden: how a freshly edited note gets its
//! title, its slug and a file name that nothing else in the garden holds.
//!
//! Nothing here touches a disk, a terminal or an editor. A driver performs the
//! requested action, reports what happened, and asks again.

pub mod naming;
pub mod placement;
pub mod prompt;
pub mod session;
pub mod slugs;
pub mod style;
pub mod text;
pub mod title;

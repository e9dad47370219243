//! Status-bar logic of a terminal chat client: token counts, path labels,
//! git branch detection and the status bar's own state.

pub mod clock;
pub mod git;
pub mod numbers;
pub mod paths;
pub mod signal;
pub mod text;
pub mod status_bar;

//! Conversation-compaction engine: carry-over accounting, preview generation
//! (local and remote strategies), preview rendering, and apply planning, plus
//! a worktree-change notice helper built on git status output.
pub mod apply;
pub mod carry_over;
pub mod history;
pub mod local_preview;
pub mod preview;
pub mod render;
pub mod text;
pub mod worktree;

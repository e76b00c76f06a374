//! Storage planning for a tool version manager.
//!
//! The library derives where tool binaries and command aliases live, keeps
//! the manager's own executable bytes ready for reuse, and works out which
//! file operations bring the alias directory in line with the manager
//! binary. It performs no file operation itself: every function takes what
//! was read as plain values and answers with the operations to carry out.

pub mod disk;
pub mod effects;
pub mod path;
pub mod self_install;
pub mod storage;
pub mod system;
pub mod tool;

//! Dependency resolution and vendor synchronisation for a project-local
//! vendor tree.
//!
//! The crate decides and computes; it neither reads nor writes anything
//! outside the values it is handed. A caller fetches pages, queries
//! repositories, asks the user and deletes directories, and hands the
//! outcome back.
//!
//! - [`path`] maps an import path to its identifier and to its place in the
//!   vendor tree.
//! - [`vanity`] resolves an import path to the URL of its repository.
//! - [`version`] builds the menu of version constraints for a repository
//!   and reads the user's choice.
//! - [`prompt`] reads answers typed at a prompt.
//! - [`scheduler`] sizes the pool of workers that fetch packages.
//! - [`lock`] compares two lock snapshots and names the packages to delete.
//! - [`removal`] leads through the deletion of one package.
//! - [`pattern`] and [`text`] hold what the others share: regular
//!   expressions and work on characters.

pub mod lock;
pub mod path;
pub mod pattern;
pub mod prompt;
pub mod removal;
pub mod scheduler;
pub mod text;
pub mod vanity;
pub mod version;

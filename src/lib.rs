//! Coordination core of a LaTeX language server: the document workspace,
//! the deferred action queue, the lifecycle of the shared resources, the
//! discovery of root and child documents, and the diagnostics cache.

pub mod document;
pub mod workspace;
pub mod action;
pub mod diagnostics;
pub mod discovery;
pub mod resolver;
pub mod components;
pub mod server;
pub mod completion;
pub mod reference;
pub mod lint;
pub mod uri;

//! A declarative HTTP workflow engine: request templates with variable
//! substitution, response interpretation with JSON-path extraction, and
//! sequential orchestration with abort-on-failure semantics.
//!
//! The engine performs no I/O of its own. A caller loads workflow documents,
//! reads body files, sends the resolved requests over its transport, and
//! feeds each raw outcome back into the [`workflow::WorkflowExec`] machine,
//! which builds, interprets, gates and merges.

pub mod codec;
pub mod json;
pub mod model;
pub mod path;
pub mod request;
pub mod response;
pub mod subst;
pub mod text;
pub mod vars;
pub mod workflow;

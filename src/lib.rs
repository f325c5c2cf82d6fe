//! Plugin execution for a template-rendering tool: capability declarations,
//! argument binding, the host/guest wire envelope, and the decisions of the
//! sandbox and process backends.

pub mod json;
pub mod error;
pub mod binding;
pub mod wire;
pub mod process;
pub mod decl;
pub mod guest;
pub mod variables;
pub mod boundary;

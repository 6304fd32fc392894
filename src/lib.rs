//! Registry of pluggable compute backends: each backend registers a factory
//! under a name, and callers later instantiate an engine by that name.
//!
//! The registry is a plain value whose contents are modelled as a map from
//! backend names to factories. Sharing it between tasks (a lock, a lazily
//! created process-wide instance) and awaiting the factories' asynchronous
//! construction are left to the code that holds it.

pub mod registry;
pub mod laws;

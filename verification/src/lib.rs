//! Finds where command-line tools were installed from.
pub mod text;
pub mod paths;
pub mod order;
pub mod wildcard;
pub mod output;
pub mod types;
pub mod aliases;
pub mod detect;
pub mod json;
pub mod managers;
pub mod history;
pub mod scan;
pub mod hooks;
pub mod laws;
pub mod lister_laws;

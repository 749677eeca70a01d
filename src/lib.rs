//! Rewrites `lazy_static!` blocks into plain statics built on a deferred
//! initialisation container: `static X: Lazy<T> = Lazy::new(|| E);`.

pub mod token;
pub mod grammar;
pub mod rewrite;
pub mod render;
pub mod engine;
pub mod syntax;
pub mod pipeline;
pub mod laws;

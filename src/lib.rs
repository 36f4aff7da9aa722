//! Compile-time module inclusion for Lua sources: detection of `acquire("path")`
//! invocations, memoised module resolution, and the rewrite plan that inlines a
//! module as an immediately-invoked function.
pub mod syntax;
pub mod foreign;
pub mod parser;
pub mod laws;
pub mod args;

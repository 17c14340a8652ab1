//! Build-time atomic CSS compiler: locates style-definition calls in source
//! text, compiles each declaration into de-duplicated atomic CSS rules with
//! deterministic class names, and groups source files by their imports.
pub mod text;
pub mod classinator;
pub mod intaker;
pub mod entries;
pub mod codelyzer;
pub mod pathify;
pub mod cores;
pub mod registry;
pub mod alchemist;
pub mod handlers;
pub mod gatekeeper;
pub mod trailblazer;
pub mod blueprint;

//! A binding generator for a native C interface.
//!
//! The generator takes a description of the C interface (functions with their
//! parameters and return types, the names of structs, aliases and callbacks,
//! and symbolic defines) and renders Rust source text: one forwarding function
//! per C function and one constant per colour define.  Every rendering
//! function states the exact text it returns.
//!
//! - [`api`] holds the description.
//! - [`ctype`] translates C types.
//! - [`naming`] turns C names into Rust names.
//! - [`signature`] renders the forwarding functions and their source file.
//! - [`define`] renders the colour constants and their source file.
//! - [`bindings`] finishes the raw bindings that the forwarding functions call.
//! - [`loader`] decides what a safe wrapper hands back for a loaded resource.
//! - [`text`] holds the operations on text that the others share.

pub mod api;
pub mod bindings;
pub mod ctype;
pub mod define;
pub mod loader;
pub mod naming;
pub mod signature;
pub mod text;

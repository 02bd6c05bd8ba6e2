//! Inline foreign snippets for WebAssembly modules.
//!
//! A unit of a build declares snippets of foreign code at its call sites, each with
//! typed arguments. This library reads the declarations, derives for each snippet the
//! stub that calls it, and at link time collects the snippets that the compiled module
//! really imports.
//!
//! - [`token`], [`lex`]: token trees, and how text becomes token trees.
//! - [`parse`], [`source`]: the grammar of a declaration, and the text behind its spans.
//! - [`snippet`], [`symbol`], [`content`]: snippets, the symbol under which a snippet
//!   is imported, and why a symbol stands for one snippet.
//! - [`synth`], [`stub`]: the binding of a snippet and the stub at its call site.
//! - [`scan`]: what the macro invocations of a unit add to the unit's manifest.
//! - [`depfile`], [`aggregate`], [`registry`]: from the dependency list of a build to one
//!   registry of all snippets.
//! - [`wasm`], [`shim`], [`postprocess`]: the compiled module, the shims that it imports,
//!   and the link step as a whole.

pub mod aggregate;
pub mod content;
pub mod depfile;
pub mod lex;
pub mod parse;
pub mod postprocess;
pub mod registry;
pub mod scan;
pub mod shim;
pub mod snippet;
pub mod source;
pub mod stub;
pub mod symbol;
pub mod synth;
pub mod text;
pub mod token;
pub mod wasm;

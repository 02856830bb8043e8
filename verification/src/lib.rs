//! Validation of annotated code blocks in Markdown chapters: parsing of fence
//! metadata and markers, the assertion language, the per-block dispatch
//! protocol and the span-preserving chapter rewriter.

pub mod assertions;
pub mod book;
pub mod cache;
pub mod chapter;
pub mod command;
pub mod config;
pub mod container;
pub mod dependency;
pub mod dispatcher;
pub mod error;
pub mod fence;
pub mod host_validator;
pub mod info_laws;
pub mod laws;
pub mod lines;
pub mod markdown;
pub mod number;
pub mod parser;
pub mod preprocessor;
pub mod rewrite;
pub mod rewrite_laws;
pub mod script_mode;
pub mod text;
pub mod transpiler;
pub mod validator;

pub use error::ValidatorError;
pub use preprocessor::ValidatorPreprocessor;

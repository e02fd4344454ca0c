//! Core logic of a chat bot exposing a bidirectional type-system engine.
//!
//! The library verifies the per-invocation term-processing pipeline
//! (parse, resolve, infer — each stage short-circuiting on failure),
//! the rendering serialization service that multiplexes concurrent
//! invocations onto one non-reentrant formatting engine, and the small
//! decision procedures of the surrounding commands (owner checks,
//! retraction-control permissions, status parsing). Transport, the
//! chat platform, and the term-processing engine itself are external
//! collaborators, reached only from the driver around this library.

pub mod commands;
pub mod config;
pub mod events;
pub mod render;
pub mod sysf;

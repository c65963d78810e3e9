//! An annotation-driven layer over an HTTP router: what declared handlers,
//! services and path templates become.
//!
//! * `path` compiles path templates into canonical patterns and parameter
//!   names, with `percent` for the encoding of literal segments.
//! * `param`, `plan` and `classify` describe a handler's parameters and
//!   classify them into path, query, body, passthrough and injected ones.
//! * `route`, `args` and `declare` turn route, state, service and controller
//!   declarations into routes and registrations.
//! * `container` is the registry of lazily built singletons.
//! * `assemble` orders the collected routes into one table.
//! * `config`, `value` and `files` hold the rules of configuration and of
//!   serving files from a directory.

pub mod args;
pub mod assemble;
pub mod classify;
pub mod config;
pub mod container;
pub mod declare;
pub mod files;
pub mod param;
pub mod path;
pub mod percent;
pub mod plan;
pub mod route;
pub mod text;
pub mod value;

//! Build/publish intent compiler.
//!
//! A provider-agnostic parameter map is rendered into an argument vector
//! against a provider's schema (`parameter`), and a shell-like command line
//! is parsed back into such a map (`command_parser`, with the round trip
//! proved in `round_trip`). Providers compile a spec into a single-step plan
//! (`provider`, `compiler`). The execution engine's decisions (the
//! single-flight slot, cancellation, classifying a finished run) are in
//! `execution`; spawning and watching the process is left to the caller.
//! The environment probe reads tool versions (`version`) and turns them into
//! issues with fixes (`environment`, `toolchains`, `selection`), and
//! auxiliary fix commands pass an allow-list first (`fix_command`).

pub mod text;
pub mod keyed;
pub mod value;
pub mod parameter;
pub mod command_parser;
pub mod plan;
pub mod provider;
pub mod compiler;
pub mod errors;
pub mod execution;
pub mod fix_command;
pub mod version;
pub mod environment;
pub mod toolchains;
pub mod publish;
pub mod round_trip;
pub mod reports;
pub mod repository;
pub mod shortcuts;
pub mod tray;
pub mod selection;
pub mod export;

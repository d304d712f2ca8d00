//! Device-session and build-orchestration engine for an embedded firmware dashboard.
//!
//! The library decides; the application around it performs the I/O. Serial ports are
//! enumerated, opened, read and written outside, build processes are spawned and
//! awaited outside, files are read outside, and what was observed there is handed in
//! as plain values. Every function here is verified against its contract.
//!
//! - `commands::serial`: the session table and the port lock table, which arbitrate
//!   between monitoring a port and uploading through it.
//! - `commands::serial_worker`: the loop of one session's worker thread, as a state
//!   machine.
//! - `commands::pio`: what is checked before the build tool is started, what it is
//!   started with, and how an operation ends.
//! - `commands::config`, `commands::apps`: profiles, pins by name, and the list of
//!   applications.
//! - `utils`: the rules and parsers that the commands rest on.
//! - `text`, `numbers`, `table`, `pattern`: strings, number literals, a string-keyed
//!   map, and regular expressions.

pub mod commands;
pub mod numbers;
pub mod pattern;
pub mod table;
pub mod text;
pub mod utils;

//! The decisions of the platform adapters: error classification, the
//! parsers for `systemctl`, `launchctl` and `powercfg` output, argument
//! validation and quoting, what each platform can do at a given privilege
//! level, and an in-memory machine for tests.

pub mod error;
pub mod fake;
pub mod linux;
pub mod macos;
pub mod power;
pub mod services;
pub mod windows;

//! ComputeQuiet's verified core: what a profile contains, which processes must
//! never be touched, how a snapshot of the machine becomes a plan, how executed
//! steps are journaled and undone, and the pure decisions of the platform
//! adapters and the desktop shell.

pub mod text;
pub mod policy;
pub mod profile;
pub mod catalogue;
pub mod snapshot;
pub mod plan;
pub mod journal;
pub mod error;
pub mod recommend;
pub mod settings;
pub mod store;
pub mod platform;
pub mod shell;

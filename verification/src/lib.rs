//! Image-trimming engine: resolves the set of files a root filesystem must
//! keep for a set of target executables to stay runnable, and drives the
//! destructive reconciliation that removes everything else.
//!
//! The engine itself never touches the filesystem: [`procdata::TintRun`] is
//! a step-driven state machine whose driver performs each requested action
//! (confinement, scanning, dissection, deletion) and reports the outcome
//! back as an event. Everything the engine decides — seeding, the ordered
//! filter chain, override precedence, the symlink closure, the resource
//! filter, the deterministic ordering — is stated in contracts and proved.

pub mod pathstr;
pub mod pathset;
pub mod profile;
pub mod links;
pub mod procdata;
pub mod dlst;
pub mod resources;

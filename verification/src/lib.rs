//! A package manager core for versioned plugin and subsystem modules: a
//! partial semantic-version algebra with range matching, a resolver over
//! installed and remote candidate sets, a workspace registry of installed
//! modules, a per-remote release catalog, and the publish pipeline that
//! validates a package's identity, plans its packaging, and registers and
//! uploads the release. Every function here carries a verified contract; the
//! surrounding binary performs the filesystem, network and process work the
//! pipeline asks for.

pub mod clock;
pub mod command;
pub mod index;
pub mod manifest;
pub mod platform;
pub mod publish;
pub mod resolver;
pub mod semver;
pub mod strutil;
pub mod workspace;

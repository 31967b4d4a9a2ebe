//! Incremental, content-addressed indexing of a code tree for a remote
//! retrieval service.
//!
//! A file is cut into blobs at line boundaries (`chunker`), a blob is known
//! by the SHA-256 of its path and content (`hasher`), and an update uploads
//! only the blobs whose address the ledger does not hold (`coordinator`,
//! `ledger`, `status`). The scan decides entry by entry what is read
//! (`scanner`, `vcs`); `remote` holds the retry policy and reads the service's
//! answers; `search` decides what happens before a search; `watcher` and
//! `nested` route bursts of file changes to the projects that own them.
//!
//! Reading files, talking to the service and watching the file system happen
//! outside this library: it takes what was read and says what to do next.

pub mod acemcp;
pub mod chunker;
pub mod commands;
pub mod config;
pub mod coordinator;
pub mod design;
pub mod enhance;
pub mod hasher;
pub mod icon;
pub mod ledger;
pub mod lexicon;
pub mod memory;
pub mod nested;
pub mod paths;
pub mod proxy;
pub mod remote;
pub mod scanner;
pub mod search;
pub mod settings;
pub mod similarity;
pub mod skills;
pub mod status;
pub mod strings;
pub mod text;
pub mod uiux;
pub mod vcs;
pub mod watcher;

//! The cached file data plane of a filesystem whose files live in a remote
//! message store: a bounded table of per-file cache entries, the state
//! machine of one entry, and the rules that turn kernel requests into cache
//! operations. Nothing here performs I/O: every function takes what was read
//! from the remote side or the metadata store as plain values and says what
//! has to be done next.

pub mod backing;
pub mod buffer;
pub mod cache;
pub mod cache_state;
pub mod error;
pub mod file;
pub mod fuse_fs;
pub mod inode;
pub mod laws;
pub mod state;
pub mod table;
pub mod vfs;

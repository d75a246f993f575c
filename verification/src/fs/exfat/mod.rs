//! exFAT file system (read and create).
//!
//! - Boot sector: geometry, FAT offset, cluster heap, root directory.
//! - Directory entry sets: File (0x85), Stream Extension (0xC0) and FileName
//!   (0xC1) entries, with the rotate-right entry-set checksum.
//! - Cluster chains through the FAT, and contiguous files without one.
//! - Allocation bitmap (0x81) for cluster accounting.
//!
//! Root-directory files only; created files are contiguous, with ASCII names
//! of up to 30 characters, in the existing clusters of the directory; 512-byte
//! sectors.
//!
//! Every operation is a machine: it says which disk access it needs next, is
//! given what came of it, and ends with a result.

pub mod demo;
pub mod dir;
pub mod disk;

pub mod read;
pub mod mount;
pub mod create;
pub mod entry_set;
pub mod laws;
pub mod volume_laws;
pub mod format_laws;
pub mod read_laws;
pub mod alloc_laws;

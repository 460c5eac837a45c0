//! Layer synchronisation, image import and mount bookkeeping for composefs.
//!
//! composefs combines overlayfs, EROFS and fs-verity to provide read-only
//! mountable file system trees on top of a content-addressed object store. This
//! crate holds the decisions: which bytes of a layer are stored how, when a layer
//! may be committed, which steps an import, a finalization or a mount takes next.
//! What touches the kernel, the repository or the network is left to the caller,
//! who asks one of the state machines here what to do, does it, and hands the
//! outcome back.
use vstd::prelude::*;

pub mod cstor;
pub mod digest;
pub mod drain;
pub mod drain_laws;
pub mod finalize;
pub mod import;
pub mod import_laws;
pub mod layer_sync;
pub mod mount;
pub mod mountid;
pub mod mountregistry;
pub mod progress;
pub mod resolve;
pub mod skopeo_varlink;
pub mod stats;
pub mod text;
pub mod varlink_types;
pub mod version;

verus! {

/// Files with this many bytes or fewer are stored inline in the erofs image
/// (and in splitstreams). Files above this threshold are written to object
/// storage and referenced via overlay metacopy xattrs.
///
/// Changing this value is effectively a format break: it affects which files
/// get fs-verity checksums (external) vs. which are stored directly (inline),
/// so images produced with different thresholds are not interchangeable.
///
/// For the *parsing* safety bound enforced when reading untrusted input, see
/// [`MAX_INLINE_CONTENT`].
pub const INLINE_CONTENT_MAX_V0: usize = 64;

/// Maximum inline content size accepted when parsing untrusted input (dumpfiles,
/// EROFS images in composefs-restricted mode).
///
/// Only enforced for v2 images.
///
/// This is intentionally higher than [`INLINE_CONTENT_MAX_V0`] to allow for future
/// increases to the inline threshold.
pub const MAX_INLINE_CONTENT: usize = 512;

/// Maximum symlink target length in bytes.
///
/// Only enforced for v2 images.
///
/// XFS limits symlink targets to 1024 bytes (`XFS_SYMLINK_MAXLEN`). Since
/// generic Linux containers are commonly backed by XFS, that limit is enforced
/// rather than the Linux VFS `PATH_MAX` of 4096.
pub const SYMLINK_MAX: usize = 1024;

/// Default I/O buffer capacity for buffered readers and writers in streaming
/// paths.
///
/// 64 KiB provides significantly better throughput for large file I/O than the
/// 8 KiB of the standard library.
pub const IO_BUF_CAPACITY: usize = 64 * 1024;

} // verus!

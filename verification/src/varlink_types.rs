//! Wire types of the `org.composefs.Oci` varlink interface.
//!
//! Both the repository service and the containers-storage service speak it.
use vstd::prelude::*;

use crate::text;

verus! {

/// Locator for a layer that lives inside a containers-storage store.
///
/// Both fields are required when routing a `GetLayer` call to the
/// containers-storage service; the repository service ignores it entirely.
#[derive(Debug)]
pub struct StorageLocator<S = String> {
    /// Absolute path to the containers-storage root directory
    /// (e.g. `/var/lib/containers/storage`).
    pub storage_path: S,
    /// The layer ID within that storage root.
    pub layer_id: S,
}

impl View for StorageLocator<String> {
    type V = StorageLocator<Seq<char>>;

    open spec fn view(&self) -> StorageLocator<Seq<char>> {
        StorageLocator { storage_path: self.storage_path@, layer_id: self.layer_id@ }
    }
}

impl Clone for StorageLocator {
    fn clone(&self) -> (copy: Self)
        ensures
            copy@ == self@,
    {
        StorageLocator {
            storage_path: self.storage_path.clone(),
            layer_id: self.layer_id.clone(),
        }
    }
}

/// Parameters for the `GetLayer` method of the `org.composefs.Oci` interface.
///
/// Exactly one of `diff_id` or `storage` must be set:
/// - **Repository service**: reads `diff_id`, errors if `None`.
/// - **Containers-storage service**: reads `storage`, errors if `None`.
///
/// Both fields are `Option` for forward-compatibility: new locator kinds can
/// be added in future without breaking old clients.
#[derive(Debug)]
pub struct GetLayerParams<S = String> {
    /// OCI diff-id (`sha256:…`) identifying the layer in a composefs repository.
    pub diff_id: Option<S>,
    /// Location of a specific layer inside a containers-storage store.
    pub storage: Option<StorageLocator<S>>,
}

impl View for GetLayerParams<String> {
    type V = GetLayerParams<Seq<char>>;

    open spec fn view(&self) -> GetLayerParams<Seq<char>> {
        GetLayerParams {
            diff_id: text::opt_text(self.diff_id),
            storage: match self.storage {
                Some(locator) => Some(locator@),
                None => None,
            },
        }
    }
}

impl GetLayerParams<Seq<char>> {
    /// Exactly one way to find the layer is given.
    pub open spec fn valid(self) -> bool {
        self.diff_id is Some <==> self.storage is None
    }
}

impl Clone for GetLayerParams {
    fn clone(&self) -> (copy: Self)
        ensures
            copy@ == self@,
    {
        GetLayerParams {
            diff_id: match &self.diff_id {
                Some(id) => Some(id.clone()),
                None => None,
            },
            storage: match &self.storage {
                Some(locator) => Some(locator.clone()),
                None => None,
            },
        }
    }
}

/// Reply from `GetInfo`: capability tokens supported by this service.
#[derive(Debug, Clone)]
pub struct GetInfoReply {
    /// Capability tokens advertised by this service instance.
    ///
    /// Currently only `"splitdirfdstream-v0"` is defined. The containers-storage
    /// service additionally reports `"source-containers-storage"` and
    /// `"read-only"`.
    pub features: Vec<String>,
}

/// Reply from `HasLayer`: whether the layer is present in the repository.
#[derive(Debug, Clone)]
pub struct HasLayerReply {
    /// Whether the layer splitstream for the given diff-id is present.
    pub present: bool,
    /// Hex-encoded fs-verity hash of the layer splitstream, if present.
    pub layer_verity: Option<String>,
}

/// Reply from `GetLayer`: the number of diff-directory slots in the logical FD
/// array.
///
/// `GetLayer` is a **streaming** method (`more`): it yields multiple frames,
/// each carrying a batch of FDs. The client MUST concatenate the FD batches
/// from all frames (in arrival order) to reconstruct the full logical FD array:
///
/// - `fds[0]` — data pipe read end (carries the `splitdirfdstream` bytes).
/// - `fds[1..=dir_count]` — the dirfds region (`dir_count` slots total). The
///   real objects-directory fd sits at a sparse, hash-determined index within
///   this region; the remaining (gap) slots hold inert dummy fds that are never
///   dereferenced.
/// - `fds[dir_count+1..]` — opaque lifetime FDs. The client MUST hold every
///   one of these open until it has finished reading and processing all dir
///   fds, then close them all to signal completion to the server.
#[derive(Debug, Clone, Copy, PartialEq, Eq, Structural)]
pub struct GetLayerReply {
    /// Number of diff-directory file descriptors in the full logical FD array
    /// (i.e. `fds[1..=dir_count]` after concatenating all frames' batches).
    pub dir_count: u32,
}

/// Reply from `GetImage`: manifest, config, and layer digests for an image
/// in containers-storage.
#[derive(Debug, Clone)]
pub struct GetImageReply {
    /// Raw OCI manifest JSON.
    pub manifest: String,
    /// Raw OCI config JSON.
    pub config: String,
    /// Ordered list of the layers, by the IDs under which `GetLayer` knows them.
    pub layer_digests: Vec<String>,
}

/// Reply from `PutLayer`: the verity hash of the imported layer, whether
/// it was already present, and per-object transfer statistics.
#[derive(Debug, Clone)]
pub struct PutLayerReply {
    /// Hex-encoded fs-verity hash of the committed layer splitstream.
    pub layer_verity: String,
    /// `true` if the layer was already present before this call.
    pub already_present: bool,
    /// Number of objects that were reflinked (FICLONE) into the destination.
    pub objects_reflinked: u64,
    /// Number of objects hardlinked into the destination.
    pub objects_hardlinked: u64,
    /// Number of objects byte-copied into the destination.
    pub objects_copied: u64,
    /// Number of objects already present in the destination (skipped).
    pub objects_already_present: u64,
}

/// A single (diff_id, layer_verity) pair passed to `FinalizeImage`.
#[derive(Debug, Clone)]
pub struct LayerRef {
    /// OCI diff-id of the layer (e.g. `"sha256:abcd..."`).
    pub diff_id: String,
    /// Hex-encoded fs-verity hash of the layer splitstream in the destination
    /// repository, as returned by `PutLayer`.
    pub layer_verity: String,
}

/// Reply from `FinalizeImage`.
#[derive(Debug, Clone)]
pub struct FinalizeImageReply {
    /// OCI digest of the manifest.
    pub manifest_digest: String,
    /// Hex-encoded fs-verity hash of the manifest splitstream.
    pub manifest_verity: String,
    /// OCI digest of the config.
    pub config_digest: String,
    /// Hex-encoded fs-verity hash of the config splitstream.
    pub config_verity: String,
}

/// Errors returned by the `org.composefs.Oci` interface.
#[derive(Debug)]
pub enum OciError {
    /// The repository could not be found or opened at the configured path.
    RepoNotFound {
        /// Description of the failure.
        message: String,
    },
    /// The given handle does not refer to an open repository.
    InvalidHandle {
        /// The handle that was not found.
        handle: u64,
    },
    /// The named OCI image/reference does not exist.
    NoSuchImage {
        /// The image reference that was not found.
        image: String,
    },
    /// An unexpected internal error occurred while servicing the request.
    InternalError {
        /// Description of the failure.
        message: String,
    },
    /// The requested layer (by diff-id) is not present in the repository.
    NoSuchLayer {
        /// The diff-id that was not found.
        diff_id: String,
    },
    /// A supplied digest/diff-id string was malformed.
    InvalidDigest {
        /// Human-readable description of the parse failure.
        message: String,
    },
    /// Received layer content did not hash to the declared diff-id.
    DiffIdMismatch {
        /// The diff_id that was declared by the client.
        expected: String,
        /// The sha256 digest of the data that was actually received.
        actual: String,
    },
    /// The request was malformed (e.g. wrong fd count).
    InvalidRequest {
        /// Human-readable description of what was wrong.
        message: String,
    },
    /// The total fd count exceeds the per-frame cap for a `more=false` call.
    FdLimitExceeded {
        /// Total number of fds that would be sent.
        fd_count: u64,
        /// The per-frame cap that was exceeded.
        max_per_frame: u64,
    },
}

/// The models of a request have what the request has: the diff-id, and the place.
pub proof fn request_models_are_faithful(params: GetLayerParams, place: StorageLocator)
    ensures
        params@.diff_id == text::opt_text(params.diff_id),
        params.storage is None <==> params@.storage is None,
        params.storage matches Some(l) ==> params@.storage == Some(
            StorageLocator { storage_path: l.storage_path@, layer_id: l.layer_id@ },
        ),
        place@.storage_path == place.storage_path@,
        place@.layer_id == place.layer_id@,
{
}

/// A request is valid exactly if it has one way to find the layer, and not the other.
pub proof fn valid_requests_have_one_locator(params: GetLayerParams<Seq<char>>)
    ensures
        params.valid() <==> (params.diff_id is Some && params.storage is None) || (
        params.diff_id is None && params.storage is Some),
{
}

} // verus!

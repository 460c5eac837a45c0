//! Finalizing an image whose layers are all in the repository.
//!
//! [`finalize_oci_image`] starts a [`Finalization`]. It asks for one thing of the
//! repository at a time, and the caller hands the outcome back.
use vstd::prelude::*;

use crate::digest;
use crate::digest::{ObjectId, OciDigest};
use crate::text;

verus! {

/// The name of a splitstream of the repository.
#[derive(Debug)]
pub enum StreamKey<D = OciDigest> {
    /// The layer with this diff-id.
    Layer(D),
    /// The image config with this digest.
    Config(D),
    /// The image manifest with this digest.
    Manifest(D),
}

impl View for StreamKey<OciDigest> {
    type V = StreamKey<Seq<char>>;

    open spec fn view(&self) -> StreamKey<Seq<char>> {
        match self {
            StreamKey::Layer(d) => StreamKey::Layer(d@),
            StreamKey::Config(d) => StreamKey::Config(d@),
            StreamKey::Manifest(d) => StreamKey::Manifest(d@),
        }
    }
}

/// A named reference from one splitstream to another.
#[derive(Debug)]
pub struct NamedRef {
    /// The name of the reference.
    pub name: String,
    /// The splitstream it points to.
    pub id: ObjectId,
}

/// The models of a list of references.
pub open spec fn named_refs(v: Seq<NamedRef>) -> Seq<(Seq<char>, Seq<u8>)> {
    Seq::new(v.len(), |i: int| (v[i].name@, v[i].id@))
}

/// The references that a list of imported layers stands for: each layer under
/// its diff-id.
pub open spec fn layer_refs_model(v: Seq<(OciDigest, ObjectId)>) -> Seq<(Seq<char>, Seq<u8>)> {
    Seq::new(v.len(), |i: int| (v[i].0@, v[i].1@))
}

/// Digests and verities of a finalized image.
#[derive(Debug)]
pub struct FinalizeResult<D = OciDigest, I = ObjectId> {
    /// The digest of the manifest.
    pub manifest_digest: D,
    /// The verity of the manifest splitstream.
    pub manifest_verity: I,
    /// The digest of the config.
    pub config_digest: D,
    /// The verity of the config splitstream.
    pub config_verity: I,
}

impl View for FinalizeResult<OciDigest, ObjectId> {
    type V = FinalizeResult<Seq<char>, Seq<u8>>;

    open spec fn view(&self) -> FinalizeResult<Seq<char>, Seq<u8>> {
        FinalizeResult {
            manifest_digest: self.manifest_digest@,
            manifest_verity: self.manifest_verity@,
            config_digest: self.config_digest@,
            config_verity: self.config_verity@,
        }
    }
}

/// Why an image could not be finalized.
#[derive(Debug, Clone, Copy, PartialEq, Eq, Structural)]
pub enum FinalizeError {
    /// The config splitstream is gone.
    ConfigMissing,
    /// The manifest splitstream is gone.
    ManifestMissing,
}

impl FinalizeError {
    /// What the error says.
    pub open spec fn text(self) -> Seq<char> {
        match self {
            FinalizeError::ConfigMissing => "config splitstream missing after finalization"@,
            FinalizeError::ManifestMissing => "manifest splitstream missing after finalization"@,
        }
    }

    /// What the error says.
    pub fn message(&self) -> (message: &'static str)
        ensures
            message@ == self.text(),
    {
        match self {
            FinalizeError::ConfigMissing => "config splitstream missing after finalization",
            FinalizeError::ManifestMissing => "manifest splitstream missing after finalization",
        }
    }
}

/// What a finalization waits for, or how it ended.
#[derive(Debug)]
pub enum FinalizeAction<
    M = (),
    D = OciDigest,
    S = String,
    B = Vec<u8>,
    I = ObjectId,
    R = Vec<NamedRef>,
> {
    /// Look up a splitstream.
    HasStream(StreamKey<D>),
    /// Write a splitstream: the references in order, and the content as an
    /// object of its own.
    WriteStream {
        /// Its name. The content type is the one for configs or manifests.
        key: StreamKey<D>,
        /// The references.
        refs: R,
        /// The content.
        content: B,
    },
    /// Look up the EROFS image of the manifest.
    FindErofs {
        /// The manifest.
        manifest_digest: D,
        /// The verity of its splitstream.
        manifest_verity: I,
    },
    /// Look up the boot variant of the EROFS image for a mode.
    FindBootImage {
        /// The manifest.
        manifest_digest: D,
        /// The mode.
        mode: M,
    },
    /// Generate the EROFS image, with its boot variant for a mode if there is one,
    /// and tag the manifest with the name if there is one.
    EnsureErofs {
        /// The manifest.
        manifest_digest: D,
        /// The verity of its splitstream.
        manifest_verity: I,
        /// The name.
        name: Option<S>,
        /// The mode of the boot variant.
        boot: Option<M>,
    },
    /// Tag the manifest.
    Tag {
        /// The manifest.
        manifest_digest: D,
        /// The name.
        name: S,
    },
    /// The image is finalized.
    Done(FinalizeResult<D, I>),
    /// The image could not be finalized.
    Fail(FinalizeError),
}

/// The model of a [`FinalizeAction`].
pub type ActionModel<M = ()> = FinalizeAction<
    M,
    Seq<char>,
    Seq<char>,
    Seq<u8>,
    Seq<u8>,
    Seq<(Seq<char>, Seq<u8>)>,
>;

impl<M> View for FinalizeAction<M, OciDigest, String, Vec<u8>, ObjectId, Vec<NamedRef>> {
    type V = ActionModel<M>;

    open spec fn view(&self) -> ActionModel<M> {
        match self {
            FinalizeAction::HasStream(key) => FinalizeAction::HasStream(key@),
            FinalizeAction::WriteStream { key, refs, content } => FinalizeAction::WriteStream {
                key: key@,
                refs: named_refs(refs@),
                content: content@,
            },
            FinalizeAction::FindErofs {
                manifest_digest,
                manifest_verity,
            } => FinalizeAction::FindErofs {
                manifest_digest: manifest_digest@,
                manifest_verity: manifest_verity@,
            },
            FinalizeAction::FindBootImage {
                manifest_digest,
                mode,
            } => FinalizeAction::FindBootImage {
                manifest_digest: manifest_digest@,
                mode: *mode,
            },
            FinalizeAction::EnsureErofs {
                manifest_digest,
                manifest_verity,
                name,
                boot,
            } => FinalizeAction::EnsureErofs {
                manifest_digest: manifest_digest@,
                manifest_verity: manifest_verity@,
                name: text::opt_text(*name),
                boot: *boot,
            },
            FinalizeAction::Tag { manifest_digest, name } => FinalizeAction::Tag {
                manifest_digest: manifest_digest@,
                name: name@,
            },
            FinalizeAction::Done(result) => FinalizeAction::Done(result@),
            FinalizeAction::Fail(e) => FinalizeAction::Fail(*e),
        }
    }
}

/// The outcome of what a finalization waited for.
#[derive(Debug)]
pub enum FinalizeReply<I = ObjectId> {
    /// The splitstream, if there is one.
    Stream(Option<I>),
    /// The splitstream just written.
    Written(I),
    /// Whether there is an EROFS image.
    Erofs(bool),
    /// Whether there is a boot variant.
    BootImage(bool),
    /// Whether the manifest is one that an EROFS image can be made of.
    Ensured(bool),
    /// The manifest was tagged.
    Tagged,
}

impl View for FinalizeReply<ObjectId> {
    type V = FinalizeReply<Seq<u8>>;

    open spec fn view(&self) -> FinalizeReply<Seq<u8>> {
        match self {
            FinalizeReply::Stream(Some(id)) => FinalizeReply::Stream(Some(id@)),
            FinalizeReply::Stream(None) => FinalizeReply::Stream(None),
            FinalizeReply::Written(id) => FinalizeReply::Written(id@),
            FinalizeReply::Erofs(found) => FinalizeReply::Erofs(*found),
            FinalizeReply::BootImage(found) => FinalizeReply::BootImage(*found),
            FinalizeReply::Ensured(made) => FinalizeReply::Ensured(*made),
            FinalizeReply::Tagged => FinalizeReply::Tagged,
        }
    }
}

/// Where a finalization stands.
#[derive(Debug)]
pub enum FinalizePhase<M, I> {
    /// Is the config there?
    FindingConfig,
    /// The config is being written.
    WritingConfig,
    /// Is the manifest there?
    FindingManifest {
        /// The verity of the config.
        config_verity: I,
    },
    /// The manifest is being written.
    WritingManifest {
        /// The verity of the config.
        config_verity: I,
    },
    /// Is the EROFS image there?
    FindingErofs {
        /// The verity of the manifest.
        manifest_verity: I,
    },
    /// Is the boot variant there?
    FindingBoot {
        /// The mode.
        mode: M,
        /// The verity of the manifest.
        manifest_verity: I,
        /// Whether the plain image is there.
        erofs: bool,
    },
    /// The EROFS image is being generated.
    Generating {
        /// The verity of the manifest.
        manifest_verity: I,
    },
    /// The manifest is being tagged.
    Tagging,
    /// The verity of the config may have changed; what is it now?
    RereadingConfig,
    /// The same for the manifest.
    RereadingManifest {
        /// The verity of the config.
        config_verity: I,
    },
    /// Everything is in place.
    Done {
        /// The verity of the manifest.
        manifest_verity: I,
        /// The verity of the config.
        config_verity: I,
    },
    /// Something is missing.
    Failed(FinalizeError),
}

/// The model of a phase.
pub open spec fn phase_model<M>(phase: FinalizePhase<M, ObjectId>) -> FinalizePhase<M, Seq<u8>> {
    match phase {
        FinalizePhase::FindingConfig => FinalizePhase::FindingConfig,
        FinalizePhase::WritingConfig => FinalizePhase::WritingConfig,
        FinalizePhase::FindingManifest { config_verity } => FinalizePhase::FindingManifest {
            config_verity: config_verity@,
        },
        FinalizePhase::WritingManifest { config_verity } => FinalizePhase::WritingManifest {
            config_verity: config_verity@,
        },
        FinalizePhase::FindingErofs { manifest_verity } => FinalizePhase::FindingErofs {
            manifest_verity: manifest_verity@,
        },
        FinalizePhase::FindingBoot { mode, manifest_verity, erofs } => FinalizePhase::FindingBoot {
            mode,
            manifest_verity: manifest_verity@,
            erofs,
        },
        FinalizePhase::Generating { manifest_verity } => FinalizePhase::Generating {
            manifest_verity: manifest_verity@,
        },
        FinalizePhase::Tagging => FinalizePhase::Tagging,
        FinalizePhase::RereadingConfig => FinalizePhase::RereadingConfig,
        FinalizePhase::RereadingManifest { config_verity } => FinalizePhase::RereadingManifest {
            config_verity: config_verity@,
        },
        FinalizePhase::Done { manifest_verity, config_verity } => FinalizePhase::Done {
            manifest_verity: manifest_verity@,
            config_verity: config_verity@,
        },
        FinalizePhase::Failed(e) => FinalizePhase::Failed(e),
    }
}

/// The abstract state of a finalization.
pub struct Finalize<M = ()> {
    /// The manifest, byte by byte.
    pub manifest_json: Seq<u8>,
    /// The config, byte by byte.
    pub config_json: Seq<u8>,
    /// The layers: diff-id and verity.
    pub layer_refs: Seq<(Seq<char>, Seq<u8>)>,
    /// The name to tag the manifest with.
    pub name: Option<Seq<char>>,
    /// The mode of the boot variant, if it is wanted.
    pub boot: Option<M>,
    /// What the finalization waits for.
    pub phase: FinalizePhase<M, Seq<u8>>,
}

impl<M> Finalize<M> {
    /// The digest of the manifest.
    pub open spec fn manifest_digest(self) -> Seq<char> {
        digest::content_digest(self.manifest_json)
    }

    /// The digest of the config.
    pub open spec fn config_digest(self) -> Seq<char> {
        digest::content_digest(self.config_json)
    }

    /// The references of the manifest: the config, and then the layers.
    pub open spec fn manifest_refs(self, config_verity: Seq<u8>) -> Seq<(Seq<char>, Seq<u8>)> {
        seq![("config:"@ + self.config_digest(), config_verity)] + self.layer_refs
    }

    /// The finalization in another phase.
    pub open spec fn at(self, phase: FinalizePhase<M, Seq<u8>>) -> Finalize<M> {
        Finalize { phase, ..self }
    }

    /// The finalization once it is known which images exist. An image is only
    /// not generated if the plain one is there, and the boot variant for the wanted
    /// mode as well if there is one.
    pub open spec fn with_images(self, manifest_verity: Seq<u8>, erofs: bool, boot: bool) -> Finalize<
        M,
    > {
        if !erofs || (self.boot is Some && !boot) {
            self.at(FinalizePhase::Generating { manifest_verity })
        } else {
            self.tag()
        }
    }

    /// The finalization when only the tag is left to be set, if there is a name.
    pub open spec fn tag(self) -> Finalize<M> {
        if self.name is Some {
            self.at(FinalizePhase::Tagging)
        } else {
            self.at(FinalizePhase::RereadingConfig)
        }
    }

    /// The finalization after a reply. A reply that is not the outcome of what
    /// it waits for changes nothing.
    pub open spec fn after(self, reply: FinalizeReply<Seq<u8>>) -> Finalize<M> {
        match (self.phase, reply) {
            (FinalizePhase::FindingConfig, FinalizeReply::Stream(Some(config_verity))) => self.at(
                FinalizePhase::FindingManifest { config_verity },
            ),
            (FinalizePhase::FindingConfig, FinalizeReply::Stream(None)) => self.at(
                FinalizePhase::WritingConfig,
            ),
            (FinalizePhase::WritingConfig, FinalizeReply::Written(config_verity)) => self.at(
                FinalizePhase::FindingManifest { config_verity },
            ),
            (
                FinalizePhase::FindingManifest { config_verity },
                FinalizeReply::Stream(Some(manifest_verity)),
            ) => self.at(FinalizePhase::FindingErofs { manifest_verity }),
            (
                FinalizePhase::FindingManifest { config_verity },
                FinalizeReply::Stream(None),
            ) => self.at(FinalizePhase::WritingManifest { config_verity }),
            (
                FinalizePhase::WritingManifest { config_verity },
                FinalizeReply::Written(manifest_verity),
            ) => self.at(FinalizePhase::FindingErofs { manifest_verity }),
            (
                FinalizePhase::FindingErofs { manifest_verity },
                FinalizeReply::Erofs(erofs),
            ) => match self.boot {
                Some(mode) => self.at(FinalizePhase::FindingBoot { mode, manifest_verity, erofs }),
                None => self.with_images(manifest_verity, erofs, false),
            },
            (
                FinalizePhase::FindingBoot { mode, manifest_verity, erofs },
                FinalizeReply::BootImage(boot),
            ) => self.with_images(manifest_verity, erofs, boot),
            (FinalizePhase::Generating { manifest_verity }, FinalizeReply::Ensured(made)) => if made {
                self.at(FinalizePhase::RereadingConfig)
            } else {
                self.tag()
            },
            (FinalizePhase::Tagging, FinalizeReply::Tagged) => self.at(
                FinalizePhase::RereadingConfig,
            ),
            (FinalizePhase::RereadingConfig, FinalizeReply::Stream(Some(config_verity))) => self.at(
                FinalizePhase::RereadingManifest { config_verity },
            ),
            (FinalizePhase::RereadingConfig, FinalizeReply::Stream(None)) => self.at(
                FinalizePhase::Failed(FinalizeError::ConfigMissing),
            ),
            (
                FinalizePhase::RereadingManifest { config_verity },
                FinalizeReply::Stream(Some(manifest_verity)),
            ) => self.at(FinalizePhase::Done { manifest_verity, config_verity }),
            (
                FinalizePhase::RereadingManifest { config_verity },
                FinalizeReply::Stream(None),
            ) => self.at(FinalizePhase::Failed(FinalizeError::ManifestMissing)),
            _ => self,
        }
    }

    /// What the finalization waits for, or how it ended.
    pub open spec fn action(self) -> ActionModel<M> {
        match self.phase {
            FinalizePhase::FindingConfig => FinalizeAction::HasStream(
                StreamKey::Config(self.config_digest()),
            ),
            FinalizePhase::WritingConfig => FinalizeAction::WriteStream {
                key: StreamKey::Config(self.config_digest()),
                refs: self.layer_refs,
                content: self.config_json,
            },
            FinalizePhase::FindingManifest { config_verity } => FinalizeAction::HasStream(
                StreamKey::Manifest(self.manifest_digest()),
            ),
            FinalizePhase::WritingManifest { config_verity } => FinalizeAction::WriteStream {
                key: StreamKey::Manifest(self.manifest_digest()),
                refs: self.manifest_refs(config_verity),
                content: self.manifest_json,
            },
            FinalizePhase::FindingErofs { manifest_verity } => FinalizeAction::FindErofs {
                manifest_digest: self.manifest_digest(),
                manifest_verity,
            },
            FinalizePhase::FindingBoot {
                mode,
                manifest_verity,
                erofs,
            } => FinalizeAction::FindBootImage { manifest_digest: self.manifest_digest(), mode },
            FinalizePhase::Generating { manifest_verity } => FinalizeAction::EnsureErofs {
                manifest_digest: self.manifest_digest(),
                manifest_verity,
                name: self.name,
                boot: self.boot,
            },
            FinalizePhase::Tagging => FinalizeAction::Tag {
                manifest_digest: self.manifest_digest(),
                name: self.name.unwrap(),
            },
            FinalizePhase::RereadingConfig => FinalizeAction::HasStream(
                StreamKey::Config(self.config_digest()),
            ),
            FinalizePhase::RereadingManifest { config_verity } => FinalizeAction::HasStream(
                StreamKey::Manifest(self.manifest_digest()),
            ),
            FinalizePhase::Done { manifest_verity, config_verity } => FinalizeAction::Done(
                FinalizeResult {
                    manifest_digest: self.manifest_digest(),
                    manifest_verity,
                    config_digest: self.config_digest(),
                    config_verity,
                },
            ),
            FinalizePhase::Failed(e) => FinalizeAction::Fail(e),
        }
    }
}

/// A finalization under way.
#[derive(Debug)]
pub struct Finalization<M = ()> {
    manifest_json: Vec<u8>,
    config_json: Vec<u8>,
    layer_refs: Vec<(OciDigest, ObjectId)>,
    name: Option<String>,
    boot: Option<M>,
    manifest_digest: OciDigest,
    config_digest: OciDigest,
    phase: FinalizePhase<M, ObjectId>,
}

impl<M> View for Finalization<M> {
    type V = Finalize<M>;

    closed spec fn view(&self) -> Finalize<M> {
        Finalize {
            manifest_json: self.manifest_json@,
            config_json: self.config_json@,
            layer_refs: layer_refs_model(self.layer_refs@),
            name: text::opt_text(self.name),
            boot: self.boot,
            phase: phase_model(self.phase),
        }
    }
}

/// Finalize an OCI image whose layers are already imported.
///
/// Given the raw manifest and config JSON (exact bytes, so their sha256 digests
/// are preserved) and the ordered (diff_id, layer_verity) pairs, this writes the
/// config and manifest splitstreams, generates the composefs EROFS image, and
/// optionally tags the manifest under `name`. Idempotent.
///
/// If `boot` is `Some`, the boot-transformed EROFS variant for that mode is
/// generated and linked alongside the plain one. A variant for another mode does
/// not count.
pub fn finalize_oci_image<M: Copy>(
    manifest_json: Vec<u8>,
    config_json: Vec<u8>,
    layer_refs: Vec<(OciDigest, ObjectId)>,
    name: Option<String>,
    boot: Option<M>,
) -> (f: Finalization<M>)
    ensures
        f@ == (Finalize {
            manifest_json: manifest_json@,
            config_json: config_json@,
            layer_refs: layer_refs_model(layer_refs@),
            name: text::opt_text(name),
            boot,
            phase: FinalizePhase::FindingConfig,
        }),
{
    let manifest_digest = digest::sha256_content_digest(manifest_json.as_slice());
    let config_digest = digest::sha256_content_digest(config_json.as_slice());
    Finalization {
        manifest_json,
        config_json,
        layer_refs,
        name,
        boot,
        manifest_digest,
        config_digest,
        phase: FinalizePhase::FindingConfig,
    }
}

fn clone_refs(refs: &Vec<(OciDigest, ObjectId)>, out: &mut Vec<NamedRef>)
    ensures
        named_refs(final(out)@) == named_refs(old(out)@) + layer_refs_model(refs@),
{
    let ghost first = named_refs(out@);
    let mut i: usize = 0;
    assert(layer_refs_model(refs@).take(0) =~= Seq::empty());
    assert(first + layer_refs_model(refs@).take(0) =~= first);
    while i < refs.len()
        invariant
            i <= refs@.len(),
            named_refs(out@) == first + layer_refs_model(refs@).take(i as int),
        decreases refs@.len() - i,
    {
        let ghost before = named_refs(out@);
        out.push(NamedRef { name: refs[i].0.as_str().to_owned(), id: refs[i].1.clone() });
        assert(named_refs(out@) =~= before.push(layer_refs_model(refs@)[i as int]));
        i += 1;
        assert(named_refs(out@) =~= first + layer_refs_model(refs@).take(i as int));
    }
    assert(layer_refs_model(refs@).take(i as int) =~= layer_refs_model(refs@));
}

impl<M> Finalization<M> {
    #[verifier::type_invariant]
    closed spec fn inv(self) -> bool {
        &&& self.manifest_digest@ == digest::content_digest(self.manifest_json@)
        &&& self.config_digest@ == digest::content_digest(self.config_json@)
        &&& self.phase is Tagging ==> self.name is Some
    }
}

impl<M: Copy> Finalization<M> {
    fn at(self, phase: FinalizePhase<M, ObjectId>) -> (next: Finalization<M>)
        requires
            !(phase is Tagging),
        ensures
            next@ == self@.at(phase_model(phase)),
    {
        proof {
            use_type_invariant(&self);
        }
        Finalization { phase, ..self }
    }

    fn tag(self) -> (next: Finalization<M>)
        ensures
            next@ == self@.tag(),
    {
        proof {
            use_type_invariant(&self);
        }
        if self.name.is_some() {
            Finalization { phase: FinalizePhase::Tagging, ..self }
        } else {
            self.at(FinalizePhase::RereadingConfig)
        }
    }

    fn with_images(self, manifest_verity: ObjectId, erofs: bool, boot: bool) -> (next:
        Finalization<M>)
        ensures
            next@ == self@.with_images(manifest_verity@, erofs, boot),
    {
        if !erofs || (self.boot.is_some() && !boot) {
            self.at(FinalizePhase::Generating { manifest_verity })
        } else {
            self.tag()
        }
    }

    /// What the finalization waits for.
    pub fn action(&self) -> (action: FinalizeAction<M>)
        ensures
            action@ == self@.action(),
    {
        proof {
            use_type_invariant(self);
        }
        match &self.phase {
            FinalizePhase::FindingConfig => FinalizeAction::HasStream(
                StreamKey::Config(self.config_digest.clone()),
            ),
            FinalizePhase::WritingConfig => {
                let mut refs: Vec<NamedRef> = Vec::new();
                clone_refs(&self.layer_refs, &mut refs);
                assert(named_refs(refs@) =~= self@.layer_refs);
                FinalizeAction::WriteStream {
                    key: StreamKey::Config(self.config_digest.clone()),
                    refs,
                    content: self.config_json.clone(),
                }
            },
            FinalizePhase::FindingManifest { .. } => FinalizeAction::HasStream(
                StreamKey::Manifest(self.manifest_digest.clone()),
            ),
            FinalizePhase::WritingManifest { config_verity } => {
                let mut refs: Vec<NamedRef> = Vec::new();
                let name: String = text::join2("config:", self.config_digest.as_str());
                refs.push(NamedRef { name, id: config_verity.clone() });
                clone_refs(&self.layer_refs, &mut refs);
                assert(named_refs(refs@) =~= self@.manifest_refs(config_verity@));
                FinalizeAction::WriteStream {
                    key: StreamKey::Manifest(self.manifest_digest.clone()),
                    refs,
                    content: self.manifest_json.clone(),
                }
            },
            FinalizePhase::FindingErofs { manifest_verity } => FinalizeAction::FindErofs {
                manifest_digest: self.manifest_digest.clone(),
                manifest_verity: manifest_verity.clone(),
            },
            FinalizePhase::FindingBoot { mode, .. } => FinalizeAction::FindBootImage {
                manifest_digest: self.manifest_digest.clone(),
                mode: *mode,
            },
            FinalizePhase::Generating { manifest_verity } => FinalizeAction::EnsureErofs {
                manifest_digest: self.manifest_digest.clone(),
                manifest_verity: manifest_verity.clone(),
                name: self.name.clone(),
                boot: self.boot,
            },
            FinalizePhase::Tagging => match &self.name {
                Some(name) => FinalizeAction::Tag {
                    manifest_digest: self.manifest_digest.clone(),
                    name: name.clone(),
                },
                None => vstd::pervasive::unreached(),
            },
            FinalizePhase::RereadingConfig => FinalizeAction::HasStream(
                StreamKey::Config(self.config_digest.clone()),
            ),
            FinalizePhase::RereadingManifest { .. } => FinalizeAction::HasStream(
                StreamKey::Manifest(self.manifest_digest.clone()),
            ),
            FinalizePhase::Done { manifest_verity, config_verity } => FinalizeAction::Done(
                FinalizeResult {
                    manifest_digest: self.manifest_digest.clone(),
                    manifest_verity: manifest_verity.clone(),
                    config_digest: self.config_digest.clone(),
                    config_verity: config_verity.clone(),
                },
            ),
            FinalizePhase::Failed(e) => FinalizeAction::Fail(*e),
        }
    }

    fn found(self, id: Option<ObjectId>) -> (next: Finalization<M>)
        ensures
            next@ == self@.after(FinalizeReply::<ObjectId>::Stream(id)@),
    {
        match &self.phase {
            FinalizePhase::FindingConfig => match id {
                Some(config_verity) => self.at(FinalizePhase::FindingManifest { config_verity }),
                None => self.at(FinalizePhase::WritingConfig),
            },
            FinalizePhase::FindingManifest { config_verity } => match id {
                Some(manifest_verity) => self.at(FinalizePhase::FindingErofs { manifest_verity }),
                None => {
                    let config_verity = config_verity.clone();
                    self.at(FinalizePhase::WritingManifest { config_verity })
                },
            },
            FinalizePhase::RereadingConfig => match id {
                Some(config_verity) => self.at(FinalizePhase::RereadingManifest { config_verity }),
                None => self.at(FinalizePhase::Failed(FinalizeError::ConfigMissing)),
            },
            FinalizePhase::RereadingManifest { config_verity } => match id {
                Some(manifest_verity) => {
                    let config_verity = config_verity.clone();
                    self.at(FinalizePhase::Done { manifest_verity, config_verity })
                },
                None => self.at(FinalizePhase::Failed(FinalizeError::ManifestMissing)),
            },
            _ => self,
        }
    }

    /// Takes in the outcome of what the finalization waited for.
    pub fn resume(self, reply: FinalizeReply) -> (next: Finalization<M>)
        ensures
            next@ == self@.after(reply@),
    {
        match reply {
            FinalizeReply::Stream(id) => self.found(id),
            FinalizeReply::Written(id) => match &self.phase {
                FinalizePhase::WritingConfig => self.at(
                    FinalizePhase::FindingManifest { config_verity: id },
                ),
                FinalizePhase::WritingManifest { .. } => self.at(
                    FinalizePhase::FindingErofs { manifest_verity: id },
                ),
                _ => self,
            },
            FinalizeReply::Erofs(erofs) => match &self.phase {
                FinalizePhase::FindingErofs { manifest_verity } => {
                    let manifest_verity = manifest_verity.clone();
                    match self.boot {
                        Some(mode) => self.at(
                            FinalizePhase::FindingBoot { mode, manifest_verity, erofs },
                        ),
                        None => self.with_images(manifest_verity, erofs, false),
                    }
                },
                _ => self,
            },
            FinalizeReply::BootImage(boot) => match &self.phase {
                FinalizePhase::FindingBoot { manifest_verity, erofs, .. } => {
                    let manifest_verity = manifest_verity.clone();
                    let erofs: bool = *erofs;
                    self.with_images(manifest_verity, erofs, boot)
                },
                _ => self,
            },
            FinalizeReply::Ensured(made) => match &self.phase {
                FinalizePhase::Generating { .. } => if made {
                    self.at(FinalizePhase::RereadingConfig)
                } else {
                    self.tag()
                },
                _ => self,
            },
            FinalizeReply::Tagged => match &self.phase {
                FinalizePhase::Tagging => self.at(FinalizePhase::RereadingConfig),
                _ => self,
            },
        }
    }
}

/// The parts of a repository that finalization touches.
#[verifier::ext_equal]
#[verifier::reject_recursive_types(M)]
pub struct Repository<M = ()> {
    /// The splitstreams and their verities.
    pub streams: Map<StreamKey<Seq<char>>, Seq<u8>>,
    /// The manifests that have an EROFS image.
    pub erofs: Set<Seq<char>>,
    /// The manifests that have the boot variant of it, and for which mode.
    pub boot: Set<(Seq<char>, M)>,
    /// The tags.
    pub tags: Map<Seq<char>, Seq<char>>,
}

/// How a repository behaves.
#[verifier::reject_recursive_types(M)]
pub struct RepositoryRules<M = ()> {
    /// The verity that a splitstream gets.
    pub verity: spec_fn(Seq<(Seq<char>, Seq<u8>)>, Seq<u8>) -> Seq<u8>,
    /// The verity that a splitstream has once it refers to an EROFS image, and to
    /// the boot variant for a mode; it depends on the verity it had before.
    pub linked: spec_fn(StreamKey<Seq<char>>, Seq<u8>, Option<M>) -> Seq<u8>,
    /// Whether a manifest is that of a container image, so that an EROFS image
    /// can be made of it.
    pub container: spec_fn(Seq<char>) -> bool,
}

impl<M> Finalize<M> {
    /// Whether a repository has the wanted images.
    pub open spec fn images_in(self, repo: Repository<M>) -> bool {
        &&& repo.erofs.contains(self.manifest_digest())
        &&& self.boot matches Some(mode) ==> repo.boot.contains((self.manifest_digest(), mode))
    }
}

/// A finalization under way in a repository.
#[verifier::reject_recursive_types(M)]
pub struct FinalizeRun<M = ()> {
    /// The finalization.
    pub f: Finalize<M>,
    /// The repository.
    pub repo: Repository<M>,
}

impl<M> Repository<M> {
    /// The repository with the manifest tagged, if there is a name.
    pub open spec fn tagged(self, name: Option<Seq<char>>, manifest: Seq<char>) -> Repository<M> {
        match name {
            Some(n) => Repository { tags: self.tags.insert(n, manifest), ..self },
            None => self,
        }
    }
}

impl<M> RepositoryRules<M> {
    /// The repository after the images of a container were generated: config and
    /// manifest are rewritten to refer to them, and the manifest is tagged.
    pub open spec fn generated(self, repo: Repository<M>, f: Finalize<M>) -> Repository<M> {
        let manifest = f.manifest_digest();
        let config_key = StreamKey::Config(f.config_digest());
        let manifest_key = StreamKey::Manifest(manifest);
        Repository {
            streams: repo.streams.insert(
                config_key,
                (self.linked)(config_key, repo.streams[config_key], f.boot),
            ).insert(
                manifest_key,
                (self.linked)(manifest_key, repo.streams[manifest_key], f.boot),
            ),
            erofs: repo.erofs.insert(manifest),
            boot: match f.boot {
                Some(mode) => repo.boot.insert((manifest, mode)),
                None => repo.boot,
            },
            ..repo
        }.tagged(f.name, manifest)
    }

    /// What the repository answers to a finalization that has not ended, and what
    /// becomes of the repository.
    pub open spec fn answer(self, f: Finalize<M>, repo: Repository<M>) -> (
        FinalizeReply<Seq<u8>>,
        Repository<M>,
    ) {
        match f.action() {
            FinalizeAction::HasStream(key) => (
                FinalizeReply::Stream(
                    if repo.streams.contains_key(key) {
                        Some(repo.streams[key])
                    } else {
                        None
                    },
                ),
                repo,
            ),
            FinalizeAction::WriteStream { key, refs, content } => {
                let id = (self.verity)(refs, content);
                (
                    FinalizeReply::Written(id),
                    Repository { streams: repo.streams.insert(key, id), ..repo },
                )
            },
            FinalizeAction::FindErofs { manifest_digest, .. } => (
                FinalizeReply::Erofs(repo.erofs.contains(manifest_digest)),
                repo,
            ),
            FinalizeAction::FindBootImage { manifest_digest, mode } => (
                FinalizeReply::BootImage(repo.boot.contains((manifest_digest, mode))),
                repo,
            ),
            FinalizeAction::EnsureErofs { manifest_digest, .. } => if (self.container)(
                manifest_digest,
            ) {
                (FinalizeReply::Ensured(true), self.generated(repo, f))
            } else {
                (FinalizeReply::Ensured(false), repo)
            },
            FinalizeAction::Tag { manifest_digest, name } => (
                FinalizeReply::Tagged,
                repo.tagged(Some(name), manifest_digest),
            ),
            FinalizeAction::Done(_) => arbitrary(),
            FinalizeAction::Fail(_) => arbitrary(),
        }
    }

    /// One round: the finalization asks, and the repository answers.
    pub open spec fn step(self, run: FinalizeRun<M>) -> FinalizeRun<M> {
        match run.f.action() {
            FinalizeAction::Done(_) => run,
            FinalizeAction::Fail(_) => run,
            _ => {
                let (reply, repo) = self.answer(run.f, run.repo);
                FinalizeRun { f: run.f.after(reply), repo }
            },
        }
    }

    /// The run after `n` rounds.
    pub open spec fn steps(self, run: FinalizeRun<M>, n: nat) -> FinalizeRun<M>
        decreases n,
    {
        if n == 0 {
            run
        } else {
            self.steps(self.step(run), (n - 1) as nat)
        }
    }

    /// The run when nothing is left to be done. No finalization takes more than
    /// ten rounds.
    pub open spec fn finalized(self, run: FinalizeRun<M>) -> FinalizeRun<M> {
        self.steps(run, 10)
    }

    /// The repository with the config in it.
    pub open spec fn with_config(self, f: Finalize<M>, repo: Repository<M>) -> Repository<M> {
        let key = StreamKey::Config(f.config_digest());
        if repo.streams.contains_key(key) {
            repo
        } else {
            let id = (self.verity)(f.layer_refs, f.config_json);
            Repository { streams: repo.streams.insert(key, id), ..repo }
        }
    }

    /// The repository with the manifest in it, given that the config is there.
    pub open spec fn with_manifest(self, f: Finalize<M>, repo: Repository<M>) -> Repository<M> {
        let key = StreamKey::Manifest(f.manifest_digest());
        if repo.streams.contains_key(key) {
            repo
        } else {
            let config_verity = repo.streams[StreamKey::Config(f.config_digest())];
            let id = (self.verity)(f.manifest_refs(config_verity), f.manifest_json);
            Repository { streams: repo.streams.insert(key, id), ..repo }
        }
    }

    /// The repository with the images and the tag in it.
    pub open spec fn with_images(self, f: Finalize<M>, repo: Repository<M>) -> Repository<M> {
        let manifest = f.manifest_digest();
        let there = f.images_in(repo);
        if !there && (self.container)(manifest) {
            self.generated(repo, f)
        } else {
            repo.tagged(f.name, manifest)
        }
    }

    /// The repository with everything in it.
    pub open spec fn complete(self, f: Finalize<M>, repo: Repository<M>) -> Repository<M> {
        self.with_images(f, self.with_manifest(f, self.with_config(f, repo)))
    }

    proof fn lemma_steps_add(self, run: FinalizeRun<M>, m: nat, n: nat)
        ensures
            self.steps(run, m + n) == self.steps(self.steps(run, m), n),
        decreases m,
    {
        if m > 0 {
            self.lemma_steps_add(self.step(run), (m - 1) as nat, n);
            assert((m + n - 1) as nat == ((m - 1) as nat) + n);
        }
    }

    proof fn lemma_config(self, f: Finalize<M>, repo: Repository<M>) -> (n: nat)
        requires
            f.phase is FindingConfig,
        ensures
            n <= 2,
            ({
                let end = self.steps(FinalizeRun { f, repo }, n);
                let there = self.with_config(f, repo);
                let config_verity = there.streams[StreamKey::Config(f.config_digest())];
                &&& end.repo == there
                &&& end.f == f.at(FinalizePhase::FindingManifest { config_verity })
            }),
    {
        reveal_with_fuel(RepositoryRules::steps, 3);
        if repo.streams.contains_key(StreamKey::Config(f.config_digest())) {
            1
        } else {
            2
        }
    }

    proof fn lemma_manifest(self, f: Finalize<M>, repo: Repository<M>) -> (n: nat)
        requires
            f.phase == (FinalizePhase::<M, Seq<u8>>::FindingManifest {
                config_verity: repo.streams[StreamKey::Config(f.config_digest())],
            }),
        ensures
            n <= 2,
            ({
                let end = self.steps(FinalizeRun { f, repo }, n);
                let there = self.with_manifest(f, repo);
                let manifest_verity = there.streams[StreamKey::Manifest(f.manifest_digest())];
                &&& end.repo == there
                &&& end.f == f.at(FinalizePhase::FindingErofs { manifest_verity })
            }),
    {
        reveal_with_fuel(RepositoryRules::steps, 3);
        if repo.streams.contains_key(StreamKey::Manifest(f.manifest_digest())) {
            1
        } else {
            2
        }
    }

    proof fn lemma_images(self, f: Finalize<M>, repo: Repository<M>) -> (n: nat)
        requires
            f.phase is FindingErofs,
        ensures
            n <= 4,
            ({
                let end = self.steps(FinalizeRun { f, repo }, n);
                &&& end.repo == self.with_images(f, repo)
                &&& end.f == f.at(FinalizePhase::RereadingConfig)
            }),
    {
        reveal_with_fuel(RepositoryRules::steps, 5);
        let manifest = f.manifest_digest();
        let there = f.images_in(repo);
        let looked: nat = if f.boot is Some {
            2
        } else {
            1
        };
        let tagging: nat = if f.name is Some {
            1
        } else {
            0
        };
        if there {
            looked + tagging
        } else if (self.container)(manifest) {
            looked + 1
        } else {
            looked + 1 + tagging
        }
    }

    proof fn lemma_reread(self, f: Finalize<M>, repo: Repository<M>)
        requires
            f.phase is RereadingConfig,
            repo.streams.contains_key(StreamKey::Config(f.config_digest())),
            repo.streams.contains_key(StreamKey::Manifest(f.manifest_digest())),
        ensures
            self.steps(FinalizeRun { f, repo }, 2) == (FinalizeRun {
                f: f.at(
                    FinalizePhase::Done {
                        manifest_verity: repo.streams[StreamKey::Manifest(f.manifest_digest())],
                        config_verity: repo.streams[StreamKey::Config(f.config_digest())],
                    },
                ),
                repo,
            }),
    {
        reveal_with_fuel(RepositoryRules::steps, 3);
    }

    proof fn lemma_ended(self, run: FinalizeRun<M>, n: nat)
        requires
            run.f.phase is Done,
        ensures
            self.steps(run, n) == run,
        decreases n,
    {
        if n > 0 {
            self.lemma_ended(run, (n - 1) as nat);
        }
    }

    proof fn lemma_finalized(self, f: Finalize<M>, repo: Repository<M>)
        requires
            f.phase is FindingConfig,
        ensures
            ({
                let end = self.complete(f, repo);
                let config_key = StreamKey::Config(f.config_digest());
                let manifest_key = StreamKey::Manifest(f.manifest_digest());
                &&& end.streams.contains_key(config_key)
                &&& end.streams.contains_key(manifest_key)
                &&& self.finalized(FinalizeRun { f, repo }) == (FinalizeRun {
                    f: f.at(
                        FinalizePhase::Done {
                            manifest_verity: end.streams[manifest_key],
                            config_verity: end.streams[config_key],
                        },
                    ),
                    repo: end,
                })
            }),
    {
        let run = FinalizeRun { f, repo };
        let a = self.lemma_config(f, repo);
        let one = self.steps(run, a);
        let b = self.lemma_manifest(one.f, one.repo);
        let two = self.steps(one, b);
        let c = self.lemma_images(two.f, two.repo);
        let three = self.steps(two, c);
        self.lemma_reread(three.f, three.repo);
        let end = self.steps(three, 2);
        self.lemma_steps_add(run, a, b);
        self.lemma_steps_add(run, a + b, c);
        self.lemma_steps_add(run, a + b + c, 2);
        let rest = (10 - (a + b + c + 2)) as nat;
        self.lemma_steps_add(run, a + b + c + 2, rest);
        self.lemma_ended(end, rest);
        assert(a + b + c + 2 + rest == 10);
    }
}

/// A finalization that is about to begin.
pub open spec fn beginning<M>(f: Finalize<M>) -> bool {
    f.phase is FindingConfig
}

/// The result that a finalization ended with.
pub open spec fn outcome<M>(run: FinalizeRun<M>) -> Option<FinalizeResult<Seq<char>, Seq<u8>>> {
    match run.f.action() {
        FinalizeAction::Done(result) => Some(result),
        _ => None,
    }
}

/// What holds once an image is finalized: the result names the digests of the
/// exact bytes of manifest and config and the verities that the repository has
/// for them, a container image has its EROFS image, with the boot variant if it
/// was wanted, and the name, if there is one, is a tag of the manifest.
pub open spec fn in_place<M>(
    rules: RepositoryRules<M>,
    f: Finalize<M>,
    end: FinalizeRun<M>,
) -> bool {
    let manifest = f.manifest_digest();
    let config_key = StreamKey::Config(f.config_digest());
    let manifest_key = StreamKey::Manifest(manifest);
    &&& end.repo.streams.contains_key(config_key)
    &&& end.repo.streams.contains_key(manifest_key)
    &&& outcome(end) == Some(
        FinalizeResult {
            manifest_digest: manifest,
            manifest_verity: end.repo.streams[manifest_key],
            config_digest: f.config_digest(),
            config_verity: end.repo.streams[config_key],
        },
    )
    &&& (rules.container)(manifest) ==> f.images_in(end.repo)
    &&& f.name matches Some(n) ==> end.repo.tags.contains_pair(n, manifest)
}

/// Whatever the repository holds at first, finalizing an image succeeds and puts
/// everything in place.
pub proof fn finalize_puts_the_image_in_place<M>(
    rules: RepositoryRules<M>,
    f: Finalize<M>,
    repo: Repository<M>,
)
    requires
        beginning(f),
    ensures
        in_place(rules, f, rules.finalized(FinalizeRun { f, repo })),
{
    rules.lemma_finalized(f, repo);
}

/// Finalizing an image once more changes nothing and gives the same result.
pub proof fn finalize_is_idempotent<M>(
    rules: RepositoryRules<M>,
    f: Finalize<M>,
    repo: Repository<M>,
)
    requires
        beginning(f),
    ensures
        ({
            let once = rules.finalized(FinalizeRun { f, repo });
            let twice = rules.finalized(FinalizeRun { f, repo: once.repo });
            &&& twice.repo == once.repo
            &&& outcome(twice) == outcome(once)
        }),
{
    let once = rules.complete(f, repo);
    rules.lemma_finalized(f, repo);
    rules.lemma_finalized(f, once);
    assert(rules.complete(f, once) =~= once);
}

/// An image that was finalized without a boot variant, or with one for another
/// mode, gets the one for the wanted mode when it is finalized again, although its
/// plain EROFS image is there already.
pub proof fn finalize_again_adds_the_boot_variant<M>(
    rules: RepositoryRules<M>,
    f: Finalize<M>,
    repo: Repository<M>,
    mode: M,
)
    requires
        beginning(f),
        f.boot != Some(mode),
        (rules.container)(f.manifest_digest()),
    ensures
        ({
            let manifest = f.manifest_digest();
            let first = rules.finalized(FinalizeRun { f, repo });
            let bootable = Finalize { boot: Some(mode), ..f };
            let again = rules.finalized(FinalizeRun { f: bootable, repo: first.repo });
            &&& first.repo.erofs.contains(manifest)
            &&& first.repo.boot.contains((manifest, mode)) == repo.boot.contains((manifest, mode))
            &&& again.repo.boot.contains((manifest, mode))
            &&& again.repo.erofs.contains(manifest)
        }),
{
    rules.lemma_finalized(f, repo);
    rules.lemma_finalized(Finalize { boot: Some(mode), ..f }, rules.complete(f, repo));
}

/// Finalizing an image leaves the others alone: their splitstreams and EROFS
/// images, and the tags under other names.
pub proof fn finalize_leaves_other_images_alone<M>(
    rules: RepositoryRules<M>,
    f: Finalize<M>,
    repo: Repository<M>,
    key: StreamKey<Seq<char>>,
    manifest: Seq<char>,
    mode: M,
    name: Seq<char>,
)
    requires
        beginning(f),
        key != StreamKey::Config(f.config_digest()),
        key != StreamKey::Manifest(f.manifest_digest()),
        manifest != f.manifest_digest(),
        f.name != Some(name),
    ensures
        ({
            let end = rules.finalized(FinalizeRun { f, repo }).repo;
            &&& end.streams.contains_key(key) == repo.streams.contains_key(key)
            &&& repo.streams.contains_key(key) ==> end.streams[key] == repo.streams[key]
            &&& end.erofs.contains(manifest) == repo.erofs.contains(manifest)
            &&& end.boot.contains((manifest, mode)) == repo.boot.contains((manifest, mode))
            &&& end.tags.contains_key(name) == repo.tags.contains_key(name)
            &&& repo.tags.contains_key(name) ==> end.tags[name] == repo.tags[name]
        }),
{
    rules.lemma_finalized(f, repo);
}

/// The references that a finalization writes into the manifest: one for the config, under
/// its digest, and then one for every layer, under its diff-id.
pub open spec fn refers_to_config_and_layers(
    refs: Seq<(Seq<char>, Seq<u8>)>,
    config_digest: Seq<char>,
    config_verity: Seq<u8>,
    layers: Seq<(Seq<char>, Seq<u8>)>,
) -> bool {
    &&& refs.len() == layers.len() + 1
    &&& refs[0].0 == "config:"@ + config_digest
    &&& refs[0].1 == config_verity
    &&& forall|k: int| 0 <= k < layers.len() ==> refs[k + 1] == #[trigger] layers[k]
}

/// The first half of the conversation, whatever the repository replies: the config is
/// looked up and, if it is not there, written with a reference to every layer; then the
/// manifest is looked up and, if it is not there, written with references to the config
/// and to every layer. Both go by the digests of their exact bytes.
pub proof fn config_and_manifest_are_written_if_missing<M>(
    f: Finalize<M>,
    config: Option<Seq<u8>>,
    config_written: Seq<u8>,
    manifest: Option<Seq<u8>>,
    manifest_written: Seq<u8>,
)
    requires
        f.phase is FindingConfig,
    ensures
        ({
            let config_digest = "sha256:"@ + text::hex_text(digest::sha256(f.config_json));
            let manifest_digest = "sha256:"@ + text::hex_text(digest::sha256(f.manifest_json));
            let a = f.after(FinalizeReply::Stream(config));
            let b = if config is Some {
                a
            } else {
                a.after(FinalizeReply::Written(config_written))
            };
            let config_verity = if config is Some {
                config.unwrap()
            } else {
                config_written
            };
            let c = b.after(FinalizeReply::Stream(manifest));
            let d = if manifest is Some {
                c
            } else {
                c.after(FinalizeReply::Written(manifest_written))
            };
            let manifest_verity = if manifest is Some {
                manifest.unwrap()
            } else {
                manifest_written
            };
            &&& f.action() == ActionModel::<M>::HasStream(StreamKey::Config(config_digest))
            &&& config is None ==> {
                &&& a.action() matches FinalizeAction::WriteStream { key, refs, content }
                &&& key == StreamKey::Config(config_digest)
                &&& refs.len() == f.layer_refs.len()
                &&& forall|k: int|
                    0 <= k < f.layer_refs.len() ==> refs[k] == #[trigger] f.layer_refs[k]
                &&& content == f.config_json
            }
            &&& b.action() == ActionModel::<M>::HasStream(StreamKey::Manifest(manifest_digest))
            &&& manifest is None ==> {
                &&& c.action() matches FinalizeAction::WriteStream { key, refs, content }
                &&& key == StreamKey::Manifest(manifest_digest)
                &&& refers_to_config_and_layers(refs, config_digest, config_verity, f.layer_refs)
                &&& content == f.manifest_json
            }
            &&& d.action() == (ActionModel::<M>::FindErofs { manifest_digest, manifest_verity })
            &&& d == f.at(FinalizePhase::FindingErofs { manifest_verity })
        }),
{
    digest::content_digest_names_the_content(f.config_json, f.config_json);
    digest::content_digest_names_the_content(f.manifest_json, f.manifest_json);
}

/// The second half of the conversation: the boot variant is only looked up if one is
/// wanted, and for its mode. Images are generated unless the plain one and the wanted
/// variant are there. If they were not generated, the manifest is tagged with the name,
/// if there is one. What is reported in the end are the verities that the streams have
/// then.
pub proof fn images_are_generated_if_missing<M>(
    f: Finalize<M>,
    manifest_verity: Seq<u8>,
    erofs: bool,
    boot: bool,
    made: bool,
    config: Option<Seq<u8>>,
    manifest: Option<Seq<u8>>,
    late: FinalizeReply<Seq<u8>>,
)
    requires
        f.phase == (FinalizePhase::<M, Seq<u8>>::FindingErofs { manifest_verity }),
    ensures
        ({
            let config_digest = "sha256:"@ + text::hex_text(digest::sha256(f.config_json));
            let manifest_digest = "sha256:"@ + text::hex_text(digest::sha256(f.manifest_json));
            let e = f.after(FinalizeReply::Erofs(erofs));
            let g = if f.boot is Some {
                e.after(FinalizeReply::BootImage(boot))
            } else {
                e
            };
            let generates = !erofs || (f.boot is Some && !boot);
            let h = if generates {
                g.after(FinalizeReply::Ensured(made))
            } else {
                g
            };
            let tags = f.name is Some && !(generates && made);
            let i = if tags {
                h.after(FinalizeReply::Tagged)
            } else {
                h
            };
            let j = i.after(FinalizeReply::Stream(config));
            let k = j.after(FinalizeReply::Stream(manifest));
            &&& f.boot matches Some(mode) ==> e.action() == (ActionModel::<M>::FindBootImage {
                manifest_digest,
                mode,
            })
            &&& generates ==> g.action() == (ActionModel::<M>::EnsureErofs {
                manifest_digest,
                manifest_verity,
                name: f.name,
                boot: f.boot,
            })
            &&& tags ==> h.action() == (ActionModel::<M>::Tag {
                manifest_digest,
                name: f.name.unwrap(),
            })
            &&& i.action() == ActionModel::<M>::HasStream(StreamKey::Config(config_digest))
            &&& match config {
                None => {
                    &&& j.action() == ActionModel::<M>::Fail(FinalizeError::ConfigMissing)
                    &&& j.after(late) == j
                },
                Some(config_verity) => {
                    &&& j.action() == ActionModel::<M>::HasStream(
                        StreamKey::Manifest(manifest_digest),
                    )
                    &&& k.after(late) == k
                    &&& k.action() == match manifest {
                        None => ActionModel::<M>::Fail(FinalizeError::ManifestMissing),
                        Some(verity) => FinalizeAction::Done(
                            FinalizeResult {
                                manifest_digest,
                                manifest_verity: verity,
                                config_digest,
                                config_verity,
                            },
                        ),
                    }
                },
            }
        }),
{
    digest::content_digest_names_the_content(f.config_json, f.config_json);
    digest::content_digest_names_the_content(f.manifest_json, f.manifest_json);
}

/// The splitstreams that an image has once it is finalized: those that were there, or
/// else what the repository makes of exactly the config with references to every layer,
/// and of exactly the manifest with references to the config and to every layer; and
/// where images had to be generated, what linking makes of these. The manifest gets its
/// name as a tag.
pub proof fn finalized_streams_are_made_of_the_image<M>(
    rules: RepositoryRules<M>,
    f: Finalize<M>,
    repo: Repository<M>,
    refs: Seq<(Seq<char>, Seq<u8>)>,
)
    requires
        f.phase is FindingConfig,
        ({
            let config_digest = "sha256:"@ + text::hex_text(digest::sha256(f.config_json));
            let key = StreamKey::Config(config_digest);
            refers_to_config_and_layers(
                refs,
                config_digest,
                if repo.streams.contains_key(key) {
                    repo.streams[key]
                } else {
                    (rules.verity)(f.layer_refs, f.config_json)
                },
                f.layer_refs,
            )
        }),
    ensures
        ({
            let config_digest = "sha256:"@ + text::hex_text(digest::sha256(f.config_json));
            let manifest_digest = "sha256:"@ + text::hex_text(digest::sha256(f.manifest_json));
            let config_key = StreamKey::Config(config_digest);
            let manifest_key = StreamKey::Manifest(manifest_digest);
            let config = if repo.streams.contains_key(config_key) {
                repo.streams[config_key]
            } else {
                (rules.verity)(f.layer_refs, f.config_json)
            };
            let manifest = if repo.streams.contains_key(manifest_key) {
                repo.streams[manifest_key]
            } else {
                (rules.verity)(refs, f.manifest_json)
            };
            let boot_missing = f.boot matches Some(mode) && !repo.boot.contains(
                (manifest_digest, mode),
            );
            let generates = (rules.container)(manifest_digest) && (!repo.erofs.contains(
                manifest_digest,
            ) || boot_missing);
            let end = rules.finalized(FinalizeRun { f, repo });
            &&& end.repo.streams.contains_key(config_key)
            &&& end.repo.streams.contains_key(manifest_key)
            &&& end.repo.streams[config_key] == if generates {
                (rules.linked)(config_key, config, f.boot)
            } else {
                config
            }
            &&& end.repo.streams[manifest_key] == if generates {
                (rules.linked)(manifest_key, manifest, f.boot)
            } else {
                manifest
            }
            &&& end.f.action() == ActionModel::<M>::Done(
                FinalizeResult {
                    manifest_digest,
                    manifest_verity: end.repo.streams[manifest_key],
                    config_digest,
                    config_verity: end.repo.streams[config_key],
                },
            )
            &&& f.name matches Some(name) ==> end.repo.tags.contains_key(name)
                && end.repo.tags[name] == manifest_digest
            &&& f.name is None ==> end.repo.tags == repo.tags
            &&& (rules.container)(manifest_digest) ==> end.repo.erofs.contains(manifest_digest)
            &&& (rules.container)(manifest_digest) ==> (f.boot matches Some(mode)
                ==> end.repo.boot.contains((manifest_digest, mode)))
            &&& !(rules.container)(manifest_digest) ==> end.repo.erofs == repo.erofs
                && end.repo.boot == repo.boot
        }),
{
    digest::content_digest_names_the_content(f.config_json, f.config_json);
    digest::content_digest_names_the_content(f.manifest_json, f.manifest_json);
    rules.lemma_finalized(f, repo);
    let one = rules.with_config(f, repo);
    let config_verity = one.streams[StreamKey::Config(f.config_digest())];
    assert(refs =~= f.manifest_refs(config_verity)) by {
        assert forall|k: int| 0 <= k < refs.len() implies refs[k] == #[trigger] f.manifest_refs(
            config_verity,
        )[k] by {
            if k > 0 {
                assert(refs[(k - 1) + 1] == f.layer_refs[k - 1]);
            }
        }
    }
}

/// The models of references have the names and targets of the references, in their
/// places.
pub proof fn reference_models_are_faithful(
    refs: Seq<NamedRef>,
    layers: Seq<(OciDigest, ObjectId)>,
    i: int,
)
    ensures
        named_refs(refs).len() == refs.len(),
        0 <= i < refs.len() ==> named_refs(refs)[i].0 == refs[i].name@ && named_refs(refs)[i].1
            == refs[i].id@,
        layer_refs_model(layers).len() == layers.len(),
        0 <= i < layers.len() ==> layer_refs_model(layers)[i].0 == layers[i].0@
            && layer_refs_model(layers)[i].1 == layers[i].1@,
{
}

/// The models of actions, replies and results have what these have.
pub proof fn finalize_models_are_faithful<M>(
    action: FinalizeAction<M>,
    reply: FinalizeReply,
    key: StreamKey,
)
    ensures
        match (action, action@) {
            (FinalizeAction::HasStream(key), FinalizeAction::HasStream(model)) => model == key@,
            (
                FinalizeAction::WriteStream { key, refs, content },
                FinalizeAction::WriteStream { key: k, refs: r, content: c },
            ) => k == key@ && r == named_refs(refs@) && c == content@,
            (
                FinalizeAction::FindErofs { manifest_digest, manifest_verity },
                FinalizeAction::FindErofs { manifest_digest: d, manifest_verity: v },
            ) => d == manifest_digest@ && v == manifest_verity@,
            (
                FinalizeAction::FindBootImage { manifest_digest, mode },
                FinalizeAction::FindBootImage { manifest_digest: d, mode: m },
            ) => d == manifest_digest@ && m == mode,
            (
                FinalizeAction::EnsureErofs { manifest_digest, manifest_verity, name, boot },
                FinalizeAction::EnsureErofs {
                    manifest_digest: d,
                    manifest_verity: v,
                    name: n,
                    boot: b,
                },
            ) => d == manifest_digest@ && v == manifest_verity@ && n == text::opt_text(name) && b
                == boot,
            (
                FinalizeAction::Tag { manifest_digest, name },
                FinalizeAction::Tag { manifest_digest: d, name: n },
            ) => d == manifest_digest@ && n == name@,
            (FinalizeAction::Done(result), FinalizeAction::Done(model)) => {
                &&& model.manifest_digest == result.manifest_digest@
                &&& model.manifest_verity == result.manifest_verity@
                &&& model.config_digest == result.config_digest@
                &&& model.config_verity == result.config_verity@
            },
            (FinalizeAction::Fail(e), FinalizeAction::Fail(model)) => model == e,
            _ => false,
        },
        match (reply, reply@) {
            (FinalizeReply::Stream(Some(id)), FinalizeReply::Stream(model)) => model == Some(id@),
            (FinalizeReply::Stream(None), FinalizeReply::Stream(model)) => model is None,
            (FinalizeReply::Written(id), FinalizeReply::Written(model)) => model == id@,
            (FinalizeReply::Erofs(b), FinalizeReply::Erofs(model)) => model == b,
            (FinalizeReply::BootImage(b), FinalizeReply::BootImage(model)) => model == b,
            (FinalizeReply::Ensured(b), FinalizeReply::Ensured(model)) => model == b,
            (FinalizeReply::Tagged, FinalizeReply::Tagged) => true,
            _ => false,
        },
        match (key, key@) {
            (StreamKey::Layer(d), StreamKey::Layer(model)) => model == d@,
            (StreamKey::Config(d), StreamKey::Config(model)) => model == d@,
            (StreamKey::Manifest(d), StreamKey::Manifest(model)) => model == d@,
            _ => false,
        },
{
}

/// Whether a reply is the outcome of what a finalization waits for.
pub open spec fn answers<M>(action: ActionModel<M>, reply: FinalizeReply<Seq<u8>>) -> bool {
    match (action, reply) {
        (FinalizeAction::HasStream(_), FinalizeReply::Stream(_)) => true,
        (FinalizeAction::WriteStream { .. }, FinalizeReply::Written(_)) => true,
        (FinalizeAction::FindErofs { .. }, FinalizeReply::Erofs(_)) => true,
        (FinalizeAction::FindBootImage { .. }, FinalizeReply::BootImage(_)) => true,
        (FinalizeAction::EnsureErofs { .. }, FinalizeReply::Ensured(_)) => true,
        (FinalizeAction::Tag { .. }, FinalizeReply::Tagged) => true,
        _ => false,
    }
}

/// Anything but the outcome of what a finalization waits for leaves it as it is. So one
/// that has ended stays as it is.
pub proof fn other_replies_change_nothing<M>(f: Finalize<M>, reply: FinalizeReply<Seq<u8>>)
    requires
        !answers(f.action(), reply),
    ensures
        f.after(reply) == f,
{
}

/// What an error says: which of the two splitstreams is missing.
pub proof fn finalize_messages_tell_what_is_missing(e: FinalizeError)
    ensures
        e.text() == match e {
            FinalizeError::ConfigMissing => "config splitstream missing after finalization"@,
            FinalizeError::ManifestMissing => "manifest splitstream missing after finalization"@,
        },
{
}

} // verus!

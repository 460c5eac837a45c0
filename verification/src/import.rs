//! Importing an image layer by layer.
//!
//! An [`ImageImport`] looks up every layer in the repository, has those that are
//! missing transferred, and then finalizes the image. It asks for one thing at a
//! time, and the caller hands the outcome back.
use vstd::prelude::*;

use crate::digest::{ObjectId, OciDigest};
use crate::finalize;
use crate::finalize::{
    ActionModel, Finalization, Finalize, FinalizeAction, FinalizeError, FinalizePhase,
    FinalizeReply, FinalizeResult,
};
use crate::progress;
use crate::progress::{ProgressEvent, ProgressUnit};
use crate::stats::ImportStats;
use crate::text;
use crate::varlink_types::GetLayerParams;

verus! {

/// A layer to be imported.
#[derive(Debug)]
pub struct ImportLayer {
    /// Its diff-id, under which the repository keeps it.
    pub diff_id: OciDigest,
    /// How to ask for it.
    pub params: GetLayerParams,
}

/// The model of a list of layers: their diff-ids, and how to ask for them.
pub type Layers = Seq<(Seq<char>, GetLayerParams<Seq<char>>)>;

/// The model of a list of layers.
pub open spec fn layers_model(v: Seq<ImportLayer>) -> Layers {
    Seq::new(v.len(), |i: int| (v[i].diff_id@, v[i].params@))
}

/// Where manifest and config come from.
#[derive(Debug)]
pub enum MetadataSource<S = String, B = Vec<u8>> {
    /// They are read from the image in containers-storage.
    Storage {
        /// The key of the config.
        config_key: S,
    },
    /// They are known.
    Given {
        /// The manifest.
        manifest: B,
        /// The config.
        config: B,
    },
}

impl View for MetadataSource<String, Vec<u8>> {
    type V = MetadataSource<Seq<char>, Seq<u8>>;

    open spec fn view(&self) -> MetadataSource<Seq<char>, Seq<u8>> {
        match self {
            MetadataSource::Storage { config_key } => MetadataSource::Storage {
                config_key: config_key@,
            },
            MetadataSource::Given { manifest, config } => MetadataSource::Given {
                manifest: manifest@,
                config: config@,
            },
        }
    }
}

/// What an import waits for, or how it ended.
#[derive(Debug)]
pub enum ImportAction<
    D = OciDigest,
    S = String,
    P = GetLayerParams,
    F = FinalizeAction,
    R = FinalizeResult,
> {
    /// Look up the layer with this diff-id.
    HasLayer {
        /// The diff-id.
        diff_id: D,
    },
    /// Transfer a layer and drain it into the repository.
    Transfer {
        /// The diff-id of the layer.
        diff_id: D,
        /// How to ask for it.
        params: P,
        /// Whether the drain insists on zero-copy storage of the files of the layer.
        zerocopy: bool,
    },
    /// No more layers are needed: shut down the service that provides them.
    CloseService,
    /// Read a piece of metadata of the image.
    ReadMetadata {
        /// The key of the piece.
        key: S,
    },
    /// Read the manifest of the image.
    ReadManifest,
    /// What the finalization of the image waits for.
    Finalize(F),
    /// The image is imported.
    Done(R),
    /// The image could not be finalized.
    Fail(FinalizeError),
}

/// The model of an [`ImportAction`].
pub type ImportActionModel = ImportAction<
    Seq<char>,
    Seq<char>,
    GetLayerParams<Seq<char>>,
    ActionModel,
    FinalizeResult<Seq<char>, Seq<u8>>,
>;

impl View for ImportAction<OciDigest, String, GetLayerParams, FinalizeAction, FinalizeResult> {
    type V = ImportActionModel;

    open spec fn view(&self) -> ImportActionModel {
        match self {
            ImportAction::HasLayer { diff_id } => ImportAction::HasLayer { diff_id: diff_id@ },
            ImportAction::Transfer { diff_id, params, zerocopy } => ImportAction::Transfer {
                diff_id: diff_id@,
                params: params@,
                zerocopy: *zerocopy,
            },
            ImportAction::CloseService => ImportAction::CloseService,
            ImportAction::ReadMetadata { key } => ImportAction::ReadMetadata { key: key@ },
            ImportAction::ReadManifest => ImportAction::ReadManifest,
            ImportAction::Finalize(action) => ImportAction::Finalize(action@),
            ImportAction::Done(result) => ImportAction::Done(result@),
            ImportAction::Fail(e) => ImportAction::Fail(*e),
        }
    }
}

/// The outcome of what an import waited for.
#[derive(Debug)]
pub enum ImportReply<I = ObjectId, B = Vec<u8>, F = FinalizeReply> {
    /// The layer splitstream, if there is one.
    Layer(Option<I>),
    /// The layer was transferred.
    Transferred {
        /// Its splitstream.
        id: I,
        /// What was stored for it.
        stats: ImportStats,
        /// How many bytes of it were new.
        transferred: u64,
    },
    /// The service is shut down.
    Closed,
    /// The metadata asked for.
    Bytes(B),
    /// The outcome of what the finalization waited for.
    Finalize(F),
}

impl View for ImportReply<ObjectId, Vec<u8>, FinalizeReply> {
    type V = ImportReply<Seq<u8>, Seq<u8>, FinalizeReply<Seq<u8>>>;

    open spec fn view(&self) -> ImportReply<Seq<u8>, Seq<u8>, FinalizeReply<Seq<u8>>> {
        match self {
            ImportReply::Layer(Some(id)) => ImportReply::Layer(Some(id@)),
            ImportReply::Layer(None) => ImportReply::Layer(None),
            ImportReply::Transferred { id, stats, transferred } => ImportReply::Transferred {
                id: id@,
                stats: *stats,
                transferred: *transferred,
            },
            ImportReply::Closed => ImportReply::Closed,
            ImportReply::Bytes(bytes) => ImportReply::Bytes(bytes@),
            ImportReply::Finalize(reply) => ImportReply::Finalize(reply@),
        }
    }
}

/// Where an import stands.
#[derive(Debug)]
pub enum ImportPhase<B, F> {
    /// Is the current layer there?
    Looking,
    /// The current layer is being transferred.
    Transferring,
    /// The service is being shut down.
    Closing,
    /// The config is being read.
    ReadingConfig,
    /// The manifest is being read.
    ReadingManifest {
        /// The config.
        config: B,
    },
    /// The image is being finalized.
    Finalizing(F),
}

/// The model of a phase.
pub open spec fn phase_model(phase: ImportPhase<Vec<u8>, Finalization>) -> ImportPhase<
    Seq<u8>,
    Finalize,
> {
    match phase {
        ImportPhase::Looking => ImportPhase::Looking,
        ImportPhase::Transferring => ImportPhase::Transferring,
        ImportPhase::Closing => ImportPhase::Closing,
        ImportPhase::ReadingConfig => ImportPhase::ReadingConfig,
        ImportPhase::ReadingManifest { config } => ImportPhase::ReadingManifest {
            config: config@,
        },
        ImportPhase::Finalizing(f) => ImportPhase::Finalizing(f@),
    }
}

/// The abstract state of an import.
pub struct Import {
    /// The layers: diff-id, and how to ask for it.
    pub layers: Layers,
    /// The current layer.
    pub at: int,
    /// The layers that are in the repository: diff-id and verity.
    pub refs: Seq<(Seq<char>, Seq<u8>)>,
    /// What has been counted.
    pub stats: ImportStats,
    /// The name for the image.
    pub reference: Option<Seq<char>>,
    /// Whether to insist on zero-copy storage of files.
    pub zerocopy: bool,
    /// Where manifest and config come from.
    pub metadata: MetadataSource<Seq<char>, Seq<u8>>,
    /// What the import waits for.
    pub phase: ImportPhase<Seq<u8>, Finalize>,
}

impl Import {
    /// An import that has not done anything.
    pub open spec fn start(
        layers: Layers,
        reference: Option<Seq<char>>,
        zerocopy: bool,
        metadata: MetadataSource<Seq<char>, Seq<u8>>,
    ) -> Import {
        Import {
            layers,
            at: 0,
            refs: Seq::empty(),
            stats: ImportStats { layers: layers.len() as u64, ..ImportStats::zero() },
            reference,
            zerocopy,
            metadata,
            phase: if layers.len() > 0 {
                ImportPhase::Looking
            } else {
                ImportPhase::Closing
            },
        }
    }

    /// The diff-id of the current layer.
    pub open spec fn diff_id(self) -> Seq<char> {
        self.layers[self.at].0
    }

    /// The import in another phase.
    pub open spec fn to(self, phase: ImportPhase<Seq<u8>, Finalize>) -> Import {
        Import { phase, ..self }
    }

    /// The import once the current layer is in the repository.
    pub open spec fn next_layer(self, id: Seq<u8>, stats: ImportStats) -> Import {
        Import {
            at: self.at + 1,
            refs: self.refs.push((self.diff_id(), id)),
            stats,
            phase: if self.at + 1 < self.layers.len() {
                ImportPhase::Looking
            } else {
                ImportPhase::Closing
            },
            ..self
        }
    }

    /// The counters with one more layer that was there already.
    pub open spec fn one_present(self) -> ImportStats {
        ImportStats {
            layers_already_present: (self.stats.layers_already_present + 1) as u64,
            ..self.stats
        }
    }

    /// The import once manifest and config are known. No boot variant is asked
    /// for.
    pub open spec fn finalizing(self, manifest: Seq<u8>, config: Seq<u8>) -> Import {
        self.to(
            ImportPhase::Finalizing(
                Finalize {
                    manifest_json: manifest,
                    config_json: config,
                    layer_refs: self.refs,
                    name: self.reference,
                    boot: None,
                    phase: FinalizePhase::FindingConfig,
                },
            ),
        )
    }

    /// The import after a reply. A reply that is not the outcome of what it waits
    /// for changes nothing.
    pub open spec fn after(
        self,
        reply: ImportReply<Seq<u8>, Seq<u8>, FinalizeReply<Seq<u8>>>,
    ) -> Import {
        match (self.phase, reply) {
            (ImportPhase::Looking, ImportReply::Layer(Some(id))) => self.next_layer(
                id,
                self.one_present(),
            ),
            (ImportPhase::Looking, ImportReply::Layer(None)) => self.to(ImportPhase::Transferring),
            (
                ImportPhase::Transferring,
                ImportReply::Transferred { id, stats, transferred },
            ) => self.next_layer(id, self.stats.merged(stats)),
            (ImportPhase::Closing, ImportReply::Closed) => match self.metadata {
                MetadataSource::Storage { config_key } => self.to(ImportPhase::ReadingConfig),
                MetadataSource::Given { manifest, config } => self.finalizing(manifest, config),
            },
            (ImportPhase::ReadingConfig, ImportReply::Bytes(config)) => self.to(
                ImportPhase::ReadingManifest { config },
            ),
            (
                ImportPhase::ReadingManifest { config },
                ImportReply::Bytes(manifest),
            ) => self.finalizing(manifest, config),
            (ImportPhase::Finalizing(f), ImportReply::Finalize(r)) => self.to(
                ImportPhase::Finalizing(f.after(r)),
            ),
            _ => self,
        }
    }

    /// What is to be reported after a reply.
    pub open spec fn reports(
        self,
        reply: ImportReply<Seq<u8>, Seq<u8>, FinalizeReply<Seq<u8>>>,
    ) -> Seq<ProgressEvent<Seq<char>>> {
        match (self.phase, reply) {
            (ImportPhase::Looking, ImportReply::Layer(Some(id))) => seq![
                ProgressEvent::Skipped { id: self.diff_id() },
            ],
            (ImportPhase::Looking, ImportReply::Layer(None)) => seq![
                ProgressEvent::Started {
                    id: self.diff_id(),
                    total: None,
                    unit: ProgressUnit::Bytes,
                },
            ],
            (
                ImportPhase::Transferring,
                ImportReply::Transferred { id, stats, transferred },
            ) => seq![ProgressEvent::Done { id: self.diff_id(), transferred }],
            (ImportPhase::Closing, ImportReply::Closed) => match self.metadata {
                MetadataSource::Storage { config_key } => seq![
                    ProgressEvent::Message("Layers imported"@),
                ],
                MetadataSource::Given { manifest, config } => seq![
                    ProgressEvent::Message("Layers imported"@),
                    ProgressEvent::Message("Finalizing image"@),
                ],
            },
            (ImportPhase::ReadingConfig, ImportReply::Bytes(config)) => seq![
                ProgressEvent::Message(progress::read_text("config"@, config.len())),
            ],
            (ImportPhase::ReadingManifest { config }, ImportReply::Bytes(manifest)) => seq![
                ProgressEvent::Message(progress::read_text("manifest"@, manifest.len())),
            ],
            _ => Seq::empty(),
        }
    }

    /// Whether the counters can hold what a reply adds to them.
    pub open spec fn fits(
        self,
        reply: ImportReply<Seq<u8>, Seq<u8>, FinalizeReply<Seq<u8>>>,
    ) -> bool {
        match (self.phase, reply) {
            (
                ImportPhase::Looking,
                ImportReply::Layer(Some(id)),
            ) => self.stats.layers_already_present < u64::MAX,
            (
                ImportPhase::Transferring,
                ImportReply::Transferred { id, stats, transferred },
            ) => self.stats.merge_fits(stats),
            _ => true,
        }
    }

    /// What the import waits for, or how it ended.
    pub open spec fn action(self) -> ImportActionModel {
        match self.phase {
            ImportPhase::Looking => ImportAction::HasLayer { diff_id: self.diff_id() },
            ImportPhase::Transferring => ImportAction::Transfer {
                diff_id: self.diff_id(),
                params: self.layers[self.at].1,
                zerocopy: self.zerocopy,
            },
            ImportPhase::Closing => ImportAction::CloseService,
            ImportPhase::ReadingConfig => match self.metadata {
                MetadataSource::Storage { config_key } => ImportAction::ReadMetadata {
                    key: config_key,
                },
                MetadataSource::Given { manifest, config } => ImportAction::ReadManifest,
            },
            ImportPhase::ReadingManifest { config } => ImportAction::ReadManifest,
            ImportPhase::Finalizing(f) => match f.action() {
                FinalizeAction::Done(result) => ImportAction::Done(result),
                FinalizeAction::Fail(e) => ImportAction::Fail(e),
                action => ImportAction::Finalize(action),
            },
        }
    }
}

/// An import under way.
#[derive(Debug)]
pub struct ImageImport {
    layers: Vec<ImportLayer>,
    at: usize,
    refs: Vec<(OciDigest, ObjectId)>,
    stats: ImportStats,
    reference: Option<String>,
    zerocopy: bool,
    metadata: MetadataSource,
    phase: ImportPhase<Vec<u8>, Finalization>,
}

impl View for ImageImport {
    type V = Import;

    closed spec fn view(&self) -> Import {
        Import {
            layers: layers_model(self.layers@),
            at: self.at as int,
            refs: finalize::layer_refs_model(self.refs@),
            stats: self.stats,
            reference: text::opt_text(self.reference),
            zerocopy: self.zerocopy,
            metadata: self.metadata@,
            phase: phase_model(self.phase),
        }
    }
}

fn clone_layer_refs(refs: &Vec<(OciDigest, ObjectId)>) -> (copy: Vec<(OciDigest, ObjectId)>)
    ensures
        finalize::layer_refs_model(copy@) == finalize::layer_refs_model(refs@),
{
    let mut copy: Vec<(OciDigest, ObjectId)> = Vec::new();
    let mut i: usize = 0;
    while i < refs.len()
        invariant
            i <= refs@.len(),
            finalize::layer_refs_model(copy@) == finalize::layer_refs_model(refs@).take(i as int),
        decreases refs@.len() - i,
    {
        let ghost before = finalize::layer_refs_model(copy@);
        copy.push((refs[i].0.clone(), refs[i].1.clone()));
        i += 1;
        assert(finalize::layer_refs_model(copy@) =~= before.push(
            finalize::layer_refs_model(refs@)[i - 1],
        ));
        assert(finalize::layer_refs_model(copy@) =~= finalize::layer_refs_model(refs@).take(
            i as int,
        ));
    }
    assert(finalize::layer_refs_model(refs@).take(i as int) =~= finalize::layer_refs_model(refs@));
    copy
}

impl ImageImport {
    #[verifier::type_invariant]
    closed spec fn inv(self) -> bool {
        &&& self.phase is Looking || self.phase is Transferring ==> self.at < self.layers@.len()
        &&& self.at <= self.layers@.len()
    }

    /// Starts the import of an image with these layers.
    pub(crate) fn start(
        layers: Vec<ImportLayer>,
        reference: Option<String>,
        zerocopy: bool,
        metadata: MetadataSource,
    ) -> (import: ImageImport)
        ensures
            import@ == Import::start(
                layers_model(layers@),
                text::opt_text(reference),
                zerocopy,
                metadata@,
            ),
    {
        let count: usize = layers.len();
        let stats = ImportStats { layers: count as u64, ..ImportStats::default() };
        assert(finalize::layer_refs_model(Seq::empty()) =~= Seq::empty());
        ImageImport {
            layers,
            at: 0,
            refs: Vec::new(),
            stats,
            reference,
            zerocopy,
            metadata,
            phase: if count > 0 {
                ImportPhase::Looking
            } else {
                ImportPhase::Closing
            },
        }
    }

    /// What has been counted so far.
    pub fn stats(&self) -> (stats: ImportStats)
        ensures
            stats == self@.stats,
    {
        self.stats
    }

    /// What the import waits for.
    pub fn action(&self) -> (action: ImportAction)
        ensures
            action@ == self@.action(),
    {
        proof {
            use_type_invariant(self);
        }
        match &self.phase {
            ImportPhase::Looking => ImportAction::HasLayer {
                diff_id: self.layers[self.at].diff_id.clone(),
            },
            ImportPhase::Transferring => ImportAction::Transfer {
                diff_id: self.layers[self.at].diff_id.clone(),
                params: self.layers[self.at].params.clone(),
                zerocopy: self.zerocopy,
            },
            ImportPhase::Closing => ImportAction::CloseService,
            ImportPhase::ReadingConfig => match &self.metadata {
                MetadataSource::Storage { config_key } => ImportAction::ReadMetadata {
                    key: config_key.clone(),
                },
                MetadataSource::Given { .. } => ImportAction::ReadManifest,
            },
            ImportPhase::ReadingManifest { .. } => ImportAction::ReadManifest,
            ImportPhase::Finalizing(f) => match f.action() {
                FinalizeAction::Done(result) => ImportAction::Done(result),
                FinalizeAction::Fail(e) => ImportAction::Fail(e),
                action => ImportAction::Finalize(action),
            },
        }
    }

    /// Whether the counters can hold what a reply adds to them.
    pub fn can_resume(&self, reply: &ImportReply) -> (fits: bool)
        ensures
            fits == self@.fits(reply@),
    {
        match &self.phase {
            ImportPhase::Looking => match reply {
                ImportReply::Layer(Some(_)) => self.stats.layers_already_present < u64::MAX,
                _ => true,
            },
            ImportPhase::Transferring => match reply {
                ImportReply::Transferred { stats, .. } => self.stats.can_merge(stats),
                _ => true,
            },
            _ => true,
        }
    }

    fn to(self, phase: ImportPhase<Vec<u8>, Finalization>) -> (next: ImageImport)
        requires
            !(phase is Looking || phase is Transferring) || self@.at < self@.layers.len(),
        ensures
            next@ == self@.to(phase_model(phase)),
    {
        proof {
            use_type_invariant(&self);
        }
        ImageImport { phase, ..self }
    }

    fn next_layer(self, id: ObjectId, stats: ImportStats) -> (next: ImageImport)
        requires
            self@.at < self@.layers.len(),
        ensures
            next@ == self@.next_layer(id@, stats),
    {
        let ghost before = self@;
        let ImageImport { layers, at, refs, stats: _, reference, zerocopy, metadata, phase: _ } = self;
        let mut refs = refs;
        refs.push((layers[at].diff_id.clone(), id));
        assert(finalize::layer_refs_model(refs@) =~= before.refs.push((before.diff_id(), id@)));
        assert(layers.len() == layers@.len());
        let phase = if at + 1 < layers.len() {
            ImportPhase::Looking
        } else {
            ImportPhase::Closing
        };
        ImageImport { layers, at: at + 1, refs, stats, reference, zerocopy, metadata, phase }
    }

    fn finalizing(self, manifest: Vec<u8>, config: Vec<u8>) -> (next: ImageImport)
        ensures
            next@ == self@.finalizing(manifest@, config@),
    {
        let f = finalize::finalize_oci_image(
            manifest,
            config,
            clone_layer_refs(&self.refs),
            self.reference.clone(),
            None,
        );
        self.to(ImportPhase::Finalizing(f))
    }

    /// Takes in the outcome of what the import waited for, and gives back what is
    /// to be reported now.
    pub fn resume(self, reply: ImportReply) -> (r: (ImageImport, Vec<ProgressEvent>))
        requires
            self@.fits(reply@),
        ensures
            r.0@ == self@.after(reply@),
            progress::events(r.1@) == self@.reports(reply@),
    {
        proof {
            use_type_invariant(&self);
        }
        let mut reports: Vec<ProgressEvent> = Vec::new();
        let ghost wanted = self@.reports(reply@);
        let next: ImageImport = match reply {
            ImportReply::Layer(found) => match &self.phase {
                ImportPhase::Looking => {
                    let id: String = self.layers[self.at].diff_id.as_str().to_owned();
                    match found {
                        Some(layer) => {
                            reports.push(ProgressEvent::Skipped { id });
                            let stats = ImportStats {
                                layers_already_present: self.stats.layers_already_present + 1,
                                ..self.stats
                            };
                            self.next_layer(layer, stats)
                        },
                        None => {
                            reports.push(
                                ProgressEvent::Started {
                                    id,
                                    total: None,
                                    unit: ProgressUnit::Bytes,
                                },
                            );
                            self.to(ImportPhase::Transferring)
                        },
                    }
                },
                _ => self,
            },
            ImportReply::Transferred { id: layer, stats, transferred } => match &self.phase {
                ImportPhase::Transferring => {
                    let id: String = self.layers[self.at].diff_id.as_str().to_owned();
                    reports.push(ProgressEvent::Done { id, transferred });
                    let mut sum: ImportStats = self.stats;
                    sum.merge(&stats);
                    self.next_layer(layer, sum)
                },
                _ => self,
            },
            ImportReply::Closed => match &self.phase {
                ImportPhase::Closing => {
                    reports.push(ProgressEvent::Message("Layers imported".to_owned()));
                    match &self.metadata {
                        MetadataSource::Storage { .. } => self.to(ImportPhase::ReadingConfig),
                        MetadataSource::Given { manifest, config } => {
                            reports.push(ProgressEvent::Message("Finalizing image".to_owned()));
                            let manifest: Vec<u8> = manifest.clone();
                            let config: Vec<u8> = config.clone();
                            self.finalizing(manifest, config)
                        },
                    }
                },
                _ => self,
            },
            ImportReply::Bytes(bytes) => match &self.phase {
                ImportPhase::ReadingConfig => {
                    reports.push(progress::read_message("config", bytes.len()));
                    self.to(ImportPhase::ReadingManifest { config: bytes })
                },
                ImportPhase::ReadingManifest { config } => {
                    reports.push(progress::read_message("manifest", bytes.len()));
                    let config: Vec<u8> = config.clone();
                    self.finalizing(bytes, config)
                },
                _ => self,
            },
            ImportReply::Finalize(reply) => {
                let ImageImport { layers, at, refs, stats, reference, zerocopy, metadata, phase } =
                    self;
                let phase = match phase {
                    ImportPhase::Finalizing(f) => ImportPhase::Finalizing(f.resume(reply)),
                    other => other,
                };
                ImageImport { layers, at, refs, stats, reference, zerocopy, metadata, phase }
            },
        };
        assert(progress::events(reports@) =~= wanted);
        (next, reports)
    }
}

/// The models of layers, actions, replies and documents have what these have.
pub proof fn import_models_are_faithful(
    layers: Seq<ImportLayer>,
    k: int,
    action: ImportAction,
    reply: ImportReply,
    metadata: MetadataSource,
)
    ensures
        layers_model(layers).len() == layers.len(),
        0 <= k < layers.len() ==> layers_model(layers)[k].0 == layers[k].diff_id@
            && layers_model(layers)[k].1 == layers[k].params@,
        match (action, action@) {
            (
                ImportAction::HasLayer { diff_id },
                ImportAction::HasLayer { diff_id: d },
            ) => d == diff_id@,
            (
                ImportAction::Transfer { diff_id, params, zerocopy },
                ImportAction::Transfer { diff_id: d, params: p, zerocopy: z },
            ) => d == diff_id@ && p == params@ && z == zerocopy,
            (ImportAction::CloseService, ImportAction::CloseService) => true,
            (ImportAction::ReadMetadata { key }, ImportAction::ReadMetadata { key: k }) => k
                == key@,
            (ImportAction::ReadManifest, ImportAction::ReadManifest) => true,
            (ImportAction::Finalize(a), ImportAction::Finalize(b)) => b == a@,
            (ImportAction::Done(a), ImportAction::Done(b)) => b == a@,
            (ImportAction::Fail(a), ImportAction::Fail(b)) => b == a,
            _ => false,
        },
        match (reply, reply@) {
            (ImportReply::Layer(Some(id)), ImportReply::Layer(model)) => model == Some(id@),
            (ImportReply::Layer(None), ImportReply::Layer(model)) => model is None,
            (
                ImportReply::Transferred { id, stats, transferred },
                ImportReply::Transferred { id: i, stats: s, transferred: t },
            ) => i == id@ && s == stats && t == transferred,
            (ImportReply::Closed, ImportReply::Closed) => true,
            (ImportReply::Bytes(a), ImportReply::Bytes(b)) => b == a@,
            (ImportReply::Finalize(a), ImportReply::Finalize(b)) => b == a@,
            _ => false,
        },
        match (metadata, metadata@) {
            (
                MetadataSource::Storage { config_key },
                MetadataSource::Storage { config_key: k },
            ) => k == config_key@,
            (
                MetadataSource::Given { manifest, config },
                MetadataSource::Given { manifest: m, config: c },
            ) => m == manifest@ && c == config@,
            _ => false,
        },
{
}

} // verus!

//! What a whole import does, given the repository, the layer service and the
//! image.
use vstd::prelude::*;

use crate::cstor;
use crate::finalize;
use crate::finalize::{
    Finalize, FinalizeAction, FinalizePhase, FinalizeReply, FinalizeRun, Repository, RepositoryRules, StreamKey,
};
use crate::import::{Import, ImportAction, ImportPhase, ImportReply, Layers, MetadataSource};
use crate::progress;
use crate::progress::{ProgressEvent, ProgressUnit};
use crate::skopeo_varlink;
use crate::stats::ImportStats;
use crate::text;
use crate::varlink_types::{GetLayerParams, StorageLocator};

verus! {

/// What the transfer of a layer comes to.
pub struct Transfer {
    /// The verity of the splitstream that the layer is drained into.
    pub id: Seq<u8>,
    /// What was stored for it.
    pub stats: ImportStats,
    /// How many bytes of it were new.
    pub transferred: u64,
}

/// Everything that an import meets.
pub struct ImportSite {
    /// How the repository behaves.
    pub rules: RepositoryRules,
    /// What the layer service transfers, by diff-id, by how the layer was asked for,
    /// and by whether zero-copy storage is insisted on.
    pub transfer: spec_fn(Seq<char>, GetLayerParams<Seq<char>>, bool) -> Transfer,
    /// The metadata of the image, by key.
    pub metadata: spec_fn(Seq<char>) -> Seq<u8>,
    /// The manifest of the image.
    pub manifest: Seq<u8>,
}

/// An import under way.
pub struct ImportRun {
    /// The import.
    pub import: Import,
    /// The repository.
    pub repo: Repository,
    /// How many layers were transferred.
    pub transfers: nat,
    /// What was reported.
    pub reports: Seq<ProgressEvent<Seq<char>>>,
}

impl ImportRun {
    /// A run that is about to begin.
    pub open spec fn begin(import: Import, repo: Repository) -> ImportRun {
        ImportRun { import, repo, transfers: 0, reports: Seq::empty() }
    }

    /// The run after a reply.
    pub open spec fn told(
        self,
        reply: ImportReply<Seq<u8>, Seq<u8>, FinalizeReply<Seq<u8>>>,
    ) -> ImportRun {
        ImportRun {
            import: self.import.after(reply),
            reports: self.reports + self.import.reports(reply),
            ..self
        }
    }
}

/// What a report says of a layer.
pub enum Note {
    /// It was there already.
    Skipped(Seq<char>),
    /// Its transfer began.
    Started(Seq<char>),
    /// It was transferred.
    Done(Seq<char>),
}

/// What some reports say of layers, in order.
pub open spec fn notes(reports: Seq<ProgressEvent<Seq<char>>>) -> Seq<Note>
    decreases reports.len(),
{
    if reports.len() == 0 {
        Seq::empty()
    } else {
        let before = notes(reports.drop_last());
        match reports.last() {
            ProgressEvent::Skipped { id } => before.push(Note::Skipped(id)),
            ProgressEvent::Started { id, total, unit } => before.push(Note::Started(id)),
            ProgressEvent::Done { id, transferred } => before.push(Note::Done(id)),
            ProgressEvent::Message(_) => before,
        }
    }
}

proof fn lemma_note(reports: Seq<ProgressEvent<Seq<char>>>, event: ProgressEvent<Seq<char>>)
    ensures
        notes(reports + seq![event]) == match event {
            ProgressEvent::Skipped { id } => notes(reports).push(Note::Skipped(id)),
            ProgressEvent::Started { id, total, unit } => notes(reports).push(Note::Started(id)),
            ProgressEvent::Done { id, transferred } => notes(reports).push(Note::Done(id)),
            ProgressEvent::Message(_) => notes(reports),
        },
{
    assert((reports + seq![event]).drop_last() =~= reports);
    assert((reports + seq![event]).last() == event);
}

/// The splitstreams of a repository.
pub type Streams = Map<StreamKey<Seq<char>>, Seq<u8>>;

/// Whether the layer at `k` is there when its turn comes: it was at first, or an
/// earlier layer is the same.
pub open spec fn there(layers: Layers, streams: Streams, k: int) -> bool {
    ||| streams.contains_key(StreamKey::Layer(layers[k].0))
    ||| exists|j: int| 0 <= j < k && (#[trigger] layers[j]).0 == layers[k].0
}

/// How many of the first `k` layers are there when their turn comes.
pub open spec fn present(layers: Layers, streams: Streams, k: int) -> nat
    decreases k,
{
    if k <= 0 {
        0
    } else if there(layers, streams, k - 1) {
        present(layers, streams, k - 1) + 1
    } else {
        present(layers, streams, k - 1)
    }
}

/// How many of the first `k` layers were in the repository at first.
pub open spec fn there_at_first(layers: Layers, streams: Streams, k: int) -> nat
    decreases k,
{
    if k <= 0 {
        0
    } else if streams.contains_key(StreamKey::Layer(layers[k - 1].0)) {
        there_at_first(layers, streams, k - 1) + 1
    } else {
        there_at_first(layers, streams, k - 1)
    }
}

/// What is reported of the first `k` layers.
pub open spec fn noted(layers: Layers, streams: Streams, k: int) -> Seq<Note>
    decreases k,
{
    if k <= 0 {
        Seq::empty()
    } else {
        let before = noted(layers, streams, k - 1);
        let diff_id = layers[k - 1].0;
        if there(layers, streams, k - 1) {
            before.push(Note::Skipped(diff_id))
        } else {
            before.push(Note::Started(diff_id)).push(Note::Done(diff_id))
        }
    }
}

impl ImportSite {
    /// One round: the import asks, and is answered.
    pub open spec fn step(self, run: ImportRun) -> ImportRun {
        match run.import.action() {
            ImportAction::HasLayer { diff_id } => {
                let key = StreamKey::Layer(diff_id);
                run.told(
                    ImportReply::Layer(
                        if run.repo.streams.contains_key(key) {
                            Some(run.repo.streams[key])
                        } else {
                            None
                        },
                    ),
                )
            },
            ImportAction::Transfer { diff_id, params, zerocopy } => {
                let Transfer { id, stats, transferred } = (self.transfer)(
                    diff_id,
                    params,
                    zerocopy,
                );
                let streams = run.repo.streams.insert(StreamKey::Layer(diff_id), id);
                ImportRun {
                    repo: Repository { streams, ..run.repo },
                    transfers: run.transfers + 1,
                    ..run.told(ImportReply::Transferred { id, stats, transferred })
                }
            },
            ImportAction::CloseService => run.told(ImportReply::Closed),
            ImportAction::ReadMetadata { key } => run.told(ImportReply::Bytes((self.metadata)(key))),
            ImportAction::ReadManifest => run.told(ImportReply::Bytes(self.manifest)),
            ImportAction::Finalize(_) => match run.import.phase {
                ImportPhase::Finalizing(f) => {
                    let (reply, repo) = self.rules.answer(f, run.repo);
                    ImportRun { repo, ..run.told(ImportReply::Finalize(reply)) }
                },
                _ => run,
            },
            ImportAction::Done(_) => run,
            ImportAction::Fail(_) => run,
        }
    }

    /// The run after `n` rounds.
    pub open spec fn steps(self, run: ImportRun, n: nat) -> ImportRun
        decreases n,
    {
        if n == 0 {
            run
        } else {
            self.steps(self.step(run), (n - 1) as nat)
        }
    }

    /// Draining a layer counts no layers.
    pub open spec fn counts_no_layers(self) -> bool {
        forall|diff_id: Seq<char>, params: GetLayerParams<Seq<char>>, zerocopy: bool|
            {
                let stats = (#[trigger] (self.transfer)(diff_id, params, zerocopy)).stats;
                stats.layers == 0 && stats.layers_already_present == 0
            }
    }

    /// The splitstreams once the first `k` layers have been dealt with: a layer
    /// that is not there when its turn comes is transferred.
    pub open spec fn imported(
        self,
        layers: Layers,
        zerocopy: bool,
        streams: Streams,
        k: int,
    ) -> Streams
        decreases k,
    {
        if k <= 0 {
            streams
        } else {
            let before = self.imported(layers, zerocopy, streams, k - 1);
            let (diff_id, params) = layers[k - 1];
            if before.contains_key(StreamKey::Layer(diff_id)) {
                before
            } else {
                before.insert(StreamKey::Layer(diff_id), (self.transfer)(diff_id, params, zerocopy).id)
            }
        }
    }

    /// The first `k` layers, with the verities that the repository has for them.
    pub open spec fn refs(self, layers: Layers, zerocopy: bool, streams: Streams, k: int) -> Seq<
        (Seq<char>, Seq<u8>),
    > {
        let after = self.imported(layers, zerocopy, streams, k);
        Seq::new(k as nat, |j: int| (layers[j].0, after[StreamKey::Layer(layers[j].0)]))
    }

    /// What holds once the first `k` layers have been dealt with, in order.
    pub open spec fn dealt_with(
        self,
        run: ImportRun,
        start: Import,
        repo: Repository,
        k: int,
    ) -> bool {
        let i = run.import;
        let layers = start.layers;
        &&& i.layers == layers
        &&& i.reference == start.reference
        &&& i.zerocopy == start.zerocopy
        &&& i.metadata == start.metadata
        &&& i.at == k
        &&& i.refs == self.refs(layers, start.zerocopy, repo.streams, k)
        &&& run.repo == (Repository { streams: self.imported(layers, start.zerocopy, repo.streams, k), ..repo })
        &&& i.stats.layers == layers.len()
        &&& i.stats.layers_already_present == present(layers, repo.streams, k)
        &&& run.transfers == k - present(layers, repo.streams, k)
        &&& notes(run.reports) == noted(layers, repo.streams, k)
        &&& if k < layers.len() {
            i.phase is Looking
        } else {
            i.phase is Closing
        }
    }

    /// Manifest and config of the image.
    pub open spec fn documents(self, metadata: MetadataSource<Seq<char>, Seq<u8>>) -> (
        Seq<u8>,
        Seq<u8>,
    ) {
        match metadata {
            MetadataSource::Storage { config_key } => (self.manifest, (self.metadata)(config_key)),
            MetadataSource::Given { manifest, config } => (manifest, config),
        }
    }

    /// The finalization that an import ends with.
    pub open spec fn finalization(self, start: Import, repo: Repository) -> FinalizeRun {
        let (manifest, config) = self.documents(start.metadata);
        let len = start.layers.len() as int;
        FinalizeRun {
            f: Finalize {
                manifest_json: manifest,
                config_json: config,
                layer_refs: self.refs(start.layers, start.zerocopy, repo.streams, len),
                name: start.reference,
                boot: None,
                phase: FinalizePhase::FindingConfig,
            },
            repo: Repository { streams: self.imported(start.layers, start.zerocopy, repo.streams, len), ..repo },
        }
    }

    /// What holds once an image is imported: all its layers have been dealt with,
    /// and it was finalized with the exact bytes of its manifest and config, all its
    /// layers in order, and the name it was to get.
    pub open spec fn finished(self, end: ImportRun, start: Import, repo: Repository) -> bool {
        let layers = start.layers;
        let len = layers.len() as int;
        let begun = self.finalization(start, repo);
        let done = self.rules.finalized(begun);
        &&& end.repo == done.repo
        &&& finalize::in_place(self.rules, begun.f, done)
        &&& end.import.action() matches ImportAction::Done(result) && finalize::outcome(done)
            == Some(result)
        &&& end.import.stats.layers == len
        &&& end.import.stats.layers_already_present == present(layers, repo.streams, len)
        &&& end.transfers == len - present(layers, repo.streams, len)
        &&& notes(end.reports) == noted(layers, repo.streams, len)
    }

    proof fn lemma_steps_add(self, run: ImportRun, m: nat, n: nat)
        ensures
            self.steps(run, m + n) == self.steps(self.steps(run, m), n),
        decreases m,
    {
        if m > 0 {
            self.lemma_steps_add(self.step(run), (m - 1) as nat, n);
            assert((m + n - 1) as nat == ((m - 1) as nat) + n);
        }
    }

    proof fn lemma_imported(self, layers: Layers, zerocopy: bool, streams: Streams, k: int)
        requires
            0 <= k <= layers.len(),
        ensures
            forall|key: StreamKey<Seq<char>>| #[trigger]
                streams.contains_key(key) ==> self.imported(layers, zerocopy, streams, k).contains_key(key)
                    && self.imported(layers, zerocopy, streams, k)[key] == streams[key],
            forall|j: int|
                0 <= j < k ==> self.imported(layers, zerocopy, streams, k).contains_key(
                    StreamKey::Layer((#[trigger] layers[j]).0),
                ),
            k < layers.len() ==> (there(layers, streams, k) <==> self.imported(
                layers,
                zerocopy,
                streams,
                k,
            ).contains_key(StreamKey::Layer(layers[k].0))),
        decreases k,
    {
        self.lemma_imported_keys(layers, zerocopy, streams, k);
        if k > 0 {
            self.lemma_imported(layers, zerocopy, streams, k - 1);
        }
    }

    proof fn lemma_imported_keys(self, layers: Layers, zerocopy: bool, streams: Streams, k: int)
        requires
            0 <= k <= layers.len(),
        ensures
            forall|key: StreamKey<Seq<char>>| #[trigger]
                self.imported(layers, zerocopy, streams, k).contains_key(key) ==> streams.contains_key(key)
                    || exists|j: int|
                    0 <= j < k && key == StreamKey::Layer((#[trigger] layers[j]).0),
        decreases k,
    {
        if k > 0 {
            self.lemma_imported_keys(layers, zerocopy, streams, k - 1);
            let before = self.imported(layers, zerocopy, streams, k - 1);
            assert forall|key: StreamKey<Seq<char>>| #[trigger]
                self.imported(layers, zerocopy, streams, k).contains_key(key) && !streams.contains_key(
                    key,
                ) implies exists|j: int|
                0 <= j < k && key == StreamKey::Layer((#[trigger] layers[j]).0) by {
                if before.contains_key(key) {
                    let j = choose|j: int|
                        0 <= j < k - 1 && key == StreamKey::Layer((#[trigger] layers[j]).0);
                    assert(layers[j].0 == layers[j].0);
                } else {
                    assert(key == StreamKey::Layer(layers[k - 1].0));
                }
            }
        }
    }

    proof fn lemma_layer(self, run: ImportRun, start: Import, repo: Repository, k: int) -> (n: nat)
        requires
            self.counts_no_layers(),
            0 <= k < start.layers.len() <= u64::MAX,
            self.dealt_with(run, start, repo, k),
        ensures
            self.dealt_with(self.steps(run, n), start, repo, k + 1),
    {
        self.lemma_few_steps(run);
        let layers = start.layers;
        let zerocopy = start.zerocopy;
        let streams = repo.streams;
        self.lemma_imported(layers, zerocopy, streams, k);
        self.lemma_imported(layers, zerocopy, streams, k + 1);
        lemma_present_bound(layers, streams, k);
        let diff_id = layers[k].0;
        let key = StreamKey::Layer(diff_id);
        if there(layers, streams, k) {
            let end = self.step(run);
            lemma_note(run.reports, ProgressEvent::Skipped { id: diff_id });
            assert(end.import.refs =~= self.refs(layers, zerocopy, streams, k + 1));
            assert(end.repo =~= run.repo);
            1
        } else {
            let mid = self.step(run);
            let end = self.step(mid);
            lemma_note(
                run.reports,
                ProgressEvent::Started { id: diff_id, total: None, unit: ProgressUnit::Bytes },
            );
            let transferred = (self.transfer)(diff_id, layers[k].1, zerocopy).transferred;
            lemma_note(mid.reports, ProgressEvent::Done { id: diff_id, transferred });
            assert(end.import.refs =~= self.refs(layers, zerocopy, streams, k + 1));
            2
        }
    }

    proof fn lemma_finalizing(self, run: ImportRun, f: Finalize, n: nat)
        requires
            run.import.phase == ImportPhase::<Seq<u8>, Finalize>::Finalizing(f),
        ensures
            ({
                let after = self.rules.steps(FinalizeRun { f, repo: run.repo }, n);
                self.steps(run, n) == (ImportRun {
                    import: run.import.to(ImportPhase::Finalizing(after.f)),
                    repo: after.repo,
                    ..run
                })
            }),
        decreases n,
    {
        if n > 0 {
            let next = self.step(run);
            let after = self.rules.step(FinalizeRun { f, repo: run.repo });
            assert(next.reports =~= run.reports);
            self.lemma_finalizing(next, after.f, (n - 1) as nat);
        }
    }

    /// From the last layer to the finalization.
    proof fn lemma_closing(self, run: ImportRun, start: Import, repo: Repository) -> (n: nat)
        requires
            self.dealt_with(run, start, repo, start.layers.len() as int),
        ensures
            ({
                let end = self.steps(run, n);
                &&& end == (ImportRun {
                    import: run.import.to(
                        ImportPhase::Finalizing(self.finalization(start, repo).f),
                    ),
                    reports: end.reports,
                    ..run
                })
                &&& notes(end.reports) == notes(run.reports)
            }),
    {
        self.lemma_few_steps(run);
        let one = self.step(run);
        let imported = ProgressEvent::Message("Layers imported"@);
        lemma_note(run.reports, imported);
        match start.metadata {
            MetadataSource::Storage { config_key } => {
                let two = self.step(one);
                let config = (self.metadata)(config_key);
                let text = progress::read_text("config"@, config.len());
                lemma_note(one.reports, ProgressEvent::Message(text));
                let text = progress::read_text("manifest"@, self.manifest.len());
                lemma_note(two.reports, ProgressEvent::Message(text));
                3
            },
            MetadataSource::Given { manifest, config } => {
                let finalizing = ProgressEvent::Message("Finalizing image"@);
                lemma_note(run.reports + seq![imported], finalizing);
                assert(one.reports =~= run.reports + seq![imported] + seq![finalizing]);
                1
            },
        }
    }

    proof fn lemma_few_steps(self, run: ImportRun)
        ensures
            self.steps(run, 1) == self.step(run),
            self.steps(run, 2) == self.step(self.step(run)),
            self.steps(run, 3) == self.step(self.step(self.step(run))),
    {
        reveal_with_fuel(ImportSite::steps, 4);
    }
}

proof fn lemma_present_bound(layers: Layers, streams: Streams, k: int)
    requires
        0 <= k,
    ensures
        present(layers, streams, k) <= k,
    decreases k,
{
    if k > 0 {
        lemma_present_bound(layers, streams, k - 1);
    }
}

/// An import insists on zero-copy storage for all its layers or for none: every layer
/// is drained with the setting that the import was started with, whatever the replies
/// are.
pub proof fn import_keeps_zerocopy(
    import: Import,
    reply: ImportReply<Seq<u8>, Seq<u8>, FinalizeReply<Seq<u8>>>,
)
    ensures
        import.after(reply).zerocopy == import.zerocopy,
        import.action() matches ImportAction::Transfer { diff_id, params, zerocopy } ==> zerocopy
            == import.zerocopy,
{
}

/// An import deals with every layer once and in order: a layer that is in the
/// repository is left alone and counted, any other is transferred.
pub proof fn import_deals_with_every_layer(
    site: ImportSite,
    layers: Layers,
    reference: Option<Seq<char>>,
    zerocopy: bool,
    metadata: MetadataSource<Seq<char>, Seq<u8>>,
    repo: Repository,
    k: int,
) -> (n: nat)
    requires
        site.counts_no_layers(),
        0 <= k <= layers.len() <= u64::MAX,
    ensures
        ({
            let start = Import::start(layers, reference, zerocopy, metadata);
            site.dealt_with(site.steps(ImportRun::begin(start, repo), n), start, repo, k)
        }),
    decreases k,
{
    let start = Import::start(layers, reference, zerocopy, metadata);
    let run = ImportRun::begin(start, repo);
    if k == 0 {
        assert(start.refs =~= site.refs(layers, start.zerocopy, repo.streams, 0));
        0
    } else {
        let m = import_deals_with_every_layer(site, layers, reference, zerocopy, metadata, repo, k - 1);
        let n = site.lemma_layer(site.steps(run, m), start, repo, k - 1);
        site.lemma_steps_add(run, m, n);
        m + n
    }
}

/// Dealing with layers leaves what was in the repository as it was, and in the end
/// all layers are there, under the verities that the image is finalized with.
pub proof fn imported_layers_are_there(
    site: ImportSite,
    layers: Layers,
    zerocopy: bool,
    streams: Streams,
    k: int,
)
    requires
        0 <= k <= layers.len(),
    ensures
        ({
            let after = site.imported(layers, zerocopy, streams, k);
            let refs = site.refs(layers, zerocopy, streams, k);
            &&& forall|key: StreamKey<Seq<char>>| #[trigger]
                streams.contains_key(key) ==> after.contains_key(key) && after[key] == streams[key]
            &&& refs.len() == k
            &&& forall|j: int|
                0 <= j < k ==> (#[trigger] refs[j]).0 == layers[j].0 && after.contains_pair(
                    StreamKey::Layer(refs[j].0),
                    refs[j].1,
                )
        }),
{
    site.lemma_imported(layers, zerocopy, streams, k);
    let refs = site.refs(layers, zerocopy, streams, k);
    assert forall|j: int| 0 <= j < k implies (#[trigger] refs[j]).0 == layers[j].0
        && site.imported(layers, zerocopy, streams, k).contains_pair(
        StreamKey::Layer(refs[j].0),
        refs[j].1,
    ) by {
        assert(refs[j].0 == layers[j].0);
    }
}

/// If no two layers are the same, the layers that an import counts as already
/// present are those that were in the repository at first.
pub proof fn import_counts_what_was_there(layers: Layers, streams: Streams, k: int)
    requires
        0 <= k <= layers.len(),
        forall|i: int, j: int|
            0 <= i < j < layers.len() ==> (#[trigger] layers[i]).0 != (#[trigger] layers[j]).0,
    ensures
        present(layers, streams, k) == there_at_first(layers, streams, k),
    decreases k,
{
    if k > 0 {
        import_counts_what_was_there(layers, streams, k - 1);
    }
}

/// Importing an image succeeds, whatever the repository holds at first, and puts
/// the image in place.
pub proof fn import_puts_the_image_in_place(
    site: ImportSite,
    layers: Layers,
    reference: Option<Seq<char>>,
    zerocopy: bool,
    metadata: MetadataSource<Seq<char>, Seq<u8>>,
    repo: Repository,
) -> (n: nat)
    requires
        site.counts_no_layers(),
        layers.len() <= u64::MAX,
    ensures
        ({
            let start = Import::start(layers, reference, zerocopy, metadata);
            site.finished(site.steps(ImportRun::begin(start, repo), n), start, repo)
        }),
{
    let start = Import::start(layers, reference, zerocopy, metadata);
    let run = ImportRun::begin(start, repo);
    let len = layers.len() as int;
    let a = import_deals_with_every_layer(site, layers, reference, zerocopy, metadata, repo, len);
    let one = site.steps(run, a);
    let b = site.lemma_closing(one, start, repo);
    let two = site.steps(one, b);
    let begun = site.finalization(start, repo);
    site.lemma_finalizing(two, begun.f, 10);
    finalize::finalize_puts_the_image_in_place(site.rules, begun.f, begun.repo);
    site.lemma_steps_add(run, a, b);
    site.lemma_steps_add(run, a + b, 10);
    a + b + 10
}

/// Whether two imports are of the same image: it has the same layers, manifest and
/// config, and a layer becomes the same splitstream, however it is asked for and
/// whoever transfers it.
pub open spec fn same_image(
    site: ImportSite,
    start: Import,
    other: ImportSite,
    start2: Import,
) -> bool {
    &&& site.rules == other.rules
    &&& site.documents(start.metadata) == other.documents(start2.metadata)
    &&& start.layers.len() == start2.layers.len()
    &&& forall|k: int|
        0 <= k < start.layers.len() ==> {
            let (diff_id, params) = #[trigger] start.layers[k];
            let (diff_id2, params2) = start2.layers[k];
            &&& diff_id == diff_id2
            &&& (site.transfer)(diff_id, params, start.zerocopy).id == (other.transfer)(
                diff_id2,
                params2,
                start2.zerocopy,
            ).id
        }
}

proof fn lemma_same_layers(
    site: ImportSite,
    start: Import,
    other: ImportSite,
    start2: Import,
    streams: Streams,
    k: int,
)
    requires
        same_image(site, start, other, start2),
        0 <= k <= start.layers.len(),
    ensures
        site.imported(start.layers, start.zerocopy, streams, k) == other.imported(
            start2.layers,
            start2.zerocopy,
            streams,
            k,
        ),
        present(start.layers, streams, k) == present(start2.layers, streams, k),
        noted(start.layers, streams, k) == noted(start2.layers, streams, k),
    decreases k,
{
    if k > 0 {
        lemma_same_layers(site, start, other, start2, streams, k - 1);
        let (layers, layers2) = (start.layers, start2.layers);
        assert(layers[k - 1].0 == layers2[k - 1].0);
        site.lemma_imported(layers, start.zerocopy, streams, k - 1);
        other.lemma_imported(layers2, start2.zerocopy, streams, k - 1);
    }
}

/// It does not matter how an image is imported. An import through the helper
/// process gives what a direct one gives, and so does one through the proxy of
/// skopeo, which gets manifest and config along with the image: the same digests
/// and verities, the same repository, the same numbers of layers and of layers
/// already present, and the same reports of layers, in the same order.
pub proof fn imports_of_the_same_image_agree(
    site: ImportSite,
    layers: Layers,
    zerocopy: bool,
    metadata: MetadataSource<Seq<char>, Seq<u8>>,
    other: ImportSite,
    layers2: Layers,
    zerocopy2: bool,
    metadata2: MetadataSource<Seq<char>, Seq<u8>>,
    reference: Option<Seq<char>>,
    repo: Repository,
) -> (rounds: (nat, nat))
    requires
        site.counts_no_layers(),
        other.counts_no_layers(),
        layers.len() <= u64::MAX,
        same_image(
            site,
            Import::start(layers, reference, zerocopy, metadata),
            other,
            Import::start(layers2, reference, zerocopy2, metadata2),
        ),
    ensures
        ({
            let start = Import::start(layers, reference, zerocopy, metadata);
            let start2 = Import::start(layers2, reference, zerocopy2, metadata2);
            let end = site.steps(ImportRun::begin(start, repo), rounds.0);
            let end2 = other.steps(ImportRun::begin(start2, repo), rounds.1);
            &&& end.import.action() is Done
            &&& end.import.action() == end2.import.action()
            &&& end.repo == end2.repo
            &&& end.import.stats.layers == end2.import.stats.layers
            &&& end.import.stats.layers_already_present
                == end2.import.stats.layers_already_present
            &&& notes(end.reports) == notes(end2.reports)
        }),
{
    let start = Import::start(layers, reference, zerocopy, metadata);
    let start2 = Import::start(layers2, reference, zerocopy2, metadata2);
    let n = import_puts_the_image_in_place(site, layers, reference, zerocopy, metadata, repo);
    let m = import_puts_the_image_in_place(other, layers2, reference, zerocopy2, metadata2, repo);
    let len = layers.len() as int;
    lemma_same_layers(site, start, other, start2, repo.streams, len);
    assert(site.refs(layers, start.zerocopy, repo.streams, len) =~= other.refs(layers2, start2.zerocopy, repo.streams, len)) by {
        assert forall|j: int| 0 <= j < len implies (#[trigger] layers[j]).0 == layers2[j].0 by {
            assert(start.layers[j] == layers[j]);
        }
    }
    assert(site.finalization(start, repo) == other.finalization(start2, repo));
    (n, m)
}

/// Whether an import goes on from where another one stood, once its current layer is in
/// the repository as `id`: the layer is noted under its diff-id, after all before it, and
/// the next layer is looked up, if there is one.
pub open spec fn goes_on_with(from: Import, to: Import, id: Seq<u8>) -> bool {
    &&& to.layers == from.layers
    &&& to.reference == from.reference
    &&& to.zerocopy == from.zerocopy
    &&& to.metadata == from.metadata
    &&& to.at == from.at + 1
    &&& to.refs.len() == from.refs.len() + 1
    &&& to.refs.last() == (from.layers[from.at].0, id)
    &&& forall|j: int| 0 <= j < from.refs.len() ==> to.refs[j] == #[trigger] from.refs[j]
    &&& if from.at + 1 < from.layers.len() {
        to.phase is Looking && (to.action() matches ImportAction::HasLayer { diff_id } && diff_id
            == from.layers[from.at + 1].0)
    } else {
        to.phase is Closing && to.action() is CloseService
    }
}

/// An import starts with its first layer, if it has one, having counted its layers and
/// noted nothing.
pub proof fn import_begins_with_the_first_layer(
    layers: Layers,
    reference: Option<Seq<char>>,
    zerocopy: bool,
    metadata: MetadataSource<Seq<char>, Seq<u8>>,
)
    requires
        layers.len() <= u64::MAX,
    ensures
        ({
            let start = Import::start(layers, reference, zerocopy, metadata);
            &&& start.layers == layers
            &&& start.reference == reference
            &&& start.zerocopy == zerocopy
            &&& start.metadata == metadata
            &&& start.at == 0
            &&& start.refs.len() == 0
            &&& start.stats.layers == layers.len()
            &&& start.stats.layers_already_present == 0
            &&& start.stats.objects() == 0
            &&& start.stats.bytes_inlined == 0 && start.stats.bytes_copied == 0
            &&& start.stats.bytes_reflinked == 0 && start.stats.bytes_hardlinked == 0
            &&& if layers.len() > 0 {
                start.phase is Looking && (start.action() matches ImportAction::HasLayer { diff_id }
                    && diff_id == layers[0].0)
            } else {
                start.phase is Closing && start.action() is CloseService
            }
        }),
{
}

/// A layer that was looked up and is there is left alone, counted and reported as such;
/// one that is not there is reported and asked for, by itself and in its own way.
pub proof fn layers_are_looked_up_first(i: Import, id: Seq<u8>)
    requires
        i.phase is Looking,
        i.stats.layers_already_present < u64::MAX,
    ensures
        ({
            let there = i.after(ImportReply::Layer(Some(id)));
            let missing = i.after(ImportReply::Layer(None));
            let diff_id = i.layers[i.at].0;
            &&& goes_on_with(i, there, id)
            &&& there.stats == (ImportStats {
                layers_already_present: (i.stats.layers_already_present + 1) as u64,
                ..i.stats
            })
            &&& i.reports(ImportReply::Layer(Some(id))) == seq![
                ProgressEvent::<Seq<char>>::Skipped { id: diff_id },
            ]
            &&& missing.action() matches ImportAction::Transfer { diff_id: d, params, zerocopy }
            &&& d == diff_id
            &&& params == i.layers[i.at].1
            &&& zerocopy == i.zerocopy
            &&& missing == (Import { phase: ImportPhase::Transferring, ..i })
            &&& i.reports(ImportReply::Layer(None)) == seq![
                ProgressEvent::<Seq<char>>::Started {
                    id: diff_id,
                    total: None,
                    unit: ProgressUnit::Bytes,
                },
            ]
        }),
{
}

/// A layer that was transferred is noted as what it was stored as; what was stored for it
/// is added to the counters, and reported.
pub proof fn transferred_layers_are_added_up(
    i: Import,
    id: Seq<u8>,
    stats: ImportStats,
    transferred: u64,
)
    requires
        i.phase is Transferring,
        i.stats.merge_fits(stats),
    ensures
        ({
            let reply = ImportReply::Transferred { id, stats, transferred };
            let next = i.after(reply);
            &&& goes_on_with(i, next, id)
            &&& next.stats.layers == i.stats.layers + stats.layers
            &&& next.stats.layers_already_present == i.stats.layers_already_present
                + stats.layers_already_present
            &&& next.stats.objects() == i.stats.objects() + stats.objects()
            &&& next.stats.objects_reflinked == i.stats.objects_reflinked + stats.objects_reflinked
            &&& next.stats.objects_hardlinked == i.stats.objects_hardlinked
                + stats.objects_hardlinked
            &&& next.stats.objects_copied == i.stats.objects_copied + stats.objects_copied
            &&& next.stats.bytes_reflinked == i.stats.bytes_reflinked + stats.bytes_reflinked
            &&& next.stats.bytes_hardlinked == i.stats.bytes_hardlinked + stats.bytes_hardlinked
            &&& next.stats.bytes_copied == i.stats.bytes_copied + stats.bytes_copied
            &&& next.stats.bytes_inlined == i.stats.bytes_inlined + stats.bytes_inlined
            &&& i.reports(reply) == seq![
                ProgressEvent::<Seq<char>>::Done { id: i.layers[i.at].0, transferred },
            ]
        }),
{
}

/// Whether an import has begun to finalize an image: with exactly these documents, the
/// layers that were noted, in order, the name that it was given, and no boot variant.
pub open spec fn finalizes(from: Import, to: Import, manifest: Seq<u8>, config: Seq<u8>) -> bool {
    &&& to.phase matches ImportPhase::Finalizing(f)
    &&& f.manifest_json == manifest
    &&& f.config_json == config
    &&& f.layer_refs == from.refs
    &&& f.name == from.reference
    &&& f.boot is None
    &&& f.phase is FindingConfig
    &&& to.stats == from.stats
}

/// Once all layers are there, the service is closed, and then the image is finalized: with
/// the documents that came with it, or else with its config, read under its key, and its
/// manifest, read after it.
pub proof fn documents_are_read_after_the_layers(i: Import, config: Seq<u8>, manifest: Seq<u8>)
    requires
        i.phase is Closing,
    ensures
        ({
            let closed = i.after(ImportReply::Closed);
            let one = closed.after(ImportReply::Bytes(config));
            let two = one.after(ImportReply::Bytes(manifest));
            &&& i.action() is CloseService
            &&& match i.metadata {
                MetadataSource::Storage { config_key } => {
                    &&& closed.action() matches ImportAction::ReadMetadata { key }
                    &&& key == config_key
                    &&& one.action() is ReadManifest
                    &&& finalizes(i, two, manifest, config)
                    &&& i.reports(ImportReply::Closed) == seq![
                        ProgressEvent::Message("Layers imported"@),
                    ]
                },
                MetadataSource::Given { manifest: m, config: c } => {
                    &&& finalizes(i, closed, m, c)
                    &&& i.reports(ImportReply::Closed) == seq![
                        ProgressEvent::Message("Layers imported"@),
                        ProgressEvent::Message("Finalizing image"@),
                    ]
                },
            }
        }),
{
}

/// While an image is finalized, the import passes on what the finalization asks for and
/// what it is told, and ends as it ends.
pub proof fn finalization_is_passed_through(i: Import, f: Finalize, reply: FinalizeReply<Seq<u8>>)
    requires
        i.phase == ImportPhase::<Seq<u8>, Finalize>::Finalizing(f),
    ensures
        match f.action() {
            FinalizeAction::Done(result) => i.action() matches ImportAction::Done(r) && r == result,
            FinalizeAction::Fail(e) => i.action() matches ImportAction::Fail(x) && x == e,
            action => i.action() matches ImportAction::Finalize(a) && a == action,
        },
        i.after(ImportReply::Finalize(reply)) == (Import {
            phase: ImportPhase::Finalizing(f.after(reply)),
            ..i
        }),
        i.reports(ImportReply::Finalize(reply)).len() == 0,
{
}

/// Finalizing an image does not touch layers.
proof fn lemma_layers_stay(site: ImportSite, begun: FinalizeRun, key: StreamKey<Seq<char>>)
    requires
        begun.f.phase is FindingConfig,
        key is Layer,
    ensures
        ({
            let end = site.rules.finalized(begun).repo.streams;
            &&& end.contains_key(key) == begun.repo.streams.contains_key(key)
            &&& begun.repo.streams.contains_key(key) ==> end[key] == begun.repo.streams[key]
        }),
{
    let manifest = begun.f.manifest_digest().push('x');
    assert(manifest.len() != begun.f.manifest_digest().len());
    let name = match begun.f.name {
        Some(n) => n.push('x'),
        None => Seq::empty(),
    };
    if let Some(n) = begun.f.name {
        assert(name.len() != n.len());
    }
    finalize::finalize_leaves_other_images_alone(
        site.rules,
        begun.f,
        begun.repo,
        key,
        manifest,
        (),
        name,
    );
}

proof fn lemma_stored(site: ImportSite, layers: Layers, zerocopy: bool, streams: Streams, k: int, n: int)
    requires
        0 <= k < n <= layers.len(),
        !streams.contains_key(StreamKey::Layer(layers[k].0)),
        forall|i: int, j: int|
            0 <= i < j < layers.len() ==> (#[trigger] layers[i]).0 != (#[trigger] layers[j]).0,
    ensures
        ({
            let after = site.imported(layers, zerocopy, streams, n);
            let key = StreamKey::Layer(layers[k].0);
            &&& after.contains_key(key)
            &&& after[key] == (site.transfer)(layers[k].0, layers[k].1, zerocopy).id
        }),
    decreases n,
{
    let key = StreamKey::Layer(layers[k].0);
    if n == k + 1 {
        site.lemma_imported(layers, zerocopy, streams, k);
        assert(!there(layers, streams, k));
        assert(!site.imported(layers, zerocopy, streams, k).contains_key(key));
    } else {
        lemma_stored(site, layers, zerocopy, streams, k, n - 1);
        assert(layers[n - 1].0 != layers[k].0);
    }
}

/// What an image comes to once it is imported, layer by layer: a layer that was in the
/// repository is as it was, and one that was not is what was transferred for its own
/// diff-id, asked for in its own way.
pub proof fn every_layer_is_stored_under_its_diff_id(
    site: ImportSite,
    layers: Layers,
    reference: Option<Seq<char>>,
    zerocopy: bool,
    metadata: MetadataSource<Seq<char>, Seq<u8>>,
    repo: Repository,
    k: int,
) -> (n: nat)
    requires
        site.counts_no_layers(),
        0 <= k < layers.len() <= u64::MAX,
        forall|i: int, j: int|
            0 <= i < j < layers.len() ==> (#[trigger] layers[i]).0 != (#[trigger] layers[j]).0,
    ensures
        ({
            let start = Import::start(layers, reference, zerocopy, metadata);
            let end = site.steps(ImportRun::begin(start, repo), n);
            let key = StreamKey::Layer(layers[k].0);
            &&& end.import.action() is Done
            &&& end.repo.streams.contains_key(key)
            &&& end.repo.streams[key] == if repo.streams.contains_key(key) {
                repo.streams[key]
            } else {
                (site.transfer)(layers[k].0, layers[k].1, zerocopy).id
            }
        }),
{
    let start = Import::start(layers, reference, zerocopy, metadata);
    let n = import_puts_the_image_in_place(site, layers, reference, zerocopy, metadata, repo);
    let len = layers.len() as int;
    let key = StreamKey::Layer(layers[k].0);
    lemma_layers_stay(site, site.finalization(start, repo), key);
    site.lemma_imported(layers, zerocopy, repo.streams, len);
    if !repo.streams.contains_key(key) {
        lemma_stored(site, layers, zerocopy, repo.streams, k, len);
    }
    n
}

/// An image that is imported through the proxy ends up with every layer under its own
/// diff-id, holding what the service transferred for the storage layer ID in the same
/// position.
pub proof fn proxied_layers_are_stored_under_their_diff_ids(
    site: ImportSite,
    diff_ids: Seq<Seq<char>>,
    storage_layer_ids: Seq<Seq<char>>,
    reference: Option<Seq<char>>,
    zerocopy: bool,
    metadata: MetadataSource<Seq<char>, Seq<u8>>,
    repo: Repository,
    k: int,
) -> (n: nat)
    requires
        site.counts_no_layers(),
        diff_ids.len() == storage_layer_ids.len() <= u64::MAX,
        0 <= k < diff_ids.len(),
        forall|i: int, j: int| 0 <= i < j < diff_ids.len() ==> diff_ids[i] != diff_ids[j],
        !repo.streams.contains_key(StreamKey::Layer(diff_ids[k])),
    ensures
        ({
            let layers = skopeo_varlink::proxy_layers(diff_ids, storage_layer_ids);
            let start = Import::start(layers, reference, zerocopy, metadata);
            let end = site.steps(ImportRun::begin(start, repo), n);
            let params = GetLayerParams { diff_id: Some(storage_layer_ids[k]), storage: None };
            end.repo.streams.contains_pair(
                StreamKey::Layer(diff_ids[k]),
                (site.transfer)(diff_ids[k], params, zerocopy).id,
            )
        }),
{
    let layers = skopeo_varlink::proxy_layers(diff_ids, storage_layer_ids);
    assert forall|i: int, j: int| 0 <= i < j < layers.len() implies (#[trigger] layers[i]).0 != (
    #[trigger] layers[j]).0 by {
        skopeo_varlink::proxy_layers_are_paired_by_position(diff_ids, storage_layer_ids, i, j);
        skopeo_varlink::proxy_layers_are_paired_by_position(diff_ids, storage_layer_ids, j, i);
    }
    skopeo_varlink::proxy_layers_are_paired_by_position(diff_ids, storage_layer_ids, k, k);
    let params = GetLayerParams { diff_id: Some(storage_layer_ids[k]), storage: None };
    assert(layers[k].1 == params);
    every_layer_is_stored_under_its_diff_id(site, layers, reference, zerocopy, metadata, repo, k)
}

/// An image that is imported from containers-storage ends up with every layer under its
/// own diff-id, holding what the service transferred for the place where it was found.
pub proof fn found_layers_are_stored_under_their_diff_ids(
    site: ImportSite,
    found: Seq<(Seq<char>, Seq<char>, Seq<char>)>,
    reference: Option<Seq<char>>,
    zerocopy: bool,
    metadata: MetadataSource<Seq<char>, Seq<u8>>,
    repo: Repository,
    k: int,
) -> (n: nat)
    requires
        site.counts_no_layers(),
        0 <= k < found.len() <= u64::MAX,
        forall|i: int, j: int| 0 <= i < j < found.len() ==> found[i].2 != found[j].2,
        !repo.streams.contains_key(StreamKey::Layer(found[k].2)),
    ensures
        ({
            let layers = found.map_values(
                |l: (Seq<char>, Seq<char>, Seq<char>)| cstor::storage_layer(l),
            );
            let start = Import::start(layers, reference, zerocopy, metadata);
            let end = site.steps(ImportRun::begin(start, repo), n);
            let (storage_path, layer_id, diff_id) = found[k];
            let params = GetLayerParams {
                diff_id: None,
                storage: Some(StorageLocator { storage_path, layer_id }),
            };
            end.repo.streams.contains_pair(
                StreamKey::Layer(diff_id),
                (site.transfer)(diff_id, params, zerocopy).id,
            )
        }),
{
    let layers = found.map_values(|l: (Seq<char>, Seq<char>, Seq<char>)| cstor::storage_layer(l));
    assert forall|i: int, j: int| 0 <= i < j < layers.len() implies (#[trigger] layers[i]).0 != (
    #[trigger] layers[j]).0 by {
        assert(found[i].2 != found[j].2);
    }
    every_layer_is_stored_under_its_diff_id(site, layers, reference, zerocopy, metadata, repo, k)
}

/// When config and manifest are read from elsewhere, the import tells how many bytes each
/// of them has.
pub proof fn document_sizes_are_reported(i: Import, c: Seq<u8>, data: Seq<u8>)
    ensures
        i.phase is ReadingConfig ==> i.reports(ImportReply::Bytes(data)) == seq![
            ProgressEvent::Message(
                "Read "@ + "config"@ + " ("@ + text::decimal_text(data.len()) + " bytes)"@,
            ),
        ],
        i.phase == (ImportPhase::<Seq<u8>, Finalize>::ReadingManifest { config: c }) ==> i.reports(
            ImportReply::Bytes(data),
        ) == seq![
            ProgressEvent::Message(
                "Read "@ + "manifest"@ + " ("@ + text::decimal_text(data.len()) + " bytes)"@,
            ),
        ],
{
}

/// Whether a reply is the outcome of what an import waits for.
pub open spec fn answers(
    i: Import,
    reply: ImportReply<Seq<u8>, Seq<u8>, FinalizeReply<Seq<u8>>>,
) -> bool {
    match (i.action(), reply) {
        (ImportAction::HasLayer { .. }, ImportReply::Layer(_)) => true,
        (ImportAction::Transfer { .. }, ImportReply::Transferred { .. }) => true,
        (ImportAction::CloseService, ImportReply::Closed) => true,
        (ImportAction::ReadMetadata { .. }, ImportReply::Bytes(_)) => true,
        (ImportAction::ReadManifest, ImportReply::Bytes(_)) => true,
        (ImportAction::Finalize(action), ImportReply::Finalize(r)) => finalize::answers(action, r),
        _ => false,
    }
}

/// Anything but the outcome of what an import waits for leaves it as it is, and nothing is
/// reported. So an import that has ended stays as it is.
pub proof fn other_replies_change_nothing(
    i: Import,
    reply: ImportReply<Seq<u8>, Seq<u8>, FinalizeReply<Seq<u8>>>,
)
    requires
        !answers(i, reply),
    ensures
        i.after(reply) == i,
        i.reports(reply).len() == 0,
{
    if let ImportPhase::Finalizing(f) = i.phase {
        if let ImportReply::Finalize(r) = reply {
            finalize::other_replies_change_nothing(f, r);
        }
    }
}

/// Every reply can be taken in as long as no counter would overflow.
pub proof fn replies_fit_unless_a_counter_overflows(
    i: Import,
    reply: ImportReply<Seq<u8>, Seq<u8>, FinalizeReply<Seq<u8>>>,
)
    requires
        i.stats.layers_already_present < u64::MAX,
        reply matches ImportReply::Transferred { stats, .. } ==> i.stats.merge_fits(stats),
    ensures
        i.fits(reply),
{
}

} // verus!

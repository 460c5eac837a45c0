//! Finding an image and its layers in a list of containers-storage stores.
//!
//! [`resolve_image_layers`] starts an [`ImageSearch`]. It asks for one thing at a
//! time, and the caller hands the outcome back. Stores that could be opened are
//! known by their position among them.
use vstd::prelude::*;

use crate::cstor;
use crate::cstor::ResolvedLayer;
use crate::digest;
use crate::digest::OciDigest;
use crate::text;

verus! {

/// Why an image could not be resolved.
#[derive(Debug)]
pub enum ResolveError<S = String> {
    /// None of the stores could be opened.
    NoStore {
        /// Why not, store by store.
        errors: S,
    },
    /// No store has the image.
    NoImage {
        /// The image.
        image_id: S,
    },
    /// The config has a diff-id that is not a digest.
    InvalidDiffId {
        /// The diff-id.
        diff_id: S,
    },
    /// The config does not have as many diff-ids as the storage has layers.
    LayerCountMismatch {
        /// How many layers there are in storage.
        in_storage: usize,
        /// How many diff-ids there are in the config.
        in_config: usize,
    },
    /// No store has a layer of the image.
    NoLayer {
        /// The layer.
        layer_id: S,
    },
}

impl View for ResolveError<String> {
    type V = ResolveError<Seq<char>>;

    open spec fn view(&self) -> ResolveError<Seq<char>> {
        match self {
            ResolveError::NoStore { errors } => ResolveError::NoStore { errors: errors@ },
            ResolveError::NoImage { image_id } => ResolveError::NoImage { image_id: image_id@ },
            ResolveError::InvalidDiffId { diff_id } => ResolveError::InvalidDiffId {
                diff_id: diff_id@,
            },
            ResolveError::LayerCountMismatch {
                in_storage,
                in_config,
            } => ResolveError::LayerCountMismatch {
                in_storage: *in_storage,
                in_config: *in_config,
            },
            ResolveError::NoLayer { layer_id } => ResolveError::NoLayer { layer_id: layer_id@ },
        }
    }
}

impl Clone for ResolveError {
    fn clone(&self) -> (copy: Self)
        ensures
            copy@ == self@,
    {
        match self {
            ResolveError::NoStore { errors } => ResolveError::NoStore { errors: errors.clone() },
            ResolveError::NoImage { image_id } => ResolveError::NoImage {
                image_id: image_id.clone(),
            },
            ResolveError::InvalidDiffId { diff_id } => ResolveError::InvalidDiffId {
                diff_id: diff_id.clone(),
            },
            ResolveError::LayerCountMismatch {
                in_storage,
                in_config,
            } => ResolveError::LayerCountMismatch {
                in_storage: *in_storage,
                in_config: *in_config,
            },
            ResolveError::NoLayer { layer_id } => ResolveError::NoLayer {
                layer_id: layer_id.clone(),
            },
        }
    }
}

impl ResolveError<Seq<char>> {
    /// What the error says.
    pub open spec fn text(self) -> Seq<char> {
        match self {
            ResolveError::NoStore { errors } => "Could not open any containers-storage root: "@
                + errors,
            ResolveError::NoImage { image_id } => "Failed to find image "@ + image_id
                + " in any storage"@,
            ResolveError::InvalidDiffId { .. } => "parsing diff_id"@,
            ResolveError::LayerCountMismatch { in_storage, in_config } => "Layer count mismatch: "@
                + text::decimal_text(in_storage as nat) + " layers in storage, "@
                + text::decimal_text(in_config as nat) + " diff_ids in config"@,
            ResolveError::NoLayer { layer_id } => "Could not find store containing layer "@
                + layer_id,
        }
    }
}

impl ResolveError {
    /// What the error says.
    pub fn message(&self) -> (message: String)
        ensures
            message@ == self@.text(),
    {
        match self {
            ResolveError::NoStore { errors } => text::join2(
                "Could not open any containers-storage root: ",
                errors.as_str(),
            ),
            ResolveError::NoImage { image_id } => {
                let mut out: String = "Failed to find image ".to_owned();
                out.append(image_id.as_str());
                out.append(" in any storage");
                out
            },
            ResolveError::InvalidDiffId { .. } => "parsing diff_id".to_owned(),
            ResolveError::LayerCountMismatch { in_storage, in_config } => {
                let mut out: String = "Layer count mismatch: ".to_owned();
                out.append(text::decimal(*in_storage as u64).as_str());
                out.append(" layers in storage, ");
                out.append(text::decimal(*in_config as u64).as_str());
                out.append(" diff_ids in config");
                out
            },
            ResolveError::NoLayer { layer_id } => text::join2(
                "Could not find store containing layer ",
                layer_id.as_str(),
            ),
        }
    }
}

/// Where an image was found.
#[derive(Debug, Clone, Copy, PartialEq, Eq, Structural)]
pub struct FoundImage {
    /// The open store it is in.
    pub store: usize,
    /// Whether it was found there by its name, and not by its ID.
    pub by_name: bool,
}

/// What a search waits for, or how it ended.
#[derive(Debug)]
pub enum ResolveAction<S = String> {
    /// Open the store at this path. If that succeeds, it is the next of the open
    /// stores.
    OpenStore {
        /// The path.
        path: S,
    },
    /// Look in an open store for the image with this ID.
    OpenImage {
        /// The store.
        store: usize,
        /// The ID.
        image_id: S,
    },
    /// Look in an open store for the image with this name.
    FindImageByName {
        /// The store.
        store: usize,
        /// The name.
        name: S,
    },
    /// Ask for the layer IDs of the image that was found, in any of the open stores.
    ListLayers {
        /// The image.
        image: FoundImage,
    },
    /// Ask for the diff-ids in the config of that image.
    ListDiffIds {
        /// The image.
        image: FoundImage,
    },
    /// Look in an open store for a layer.
    OpenLayer {
        /// The store.
        store: usize,
        /// The layer ID.
        layer_id: S,
    },
    /// All layers were found; see [`ImageSearch::into_layers`].
    Resolved {
        /// The image.
        image: FoundImage,
    },
    /// The image could not be resolved.
    Fail(ResolveError<S>),
}

impl View for ResolveAction<String> {
    type V = ResolveAction<Seq<char>>;

    open spec fn view(&self) -> ResolveAction<Seq<char>> {
        match self {
            ResolveAction::OpenStore { path } => ResolveAction::OpenStore { path: path@ },
            ResolveAction::OpenImage { store, image_id } => ResolveAction::OpenImage {
                store: *store,
                image_id: image_id@,
            },
            ResolveAction::FindImageByName { store, name } => ResolveAction::FindImageByName {
                store: *store,
                name: name@,
            },
            ResolveAction::ListLayers { image } => ResolveAction::ListLayers { image: *image },
            ResolveAction::ListDiffIds { image } => ResolveAction::ListDiffIds { image: *image },
            ResolveAction::OpenLayer { store, layer_id } => ResolveAction::OpenLayer {
                store: *store,
                layer_id: layer_id@,
            },
            ResolveAction::Resolved { image } => ResolveAction::Resolved { image: *image },
            ResolveAction::Fail(e) => ResolveAction::Fail(e@),
        }
    }
}

/// The outcome of what a search waited for.
#[derive(Debug)]
pub enum ResolveReply<S = String, L = Vec<String>> {
    /// Whether the store could be opened, and why not.
    Store(Result<(), S>),
    /// Whether the image was found.
    Image(bool),
    /// The layer IDs.
    LayerIds(L),
    /// The diff-ids.
    DiffIds(L),
    /// Whether the layer was found.
    Layer(bool),
}

impl View for ResolveReply<String, Vec<String>> {
    type V = ResolveReply<Seq<char>, Seq<Seq<char>>>;

    open spec fn view(&self) -> ResolveReply<Seq<char>, Seq<Seq<char>>> {
        match self {
            ResolveReply::Store(Ok(())) => ResolveReply::Store(Ok(())),
            ResolveReply::Store(Err(e)) => ResolveReply::Store(Err(e@)),
            ResolveReply::Image(found) => ResolveReply::Image(*found),
            ResolveReply::LayerIds(ids) => ResolveReply::LayerIds(text::texts(ids@)),
            ResolveReply::DiffIds(ids) => ResolveReply::DiffIds(text::texts(ids@)),
            ResolveReply::Layer(found) => ResolveReply::Layer(*found),
        }
    }
}

/// Where a search stands.
#[derive(Debug)]
pub enum ResolvePhase<S> {
    /// The store at a path is being opened.
    Opening {
        /// The position of the path.
        at: usize,
    },
    /// The image is being looked for by its ID.
    ById {
        /// The store.
        store: usize,
    },
    /// The image is being looked for by its name.
    ByName {
        /// The store.
        store: usize,
    },
    /// The image was found; its layer IDs are being read.
    ListingLayers {
        /// The image.
        image: FoundImage,
    },
    /// Its diff-ids are being read.
    ListingDiffIds {
        /// The image.
        image: FoundImage,
    },
    /// The next layer is being looked for.
    Locating {
        /// The image.
        image: FoundImage,
        /// The store.
        store: usize,
    },
    /// All layers were found.
    Resolved {
        /// The image.
        image: FoundImage,
    },
    /// The search failed.
    Failed(ResolveError<S>),
}

/// The model of a phase.
pub open spec fn phase_model(phase: ResolvePhase<String>) -> ResolvePhase<Seq<char>> {
    match phase {
        ResolvePhase::Opening { at } => ResolvePhase::Opening { at },
        ResolvePhase::ById { store } => ResolvePhase::ById { store },
        ResolvePhase::ByName { store } => ResolvePhase::ByName { store },
        ResolvePhase::ListingLayers { image } => ResolvePhase::ListingLayers { image },
        ResolvePhase::ListingDiffIds { image } => ResolvePhase::ListingDiffIds { image },
        ResolvePhase::Locating { image, store } => ResolvePhase::Locating { image, store },
        ResolvePhase::Resolved { image } => ResolvePhase::Resolved { image },
        ResolvePhase::Failed(e) => ResolvePhase::Failed(e@),
    }
}

/// The abstract state of a search.
pub struct Resolve {
    /// The image.
    pub image_id: Seq<char>,
    /// The paths of the stores.
    pub paths: Seq<Seq<char>>,
    /// The paths of the stores that could be opened.
    pub open: Seq<Seq<char>>,
    /// Why the others could not.
    pub errors: Seq<Seq<char>>,
    /// The layer IDs of the image.
    pub layer_ids: Seq<Seq<char>>,
    /// The diff-ids of the image.
    pub diff_ids: Seq<Seq<char>>,
    /// The layers found so far: store, layer ID and diff-id.
    pub found: Seq<(Seq<char>, Seq<char>, Seq<char>)>,
    /// What the search waits for.
    pub phase: ResolvePhase<Seq<char>>,
}

/// The first text that is not a digest.
pub open spec fn first_invalid(ids: Seq<Seq<char>>) -> Option<Seq<char>>
    decreases ids.len(),
{
    if ids.len() == 0 {
        None
    } else if !digest::is_digest(ids.first()) {
        Some(ids.first())
    } else {
        first_invalid(ids.drop_first())
    }
}

/// Parses digests: all of them, or the first text that is not one.
pub fn parse_diff_ids(ids: &Vec<String>) -> (digests: Result<Vec<OciDigest>, String>)
    ensures
        match digests {
            Ok(d) => first_invalid(text::texts(ids@)) is None && digest_texts(d@) == text::texts(
                ids@,
            ),
            Err(s) => first_invalid(text::texts(ids@)) == Some(s@),
        },
{
    let ghost all = text::texts(ids@);
    let mut digests: Vec<OciDigest> = Vec::new();
    let mut i: usize = 0;
    assert(all.skip(0) =~= all);
    while i < ids.len()
        invariant
            i <= ids@.len(),
            all == text::texts(ids@),
            digest_texts(digests@) == all.take(i as int),
            first_invalid(all) == first_invalid(all.skip(i as int)),
        decreases ids@.len() - i,
    {
        assert(all.skip(i as int).first() == ids@[i as int]@);
        assert(all.skip(i as int).drop_first() =~= all.skip(i + 1));
        match OciDigest::parse(ids[i].as_str()) {
            Ok(d) => {
                let ghost before = digest_texts(digests@);
                digests.push(d);
                assert(digest_texts(digests@) =~= before.push(d@));
            },
            Err(_) => {
                return Err(ids[i].clone());
            },
        }
        i += 1;
        assert(digest_texts(digests@) =~= all.take(i as int));
    }
    assert(all.take(i as int) =~= all);
    Ok(digests)
}

/// The texts of a list of digests.
pub open spec fn digest_texts(v: Seq<OciDigest>) -> Seq<Seq<char>> {
    Seq::new(v.len(), |i: int| v[i]@)
}

impl Resolve {
    /// A search that has not done anything.
    pub open spec fn start(image_id: Seq<char>, paths: Seq<Seq<char>>) -> Resolve {
        Resolve {
            image_id,
            paths,
            open: Seq::empty(),
            errors: Seq::empty(),
            layer_ids: Seq::empty(),
            diff_ids: Seq::empty(),
            found: Seq::empty(),
            phase: ResolvePhase::Opening { at: 0 },
        }.opening(0)
    }

    /// The search in another phase.
    pub open spec fn to(self, phase: ResolvePhase<Seq<char>>) -> Resolve {
        Resolve { phase, ..self }
    }

    /// The search that failed.
    pub open spec fn fail(self, e: ResolveError<Seq<char>>) -> Resolve {
        self.to(ResolvePhase::Failed(e))
    }

    /// The search when the stores before `at` have been tried.
    pub open spec fn opening(self, at: int) -> Resolve {
        if at < self.paths.len() {
            self.to(ResolvePhase::Opening { at: at as usize })
        } else if self.open.len() == 0 {
            self.fail(ResolveError::NoStore { errors: text::joined(self.errors, "; "@) })
        } else {
            self.to(ResolvePhase::ById { store: 0 })
        }
    }

    /// The search when the image is in none of the open stores before `store`.
    pub open spec fn looking(self, store: int) -> Resolve {
        if store < self.open.len() {
            self.to(ResolvePhase::ById { store: store as usize })
        } else {
            self.fail(ResolveError::NoImage { image_id: self.image_id })
        }
    }

    /// The search when the next layer is in none of the open stores before
    /// `store`.
    pub open spec fn locating(self, image: FoundImage, store: int) -> Resolve {
        if self.found.len() >= self.layer_ids.len() {
            self.to(ResolvePhase::Resolved { image })
        } else if store < self.open.len() {
            self.to(ResolvePhase::Locating { image, store: store as usize })
        } else {
            self.fail(
                ResolveError::NoLayer { layer_id: self.layer_ids[self.found.len() as int] },
            )
        }
    }

    /// The search once the diff-ids are known.
    pub open spec fn with_diff_ids(self, image: FoundImage, diff_ids: Seq<Seq<char>>) -> Resolve {
        match first_invalid(diff_ids) {
            Some(diff_id) => self.fail(ResolveError::InvalidDiffId { diff_id }),
            None => if self.layer_ids.len() != diff_ids.len() {
                self.fail(
                    ResolveError::LayerCountMismatch {
                        in_storage: self.layer_ids.len() as usize,
                        in_config: diff_ids.len() as usize,
                    },
                )
            } else {
                Resolve { diff_ids, ..self }.locating(image, 0)
            },
        }
    }

    /// The search after a reply. A reply that is not the outcome of what it waits
    /// for changes nothing.
    pub open spec fn after(self, reply: ResolveReply<Seq<char>, Seq<Seq<char>>>) -> Resolve {
        match (self.phase, reply) {
            (ResolvePhase::Opening { at }, ResolveReply::Store(Ok(()))) => Resolve {
                open: self.open.push(self.paths[at as int]),
                ..self
            }.opening(at + 1),
            (ResolvePhase::Opening { at }, ResolveReply::Store(Err(e))) => Resolve {
                errors: self.errors.push(self.paths[at as int] + ": "@ + e),
                ..self
            }.opening(at + 1),
            (ResolvePhase::ById { store }, ResolveReply::Image(found)) => if found {
                self.to(ResolvePhase::ListingLayers { image: FoundImage { store, by_name: false } })
            } else {
                self.to(ResolvePhase::ByName { store })
            },
            (ResolvePhase::ByName { store }, ResolveReply::Image(found)) => if found {
                self.to(ResolvePhase::ListingLayers { image: FoundImage { store, by_name: true } })
            } else {
                self.looking(store + 1)
            },
            (ResolvePhase::ListingLayers { image }, ResolveReply::LayerIds(layer_ids)) => Resolve {
                layer_ids,
                ..self
            }.to(ResolvePhase::ListingDiffIds { image }),
            (
                ResolvePhase::ListingDiffIds { image },
                ResolveReply::DiffIds(diff_ids),
            ) => self.with_diff_ids(image, diff_ids),
            (ResolvePhase::Locating { image, store }, ResolveReply::Layer(found)) => if found {
                let k = self.found.len() as int;
                Resolve {
                    found: self.found.push(
                        (self.open[store as int], self.layer_ids[k], self.diff_ids[k]),
                    ),
                    ..self
                }.locating(image, 0)
            } else {
                self.locating(image, store + 1)
            },
            _ => self,
        }
    }

    /// What the search waits for, or how it ended.
    pub open spec fn action(self) -> ResolveAction<Seq<char>> {
        match self.phase {
            ResolvePhase::Opening { at } => ResolveAction::OpenStore {
                path: self.paths[at as int],
            },
            ResolvePhase::ById { store } => ResolveAction::OpenImage {
                store,
                image_id: self.image_id,
            },
            ResolvePhase::ByName { store } => ResolveAction::FindImageByName {
                store,
                name: self.image_id,
            },
            ResolvePhase::ListingLayers { image } => ResolveAction::ListLayers { image },
            ResolvePhase::ListingDiffIds { image } => ResolveAction::ListDiffIds { image },
            ResolvePhase::Locating { image, store } => ResolveAction::OpenLayer {
                store,
                layer_id: self.layer_ids[self.found.len() as int],
            },
            ResolvePhase::Resolved { image } => ResolveAction::Resolved { image },
            ResolvePhase::Failed(e) => ResolveAction::Fail(e),
        }
    }
}

/// A search under way.
#[derive(Debug)]
pub struct ImageSearch {
    image_id: String,
    paths: Vec<String>,
    open: Vec<String>,
    errors: Vec<String>,
    layer_ids: Vec<String>,
    diff_ids: Vec<OciDigest>,
    found: Vec<ResolvedLayer>,
    phase: ResolvePhase<String>,
}

impl View for ImageSearch {
    type V = Resolve;

    closed spec fn view(&self) -> Resolve {
        Resolve {
            image_id: self.image_id@,
            paths: text::texts(self.paths@),
            open: text::texts(self.open@),
            errors: text::texts(self.errors@),
            layer_ids: text::texts(self.layer_ids@),
            diff_ids: digest_texts(self.diff_ids@),
            found: cstor::resolved_model(self.found@),
            phase: phase_model(self.phase),
        }
    }
}

/// Open stores, find the image, and resolve its layer IDs and diff-ids.
pub fn resolve_image_layers(image_id: &str, store_paths: Vec<String>) -> (search: ImageSearch)
    ensures
        search@ == Resolve::start(image_id@, text::texts(store_paths@)),
{
    assert(text::texts(Seq::empty()) =~= Seq::empty());
    assert(digest_texts(Seq::empty()) =~= Seq::empty());
    assert(cstor::resolved_model(Seq::empty()) =~= Seq::empty());
    let phase = if store_paths.len() > 0 {
        ResolvePhase::Opening { at: 0 }
    } else {
        ResolvePhase::Failed(ResolveError::NoStore { errors: text::join(&Vec::new(), "; ") })
    };
    ImageSearch {
        image_id: image_id.to_owned(),
        paths: store_paths,
        open: Vec::new(),
        errors: Vec::new(),
        layer_ids: Vec::new(),
        diff_ids: Vec::new(),
        found: Vec::new(),
        phase,
    }
}

impl ImageSearch {
    #[verifier::type_invariant]
    closed spec fn inv(self) -> bool {
        match self.phase {
            ResolvePhase::Opening { at } => at < self.paths@.len(),
            ResolvePhase::ById { store } => store < self.open@.len(),
            ResolvePhase::ByName { store } => store < self.open@.len(),
            ResolvePhase::Locating { image, store } => {
                &&& store < self.open@.len()
                &&& self.found@.len() < self.layer_ids@.len()
                &&& self.layer_ids@.len() == self.diff_ids@.len()
            },
            _ => true,
        }
    }

    /// What the search waits for.
    pub fn action(&self) -> (action: ResolveAction)
        ensures
            action@ == self@.action(),
    {
        proof {
            use_type_invariant(self);
        }
        match &self.phase {
            ResolvePhase::Opening { at } => ResolveAction::OpenStore {
                path: self.paths[*at].clone(),
            },
            ResolvePhase::ById { store } => ResolveAction::OpenImage {
                store: *store,
                image_id: self.image_id.clone(),
            },
            ResolvePhase::ByName { store } => ResolveAction::FindImageByName {
                store: *store,
                name: self.image_id.clone(),
            },
            ResolvePhase::ListingLayers { image } => ResolveAction::ListLayers { image: *image },
            ResolvePhase::ListingDiffIds { image } => ResolveAction::ListDiffIds { image: *image },
            ResolvePhase::Locating { store, .. } => ResolveAction::OpenLayer {
                store: *store,
                layer_id: self.layer_ids[self.found.len()].clone(),
            },
            ResolvePhase::Resolved { image } => ResolveAction::Resolved { image: *image },
            ResolvePhase::Failed(e) => ResolveAction::Fail(e.clone()),
        }
    }

    /// The layers found so far; all of them once the search is over.
    pub fn into_layers(self) -> (layers: Vec<ResolvedLayer>)
        ensures
            cstor::resolved_model(layers@) == self@.found,
    {
        self.found
    }

    fn opened(self, at: usize, outcome: Result<(), String>) -> (next: ImageSearch)
        requires
            self@.phase == (ResolvePhase::<Seq<char>>::Opening { at }),
        ensures
            next@ == self@.after(ResolveReply::<String, Vec<String>>::Store(outcome)@),
    {
        proof {
            use_type_invariant(&self);
        }
        let ghost model = self@;
        let ImageSearch { image_id, paths, open, errors, layer_ids, diff_ids, found, phase: _ } =
            self;
        let mut open = open;
        let mut errors = errors;
        match outcome {
            Ok(()) => {
                open.push(paths[at].clone());
                assert(text::texts(open@) =~= model.open.push(model.paths[at as int]));
            },
            Err(e) => {
                let mut error: String = paths[at].clone();
                error.append(": ");
                error.append(e.as_str());
                errors.push(error);
                assert(text::texts(errors@) =~= model.errors.push(
                    model.paths[at as int] + ": "@ + e@,
                ));
            },
        }
        assert(paths.len() == paths@.len());
        let phase = if at + 1 < paths.len() {
            ResolvePhase::Opening { at: at + 1 }
        } else if open.len() == 0 {
            ResolvePhase::Failed(ResolveError::NoStore { errors: text::join(&errors, "; ") })
        } else {
            ResolvePhase::ById { store: 0 }
        };
        ImageSearch { image_id, paths, open, errors, layer_ids, diff_ids, found, phase }
    }

    fn looking(self, store: usize) -> (next: ImageSearch)
        ensures
            next@ == self@.looking(store as int),
    {
        let phase = if store < self.open.len() {
            ResolvePhase::ById { store }
        } else {
            ResolvePhase::Failed(ResolveError::NoImage { image_id: self.image_id.clone() })
        };
        ImageSearch { phase, ..self }
    }

    fn locating(self, image: FoundImage, store: usize) -> (next: ImageSearch)
        requires
            self@.layer_ids.len() == self@.diff_ids.len(),
        ensures
            next@ == self@.locating(image, store as int),
    {
        let phase = if self.found.len() >= self.layer_ids.len() {
            ResolvePhase::Resolved { image }
        } else if store < self.open.len() {
            ResolvePhase::Locating { image, store }
        } else {
            let layer_id: String = self.layer_ids[self.found.len()].clone();
            ResolvePhase::Failed(ResolveError::NoLayer { layer_id })
        };
        ImageSearch { phase, ..self }
    }

    fn with_diff_ids(self, image: FoundImage, diff_ids: Vec<String>) -> (next: ImageSearch)
        ensures
            next@ == self@.with_diff_ids(image, text::texts(diff_ids@)),
    {
        let in_storage: usize = self.layer_ids.len();
        let in_config: usize = diff_ids.len();
        match parse_diff_ids(&diff_ids) {
            Err(diff_id) => ImageSearch {
                phase: ResolvePhase::Failed(ResolveError::InvalidDiffId { diff_id }),
                ..self
            },
            Ok(digests) => {
                assert(digest_texts(digests@).len() == in_config);
                if in_storage != in_config {
                    ImageSearch {
                        phase: ResolvePhase::Failed(
                            ResolveError::LayerCountMismatch { in_storage, in_config },
                        ),
                        ..self
                    }
                } else {
                    ImageSearch {
                        diff_ids: digests,
                        phase: ResolvePhase::ListingDiffIds { image },
                        ..self
                    }.locating(image, 0)
                }
            },
        }
    }

    fn located(self, image: FoundImage, store: usize) -> (next: ImageSearch)
        requires
            self@.phase == (ResolvePhase::<Seq<char>>::Locating { image, store }),
        ensures
            next@ == self@.after(ResolveReply::Layer(true)),
    {
        proof {
            use_type_invariant(&self);
        }
        let ghost model = self@;
        let ImageSearch { image_id, paths, open, errors, layer_ids, diff_ids, found, phase: _ } =
            self;
        let mut found = found;
        let k: usize = found.len();
        found.push(
            ResolvedLayer {
                storage_path: open[store].clone(),
                layer_id: layer_ids[k].clone(),
                diff_id: diff_ids[k].clone(),
            },
        );
        assert(cstor::resolved_model(found@) =~= model.found.push(
            (model.open[store as int], model.layer_ids[k as int], model.diff_ids[k as int]),
        ));
        ImageSearch {
            image_id,
            paths,
            open,
            errors,
            layer_ids,
            diff_ids,
            found,
            phase: ResolvePhase::Resolved { image },
        }.locating(image, 0)
    }

    /// Takes in the outcome of what the search waited for.
    pub fn resume(self, reply: ResolveReply) -> (next: ImageSearch)
        ensures
            next@ == self@.after(reply@),
    {
        proof {
            use_type_invariant(&self);
        }
        match reply {
            ResolveReply::Store(outcome) => match &self.phase {
                ResolvePhase::Opening { at } => {
                    let at: usize = *at;
                    self.opened(at, outcome)
                },
                _ => self,
            },
            ResolveReply::Image(found) => match &self.phase {
                ResolvePhase::ById { store } => {
                    let store: usize = *store;
                    let phase = if found {
                        ResolvePhase::ListingLayers { image: FoundImage { store, by_name: false } }
                    } else {
                        ResolvePhase::ByName { store }
                    };
                    ImageSearch { phase, ..self }
                },
                ResolvePhase::ByName { store } => {
                    let store: usize = *store;
                    assert(self.open.len() == self.open@.len());
                    if found {
                        let image = FoundImage { store, by_name: true };
                        ImageSearch { phase: ResolvePhase::ListingLayers { image }, ..self }
                    } else {
                        self.looking(store + 1)
                    }
                },
                _ => self,
            },
            ResolveReply::LayerIds(layer_ids) => match &self.phase {
                ResolvePhase::ListingLayers { image } => {
                    let image: FoundImage = *image;
                    ImageSearch { layer_ids, phase: ResolvePhase::ListingDiffIds { image }, ..self }
                },
                _ => self,
            },
            ResolveReply::DiffIds(diff_ids) => match &self.phase {
                ResolvePhase::ListingDiffIds { image } => {
                    let image: FoundImage = *image;
                    self.with_diff_ids(image, diff_ids)
                },
                _ => self,
            },
            ResolveReply::Layer(found) => match &self.phase {
                ResolvePhase::Locating { image, store } => {
                    let image: FoundImage = *image;
                    let store: usize = *store;
                    assert(self.open.len() == self.open@.len());
                    if found {
                        self.located(image, store)
                    } else {
                        self.locating(image, store + 1)
                    }
                },
                _ => self,
            },
        }
    }
}

/// What there is in the stores.
pub struct Stores {
    /// Whether the store at a path can be opened, and why not.
    pub opens: spec_fn(Seq<char>) -> Result<(), Seq<char>>,
    /// Whether a store has the image by its ID.
    pub has_id: spec_fn(Seq<char>) -> bool,
    /// Whether a store has the image by its name.
    pub has_name: spec_fn(Seq<char>) -> bool,
    /// The layer IDs of the image that a store has, by its ID or by its name.
    pub layer_ids: spec_fn(Seq<char>, bool) -> Seq<Seq<char>>,
    /// The diff-ids of the image that a store has, by its ID or by its name.
    pub diff_ids: spec_fn(Seq<char>, bool) -> Seq<Seq<char>>,
    /// Whether a store has a layer.
    pub has_layer: spec_fn(Seq<char>, Seq<char>) -> bool,
}

/// The first of some stores that has something.
pub open spec fn first_with(stores: Seq<Seq<char>>, has: spec_fn(Seq<char>) -> bool) -> Option<
    Seq<char>,
>
    decreases stores.len(),
{
    if stores.len() == 0 {
        None
    } else if has(stores.first()) {
        Some(stores.first())
    } else {
        first_with(stores.drop_first(), has)
    }
}

impl Stores {
    /// The stores that can be opened, in order.
    pub open spec fn open(self, paths: Seq<Seq<char>>) -> Seq<Seq<char>>
        decreases paths.len(),
    {
        if paths.len() == 0 {
            Seq::empty()
        } else {
            let before = self.open(paths.drop_last());
            match (self.opens)(paths.last()) {
                Ok(()) => before.push(paths.last()),
                Err(_) => before,
            }
        }
    }

    /// Why the others cannot, in order.
    pub open spec fn errors(self, paths: Seq<Seq<char>>) -> Seq<Seq<char>>
        decreases paths.len(),
    {
        if paths.len() == 0 {
            Seq::empty()
        } else {
            let before = self.errors(paths.drop_last());
            match (self.opens)(paths.last()) {
                Ok(()) => before,
                Err(e) => before.push(paths.last() + ": "@ + e),
            }
        }
    }

    /// Whether a store has the image.
    pub open spec fn has_image(self) -> spec_fn(Seq<char>) -> bool {
        |path: Seq<char>| (self.has_id)(path) || (self.has_name)(path)
    }

    /// The first open store that has a layer.
    pub open spec fn home(self, open: Seq<Seq<char>>, layer_id: Seq<char>) -> Option<Seq<char>> {
        first_with(open, |path: Seq<char>| (self.has_layer)(path, layer_id))
    }

    /// One round: the search asks, and is answered.
    pub open spec fn step(self, s: Resolve) -> Resolve {
        match s.action() {
            ResolveAction::OpenStore { path } => s.after(ResolveReply::Store((self.opens)(path))),
            ResolveAction::OpenImage { store, .. } => s.after(
                ResolveReply::Image((self.has_id)(s.open[store as int])),
            ),
            ResolveAction::FindImageByName { store, .. } => s.after(
                ResolveReply::Image((self.has_name)(s.open[store as int])),
            ),
            ResolveAction::ListLayers { image } => s.after(
                ResolveReply::LayerIds(
                    (self.layer_ids)(s.open[image.store as int], image.by_name),
                ),
            ),
            ResolveAction::ListDiffIds { image } => s.after(
                ResolveReply::DiffIds((self.diff_ids)(s.open[image.store as int], image.by_name)),
            ),
            ResolveAction::OpenLayer { store, layer_id } => s.after(
                ResolveReply::Layer((self.has_layer)(s.open[store as int], layer_id)),
            ),
            ResolveAction::Resolved { .. } => s,
            ResolveAction::Fail(_) => s,
        }
    }

    /// The search after `n` rounds.
    pub open spec fn steps(self, s: Resolve, n: nat) -> Resolve
        decreases n,
    {
        if n == 0 {
            s
        } else {
            self.steps(self.step(s), (n - 1) as nat)
        }
    }

    /// Whether an image is the one to be found: in the first open store that has
    /// it, by its ID if it goes by that there, or else by its name.
    pub open spec fn is_first(self, open: Seq<Seq<char>>, image: FoundImage) -> bool {
        &&& image.store < open.len()
        &&& (self.has_image())(open[image.store as int])
        &&& image.by_name == !(self.has_id)(open[image.store as int])
        &&& forall|i: int| 0 <= i < image.store ==> !(self.has_image())(#[trigger] open[i])
    }

    /// How the search ends: with the error of the first thing that is wrong, or
    /// with the image of the first open store that has it, and every layer of that
    /// image in the first open store that has the layer.
    pub open spec fn outcome(self, end: Resolve, image_id: Seq<char>, paths: Seq<Seq<char>>) -> bool {
        let open = self.open(paths);
        let home = first_with(open, self.has_image());
        let path = home.unwrap();
        let layer_ids = (self.layer_ids)(path, !(self.has_id)(path));
        let diff_ids = (self.diff_ids)(path, !(self.has_id)(path));
        let missing = first_missing(self, open, layer_ids);
        if open.len() == 0 {
            end.phase == ResolvePhase::<Seq<char>>::Failed(
                ResolveError::NoStore { errors: text::joined(self.errors(paths), "; "@) },
            )
        } else if home is None {
            end.phase == ResolvePhase::<Seq<char>>::Failed(ResolveError::NoImage { image_id })
        } else if first_invalid(diff_ids) is Some {
            end.phase == ResolvePhase::<Seq<char>>::Failed(
                ResolveError::InvalidDiffId { diff_id: first_invalid(diff_ids).unwrap() },
            )
        } else if layer_ids.len() != diff_ids.len() {
            end.phase == ResolvePhase::<Seq<char>>::Failed(
                ResolveError::LayerCountMismatch {
                    in_storage: layer_ids.len() as usize,
                    in_config: diff_ids.len() as usize,
                },
            )
        } else if missing is Some {
            end.phase == ResolvePhase::<Seq<char>>::Failed(
                ResolveError::NoLayer { layer_id: missing.unwrap() },
            )
        } else {
            &&& end.open == open
            &&& end.phase matches ResolvePhase::Resolved { image } && self.is_first(open, image)
                && open[image.store as int] == path
            &&& end.found.len() == layer_ids.len()
            &&& forall|k: int|
                0 <= k < layer_ids.len() ==> #[trigger] end.found[k] == (
                    self.home(open, layer_ids[k]).unwrap(),
                    layer_ids[k],
                    diff_ids[k],
                )
        }
    }

    proof fn lemma_steps_add(self, s: Resolve, m: nat, n: nat)
        ensures
            self.steps(s, m + n) == self.steps(self.steps(s, m), n),
        decreases m,
    {
        if m > 0 {
            self.lemma_steps_add(self.step(s), (m - 1) as nat, n);
            assert((m + n - 1) as nat == ((m - 1) as nat) + n);
        }
    }

    proof fn lemma_opening(self, image_id: Seq<char>, paths: Seq<Seq<char>>, k: int) -> (n: nat)
        requires
            0 <= k <= paths.len() <= usize::MAX,
        ensures
            self.steps(Resolve::start(image_id, paths), n) == (Resolve {
                open: self.open(paths.take(k)),
                errors: self.errors(paths.take(k)),
                ..Resolve::start(image_id, paths)
            }).opening(k),
        decreases k,
    {
        let start = Resolve::start(image_id, paths);
        if k == 0 {
            assert(self.open(paths.take(0)) =~= Seq::empty());
            assert(self.errors(paths.take(0)) =~= Seq::empty());
            0
        } else {
            let m = self.lemma_opening(image_id, paths, k - 1);
            assert(paths.take(k).drop_last() =~= paths.take(k - 1));
            self.lemma_steps_add(start, m, 1);
            reveal_with_fuel(Stores::steps, 2);
            m + 1
        }
    }

    proof fn lemma_looking(self, s: Resolve, store: int) -> (r: (nat, FoundImage))
        requires
            0 <= store < s.open.len() <= usize::MAX,
            s.phase == (ResolvePhase::<Seq<char>>::ById { store: store as usize }),
        ensures
            match first_with(s.open.skip(store), self.has_image()) {
                Some(path) => {
                    &&& self.steps(s, r.0) == s.to(ResolvePhase::ListingLayers { image: r.1 })
                    &&& store <= r.1.store < s.open.len()
                    &&& s.open[r.1.store as int] == path
                    &&& (self.has_image())(path)
                    &&& r.1.by_name == !(self.has_id)(path)
                    &&& forall|i: int|
                        store <= i < r.1.store ==> !(self.has_image())(#[trigger] s.open[i])
                },
                None => self.steps(s, r.0) == s.fail(
                    ResolveError::NoImage { image_id: s.image_id },
                ),
            },
        decreases s.open.len() - store,
    {
        reveal_with_fuel(Stores::steps, 3);
        let here = s.open[store];
        assert(s.open.skip(store).first() == here);
        assert(s.open.skip(store).drop_first() =~= s.open.skip(store + 1));
        assert((self.has_image())(here) == ((self.has_id)(here) || (self.has_name)(here)));
        if (self.has_id)(here) {
            (1, FoundImage { store: store as usize, by_name: false })
        } else if (self.has_name)(here) {
            (2, FoundImage { store: store as usize, by_name: true })
        } else {
            let next = self.steps(s, 2);
            if store + 1 < s.open.len() {
                let (m, image) = self.lemma_looking(next, store + 1);
                self.lemma_steps_add(s, 2, m);
                (2 + m, image)
            } else {
                assert(first_with(s.open.skip(store + 1), self.has_image()) is None);
                (2, arbitrary())
            }
        }
    }

    proof fn lemma_listing(self, s: Resolve, image: FoundImage)
        requires
            s.phase == (ResolvePhase::<Seq<char>>::ListingLayers { image }),
        ensures
            ({
                let path = s.open[image.store as int];
                self.steps(s, 2) == Resolve {
                    layer_ids: (self.layer_ids)(path, image.by_name),
                    phase: ResolvePhase::ListingDiffIds { image },
                    ..s
                }.with_diff_ids(image, (self.diff_ids)(path, image.by_name))
            }),
    {
        reveal_with_fuel(Stores::steps, 3);
    }

    proof fn lemma_locating(self, s: Resolve, image: FoundImage, store: int) -> (n: nat)
        requires
            0 <= store < s.open.len() <= usize::MAX,
            s.found.len() < s.layer_ids.len(),
            s.phase == (ResolvePhase::<Seq<char>>::Locating { image, store: store as usize }),
        ensures
            ({
                let k = s.found.len() as int;
                let id = s.layer_ids[k];
                self.steps(s, n) == match self.home(s.open.skip(store), id) {
                    Some(path) => Resolve {
                        found: s.found.push((path, id, s.diff_ids[k])),
                        ..s
                    }.locating(image, 0),
                    None => s.fail(ResolveError::NoLayer { layer_id: id }),
                }
            }),
        decreases s.open.len() - store,
    {
        reveal_with_fuel(Stores::steps, 2);
        let here = s.open[store];
        assert(s.open.skip(store).first() == here);
        assert(s.open.skip(store).drop_first() =~= s.open.skip(store + 1));
        if (self.has_layer)(here, s.layer_ids[s.found.len() as int]) {
            1
        } else if store + 1 < s.open.len() {
            let m = self.lemma_locating(self.step(s), image, store + 1);
            self.lemma_steps_add(s, 1, m);
            1 + m
        } else {
            assert(s.open.skip(store + 1).len() == 0);
            1
        }
    }

    proof fn lemma_layers(self, s: Resolve, image: FoundImage, rest: Seq<Seq<char>>) -> (n: nat)
        requires
            s == s.locating(image, 0),
            0 < s.open.len() <= usize::MAX,
            s.found.len() <= s.layer_ids.len() == s.diff_ids.len(),
            rest == s.layer_ids.skip(s.found.len() as int),
        ensures
            ({
                let end = self.steps(s, n);
                match first_missing(self, s.open, rest) {
                    Some(layer_id) => end.phase == ResolvePhase::<Seq<char>>::Failed(
                        ResolveError::NoLayer { layer_id },
                    ),
                    None => {
                        &&& end.open == s.open
                        &&& end.phase == (ResolvePhase::<Seq<char>>::Resolved { image })
                        &&& end.found.len() == s.layer_ids.len()
                        &&& end.found.take(s.found.len() as int) == s.found
                        &&& forall|k: int|
                            s.found.len() <= k < s.layer_ids.len() ==> #[trigger] end.found[k] == (
                                self.home(s.open, s.layer_ids[k]).unwrap(),
                                s.layer_ids[k],
                                s.diff_ids[k],
                            )
                    },
                }
            }),
        decreases rest.len(),
    {
        let k = s.found.len() as int;
        if rest.len() == 0 {
            assert(s.found.take(k) =~= s.found);
            0
        } else {
            let m = self.lemma_locating(s, image, 0);
            let next = self.steps(s, m);
            assert(s.open.skip(0) =~= s.open);
            assert(rest.first() == s.layer_ids[k]);
            if self.home(s.open, rest.first()) is Some {
                assert(rest.drop_first() =~= s.layer_ids.skip(k + 1));
                let n = self.lemma_layers(next, image, rest.drop_first());
                self.lemma_steps_add(s, m, n);
                let end = self.steps(s, m + n);
                if first_missing(self, s.open, rest) is None {
                    assert(end.found.take(k) =~= next.found.take(k));
                    assert(next.found.take(k) =~= s.found);
                    assert(end.found[k] == end.found.take(k + 1)[k]);
                    assert(next.found[k] == end.found[k]);
                }
                m + n
            } else {
                m
            }
        }
    }
}

/// The first of some layers that none of the open stores has.
pub open spec fn first_missing(
    stores: Stores,
    open: Seq<Seq<char>>,
    layer_ids: Seq<Seq<char>>,
) -> Option<Seq<char>>
    decreases layer_ids.len(),
{
    if layer_ids.len() == 0 {
        None
    } else if stores.home(open, layer_ids.first()) is None {
        Some(layer_ids.first())
    } else {
        first_missing(stores, open, layer_ids.drop_first())
    }
}

/// A search of any list of stores ends. It finds the image in the first open
/// store that has it, by ID or by name, and every layer in the first open store
/// that has it; or else it tells what was wrong first.
pub proof fn resolve_finds_every_layer(
    stores: Stores,
    image_id: Seq<char>,
    paths: Seq<Seq<char>>,
) -> (n: nat)
    requires
        paths.len() <= usize::MAX,
    ensures
        stores.outcome(stores.steps(Resolve::start(image_id, paths), n), image_id, paths),
{
    let start = Resolve::start(image_id, paths);
    let len = paths.len() as int;
    let a = stores.lemma_opening(image_id, paths, len);
    assert(paths.take(len) =~= paths);
    let open = stores.open(paths);
    lemma_open_len(stores, paths);
    let one = stores.steps(start, a);
    if open.len() == 0 {
        a
    } else {
        let (b, image) = stores.lemma_looking(one, 0);
        assert(open.skip(0) =~= open);
        stores.lemma_steps_add(start, a, b);
        let two = stores.steps(one, b);
        if first_with(open, stores.has_image()) is None {
            a + b
        } else {
            let path = open[image.store as int];
            let layer_ids = (stores.layer_ids)(path, image.by_name);
            let diff_ids = (stores.diff_ids)(path, image.by_name);
            assert(stores.is_first(open, image));
            stores.lemma_listing(two, image);
            let three = stores.steps(two, 2);
            stores.lemma_steps_add(start, a + b, 2);
            if first_invalid(diff_ids) is Some || layer_ids.len() != diff_ids.len() {
                a + b + 2
            } else {
                assert(layer_ids.skip(0) =~= layer_ids);
                let c = stores.lemma_layers(three, image, layer_ids);
                stores.lemma_steps_add(start, a + b + 2, c);
                a + b + 2 + c
            }
        }
    }
}

proof fn lemma_open_len(stores: Stores, paths: Seq<Seq<char>>)
    ensures
        stores.open(paths).len() <= paths.len(),
    decreases paths.len(),
{
    if paths.len() > 0 {
        lemma_open_len(stores, paths.drop_last());
    }
}

/// The first text that is not a digest: there is one exactly if not all are digests, and
/// all before it are.
pub proof fn first_invalid_is_the_first(ids: Seq<Seq<char>>) -> (at: int)
    ensures
        match first_invalid(ids) {
            Some(id) => {
                &&& 0 <= at < ids.len()
                &&& ids[at] == id
                &&& !digest::is_digest(id)
                &&& forall|i: int| 0 <= i < at ==> digest::is_digest(#[trigger] ids[i])
            },
            None => forall|i: int| 0 <= i < ids.len() ==> digest::is_digest(#[trigger] ids[i]),
        },
    decreases ids.len(),
{
    if ids.len() == 0 {
        0
    } else if !digest::is_digest(ids.first()) {
        0
    } else {
        let rest = ids.drop_first();
        let at = first_invalid_is_the_first(rest);
        assert forall|i: int| 0 < i < ids.len() implies rest[i - 1] == #[trigger] ids[i] by {}
        at + 1
    }
}

/// Whether one search goes on where another one stood, apart from what it has learnt.
pub open spec fn same_question(from: Resolve, to: Resolve) -> bool {
    to.image_id == from.image_id && to.paths == from.paths
}

/// Stores are opened one after another, in order. Those that can be opened are kept, and
/// of the others why they cannot. If there is none in the end, all that is told; or else
/// the image is looked for in the first, by its ID.
pub proof fn stores_are_opened_in_order(
    image_id: Seq<char>,
    paths: Seq<Seq<char>>,
    s: Resolve,
    e: Seq<char>,
)
    requires
        paths.len() <= usize::MAX,
        s.paths.len() <= usize::MAX,
    ensures
        ({
            let start = Resolve::start(image_id, paths);
            &&& start.image_id == image_id
            &&& start.paths == paths
            &&& start.open.len() == 0
            &&& start.errors.len() == 0
            &&& start.found.len() == 0
            &&& if paths.len() > 0 {
                start.action() == (ResolveAction::<Seq<char>>::OpenStore { path: paths[0] })
                    && start.phase == (ResolvePhase::<Seq<char>>::Opening { at: 0 })
            } else {
                start.action() == ResolveAction::<Seq<char>>::Fail(
                    ResolveError::NoStore { errors: Seq::empty() },
                )
            }
        }),
        s.phase matches ResolvePhase::Opening { at } ==> {
            let opened = s.after(ResolveReply::Store(Ok(())));
            let failed = s.after(ResolveReply::Store(Err(e)));
            &&& same_question(s, opened) && same_question(s, failed)
            &&& opened.open == s.open.push(s.paths[at as int]) && opened.errors == s.errors
            &&& failed.open == s.open && failed.errors == s.errors.push(
                s.paths[at as int] + ": "@ + e,
            )
            &&& at + 1 < s.paths.len() ==> {
                let next = ResolveAction::<Seq<char>>::OpenStore { path: s.paths[at + 1] };
                let phase = ResolvePhase::<Seq<char>>::Opening { at: (at + 1) as usize };
                opened.action() == next && failed.action() == next && opened.phase == phase
                    && failed.phase == phase
            }
            &&& at + 1 >= s.paths.len() ==> {
                let first = ResolveAction::<Seq<char>>::OpenImage {
                    store: 0,
                    image_id: s.image_id,
                };
                &&& opened.action() == first
                &&& failed.action() == if s.open.len() > 0 {
                    first
                } else {
                    ResolveAction::<Seq<char>>::Fail(
                        ResolveError::NoStore { errors: text::joined(failed.errors, "; "@) },
                    )
                }
            }
        },
{
}

/// The image is looked for in one open store after another, in each first by its ID and
/// then by its name; its layers and diff-ids are those of where it was found first.
pub proof fn image_is_looked_for_in_order(s: Resolve)
    requires
        s.open.len() <= usize::MAX,
    ensures
        s.phase matches ResolvePhase::ById { store } ==> {
            let yes = s.after(ResolveReply::Image(true));
            let no = s.after(ResolveReply::Image(false));
            &&& yes == (Resolve { phase: yes.phase, ..s }) && no == (Resolve {
                phase: no.phase,
                ..s
            })
            &&& yes.action() == (ResolveAction::<Seq<char>>::ListLayers {
                image: FoundImage { store, by_name: false },
            })
            &&& no.action() == (ResolveAction::<Seq<char>>::FindImageByName {
                store,
                name: s.image_id,
            })
        },
        s.phase matches ResolvePhase::ByName { store } ==> {
            let yes = s.after(ResolveReply::Image(true));
            let no = s.after(ResolveReply::Image(false));
            &&& yes == (Resolve { phase: yes.phase, ..s }) && no == (Resolve {
                phase: no.phase,
                ..s
            })
            &&& yes.action() == (ResolveAction::<Seq<char>>::ListLayers {
                image: FoundImage { store, by_name: true },
            })
            &&& no.action() == if store + 1 < s.open.len() {
                ResolveAction::<Seq<char>>::OpenImage {
                    store: (store + 1) as usize,
                    image_id: s.image_id,
                }
            } else {
                ResolveAction::<Seq<char>>::Fail(ResolveError::NoImage { image_id: s.image_id })
            }
        },
{
}

/// Once the layer IDs and the diff-ids are known, there must be as many of the one as of
/// the other, and all diff-ids must be digests. Then the layers are looked for one after
/// another, each in one open store after another, and kept with the store it was found
/// in and the diff-id in its position.
pub proof fn layers_are_looked_for_in_order(
    s: Resolve,
    layer_ids: Seq<Seq<char>>,
    diff_ids: Seq<Seq<char>>,
)
    requires
        s.open.len() <= usize::MAX,
        s.layer_ids.len() <= usize::MAX,
        diff_ids.len() <= usize::MAX,
    ensures
        s.phase matches ResolvePhase::ListingLayers { image } ==> {
            let t = s.after(ResolveReply::LayerIds(layer_ids));
            &&& t == (Resolve { layer_ids, phase: t.phase, ..s })
            &&& t.action() == (ResolveAction::<Seq<char>>::ListDiffIds { image })
        },
        s.phase matches ResolvePhase::ListingDiffIds { image } ==> {
            let t = s.after(ResolveReply::DiffIds(diff_ids));
            if exists|i: int| 0 <= i < diff_ids.len() && !digest::is_digest(#[trigger] diff_ids[i]) {
                t.action() matches ResolveAction::Fail(ResolveError::InvalidDiffId { diff_id })
                    && diff_ids.contains(diff_id) && !digest::is_digest(diff_id)
            } else if diff_ids.len() != s.layer_ids.len() {
                t.action() matches ResolveAction::Fail(
                    ResolveError::LayerCountMismatch { in_storage, in_config },
                ) && in_storage == s.layer_ids.len() && in_config == diff_ids.len()
            } else {
                &&& t == (Resolve { diff_ids, phase: t.phase, ..s })
                &&& s.found.len() == 0 && s.layer_ids.len() == 0 ==> t.action() == (ResolveAction::<
                    Seq<char>,
                >::Resolved { image })
                &&& s.found.len() == 0 && s.layer_ids.len() > 0 && s.open.len() > 0 ==> t.action()
                    == (ResolveAction::<Seq<char>>::OpenLayer {
                    store: 0,
                    layer_id: s.layer_ids[0],
                }) && t.phase == (ResolvePhase::<Seq<char>>::Locating { image, store: 0 })
            }
        },
        s.phase matches ResolvePhase::Locating { image, store } ==> (s.found.len()
            < s.layer_ids.len() ==> {
            let yes = s.after(ResolveReply::Layer(true));
            let no = s.after(ResolveReply::Layer(false));
            let k = s.found.len() as int;
            &&& yes == (Resolve { found: yes.found, phase: yes.phase, ..s })
            &&& yes.found == s.found.push((s.open[store as int], s.layer_ids[k], s.diff_ids[k]))
            &&& k + 1 == s.layer_ids.len() ==> yes.action() == (ResolveAction::<
                Seq<char>,
            >::Resolved { image })
            &&& k + 1 < s.layer_ids.len() && s.open.len() > 0 ==> yes.action() == (ResolveAction::<
                Seq<char>,
            >::OpenLayer { store: 0, layer_id: s.layer_ids[k + 1] }) && yes.phase == (
            ResolvePhase::<Seq<char>>::Locating { image, store: 0 })
            &&& no == (Resolve { phase: no.phase, ..s })
            &&& no.action() == if store + 1 < s.open.len() {
                ResolveAction::<Seq<char>>::OpenLayer {
                    store: (store + 1) as usize,
                    layer_id: s.layer_ids[k],
                }
            } else {
                ResolveAction::<Seq<char>>::Fail(
                    ResolveError::NoLayer { layer_id: s.layer_ids[k] },
                )
            }
        }),
{
    let at = first_invalid_is_the_first(diff_ids);
}

/// A search that has ended stays as it is.
pub proof fn ended_search_stays(s: Resolve, reply: ResolveReply<Seq<char>, Seq<Seq<char>>>)
    ensures
        s.phase is Resolved || s.phase is Failed ==> s.after(reply) == s,
{
}

impl Stores {
    /// Whether a store has the image, by its ID or by its name.
    pub open spec fn with_image(self) -> spec_fn(Seq<char>) -> bool {
        |path: Seq<char>| (self.has_id)(path) || (self.has_name)(path)
    }

    /// The layer IDs of the image that a path has, by its ID if it goes by that there, or
    /// else by its name.
    pub open spec fn layers_at(self, path: Seq<char>) -> Seq<Seq<char>> {
        (self.layer_ids)(path, !(self.has_id)(path))
    }

    /// The diff-ids of that image.
    pub open spec fn diffs_at(self, path: Seq<char>) -> Seq<Seq<char>> {
        (self.diff_ids)(path, !(self.has_id)(path))
    }

    /// Whether a store has a layer.
    pub open spec fn with_layer(self, layer_id: Seq<char>) -> spec_fn(Seq<char>) -> bool {
        |path: Seq<char>| (self.has_layer)(path, layer_id)
    }

    /// Whether the path in a position is the first that can be opened and has something.
    pub open spec fn is_first_at(
        self,
        paths: Seq<Seq<char>>,
        p: int,
        owns: spec_fn(Seq<char>) -> bool,
    ) -> bool {
        &&& 0 <= p < paths.len()
        &&& (self.opens)(paths[p]) is Ok
        &&& owns(paths[p])
        &&& forall|q: int|
            0 <= q < p && (self.opens)(#[trigger] paths[q]) is Ok ==> !owns(paths[q])
    }

    proof fn lemma_first_at(self, paths: Seq<Seq<char>>, owns: spec_fn(Seq<char>) -> bool) -> (p: int)
        ensures
            match first_with(self.open(paths), owns) {
                Some(path) => self.is_first_at(paths, p, owns) && paths[p] == path,
                None => forall|q: int|
                    0 <= q < paths.len() && (self.opens)(#[trigger] paths[q]) is Ok ==> !owns(
                        paths[q],
                    ),
            },
        decreases paths.len(),
    {
        if paths.len() == 0 {
            0
        } else {
            let front = paths.drop_last();
            let p = self.lemma_first_at(front, owns);
            let before = self.open(front);
            assert forall|q: int| 0 <= q < front.len() implies front[q] == #[trigger] paths[q] by {}
            if (self.opens)(paths.last()) is Ok {
                lemma_first_with_push(before, paths.last(), owns);
            }
            if first_with(before, owns) is Some {
                p
            } else {
                paths.len() - 1
            }
        }
    }

    proof fn lemma_none_open(self, paths: Seq<Seq<char>>)
        ensures
            self.open(paths).len() == 0 <==> forall|q: int|
                0 <= q < paths.len() ==> (self.opens)(#[trigger] paths[q]) is Err,
        decreases paths.len(),
    {
        if paths.len() > 0 {
            let front = paths.drop_last();
            self.lemma_none_open(front);
            assert forall|q: int| 0 <= q < front.len() implies front[q] == #[trigger] paths[q] by {}
            assert(paths.last() == paths[paths.len() - 1]);
            if self.open(paths).len() == 0 {
                assert forall|q: int| 0 <= q < paths.len() implies (self.opens)(#[trigger] paths[q])
                    is Err by {
                    if q < front.len() {
                        assert((self.opens)(front[q]) is Err);
                    }
                }
            }
        }
    }

    proof fn lemma_all_errors(self, paths: Seq<Seq<char>>)
        requires
            forall|q: int| 0 <= q < paths.len() ==> (self.opens)(#[trigger] paths[q]) is Err,
        ensures
            self.errors(paths).len() == paths.len(),
            forall|q: int|
                0 <= q < paths.len() ==> #[trigger] self.errors(paths)[q] == paths[q] + ": "@ + (
                self.opens)(paths[q])->Err_0,
        decreases paths.len(),
    {
        if paths.len() > 0 {
            let front = paths.drop_last();
            assert forall|q: int| 0 <= q < front.len() implies (self.opens)(#[trigger] front[q])
                is Err by {
                assert(front[q] == paths[q]);
            }
            self.lemma_all_errors(front);
            assert(paths.last() == paths[paths.len() - 1]);
            assert forall|q: int| 0 <= q < paths.len() implies #[trigger] self.errors(paths)[q]
                == paths[q] + ": "@ + (self.opens)(paths[q])->Err_0 by {
                if q < front.len() {
                    assert(self.errors(paths)[q] == self.errors(front)[q]);
                    assert(front[q] == paths[q]);
                }
            }
        }
    }
}

proof fn lemma_first_with_push(
    stores: Seq<Seq<char>>,
    last: Seq<char>,
    owns: spec_fn(Seq<char>) -> bool,
)
    ensures
        first_with(stores.push(last), owns) == if first_with(stores, owns) is Some {
            first_with(stores, owns)
        } else if owns(last) {
            Some(last)
        } else {
            None
        },
    decreases stores.len(),
{
    reveal_with_fuel(first_with, 2);
    let all = stores.push(last);
    if stores.len() == 0 {
        assert(all.drop_first() =~= Seq::empty());
    } else {
        lemma_first_with_push(stores.drop_first(), last, owns);
        assert(all.drop_first() =~= stores.drop_first().push(last));
        assert(all.first() == stores.first());
    }
}

proof fn lemma_missing(
    stores: Stores,
    open: Seq<Seq<char>>,
    layer_ids: Seq<Seq<char>>,
) -> (at: int)
    ensures
        match first_missing(stores, open, layer_ids) {
            Some(layer_id) => 0 <= at < layer_ids.len() && layer_ids[at] == layer_id
                && stores.home(open, layer_id) is None,
            None => forall|k: int|
                0 <= k < layer_ids.len() ==> stores.home(open, #[trigger] layer_ids[k]) is Some,
        },
    decreases layer_ids.len(),
{
    if layer_ids.len() == 0 {
        0
    } else if stores.home(open, layer_ids.first()) is None {
        0
    } else {
        let rest = layer_ids.drop_first();
        let at = lemma_missing(stores, open, rest);
        assert forall|k: int| 0 < k < layer_ids.len() implies rest[k - 1] == #[trigger] layer_ids[k] by {}
        at + 1
    }
}

/// What a search comes to, told by the paths that were given: the image is that of the
/// first path that can be opened and has it, by its ID or else by its name, and every one
/// of its layers is kept with the first path that can be opened and has it, and with the
/// diff-id in its position. The search only fails if no path can be opened, if no path
/// that can has the image, if the diff-ids are no digests or not as many as the layers,
/// or if no path that can be opened has one of the layers.
#[verifier::spinoff_prover]
pub proof fn resolve_goes_by_the_paths(
    stores: Stores,
    image_id: Seq<char>,
    paths: Seq<Seq<char>>,
) -> (r: (nat, int))
    requires
        paths.len() <= usize::MAX,
    ensures
        ({
            let end = stores.steps(Resolve::start(image_id, paths), r.0);
            let p = r.1;
            let owns = stores.with_image();
            let layer_ids = stores.layers_at(paths[p]);
            let diff_ids = stores.diffs_at(paths[p]);
            match end.action() {
                ResolveAction::Resolved { image } => {
                    &&& stores.is_first_at(paths, p, owns)
                    &&& image.by_name == !(stores.has_id)(paths[p])
                    &&& end.found.len() == layer_ids.len() == diff_ids.len()
                    &&& forall|k: int|
                        0 <= k < diff_ids.len() ==> digest::is_digest(#[trigger] diff_ids[k])
                    &&& forall|k: int|
                        0 <= k < layer_ids.len() ==> {
                            let (path, layer_id, diff_id) = #[trigger] end.found[k];
                            &&& layer_id == layer_ids[k]
                            &&& diff_id == diff_ids[k]
                            &&& exists|q: int|
                                {
                                    &&& #[trigger] stores.is_first_at(
                                        paths,
                                        q,
                                        stores.with_layer(layer_ids[k]),
                                    )
                                    &&& paths[q] == path
                                }
                        }
                },
                ResolveAction::Fail(ResolveError::NoStore { errors }) => {
                    &&& forall|q: int|
                        0 <= q < paths.len() ==> (stores.opens)(#[trigger] paths[q]) is Err
                    &&& exists|all: Seq<Seq<char>>|
                        {
                            &&& errors == #[trigger] text::joined(all, "; "@)
                            &&& all.len() == paths.len()
                            &&& forall|q: int|
                                0 <= q < paths.len() ==> #[trigger] all[q] == paths[q] + ": "@ + (
                                stores.opens)(paths[q])->Err_0
                        }
                },
                ResolveAction::Fail(ResolveError::NoImage { image_id: i }) => {
                    &&& i == image_id
                    &&& exists|q: int|
                        0 <= q < paths.len() && (stores.opens)(#[trigger] paths[q]) is Ok
                    &&& forall|q: int|
                        0 <= q < paths.len() && (stores.opens)(#[trigger] paths[q]) is Ok ==> !owns(
                            paths[q],
                        )
                },
                ResolveAction::Fail(ResolveError::InvalidDiffId { diff_id }) => {
                    &&& stores.is_first_at(paths, p, owns)
                    &&& diff_ids.contains(diff_id)
                    &&& !digest::is_digest(diff_id)
                },
                ResolveAction::Fail(ResolveError::LayerCountMismatch { in_storage, in_config }) => {
                    &&& stores.is_first_at(paths, p, owns)
                    &&& layer_ids.len() != diff_ids.len()
                    &&& in_storage == layer_ids.len() as usize
                    &&& in_config == diff_ids.len() as usize
                },
                ResolveAction::Fail(ResolveError::NoLayer { layer_id }) => {
                    &&& stores.is_first_at(paths, p, owns)
                    &&& layer_ids.contains(layer_id)
                    &&& forall|q: int|
                        0 <= q < paths.len() && (stores.opens)(#[trigger] paths[q]) is Ok ==> !(
                        stores.has_layer)(paths[q], layer_id)
                },
                _ => false,
            }
        }),
{
    let n = resolve_finds_every_layer(stores, image_id, paths);
    let end = stores.steps(Resolve::start(image_id, paths), n);
    let open = stores.open(paths);
    let owns = stores.with_image();
    assert(owns =~= stores.has_image());
    stores.lemma_none_open(paths);
    let p = stores.lemma_first_at(paths, owns);
    let layer_ids = stores.layers_at(paths[p]);
    let diff_ids = stores.diffs_at(paths[p]);
    let at = first_invalid_is_the_first(diff_ids);
    let gone = lemma_missing(stores, open, layer_ids);
    if open.len() == 0 {
        stores.lemma_all_errors(paths);
        let all = stores.errors(paths);
        assert(text::joined(all, "; "@) == text::joined(all, "; "@));
    } else if first_with(open, owns) is None {
        assert(exists|q: int| 0 <= q < paths.len() && (stores.opens)(#[trigger] paths[q]) is Ok);
    } else if first_invalid(diff_ids) is Some {
        assert(diff_ids.contains(diff_ids[at]));
    } else if layer_ids.len() != diff_ids.len() {
    } else if first_missing(stores, open, layer_ids) is Some {
        let layer_id = layer_ids[gone];
        assert(layer_ids.contains(layer_id));
        let it = stores.with_layer(layer_id);
        let q = stores.lemma_first_at(paths, it);
    } else {
        assert forall|k: int| 0 <= k < layer_ids.len() implies exists|q: int|
            {
                &&& #[trigger] stores.is_first_at(paths, q, stores.with_layer(layer_ids[k]))
                &&& paths[q] == (#[trigger] end.found[k]).0
            } by {
            let it = stores.with_layer(layer_ids[k]);
            let q = stores.lemma_first_at(paths, it);
            assert(stores.home(open, layer_ids[k]) is Some);
            assert(stores.is_first_at(paths, q, it) && paths[q] == end.found[k].0);
        }
    }
    (n, p)
}

/// The models of actions and replies have what these have.
pub proof fn resolve_models_are_faithful(
    action: ResolveAction,
    reply: ResolveReply,
    digests: Seq<OciDigest>,
    i: int,
)
    ensures
        digest_texts(digests).len() == digests.len(),
        0 <= i < digests.len() ==> digest_texts(digests)[i] == digests[i]@,
        match (action, action@) {
            (ResolveAction::OpenStore { path }, ResolveAction::OpenStore { path: p }) => p == path@,
            (
                ResolveAction::OpenImage { store, image_id },
                ResolveAction::OpenImage { store: s, image_id: i },
            ) => s == store && i == image_id@,
            (
                ResolveAction::FindImageByName { store, name },
                ResolveAction::FindImageByName { store: s, name: n },
            ) => s == store && n == name@,
            (ResolveAction::ListLayers { image }, ResolveAction::ListLayers { image: i }) => i
                == image,
            (ResolveAction::ListDiffIds { image }, ResolveAction::ListDiffIds { image: i }) => i
                == image,
            (
                ResolveAction::OpenLayer { store, layer_id },
                ResolveAction::OpenLayer { store: s, layer_id: l },
            ) => s == store && l == layer_id@,
            (ResolveAction::Resolved { image }, ResolveAction::Resolved { image: i }) => i == image,
            (ResolveAction::Fail(e), ResolveAction::Fail(model)) => model == e@,
            _ => false,
        },
        match (reply, reply@) {
            (ResolveReply::Store(Ok(())), ResolveReply::Store(model)) => model is Ok,
            (ResolveReply::Store(Err(e)), ResolveReply::Store(model)) => model == Err::<
                (),
                Seq<char>,
            >(e@),
            (ResolveReply::Image(b), ResolveReply::Image(model)) => model == b,
            (ResolveReply::LayerIds(v), ResolveReply::LayerIds(model)) => model == text::texts(v@),
            (ResolveReply::DiffIds(v), ResolveReply::DiffIds(model)) => model == text::texts(v@),
            (ResolveReply::Layer(b), ResolveReply::Layer(model)) => model == b,
            _ => false,
        },
{
}

/// Whether a reply is the outcome of what a search waits for.
pub open spec fn answers(
    action: ResolveAction<Seq<char>>,
    reply: ResolveReply<Seq<char>, Seq<Seq<char>>>,
) -> bool {
    match (action, reply) {
        (ResolveAction::OpenStore { .. }, ResolveReply::Store(_)) => true,
        (ResolveAction::OpenImage { .. }, ResolveReply::Image(_)) => true,
        (ResolveAction::FindImageByName { .. }, ResolveReply::Image(_)) => true,
        (ResolveAction::ListLayers { .. }, ResolveReply::LayerIds(_)) => true,
        (ResolveAction::ListDiffIds { .. }, ResolveReply::DiffIds(_)) => true,
        (ResolveAction::OpenLayer { .. }, ResolveReply::Layer(_)) => true,
        _ => false,
    }
}

/// Anything but the outcome of what a search waits for leaves it as it is.
pub proof fn other_replies_change_nothing(
    r: Resolve,
    reply: ResolveReply<Seq<char>, Seq<Seq<char>>>,
)
    requires
        !answers(r.action(), reply),
    ensures
        r.after(reply) == r,
{
}

/// What an error says: what was not found or does not match, with the names and numbers it
/// is about.
pub proof fn resolve_messages_tell_what_is_wrong(
    s: Seq<char>,
    in_storage: usize,
    in_config: usize,
)
    ensures
        (ResolveError::<Seq<char>>::NoStore { errors: s }).text()
            == "Could not open any containers-storage root: "@ + s,
        (ResolveError::<Seq<char>>::NoImage { image_id: s }).text() == "Failed to find image "@ + s
            + " in any storage"@,
        (ResolveError::<Seq<char>>::InvalidDiffId { diff_id: s }).text() == "parsing diff_id"@,
        (ResolveError::<Seq<char>>::LayerCountMismatch { in_storage, in_config }).text()
            == "Layer count mismatch: "@ + text::decimal_text(in_storage as nat)
            + " layers in storage, "@ + text::decimal_text(in_config as nat)
            + " diff_ids in config"@,
        (ResolveError::<Seq<char>>::NoLayer { layer_id: s }).text()
            == "Could not find store containing layer "@ + s,
{
}

/// The model of an error has what the error has.
pub proof fn resolve_errors_are_faithful(e: ResolveError)
    ensures
        match (e, e@) {
            (ResolveError::NoStore { errors }, ResolveError::NoStore { errors: m }) => m == errors@,
            (ResolveError::NoImage { image_id }, ResolveError::NoImage { image_id: m }) => m
                == image_id@,
            (
                ResolveError::InvalidDiffId { diff_id },
                ResolveError::InvalidDiffId { diff_id: m },
            ) => m == diff_id@,
            (
                ResolveError::LayerCountMismatch { in_storage, in_config },
                ResolveError::LayerCountMismatch { in_storage: s, in_config: c },
            ) => s == in_storage && c == in_config,
            (ResolveError::NoLayer { layer_id }, ResolveError::NoLayer { layer_id: m }) => m
                == layer_id@,
            _ => false,
        },
{
}

} // verus!

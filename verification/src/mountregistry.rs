//! Mount registry for tracking active erofs mounts at runtime.
//!
//! When the same composefs image is mounted again (even from a different
//! process), the existing erofs mount can be reused as the overlay lower
//! layer. This avoids creating duplicate erofs mounts for the same image.
//!
//! Instead of persisting file handles to disk, mounts are discovered at runtime
//! by enumerating the mount namespace and identifying composefs overlay mounts by
//! their source string (`composefs:{name}`).
//!
//! [`try_reuse`] starts a search that asks one question at a time. The caller
//! puts the question to the kernel and hands the reply back. The protocol is
//! race-free, because a mount point is opened by its path only once:
//!
//! 1. list the mount IDs,
//! 2. look at one mount: file system type, source and mount point,
//! 3. open the mount point, which grabs a reference, and ask for the unique ID of
//!    the mount that was opened; it has to be the one that was looked at,
//! 4. reopen what was opened, not the path, and count its overlay layers,
//! 5. open one lower layer of it,
//! 6. measure the fs-verity digest of the image file that backs the layer.
//!
//! Whatever is mounted at the path after the third step, the layers are those of
//! the mount that was looked at.
use vstd::prelude::*;

use crate::mountid::{
    MountInfo, OvlLayersInfo, StatmountResult, STATMOUNT_FS_TYPE, STATMOUNT_MNT_POINT,
    STATMOUNT_SB_SOURCE,
};
use crate::text;

verus! {

/// What the source of a composefs overlay mount starts with.
pub open spec fn source_prefix() -> Seq<char> {
    "composefs:"@
}

/// The source of the overlay mount of the image `image_name`.
pub open spec fn source_of(image_name: Seq<char>) -> Seq<char> {
    source_prefix() + image_name
}

/// The name of the image that an overlay mount with this source shows.
pub open spec fn image_of(source: Seq<char>) -> Option<Seq<char>> {
    text::without_prefix(source, source_prefix())
}

/// The mount source of an image names that image, and no other.
pub proof fn source_names_the_image(image_name: Seq<char>, source: Seq<char>)
    ensures
        image_of(source_of(image_name)) == Some(image_name),
        image_of(source) == Some(image_name) <==> source == source_of(image_name),
{
    let prefix = source_prefix();
    assert(source_of(image_name).take(prefix.len() as int) == prefix);
    assert(source_of(image_name).skip(prefix.len() as int) == image_name);
    if text::has_prefix(source, prefix) {
        assert(source == source.take(prefix.len() as int) + source.skip(prefix.len() as int));
    }
}

/// The source of the overlay mount of `image_name`.
pub fn mount_source(image_name: &str) -> (source: String)
    ensures
        source@ == source_of(image_name@),
{
    text::join2("composefs:", image_name)
}

/// The mount point as an absolute path.
pub open spec fn absolute(mount_point: Seq<char>) -> Seq<char> {
    if mount_point.len() > 0 && mount_point[0] == '/' {
        mount_point
    } else {
        "/"@ + mount_point
    }
}

fn absolute_path(mount_point: &str) -> (path: String)
    ensures
        path@ == absolute(mount_point@),
{
    if !mount_point.is_empty() && mount_point.get_char(0) == '/' {
        mount_point.to_owned()
    } else {
        text::join2("/", mount_point)
    }
}

/// The image shown by a mount, if it is a composefs overlay mount.
pub open spec fn shown_image(info: MountInfo) -> Option<Seq<char>> {
    if info.fs_type == Some("overlay"@) {
        match info.sb_source {
            Some(source) => image_of(source),
            None => None,
        }
    } else {
        None
    }
}

fn is_overlay(info: &StatmountResult) -> (yes: bool)
    ensures
        yes == (info@.fs_type == Some("overlay"@)),
{
    match &info.fs_type {
        Some(fs_type) => text::str_eq(fs_type.as_str(), "overlay"),
        None => false,
    }
}

/// The model of the replies to a scan of all mounts.
pub open spec fn scan_model(scan: Option<Vec<Option<StatmountResult>>>) -> Seq<
    Option<MountInfo>,
> {
    match scan {
        Some(v) => Seq::new(
            v@.len(),
            |i: int|
                match v@[i] {
                    Some(info) => Some(info@),
                    None => None,
                },
        ),
        None => Seq::empty(),
    }
}

/// The names of the images that a scan found mounted.
pub open spec fn mounted_images(scan: Seq<Option<MountInfo>>) -> Set<Seq<char>> {
    Set::new(
        |name: Seq<char>|
            exists|i: int|
                #![trigger scan[i]]
                0 <= i < scan.len() && scan[i] is Some && shown_image(scan[i]->Some_0) == Some(
                    name,
                ),
    )
}

/// The fields that a scan for active mounts asks for.
pub fn active_mounts_mask() -> (mask: u64)
    ensures
        mask == STATMOUNT_FS_TYPE | STATMOUNT_SB_SOURCE,
{
    STATMOUNT_FS_TYPE | STATMOUNT_SB_SOURCE
}

fn contains_text(names: &Vec<String>, name: &str) -> (found: bool)
    ensures
        found == text::texts(names@).contains(name@),
{
    let mut i: usize = 0;
    while i < names.len()
        invariant
            i <= names@.len(),
            forall|j: int| 0 <= j < i ==> #[trigger] text::texts(names@)[j] != name@,
        decreases names@.len() - i,
    {
        if text::str_eq(names[i].as_str(), name) {
            assert(text::texts(names@)[i as int] == name@);
            return true;
        }
        i += 1;
    }
    false
}

/// Return the set of image names that are currently backing active composefs
/// mounts.
///
/// `scan` holds, for every mount of the namespace, what `statmount` said of it
/// (`None` where the query failed), and is itself `None` where the mounts could
/// not be listed. Every name occurs once in the result.
pub fn active_mounts(scan: &Option<Vec<Option<StatmountResult>>>) -> (names: Vec<String>)
    ensures
        text::texts(names@).no_duplicates(),
        text::texts(names@).to_set() == mounted_images(scan_model(*scan)),
{
    let mut live: Vec<String> = Vec::new();
    let ghost replies = scan_model(*scan);
    match scan {
        None => {
            assert(text::texts(live@).to_set() =~= mounted_images(replies));
        },
        Some(mounts) => {
            let mut i: usize = 0;
            assert(text::texts(live@).to_set() =~= mounted_images(replies.take(0)));
            while i < mounts.len()
                invariant
                    i <= mounts@.len() == replies.len(),
                    replies == scan_model(*scan),
                    *scan == Some(*mounts),
                    text::texts(live@).no_duplicates(),
                    text::texts(live@).to_set() == mounted_images(replies.take(i as int)),
                decreases mounts@.len() - i,
            {
                let ghost before = text::texts(live@);
                let ghost seen = replies.take(i as int);
                let ghost now = replies.take(i + 1);
                assert(now == seen.push(replies[i as int]));
                let ghost mut shown: Option<Seq<char>> = None;
                if let Some(info) = &mounts[i] {
                    assert(replies[i as int] == Some(info@));
                    if is_overlay(info) {
                        if let Some(source) = &info.sb_source {
                            if let Some(name) = text::strip_prefix(source.as_str(), "composefs:") {
                                proof {
                                    shown = Some(name@);
                                }
                                if !contains_text(&live, name) {
                                    live.push(name.to_owned());
                                    assert(text::texts(live@) =~= before.push(name@));
                                }
                            }
                        }
                    }
                }
                proof {
                    assert(shown == match replies[i as int] {
                        Some(info) => shown_image(info),
                        None => None,
                    });
                    lemma_one_more_image(seen, replies[i as int]);
                    assert(text::texts(live@).to_set() =~= mounted_images(now)) by {
                        if shown is Some {
                            let name = shown->Some_0;
                            if before.contains(name) {
                                assert(before.to_set().insert(name) =~= before.to_set());
                            } else {
                                lemma_push_to_set(before, name);
                            }
                        }
                    }
                }
                i += 1;
            }
            assert(replies.take(i as int) == replies);
        },
    }
    live
}

proof fn lemma_push_to_set<A>(s: Seq<A>, a: A)
    ensures
        s.push(a).to_set() == s.to_set().insert(a),
{
    assert forall|x: A| s.push(a).to_set().contains(x) <==> s.to_set().insert(a).contains(x) by {
        if s.to_set().insert(a).contains(x) {
            if x == a {
                assert(s.push(a)[s.len() as int] == a);
            } else {
                let i = choose|i: int| 0 <= i < s.len() && s[i] == x;
                assert(s.push(a)[i] == x);
            }
        }
    }
    assert(s.push(a).to_set() =~= s.to_set().insert(a));
}

proof fn lemma_one_more_image(seen: Seq<Option<MountInfo>>, next: Option<MountInfo>)
    ensures
        mounted_images(seen.push(next)) == match next {
            Some(info) => match shown_image(info) {
                Some(name) => mounted_images(seen).insert(name),
                None => mounted_images(seen),
            },
            None => mounted_images(seen),
        },
{
    let now = seen.push(next);
    let n = seen.len() as int;
    assert(now[n] == next);
    assert forall|i: int| 0 <= i < n implies now[i] == seen[i] by {}
    let expected = match next {
        Some(info) => match shown_image(info) {
            Some(name) => mounted_images(seen).insert(name),
            None => mounted_images(seen),
        },
        None => mounted_images(seen),
    };
    assert forall|name: Seq<char>| mounted_images(now).contains(name) <==> expected.contains(
        name,
    ) by {
        if expected.contains(name) {
            if mounted_images(seen).contains(name) {
                let i = choose|i: int|
                    #![trigger seen[i]]
                    0 <= i < seen.len() && seen[i] is Some && shown_image(seen[i]->Some_0) == Some(
                        name,
                    );
                assert(now[i] == seen[i]);
            }
        }
        if mounted_images(now).contains(name) {
            let i = choose|i: int|
                #![trigger now[i]]
                0 <= i < now.len() && now[i] is Some && shown_image(now[i]->Some_0) == Some(name);
            if i < n {
                assert(seen[i] == now[i]);
            }
        }
    }
    assert(mounted_images(now) =~= expected);
}

/// A question of the search, or its outcome.
pub enum ReuseAction<S> {
    /// List all mount IDs.
    ListMounts,
    /// Query the fields in `mask` of the mount `mnt_id`.
    Stat {
        /// The mount to look at.
        mnt_id: u64,
        /// The fields to ask for.
        mask: u64,
    },
    /// Open `path` without following it, hold on to what was opened, and ask for
    /// the unique ID of its mount.
    Identify {
        /// The absolute mount point.
        path: S,
    },
    /// Reopen for reading what is held on to, and ask for its overlay layer counts.
    /// The path is not opened again.
    CountLayers {
        /// The overlay mount, whose ID was compared.
        mnt_id: u64,
    },
    /// Open lower layer `layer` of what was reopened.
    OpenLayer {
        /// The overlay mount, whose ID was compared.
        mnt_id: u64,
        /// The layer index; 1 is the first lower layer.
        layer: usize,
    },
    /// Measure the image file behind the layer opened last.
    MeasureLayer {
        /// The overlay mount, whose ID was compared.
        mnt_id: u64,
        /// The layer index.
        layer: usize,
    },
    /// The layer opened last can be reused: the `O_PATH` fd of its root is the
    /// result.
    Reuse {
        /// The overlay mount it belongs to.
        mnt_id: u64,
        /// The layer index.
        layer: usize,
    },
    /// No mount can be reused.
    GiveUp,
}

/// The reply to a question; `None` stands for a failed call.
pub enum ReuseReply {
    /// The mount IDs.
    Mounts(Option<Vec<u64>>),
    /// What `statmount` said.
    Stat(Option<StatmountResult>),
    /// The unique ID of the opened mount.
    MountId(Option<u64>),
    /// The overlay layer counts.
    Layers(Option<OvlLayersInfo>),
    /// Whether the layer could be opened.
    LayerOpened(bool),
    /// The fs-verity digest of the image file behind the layer.
    Digest(Option<Vec<u8>>),
}

/// The model of a [`ReuseReply`].
pub enum Reply {
    /// The mount IDs.
    Mounts(Option<Seq<u64>>),
    /// What `statmount` said.
    Stat(Option<MountInfo>),
    /// The unique ID of the opened mount.
    MountId(Option<u64>),
    /// The overlay layer counts.
    Layers(Option<OvlLayersInfo>),
    /// Whether the layer could be opened.
    LayerOpened(bool),
    /// The measured digest.
    Digest(Option<Seq<u8>>),
}

impl View for ReuseReply {
    type V = Reply;

    open spec fn view(&self) -> Reply {
        match self {
            ReuseReply::Mounts(Some(ids)) => Reply::Mounts(Some(ids@)),
            ReuseReply::Mounts(None) => Reply::Mounts(None),
            ReuseReply::Stat(Some(info)) => Reply::Stat(Some(info@)),
            ReuseReply::Stat(None) => Reply::Stat(None),
            ReuseReply::MountId(id) => Reply::MountId(*id),
            ReuseReply::Layers(info) => Reply::Layers(*info),
            ReuseReply::LayerOpened(opened) => Reply::LayerOpened(*opened),
            ReuseReply::Digest(Some(digest)) => Reply::Digest(Some(digest@)),
            ReuseReply::Digest(None) => Reply::Digest(None),
        }
    }
}

impl View for ReuseAction<String> {
    type V = ReuseAction<Seq<char>>;

    open spec fn view(&self) -> ReuseAction<Seq<char>> {
        match self {
            ReuseAction::ListMounts => ReuseAction::ListMounts,
            ReuseAction::Stat { mnt_id, mask } => ReuseAction::Stat {
                mnt_id: *mnt_id,
                mask: *mask,
            },
            ReuseAction::Identify { path } => ReuseAction::Identify { path: path@ },
            ReuseAction::CountLayers { mnt_id } => ReuseAction::CountLayers { mnt_id: *mnt_id },
            ReuseAction::OpenLayer { mnt_id, layer } => ReuseAction::OpenLayer {
                mnt_id: *mnt_id,
                layer: *layer,
            },
            ReuseAction::MeasureLayer { mnt_id, layer } => ReuseAction::MeasureLayer {
                mnt_id: *mnt_id,
                layer: *layer,
            },
            ReuseAction::Reuse { mnt_id, layer } => ReuseAction::Reuse {
                mnt_id: *mnt_id,
                layer: *layer,
            },
            ReuseAction::GiveUp => ReuseAction::GiveUp,
        }
    }
}

/// Where the search stands.
pub enum ReusePhase<S> {
    /// The mount IDs are not known yet.
    Listing,
    /// Looking at the current mount.
    Inspecting,
    /// The current mount matches; which mount is at its path?
    Identifying {
        /// The absolute mount point.
        path: S,
    },
    /// What was opened belongs to the current mount; how many layers has it?
    Counting,
    /// About to open lower layer `layer` out of `1..=last`.
    Opening {
        /// The layer index.
        layer: usize,
        /// The last layer index.
        last: usize,
    },
    /// Lower layer `layer` is open.
    Measuring {
        /// The layer index.
        layer: usize,
        /// The last layer index.
        last: usize,
    },
    /// Layer `layer` of the current mount is reused.
    Found {
        /// The layer index.
        layer: usize,
    },
    /// There is nothing to reuse.
    Exhausted,
}

/// The model of a phase.
pub open spec fn phase_model(phase: ReusePhase<String>) -> ReusePhase<Seq<char>> {
    match phase {
        ReusePhase::Listing => ReusePhase::Listing,
        ReusePhase::Inspecting => ReusePhase::Inspecting,
        ReusePhase::Identifying { path } => ReusePhase::Identifying { path: path@ },
        ReusePhase::Counting => ReusePhase::Counting,
        ReusePhase::Opening { layer, last } => ReusePhase::Opening { layer, last },
        ReusePhase::Measuring { layer, last } => ReusePhase::Measuring { layer, last },
        ReusePhase::Found { layer } => ReusePhase::Found { layer },
        ReusePhase::Exhausted => ReusePhase::Exhausted,
    }
}

/// The abstract state of a search for a reusable mount.
pub struct Search {
    /// The mount source looked for.
    pub source: Seq<char>,
    /// The digest that the image must have.
    pub expected: Seq<u8>,
    /// The mounts to look at, in order.
    pub ids: Seq<u64>,
    /// The position of the current mount.
    pub at: int,
    /// The question that is open.
    pub phase: ReusePhase<Seq<char>>,
}

/// The fields that the search asks `statmount` for.
pub open spec fn reuse_mask() -> u64 {
    STATMOUNT_FS_TYPE | STATMOUNT_SB_SOURCE | STATMOUNT_MNT_POINT
}

/// The path at which a mount with the wanted source is mounted.
pub open spec fn candidate_path(info: MountInfo, source: Seq<char>) -> Option<Seq<char>> {
    if info.fs_type == Some("overlay"@) && info.sb_source == Some(source) {
        match info.mnt_point {
            Some(mount_point) => Some(absolute(mount_point)),
            None => None,
        }
    } else {
        None
    }
}

impl Search {
    /// The search that knows nothing yet.
    pub open spec fn start(image_name: Seq<char>, expected: Seq<u8>) -> Search {
        Search {
            source: source_of(image_name),
            expected,
            ids: Seq::empty(),
            at: 0,
            phase: ReusePhase::Listing,
        }
    }

    /// The search at the mount in position `at`.
    pub open spec fn at_mount(self, at: int) -> Search {
        Search {
            at,
            phase: if at < self.ids.len() {
                ReusePhase::Inspecting
            } else {
                ReusePhase::Exhausted
            },
            ..self
        }
    }

    /// The search at layer `layer` out of `1..=last` of the current mount.
    pub open spec fn at_layer(self, layer: int, last: usize) -> Search {
        if layer <= last {
            Search { phase: ReusePhase::Opening { layer: layer as usize, last }, ..self }
        } else {
            self.at_mount(self.at + 1)
        }
    }

    /// The search after a reply. A failed call gives up on the mount or layer it
    /// was about, except that a layer which cannot be opened ends the walk over
    /// the layers of its mount. A reply to another question changes nothing.
    pub open spec fn after(self, reply: Reply) -> Search {
        match (self.phase, reply) {
            (ReusePhase::Listing, Reply::Mounts(Some(ids))) => (Search { ids, ..self }).at_mount(0),
            (ReusePhase::Listing, Reply::Mounts(None)) => Search {
                phase: ReusePhase::Exhausted,
                ..self
            },
            (ReusePhase::Inspecting, Reply::Stat(info)) => {
                let path = match info {
                    Some(i) => candidate_path(i, self.source),
                    None => None,
                };
                match path {
                    Some(path) => Search { phase: ReusePhase::Identifying { path }, ..self },
                    None => self.at_mount(self.at + 1),
                }
            },
            (ReusePhase::Identifying { path }, Reply::MountId(id)) => if id == Some(
                self.ids[self.at],
            ) {
                Search { phase: ReusePhase::Counting, ..self }
            } else {
                self.at_mount(self.at + 1)
            },
            (ReusePhase::Counting, Reply::Layers(Some(info))) => self.at_layer(
                1,
                info.numlower as usize,
            ),
            (ReusePhase::Counting, Reply::Layers(None)) => self.at_mount(self.at + 1),
            (ReusePhase::Opening { layer, last }, Reply::LayerOpened(opened)) => if opened {
                Search { phase: ReusePhase::Measuring { layer, last }, ..self }
            } else {
                self.at_mount(self.at + 1)
            },
            (ReusePhase::Measuring { layer, last }, Reply::Digest(digest)) => if digest == Some(
                self.expected,
            ) {
                Search { phase: ReusePhase::Found { layer }, ..self }
            } else {
                self.at_layer(layer + 1, last)
            },
            _ => self,
        }
    }

    /// The question that is open, or the outcome.
    pub open spec fn action(self) -> ReuseAction<Seq<char>> {
        match self.phase {
            ReusePhase::Listing => ReuseAction::ListMounts,
            ReusePhase::Inspecting => ReuseAction::Stat {
                mnt_id: self.ids[self.at],
                mask: reuse_mask(),
            },
            ReusePhase::Identifying { path } => ReuseAction::Identify { path },
            ReusePhase::Counting => ReuseAction::CountLayers { mnt_id: self.ids[self.at] },
            ReusePhase::Opening { layer, last } => ReuseAction::OpenLayer {
                mnt_id: self.ids[self.at],
                layer,
            },
            ReusePhase::Measuring { layer, last } => ReuseAction::MeasureLayer {
                mnt_id: self.ids[self.at],
                layer,
            },
            ReusePhase::Found { layer } => ReuseAction::Reuse { mnt_id: self.ids[self.at], layer },
            ReusePhase::Exhausted => ReuseAction::GiveUp,
        }
    }
}

/// A search for an existing erofs mount of one image.
pub struct ReuseSearch {
    expected_source: String,
    expected_verity: Vec<u8>,
    ids: Vec<u64>,
    at: usize,
    phase: ReusePhase<String>,
}

impl View for ReuseSearch {
    type V = Search;

    closed spec fn view(&self) -> Search {
        Search {
            source: self.expected_source@,
            expected: self.expected_verity@,
            ids: self.ids@,
            at: self.at as int,
            phase: phase_model(self.phase),
        }
    }
}

/// Try to reuse an existing erofs mount for the given composefs image.
///
/// Looks for an overlay mount whose source is `composefs:{image_name}`, and in
/// it for the first lower layer whose backing image file has the fs-verity
/// digest `expected_verity`.
pub fn try_reuse(image_name: &str, expected_verity: &Vec<u8>) -> (search: ReuseSearch)
    ensures
        search@ == Search::start(image_name@, expected_verity@),
{
    ReuseSearch {
        expected_source: mount_source(image_name),
        expected_verity: expected_verity.clone(),
        ids: Vec::new(),
        at: 0,
        phase: ReusePhase::Listing,
    }
}

fn bytes_eq(a: &Vec<u8>, b: &Vec<u8>) -> (same: bool)
    ensures
        same == (a@ == b@),
{
    if a.len() != b.len() {
        return false;
    }
    let mut i: usize = 0;
    while i < a.len()
        invariant
            i <= a@.len() == b@.len(),
            forall|j: int| 0 <= j < i ==> a@[j] == b@[j],
        decreases a@.len() - i,
    {
        if a[i] != b[i] {
            return false;
        }
        i += 1;
    }
    assert(a@ =~= b@);
    true
}

impl ReuseSearch {
    /// The current mount exists in every phase that speaks of it.
    #[verifier::type_invariant]
    closed spec fn inv(self) -> bool {
        match self.phase {
            ReusePhase::Listing => self.at == 0,
            ReusePhase::Exhausted => true,
            ReusePhase::Opening { layer, last } => self.at < self.ids@.len() && layer <= last
                <= u32::MAX,
            ReusePhase::Measuring { layer, last } => self.at < self.ids@.len() && layer <= last
                <= u32::MAX,
            _ => self.at < self.ids@.len(),
        }
    }

    /// The question that is open, or the outcome of the search.
    pub fn action(&self) -> (action: ReuseAction<String>)
        ensures
            action@ == self@.action(),
    {
        proof {
            use_type_invariant(self);
        }
        match &self.phase {
            ReusePhase::Listing => ReuseAction::ListMounts,
            ReusePhase::Inspecting => ReuseAction::Stat {
                mnt_id: self.ids[self.at],
                mask: STATMOUNT_FS_TYPE | STATMOUNT_SB_SOURCE | STATMOUNT_MNT_POINT,
            },
            ReusePhase::Identifying { path } => ReuseAction::Identify { path: path.clone() },
            ReusePhase::Counting => ReuseAction::CountLayers { mnt_id: self.ids[self.at] },
            ReusePhase::Opening { layer, .. } => ReuseAction::OpenLayer {
                mnt_id: self.ids[self.at],
                layer: *layer,
            },
            ReusePhase::Measuring { layer, .. } => ReuseAction::MeasureLayer {
                mnt_id: self.ids[self.at],
                layer: *layer,
            },
            ReusePhase::Found { layer } => ReuseAction::Reuse {
                mnt_id: self.ids[self.at],
                layer: *layer,
            },
            ReusePhase::Exhausted => ReuseAction::GiveUp,
        }
    }

    fn at_mount(self, at: usize) -> (next: ReuseSearch)
        ensures
            next@ == self@.at_mount(at as int),
    {
        let phase = if at < self.ids.len() {
            ReusePhase::Inspecting
        } else {
            ReusePhase::Exhausted
        };
        ReuseSearch { at, phase, ..self }
    }

    fn at_layer(self, layer: usize, last: usize) -> (next: ReuseSearch)
        requires
            self@.at < self@.ids.len(),
            last <= u32::MAX,
        ensures
            next@ == self@.at_layer(layer as int, last),
    {
        if layer <= last {
            ReuseSearch { phase: ReusePhase::Opening { layer, last }, ..self }
        } else {
            self.next_mount()
        }
    }

    fn next_layer(self, layer: usize, last: usize) -> (next: ReuseSearch)
        requires
            self@.at < self@.ids.len(),
            last <= u32::MAX,
        ensures
            next@ == self@.at_layer(layer + 1, last),
    {
        if layer < last {
            self.at_layer(layer + 1, last)
        } else {
            self.next_mount()
        }
    }

    fn next_mount(self) -> (next: ReuseSearch)
        requires
            self@.at < self@.ids.len(),
        ensures
            next@ == self@.at_mount(self@.at + 1),
    {
        assert(self.ids.len() == self.ids@.len());
        let at: usize = self.at + 1;
        self.at_mount(at)
    }

    /// The path of a mount that is a candidate for reuse.
    fn candidate(&self, info: &StatmountResult) -> (path: Option<String>)
        ensures
            text::opt_text(path) == candidate_path(info@, self@.source),
    {
        if !is_overlay(info) {
            return None;
        }
        let matches_source: bool = match &info.sb_source {
            Some(source) => text::str_eq(source.as_str(), self.expected_source.as_str()),
            None => false,
        };
        if !matches_source {
            return None;
        }
        match &info.mnt_point {
            Some(mount_point) => Some(absolute_path(mount_point.as_str())),
            None => None,
        }
    }

    /// Takes in the reply to the open question.
    pub fn resume(self, reply: ReuseReply) -> (next: ReuseSearch)
        ensures
            next@ == self@.after(reply@),
    {
        proof {
            use_type_invariant(&self);
        }
        match reply {
            ReuseReply::Mounts(mounts) => match &self.phase {
                ReusePhase::Listing => match mounts {
                    Some(ids) => {
                        let known = ReuseSearch { ids, ..self };
                        known.at_mount(0)
                    },
                    None => ReuseSearch { phase: ReusePhase::Exhausted, ..self },
                },
                _ => self,
            },
            ReuseReply::Stat(info) => match &self.phase {
                ReusePhase::Inspecting => {
                    let path = match &info {
                        Some(info) => self.candidate(info),
                        None => None,
                    };
                    match path {
                        Some(path) => ReuseSearch { phase: ReusePhase::Identifying { path }, ..self },
                        None => self.next_mount(),
                    }
                },
                _ => self,
            },
            ReuseReply::MountId(id) => match &self.phase {
                ReusePhase::Identifying { .. } => {
                    let same: bool = match id {
                        Some(actual) => actual == self.ids[self.at],
                        None => false,
                    };
                    if same {
                        ReuseSearch { phase: ReusePhase::Counting, ..self }
                    } else {
                        self.next_mount()
                    }
                },
                _ => self,
            },
            ReuseReply::Layers(info) => match &self.phase {
                ReusePhase::Counting => match info {
                    Some(info) => self.at_layer(1, info.numlower as usize),
                    None => self.next_mount(),
                },
                _ => self,
            },
            ReuseReply::LayerOpened(opened) => match &self.phase {
                ReusePhase::Opening { layer, last } => if opened {
                    let (layer, last): (usize, usize) = (*layer, *last);
                    ReuseSearch { phase: ReusePhase::Measuring { layer, last }, ..self }
                } else {
                    self.next_mount()
                },
                _ => self,
            },
            ReuseReply::Digest(digest) => match &self.phase {
                ReusePhase::Measuring { layer, last } => {
                    let (layer, last): (usize, usize) = (*layer, *last);
                    let same: bool = match &digest {
                        Some(d) => bytes_eq(d, &self.expected_verity),
                        None => false,
                    };
                    if same {
                        ReuseSearch { phase: ReusePhase::Found { layer }, ..self }
                    } else {
                        self.next_layer(layer, last)
                    }
                },
                _ => self,
            },
        }
    }
}

/// A search under way, with what its caller holds on to.
pub struct ReuseRun {
    /// The search.
    pub search: Search,
    /// What `statmount` said last, and of which mount.
    pub inspected: Option<(u64, MountInfo)>,
    /// The mount that what was opened by its path belongs to.
    pub held: Option<u64>,
}

impl ReuseRun {
    /// A search that is about to begin.
    pub open spec fn start(image_name: Seq<char>, expected: Seq<u8>) -> ReuseRun {
        ReuseRun { search: Search::start(image_name, expected), inspected: None, held: None }
    }

    /// The run after a reply. Only [`ReuseAction::Identify`] opens anything by its
    /// path.
    pub open spec fn after(self, reply: Reply) -> ReuseRun {
        ReuseRun {
            search: self.search.after(reply),
            inspected: match (self.search.phase, reply) {
                (ReusePhase::Inspecting, Reply::Stat(Some(info))) => Some(
                    (self.search.ids[self.search.at], info),
                ),
                _ => self.inspected,
            },
            held: match (self.search.phase, reply) {
                (ReusePhase::Identifying { .. }, Reply::MountId(id)) => id,
                _ => self.held,
            },
        }
    }

    /// The run after some replies, whatever they are.
    pub open spec fn after_all(self, replies: Seq<Reply>) -> ReuseRun
        decreases replies.len(),
    {
        if replies.len() == 0 {
            self
        } else {
            self.after_all(replies.drop_last()).after(replies.last())
        }
    }

    /// Whether what is held on to belongs to the mount `id`, and that mount is the
    /// one that was looked at last: an overlay with the wanted source.
    pub open spec fn holds(self, id: u64) -> bool {
        &&& self.held == Some(id)
        &&& self.inspected matches Some((inspected, info)) && inspected == id && candidate_path(
            info,
            self.search.source,
        ) is Some
    }

    spec fn inv(self) -> bool {
        let s = self.search;
        let id = s.ids[s.at];
        match s.phase {
            ReusePhase::Identifying { path } => self.inspected matches Some((inspected, info))
                && inspected == id && candidate_path(info, s.source) is Some,
            ReusePhase::Counting => self.holds(id),
            ReusePhase::Opening { .. } => self.holds(id),
            ReusePhase::Measuring { .. } => self.holds(id),
            ReusePhase::Found { .. } => self.holds(id),
            _ => true,
        }
    }

    proof fn lemma_inv(image_name: Seq<char>, expected: Seq<u8>, replies: Seq<Reply>)
        ensures
            ReuseRun::start(image_name, expected).after_all(replies).inv(),
            ReuseRun::start(image_name, expected).after_all(replies).search.source == source_of(
                image_name,
            ),
        decreases replies.len(),
    {
        if replies.len() > 0 {
            ReuseRun::lemma_inv(image_name, expected, replies.drop_last());
        }
    }
}

/// Whatever the replies are, and whatever is mounted at the path by then: layers
/// are only asked for, and only reused, if what is held on to belongs to the mount
/// they are said to belong to, which is one that was looked at and found to be an
/// overlay of the image.
pub proof fn layers_belong_to_the_compared_mount(
    image_name: Seq<char>,
    expected: Seq<u8>,
    replies: Seq<Reply>,
)
    ensures
        ({
            let run = ReuseRun::start(image_name, expected).after_all(replies);
            &&& run.search.source == source_of(image_name)
            &&& match run.search.action() {
                ReuseAction::CountLayers { mnt_id } => run.holds(mnt_id),
                ReuseAction::OpenLayer { mnt_id, .. } => run.holds(mnt_id),
                ReuseAction::MeasureLayer { mnt_id, .. } => run.holds(mnt_id),
                ReuseAction::Reuse { mnt_id, .. } => run.holds(mnt_id),
                _ => true,
            }
        }),
{
    ReuseRun::lemma_inv(image_name, expected, replies);
}

/// The answers that a search would get. Mounts may come and go while it runs, so
/// what is at a path depends on which mount of the list is being looked at; the
/// path is opened once for each. A mount that is held on to keeps its layers.
pub struct Namespace {
    /// The mounts, in the order in which they are listed.
    pub mounts: Option<Seq<u64>>,
    /// What `statmount` says of a mount.
    pub info: spec_fn(u64) -> Option<MountInfo>,
    /// Which mount is at a path when the mount in a position of the list is being
    /// looked at.
    pub mount_at: spec_fn(int, Seq<char>) -> Option<u64>,
    /// The layer counts of an overlay mount.
    pub layers: spec_fn(u64) -> Option<OvlLayersInfo>,
    /// Whether a layer of an overlay mount can be opened.
    pub opens: spec_fn(u64, usize) -> bool,
    /// The digest of the image file behind a layer of an overlay mount.
    pub digest: spec_fn(u64, usize) -> Option<Seq<u8>>,
}

impl Namespace {
    /// The mounts that are looked at, in order.
    pub open spec fn listed(self) -> Seq<u64> {
        match self.mounts {
            Some(mounts) => mounts,
            None => Seq::empty(),
        }
    }

    /// The path at which the mount `id` claims to show the wanted source.
    pub open spec fn path(self, source: Seq<char>, id: u64) -> Option<Seq<char>> {
        match (self.info)(id) {
            Some(info) => candidate_path(info, source),
            None => None,
        }
    }

    /// Layer `layer` of the mount in position `at` can be reused: the mount is an
    /// overlay with the wanted source and is the one found at its mount point, the
    /// layer and all before it can be opened, and its image has the wanted digest.
    pub open spec fn reusable(
        self,
        source: Seq<char>,
        expected: Seq<u8>,
        at: int,
        layer: usize,
    ) -> bool {
        let id = self.listed()[at];
        &&& self.path(source, id) matches Some(path)
        &&& (self.mount_at)(at, path) == Some(id)
        &&& (self.layers)(id) matches Some(info)
        &&& 1 <= layer <= info.numlower
        &&& forall|j: usize| 1 <= j <= layer ==> #[trigger] (self.opens)(id, j)
        &&& (self.digest)(id, layer) == Some(expected)
    }

    /// The answer to the open question of a search. Layers are those of the mount
    /// that is held on to.
    pub open spec fn answer(self, run: ReuseRun) -> Reply {
        let s = run.search;
        match s.phase {
            ReusePhase::Listing => Reply::Mounts(self.mounts),
            ReusePhase::Inspecting => Reply::Stat((self.info)(s.ids[s.at])),
            ReusePhase::Identifying { path } => Reply::MountId((self.mount_at)(s.at, path)),
            ReusePhase::Counting => Reply::Layers(
                match run.held {
                    Some(id) => (self.layers)(id),
                    None => None,
                },
            ),
            ReusePhase::Opening { layer, last } => Reply::LayerOpened(
                run.held matches Some(id) && (self.opens)(id, layer),
            ),
            ReusePhase::Measuring { layer, last } => Reply::Digest(
                match run.held {
                    Some(id) => (self.digest)(id, layer),
                    None => None,
                },
            ),
            ReusePhase::Found { layer } => Reply::LayerOpened(true),
            ReusePhase::Exhausted => Reply::LayerOpened(true),
        }
    }

    /// The run after all questions have been answered.
    pub open spec fn settle(self, run: ReuseRun) -> ReuseRun
        decreases
                run.search.stage(),
                run.search.ids.len() - run.search.at,
                run.search.question(),
                run.search.layers_left(),
                run.search.half(),
        when run.search.well_formed()
    {
        if run.search.phase is Found || run.search.phase is Exhausted {
            run
        } else {
            proof {
                self.lemma_progress(run);
            }
            self.settle(run.after(self.answer(run)))
        }
    }

    /// Every answer brings the search closer to its end.
    pub proof fn lemma_progress(self, run: ReuseRun)
        requires
            run.search.well_formed(),
            !(run.search.phase is Found || run.search.phase is Exhausted),
        ensures
            ({
                let s = run.search;
                let t = run.after(self.answer(run)).search;
                &&& t.well_formed()
                &&& decreases_to!(
                    s.stage(), s.ids.len() - s.at, s.question(), s.layers_left(), s.half() =>
                    t.stage(), t.ids.len() - t.at, t.question(), t.layers_left(), t.half()
                )
            }),
    {
    }
}

impl Search {
    /// The current mount and layer exist in every phase that speaks of them.
    pub open spec fn well_formed(self) -> bool {
        match self.phase {
            ReusePhase::Listing => true,
            ReusePhase::Found { layer } => true,
            ReusePhase::Exhausted => true,
            ReusePhase::Opening { layer, last } => 0 <= self.at < self.ids.len() && layer <= last,
            ReusePhase::Measuring { layer, last } => 0 <= self.at < self.ids.len() && layer <= last,
            _ => 0 <= self.at < self.ids.len(),
        }
    }

    /// Whether the mounts still have to be listed, or are being walked.
    pub open spec fn stage(self) -> int {
        match self.phase {
            ReusePhase::Listing => 2,
            ReusePhase::Found { layer } => 0,
            ReusePhase::Exhausted => 0,
            _ => 1,
        }
    }

    /// How many kinds of questions the current mount is away from its layers.
    pub open spec fn question(self) -> int {
        match self.phase {
            ReusePhase::Inspecting => 3,
            ReusePhase::Identifying { path } => 2,
            ReusePhase::Counting => 1,
            _ => 0,
        }
    }

    /// How many layers of the current mount come after the current one.
    pub open spec fn layers_left(self) -> int {
        match self.phase {
            ReusePhase::Opening { layer, last } => last - layer,
            ReusePhase::Measuring { layer, last } => last - layer,
            _ => 0,
        }
    }

    /// Whether the current layer still has to be opened.
    pub open spec fn half(self) -> int {
        if self.phase is Opening {
            1
        } else {
            0
        }
    }
}

/// Nothing that the search has passed could have been reused, and what it has
/// learnt of the current mount agrees with the namespace.
spec fn consistent(ns: Namespace, run: ReuseRun) -> bool {
    let s = run.search;
    let id = s.ids[s.at];
    &&& s.well_formed()
    &&& s.phase !is Listing
    &&& s.ids == ns.listed()
    &&& 0 <= s.at
    &&& forall|i: int, l: usize|
        0 <= i < s.at && i < s.ids.len() ==> !#[trigger] ns.reusable(s.source, s.expected, i, l)
    &&& match s.phase {
        ReusePhase::Identifying { path } => ns.path(s.source, id) == Some(path),
        ReusePhase::Counting => compared(ns, run),
        ReusePhase::Opening { layer, last } => walking(ns, run, layer, last),
        ReusePhase::Measuring { layer, last } => walking(ns, run, layer, last) && (ns.opens)(
            id,
            layer,
        ),
        ReusePhase::Found { layer } => s.at < s.ids.len() && ns.reusable(
            s.source,
            s.expected,
            s.at,
            layer,
        ) && forall|l: usize| l < layer ==> !#[trigger] ns.reusable(s.source, s.expected, s.at, l),
        ReusePhase::Exhausted => s.at >= s.ids.len(),
        _ => true,
    }
}

/// The current mount is the one that is held on to.
spec fn compared(ns: Namespace, run: ReuseRun) -> bool {
    let s = run.search;
    let id = s.ids[s.at];
    &&& run.held == Some(id)
    &&& ns.path(s.source, id) matches Some(path)
    &&& (ns.mount_at)(s.at, path) == Some(id)
}

/// The layers before `layer` can be opened and do not have the wanted digest.
spec fn walking(ns: Namespace, run: ReuseRun, layer: usize, last: usize) -> bool {
    let s = run.search;
    let id = s.ids[s.at];
    &&& 1 <= layer <= last
    &&& compared(ns, run)
    &&& (ns.layers)(id) matches Some(info)
    &&& last == info.numlower
    &&& forall|j: usize|
        1 <= j < layer ==> #[trigger] (ns.opens)(id, j) && (ns.digest)(id, j) != Some(s.expected)
}

proof fn lemma_step_consistent(ns: Namespace, run: ReuseRun)
    requires
        consistent(ns, run),
        !(run.search.phase is Found || run.search.phase is Exhausted),
    ensures
        consistent(ns, run.after(ns.answer(run))),
{
    let s = run.search;
    let id = s.ids[s.at];
    let t = run.after(ns.answer(run)).search;
    match s.phase {
        ReusePhase::Opening { layer, last } => {
            if !(ns.opens)(id, layer) {
                assert forall|l: usize| !#[trigger] ns.reusable(s.source, s.expected, s.at, l) by {
                    if l < layer && l >= 1 {
                        assert((ns.opens)(id, l));
                    }
                }
            }
        },
        ReusePhase::Measuring { layer, last } => {
            if (ns.digest)(id, layer) == Some(s.expected) {
                assert forall|l: usize| l < layer implies !#[trigger] ns.reusable(
                    s.source,
                    s.expected,
                    s.at,
                    l,
                ) by {
                    if l >= 1 {
                        assert((ns.opens)(id, l));
                    }
                }
                assert forall|j: usize| 1 <= j <= layer implies #[trigger] (ns.opens)(id, j) by {}
                assert(ns.reusable(s.source, s.expected, s.at, layer));
            } else if layer == last {
                assert forall|l: usize| !#[trigger] ns.reusable(s.source, s.expected, s.at, l) by {
                    if 1 <= l < layer {
                        assert((ns.opens)(id, l));
                    }
                }
            }
        },
        _ => {
            if t.at == s.at + 1 {
                assert forall|l: usize| !#[trigger] ns.reusable(s.source, s.expected, s.at, l) by {}
            }
        },
    }
}

proof fn lemma_settle_consistent(ns: Namespace, run: ReuseRun)
    requires
        consistent(ns, run),
    ensures
        ({
            let end = ns.settle(run);
            &&& consistent(ns, end)
            &&& end.search.phase is Found || end.search.phase is Exhausted
            &&& end.search.source == run.search.source
            &&& end.search.expected == run.search.expected
        }),
    decreases
            run.search.stage(),
            run.search.ids.len() - run.search.at,
            run.search.question(),
            run.search.layers_left(),
            run.search.half(),
{
    if !(run.search.phase is Found || run.search.phase is Exhausted) {
        ns.lemma_progress(run);
        lemma_step_consistent(ns, run);
        lemma_settle_consistent(ns, run.after(ns.answer(run)));
    }
}

/// The search ends, and it finds the first layer of the first mount that can be
/// reused: what it settles on is reusable, nothing that comes before is, and it
/// gives up only where nothing is.
pub proof fn try_reuse_finds_the_first(ns: Namespace, image_name: Seq<char>, expected: Seq<u8>)
    ensures
        ({
            let end = ns.settle(ReuseRun::start(image_name, expected)).search;
            let source = source_of(image_name);
            match end.action() {
                ReuseAction::Reuse { mnt_id, layer } => {
                    &&& 0 <= end.at < ns.listed().len()
                    &&& mnt_id == ns.listed()[end.at]
                    &&& ns.reusable(source, expected, end.at, layer)
                    &&& forall|l: usize|
                        l < layer ==> !#[trigger] ns.reusable(source, expected, end.at, l)
                    &&& forall|i: int, l: usize|
                        0 <= i < end.at ==> !#[trigger] ns.reusable(source, expected, i, l)
                },
                ReuseAction::GiveUp => forall|i: int, l: usize|
                    0 <= i < ns.listed().len() ==> !#[trigger] ns.reusable(source, expected, i, l),
                _ => false,
            }
        }),
{
    let run = ReuseRun::start(image_name, expected);
    ns.lemma_progress(run);
    let next = run.after(ns.answer(run));
    assert(ns.settle(run) == ns.settle(next));
    assert(consistent(ns, next));
    lemma_settle_consistent(ns, next);
}

/// The source of an overlay mount is `composefs:` and the name of the image, and a mount
/// with another source shows no image, or another one.
pub proof fn source_is_the_prefixed_name(image_name: Seq<char>, source: Seq<char>)
    ensures
        source_of(image_name) == "composefs:"@ + image_name,
        image_of("composefs:"@ + image_name) == Some(image_name),
        image_of(source) matches Some(name) ==> source == "composefs:"@ + name,
{
    text::prefix_is_what_is_cut_off("composefs:"@, image_name, source);
    text::prefix_is_what_is_cut_off("composefs:"@, image_name, "composefs:"@ + image_name);
}

/// The fields that are asked for: file system type, source and mount point.
pub proof fn fields_are_asked_for_by_their_bits()
    ensures
        reuse_mask() == 0x230,
        STATMOUNT_FS_TYPE == 0x20,
        STATMOUNT_SB_SOURCE == 0x200,
        STATMOUNT_MNT_POINT == 0x10,
        STATMOUNT_FS_TYPE | STATMOUNT_SB_SOURCE == 0x220,
{
    assert(0x20u64 | 0x200u64 | 0x10u64 == 0x230u64) by (bit_vector);
    assert(0x20u64 | 0x200u64 == 0x220u64) by (bit_vector);
}

/// An image counts as mounted exactly if a mount that could be looked at is an overlay
/// with the source of that image.
pub proof fn mounted_images_are_those_of_overlays(scan: Seq<Option<MountInfo>>, name: Seq<char>)
    ensures
        mounted_images(scan).contains(name) <==> exists|i: int|
            0 <= i < scan.len() && (#[trigger] scan[i] matches Some(info) && info.fs_type == Some(
                "overlay"@,
            ) && info.sb_source == Some("composefs:"@ + name)),
{
    if mounted_images(scan).contains(name) {
        let i = choose|i: int|
            #![trigger scan[i]]
            0 <= i < scan.len() && scan[i] is Some && shown_image(scan[i]->Some_0) == Some(name);
        let source = scan[i]->Some_0.sb_source->Some_0;
        source_is_the_prefixed_name(name, source);
        assert(scan[i] matches Some(info) && info.sb_source == Some("composefs:"@ + name));
    }
    if exists|i: int|
        0 <= i < scan.len() && (#[trigger] scan[i] matches Some(info) && info.fs_type == Some(
            "overlay"@,
        ) && info.sb_source == Some("composefs:"@ + name)) {
        let i = choose|i: int|
            0 <= i < scan.len() && (#[trigger] scan[i] matches Some(info) && info.fs_type == Some(
                "overlay"@,
            ) && info.sb_source == Some("composefs:"@ + name));
        source_is_the_prefixed_name(name, "composefs:"@ + name);
        assert(scan[i] is Some && shown_image(scan[i]->Some_0) == Some(name));
    }
}

/// A scan keeps what was said of every mount, in its place; a failed scan has nothing.
pub proof fn scan_models_are_faithful(v: Vec<Option<StatmountResult>>, i: int)
    ensures
        scan_model(None).len() == 0,
        scan_model(Some(v)).len() == v@.len(),
        0 <= i < v@.len() ==> match v@[i] {
            Some(info) => scan_model(Some(v))[i] == Some(info@),
            None => scan_model(Some(v))[i] is None,
        },
{
}

/// Whether one search goes on from where another one stood with the next mount, or gives
/// up if there is none.
pub open spec fn moves_on(from: Search, to: Search) -> bool {
    &&& to.ids == from.ids
    &&& to.source == from.source
    &&& to.expected == from.expected
    &&& to.at == from.at + 1
    &&& to.action() == if from.at + 1 < from.ids.len() {
        ReuseAction::<Seq<char>>::Stat { mnt_id: from.ids[from.at + 1], mask: 0x230 }
    } else {
        ReuseAction::GiveUp
    }
}

/// Whether one search asks something else about the same mount as another one.
pub open spec fn stays_at_the_mount(from: Search, to: Search) -> bool {
    &&& to.ids == from.ids
    &&& to.source == from.source
    &&& to.expected == from.expected
    &&& to.at == from.at
}

/// A search starts with a list of the mounts, and looks at the first of them; without
/// one it gives up.
pub proof fn search_begins_with_the_first_mount(
    image_name: Seq<char>,
    expected: Seq<u8>,
    ids: Seq<u64>,
)
    ensures
        ({
            let start = Search::start(image_name, expected);
            let listed = start.after(Reply::Mounts(Some(ids)));
            &&& start.action() is ListMounts
            &&& start.after(Reply::Mounts(None)).action() is GiveUp
            &&& listed.source == "composefs:"@ + image_name
            &&& listed.expected == expected
            &&& listed.ids == ids
            &&& listed.at == 0
            &&& listed.action() == if ids.len() > 0 {
                ReuseAction::<Seq<char>>::Stat { mnt_id: ids[0], mask: 0x230 }
            } else {
                ReuseAction::GiveUp
            }
        }),
{
    fields_are_asked_for_by_their_bits();
}

/// A mount that was looked at is opened at its mount point exactly if it is an overlay
/// with the wanted source that has one: as it is if it starts with a slash, or else
/// after a slash. Any other mount is passed over.
pub proof fn overlays_of_the_image_are_opened(s: Search, info: Option<MountInfo>, m: Seq<char>)
    requires
        s.phase is Inspecting,
    ensures
        ({
            let t = s.after(Reply::Stat(info));
            let wanted = info matches Some(i) && i.fs_type == Some("overlay"@) && i.sb_source
                == Some(s.source) && i.mnt_point is Some;
            &&& !wanted ==> moves_on(s, t)
            &&& wanted && info->Some_0.mnt_point == Some("/"@ + m) ==> stays_at_the_mount(s, t)
                && t.action() == (ReuseAction::<Seq<char>>::Identify { path: "/"@ + m })
            &&& wanted && info->Some_0.mnt_point == Some(m) && (m.len() == 0 || m[0] != '/')
                ==> stays_at_the_mount(s, t) && t.action() == (ReuseAction::<
                Seq<char>,
            >::Identify { path: "/"@ + m })
        }),
{
    reveal_strlit("/");
    fields_are_asked_for_by_their_bits();
    assert(("/"@ + m)[0] == '/');
}

/// Only a mount that was opened under its own ID is looked into; its layers are walked
/// from the first to the last, one that cannot be opened ends the walk, and the first
/// with the wanted digest is reused.
pub proof fn layers_are_walked_in_order(
    s: Search,
    id: Option<u64>,
    layers: Option<OvlLayersInfo>,
    opened: bool,
    digest: Option<Seq<u8>>,
)
    ensures
        s.phase is Identifying ==> {
            let t = s.after(Reply::MountId(id));
            if id == Some(s.ids[s.at]) {
                stays_at_the_mount(s, t) && t.action() == (ReuseAction::<
                    Seq<char>,
                >::CountLayers { mnt_id: s.ids[s.at] })
            } else {
                moves_on(s, t)
            }
        },
        s.phase is Counting ==> {
            let t = s.after(Reply::Layers(layers));
            if layers matches Some(l) && l.numlower >= 1 {
                &&& stays_at_the_mount(s, t)
                &&& t.action() == (ReuseAction::<Seq<char>>::OpenLayer {
                    mnt_id: s.ids[s.at],
                    layer: 1,
                })
                &&& t.phase == (ReusePhase::<Seq<char>>::Opening {
                    layer: 1,
                    last: layers->Some_0.numlower as usize,
                })
            } else {
                moves_on(s, t)
            }
        },
        s.phase matches ReusePhase::Opening { layer, last } ==> {
            let t = s.after(Reply::LayerOpened(opened));
            if opened {
                &&& stays_at_the_mount(s, t)
                &&& t.action() == (ReuseAction::<Seq<char>>::MeasureLayer {
                    mnt_id: s.ids[s.at],
                    layer,
                })
                &&& t.phase == (ReusePhase::<Seq<char>>::Measuring { layer, last })
            } else {
                moves_on(s, t)
            }
        },
        s.phase matches ReusePhase::Measuring { layer, last } ==> {
            let t = s.after(Reply::Digest(digest));
            if digest == Some(s.expected) {
                &&& stays_at_the_mount(s, t)
                &&& t.action() == (ReuseAction::<Seq<char>>::Reuse { mnt_id: s.ids[s.at], layer })
            } else if layer < last {
                &&& stays_at_the_mount(s, t)
                &&& t.action() == (ReuseAction::<Seq<char>>::OpenLayer {
                    mnt_id: s.ids[s.at],
                    layer: (layer + 1) as usize,
                })
                &&& t.phase == (ReusePhase::<Seq<char>>::Opening {
                    layer: (layer + 1) as usize,
                    last,
                })
            } else {
                moves_on(s, t)
            }
        },
{
    fields_are_asked_for_by_their_bits();
}

/// A search that has ended stays as it is.
pub proof fn ended_search_stays(s: Search, reply: Reply)
    ensures
        s.phase is Found || s.phase is Exhausted ==> s.after(reply) == s,
{
}

/// A listed overlay with the source of the image that is found at its mount point under
/// its own ID, with a lower layer of the expected digest that can be opened like all
/// before it, makes the search end with a layer to reuse: that one, or one that comes
/// before it. An absolute mount point is opened as it is, any other after a slash.
pub proof fn mount_of_the_image_is_reused(
    ns: Namespace,
    image_name: Seq<char>,
    expected: Seq<u8>,
    ids: Seq<u64>,
    at: int,
    info: MountInfo,
    mount_point: Seq<char>,
    path: Seq<char>,
    layers: OvlLayersInfo,
    layer: usize,
)
    requires
        ns.mounts == Some(ids),
        0 <= at < ids.len(),
        (ns.info)(ids[at]) == Some(info),
        info.fs_type == Some("overlay"@),
        info.sb_source == Some("composefs:"@ + image_name),
        info.mnt_point == Some(mount_point),
        mount_point.len() > 0 && mount_point[0] == '/' ==> path == mount_point,
        mount_point.len() == 0 || mount_point[0] != '/' ==> path == "/"@ + mount_point,
        (ns.mount_at)(at, path) == Some(ids[at]),
        (ns.layers)(ids[at]) == Some(layers),
        1 <= layer <= layers.numlower,
        forall|j: usize| 1 <= j <= layer ==> #[trigger] (ns.opens)(ids[at], j),
        (ns.digest)(ids[at], layer) == Some(expected),
    ensures
        ({
            let end = ns.settle(ReuseRun::start(image_name, expected)).search;
            end.action() matches ReuseAction::Reuse { mnt_id, layer: l } && 0 <= end.at <= at
                && mnt_id == ids[end.at] && (end.at == at ==> 1 <= l <= layer)
        }),
{
    try_reuse_finds_the_first(ns, image_name, expected);
    let end = ns.settle(ReuseRun::start(image_name, expected)).search;
    assert(ns.reusable(source_of(image_name), expected, at, layer));
    if let ReuseAction::Reuse { mnt_id, layer: l } = end.action() {
        if end.at > at {
            assert(!ns.reusable(source_of(image_name), expected, at, layer));
        } else if end.at == at && l > layer {
            assert(!ns.reusable(source_of(image_name), expected, end.at, layer));
        }
    }
}

/// What is reused belongs to a listed overlay with the source of the image that was
/// found at its mount point under its own ID, and has the expected digest.
pub proof fn only_mounts_of_the_image_are_reused(
    ns: Namespace,
    image_name: Seq<char>,
    expected: Seq<u8>,
)
    ensures
        ({
            let end = ns.settle(ReuseRun::start(image_name, expected)).search;
            end.action() matches ReuseAction::Reuse { mnt_id, layer } ==> {
                &&& ns.mounts matches Some(ids) && 0 <= end.at < ids.len() && ids[end.at] == mnt_id
                &&& (ns.info)(mnt_id) matches Some(info) && info.fs_type == Some("overlay"@)
                    && info.sb_source == Some("composefs:"@ + image_name) && (info.mnt_point
                    matches Some(m) && (ns.mount_at)(
                    end.at,
                    if m.len() > 0 && m[0] == '/' {
                        m
                    } else {
                        "/"@ + m
                    },
                ) == Some(mnt_id))
                &&& (ns.layers)(mnt_id) matches Some(layers) && 1 <= layer <= layers.numlower
                &&& (ns.opens)(mnt_id, layer)
                &&& (ns.digest)(mnt_id, layer) == Some(expected)
            }
        }),
{
    try_reuse_finds_the_first(ns, image_name, expected);
}

/// The models of questions and replies have what these have.
pub proof fn reuse_models_are_faithful(action: ReuseAction<String>, reply: ReuseReply)
    ensures
        match (action, action@) {
            (ReuseAction::ListMounts, ReuseAction::ListMounts) => true,
            (
                ReuseAction::Stat { mnt_id, mask },
                ReuseAction::Stat { mnt_id: i, mask: m },
            ) => i == mnt_id && m == mask,
            (ReuseAction::Identify { path }, ReuseAction::Identify { path: p }) => p == path@,
            (
                ReuseAction::CountLayers { mnt_id },
                ReuseAction::CountLayers { mnt_id: i },
            ) => i == mnt_id,
            (
                ReuseAction::OpenLayer { mnt_id, layer },
                ReuseAction::OpenLayer { mnt_id: i, layer: l },
            ) => i == mnt_id && l == layer,
            (
                ReuseAction::MeasureLayer { mnt_id, layer },
                ReuseAction::MeasureLayer { mnt_id: i, layer: l },
            ) => i == mnt_id && l == layer,
            (
                ReuseAction::Reuse { mnt_id, layer },
                ReuseAction::Reuse { mnt_id: i, layer: l },
            ) => i == mnt_id && l == layer,
            (ReuseAction::GiveUp, ReuseAction::GiveUp) => true,
            _ => false,
        },
        match (reply, reply@) {
            (ReuseReply::Mounts(Some(ids)), Reply::Mounts(model)) => model == Some(ids@),
            (ReuseReply::Mounts(None), Reply::Mounts(model)) => model is None,
            (ReuseReply::Stat(Some(info)), Reply::Stat(model)) => model == Some(info@),
            (ReuseReply::Stat(None), Reply::Stat(model)) => model is None,
            (ReuseReply::MountId(id), Reply::MountId(model)) => model == id,
            (ReuseReply::Layers(info), Reply::Layers(model)) => model == info,
            (ReuseReply::LayerOpened(b), Reply::LayerOpened(model)) => model == b,
            (ReuseReply::Digest(Some(d)), Reply::Digest(model)) => model == Some(d@),
            (ReuseReply::Digest(None), Reply::Digest(model)) => model is None,
            _ => false,
        },
{
}

/// Whether a reply is to the question that is open.
pub open spec fn answers(action: ReuseAction<Seq<char>>, reply: Reply) -> bool {
    match (action, reply) {
        (ReuseAction::ListMounts, Reply::Mounts(_)) => true,
        (ReuseAction::Stat { .. }, Reply::Stat(_)) => true,
        (ReuseAction::Identify { .. }, Reply::MountId(_)) => true,
        (ReuseAction::CountLayers { .. }, Reply::Layers(_)) => true,
        (ReuseAction::OpenLayer { .. }, Reply::LayerOpened(_)) => true,
        (ReuseAction::MeasureLayer { .. }, Reply::Digest(_)) => true,
        _ => false,
    }
}

/// A reply to another question than the one that is open leaves a search as it is.
pub proof fn other_replies_change_nothing(s: Search, reply: Reply)
    requires
        !answers(s.action(), reply),
    ensures
        s.after(reply) == s,
{
}

} // verus!

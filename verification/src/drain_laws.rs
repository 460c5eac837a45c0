//! What a whole drain does, given the stream and the files it refers to.
use vstd::prelude::*;
use vstd::utf8::*;

use crate::digest;
use crate::drain;
use crate::drain::{
    Drain, DrainAction, DrainError, DrainEvent, DrainPhase, FileKind, FileStat, VerifiedDrainError,
};
use crate::layer_sync;
use crate::layer_sync::{Chunk, ContentAction, Segment};
use crate::stats::{ImportStats, ObjectStoreMethod};
use crate::INLINE_CONTENT_MAX_V0;

verus! {

/// Everything that a drain meets: the stream, the directories and files behind
/// it, and the object store it writes to.
pub struct LayerSource {
    /// The chunks of the stream.
    pub stream: Seq<Chunk<Seq<u8>>>,
    /// What `fstat` says of a directory slot.
    pub dir_stat: spec_fn(u32) -> FileStat,
    /// The mode of a file in a slot.
    pub file_mode: spec_fn(u32, Seq<char>) -> u32,
    /// The content of a file in a slot.
    pub file: spec_fn(u32, Seq<char>) -> Seq<u8>,
    /// How many bytes a read at an offset yields, within what was asked for.
    pub read_len: spec_fn(u64, usize) -> usize,
    /// The object that content is stored as.
    pub store: spec_fn(Seq<u8>) -> Seq<u8>,
    /// How content is stored, depending on whether zero-copy is insisted on.
    pub store_method: spec_fn(Seq<u8>, bool) -> ObjectStoreMethod,
    /// The content of an object.
    pub objects: spec_fn(Seq<u8>) -> Seq<u8>,
}

/// A drain under way.
pub struct DrainRun {
    /// The drain.
    pub drain: Drain,
    /// How many times the stream has been read.
    pub at: int,
    /// The content of the file opened last.
    pub open: Seq<u8>,
}

impl DrainRun {
    /// Whether the drain has ended.
    pub open spec fn ended(self) -> bool {
        self.drain.phase is Drained || self.drain.phase is Failed
    }
}

impl LayerSource {
    /// What a read of `want` bytes at `offset` yields: at least one byte before
    /// the end of the file, and never more than was asked for.
    pub open spec fn read(self, open: Seq<u8>, offset: u64, want: usize) -> Seq<u8> {
        let asked = (self.read_len)(offset, want) as int;
        let n = if asked < 1 {
            1
        } else if asked > want {
            want as int
        } else {
            asked
        };
        if offset + n <= open.len() {
            open.subrange(offset as int, offset + n)
        } else if offset < open.len() {
            open.skip(offset as int)
        } else {
            Seq::empty()
        }
    }

    /// One round: the drain asks, and is answered.
    pub open spec fn step(self, run: DrainRun) -> DrainRun {
        let d = run.drain;
        match d.action() {
            DrainAction::NextChunk => DrainRun {
                drain: d.after(
                    DrainEvent::Chunk(
                        if 0 <= run.at < self.stream.len() {
                            Some(self.stream[run.at])
                        } else {
                            None
                        },
                    ),
                ),
                at: run.at + 1,
                ..run
            },
            DrainAction::StatDir { dirfd_index } => DrainRun {
                drain: d.after(DrainEvent::DirStat((self.dir_stat)(dirfd_index))),
                ..run
            },
            DrainAction::OpenFile { dirfd_index, name } => {
                let content = (self.file)(dirfd_index, name);
                DrainRun {
                    drain: d.after(
                        DrainEvent::Opened(
                            FileStat {
                                mode: (self.file_mode)(dirfd_index, name),
                                size: content.len() as u64,
                            },
                        ),
                    ),
                    open: content,
                    ..run
                }
            },
            DrainAction::HashFile { offset, want } => DrainRun {
                drain: d.after(DrainEvent::Read(self.read(run.open, offset, want))),
                ..run
            },
            DrainAction::StoreFile(ContentAction::ReadInline { size }) => DrainRun {
                drain: d.after(
                    DrainEvent::Content(
                        if size <= run.open.len() {
                            run.open.take(size as int)
                        } else {
                            run.open
                        },
                    ),
                ),
                ..run
            },
            DrainAction::StoreFile(ContentAction::StoreObject { size, zerocopy }) => DrainRun {
                drain: d.after(
                    DrainEvent::Stored {
                        id: (self.store)(run.open),
                        method: (self.store_method)(run.open, zerocopy),
                    },
                ),
                ..run
            },
            DrainAction::StoreBytes { data } => DrainRun {
                drain: d.after(
                    DrainEvent::Stored {
                        id: (self.store)(data),
                        method: (self.store_method)(data, false),
                    },
                ),
                ..run
            },
            DrainAction::Commit => run,
            DrainAction::Fail(_) => run,
        }
    }

    /// The run after `n` rounds.
    pub open spec fn steps(self, run: DrainRun, n: nat) -> DrainRun
        decreases n,
    {
        if n == 0 {
            run
        } else {
            self.steps(self.step(run), (n - 1) as nat)
        }
    }

    /// A run that is about to begin.
    pub open spec fn begin(
        self,
        diff_id: Seq<char>,
        dirs: usize,
        zerocopy: bool,
        verify: bool,
    ) -> DrainRun {
        DrainRun {
            drain: Drain::start(diff_id, dirs, zerocopy, verify),
            at: 0,
            open: Seq::empty(),
        }
    }

    /// The files of the slots, by the name that stands in the stream.
    pub open spec fn files(self) -> spec_fn(u32, Seq<u8>) -> Seq<u8> {
        |slot: u32, name: Seq<u8>| (self.file)(slot, decode_utf8(name))
    }

    /// The bytes of one chunk.
    pub open spec fn bytes(self, chunk: Chunk<Seq<u8>>) -> Seq<u8> {
        layer_sync::chunk_bytes(chunk, self.files())
    }

    /// The bytes of the layer that the stream stands for.
    pub open spec fn layer(self) -> Seq<u8> {
        layer_sync::reconstructed(self.stream, self.files())
    }

    /// Whether a chunk refers to what it claims to: a regular file of the
    /// declared length, in a directory that is there.
    pub open spec fn sound(self, chunk: Chunk<Seq<u8>>, dirs: usize) -> bool {
        match chunk {
            Chunk::Metadata(_) => true,
            Chunk::InlineData(_) => true,
            Chunk::FileBackedData { dirfd_index, length, filename } => {
                let name = decode_utf8(filename);
                &&& valid_utf8(filename)
                &&& dirfd_index < dirs
                &&& drain::kind_of_mode((self.dir_stat)(dirfd_index).mode) == FileKind::Directory
                &&& drain::kind_of_mode((self.file_mode)(dirfd_index, name))
                    == FileKind::RegularFile
                &&& (self.file)(dirfd_index, name).len() == length
            },
        }
    }

    /// What a drain that verifies has against a chunk that is not sound.
    pub open spec fn complaint(self, chunk: Chunk<Seq<u8>>, dirs: usize) -> DrainError<
        Seq<char>,
        Seq<u8>,
    > {
        match chunk {
            Chunk::FileBackedData { dirfd_index, length, filename } => {
                let name = decode_utf8(filename);
                let dir = (self.dir_stat)(dirfd_index);
                let mode = (self.file_mode)(dirfd_index, name);
                let kind = drain::kind_of_mode(mode);
                if !valid_utf8(filename) {
                    DrainError::NonUtf8Filename { filename }
                } else if dirfd_index >= dirs {
                    DrainError::DirfdOutOfRange { dirfd_index, count: dirs }
                } else if drain::kind_of_mode(dir.mode) != FileKind::Directory {
                    drain::not_a_directory(dir, dirfd_index, name)
                } else if kind != FileKind::RegularFile {
                    DrainError::NotARegularFile { name, slot: dirfd_index, kind, mode }
                } else {
                    DrainError::LengthMismatch {
                        name,
                        declared: length,
                        actual: (self.file)(dirfd_index, name).len() as u64,
                    }
                }
            },
            _ => arbitrary(),
        }
    }

    /// Whether a drain failed because of the chunk at `k`, the first that is not
    /// sound.
    pub open spec fn failed_at(self, end: DrainRun, dirs: usize, k: int) -> bool {
        &&& 0 <= k < self.stream.len()
        &&& !self.sound(self.stream[k], dirs)
        &&& forall|i: int| 0 <= i < k ==> self.sound(#[trigger] self.stream[i], dirs)
        &&& end.drain.phase == DrainPhase::<Seq<char>, Seq<u8>>::Failed(
            VerifiedDrainError::Other(self.complaint(self.stream[k], dirs)),
        )
    }

    /// Whether every chunk is sound.
    pub open spec fn all_sound(self, dirs: usize) -> bool {
        forall|i: int| 0 <= i < self.stream.len() ==> self.sound(#[trigger] self.stream[i], dirs)
    }

    /// The size of file content is one that `fstat` can report, and what is stored
    /// as an object can be read back.
    pub open spec fn valid(self) -> bool {
        forall|i: int|
            0 <= i < self.stream.len() && !((#[trigger] self.stream[i]) is Metadata) ==> {
                let content = self.bytes(self.stream[i]);
                &&& content.len() <= u64::MAX
                &&& content.len() > INLINE_CONTENT_MAX_V0 ==> (self.objects)((self.store)(content))
                    == content
            }
    }

    /// What a sound chunk becomes in the splitstream.
    pub open spec fn segment(self, chunk: Chunk<Seq<u8>>) -> Segment<Seq<u8>, Seq<u8>> {
        let content = self.bytes(chunk);
        if chunk is Metadata || content.len() <= INLINE_CONTENT_MAX_V0 {
            Segment::Inline(content)
        } else {
            Segment::External { id: (self.store)(content), size: content.len() as u64 }
        }
    }

    /// What a stream of sound chunks becomes.
    pub open spec fn segments(self) -> Seq<Segment<Seq<u8>, Seq<u8>>> {
        self.stream.map_values(|chunk: Chunk<Seq<u8>>| self.segment(chunk))
    }

    /// The counters after a sound chunk.
    pub open spec fn count(
        self,
        stats: ImportStats,
        chunk: Chunk<Seq<u8>>,
        zerocopy: bool,
    ) -> ImportStats {
        let content = self.bytes(chunk);
        if chunk is Metadata || content.len() <= INLINE_CONTENT_MAX_V0 {
            stats.with_inline(content.len() as int)
        } else {
            let method = (self.store_method)(content, zerocopy && chunk is FileBackedData);
            stats.with_object(method, content.len() as int)
        }
    }

    /// The counters after the first `k` chunks, all of them sound.
    pub open spec fn counters(self, zerocopy: bool, k: int) -> ImportStats
        decreases k,
    {
        if k <= 0 {
            ImportStats::zero()
        } else {
            self.count(self.counters(zerocopy, k - 1), self.stream[k - 1], zerocopy)
        }
    }

    /// Where the drain stands after the first `k` chunks, all of them sound.
    pub open spec fn midway(self, start: Drain, run: DrainRun, k: int) -> bool {
        &&& run.at == k
        &&& run.drain.phase is Reading
        &&& run.drain.diff_id == start.diff_id
        &&& run.drain.dirs == start.dirs
        &&& run.drain.zerocopy == start.zerocopy
        &&& run.drain.written == self.segments().take(k)
        &&& run.drain.stats == self.counters(start.zerocopy, k)
        &&& run.drain.hashed == match start.hashed {
            Some(_) => Some(layer_sync::reconstructed(self.stream.take(k), self.files())),
            None => None,
        }
    }

    proof fn lemma_steps_add(self, run: DrainRun, m: nat, n: nat)
        ensures
            self.steps(run, m + n) == self.steps(self.steps(run, m), n),
        decreases m,
    {
        if m > 0 {
            self.lemma_steps_add(self.step(run), (m - 1) as nat, n);
            assert((m + n - 1) as nat == ((m - 1) as nat) + n);
        }
    }

    proof fn lemma_few_steps(self, run: DrainRun)
        ensures
            self.steps(run, 1) == self.step(run),
            self.steps(run, 2) == self.step(self.step(run)),
            self.steps(run, 3) == self.step(self.step(self.step(run))),
    {
        reveal_with_fuel(LayerSource::steps, 4);
    }

    proof fn lemma_hashing(self, run: DrainRun, name: Seq<char>, length: u64, offset: u64) -> (n:
        nat)
        requires
            run.drain.phase == (DrainPhase::<Seq<char>, Seq<u8>>::Hashing { name, length, offset }),
            run.open.len() == length,
            offset < length,
            run.drain.hashed is Some,
        ensures
            self.steps(run, n) == (DrainRun {
                drain: run.drain.hash(run.open.skip(offset as int)).at(
                    DrainPhase::Storing { length },
                ),
                ..run
            }),
        decreases length - offset,
    {
        self.lemma_few_steps(run);
        let next = self.step(run);
        let want = drain::hash_want(length, offset) as usize;
        let data = self.read(run.open, offset, want);
        assert(0 < data.len() <= want);
        assert(data =~= run.open.subrange(offset as int, offset + data.len()));
        let h = run.drain.hashed.unwrap();
        if offset + data.len() < length {
            let further = (offset + data.len()) as u64;
            let m = self.lemma_hashing(next, name, length, further);
            self.lemma_steps_add(run, 1, m);
            assert(h + data + run.open.skip(further as int) =~= h + run.open.skip(offset as int));
            1 + m
        } else {
            assert(data =~= run.open.skip(offset as int));
            1
        }
    }

    proof fn lemma_chunk(self, start: Drain, run: DrainRun) -> (n: nat)
        requires
            0 <= run.at < self.stream.len(),
            self.midway(start, run, run.at),
            self.valid(),
        ensures
            self.sound(self.stream[run.at], start.dirs) ==> self.midway(
                start,
                self.steps(run, n),
                run.at + 1,
            ),
            !self.sound(self.stream[run.at], start.dirs) && start.hashed is Some ==> self.steps(
                run,
                n,
            ).drain.phase == DrainPhase::<Seq<char>, Seq<u8>>::Failed(
                VerifiedDrainError::Other(self.complaint(self.stream[run.at], start.dirs)),
            ),
    {
        let k = run.at;
        let chunk = self.stream[k];
        let content = self.bytes(chunk);
        let before = layer_sync::reconstructed(self.stream.take(k), self.files());
        assert(self.stream.take(k + 1).drop_last() =~= self.stream.take(k));
        assert(layer_sync::reconstructed(self.stream.take(k + 1), self.files()) == before + content);
        assert(self.segments().take(k + 1) =~= self.segments().take(k).push(self.segment(chunk)));
        self.lemma_few_steps(run);
        let first = self.step(run);
        match chunk {
            Chunk::Metadata(data) => 1,
            Chunk::InlineData(data) => if data.len() <= INLINE_CONTENT_MAX_V0 {
                1
            } else {
                2
            },
            Chunk::FileBackedData { dirfd_index, length, filename } => {
                let name = decode_utf8(filename);
                let opened = self.step(self.step(first));
                if !valid_utf8(filename) || dirfd_index >= start.dirs {
                    1
                } else if drain::kind_of_mode((self.dir_stat)(dirfd_index).mode)
                    != FileKind::Directory {
                    2
                } else if !self.sound(chunk, start.dirs) {
                    3
                } else {
                    assert(opened.open == content);
                    assert(content.take(length as int) =~= content);
                    self.lemma_few_steps(opened);
                    if start.hashed is Some && length > 0 {
                        let m = self.lemma_hashing(opened, name, length, 0);
                        assert(content.skip(0) =~= content);
                        self.lemma_few_steps(self.steps(opened, m));
                        self.lemma_steps_add(run, 3, m);
                        self.lemma_steps_add(run, 3 + m, 1);
                        3 + m + 1
                    } else {
                        assert(length == 0 ==> before + content =~= before);
                        self.lemma_steps_add(run, 3, 1);
                        4
                    }
                }
            },
        }
    }

    proof fn lemma_chunks(self, start: Drain, run: DrainRun, k: int) -> (n: nat)
        requires
            0 <= k <= self.stream.len(),
            self.midway(start, run, 0),
            self.valid(),
            forall|i: int|
                0 <= i < k ==> self.sound(#[trigger] self.stream[i], start.dirs),
        ensures
            self.midway(start, self.steps(run, n), k),
        decreases k,
    {
        if k == 0 {
            0
        } else {
            let m = self.lemma_chunks(start, run, k - 1);
            let mid = self.steps(run, m);
            let n = self.lemma_chunk(start, mid);
            self.lemma_steps_add(run, m, n);
            m + n
        }
    }

    proof fn lemma_cat(self, k: int)
        requires
            self.valid(),
            0 <= k <= self.stream.len(),
        ensures
            layer_sync::cat(self.segments().take(k), self.objects) == layer_sync::reconstructed(
                self.stream.take(k),
                self.files(),
            ),
        decreases k,
    {
        if k > 0 {
            self.lemma_cat(k - 1);
            assert(self.segments().take(k).drop_last() =~= self.segments().take(k - 1));
            assert(self.stream.take(k).drop_last() =~= self.stream.take(k - 1));
            assert(self.stream.take(k).last() == self.stream[k - 1]);
        }
    }

    proof fn lemma_end(self, diff_id: Seq<char>, dirs: usize, zerocopy: bool, verify: bool) -> (n:
        nat)
        requires
            self.valid(),
            self.all_sound(dirs),
        ensures
            ({
                let begun = self.begin(diff_id, dirs, zerocopy, verify);
                let before = self.steps(begun, n);
                &&& self.midway(begun.drain, before, self.stream.len() as int)
                &&& self.steps(begun, n + 1) == self.step(before)
                &&& before.drain.written == self.segments()
                &&& before.drain.stats == self.counters(zerocopy, self.stream.len() as int)
                &&& layer_sync::cat(before.drain.written, self.objects) == self.layer()
                &&& verify ==> before.drain.hashed == Some(self.layer())
            }),
    {
        let begun = self.begin(diff_id, dirs, zerocopy, verify);
        assert(self.segments().take(0) =~= Seq::empty());
        assert(self.stream.take(0) =~= Seq::empty());
        let len = self.stream.len() as int;
        let n = self.lemma_chunks(begun.drain, begun, len);
        self.lemma_steps_add(begun, n, 1);
        self.lemma_few_steps(self.steps(begun, n));
        self.lemma_cat(len);
        assert(self.segments().take(len) =~= self.segments());
        assert(self.stream.take(len) =~= self.stream);
        n
    }
}

/// A verified drain commits a layer exactly if every chunk of the stream is
/// sound and the bytes that the stream stands for hash to the declared diff-id.
/// What it commits then reads back as those very bytes. If the bytes hash to
/// something else, the drain says so; if a chunk is not sound, it fails for the
/// first that is not, and says why.
pub proof fn verified_drain_commits_the_declared_layer(
    source: LayerSource,
    diff_id: Seq<char>,
    dirs: usize,
    zerocopy: bool,
) -> (n: nat)
    requires
        source.valid(),
    ensures
        ({
            let end = source.steps(source.begin(diff_id, dirs, zerocopy, true), n);
            let actual = digest::content_digest(source.layer());
            if !source.all_sound(dirs) {
                exists|k: int| source.failed_at(end, dirs, k)
            } else if actual != diff_id {
                end.drain.phase == DrainPhase::<Seq<char>, Seq<u8>>::Failed(
                    VerifiedDrainError::DiffIdMismatch { expected: diff_id, actual },
                )
            } else {
                &&& end.drain.phase is Drained
                &&& end.drain.hashed == Some(source.layer())
                &&& end.drain.written == source.segments()
                &&& end.drain.stats == source.counters(zerocopy, source.stream.len() as int)
                &&& layer_sync::cat(end.drain.written, source.objects) == source.layer()
            }
        }),
{
    let begun = source.begin(diff_id, dirs, zerocopy, true);
    if source.all_sound(dirs) {
        source.lemma_end(diff_id, dirs, zerocopy, true) + 1
    } else {
        let some = choose|i: int|
            0 <= i < source.stream.len() && !source.sound(#[trigger] source.stream[i], dirs);
        let k = source.lemma_first_unsound(dirs, some);
        assert(source.segments().take(0) =~= Seq::empty());
        assert(source.stream.take(0) =~= Seq::empty());
        let m = source.lemma_chunks(begun.drain, begun, k);
        let n = source.lemma_chunk(begun.drain, source.steps(begun, m));
        source.lemma_steps_add(begun, m, n);
        assert(source.failed_at(source.steps(begun, m + n), dirs, k));
        m + n
    }
}

/// A drain without verification of a stream of sound chunks commits a layer that
/// reads back as the bytes the stream stands for.
pub proof fn drain_commits_the_layer(
    source: LayerSource,
    diff_id: Seq<char>,
    dirs: usize,
    zerocopy: bool,
) -> (n: nat)
    requires
        source.valid(),
        source.all_sound(dirs),
    ensures
        ({
            let end = source.steps(source.begin(diff_id, dirs, zerocopy, false), n);
            &&& end.drain.phase is Drained
            &&& end.drain.written == source.segments()
            &&& end.drain.stats == source.counters(zerocopy, source.stream.len() as int)
            &&& layer_sync::cat(end.drain.written, source.objects) == source.layer()
        }),
{
    source.lemma_end(diff_id, dirs, zerocopy, false) + 1
}

/// Verifying the content only adds the check: draining a stream of sound chunks
/// that stands for the declared layer writes the same entries and counts the same
/// with and without it.
pub proof fn verification_changes_nothing_else(
    source: LayerSource,
    diff_id: Seq<char>,
    dirs: usize,
    zerocopy: bool,
) -> (rounds: (nat, nat))
    requires
        source.valid(),
        source.all_sound(dirs),
        diff_id == digest::content_digest(source.layer()),
    ensures
        ({
            let verified = source.steps(source.begin(diff_id, dirs, zerocopy, true), rounds.0);
            let plain = source.steps(source.begin(diff_id, dirs, zerocopy, false), rounds.1);
            &&& verified.drain.phase is Drained
            &&& plain.drain.phase is Drained
            &&& verified.drain.written == plain.drain.written
            &&& verified.drain.stats == plain.drain.stats
            &&& verified.drain.diff_id == plain.drain.diff_id
        }),
{
    let n = source.lemma_end(diff_id, dirs, zerocopy, true) + 1;
    let m = source.lemma_end(diff_id, dirs, zerocopy, false) + 1;
    (n, m)
}

/// It does not matter how file content travels: a stream in which a file is
/// referred to and one in which its bytes are sent along become the same layer.
pub proof fn transport_does_not_matter(
    source: LayerSource,
    other: LayerSource,
    diff_id: Seq<char>,
    dirs: usize,
    zerocopy: bool,
    verify: bool,
) -> (rounds: (nat, nat))
    requires
        source.valid(),
        other.valid(),
        source.all_sound(dirs),
        other.all_sound(dirs),
        source.store == other.store,
        source.stream.len() == other.stream.len(),
        forall|i: int|
            0 <= i < source.stream.len() ==> {
                &&& source.bytes(#[trigger] source.stream[i]) == other.bytes(other.stream[i])
                &&& source.stream[i] is Metadata == other.stream[i] is Metadata
            },
    ensures
        ({
            let one = source.steps(source.begin(diff_id, dirs, zerocopy, verify), rounds.0);
            let two = other.steps(other.begin(diff_id, dirs, zerocopy, verify), rounds.1);
            &&& one.ended() && two.ended()
            &&& one.drain.phase == two.drain.phase
            &&& one.drain.written == two.drain.written
        }),
{
    let n = source.lemma_end(diff_id, dirs, zerocopy, verify) + 1;
    let m = other.lemma_end(diff_id, dirs, zerocopy, verify) + 1;
    assert(source.segments() =~= other.segments());
    lemma_same_bytes(source, other, source.stream.len() as int);
    let len = source.stream.len() as int;
    assert(source.stream.take(len) =~= source.stream);
    assert(other.stream.take(len) =~= other.stream);
    (n, m)
}

proof fn lemma_same_bytes(source: LayerSource, other: LayerSource, k: int)
    requires
        0 <= k <= source.stream.len() == other.stream.len(),
        forall|i: int|
            0 <= i < source.stream.len() ==> source.bytes(#[trigger] source.stream[i])
                == other.bytes(other.stream[i]),
    ensures
        layer_sync::reconstructed(source.stream.take(k), source.files())
            == layer_sync::reconstructed(other.stream.take(k), other.files()),
    decreases k,
{
    if k > 0 {
        lemma_same_bytes(source, other, k - 1);
        assert(source.stream.take(k).drop_last() =~= source.stream.take(k - 1));
        assert(other.stream.take(k).drop_last() =~= other.stream.take(k - 1));
        assert(source.bytes(source.stream[k - 1]) == other.bytes(other.stream[k - 1]));
    }
}

/// A drain that has ended stays as it is.
pub proof fn ended_drain_stays(source: LayerSource, run: DrainRun, n: nat)
    requires
        run.ended(),
    ensures
        source.steps(run, n) == run,
    decreases n,
{
    if n > 0 {
        ended_drain_stays(source, run, (n - 1) as nat);
    }
}

/// Producing a stream for a layer and draining it, with the objects directory in
/// the agreed slot, yields the layer itself, entry by entry. Verifying the bytes
/// of the layer against their own digest on the way changes nothing.
pub proof fn produce_then_drain_is_the_layer(
    source: LayerSource,
    layer: Seq<Segment<Seq<u8>, Seq<u8>>>,
    objects_dirfd_index: u32,
    diff_id: Seq<char>,
    dirs: usize,
    zerocopy: bool,
    verify: bool,
) -> (n: nat)
    requires
        verify ==> diff_id == digest::content_digest(layer_sync::cat(layer, source.objects)),
        source.stream == layer_sync::produced(layer, objects_dirfd_index),
        objects_dirfd_index < dirs,
        drain::kind_of_mode((source.dir_stat)(objects_dirfd_index).mode) == FileKind::Directory,
        forall|i: int|
            0 <= i < layer.len() ==> (#[trigger] layer[i] matches Segment::External { id, size }
                ==> source.holds(objects_dirfd_index, id, size)),
    ensures
        ({
            let end = source.steps(source.begin(diff_id, dirs, zerocopy, verify), n);
            &&& end.drain.phase is Drained
            &&& end.drain.written == layer
        }),
{
    assert forall|i: int| 0 <= i < source.stream.len() implies {
        &&& source.sound(#[trigger] source.stream[i], dirs)
        &&& source.stream[i] is FileBackedData ==> {
            let content = source.bytes(source.stream[i]);
            content.len() <= u64::MAX && (source.objects)((source.store)(content)) == content
        }
        &&& source.segment(source.stream[i]) == layer[i]
    } by {
        match layer[i] {
            Segment::Inline(data) => {},
            Segment::External { id, size } => {
                encode_utf8_valid_utf8(digest::object_path(id));
                encode_utf8_decode_utf8(digest::object_path(id));
            },
        }
    }
    assert(source.segments() =~= layer);
    if verify {
        source.lemma_cat(layer.len() as int);
        assert(source.segments().take(layer.len() as int) =~= layer);
        assert(source.stream.take(layer.len() as int) =~= source.stream);
        verified_drain_commits_the_declared_layer(source, diff_id, dirs, zerocopy)
    } else {
        drain_commits_the_layer(source, diff_id, dirs, zerocopy)
    }
}

impl LayerSource {
    /// Whether an object of `size` bytes, too large to be stored inline, lies in
    /// the objects directory of a slot and is stored under the same identifier
    /// here.
    pub open spec fn holds(self, slot: u32, id: Seq<u8>, size: u64) -> bool {
        let content = (self.file)(slot, digest::object_path(id));
        &&& size > INLINE_CONTENT_MAX_V0
        &&& content.len() == size
        &&& drain::kind_of_mode((self.file_mode)(slot, digest::object_path(id)))
            == FileKind::RegularFile
        &&& (self.store)(content) == id
        &&& (self.objects)(id) == content
    }

    proof fn lemma_first_unsound(self, dirs: usize, k: int) -> (first: int)
        requires
            0 <= k < self.stream.len(),
            !self.sound(self.stream[k], dirs),
        ensures
            0 <= first <= k,
            !self.sound(self.stream[first], dirs),
            forall|i: int| 0 <= i < first ==> self.sound(#[trigger] self.stream[i], dirs),
        decreases k,
    {
        if exists|i: int| 0 <= i < k && !self.sound(#[trigger] self.stream[i], dirs) {
            let i = choose|i: int| 0 <= i < k && !self.sound(#[trigger] self.stream[i], dirs);
            self.lemma_first_unsound(dirs, i)
        } else {
            k
        }
    }
}

/// How many bytes a splitstream holds inline.
pub open spec fn inline_bytes(written: Seq<Segment<Seq<u8>, Seq<u8>>>) -> nat
    decreases written.len(),
{
    if written.len() == 0 {
        0
    } else {
        inline_bytes(written.drop_last()) + match written.last() {
            Segment::Inline(data) => data.len(),
            Segment::External { .. } => 0,
        }
    }
}

/// How many objects a splitstream refers to, counting repetitions.
pub open spec fn external_count(written: Seq<Segment<Seq<u8>, Seq<u8>>>) -> nat
    decreases written.len(),
{
    if written.len() == 0 {
        0
    } else {
        external_count(written.drop_last()) + match written.last() {
            Segment::Inline(_) => 0nat,
            Segment::External { .. } => 1,
        }
    }
}

/// Whether the counters of a drain tell what it has written.
pub open spec fn counted(d: Drain) -> bool {
    &&& d.stats.bytes_inlined == inline_bytes(d.written)
    &&& d.stats.objects() == external_count(d.written)
    &&& d.stats.layers == 0
    &&& d.stats.layers_already_present == 0
}

/// The counters of a drain tell what it has written, at every moment: the bytes
/// it embedded, and one object for every reference. They count no layers.
pub proof fn drain_counts_what_it_writes(
    diff_id: Seq<char>,
    dirs: usize,
    zerocopy: bool,
    verify: bool,
    d: Drain,
    event: DrainEvent<Seq<u8>, Seq<u8>>,
)
    ensures
        counted(Drain::start(diff_id, dirs, zerocopy, verify)),
        counted(d) && d.fits(event) ==> counted(d.after(event)),
{
    let next = d.after(event);
    if next.written.len() > d.written.len() {
        assert(next.written.drop_last() =~= d.written);
    }
}

/// A drain that insists on zero-copy storage does so for every file that it opens,
/// from its start to its end; one that does not never does.
pub proof fn drain_keeps_zerocopy(
    diff_id: Seq<char>,
    dirs: usize,
    zerocopy: bool,
    verify: bool,
    d: Drain,
    event: DrainEvent<Seq<u8>, Seq<u8>>,
)
    ensures
        Drain::start(diff_id, dirs, zerocopy, verify).zerocopy == zerocopy,
        d.after(event).zerocopy == d.zerocopy,
        d.action() matches DrainAction::StoreFile(ContentAction::StoreObject { size, zerocopy: z })
            ==> z == d.zerocopy,
{
}

/// A directory slot is only looked at when a chunk names it, and a file is only
/// opened in it once it is known to be a directory. So slots that no chunk names
/// may hold anything.
pub proof fn drain_touches_only_named_slots(d: Drain, event: DrainEvent<Seq<u8>, Seq<u8>>)
    ensures
        !(d.phase is CheckingDir) ==> (d.after(event).phase matches DrainPhase::CheckingDir {
            dirfd_index,
            length,
            name,
        } ==> dirfd_index < d.dirs && exists|filename: Seq<u8>|
            {
                &&& #[trigger] valid_utf8(filename)
                &&& name == decode_utf8(filename)
                &&& event == DrainEvent::<Seq<u8>, Seq<u8>>::Chunk(
                    Some(Chunk::FileBackedData { dirfd_index, length, filename }),
                )
            }),
        !(d.phase is Opening) ==> (d.after(event).phase matches DrainPhase::Opening {
            dirfd_index,
            length,
            name,
        } ==> {
            &&& d.phase == (DrainPhase::<Seq<char>, Seq<u8>>::CheckingDir {
                dirfd_index,
                length,
                name,
            })
            &&& event matches DrainEvent::DirStat(stat) && drain::kind_of_mode(stat.mode)
                == FileKind::Directory
        }),
{
}

impl LayerSource {
    /// Whether a chunk of the stream names a slot.
    pub open spec fn names(self, slot: u32) -> bool {
        exists|i: int|
            0 <= i < self.stream.len() && (#[trigger] self.stream[i] matches Chunk::FileBackedData {
                dirfd_index,
                length,
                filename,
            } && dirfd_index == slot)
    }

    /// Whether two sources differ at most in the slots that no chunk names.
    pub open spec fn same_where_named(self, other: LayerSource) -> bool {
        &&& self.stream == other.stream
        &&& self.read_len == other.read_len
        &&& self.store == other.store
        &&& self.store_method == other.store_method
        &&& forall|slot: u32| #[trigger]
            self.names(slot) ==> (self.dir_stat)(slot) == (other.dir_stat)(slot)
        &&& forall|slot: u32, name: Seq<char>|
            #![trigger (self.file)(slot, name)]
            #![trigger (self.file_mode)(slot, name)]
            self.names(slot) ==> {
                &&& (self.file)(slot, name) == (other.file)(slot, name)
                &&& (self.file_mode)(slot, name) == (other.file_mode)(slot, name)
            }
    }

    /// Whether the slot that is being looked at is one that a chunk names.
    spec fn at_named(self, run: DrainRun) -> bool {
        match run.drain.phase {
            DrainPhase::CheckingDir { dirfd_index, length, name } => self.names(dirfd_index),
            DrainPhase::Opening { dirfd_index, length, name } => self.names(dirfd_index),
            _ => true,
        }
    }

    proof fn lemma_same_step(self, other: LayerSource, run: DrainRun)
        requires
            self.same_where_named(other),
            self.at_named(run),
        ensures
            self.step(run) == other.step(run),
            self.at_named(self.step(run)),
    {
        if run.drain.phase is Reading && 0 <= run.at < self.stream.len() {
            if let Chunk::FileBackedData { dirfd_index, length, filename } = self.stream[run.at] {
                assert(self.names(dirfd_index));
            }
        }
    }

    proof fn lemma_same_steps(self, other: LayerSource, run: DrainRun, n: nat)
        requires
            self.same_where_named(other),
            self.at_named(run),
        ensures
            self.steps(run, n) == other.steps(run, n),
        decreases n,
    {
        if n > 0 {
            self.lemma_same_step(other, run);
            self.lemma_same_steps(other, self.step(run), (n - 1) as nat);
        }
    }
}

/// What lies in slots that no chunk names never matters: with anything else in
/// them, a drain takes the same course, round by round.
pub proof fn slots_that_no_chunk_names_do_not_matter(
    source: LayerSource,
    other: LayerSource,
    diff_id: Seq<char>,
    dirs: usize,
    zerocopy: bool,
    verify: bool,
    n: nat,
)
    requires
        source.same_where_named(other),
    ensures
        source.steps(source.begin(diff_id, dirs, zerocopy, verify), n) == other.steps(
            other.begin(diff_id, dirs, zerocopy, verify),
            n,
        ),
{
    source.lemma_same_steps(other, source.begin(diff_id, dirs, zerocopy, verify), n);
}

/// Whether a drain has gone on to another thing to do and has otherwise stayed as it was.
pub open spec fn only_turned(d: Drain, next: Drain) -> bool {
    &&& same_layer(d, next)
    &&& next.hashed == d.hashed
    &&& next.stats == d.stats
    &&& next.written == d.written
}

/// Whether two drains are of the same layer, with the same slots and the same insistence
/// on zero-copy storage.
pub open spec fn same_layer(d: Drain, next: Drain) -> bool {
    &&& next.diff_id == d.diff_id
    &&& next.dirs == d.dirs
    &&& next.zerocopy == d.zerocopy
}

/// Whether exactly `data` went into the hash, if there is one.
pub open spec fn absorbs(d: Drain, next: Drain, data: Seq<u8>) -> bool {
    match (d.hashed, next.hashed) {
        (Some(before), Some(after)) => after == before + data,
        (None, None) => true,
        _ => false,
    }
}

/// Whether exactly `data` was embedded, and counted as embedded.
pub open spec fn embeds(d: Drain, next: Drain, data: Seq<u8>) -> bool {
    &&& next.written.len() == d.written.len() + 1
    &&& next.written.drop_last() == d.written
    &&& next.written.last() == Segment::<Seq<u8>, Seq<u8>>::Inline(data)
    &&& d.stats.bytes_inlined + data.len() <= u64::MAX ==> next.stats == (ImportStats {
        bytes_inlined: (d.stats.bytes_inlined + data.len()) as u64,
        ..d.stats
    })
}

/// Whether exactly one object was referred to, and counted by how it was stored.
pub open spec fn refers(
    d: Drain,
    next: Drain,
    id: Seq<u8>,
    size: int,
    method: ObjectStoreMethod,
) -> bool {
    &&& next.written.len() == d.written.len() + 1
    &&& next.written.drop_last() == d.written
    &&& next.written.last() matches Segment::External { id: to, size: of }
    &&& to == id
    &&& of == size
    &&& next.stats == d.stats.with_object(method, size)
}

/// How the open file is stored: embedded up to 64 bytes, as an object beyond.
pub open spec fn stores_file(
    action: DrainAction<Seq<char>, Seq<u8>>,
    length: u64,
    zerocopy: bool,
) -> bool {
    match action {
        DrainAction::StoreFile(ContentAction::ReadInline { size }) => length <= 64 && size
            == length,
        DrainAction::StoreFile(ContentAction::StoreObject { size, zerocopy: insist }) => length > 64
            && size == length && insist == zerocopy,
        _ => false,
    }
}

/// Whether the open file is read on at `offset`: what is left of it, but at most 65536
/// bytes at once.
pub open spec fn reads_on(
    action: DrainAction<Seq<char>, Seq<u8>>,
    length: u64,
    offset: int,
) -> bool {
    action matches DrainAction::HashFile { offset: at, want } && at == offset && want == if length
        - offset < 65536 {
        length - offset
    } else {
        65536
    }
}

/// A drain begins by reading the stream, with nothing written, counted or hashed.
pub proof fn drain_begins_with_the_stream(
    diff_id: Seq<char>,
    dirs: usize,
    zerocopy: bool,
    verify: bool,
)
    ensures
        ({
            let d = Drain::start(diff_id, dirs, zerocopy, verify);
            &&& d.phase is Reading
            &&& d.diff_id == diff_id
            &&& d.dirs == dirs
            &&& d.zerocopy == zerocopy
            &&& d.hashed is Some <==> verify
            &&& d.hashed matches Some(h) ==> h.len() == 0
            &&& d.written.len() == 0
            &&& d.stats.bytes_inlined == 0
            &&& d.stats.objects_reflinked == 0
            &&& d.stats.objects_hardlinked == 0
            &&& d.stats.objects_copied == 0
            &&& d.stats.objects_already_present == 0
            &&& d.stats.bytes_reflinked == 0
            &&& d.stats.bytes_hardlinked == 0
            &&& d.stats.bytes_copied == 0
            &&& d.stats.layers == 0
            &&& d.stats.layers_already_present == 0
        }),
{
}

/// Metadata is embedded whatever its size, file content up to 64 bytes; longer file
/// content is to be stored as an object. Either goes into the hash as it stands.
pub proof fn stream_content_is_written(d: Drain, data: Seq<u8>)
    requires
        d.phase is Reading,
    ensures
        d.action() is NextChunk,
        ({
            let next = d.after(DrainEvent::Chunk(Some(Chunk::Metadata(data))));
            &&& next.phase is Reading
            &&& same_layer(d, next)
            &&& absorbs(d, next, data)
            &&& embeds(d, next, data)
        }),
        ({
            let next = d.after(DrainEvent::Chunk(Some(Chunk::InlineData(data))));
            &&& same_layer(d, next)
            &&& absorbs(d, next, data)
            &&& data.len() <= 64 ==> next.phase is Reading && embeds(d, next, data)
            &&& data.len() > 64 ==> {
                &&& next.stats == d.stats
                &&& next.written == d.written
                &&& next.phase == DrainPhase::<Seq<char>, Seq<u8>>::StoringBytes { data }
            }
        }),
{
    let next = d.after(DrainEvent::Chunk(Some(Chunk::Metadata(data))));
    assert(next.written.drop_last() =~= d.written);
    let next = d.after(DrainEvent::Chunk(Some(Chunk::InlineData(data))));
    if data.len() <= 64 {
        assert(next.written.drop_last() =~= d.written);
    }
}

/// Long file content of the stream is handed over to be stored, all of it, and the object
/// it became is referred to with its size.
pub proof fn long_stream_content_becomes_an_object(
    d: Drain,
    data: Seq<u8>,
    id: Seq<u8>,
    method: ObjectStoreMethod,
)
    requires
        d.phase == (DrainPhase::<Seq<char>, Seq<u8>>::StoringBytes { data }),
        data.len() <= u64::MAX,
    ensures
        d.action() == (DrainAction::<Seq<char>, Seq<u8>>::StoreBytes { data }),
        ({
            let next = d.after(DrainEvent::Stored { id, method });
            &&& next.phase is Reading
            &&& same_layer(d, next)
            &&& next.hashed == d.hashed
            &&& refers(d, next, id, data.len() as int, method)
        }),
{
    let next = d.after(DrainEvent::Stored { id, method });
    assert(next.written.drop_last() =~= d.written);
}

/// At the end of the stream the drain commits, unless the content is verified and hashes
/// to something else than the diff-id: then it fails, telling both. Nothing else changes.
pub proof fn end_of_the_stream_is_the_end(d: Drain)
    requires
        d.phase is Reading,
    ensures
        ({
            let next = d.after(DrainEvent::Chunk(None));
            &&& only_turned(d, next)
            &&& match d.hashed {
                Some(h) if digest::content_digest(h) != d.diff_id => next.action()
                    == DrainAction::<Seq<char>, Seq<u8>>::Fail(
                    VerifiedDrainError::DiffIdMismatch {
                        expected: d.diff_id,
                        actual: digest::content_digest(h),
                    },
                ),
                _ => next.action() is Commit,
            }
        }),
{
}

/// The slot of a file-backed chunk is looked at first, provided that the file name is
/// UTF-8 and the slot exists; else the drain fails, for the name before the slot.
pub proof fn slots_are_looked_at_first(
    d: Drain,
    dirfd_index: u32,
    length: u64,
    filename: Seq<u8>,
)
    requires
        d.phase is Reading,
    ensures
        ({
            let next = d.after(
                DrainEvent::Chunk(Some(Chunk::FileBackedData { dirfd_index, length, filename })),
            );
            let name = decode_utf8(filename);
            &&& only_turned(d, next)
            &&& if !valid_utf8(filename) {
                next.action() == DrainAction::<Seq<char>, Seq<u8>>::Fail(
                    VerifiedDrainError::Other(DrainError::NonUtf8Filename { filename }),
                )
            } else if dirfd_index >= d.dirs {
                next.action() == DrainAction::<Seq<char>, Seq<u8>>::Fail(
                    VerifiedDrainError::Other(
                        DrainError::DirfdOutOfRange { dirfd_index, count: d.dirs },
                    ),
                )
            } else {
                &&& next.action() == DrainAction::<Seq<char>, Seq<u8>>::StatDir { dirfd_index }
                &&& next.phase == DrainPhase::<Seq<char>, Seq<u8>>::CheckingDir {
                    dirfd_index,
                    length,
                    name,
                }
            }
        }),
{
}

/// A file is opened, under the name and in the slot that the chunk names, once the slot is
/// known to be a directory; else the drain fails and tells what the slot is.
pub proof fn files_are_opened_in_directories(
    d: Drain,
    dirfd_index: u32,
    length: u64,
    name: Seq<char>,
    stat: FileStat,
)
    requires
        d.phase == (DrainPhase::<Seq<char>, Seq<u8>>::CheckingDir { dirfd_index, length, name }),
    ensures
        ({
            let next = d.after(DrainEvent::DirStat(stat));
            &&& only_turned(d, next)
            &&& if stat.mode & 0o170000 == 0o040000 {
                &&& next.action() == DrainAction::<Seq<char>, Seq<u8>>::OpenFile {
                    dirfd_index,
                    name,
                }
                &&& next.phase == DrainPhase::<Seq<char>, Seq<u8>>::Opening {
                    dirfd_index,
                    length,
                    name,
                }
            } else {
                next.action() == DrainAction::<Seq<char>, Seq<u8>>::Fail(
                    VerifiedDrainError::Other(
                        DrainError::NotADirectory {
                            slot: dirfd_index,
                            kind: drain::kind_of_mode(stat.mode),
                            mode: stat.mode,
                            size: stat.size,
                            name,
                        },
                    ),
                )
            }
        }),
{
}

/// An opened file has to be a regular file. If the content is verified, it has to have the
/// declared length and is then hashed from its beginning; else it is stored at once.
pub proof fn opened_files_are_checked(
    d: Drain,
    dirfd_index: u32,
    length: u64,
    name: Seq<char>,
    stat: FileStat,
)
    requires
        d.phase == (DrainPhase::<Seq<char>, Seq<u8>>::Opening { dirfd_index, length, name }),
    ensures
        ({
            let next = d.after(DrainEvent::Opened(stat));
            &&& only_turned(d, next)
            &&& if stat.mode & 0o170000 != 0o100000 {
                next.action() == DrainAction::<Seq<char>, Seq<u8>>::Fail(
                    VerifiedDrainError::Other(
                        DrainError::NotARegularFile {
                            name,
                            slot: dirfd_index,
                            kind: drain::kind_of_mode(stat.mode),
                            mode: stat.mode,
                        },
                    ),
                )
            } else if d.hashed is Some && stat.size != length {
                next.action() == DrainAction::<Seq<char>, Seq<u8>>::Fail(
                    VerifiedDrainError::Other(
                        DrainError::LengthMismatch { name, declared: length, actual: stat.size },
                    ),
                )
            } else if d.hashed is Some && length > 0 {
                &&& reads_on(next.action(), length, 0)
                &&& next.phase == DrainPhase::<Seq<char>, Seq<u8>>::Hashing {
                    name,
                    length,
                    offset: 0,
                }
            } else {
                &&& stores_file(next.action(), length, d.zerocopy)
                &&& next.phase == DrainPhase::<Seq<char>, Seq<u8>>::Storing { length }
            }
        }),
{
}

/// An open file is hashed piece by piece, every piece where the one before it ended, until
/// all of it has been hashed; then it is stored. A file that ends too early is a failure.
pub proof fn files_are_hashed_to_the_end(
    d: Drain,
    name: Seq<char>,
    length: u64,
    offset: u64,
    data: Seq<u8>,
)
    requires
        d.phase == (DrainPhase::<Seq<char>, Seq<u8>>::Hashing { name, length, offset }),
        offset < length,
    ensures
        reads_on(d.action(), length, offset as int),
        ({
            let next = d.after(DrainEvent::Read(Seq::empty()));
            &&& only_turned(d, next)
            &&& next.action() == DrainAction::<Seq<char>, Seq<u8>>::Fail(
                VerifiedDrainError::Other(DrainError::UnexpectedEof { name, offset, length }),
            )
        }),
        0 < data.len() <= 65536 && offset + data.len() <= length ==> {
            let next = d.after(DrainEvent::Read(data));
            &&& same_layer(d, next)
            &&& absorbs(d, next, data)
            &&& next.stats == d.stats
            &&& next.written == d.written
            &&& if offset + data.len() < length {
                &&& reads_on(next.action(), length, offset + data.len())
                &&& next.phase matches DrainPhase::Hashing { name: n, length: l, offset: o }
                &&& n == name
                &&& l == length
                &&& o == offset + data.len()
            } else {
                &&& stores_file(next.action(), length, d.zerocopy)
                &&& next.phase == DrainPhase::<Seq<char>, Seq<u8>>::Storing { length }
            }
        },
{
}

/// A file of up to 64 bytes is embedded, all of it; a longer one is referred to as the
/// object it was stored as, with its declared length. Neither goes into the hash again. A
/// small file that does not have the declared length is a failure.
pub proof fn files_are_stored_by_length(
    d: Drain,
    length: u64,
    data: Seq<u8>,
    id: Seq<u8>,
    method: ObjectStoreMethod,
)
    requires
        d.phase == (DrainPhase::<Seq<char>, Seq<u8>>::Storing { length }),
        data.len() <= usize::MAX,
    ensures
        stores_file(d.action(), length, d.zerocopy),
        length <= 64 && data.len() == length ==> {
            let next = d.after(DrainEvent::Content(data));
            &&& next.phase is Reading
            &&& same_layer(d, next)
            &&& next.hashed == d.hashed
            &&& embeds(d, next, data)
        },
        length <= 64 && data.len() != length ==> {
            let next = d.after(DrainEvent::Content(data));
            &&& only_turned(d, next)
            &&& next.action() matches DrainAction::Fail(VerifiedDrainError::Other(e))
            &&& e matches DrainError::ShortContent { read, length: expected }
            &&& read == data.len()
            &&& expected == length
        },
        length > 64 ==> {
            let next = d.after(DrainEvent::Stored { id, method });
            &&& next.phase is Reading
            &&& same_layer(d, next)
            &&& next.hashed == d.hashed
            &&& refers(d, next, id, length as int, method)
        },
{
    let next = d.after(DrainEvent::Content(data));
    if length <= 64 && data.len() == length {
        assert(next.written.drop_last() =~= d.written);
    }
    let next = d.after(DrainEvent::Stored { id, method });
    if length > 64 {
        assert(next.written.drop_last() =~= d.written);
    }
}

/// Whether an event is the outcome of what a drain waits for.
pub open spec fn answers(
    action: DrainAction<Seq<char>, Seq<u8>>,
    event: DrainEvent<Seq<u8>, Seq<u8>>,
) -> bool {
    match (action, event) {
        (DrainAction::NextChunk, DrainEvent::Chunk(_)) => true,
        (DrainAction::StatDir { .. }, DrainEvent::DirStat(_)) => true,
        (DrainAction::OpenFile { .. }, DrainEvent::Opened(_)) => true,
        (DrainAction::HashFile { want, .. }, DrainEvent::Read(data)) => data.len() <= want,
        (
            DrainAction::StoreFile(ContentAction::ReadInline { .. }),
            DrainEvent::Content(_),
        ) => true,
        (
            DrainAction::StoreFile(ContentAction::StoreObject { .. }),
            DrainEvent::Stored { .. },
        ) => true,
        (DrainAction::StoreBytes { .. }, DrainEvent::Stored { .. }) => true,
        _ => false,
    }
}

/// Anything but the outcome of what a drain waits for leaves it as it is. So a drain that
/// has committed or failed stays as it is.
pub proof fn other_events_change_nothing(d: Drain, event: DrainEvent<Seq<u8>, Seq<u8>>)
    requires
        !answers(d.action(), event),
        d.phase matches DrainPhase::Hashing { length, offset, .. } ==> offset < length,
    ensures
        d.after(event) == d,
{
}

/// Every event can be taken in as long as no counter would overflow by its size.
pub proof fn events_fit_unless_a_counter_overflows(
    d: Drain,
    event: DrainEvent<Seq<u8>, Seq<u8>>,
    size: nat,
)
    requires
        event matches DrainEvent::Chunk(Some(Chunk::Metadata(data))) ==> data.len() <= size,
        event matches DrainEvent::Chunk(Some(Chunk::InlineData(data))) ==> data.len() <= size,
        d.phase matches DrainPhase::Storing { length } ==> length <= size,
        d.phase matches DrainPhase::StoringBytes { data } ==> data.len() <= size,
        d.stats.bytes_inlined + size <= u64::MAX,
        d.stats.bytes_reflinked + size <= u64::MAX,
        d.stats.bytes_hardlinked + size <= u64::MAX,
        d.stats.bytes_copied + size <= u64::MAX,
        d.stats.objects_reflinked < u64::MAX,
        d.stats.objects_hardlinked < u64::MAX,
        d.stats.objects_copied < u64::MAX,
        d.stats.objects_already_present < u64::MAX,
    ensures
        d.fits(event),
{
}

/// The type of a file goes by the type bits of its mode alone.
pub proof fn kinds_go_by_the_mode(mode: u32)
    ensures
        drain::kind_of_mode(mode) == FileKind::RegularFile <==> mode & 0o170000 == 0o100000,
        drain::kind_of_mode(mode) == FileKind::Directory <==> mode & 0o170000 == 0o040000,
        drain::kind_of_mode(mode) == FileKind::Symlink <==> mode & 0o170000 == 0o120000,
        drain::kind_of_mode(mode) == FileKind::Fifo <==> mode & 0o170000 == 0o010000,
        drain::kind_of_mode(mode) == FileKind::Socket <==> mode & 0o170000 == 0o140000,
        drain::kind_of_mode(mode) == FileKind::CharacterDevice <==> mode & 0o170000 == 0o020000,
        drain::kind_of_mode(mode) == FileKind::BlockDevice <==> mode & 0o170000 == 0o060000,
{
}

} // verus!

//! Draining a `splitdirfdstream` into a layer splitstream.
//!
//! [`drain_splitdirfdstream`] and [`drain_splitdirfdstream_verified`] start a
//! [`LayerDrain`]. It asks for one thing at a time: the next chunk, the type of
//! a directory slot, a file to be opened, bytes to be hashed, content to be
//! stored. The caller does it and hands the outcome back. What it writes to the
//! splitstream comes out on the way.
use vstd::prelude::*;
use vstd::utf8::*;

use crate::digest;
use crate::digest::{ObjectId, OciDigest};
use crate::layer_sync;
use crate::layer_sync::{Chunk, ContentAction, Segment};
use crate::stats::{ImportStats, ObjectStoreMethod};
use crate::text;
use crate::INLINE_CONTENT_MAX_V0;

verus! {

/// The type of a file system object.
#[derive(Debug, Clone, Copy, PartialEq, Eq, Structural)]
pub enum FileKind {
    /// A regular file.
    RegularFile,
    /// A directory.
    Directory,
    /// A symbolic link.
    Symlink,
    /// A named pipe.
    Fifo,
    /// A socket.
    Socket,
    /// A character device.
    CharacterDevice,
    /// A block device.
    BlockDevice,
    /// Anything else.
    Unknown,
}

/// The file type that the `S_IFMT` bits of a mode stand for.
pub open spec fn kind_of_mode(mode: u32) -> FileKind {
    let bits = mode & 0o170000;
    if bits == 0o100000 {
        FileKind::RegularFile
    } else if bits == 0o040000 {
        FileKind::Directory
    } else if bits == 0o120000 {
        FileKind::Symlink
    } else if bits == 0o010000 {
        FileKind::Fifo
    } else if bits == 0o140000 {
        FileKind::Socket
    } else if bits == 0o020000 {
        FileKind::CharacterDevice
    } else if bits == 0o060000 {
        FileKind::BlockDevice
    } else {
        FileKind::Unknown
    }
}

/// Calls `rustix::fs::FileType::from_raw_mode`: the type is read off the
/// `S_IFMT` bits of the mode.
#[verifier::external_body]
pub(crate) fn file_kind(mode: u32) -> (kind: FileKind)
    ensures
        kind == kind_of_mode(mode),
{
    match rustix::fs::FileType::from_raw_mode(mode) {
        rustix::fs::FileType::RegularFile => FileKind::RegularFile,
        rustix::fs::FileType::Directory => FileKind::Directory,
        rustix::fs::FileType::Symlink => FileKind::Symlink,
        rustix::fs::FileType::Fifo => FileKind::Fifo,
        rustix::fs::FileType::Socket => FileKind::Socket,
        rustix::fs::FileType::CharacterDevice => FileKind::CharacterDevice,
        rustix::fs::FileType::BlockDevice => FileKind::BlockDevice,
        rustix::fs::FileType::Unknown => FileKind::Unknown,
    }
}

/// What `fstat` said of an open file.
#[derive(Debug, Clone, Copy, PartialEq, Eq, Structural)]
pub struct FileStat {
    /// Type and permission bits.
    pub mode: u32,
    /// Size in bytes.
    pub size: u64,
}

/// Why a drain failed.
#[derive(Debug)]
pub enum DrainError<S = String, B = Vec<u8>> {
    /// The diff-id is not a SHA-256 digest.
    UnsupportedAlgorithm {
        /// The algorithm of the diff-id.
        algorithm: S,
    },
    /// A file name in the stream is not UTF-8.
    NonUtf8Filename {
        /// The name.
        filename: B,
    },
    /// A chunk names a directory slot that does not exist.
    DirfdOutOfRange {
        /// The slot.
        dirfd_index: u32,
        /// How many slots there are.
        count: usize,
    },
    /// The fd in a directory slot is not a directory.
    NotADirectory {
        /// The slot.
        slot: u32,
        /// What it is instead.
        kind: FileKind,
        /// Its mode.
        mode: u32,
        /// Its size.
        size: u64,
        /// The file that was to be opened in it.
        name: S,
    },
    /// A file of the stream is not a regular file.
    NotARegularFile {
        /// The file.
        name: S,
        /// The directory slot it is in.
        slot: u32,
        /// What it is instead.
        kind: FileKind,
        /// Its mode.
        mode: u32,
    },
    /// The declared length of a file is not its size.
    LengthMismatch {
        /// The file.
        name: S,
        /// The length that the stream declared.
        declared: u64,
        /// The size of the file.
        actual: u64,
    },
    /// A file ended before all of it was hashed.
    UnexpectedEof {
        /// The file.
        name: S,
        /// Where it ended.
        offset: u64,
        /// How many bytes were expected.
        length: u64,
    },
    /// A small file did not have the declared number of bytes.
    ShortContent {
        /// How many bytes were read.
        read: usize,
        /// How many bytes were expected.
        length: u64,
    },
}

/// Errors returned by the diff-id-verifying drain path.
///
/// Separates the integrity-check failure (wrong content) from other errors so
/// that callers can surface a clear diagnostic.
#[derive(Debug)]
pub enum VerifiedDrainError<S = String, B = Vec<u8>> {
    /// The reconstructed layer content does not match the declared `diff_id`.
    DiffIdMismatch {
        /// The diff_id that was declared by the sender.
        expected: S,
        /// The sha256 of the data that was actually received.
        actual: S,
    },
    /// Any other error.
    Other(DrainError<S, B>),
}

impl View for DrainError<String, Vec<u8>> {
    type V = DrainError<Seq<char>, Seq<u8>>;

    open spec fn view(&self) -> DrainError<Seq<char>, Seq<u8>> {
        match self {
            DrainError::UnsupportedAlgorithm { algorithm } => DrainError::UnsupportedAlgorithm {
                algorithm: algorithm@,
            },
            DrainError::NonUtf8Filename { filename } => DrainError::NonUtf8Filename {
                filename: filename@,
            },
            DrainError::DirfdOutOfRange { dirfd_index, count } => DrainError::DirfdOutOfRange {
                dirfd_index: *dirfd_index,
                count: *count,
            },
            DrainError::NotADirectory { slot, kind, mode, size, name } => DrainError::NotADirectory {
                slot: *slot,
                kind: *kind,
                mode: *mode,
                size: *size,
                name: name@,
            },
            DrainError::NotARegularFile { name, slot, kind, mode } => DrainError::NotARegularFile {
                name: name@,
                slot: *slot,
                kind: *kind,
                mode: *mode,
            },
            DrainError::LengthMismatch { name, declared, actual } => DrainError::LengthMismatch {
                name: name@,
                declared: *declared,
                actual: *actual,
            },
            DrainError::UnexpectedEof { name, offset, length } => DrainError::UnexpectedEof {
                name: name@,
                offset: *offset,
                length: *length,
            },
            DrainError::ShortContent { read, length } => DrainError::ShortContent {
                read: *read,
                length: *length,
            },
        }
    }
}

impl View for VerifiedDrainError<String, Vec<u8>> {
    type V = VerifiedDrainError<Seq<char>, Seq<u8>>;

    open spec fn view(&self) -> VerifiedDrainError<Seq<char>, Seq<u8>> {
        match self {
            VerifiedDrainError::DiffIdMismatch { expected, actual } => {
                VerifiedDrainError::DiffIdMismatch { expected: expected@, actual: actual@ }
            },
            VerifiedDrainError::Other(e) => VerifiedDrainError::Other(e@),
        }
    }
}

impl Clone for DrainError {
    fn clone(&self) -> (copy: Self)
        ensures
            copy@ == self@,
    {
        match self {
            DrainError::UnsupportedAlgorithm { algorithm } => DrainError::UnsupportedAlgorithm {
                algorithm: algorithm.clone(),
            },
            DrainError::NonUtf8Filename { filename } => DrainError::NonUtf8Filename {
                filename: filename.clone(),
            },
            DrainError::DirfdOutOfRange { dirfd_index, count } => DrainError::DirfdOutOfRange {
                dirfd_index: *dirfd_index,
                count: *count,
            },
            DrainError::NotADirectory { slot, kind, mode, size, name } => DrainError::NotADirectory {
                slot: *slot,
                kind: *kind,
                mode: *mode,
                size: *size,
                name: name.clone(),
            },
            DrainError::NotARegularFile { name, slot, kind, mode } => DrainError::NotARegularFile {
                name: name.clone(),
                slot: *slot,
                kind: *kind,
                mode: *mode,
            },
            DrainError::LengthMismatch { name, declared, actual } => DrainError::LengthMismatch {
                name: name.clone(),
                declared: *declared,
                actual: *actual,
            },
            DrainError::UnexpectedEof { name, offset, length } => DrainError::UnexpectedEof {
                name: name.clone(),
                offset: *offset,
                length: *length,
            },
            DrainError::ShortContent { read, length } => DrainError::ShortContent {
                read: *read,
                length: *length,
            },
        }
    }
}

impl Clone for VerifiedDrainError {
    fn clone(&self) -> (copy: Self)
        ensures
            copy@ == self@,
    {
        match self {
            VerifiedDrainError::DiffIdMismatch { expected, actual } => {
                VerifiedDrainError::DiffIdMismatch {
                    expected: expected.clone(),
                    actual: actual.clone(),
                }
            },
            VerifiedDrainError::Other(e) => VerifiedDrainError::Other(e.clone()),
        }
    }
}

impl FileKind {
    /// The name of the type.
    pub open spec fn name_text(self) -> Seq<char> {
        match self {
            FileKind::RegularFile => "RegularFile"@,
            FileKind::Directory => "Directory"@,
            FileKind::Symlink => "Symlink"@,
            FileKind::Fifo => "Fifo"@,
            FileKind::Socket => "Socket"@,
            FileKind::CharacterDevice => "CharacterDevice"@,
            FileKind::BlockDevice => "BlockDevice"@,
            FileKind::Unknown => "Unknown"@,
        }
    }

    /// The name of the type.
    pub fn name(&self) -> (name: &'static str)
        ensures
            name@ == self.name_text(),
    {
        match self {
            FileKind::RegularFile => "RegularFile",
            FileKind::Directory => "Directory",
            FileKind::Symlink => "Symlink",
            FileKind::Fifo => "Fifo",
            FileKind::Socket => "Socket",
            FileKind::CharacterDevice => "CharacterDevice",
            FileKind::BlockDevice => "BlockDevice",
            FileKind::Unknown => "Unknown",
        }
    }
}

impl DrainError<Seq<char>, Seq<u8>> {
    /// What the error says.
    pub open spec fn text(self) -> Seq<char> {
        match self {
            DrainError::UnsupportedAlgorithm { algorithm } => "unsupported diff_id algorithm "@
                + text::quoted_text(algorithm) + ": only sha256 is supported"@,
            DrainError::NonUtf8Filename {
                filename,
            } => "non-utf8 filename in splitdirfdstream: "@ + text::byte_list_text(filename),
            DrainError::DirfdOutOfRange { dirfd_index, count } => "dirfd_index "@
                + text::decimal_text(dirfd_index as nat) + " out of range (dir_fds.len="@
                + text::decimal_text(count as nat) + ")"@,
            DrainError::NotADirectory { slot, kind, mode, size, name } => "overlay_dir["@
                + text::decimal_text(slot as nat) + "] is not a directory (file type: "@
                + kind.name_text() + ", mode=0o"@ + text::octal_text(mode as nat) + ", size="@
                + text::decimal_text(size as nat) + ") — cannot open "@ + text::quoted_text(name)
                + "; this is likely a bug where a dummy fd (e.g. /dev/null or memfd) was stored at a slot that should hold a real diff-dir fd"@,
            DrainError::NotARegularFile { name, slot, kind, mode } => "object "@
                + text::quoted_text(name) + " in overlay dir["@ + text::decimal_text(slot as nat)
                + "] is not a regular file (file type: "@ + kind.name_text() + ", mode=0o"@
                + text::octal_text(mode as nat) + ")"@,
            DrainError::LengthMismatch { name, declared, actual } => "object "@ + name
                + ": declared length "@ + text::decimal_text(declared as nat) + " != actual size "@
                + text::decimal_text(actual as nat),
            DrainError::UnexpectedEof { name, offset, length } => "hashing object "@ + name
                + ": unexpected EOF at offset "@ + text::decimal_text(offset as nat)
                + " hashing fd (expected "@ + text::decimal_text(length as nat) + " bytes total)"@,
            DrainError::ShortContent { .. } => "failed to fill whole buffer"@,
        }
    }
}

impl DrainError {
    /// What the error says.
    pub fn message(&self) -> (message: String)
        ensures
            message@ == self@.text(),
    {
        match self {
            DrainError::UnsupportedAlgorithm { algorithm } => {
                let mut out: String = "unsupported diff_id algorithm ".to_owned();
                out.append(text::quoted(algorithm.as_str()).as_str());
                out.append(": only sha256 is supported");
                out
            },
            DrainError::NonUtf8Filename { filename } => text::join2(
                "non-utf8 filename in splitdirfdstream: ",
                text::byte_list(filename).as_str(),
            ),
            DrainError::DirfdOutOfRange { dirfd_index, count } => {
                let mut out: String = "dirfd_index ".to_owned();
                out.append(text::decimal(*dirfd_index as u64).as_str());
                out.append(" out of range (dir_fds.len=");
                out.append(text::decimal(*count as u64).as_str());
                out.append(")");
                out
            },
            DrainError::NotADirectory { slot, kind, mode, size, name } => {
                let mut out: String = "overlay_dir[".to_owned();
                out.append(text::decimal(*slot as u64).as_str());
                out.append("] is not a directory (file type: ");
                out.append(kind.name());
                out.append(", mode=0o");
                out.append(text::octal(*mode).as_str());
                out.append(", size=");
                out.append(text::decimal(*size).as_str());
                out.append(") — cannot open ");
                out.append(text::quoted(name.as_str()).as_str());
                out.append(
                    "; this is likely a bug where a dummy fd (e.g. /dev/null or memfd) was stored at a slot that should hold a real diff-dir fd",
                );
                out
            },
            DrainError::NotARegularFile { name, slot, kind, mode } => {
                let mut out: String = "object ".to_owned();
                out.append(text::quoted(name.as_str()).as_str());
                out.append(" in overlay dir[");
                out.append(text::decimal(*slot as u64).as_str());
                out.append("] is not a regular file (file type: ");
                out.append(kind.name());
                out.append(", mode=0o");
                out.append(text::octal(*mode).as_str());
                out.append(")");
                out
            },
            DrainError::LengthMismatch { name, declared, actual } => {
                let mut out: String = "object ".to_owned();
                out.append(name.as_str());
                out.append(": declared length ");
                out.append(text::decimal(*declared).as_str());
                out.append(" != actual size ");
                out.append(text::decimal(*actual).as_str());
                out
            },
            DrainError::UnexpectedEof { name, offset, length } => {
                let mut out: String = "hashing object ".to_owned();
                out.append(name.as_str());
                out.append(": unexpected EOF at offset ");
                out.append(text::decimal(*offset).as_str());
                out.append(" hashing fd (expected ");
                out.append(text::decimal(*length).as_str());
                out.append(" bytes total)");
                out
            },
            DrainError::ShortContent { .. } => "failed to fill whole buffer".to_owned(),
        }
    }
}

impl VerifiedDrainError<Seq<char>, Seq<u8>> {
    /// What the error says.
    pub open spec fn text(self) -> Seq<char> {
        match self {
            VerifiedDrainError::DiffIdMismatch {
                expected,
                actual,
            } => "layer content does not match declared diff_id: expected "@ + expected
                + ", got "@ + actual,
            VerifiedDrainError::Other(e) => e.text(),
        }
    }
}

impl VerifiedDrainError {
    /// What the error says.
    pub fn message(&self) -> (message: String)
        ensures
            message@ == self@.text(),
    {
        match self {
            VerifiedDrainError::DiffIdMismatch { expected, actual } => {
                let mut out: String =
                    "layer content does not match declared diff_id: expected ".to_owned();
                out.append(expected.as_str());
                out.append(", got ");
                out.append(actual.as_str());
                out
            },
            VerifiedDrainError::Other(e) => e.message(),
        }
    }
}

/// Verify that a directory slot holds a directory before using it as a base
/// for `openat`.
///
/// If it does not, the error tells the slot, the file type and the size, which
/// makes it easy to distinguish real diff-dirs from dummy fds that ended up at
/// the wrong slot.
pub fn assert_is_dir(stat: FileStat, slot: u32, name: &str) -> (r: Result<(), DrainError>)
    ensures
        match r {
            Ok(()) => kind_of_mode(stat.mode) == FileKind::Directory,
            Err(e) => kind_of_mode(stat.mode) != FileKind::Directory && e@ == not_a_directory(
                stat,
                slot,
                name@,
            ),
        },
{
    let kind: FileKind = file_kind(stat.mode);
    if kind == FileKind::Directory {
        Ok(())
    } else {
        Err(
            DrainError::NotADirectory {
                slot,
                kind,
                mode: stat.mode,
                size: stat.size,
                name: name.to_owned(),
            },
        )
    }
}

/// The complaint about a slot that does not hold a directory.
pub open spec fn not_a_directory(stat: FileStat, slot: u32, name: Seq<char>) -> DrainError<
    Seq<char>,
    Seq<u8>,
> {
    DrainError::NotADirectory {
        slot,
        kind: kind_of_mode(stat.mode),
        mode: stat.mode,
        size: stat.size,
        name,
    }
}

/// Compares the digest of the received content with the declared diff-id.
pub fn verify_diff_id(diff_id: &OciDigest, actual: &OciDigest) -> (r: Result<
    (),
    VerifiedDrainError,
>)
    ensures
        match r {
            Ok(()) => actual@ == diff_id@,
            Err(e) => actual@ != diff_id@ && e@ == (VerifiedDrainError::<
                Seq<char>,
                Seq<u8>,
            >::DiffIdMismatch { expected: diff_id@, actual: actual@ }),
        },
{
    if text::str_eq(actual.as_str(), diff_id.as_str()) {
        Ok(())
    } else {
        Err(
            VerifiedDrainError::DiffIdMismatch {
                expected: diff_id.as_str().to_owned(),
                actual: actual.as_str().to_owned(),
            },
        )
    }
}

/// How many bytes of a file are read at once for hashing.
pub const HASH_READ_SIZE: usize = 65536;

/// What a drain waits for, or how it ended.
pub enum DrainAction<S = String, B = Vec<u8>> {
    /// Read the next chunk of the stream.
    NextChunk,
    /// `fstat` the fd in a directory slot.
    StatDir {
        /// The slot.
        dirfd_index: u32,
    },
    /// Open a file in the directory of a slot, and `fstat` it.
    OpenFile {
        /// The slot.
        dirfd_index: u32,
        /// The path below the directory.
        name: S,
    },
    /// Read up to `want` bytes of the open file at `offset`.
    HashFile {
        /// Where to read.
        offset: u64,
        /// How many bytes to ask for.
        want: usize,
    },
    /// Store the open file.
    StoreFile(ContentAction),
    /// Store these bytes as an object; nothing backs them, so they can only be
    /// copied.
    StoreBytes {
        /// The bytes.
        data: B,
    },
    /// Everything has been written: commit the splitstream.
    Commit,
    /// Discard the splitstream.
    Fail(VerifiedDrainError<S, B>),
}

impl View for DrainAction<String, Vec<u8>> {
    type V = DrainAction<Seq<char>, Seq<u8>>;

    open spec fn view(&self) -> DrainAction<Seq<char>, Seq<u8>> {
        match self {
            DrainAction::NextChunk => DrainAction::NextChunk,
            DrainAction::StatDir { dirfd_index } => DrainAction::StatDir {
                dirfd_index: *dirfd_index,
            },
            DrainAction::OpenFile { dirfd_index, name } => DrainAction::OpenFile {
                dirfd_index: *dirfd_index,
                name: name@,
            },
            DrainAction::HashFile { offset, want } => DrainAction::HashFile {
                offset: *offset,
                want: *want,
            },
            DrainAction::StoreFile(action) => DrainAction::StoreFile(*action),
            DrainAction::StoreBytes { data } => DrainAction::StoreBytes { data: data@ },
            DrainAction::Commit => DrainAction::Commit,
            DrainAction::Fail(e) => DrainAction::Fail(e@),
        }
    }
}

/// The outcome of what a drain waited for.
pub enum DrainEvent<B = Vec<u8>, I = ObjectId> {
    /// The next chunk, or the end of the stream.
    Chunk(Option<Chunk<B>>),
    /// What `fstat` said of the directory slot.
    DirStat(FileStat),
    /// What `fstat` said of the opened file.
    Opened(FileStat),
    /// Bytes read for hashing; none at the end of the file.
    Read(B),
    /// The content of a small file.
    Content(B),
    /// A file or bytes were stored as an object.
    Stored {
        /// The object.
        id: I,
        /// How it was stored.
        method: ObjectStoreMethod,
    },
}

impl View for DrainEvent<Vec<u8>, ObjectId> {
    type V = DrainEvent<Seq<u8>, Seq<u8>>;

    open spec fn view(&self) -> DrainEvent<Seq<u8>, Seq<u8>> {
        match self {
            DrainEvent::Chunk(Some(chunk)) => DrainEvent::Chunk(Some(chunk@)),
            DrainEvent::Chunk(None) => DrainEvent::Chunk(None),
            DrainEvent::DirStat(stat) => DrainEvent::DirStat(*stat),
            DrainEvent::Opened(stat) => DrainEvent::Opened(*stat),
            DrainEvent::Read(data) => DrainEvent::Read(data@),
            DrainEvent::Content(data) => DrainEvent::Content(data@),
            DrainEvent::Stored { id, method } => DrainEvent::Stored { id: id@, method: *method },
        }
    }
}

/// Where a drain stands.
pub enum DrainPhase<S, B> {
    /// Between two chunks.
    Reading,
    /// The slot of a file-backed chunk is being looked at.
    CheckingDir {
        /// The slot.
        dirfd_index: u32,
        /// The declared length.
        length: u64,
        /// The file.
        name: S,
    },
    /// The file of a file-backed chunk is being opened.
    Opening {
        /// The slot.
        dirfd_index: u32,
        /// The declared length.
        length: u64,
        /// The file.
        name: S,
    },
    /// The open file is being hashed.
    Hashing {
        /// The file.
        name: S,
        /// Its length.
        length: u64,
        /// How much of it has been hashed.
        offset: u64,
    },
    /// The open file is being stored.
    Storing {
        /// Its length.
        length: u64,
    },
    /// File content from the stream is being stored as an object.
    StoringBytes {
        /// The content.
        data: B,
    },
    /// The whole stream has been written.
    Drained,
    /// The drain failed.
    Failed(VerifiedDrainError<S, B>),
}

/// The model of a phase.
pub open spec fn phase_model(phase: DrainPhase<String, Vec<u8>>) -> DrainPhase<
    Seq<char>,
    Seq<u8>,
> {
    match phase {
        DrainPhase::Reading => DrainPhase::Reading,
        DrainPhase::CheckingDir { dirfd_index, length, name } => DrainPhase::CheckingDir {
            dirfd_index,
            length,
            name: name@,
        },
        DrainPhase::Opening { dirfd_index, length, name } => DrainPhase::Opening {
            dirfd_index,
            length,
            name: name@,
        },
        DrainPhase::Hashing { name, length, offset } => DrainPhase::Hashing {
            name: name@,
            length,
            offset,
        },
        DrainPhase::Storing { length } => DrainPhase::Storing { length },
        DrainPhase::StoringBytes { data } => DrainPhase::StoringBytes { data: data@ },
        DrainPhase::Drained => DrainPhase::Drained,
        DrainPhase::Failed(e) => DrainPhase::Failed(e@),
    }
}

/// The abstract state of a drain.
pub struct Drain {
    /// The diff-id of the layer.
    pub diff_id: Seq<char>,
    /// How many directory slots there are.
    pub dirs: usize,
    /// Whether to insist on zero-copy storage of opened files.
    pub zerocopy: bool,
    /// The bytes hashed so far, if the content is verified.
    pub hashed: Option<Seq<u8>>,
    /// What has been counted.
    pub stats: ImportStats,
    /// What has been written to the splitstream.
    pub written: Seq<Segment<Seq<u8>, Seq<u8>>>,
    /// What the drain waits for.
    pub phase: DrainPhase<Seq<char>, Seq<u8>>,
}

/// How many bytes to read next of a file that is being hashed.
pub open spec fn hash_want(length: u64, offset: u64) -> int {
    if length - offset < HASH_READ_SIZE {
        length - offset
    } else {
        HASH_READ_SIZE as int
    }
}

impl Drain {
    /// A drain that has not read anything.
    pub open spec fn start(diff_id: Seq<char>, dirs: usize, zerocopy: bool, verify: bool) -> Drain {
        Drain {
            diff_id,
            dirs,
            zerocopy,
            hashed: if verify {
                Some(Seq::empty())
            } else {
                None
            },
            stats: ImportStats::zero(),
            written: Seq::empty(),
            phase: DrainPhase::Reading,
        }
    }

    /// The drain in another phase.
    pub open spec fn at(self, phase: DrainPhase<Seq<char>, Seq<u8>>) -> Drain {
        Drain { phase, ..self }
    }

    /// The failed drain.
    pub open spec fn fail(self, e: DrainError<Seq<char>, Seq<u8>>) -> Drain {
        self.at(DrainPhase::Failed(VerifiedDrainError::Other(e)))
    }

    /// The drain after `data` went into the hash, if there is one.
    pub open spec fn hash(self, data: Seq<u8>) -> Drain {
        Drain {
            hashed: match self.hashed {
                Some(h) => Some(h + data),
                None => None,
            },
            ..self
        }
    }

    /// The drain after `data` was written inline.
    pub open spec fn write_inline(self, data: Seq<u8>) -> Drain {
        Drain {
            stats: self.stats.with_inline(data.len() as int),
            written: self.written.push(Segment::Inline(data)),
            phase: DrainPhase::Reading,
            ..self
        }
    }

    /// The drain after a reference to an object was written.
    pub open spec fn write_object(
        self,
        id: Seq<u8>,
        size: u64,
        method: ObjectStoreMethod,
    ) -> Drain {
        Drain {
            stats: self.stats.with_object(method, size as int),
            written: self.written.push(Segment::External { id, size }),
            phase: DrainPhase::Reading,
            ..self
        }
    }

    /// The drain after the next chunk, or the end of the stream. At the end, a
    /// hash that is not the diff-id is a failure.
    pub open spec fn after_chunk(self, chunk: Option<Chunk<Seq<u8>>>) -> Drain {
        match chunk {
            None => match self.hashed {
                Some(h) => if digest::content_digest(h) == self.diff_id {
                    self.at(DrainPhase::Drained)
                } else {
                    self.at(
                        DrainPhase::Failed(
                            VerifiedDrainError::DiffIdMismatch {
                                expected: self.diff_id,
                                actual: digest::content_digest(h),
                            },
                        ),
                    )
                },
                None => self.at(DrainPhase::Drained),
            },
            Some(Chunk::Metadata(data)) => self.hash(data).write_inline(data),
            Some(Chunk::InlineData(data)) => if data.len() <= INLINE_CONTENT_MAX_V0 {
                self.hash(data).write_inline(data)
            } else {
                self.hash(data).at(DrainPhase::StoringBytes { data })
            },
            Some(Chunk::FileBackedData { dirfd_index, length, filename }) => if !valid_utf8(
                filename,
            ) {
                self.fail(DrainError::NonUtf8Filename { filename })
            } else if dirfd_index >= self.dirs {
                self.fail(DrainError::DirfdOutOfRange { dirfd_index, count: self.dirs })
            } else {
                self.at(
                    DrainPhase::CheckingDir { dirfd_index, length, name: decode_utf8(filename) },
                )
            },
        }
    }

    /// The drain after a file was opened. Verified content must have exactly the
    /// declared length.
    pub open spec fn after_open(
        self,
        dirfd_index: u32,
        length: u64,
        name: Seq<char>,
        stat: FileStat,
    ) -> Drain {
        if kind_of_mode(stat.mode) != FileKind::RegularFile {
            self.fail(
                DrainError::NotARegularFile {
                    name,
                    slot: dirfd_index,
                    kind: kind_of_mode(stat.mode),
                    mode: stat.mode,
                },
            )
        } else if self.hashed is Some && stat.size != length {
            self.fail(DrainError::LengthMismatch { name, declared: length, actual: stat.size })
        } else if self.hashed is Some && length > 0 {
            self.at(DrainPhase::Hashing { name, length, offset: 0 })
        } else {
            self.at(DrainPhase::Storing { length })
        }
    }

    /// The drain after a piece of the open file was read for hashing.
    pub open spec fn after_read(
        self,
        name: Seq<char>,
        length: u64,
        offset: u64,
        data: Seq<u8>,
    ) -> Drain {
        if data.len() == 0 {
            self.fail(DrainError::UnexpectedEof { name, offset, length })
        } else if data.len() > hash_want(length, offset) {
            self
        } else if offset + data.len() < length {
            self.hash(data).at(
                DrainPhase::Hashing { name, length, offset: (offset + data.len()) as u64 },
            )
        } else {
            self.hash(data).at(DrainPhase::Storing { length })
        }
    }

    /// The drain after an event. An event that is not the outcome of what the
    /// drain waits for changes nothing.
    pub open spec fn after(self, event: DrainEvent<Seq<u8>, Seq<u8>>) -> Drain {
        match (self.phase, event) {
            (DrainPhase::Reading, DrainEvent::Chunk(chunk)) => self.after_chunk(chunk),
            (
                DrainPhase::CheckingDir { dirfd_index, length, name },
                DrainEvent::DirStat(stat),
            ) => if kind_of_mode(stat.mode) == FileKind::Directory {
                self.at(DrainPhase::Opening { dirfd_index, length, name })
            } else {
                self.fail(not_a_directory(stat, dirfd_index, name))
            },
            (
                DrainPhase::Opening { dirfd_index, length, name },
                DrainEvent::Opened(stat),
            ) => self.after_open(dirfd_index, length, name, stat),
            (
                DrainPhase::Hashing { name, length, offset },
                DrainEvent::Read(data),
            ) => self.after_read(name, length, offset, data),
            (DrainPhase::Storing { length }, DrainEvent::Content(data)) => if length
                > INLINE_CONTENT_MAX_V0 {
                self
            } else if data.len() == length {
                self.write_inline(data)
            } else {
                self.fail(DrainError::ShortContent { read: data.len() as usize, length })
            },
            (DrainPhase::Storing { length }, DrainEvent::Stored { id, method }) => if length
                > INLINE_CONTENT_MAX_V0 {
                self.write_object(id, length, method)
            } else {
                self
            },
            (
                DrainPhase::StoringBytes { data },
                DrainEvent::Stored { id, method },
            ) => self.write_object(id, data.len() as u64, method),
            _ => self,
        }
    }

    /// Whether the counters can hold what an event adds to them.
    pub open spec fn fits(self, event: DrainEvent<Seq<u8>, Seq<u8>>) -> bool {
        match (self.phase, event) {
            (
                DrainPhase::Reading,
                DrainEvent::Chunk(Some(Chunk::Metadata(data))),
            ) => self.stats.inline_fits(data.len() as int),
            (DrainPhase::Reading, DrainEvent::Chunk(Some(Chunk::InlineData(data)))) => data.len()
                <= INLINE_CONTENT_MAX_V0 ==> self.stats.inline_fits(data.len() as int),
            (
                DrainPhase::Storing { length },
                DrainEvent::Content(data),
            ) => self.stats.inline_fits(length as int),
            (
                DrainPhase::Storing { length },
                DrainEvent::Stored { id, method },
            ) => self.stats.object_fits(method, length as int),
            (
                DrainPhase::StoringBytes { data },
                DrainEvent::Stored { id, method },
            ) => self.stats.object_fits(method, data.len() as int),
            _ => true,
        }
    }

    /// What the drain waits for, or how it ended.
    pub open spec fn action(self) -> DrainAction<Seq<char>, Seq<u8>> {
        match self.phase {
            DrainPhase::Reading => DrainAction::NextChunk,
            DrainPhase::CheckingDir { dirfd_index, length, name } => DrainAction::StatDir {
                dirfd_index,
            },
            DrainPhase::Opening { dirfd_index, length, name } => DrainAction::OpenFile {
                dirfd_index,
                name,
            },
            DrainPhase::Hashing { name, length, offset } => DrainAction::HashFile {
                offset,
                want: hash_want(length, offset) as usize,
            },
            DrainPhase::Storing { length } => DrainAction::StoreFile(
                layer_sync::content_action(length, self.zerocopy),
            ),
            DrainPhase::StoringBytes { data } => DrainAction::StoreBytes { data },
            DrainPhase::Drained => DrainAction::Commit,
            DrainPhase::Failed(e) => DrainAction::Fail(e),
        }
    }
}

/// A drain of one layer stream.
pub struct LayerDrain {
    diff_id: OciDigest,
    dirs: usize,
    zerocopy: bool,
    hasher: Option<sha2::Sha256>,
    hashed: Ghost<Option<Seq<u8>>>,
    stats: ImportStats,
    written: Ghost<Seq<Segment<Seq<u8>, Seq<u8>>>>,
    phase: DrainPhase<String, Vec<u8>>,
}

impl View for LayerDrain {
    type V = Drain;

    closed spec fn view(&self) -> Drain {
        Drain {
            diff_id: self.diff_id@,
            dirs: self.dirs,
            zerocopy: self.zerocopy,
            hashed: self.hashed@,
            stats: self.stats,
            written: self.written@,
            phase: phase_model(self.phase),
        }
    }
}

/// Drain a `splitdirfdstream` and write the resulting layer splitstream.
///
/// # Arguments
/// * `dir_count` - How many slots the dirfds region has. Only the slots that a
///   chunk names are ever used.
/// * `diff_id` - OCI diff-id of the layer (identifies the stream).
/// * `zerocopy` - Whether to insist on a reflink or hardlink when storing
///   large files.
pub fn drain_splitdirfdstream(dir_count: usize, diff_id: &OciDigest, zerocopy: bool) -> (drain:
    LayerDrain)
    ensures
        drain@ == Drain::start(diff_id@, dir_count, zerocopy, false),
{
    LayerDrain {
        diff_id: diff_id.clone(),
        dirs: dir_count,
        zerocopy,
        hasher: None,
        hashed: Ghost(None),
        stats: ImportStats::default(),
        written: Ghost(Seq::empty()),
        phase: DrainPhase::Reading,
    }
}

/// Like [`drain_splitdirfdstream`], but additionally verifies that the
/// reconstructed (uncompressed tar) content hashes to `diff_id`, and only
/// commits the layer splitstream if it matches.
///
/// The content is hashed with SHA-256, so a diff-id of another algorithm is
/// rejected up front.
pub fn drain_splitdirfdstream_verified(
    dir_count: usize,
    diff_id: &OciDigest,
    zerocopy: bool,
) -> (drain: Result<LayerDrain, VerifiedDrainError>)
    ensures
        match drain {
            Ok(d) => diff_id.algorithm_name() == "sha256"@ && d@ == Drain::start(
                diff_id@,
                dir_count,
                zerocopy,
                true,
            ),
            Err(e) => diff_id.algorithm_name() != "sha256"@ && e@ == VerifiedDrainError::<
                Seq<char>,
                Seq<u8>,
            >::Other(DrainError::UnsupportedAlgorithm { algorithm: diff_id.algorithm_name() }),
        },
{
    if !text::str_eq(diff_id.algorithm(), "sha256") {
        return Err(
            VerifiedDrainError::Other(
                DrainError::UnsupportedAlgorithm { algorithm: diff_id.algorithm().to_owned() },
            ),
        );
    }
    Ok(
        LayerDrain {
            diff_id: diff_id.clone(),
            dirs: dir_count,
            zerocopy,
            hasher: Some(digest::sha256_new()),
            hashed: Ghost(Some(Seq::empty())),
            stats: ImportStats::default(),
            written: Ghost(Seq::empty()),
            phase: DrainPhase::Reading,
        },
    )
}

impl LayerDrain {
    #[verifier::type_invariant]
    closed spec fn inv(self) -> bool {
        &&& self.phase matches DrainPhase::Hashing { name, length, offset } ==> offset < length
        &&& !(self.phase is Drained || self.phase is Failed) ==> self.hashed@ == match self.hasher {
            Some(h) => Some(digest::absorbed(h)),
            None => None,
        }
    }

    /// What has been counted so far.
    pub fn stats(&self) -> (stats: ImportStats)
        ensures
            stats == self@.stats,
    {
        self.stats
    }

    /// The diff-id of the layer.
    pub fn diff_id(&self) -> (diff_id: &OciDigest)
        ensures
            diff_id@ == self@.diff_id,
    {
        &self.diff_id
    }

    /// What the drain waits for.
    pub fn action(&self) -> (action: DrainAction)
        ensures
            action@ == self@.action(),
    {
        proof {
            use_type_invariant(self);
        }
        match &self.phase {
            DrainPhase::Reading => DrainAction::NextChunk,
            DrainPhase::CheckingDir { dirfd_index, .. } => DrainAction::StatDir {
                dirfd_index: *dirfd_index,
            },
            DrainPhase::Opening { dirfd_index, name, .. } => DrainAction::OpenFile {
                dirfd_index: *dirfd_index,
                name: name.clone(),
            },
            DrainPhase::Hashing { length, offset, .. } => DrainAction::HashFile {
                offset: *offset,
                want: next_read(*length, *offset),
            },
            DrainPhase::Storing { length } => DrainAction::StoreFile(
                layer_sync::process_file_content(*length, self.zerocopy),
            ),
            DrainPhase::StoringBytes { data } => DrainAction::StoreBytes { data: data.clone() },
            DrainPhase::Drained => DrainAction::Commit,
            DrainPhase::Failed(e) => DrainAction::Fail(e.clone()),
        }
    }

    /// Whether the counters can hold what an event adds to them.
    pub fn can_resume(&self, event: &DrainEvent) -> (fits: bool)
        ensures
            fits == self@.fits(event@),
    {
        match &self.phase {
            DrainPhase::Reading => match event {
                DrainEvent::Chunk(Some(Chunk::Metadata(data))) => self.stats.can_count_inline(
                    data.len() as u64,
                ),
                DrainEvent::Chunk(Some(Chunk::InlineData(data))) => data.len()
                    > INLINE_CONTENT_MAX_V0 || self.stats.can_count_inline(data.len() as u64),
                _ => true,
            },
            DrainPhase::Storing { length } => match event {
                DrainEvent::Content(_) => self.stats.can_count_inline(*length),
                DrainEvent::Stored { method, .. } => self.stats.can_count_object(*method, *length),
                _ => true,
            },
            DrainPhase::StoringBytes { data } => match event {
                DrainEvent::Stored { method, .. } => self.stats.can_count_object(
                    *method,
                    data.len() as u64,
                ),
                _ => true,
            },
            _ => true,
        }
    }
}

fn next_read(length: u64, offset: u64) -> (want: usize)
    requires
        offset <= length,
    ensures
        want as int == hash_want(length, offset),
{
    let remaining: u64 = length - offset;
    if remaining < HASH_READ_SIZE as u64 {
        remaining as usize
    } else {
        HASH_READ_SIZE
    }
}

impl LayerDrain {
    fn at(self, phase: DrainPhase<String, Vec<u8>>) -> (next: LayerDrain)
        requires
            !(self@.phase is Drained || self@.phase is Failed),
            phase matches DrainPhase::Hashing { name, length, offset } ==> offset < length,
        ensures
            next@ == self@.at(phase_model(phase)),
    {
        proof {
            use_type_invariant(&self);
        }
        LayerDrain { phase, ..self }
    }

    fn fail(self, e: DrainError) -> (next: LayerDrain)
        requires
            !(self@.phase is Drained || self@.phase is Failed),
        ensures
            next@ == self@.fail(e@),
    {
        self.at(DrainPhase::Failed(VerifiedDrainError::Other(e)))
    }

    fn hash(self, data: &Vec<u8>) -> (next: LayerDrain)
        requires
            !(self@.phase is Drained || self@.phase is Failed),
        ensures
            next@ == self@.hash(data@),
    {
        proof {
            use_type_invariant(&self);
        }
        match self.hasher {
            Some(hasher) => {
                let mut hasher = hasher;
                digest::sha256_update(&mut hasher, data.as_slice());
                let ghost all = digest::absorbed(hasher);
                LayerDrain { hasher: Some(hasher), hashed: Ghost(Some(all)), ..self }
            },
            None => LayerDrain { hasher: None, ..self },
        }
    }

    fn write_inline(self, data: Vec<u8>) -> (r: (LayerDrain, Option<Segment>))
        requires
            !(self@.phase is Drained || self@.phase is Failed),
            self@.stats.inline_fits(data@.len() as int),
        ensures
            r.0@ == self@.write_inline(data@),
            r.1 matches Some(segment) && segment@ == Segment::<Seq<u8>, Seq<u8>>::Inline(data@),
    {
        proof {
            use_type_invariant(&self);
        }
        let mut stats: ImportStats = self.stats;
        let ghost model = Segment::<Seq<u8>, Seq<u8>>::Inline(data@);
        let segment = layer_sync::inline_content(&mut stats, data);
        let next = LayerDrain {
            stats,
            written: Ghost(self.written@.push(model)),
            phase: DrainPhase::Reading,
            ..self
        };
        (next, Some(segment))
    }

    fn write_object(self, id: ObjectId, size: u64, method: ObjectStoreMethod) -> (r: (
        LayerDrain,
        Option<Segment>,
    ))
        requires
            !(self@.phase is Drained || self@.phase is Failed),
            self@.stats.object_fits(method, size as int),
        ensures
            r.0@ == self@.write_object(id@, size, method),
            r.1 matches Some(segment) && segment@ == (Segment::<Seq<u8>, Seq<u8>>::External {
                id: id@,
                size,
            }),
    {
        proof {
            use_type_invariant(&self);
        }
        let mut stats: ImportStats = self.stats;
        let ghost model = Segment::<Seq<u8>, Seq<u8>>::External { id: id@, size };
        let segment = layer_sync::external_content(&mut stats, size, id, method);
        let next = LayerDrain {
            stats,
            written: Ghost(self.written@.push(model)),
            phase: DrainPhase::Reading,
            ..self
        };
        (next, Some(segment))
    }

    /// The end of the stream: compares the hash, if there is one.
    fn end(self) -> (next: LayerDrain)
        requires
            !(self@.phase is Drained || self@.phase is Failed),
        ensures
            next@ == self@.after_chunk(None),
    {
        proof {
            use_type_invariant(&self);
        }
        match self.hasher {
            Some(hasher) => {
                let actual = digest::sha256_output_to_digest(&digest::sha256_finalize(hasher));
                match verify_diff_id(&self.diff_id, &actual) {
                    Ok(()) => LayerDrain { hasher: None, phase: DrainPhase::Drained, ..self },
                    Err(e) => LayerDrain { hasher: None, phase: DrainPhase::Failed(e), ..self },
                }
            },
            None => LayerDrain { hasher: None, phase: DrainPhase::Drained, ..self },
        }
    }

    fn after_chunk(self, chunk: Option<Chunk>) -> (r: (LayerDrain, Option<Segment>))
        requires
            self@.phase is Reading,
            self@.fits(DrainEvent::<Vec<u8>, ObjectId>::Chunk(chunk)@),
        ensures
            r.0@ == self@.after(DrainEvent::<Vec<u8>, ObjectId>::Chunk(chunk)@),
            self@.wrote(r.0@, r.1),
    {
        match chunk {
            None => (self.end(), None),
            Some(Chunk::Metadata(data)) => self.hash(&data).write_inline(data),
            Some(Chunk::InlineData(data)) => {
                let hashed = self.hash(&data);
                if layer_sync::should_inline(data.len() as u64) {
                    hashed.write_inline(data)
                } else {
                    (hashed.at(DrainPhase::StoringBytes { data }), None)
                }
            },
            Some(Chunk::FileBackedData { dirfd_index, length, filename }) => {
                match text::decode_utf8_strict(filename.as_slice()) {
                    None => (self.fail(DrainError::NonUtf8Filename { filename }), None),
                    Some(name) => {
                        if dirfd_index as usize >= self.dirs {
                            let count: usize = self.dirs;
                            (self.fail(DrainError::DirfdOutOfRange { dirfd_index, count }), None)
                        } else {
                            (
                                self.at(DrainPhase::CheckingDir { dirfd_index, length, name }),
                                None,
                            )
                        }
                    },
                }
            },
        }
    }

    fn after_open(self, dirfd_index: u32, length: u64, name: String, stat: FileStat) -> (next:
        LayerDrain)
        requires
            !(self@.phase is Drained || self@.phase is Failed),
        ensures
            next@ == self@.after_open(dirfd_index, length, name@, stat),
    {
        proof {
            use_type_invariant(&self);
        }
        let kind: FileKind = file_kind(stat.mode);
        if kind != FileKind::RegularFile {
            return self.fail(
                DrainError::NotARegularFile { name, slot: dirfd_index, kind, mode: stat.mode },
            );
        }
        let verifying: bool = self.hasher.is_some();
        if verifying && stat.size != length {
            self.fail(DrainError::LengthMismatch { name, declared: length, actual: stat.size })
        } else if verifying && length > 0 {
            self.at(DrainPhase::Hashing { name, length, offset: 0 })
        } else {
            self.at(DrainPhase::Storing { length })
        }
    }

    fn after_read(self, name: String, length: u64, offset: u64, data: Vec<u8>) -> (next: LayerDrain)
        requires
            self@.phase == (DrainPhase::<Seq<char>, Seq<u8>>::Hashing {
                name: name@,
                length,
                offset,
            }),
        ensures
            next@ == self@.after_read(name@, length, offset, data@),
    {
        proof {
            use_type_invariant(&self);
        }
        let n: usize = data.len();
        if n == 0 {
            return self.fail(DrainError::UnexpectedEof { name, offset, length });
        }
        if n > next_read(length, offset) {
            return self;
        }
        let hashed = self.hash(&data);
        let offset: u64 = offset + n as u64;
        if offset < length {
            hashed.at(DrainPhase::Hashing { name, length, offset })
        } else {
            hashed.at(DrainPhase::Storing { length })
        }
    }

    /// Takes in the outcome of what the drain waited for, and gives back what is
    /// to be written to the splitstream now.
    pub fn resume(self, event: DrainEvent) -> (r: (LayerDrain, Option<Segment>))
        requires
            self@.fits(event@),
        ensures
            r.0@ == self@.after(event@),
            self@.wrote(r.0@, r.1),
            r.1 matches Some(s) ==> r.0@.written == self@.written.push(s@),
            r.1 is None ==> r.0@.written == self@.written,
    {
        proof {
            use_type_invariant(&self);
        }
        match event {
            DrainEvent::Chunk(chunk) => match &self.phase {
                DrainPhase::Reading => self.after_chunk(chunk),
                _ => (self, None),
            },
            DrainEvent::DirStat(stat) => match &self.phase {
                DrainPhase::CheckingDir { dirfd_index, length, name } => {
                    let (dirfd_index, length): (u32, u64) = (*dirfd_index, *length);
                    let name: String = name.clone();
                    match assert_is_dir(stat, dirfd_index, name.as_str()) {
                        Ok(()) => (
                            self.at(DrainPhase::Opening { dirfd_index, length, name }),
                            None,
                        ),
                        Err(e) => (self.fail(e), None),
                    }
                },
                _ => (self, None),
            },
            DrainEvent::Opened(stat) => match &self.phase {
                DrainPhase::Opening { dirfd_index, length, name } => {
                    let (dirfd_index, length): (u32, u64) = (*dirfd_index, *length);
                    let name: String = name.clone();
                    (self.after_open(dirfd_index, length, name, stat), None)
                },
                _ => (self, None),
            },
            DrainEvent::Read(data) => match &self.phase {
                DrainPhase::Hashing { name, length, offset } => {
                    let name: String = name.clone();
                    let (length, offset): (u64, u64) = (*length, *offset);
                    (self.after_read(name, length, offset, data), None)
                },
                _ => (self, None),
            },
            DrainEvent::Content(data) => match &self.phase {
                DrainPhase::Storing { length } => {
                    let length: u64 = *length;
                    if !layer_sync::should_inline(length) {
                        (self, None)
                    } else if data.len() as u64 == length {
                        self.write_inline(data)
                    } else {
                        let read: usize = data.len();
                        (self.fail(DrainError::ShortContent { read, length }), None)
                    }
                },
                _ => (self, None),
            },
            DrainEvent::Stored { id, method } => match &self.phase {
                DrainPhase::Storing { length } => {
                    let length: u64 = *length;
                    if layer_sync::should_inline(length) {
                        (self, None)
                    } else {
                        self.write_object(id, length, method)
                    }
                },
                DrainPhase::StoringBytes { data } => {
                    let size: u64 = data.len() as u64;
                    self.write_object(id, size, method)
                },
                _ => (self, None),
            },
        }
    }
}

impl Drain {
    /// What a step wrote is what came out of it.
    pub open spec fn wrote(self, next: Drain, segment: Option<Segment>) -> bool {
        match segment {
            Some(s) => next.written == self.written.push(s@),
            None => next.written == self.written,
        }
    }
}

/// The models of errors have what the errors have.
pub proof fn drain_errors_are_faithful(e: VerifiedDrainError)
    ensures
        match (e, e@) {
            (
                VerifiedDrainError::DiffIdMismatch { expected, actual },
                VerifiedDrainError::DiffIdMismatch { expected: x, actual: a },
            ) => x == expected@ && a == actual@,
            (VerifiedDrainError::Other(e), VerifiedDrainError::Other(m)) => match (e, m) {
                (
                    DrainError::UnsupportedAlgorithm { algorithm },
                    DrainError::UnsupportedAlgorithm { algorithm: a },
                ) => a == algorithm@,
                (
                    DrainError::NonUtf8Filename { filename },
                    DrainError::NonUtf8Filename { filename: f },
                ) => f == filename@,
                (
                    DrainError::DirfdOutOfRange { dirfd_index, count },
                    DrainError::DirfdOutOfRange { dirfd_index: d, count: c },
                ) => d == dirfd_index && c == count,
                (
                    DrainError::NotADirectory { slot, kind, mode, size, name },
                    DrainError::NotADirectory { slot: s, kind: k, mode: m, size: z, name: n },
                ) => s == slot && k == kind && m == mode && z == size && n == name@,
                (
                    DrainError::NotARegularFile { name, slot, kind, mode },
                    DrainError::NotARegularFile { name: n, slot: s, kind: k, mode: m },
                ) => n == name@ && s == slot && k == kind && m == mode,
                (
                    DrainError::LengthMismatch { name, declared, actual },
                    DrainError::LengthMismatch { name: n, declared: d, actual: a },
                ) => n == name@ && d == declared && a == actual,
                (
                    DrainError::UnexpectedEof { name, offset, length },
                    DrainError::UnexpectedEof { name: n, offset: o, length: l },
                ) => n == name@ && o == offset && l == length,
                (
                    DrainError::ShortContent { read, length },
                    DrainError::ShortContent { read: r, length: l },
                ) => r == read && l == length,
                _ => false,
            },
            _ => false,
        },
{
}

/// The models of actions and events have what these have.
pub proof fn drain_models_are_faithful(action: DrainAction, event: DrainEvent)
    ensures
        match (action, action@) {
            (DrainAction::NextChunk, DrainAction::NextChunk) => true,
            (
                DrainAction::StatDir { dirfd_index },
                DrainAction::StatDir { dirfd_index: d },
            ) => d == dirfd_index,
            (
                DrainAction::OpenFile { dirfd_index, name },
                DrainAction::OpenFile { dirfd_index: d, name: n },
            ) => d == dirfd_index && n == name@,
            (
                DrainAction::HashFile { offset, want },
                DrainAction::HashFile { offset: o, want: w },
            ) => o == offset && w == want,
            (DrainAction::StoreFile(a), DrainAction::StoreFile(b)) => b == a,
            (DrainAction::StoreBytes { data }, DrainAction::StoreBytes { data: d }) => d == data@,
            (DrainAction::Commit, DrainAction::Commit) => true,
            (DrainAction::Fail(a), DrainAction::Fail(b)) => b == a@,
            _ => false,
        },
        match (event, event@) {
            (DrainEvent::Chunk(Some(a)), DrainEvent::Chunk(Some(b))) => b == a@,
            (DrainEvent::Chunk(None), DrainEvent::Chunk(None)) => true,
            (DrainEvent::DirStat(a), DrainEvent::DirStat(b)) => b == a,
            (DrainEvent::Opened(a), DrainEvent::Opened(b)) => b == a,
            (DrainEvent::Read(a), DrainEvent::Read(b)) => b == a@,
            (DrainEvent::Content(a), DrainEvent::Content(b)) => b == a@,
            (
                DrainEvent::Stored { id, method },
                DrainEvent::Stored { id: i, method: m },
            ) => i == id@ && m == method,
            _ => false,
        },
{
}

/// What an error says: what is wrong, with the names and numbers that it is about, each
/// where it belongs.
pub proof fn drain_messages_tell_what_is_wrong(
    name: Seq<char>,
    other: Seq<char>,
    filename: Seq<u8>,
    slot: u32,
    count: usize,
    kind: FileKind,
    mode: u32,
    a: u64,
    b: u64,
)
    ensures
        (VerifiedDrainError::<Seq<char>, Seq<u8>>::DiffIdMismatch {
            expected: name,
            actual: other,
        }).text() == "layer content does not match declared diff_id: expected "@ + name + ", got "@
            + other,
        (DrainError::<Seq<char>, Seq<u8>>::UnsupportedAlgorithm { algorithm: name }).text()
            == "unsupported diff_id algorithm "@ + text::quoted_text(name)
            + ": only sha256 is supported"@,
        (DrainError::<Seq<char>, Seq<u8>>::NonUtf8Filename { filename }).text()
            == "non-utf8 filename in splitdirfdstream: "@ + text::byte_list_text(filename),
        (DrainError::<Seq<char>, Seq<u8>>::DirfdOutOfRange { dirfd_index: slot, count }).text()
            == "dirfd_index "@ + text::decimal_text(slot as nat) + " out of range (dir_fds.len="@
            + text::decimal_text(count as nat) + ")"@,
        (DrainError::<Seq<char>, Seq<u8>>::NotADirectory { slot, kind, mode, size: a, name }).text()
            == "overlay_dir["@ + text::decimal_text(slot as nat)
            + "] is not a directory (file type: "@ + kind.name_text() + ", mode=0o"@
            + text::octal_text(mode as nat) + ", size="@ + text::decimal_text(a as nat)
            + ") — cannot open "@ + text::quoted_text(name)
            + "; this is likely a bug where a dummy fd (e.g. /dev/null or memfd) was stored at a slot that should hold a real diff-dir fd"@,
        (DrainError::<Seq<char>, Seq<u8>>::NotARegularFile { name, slot, kind, mode }).text()
            == "object "@ + text::quoted_text(name) + " in overlay dir["@ + text::decimal_text(
            slot as nat,
        ) + "] is not a regular file (file type: "@ + kind.name_text() + ", mode=0o"@
            + text::octal_text(mode as nat) + ")"@,
        (DrainError::<Seq<char>, Seq<u8>>::LengthMismatch { name, declared: a, actual: b }).text()
            == "object "@ + name + ": declared length "@ + text::decimal_text(a as nat)
            + " != actual size "@ + text::decimal_text(b as nat),
        (DrainError::<Seq<char>, Seq<u8>>::UnexpectedEof { name, offset: a, length: b }).text()
            == "hashing object "@ + name + ": unexpected EOF at offset "@ + text::decimal_text(
            a as nat,
        ) + " hashing fd (expected "@ + text::decimal_text(b as nat) + " bytes total)"@,
        (DrainError::<Seq<char>, Seq<u8>>::ShortContent { read: count, length: b }).text()
            == "failed to fill whole buffer"@,
        FileKind::RegularFile.name_text() == "RegularFile"@,
        FileKind::Directory.name_text() == "Directory"@,
        FileKind::Symlink.name_text() == "Symlink"@,
        FileKind::Fifo.name_text() == "Fifo"@,
        FileKind::Socket.name_text() == "Socket"@,
        FileKind::CharacterDevice.name_text() == "CharacterDevice"@,
        FileKind::BlockDevice.name_text() == "BlockDevice"@,
        FileKind::Unknown.name_text() == "Unknown"@,
{
}

} // verus!

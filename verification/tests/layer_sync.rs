//! Storing file content, producing streams and draining them.
use std::collections::HashMap;

use composefs_sync::digest::{sha256_content_digest, ObjectId, OciDigest};
use composefs_sync::drain::{
    assert_is_dir, drain_splitdirfdstream, drain_splitdirfdstream_verified, DrainAction,
    DrainError, DrainEvent, FileKind, FileStat, LayerDrain, VerifiedDrainError, HASH_READ_SIZE,
};
use composefs_sync::layer_sync::{
    external_content, inline_content, process_file_content, produce_layer_splitdirfdstream,
    should_inline, Chunk, ContentAction, Segment,
};
use composefs_sync::stats::{ImportStats, ObjectStoreMethod};
use composefs_sync::INLINE_CONTENT_MAX_V0;

#[test]
fn test_should_inline_boundary() {
    assert!(should_inline(0), "size 0 should be inlined");
    assert!(should_inline(1), "size 1 should be inlined");
    assert!(
        should_inline(INLINE_CONTENT_MAX_V0 as u64),
        "size == INLINE_CONTENT_MAX_V0 ({INLINE_CONTENT_MAX_V0}) should be inlined"
    );
    assert!(
        !should_inline(INLINE_CONTENT_MAX_V0 as u64 + 1),
        "size INLINE_CONTENT_MAX_V0+1 ({}) should NOT be inlined",
        INLINE_CONTENT_MAX_V0 + 1
    );
    for size in [128u64, 4096, 65536, 1024 * 1024] {
        assert!(
            !should_inline(size),
            "size {size} should NOT be inlined (well above threshold)"
        );
    }
}

/// A repository in memory.
#[derive(Default)]
struct Repo {
    objects: HashMap<Vec<u8>, Vec<u8>>,
    streams: HashMap<String, (Vec<u8>, Vec<Segment>)>,
}

fn content_of(len: usize) -> Vec<u8> {
    (0..len).map(|i| (i % 251) as u8).collect()
}

fn hash(data: &[u8]) -> Vec<u8> {
    let mut hasher = <sha2::Sha256 as sha2::Digest>::new();
    sha2::Digest::update(&mut hasher, data);
    sha2::Digest::finalize(hasher).to_vec()
}

fn object_id(data: &[u8]) -> ObjectId {
    ObjectId::from_bytes(hash(data)).unwrap()
}

impl Repo {
    /// Stores an object. Nothing in memory can be reflinked or hardlinked.
    fn ensure_object(&mut self, data: &[u8]) -> (ObjectId, ObjectStoreMethod) {
        let id = object_id(data);
        let fresh = self
            .objects
            .insert(id.as_bytes().clone(), data.to_vec())
            .is_none();
        if fresh {
            (id, ObjectStoreMethod::Copied)
        } else {
            (id, ObjectStoreMethod::AlreadyPresent)
        }
    }

    fn has_stream(&self, diff_id: &OciDigest) -> Option<&Vec<u8>> {
        self.streams.get(diff_id.as_str()).map(|s| &s.0)
    }

    fn cat(&self, diff_id: &OciDigest) -> Vec<u8> {
        let mut out = Vec::new();
        for segment in &self.streams[diff_id.as_str()].1 {
            match segment {
                Segment::Inline(data) => out.extend_from_slice(data),
                Segment::External { id, .. } => {
                    out.extend_from_slice(&self.objects[id.as_bytes()])
                }
            }
        }
        out
    }

    /// Commits a layer and gives its identifier, which its entries determine.
    fn commit(&mut self, diff_id: &OciDigest, segments: Vec<Segment>) -> Vec<u8> {
        let mut summary = Vec::new();
        for segment in &segments {
            match segment {
                Segment::Inline(data) => {
                    summary.push(0);
                    summary.extend_from_slice(data);
                }
                Segment::External { id, size } => {
                    summary.push(1);
                    summary.extend_from_slice(id.as_bytes());
                    summary.extend_from_slice(&size.to_le_bytes());
                }
            }
        }
        let verity = hash(&summary);
        self.streams
            .insert(diff_id.as_str().to_string(), (verity.clone(), segments));
        verity
    }

    /// Stores one file, as told by `process_file_content`.
    fn store_file(
        &mut self,
        stats: &mut ImportStats,
        data: &[u8],
        zerocopy: bool,
    ) -> Segment {
        match process_file_content(data.len() as u64, zerocopy) {
            ContentAction::ReadInline { size } => {
                assert_eq!(size, data.len());
                assert!(stats.can_count_inline(size as u64));
                inline_content(stats, data.to_vec())
            }
            ContentAction::StoreObject { size, zerocopy: z } => {
                assert_eq!(size, data.len() as u64);
                assert_eq!(z, zerocopy);
                let (id, method) = self.ensure_object(data);
                assert!(stats.can_count_object(method, size));
                external_content(stats, size, id, method)
            }
        }
    }

    /// Imports a tar layer: large files become objects, all else stays inline.
    fn import_layer(&mut self, diff_id: &OciDigest, tar: &[u8]) -> Vec<u8> {
        let mut stats = ImportStats::default();
        let mut segments = Vec::new();
        let mut inline = Vec::new();
        let mut pos = 0;
        while pos < tar.len() {
            let header = &tar[pos..pos + 512];
            inline.extend_from_slice(header);
            pos += 512;
            let digits = std::str::from_utf8(&header[124..135]).unwrap_or("");
            let size = usize::from_str_radix(digits.trim_matches('\0'), 8).unwrap_or(0);
            let data = &tar[pos..pos + size];
            let padded = (size + 511) / 512 * 512;
            if should_inline(size as u64) {
                inline.extend_from_slice(data);
            } else {
                segments.push(Segment::Inline(std::mem::take(&mut inline)));
                segments.push(self.store_file(&mut stats, data, false));
            }
            inline.extend_from_slice(&tar[pos + size..pos + padded]);
            pos += padded;
        }
        segments.push(Segment::Inline(inline));
        self.commit(diff_id, segments)
    }

    fn copy_of_layer(&self, diff_id: &OciDigest) -> Vec<Segment> {
        self.streams[diff_id.as_str()]
            .1
            .iter()
            .map(|s| match s {
                Segment::Inline(data) => Segment::Inline(data.clone()),
                Segment::External { id, size } => Segment::External {
                    id: id.clone(),
                    size: *size,
                },
            })
            .collect()
    }
}

/// A tar archive of files of the given sizes.
fn build_tar_layer(file_sizes: &[usize]) -> Vec<u8> {
    let mut out = Vec::new();
    for &size in file_sizes {
        let mut header = vec![0u8; 512];
        let name = format!("file_{size}_{:08x}", size);
        header[..name.len()].copy_from_slice(name.as_bytes());
        header[100..107].copy_from_slice(b"0000644");
        header[124..135].copy_from_slice(format!("{size:011o}").as_bytes());
        header[156] = b'0';
        header[257..262].copy_from_slice(b"ustar");
        out.extend_from_slice(&header);
        out.extend_from_slice(&content_of(size));
        out.resize((out.len() + 511) / 512 * 512, 0);
    }
    out.extend_from_slice(&[0u8; 1024]);
    out
}

#[test]
fn test_process_file_content_inline_vs_external() {
    let cases = [
        (0usize, false),
        (1, false),
        (INLINE_CONTENT_MAX_V0, false),
        (INLINE_CONTENT_MAX_V0 + 1, true),
        (4096, true),
        (256 * 1024, true),
    ];

    for (size, expect_external) in cases {
        let mut repo = Repo::default();
        let mut stats = ImportStats::default();

        let before_inlined = stats.bytes_inlined;
        let segment = repo.store_file(&mut stats, &content_of(size), false);

        let objects_written = stats.objects_reflinked
            + stats.objects_hardlinked
            + stats.objects_copied
            + stats.objects_already_present;

        if expect_external {
            assert_eq!(
                stats.bytes_inlined, before_inlined,
                "size {size}: external file must not change bytes_inlined"
            );
            assert_eq!(
                objects_written, 1,
                "size {size}: exactly one external object expected"
            );
            assert!(matches!(segment, Segment::External { size: s, .. } if s == size as u64));
        } else {
            assert_eq!(
                stats.bytes_inlined,
                before_inlined + size as u64,
                "size {size}: inline file must add its bytes to bytes_inlined"
            );
            assert_eq!(
                objects_written, 0,
                "size {size}: inline file must not write an object"
            );
            assert!(matches!(segment, Segment::Inline(data) if data == content_of(size)));
        }
    }
}

#[test]
fn test_memfd_file_content_uses_copy_fallback() {
    let mut repo = Repo::default();
    let size: usize = INLINE_CONTENT_MAX_V0 + 1; // just above inline threshold
    let data: Vec<u8> = (0..size).map(|i| (i % 251) as u8).collect();

    let mut stats = ImportStats::default();
    repo.store_file(&mut stats, &data, false);

    assert_eq!(stats.objects_copied, 1, "memfd content should be copied");
    assert_eq!(stats.bytes_copied, size as u64);

    // The same content, received over the pipe, is not asked to be zero-copied
    // even if the drain insists on that for files.
    let diff_id = sha256_content_digest(&data);
    let mut drain = drain_splitdirfdstream(0, &diff_id, true);
    drain = drain.resume(DrainEvent::Chunk(Some(Chunk::InlineData(data.clone())))).0;
    match drain.action() {
        DrainAction::StoreBytes { data: bytes } => assert_eq!(bytes, data),
        _ => panic!("the content must be stored as bytes"),
    }
    let (drain, segment) = drain.resume(DrainEvent::Stored {
        id: object_id(&data),
        method: ObjectStoreMethod::Copied,
    });
    assert!(matches!(segment, Some(Segment::External { size: 65, .. })));
    assert_eq!(drain.stats().objects_copied, 1);
    assert_eq!(drain.stats().bytes_copied, 65);
}

const DIR: FileStat = FileStat { mode: 0o40755, size: 4096 };

/// The files of the objects directory, by path.
fn objects_dir(repo: &Repo) -> HashMap<String, Vec<u8>> {
    repo.objects
        .iter()
        .map(|(id, data)| {
            let id = ObjectId::from_bytes(id.clone()).unwrap();
            (id.to_object_pathname(), data.clone())
        })
        .collect()
}

/// Runs a drain over a stream, with one directory of files in slot 0, reading
/// `read_size` bytes at a time.
fn run(
    mut drain: LayerDrain,
    stream: Vec<Chunk>,
    dir: &HashMap<String, Vec<u8>>,
    repo: &mut Repo,
    read_size: usize,
) -> Result<(Vec<u8>, ImportStats), VerifiedDrainError> {
    let mut chunks = stream.into_iter();
    let mut written = Vec::new();
    let mut open: Vec<u8> = Vec::new();
    loop {
        let event = match drain.action() {
            DrainAction::NextChunk => DrainEvent::Chunk(chunks.next()),
            DrainAction::StatDir { dirfd_index } => {
                assert_eq!(dirfd_index, 0);
                DrainEvent::DirStat(DIR)
            }
            DrainAction::OpenFile { dirfd_index, name } => {
                assert_eq!(dirfd_index, 0);
                open = dir[&name].clone();
                DrainEvent::Opened(FileStat {
                    mode: 0o100644,
                    size: open.len() as u64,
                })
            }
            DrainAction::HashFile { offset, want } => {
                let from = offset as usize;
                let to = open.len().min(from + want.min(read_size));
                DrainEvent::Read(open[from..to].to_vec())
            }
            DrainAction::StoreFile(ContentAction::ReadInline { size }) => {
                DrainEvent::Content(open[..size].to_vec())
            }
            DrainAction::StoreFile(ContentAction::StoreObject { .. }) => {
                let (id, method) = repo.ensure_object(&open);
                DrainEvent::Stored { id, method }
            }
            DrainAction::StoreBytes { data } => {
                let (id, method) = repo.ensure_object(&data);
                DrainEvent::Stored { id, method }
            }
            DrainAction::Commit => {
                let diff_id = drain.diff_id().clone();
                let stats = drain.stats();
                return Ok((repo.commit(&diff_id, written), stats));
            }
            DrainAction::Fail(e) => return Err(e),
        };
        assert!(drain.can_resume(&event));
        let (next, segment) = drain.resume(event);
        written.extend(segment);
        drain = next;
    }
}

/// Puts a stream together again.
fn reconstruct(stream: &[Chunk], dir: &HashMap<String, Vec<u8>>) -> Vec<u8> {
    let mut out = Vec::new();
    for chunk in stream {
        match chunk {
            Chunk::Metadata(data) => out.extend_from_slice(data),
            Chunk::InlineData(data) => out.extend_from_slice(data),
            Chunk::FileBackedData {
                dirfd_index,
                length,
                filename,
            } => {
                assert_eq!(*dirfd_index, 0);
                let data = &dir[std::str::from_utf8(filename).unwrap()];
                assert_eq!(*length, data.len() as u64);
                out.extend_from_slice(data);
            }
        }
    }
    out
}

#[test]
fn test_produce_reconstruct_eq_cat() {
    let mut repo = Repo::default();

    // (label, file sizes in bytes)
    let cases: &[(&str, &[usize])] = &[
        // All inline: empty layer (no files)
        ("empty", &[]),
        // All inline: only small files (all <= INLINE_CONTENT_MAX_V0 = 64)
        ("all_inline", &[0, 1, 10, 64]),
        // Single external object (> 64 bytes)
        ("single_external", &[65]),
        // Larger external objects
        ("large_external", &[4096, 200_000]),
        // Mixed: small + large + various sizes
        ("mixed", &[0, 10, 64, 65, 4096, 200_000]),
    ];

    for (label, sizes) in cases {
        let tar_bytes = build_tar_layer(sizes);
        let diff_id = sha256_content_digest(&tar_bytes);
        repo.import_layer(&diff_id, &tar_bytes);

        let expected = repo.cat(&diff_id);
        assert_eq!(expected, tar_bytes, "{label}");
        let stream = produce_layer_splitdirfdstream(repo.copy_of_layer(&diff_id), 0);
        let actual = reconstruct(&stream, &objects_dir(&repo));
        assert_eq!(actual, expected, "produce->reconstruct must equal cat for {label}");
    }
}

#[test]
fn test_verified_drain_correct_diff_id() {
    let mut repo_a = Repo::default();
    let mut repo_b = Repo::default();

    // Build a layer with both inline and external content.
    let tar_bytes = build_tar_layer(&[10, 128 * 1024]); // 10 B inline + 128 KiB external
    let diff_id = sha256_content_digest(&tar_bytes);
    let verity_a = repo_a.import_layer(&diff_id, &tar_bytes);

    let stream = produce_layer_splitdirfdstream(repo_a.copy_of_layer(&diff_id), 0);
    let drain = drain_splitdirfdstream_verified(1, &diff_id, false)
        .unwrap_or_else(|e| panic!("sha256 must be accepted: {e:?}"));
    let (verity_b, stats) = run(drain, stream, &objects_dir(&repo_a), &mut repo_b, 1000)
        .unwrap_or_else(|e| panic!("verified drain must succeed: {e:?}"));

    // The layer must now be committed in repo_b.
    assert!(
        repo_b.has_stream(&diff_id).is_some(),
        "repo_b must have the layer stream after verified drain"
    );
    assert_eq!(repo_b.cat(&diff_id), tar_bytes);

    // Both repos resolved to the same verity hash.
    assert_eq!(
        verity_a, verity_b,
        "verity hash must be identical across repos"
    );
    assert_eq!(stats.objects_copied, 1);
    assert_eq!(stats.bytes_copied, 128 * 1024);
    assert_eq!(stats.bytes_inlined as usize + 128 * 1024, tar_bytes.len());
}

#[test]
fn test_verified_drain_wrong_diff_id() {
    let mut repo_a = Repo::default();
    let mut repo_b = Repo::default();

    let tar_bytes = build_tar_layer(&[10, 128 * 1024]);
    let correct_diff_id = sha256_content_digest(&tar_bytes);
    repo_a.import_layer(&correct_diff_id, &tar_bytes);

    // Construct a diff_id that is a valid sha256 digest but definitely wrong.
    let wrong_diff_id = OciDigest::parse(
        "sha256:0000000000000000000000000000000000000000000000000000000000000000",
    )
    .unwrap();

    let stream = produce_layer_splitdirfdstream(repo_a.copy_of_layer(&correct_diff_id), 0);
    let drain = drain_splitdirfdstream_verified(1, &wrong_diff_id, false)
        .unwrap_or_else(|e| panic!("sha256 must be accepted: {e:?}"));
    let result = run(drain, stream, &objects_dir(&repo_a), &mut repo_b, usize::MAX);

    // Must fail with DiffIdMismatch.
    match result {
        Err(VerifiedDrainError::DiffIdMismatch { expected, actual }) => {
            assert_eq!(
                expected,
                wrong_diff_id.as_str().to_string(),
                "expected field must be the wrong diff_id"
            );
            assert_eq!(
                actual,
                correct_diff_id.as_str().to_string(),
                "actual field must be the real content hash"
            );
            let message = VerifiedDrainError::DiffIdMismatch { expected, actual }.message();
            assert_eq!(
                message,
                format!(
                    "layer content does not match declared diff_id: expected {}, got {}",
                    wrong_diff_id.as_str(),
                    correct_diff_id.as_str()
                )
            );
        }
        other => panic!("expected DiffIdMismatch, got {other:?}"),
    }

    // The stream must NOT be committed in repo_b.
    assert!(
        repo_b.has_stream(&wrong_diff_id).is_none(),
        "repo_b must NOT have a committed stream for the wrong diff_id"
    );
}

#[test]
fn test_verified_drain_rejects_non_sha256() {
    // A valid sha512 digest (64 bytes hex) — well-formed but unsupported.
    let sha512_diff_id = OciDigest::parse(&format!("sha512:{}", "0".repeat(128)))
        .unwrap_or_else(|_| panic!("valid sha512 digest"));

    match drain_splitdirfdstream_verified(1, &sha512_diff_id, false) {
        Err(VerifiedDrainError::Other(e)) => {
            let msg = e.message();
            assert!(
                msg.contains("sha256") && msg.contains("sha512"),
                "error should explain the algorithm restriction, got: {msg}"
            );
            assert_eq!(
                msg,
                "unsupported diff_id algorithm \"sha512\": only sha256 is supported"
            );
        }
        _ => panic!("expected Other(unsupported algorithm) error"),
    }
    // Without verification the algorithm does not matter.
    let drain = drain_splitdirfdstream(1, &sha512_diff_id, false);
    assert!(matches!(drain.action(), DrainAction::NextChunk));
}

#[test]
fn unverified_drain_gives_the_layer_back() {
    let mut repo_a = Repo::default();
    let mut repo_b = Repo::default();
    let tar_bytes = build_tar_layer(&[64, 65, 3]);
    let diff_id = sha256_content_digest(&tar_bytes);
    let verity_a = repo_a.import_layer(&diff_id, &tar_bytes);
    let stream = produce_layer_splitdirfdstream(repo_a.copy_of_layer(&diff_id), 0);
    let drain = drain_splitdirfdstream(1, &diff_id, false);
    let (verity_b, _) = run(drain, stream, &objects_dir(&repo_a), &mut repo_b, 7)
        .unwrap_or_else(|e| panic!("{e:?}"));
    assert_eq!(verity_a, verity_b);
    assert_eq!(repo_b.cat(&diff_id), tar_bytes);
}

fn file_chunk(dirfd_index: u32, length: u64, filename: &[u8]) -> Option<Chunk> {
    Some(Chunk::FileBackedData {
        dirfd_index,
        length,
        filename: filename.to_vec(),
    })
}

fn verified(dirs: usize) -> LayerDrain {
    let diff_id = sha256_content_digest(b"abc");
    match drain_splitdirfdstream_verified(dirs, &diff_id, true) {
        Ok(drain) => drain,
        Err(e) => panic!("{e:?}"),
    }
}

fn failure(drain: &LayerDrain) -> DrainError {
    match drain.action() {
        DrainAction::Fail(VerifiedDrainError::Other(e)) => e,
        _ => panic!("expected a failure"),
    }
}

#[test]
fn bad_chunks_are_rejected() {
    let drain = verified(2).resume(DrainEvent::Chunk(file_chunk(0, 1, &[0xff, 0x41]))).0;
    let e = failure(&drain);
    assert!(matches!(e, DrainError::NonUtf8Filename { .. }));
    assert_eq!(e.message(), "non-utf8 filename in splitdirfdstream: [255, 65]");

    let drain = verified(2).resume(DrainEvent::Chunk(file_chunk(2, 1, b"f"))).0;
    assert_eq!(
        failure(&drain).message(),
        "dirfd_index 2 out of range (dir_fds.len=2)"
    );

    let drain = verified(2).resume(DrainEvent::Chunk(file_chunk(1, 1, b"f"))).0;
    assert!(matches!(drain.action(), DrainAction::StatDir { dirfd_index: 1 }));
    let null = FileStat { mode: 0o020666, size: 0 };
    let drain = drain.resume(DrainEvent::DirStat(null)).0;
    let e = failure(&drain);
    assert!(matches!(
        e,
        DrainError::NotADirectory { slot: 1, kind: FileKind::CharacterDevice, .. }
    ));
    assert_eq!(
        e.message(),
        "overlay_dir[1] is not a directory (file type: CharacterDevice, mode=0o20666, size=0) \
         — cannot open \"f\"; this is likely a bug where a dummy fd (e.g. /dev/null or memfd) \
         was stored at a slot that should hold a real diff-dir fd"
    );
}

fn opening(length: u64) -> LayerDrain {
    let drain = verified(1).resume(DrainEvent::Chunk(file_chunk(0, length, b"a/b"))).0;
    let drain = drain.resume(DrainEvent::DirStat(DIR)).0;
    assert!(matches!(
        drain.action(),
        DrainAction::OpenFile { dirfd_index: 0, name } if name == "a/b"
    ));
    drain
}

#[test]
fn bad_files_are_rejected() {
    let fifo = FileStat { mode: 0o010600, size: 5 };
    let e = failure(&opening(5).resume(DrainEvent::Opened(fifo)).0);
    assert_eq!(
        e.message(),
        "object \"a/b\" in overlay dir[0] is not a regular file (file type: Fifo, mode=0o10600)"
    );

    let longer = FileStat { mode: 0o100644, size: 6 };
    let e = failure(&opening(5).resume(DrainEvent::Opened(longer)).0);
    assert_eq!(e.message(), "object a/b: declared length 5 != actual size 6");

    // The file is truncated while it is being hashed.
    let file = FileStat { mode: 0o100644, size: 100_000 };
    let drain = opening(100_000).resume(DrainEvent::Opened(file)).0;
    assert!(matches!(
        drain.action(),
        DrainAction::HashFile { offset: 0, want: HASH_READ_SIZE }
    ));
    let drain = drain.resume(DrainEvent::Read(vec![1; 65536])).0;
    assert!(matches!(
        drain.action(),
        DrainAction::HashFile { offset: 65536, want: 34464 }
    ));
    let e = failure(&drain.resume(DrainEvent::Read(vec![])).0);
    assert_eq!(
        e.message(),
        "hashing object a/b: unexpected EOF at offset 65536 hashing fd (expected 100000 bytes total)"
    );

    // A small file turns out shorter when it is read.
    let file = FileStat { mode: 0o100644, size: 3 };
    let drain = opening(3).resume(DrainEvent::Opened(file)).0;
    let drain = drain.resume(DrainEvent::Read(vec![1, 2, 3])).0;
    assert!(matches!(
        drain.action(),
        DrainAction::StoreFile(ContentAction::ReadInline { size: 3 })
    ));
    let e = failure(&drain.resume(DrainEvent::Content(vec![1, 2])).0);
    assert!(matches!(e, DrainError::ShortContent { read: 2, length: 3 }));
    assert_eq!(e.message(), "failed to fill whole buffer");
}

#[test]
fn zerocopy_is_passed_on_for_files_only() {
    let file = FileStat { mode: 0o100644, size: 65 };
    let mut drain = opening(65).resume(DrainEvent::Opened(file)).0;
    drain = drain.resume(DrainEvent::Read(vec![9; 65])).0;
    assert!(matches!(
        drain.action(),
        DrainAction::StoreFile(ContentAction::StoreObject { size: 65, zerocopy: true })
    ));
}

#[test]
fn events_out_of_turn_change_nothing() {
    let (drain, segment) = verified(1).resume(DrainEvent::Read(vec![1]));
    assert!(segment.is_none());
    assert!(matches!(drain.action(), DrainAction::NextChunk));
    let (drain, segment) = drain.resume(DrainEvent::Stored {
        id: object_id(b"x"),
        method: ObjectStoreMethod::Reflinked,
    });
    assert!(segment.is_none());
    assert_eq!(drain.stats(), ImportStats::default());
}

#[test]
fn only_directories_pass_for_directories() {
    assert!(assert_is_dir(DIR, 3, "x").is_ok());
    let kinds = [
        (0o100644, FileKind::RegularFile),
        (0o120777, FileKind::Symlink),
        (0o010644, FileKind::Fifo),
        (0o140755, FileKind::Socket),
        (0o020666, FileKind::CharacterDevice),
        (0o060660, FileKind::BlockDevice),
        (0o000000, FileKind::Unknown),
    ];
    for (mode, expected) in kinds {
        match assert_is_dir(FileStat { mode, size: 7 }, 3, "x") {
            Err(DrainError::NotADirectory { slot, kind, mode: m, size, name }) => {
                assert_eq!((slot, kind, m, size), (3, expected, mode, 7));
                assert_eq!(name, "x");
            }
            _ => panic!("mode {mode:o}"),
        }
    }
}

#[test]
fn counters_follow_the_method() {
    let mut stats = ImportStats::default();
    let id = object_id(b"x");
    external_content(&mut stats, 100, id.clone(), ObjectStoreMethod::Reflinked);
    external_content(&mut stats, 200, id.clone(), ObjectStoreMethod::Hardlinked);
    external_content(&mut stats, 300, id.clone(), ObjectStoreMethod::Copied);
    external_content(&mut stats, 400, id, ObjectStoreMethod::AlreadyPresent);
    inline_content(&mut stats, vec![1, 2, 3]);
    let expected = ImportStats {
        objects_reflinked: 1,
        bytes_reflinked: 100,
        objects_hardlinked: 1,
        bytes_hardlinked: 200,
        objects_copied: 1,
        bytes_copied: 300,
        objects_already_present: 1,
        bytes_inlined: 3,
        ..ImportStats::default()
    };
    assert_eq!(stats, expected);
    let mut twice = stats;
    assert!(twice.can_merge(&stats));
    twice.merge(&stats);
    assert_eq!(twice.bytes_copied, 600);
    assert_eq!(twice.objects_already_present, 2);

    let full = ImportStats { bytes_inlined: u64::MAX, objects_copied: u64::MAX, ..stats };
    assert!(!full.can_count_inline(1));
    assert!(full.can_count_inline(0));
    assert!(!full.can_count_object(ObjectStoreMethod::Copied, 0));
    assert!(full.can_count_object(ObjectStoreMethod::Reflinked, 1));
    assert!(!full.can_merge(&stats));
}

#[test]
fn produced_chunks_name_the_objects() {
    let id = ObjectId::from_bytes(vec![0xab, 0xcd, 0x01]).unwrap();
    let stream = produce_layer_splitdirfdstream(
        vec![Segment::Inline(vec![1, 2]), Segment::External { id, size: 77 }],
        5,
    );
    assert_eq!(stream.len(), 2);
    assert!(matches!(&stream[0], Chunk::Metadata(data) if data == &vec![1, 2]));
    match &stream[1] {
        Chunk::FileBackedData { dirfd_index, length, filename } => {
            assert_eq!((*dirfd_index, *length), (5, 77));
            assert_eq!(filename, b"ab/cd01");
        }
        _ => panic!("an object must be a file"),
    }
}

#[test]
fn ended_drains_stay_as_they_are() {
    let failed = verified(0).resume(DrainEvent::Chunk(file_chunk(0, 1, b"f"))).0;
    let (failed, segment) = failed.resume(DrainEvent::Chunk(Some(Chunk::Metadata(vec![1]))));
    assert!(segment.is_none());
    assert!(matches!(
        failure(&failed),
        DrainError::DirfdOutOfRange { dirfd_index: 0, count: 0 }
    ));

    let done = verified(0).resume(DrainEvent::Chunk(Some(Chunk::InlineData(b"abc".to_vec())))).0;
    let done = done.resume(DrainEvent::Chunk(None)).0;
    assert!(matches!(done.action(), DrainAction::Commit));
    let (done, segment) = done.resume(DrainEvent::Chunk(Some(Chunk::Metadata(vec![1]))));
    assert!(segment.is_none());
    assert!(matches!(done.action(), DrainAction::Commit));
    assert_eq!(done.stats().bytes_inlined, 3);
}

#[test]
fn gap_slots_are_never_touched() {
    let mut repo_a = Repo::default();
    let tar_bytes = build_tar_layer(&[100, 200]);
    let diff_id = sha256_content_digest(&tar_bytes);
    repo_a.import_layer(&diff_id, &tar_bytes);
    let files = objects_dir(&repo_a);
    let stream = produce_layer_splitdirfdstream(repo_a.copy_of_layer(&diff_id), 3);
    let mut drain = drain_splitdirfdstream(8, &diff_id, false);
    let mut chunks = stream.into_iter();
    let mut touched = Vec::new();
    let mut open = Vec::new();
    loop {
        let event = match drain.action() {
            DrainAction::NextChunk => DrainEvent::Chunk(chunks.next()),
            DrainAction::StatDir { dirfd_index } => {
                touched.push(dirfd_index);
                DrainEvent::DirStat(DIR)
            }
            DrainAction::OpenFile { dirfd_index, name } => {
                touched.push(dirfd_index);
                open = files[&name].clone();
                DrainEvent::Opened(FileStat { mode: 0o100600, size: open.len() as u64 })
            }
            DrainAction::StoreFile(_) => DrainEvent::Stored {
                id: object_id(&open),
                method: ObjectStoreMethod::Hardlinked,
            },
            DrainAction::Commit => break,
            _ => panic!("nothing else is asked for"),
        };
        drain = drain.resume(event).0;
    }
    assert_eq!(touched, vec![3, 3, 3, 3]);
    assert_eq!(drain.stats().objects_hardlinked, 2);
    assert_eq!(drain.stats().bytes_hardlinked, 300);
}

#[test]
fn verification_only_adds_the_check() {
    let mut source = Repo::default();
    let tar = build_tar_layer(&[0, 10, 64, 65, 4096]);
    let diff_id = sha256_content_digest(&tar);
    source.import_layer(&diff_id, &tar);
    let dir = objects_dir(&source);
    let stream = || produce_layer_splitdirfdstream(source.copy_of_layer(&diff_id), 0);

    let (mut plain_repo, mut verified_repo) = (Repo::default(), Repo::default());
    let plain = drain_splitdirfdstream(1, &diff_id, false);
    let plain = run(plain, stream(), &dir, &mut plain_repo, 100).unwrap();
    let checked = drain_splitdirfdstream_verified(1, &diff_id, false).ok().unwrap();
    let checked = run(checked, stream(), &dir, &mut verified_repo, 100).unwrap();
    assert_eq!(plain, checked);
    assert_eq!(plain.1.layers, 0);
}

#[test]
fn file_content_may_be_sent_along() {
    let content = content_of(5000);
    let small = content_of(20);
    let dir = HashMap::from([("a/b".to_string(), content.clone()), ("c".to_string(), small.clone())]);
    let header = Chunk::Metadata(b"header".to_vec());
    let by_name = vec![
        header,
        file_chunk(0, 5000, b"a/b").unwrap(),
        file_chunk(0, 20, b"c").unwrap(),
    ];
    let header = Chunk::Metadata(b"header".to_vec());
    let along = vec![header, Chunk::InlineData(content), Chunk::InlineData(small)];
    let diff_id = sha256_content_digest(&reconstruct(&by_name, &dir));
    let mut verities = Vec::new();
    for stream in [by_name, along] {
        let drain = drain_splitdirfdstream_verified(1, &diff_id, false).ok().unwrap();
        verities.push(run(drain, stream, &dir, &mut Repo::default(), 4096).unwrap().0);
    }
    assert_eq!(verities[0], verities[1]);
}

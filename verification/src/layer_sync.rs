//! Content-agnostic layer synchronisation: how the entries of a stored layer
//! become chunks of a `splitdirfdstream`, and how file content is stored.
use vstd::prelude::*;
use vstd::utf8::*;

use crate::digest;
use crate::digest::ObjectId;
use crate::stats::{ImportStats, ObjectStoreMethod};
use crate::INLINE_CONTENT_MAX_V0;

verus! {

/// Decide whether a file of the given `size` should be stored inline in the
/// splitstream rather than as a separate object in the object store.
///
/// Files with `size <= INLINE_CONTENT_MAX_V0` are embedded directly in the
/// splitstream; larger files become external objects.
pub fn should_inline(size: u64) -> (inline: bool)
    ensures
        inline == (size <= INLINE_CONTENT_MAX_V0),
{
    size <= INLINE_CONTENT_MAX_V0 as u64
}

/// One entry of a splitstream: bytes, or a reference to an object.
pub enum Segment<B = Vec<u8>, I = ObjectId> {
    /// Bytes stored in the stream itself.
    Inline(B),
    /// An object of the object store.
    External {
        /// The object.
        id: I,
        /// Its size in bytes.
        size: u64,
    },
}

impl View for Segment<Vec<u8>, ObjectId> {
    type V = Segment<Seq<u8>, Seq<u8>>;

    open spec fn view(&self) -> Segment<Seq<u8>, Seq<u8>> {
        match self {
            Segment::Inline(data) => Segment::Inline(data@),
            Segment::External { id, size } => Segment::External { id: id@, size: *size },
        }
    }
}

/// One chunk of a `splitdirfdstream`.
pub enum Chunk<B = Vec<u8>> {
    /// Bytes that are not file content (tar headers and padding).
    Metadata(B),
    /// The content of a file, carried in the stream.
    InlineData(B),
    /// The content of a file that the receiver opens itself.
    FileBackedData {
        /// Which of the transferred directories the file is in.
        dirfd_index: u32,
        /// The size of the file.
        length: u64,
        /// The path of the file below the directory.
        filename: B,
    },
}

impl View for Chunk<Vec<u8>> {
    type V = Chunk<Seq<u8>>;

    open spec fn view(&self) -> Chunk<Seq<u8>> {
        match self {
            Chunk::Metadata(data) => Chunk::Metadata(data@),
            Chunk::InlineData(data) => Chunk::InlineData(data@),
            Chunk::FileBackedData { dirfd_index, length, filename } => Chunk::FileBackedData {
                dirfd_index: *dirfd_index,
                length: *length,
                filename: filename@,
            },
        }
    }
}

/// The models of a list of segments.
pub open spec fn segments(v: Seq<Segment<Vec<u8>, ObjectId>>) -> Seq<Segment<Seq<u8>, Seq<u8>>> {
    Seq::new(v.len(), |i: int| v[i]@)
}

/// The models of a list of chunks.
pub open spec fn chunks(v: Seq<Chunk<Vec<u8>>>) -> Seq<Chunk<Seq<u8>>> {
    Seq::new(v.len(), |i: int| v[i]@)
}

/// What has to be done to store the content of one file.
#[derive(Debug, Clone, Copy, PartialEq, Eq, Structural)]
pub enum ContentAction {
    /// Read the whole file, `size` bytes.
    ReadInline {
        /// How many bytes to read.
        size: usize,
    },
    /// Store the file as an object.
    StoreObject {
        /// The size of the file.
        size: u64,
        /// Whether to insist on a reflink or hardlink.
        zerocopy: bool,
    },
}

/// What has to be done to store a file of `size` bytes.
pub open spec fn content_action(size: u64, zerocopy: bool) -> ContentAction {
    if size <= INLINE_CONTENT_MAX_V0 {
        ContentAction::ReadInline { size: size as usize }
    } else {
        ContentAction::StoreObject { size, zerocopy }
    }
}

/// Store the content of one file in the splitstream, choosing inline vs
/// external storage based on the file size.
///
/// For files at or below [`INLINE_CONTENT_MAX_V0`] bytes the content is to be
/// read and embedded directly, see [`inline_content`]. Larger files are to be
/// stored as external objects and referenced by hash, see [`external_content`].
pub fn process_file_content(size: u64, zerocopy: bool) -> (action: ContentAction)
    ensures
        action == content_action(size, zerocopy),
{
    if should_inline(size) {
        ContentAction::ReadInline { size: size as usize }
    } else {
        ContentAction::StoreObject { size, zerocopy }
    }
}

/// Embeds the content of a small file.
pub fn inline_content(stats: &mut ImportStats, data: Vec<u8>) -> (segment: Segment)
    requires
        old(stats).inline_fits(data@.len() as int),
    ensures
        *final(stats) == old(stats).with_inline(data@.len() as int),
        segment@ == Segment::<Seq<u8>, Seq<u8>>::Inline(data@),
{
    stats.count_inline(data.len() as u64);
    Segment::Inline(data)
}

/// Refers to the object that a large file was stored as.
pub fn external_content(
    stats: &mut ImportStats,
    size: u64,
    id: ObjectId,
    method: ObjectStoreMethod,
) -> (segment: Segment)
    requires
        old(stats).object_fits(method, size as int),
    ensures
        *final(stats) == old(stats).with_object(method, size as int),
        segment@ == (Segment::<Seq<u8>, Seq<u8>>::External { id: id@, size }),
{
    stats.count_object(method, size);
    Segment::External { id, size }
}

/// Storing a file changes one thing: a small file adds its size to the inline
/// bytes and no object, a large one adds one object and no inline bytes.
pub proof fn content_is_counted_once(stats: ImportStats, size: u64, method: ObjectStoreMethod)
    requires
        stats.inline_fits(size as int),
        stats.object_fits(method, size as int),
    ensures
        match content_action(size, true) {
            ContentAction::ReadInline { size: n } => {
                let after = stats.with_inline(n as int);
                &&& n == size
                &&& after.bytes_inlined == stats.bytes_inlined + size
                &&& after.objects() == stats.objects()
            },
            ContentAction::StoreObject { size: n, zerocopy } => {
                let after = stats.with_object(method, n as int);
                &&& n == size
                &&& after.bytes_inlined == stats.bytes_inlined
                &&& after.objects() == stats.objects() + 1
            },
        },
{
}

/// The chunk that stands for a splitstream entry when the objects directory is
/// transferred in slot `objects_dirfd_index`.
pub open spec fn produced_chunk(
    segment: Segment<Seq<u8>, Seq<u8>>,
    objects_dirfd_index: u32,
) -> Chunk<Seq<u8>> {
    match segment {
        Segment::Inline(data) => Chunk::Metadata(data),
        Segment::External { id, size } => Chunk::FileBackedData {
            dirfd_index: objects_dirfd_index,
            length: size,
            filename: encode_utf8(digest::object_path(id)),
        },
    }
}

/// The chunks that stand for a whole layer.
pub open spec fn produced(
    layer: Seq<Segment<Seq<u8>, Seq<u8>>>,
    objects_dirfd_index: u32,
) -> Seq<Chunk<Seq<u8>>> {
    Seq::new(layer.len(), |i: int| produced_chunk(layer[i], objects_dirfd_index))
}

/// The chunk for one entry of a layer splitstream.
pub fn produce_chunk(segment: Segment, objects_dirfd_index: u32) -> (chunk: Chunk)
    ensures
        chunk@ == produced_chunk(segment@, objects_dirfd_index),
{
    match segment {
        Segment::Inline(data) => Chunk::Metadata(data),
        Segment::External { id, size } => {
            let pathname: String = id.to_object_pathname();
            Chunk::FileBackedData {
                dirfd_index: objects_dirfd_index,
                length: size,
                filename: pathname.as_str().as_bytes_vec(),
            }
        },
    }
}

/// Produce the chunks of a `splitdirfdstream` for a layer splitstream.
///
/// External objects are emitted as references of the form `"xx/yyyy"` beneath
/// the repository's `objects/` directory, which the consumer must supply at
/// `objects_dirfd_index`.
pub fn produce_layer_splitdirfdstream(layer: Vec<Segment>, objects_dirfd_index: u32) -> (stream:
    Vec<Chunk>)
    ensures
        chunks(stream@) == produced(segments(layer@), objects_dirfd_index),
{
    let mut stream: Vec<Chunk> = Vec::new();
    let ghost whole = segments(layer@);
    for segment in it: layer
        invariant
            whole == segments(it.seq()),
            chunks(stream@) == produced(whole.take(it.index() as int), objects_dirfd_index),
    {
        let ghost before = chunks(stream@);
        assert(whole[it.index() as int] == segment@);
        stream.push(produce_chunk(segment, objects_dirfd_index));
        assert(chunks(stream@) =~= before.push(
            produced_chunk(segment@, objects_dirfd_index),
        ));
        assert(produced(whole.take(it.index() as int + 1), objects_dirfd_index) =~= before.push(
            produced_chunk(segment@, objects_dirfd_index),
        ));
    }
    assert(whole.take(whole.len() as int) == whole);
    stream
}

/// The bytes of a splitstream entry, given the contents of the objects.
pub open spec fn segment_bytes(
    segment: Segment<Seq<u8>, Seq<u8>>,
    objects: spec_fn(Seq<u8>) -> Seq<u8>,
) -> Seq<u8> {
    match segment {
        Segment::Inline(data) => data,
        Segment::External { id, size } => objects(id),
    }
}

/// The bytes of a layer: its entries one after another.
pub open spec fn cat(
    layer: Seq<Segment<Seq<u8>, Seq<u8>>>,
    objects: spec_fn(Seq<u8>) -> Seq<u8>,
) -> Seq<u8>
    decreases layer.len(),
{
    if layer.len() == 0 {
        Seq::empty()
    } else {
        cat(layer.drop_last(), objects) + segment_bytes(layer.last(), objects)
    }
}

/// The bytes of a chunk, given the contents of the files in the transferred
/// directories.
pub open spec fn chunk_bytes(
    chunk: Chunk<Seq<u8>>,
    files: spec_fn(u32, Seq<u8>) -> Seq<u8>,
) -> Seq<u8> {
    match chunk {
        Chunk::Metadata(data) => data,
        Chunk::InlineData(data) => data,
        Chunk::FileBackedData { dirfd_index, length, filename } => files(dirfd_index, filename),
    }
}

/// The bytes of a `splitdirfdstream`: its chunks one after another.
pub open spec fn reconstructed(
    stream: Seq<Chunk<Seq<u8>>>,
    files: spec_fn(u32, Seq<u8>) -> Seq<u8>,
) -> Seq<u8>
    decreases stream.len(),
{
    if stream.len() == 0 {
        Seq::empty()
    } else {
        reconstructed(stream.drop_last(), files) + chunk_bytes(stream.last(), files)
    }
}

/// Producing a stream for a layer and putting it together again, with the
/// objects directory in the agreed slot, yields the bytes of the layer.
pub proof fn produce_then_reconstruct_is_cat(
    layer: Seq<Segment<Seq<u8>, Seq<u8>>>,
    objects_dirfd_index: u32,
    objects: spec_fn(Seq<u8>) -> Seq<u8>,
    files: spec_fn(u32, Seq<u8>) -> Seq<u8>,
)
    requires
        forall|i: int|
            0 <= i < layer.len() ==> (#[trigger] layer[i] matches Segment::External { id, size }
                ==> files(objects_dirfd_index, encode_utf8(digest::object_path(id))) == objects(
                id,
            )),
    ensures
        reconstructed(produced(layer, objects_dirfd_index), files) == cat(layer, objects),
    decreases layer.len(),
{
    let stream = produced(layer, objects_dirfd_index);
    if layer.len() > 0 {
        produce_then_reconstruct_is_cat(layer.drop_last(), objects_dirfd_index, objects, files);
        assert(stream.drop_last() =~= produced(layer.drop_last(), objects_dirfd_index));
        assert(chunk_bytes(stream.last(), files) == segment_bytes(layer.last(), objects));
    }
}

/// A file of up to 64 bytes is read and embedded, whole; a larger one is stored as an
/// object of its size, and only that depends on whether zero-copy is insisted on.
pub proof fn small_files_are_embedded(size: u64, zerocopy: bool)
    ensures
        match content_action(size, zerocopy) {
            ContentAction::ReadInline { size: n } => size <= 64 && n == size,
            ContentAction::StoreObject { size: n, zerocopy: z } => size > 64 && n == size && z
                == zerocopy,
        },
{
}

/// Every entry of a layer becomes one chunk, in its place: embedded bytes are sent as
/// they are, and an object as a reference of its size to its path in the agreed slot.
pub proof fn every_entry_is_produced(
    layer: Seq<Segment<Seq<u8>, Seq<u8>>>,
    objects_dirfd_index: u32,
    i: int,
)
    requires
        0 <= i < layer.len(),
    ensures
        produced(layer, objects_dirfd_index).len() == layer.len(),
        match (layer[i], produced(layer, objects_dirfd_index)[i]) {
            (Segment::Inline(data), Chunk::Metadata(sent)) => sent == data,
            (
                Segment::External { id, size },
                Chunk::FileBackedData { dirfd_index, length, filename },
            ) => {
                &&& dirfd_index == objects_dirfd_index
                &&& length == size
                &&& valid_utf8(filename)
                &&& decode_utf8(filename) == digest::object_path(id)
            },
            _ => false,
        },
{
    if let Segment::External { id, size } = layer[i] {
        encode_utf8_valid_utf8(digest::object_path(id));
        encode_utf8_decode_utf8(digest::object_path(id));
    }
}

/// A layer reads back entry by entry: the bytes of two runs of entries are those of the
/// one and then those of the other, embedded bytes are read as they are, and a reference
/// is read as the content of its object.
pub proof fn layers_read_back_entry_by_entry(
    a: Seq<Segment<Seq<u8>, Seq<u8>>>,
    b: Seq<Segment<Seq<u8>, Seq<u8>>>,
    data: Seq<u8>,
    id: Seq<u8>,
    size: u64,
    objects: spec_fn(Seq<u8>) -> Seq<u8>,
)
    ensures
        cat(Seq::empty(), objects) == Seq::<u8>::empty(),
        cat(seq![Segment::Inline(data)], objects) == data,
        cat(seq![Segment::External { id, size }], objects) == objects(id),
        cat(a + b, objects) == cat(a, objects) + cat(b, objects),
    decreases b.len(),
{
    reveal_with_fuel(cat, 2);
    let one = seq![Segment::<Seq<u8>, Seq<u8>>::Inline(data)];
    let two = seq![Segment::<Seq<u8>, Seq<u8>>::External { id, size }];
    assert(one.drop_last() =~= Seq::empty());
    assert(two.drop_last() =~= Seq::empty());
    assert(cat(one, objects) =~= data);
    assert(cat(two, objects) =~= objects(id));
    if b.len() == 0 {
        assert(a + b =~= a);
        assert(cat(a + b, objects) =~= cat(a, objects) + cat(b, objects));
    } else {
        layers_read_back_entry_by_entry(a, b.drop_last(), data, id, size, objects);
        assert((a + b).drop_last() =~= a + b.drop_last());
        assert((a + b).last() == b.last());
        assert(cat(a + b, objects) =~= cat(a, objects) + cat(b, objects));
    }
}

/// A stream reads back chunk by chunk: bytes in it are read as they are, and a reference
/// to a file is read as the content of that file in that slot.
pub proof fn streams_read_back_chunk_by_chunk(
    a: Seq<Chunk<Seq<u8>>>,
    b: Seq<Chunk<Seq<u8>>>,
    data: Seq<u8>,
    slot: u32,
    length: u64,
    filename: Seq<u8>,
    files: spec_fn(u32, Seq<u8>) -> Seq<u8>,
)
    ensures
        reconstructed(Seq::empty(), files) == Seq::<u8>::empty(),
        reconstructed(seq![Chunk::Metadata(data)], files) == data,
        reconstructed(seq![Chunk::InlineData(data)], files) == data,
        reconstructed(
            seq![Chunk::FileBackedData { dirfd_index: slot, length, filename }],
            files,
        ) == files(slot, filename),
        reconstructed(a + b, files) == reconstructed(a, files) + reconstructed(b, files),
    decreases b.len(),
{
    reveal_with_fuel(reconstructed, 2);
    let one = seq![Chunk::<Seq<u8>>::Metadata(data)];
    let two = seq![Chunk::<Seq<u8>>::InlineData(data)];
    let three = seq![Chunk::<Seq<u8>>::FileBackedData { dirfd_index: slot, length, filename }];
    assert(one.drop_last() =~= Seq::empty());
    assert(two.drop_last() =~= Seq::empty());
    assert(three.drop_last() =~= Seq::empty());
    assert(reconstructed(one, files) =~= data);
    assert(reconstructed(two, files) =~= data);
    assert(reconstructed(three, files) =~= files(slot, filename));
    if b.len() == 0 {
        assert(a + b =~= a);
        assert(reconstructed(a + b, files) =~= reconstructed(a, files) + reconstructed(b, files));
    } else {
        streams_read_back_chunk_by_chunk(a, b.drop_last(), data, slot, length, filename, files);
        assert((a + b).drop_last() =~= a + b.drop_last());
        assert((a + b).last() == b.last());
        assert(reconstructed(a + b, files) =~= reconstructed(a, files) + reconstructed(b, files));
    }
}

/// The models of entries and chunks have what these have, in their places.
pub proof fn layer_models_are_faithful(
    layer: Seq<Segment<Vec<u8>, ObjectId>>,
    stream: Seq<Chunk<Vec<u8>>>,
    i: int,
)
    ensures
        segments(layer).len() == layer.len(),
        chunks(stream).len() == stream.len(),
        0 <= i < layer.len() ==> match layer[i] {
            Segment::Inline(data) => segments(layer)[i] == Segment::<Seq<u8>, Seq<u8>>::Inline(
                data@,
            ),
            Segment::External { id, size } => segments(layer)[i] == (Segment::<
                Seq<u8>,
                Seq<u8>,
            >::External { id: id@, size }),
        },
        0 <= i < stream.len() ==> match stream[i] {
            Chunk::Metadata(data) => chunks(stream)[i] == Chunk::<Seq<u8>>::Metadata(data@),
            Chunk::InlineData(data) => chunks(stream)[i] == Chunk::<Seq<u8>>::InlineData(data@),
            Chunk::FileBackedData { dirfd_index, length, filename } => chunks(stream)[i] == (
            Chunk::<Seq<u8>>::FileBackedData { dirfd_index, length, filename: filename@ }),
        },
{
}

} // verus!

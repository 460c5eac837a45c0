//! Mount identifiers: the decisions around `statx`, `listmount` and `statmount`.
//!
//! The system calls themselves are made by the caller. This module says what
//! to ask the kernel next, and turns the raw replies into values.
use vstd::prelude::*;
use vstd::slice::slice_subrange;

use crate::text;

verus! {

/// Result mask bit of `statx` that says the unique mount ID was filled in.
pub const STATX_MNT_ID_UNIQUE: u32 = 0x4000;

/// Request filesystem type string from `statmount(2)`.
pub const STATMOUNT_FS_TYPE: u64 = 0x00000020;

/// Request mount point path from `statmount(2)`.
pub const STATMOUNT_MNT_POINT: u64 = 0x00000010;

/// Request superblock source string from `statmount(2)`.
pub const STATMOUNT_SB_SOURCE: u64 = 0x00000200;

/// Request filesystem options array from `statmount(2)`.
pub const STATMOUNT_OPT_ARRAY: u64 = 0x00000400;

/// Sentinel mount ID for `listmount(2)`: enumerate from the root.
pub const LSMT_ROOT: u64 = 0xffffffffffffffff;

/// Size of the first version of the mount ID request.
pub const MNT_ID_REQ_SIZE_VER0: u32 = 24;

/// How many mount IDs one `listmount(2)` call may return.
pub const LISTMOUNT_PAGE: usize = 512;

/// Buffer size of the first `statmount(2)` attempt.
pub const STATMOUNT_BUF: usize = 4096;

/// Buffer size of the second `statmount(2)` attempt.
pub const STATMOUNT_BUF_LARGE: usize = 65536;

/// Size of the fixed header of a `statmount(2)` reply; strings follow it.
pub const STATMOUNT_HEADER: usize = 512;

/// Where the header of a `statmount(2)` reply says which fields it has.
pub const AT_MASK: usize = 8;

/// Where the header has the offset of the filesystem type.
pub const AT_FS_TYPE: usize = 36;

/// Where the header has the mount ID.
pub const AT_MNT_ID: usize = 40;

/// Where the header has the offset of the mount point.
pub const AT_MNT_POINT: usize = 108;

/// Where the header has the offset of the superblock source.
pub const AT_SB_SOURCE: usize = 124;

/// Where the header has the number of options.
pub const AT_OPT_NUM: usize = 128;

/// Where the header has the offset of the options.
pub const AT_OPT_ARRAY: usize = 132;

/// The request block that `listmount(2)` and `statmount(2)` take.
#[derive(Debug, Clone, Copy, PartialEq, Eq, Structural)]
pub struct MntIdReq {
    /// Size of the request block.
    pub size: u32,
    /// Always zero.
    pub spare: u32,
    /// The mount asked about.
    pub mnt_id: u64,
    /// Call-specific parameter: a cursor or a mask.
    pub param: u64,
}

impl MntIdReq {
    /// A request of the first version for `mnt_id` with parameter `param`.
    pub open spec fn asks(self, mnt_id: u64, param: u64) -> bool {
        &&& self.size == MNT_ID_REQ_SIZE_VER0
        &&& self.spare == 0
        &&& self.mnt_id == mnt_id
        &&& self.param == param
    }
}

/// Why a mount system call failed.
#[derive(Debug, Clone, Copy, PartialEq, Eq, Structural)]
pub enum SyscallFailure {
    /// The reply did not fit the buffer (`EOVERFLOW`).
    Overflow,
    /// The kernel does not provide what was asked for (`ENOSYS`).
    Unsupported,
    /// Any other error number.
    Other(i32),
}

/// What to ask `statx` for.
#[derive(Debug, Clone, Copy, PartialEq, Eq, Structural)]
pub struct StatxRequest {
    /// Whether the file descriptor itself is meant (`AT_EMPTY_PATH`).
    pub empty_path: bool,
    /// The fields that are wanted.
    pub mask: u32,
}

/// How to ask for the unique mount ID at a path. An empty path means the file
/// descriptor itself.
pub fn statx_request(path_is_empty: bool) -> (req: StatxRequest)
    ensures
        req.empty_path == path_is_empty,
        req.mask == STATX_MNT_ID_UNIQUE,
        req.mask == 0x4000,
{
    StatxRequest { empty_path: path_is_empty, mask: STATX_MNT_ID_UNIQUE }
}

/// Get the unique (non-recycling) mount ID out of a `statx` reply.
///
/// `reply` holds the result mask and the mount ID that `statx` returned. A
/// kernel that did not set `STATX_MNT_ID_UNIQUE` in the mask does not support
/// the request.
pub fn statx_mnt_id_unique(reply: Result<(u32, u64), SyscallFailure>) -> (id: Result<
    u64,
    SyscallFailure,
>)
    ensures
        id == match reply {
            Err(e) => Err::<u64, SyscallFailure>(e),
            Ok((mask, mnt_id)) => if mask & STATX_MNT_ID_UNIQUE == 0 {
                Err(SyscallFailure::Unsupported)
            } else {
                Ok(mnt_id)
            },
        },
{
    match reply {
        Err(e) => Err(e),
        Ok((mask, mnt_id)) => {
            if mask & STATX_MNT_ID_UNIQUE == 0 {
                Err(SyscallFailure::Unsupported)
            } else {
                Ok(mnt_id)
            }
        },
    }
}

/// Where an enumeration of mount IDs stands.
#[derive(Debug, Clone, Copy, PartialEq, Eq, Structural)]
pub enum ListState {
    /// Another page has to be asked for.
    More,
    /// Every page has been read.
    Complete,
    /// A call failed.
    Failed(SyscallFailure),
}

/// An enumeration of the mount IDs below one mount, page by page.
#[derive(Debug)]
pub struct MountLister {
    parent_mnt_id: u64,
    all: Vec<u64>,
    last_mnt_id: u64,
    state: ListState,
}

/// The abstract state of a [`MountLister`].
pub struct Listing {
    /// The mount whose descendants are listed.
    pub parent_mnt_id: u64,
    /// The IDs read so far.
    pub ids: Seq<u64>,
    /// The ID after which the next page starts.
    pub cursor: u64,
    /// Whether another page is needed.
    pub state: ListState,
}

impl Listing {
    /// The listing that has read nothing yet.
    pub open spec fn start(parent_mnt_id: u64) -> Listing {
        Listing { parent_mnt_id, ids: Seq::empty(), cursor: 0, state: ListState::More }
    }

    /// The listing after one more reply. A page shorter than the buffer is the
    /// last one.
    pub open spec fn after(self, reply: Result<Seq<u64>, SyscallFailure>) -> Listing {
        if self.state != ListState::More {
            self
        } else {
            match reply {
                Err(e) => Listing { state: ListState::Failed(e), ..self },
                Ok(page) => if page.len() == 0 {
                    Listing { state: ListState::Complete, ..self }
                } else {
                    Listing {
                        ids: self.ids + page,
                        cursor: page.last(),
                        state: if page.len() < LISTMOUNT_PAGE {
                            ListState::Complete
                        } else {
                            ListState::More
                        },
                        ..self
                    }
                },
            }
        }
    }
}

impl View for MountLister {
    type V = Listing;

    closed spec fn view(&self) -> Listing {
        Listing {
            parent_mnt_id: self.parent_mnt_id,
            ids: self.all@,
            cursor: self.last_mnt_id,
            state: self.state,
        }
    }
}

/// The model of a listing reply.
pub open spec fn page_model(reply: Result<Vec<u64>, SyscallFailure>) -> Result<
    Seq<u64>,
    SyscallFailure,
> {
    match reply {
        Ok(page) => Ok(page@),
        Err(e) => Err(e),
    }
}

/// Enumerate mount IDs in the current mount namespace.
///
/// Lists all mount IDs visible from `parent_mnt_id`. Pass [`LSMT_ROOT`] to
/// list all mounts.
pub fn listmount(parent_mnt_id: u64) -> (lister: MountLister)
    ensures
        lister@ == Listing::start(parent_mnt_id),
{
    MountLister { parent_mnt_id, all: Vec::new(), last_mnt_id: 0, state: ListState::More }
}

impl MountLister {
    /// The request of the next call.
    pub fn request(&self) -> (req: MntIdReq)
        ensures
            req.asks(self@.parent_mnt_id, self@.cursor),
    {
        MntIdReq {
            size: MNT_ID_REQ_SIZE_VER0,
            spare: 0,
            mnt_id: self.parent_mnt_id,
            param: self.last_mnt_id,
        }
    }

    /// Takes in the reply to the last request: the IDs of one page, or the
    /// failure of the call. A finished enumeration does not change.
    pub fn resume(&mut self, reply: Result<Vec<u64>, SyscallFailure>) -> (state: ListState)
        requires
            reply matches Ok(page) ==> page@.len() <= LISTMOUNT_PAGE,
        ensures
            final(self)@ == old(self)@.after(page_model(reply)),
            state == final(self)@.state,
    {
        match self.state {
            ListState::More => match reply {
                Err(e) => {
                    self.state = ListState::Failed(e);
                },
                Ok(page) => {
                    let count: usize = page.len();
                    if count == 0 {
                        self.state = ListState::Complete;
                    } else {
                        self.last_mnt_id = page[count - 1];
                        let mut page = page;
                        self.all.append(&mut page);
                        if count < LISTMOUNT_PAGE {
                            self.state = ListState::Complete;
                        }
                    }
                },
            },
            _ => {},
        }
        self.state
    }

    /// The IDs that were read, or the failure that stopped the enumeration, once it
    /// has ended.
    pub fn into_ids(self) -> (ids: Result<Vec<u64>, SyscallFailure>)
        requires
            self@.state != ListState::More,
        ensures
            match self@.state {
                ListState::Failed(e) => ids == Err::<Vec<u64>, SyscallFailure>(e),
                _ => ids matches Ok(v) && v@ == self@.ids,
            },
    {
        match self.state {
            ListState::Failed(e) => Err(e),
            _ => Ok(self.all),
        }
    }
}

/// What the kernel answers when asked for the page of `table` after `cursor`:
/// the first IDs of the table above the cursor, as many as fit a page.
pub open spec fn kernel_page(table: Seq<u64>, cursor: u64) -> Seq<u64> {
    let rest = table.filter(|id: u64| id > cursor);
    if rest.len() <= LISTMOUNT_PAGE {
        rest
    } else {
        rest.take(LISTMOUNT_PAGE as int)
    }
}

/// A listing after `rounds` pages served from `table`.
pub open spec fn listed(table: Seq<u64>, parent_mnt_id: u64, rounds: nat) -> Listing
    decreases rounds,
{
    if rounds == 0 {
        Listing::start(parent_mnt_id)
    } else {
        let before = listed(table, parent_mnt_id, (rounds - 1) as nat);
        before.after(Ok(kernel_page(table, before.cursor)))
    }
}

/// A mount table: IDs in strictly ascending order, none of them zero.
pub open spec fn is_mount_table(table: Seq<u64>) -> bool {
    &&& forall|i: int, j: int| 0 <= i < j < table.len() ==> table[i] < table[j]
    &&& forall|i: int| 0 <= i < table.len() ==> 0 < #[trigger] table[i]
}

proof fn lemma_filter_above(table: Seq<u64>, cursor: u64, k: int)
    requires
        is_mount_table(table),
        0 <= k <= table.len(),
        k == 0 ==> cursor == 0,
        k > 0 ==> cursor == table[k - 1],
    ensures
        table.filter(|id: u64| id > cursor) == table.skip(k),
    decreases table.len(),
{
    reveal(Seq::filter);
    let above = |id: u64| id > cursor;
    if table.len() > 0 {
        let front = table.drop_last();
        if k == table.len() {
            lemma_none_above(front, cursor);
            assert(!above(table.last()));
            assert(front.filter(above) == Seq::<u64>::empty());
            assert(table.skip(k) == Seq::<u64>::empty());
        } else {
            lemma_filter_above(front, cursor, k);
            assert(above(table.last()));
            assert(front.skip(k).push(table.last()) == table.skip(k));
        }
    }
}

proof fn lemma_none_above(table: Seq<u64>, cursor: u64)
    requires
        forall|i: int| 0 <= i < table.len() ==> table[i] <= cursor,
    ensures
        table.filter(|id: u64| id > cursor) == Seq::<u64>::empty(),
    decreases table.len(),
{
    reveal(Seq::filter);
    if table.len() > 0 {
        lemma_none_above(table.drop_last(), cursor);
    }
}

proof fn lemma_listed_prefix(table: Seq<u64>, parent_mnt_id: u64, rounds: nat)
    requires
        is_mount_table(table),
        rounds * LISTMOUNT_PAGE <= table.len(),
    ensures
        ({
            let l = listed(table, parent_mnt_id, rounds);
            &&& l.state == ListState::More
            &&& l.parent_mnt_id == parent_mnt_id
            &&& l.ids == table.take(rounds * LISTMOUNT_PAGE)
            &&& l.cursor == if rounds == 0 {
                0
            } else {
                table[rounds * LISTMOUNT_PAGE - 1]
            }
        }),
    decreases rounds,
{
    if rounds == 0 {
        assert(table.take(0) == Seq::<u64>::empty());
    } else {
        let prev = (rounds - 1) as nat;
        lemma_listed_prefix(table, parent_mnt_id, prev);
        let before = listed(table, parent_mnt_id, prev);
        let k = prev * LISTMOUNT_PAGE;
        lemma_filter_above(table, before.cursor, k);
        let page = kernel_page(table, before.cursor);
        assert(page == table.subrange(k, k + LISTMOUNT_PAGE));
        assert(table.take(k) + page == table.take(k + LISTMOUNT_PAGE));
    }
}

/// Enumerating a mount table page by page returns the whole table: after as
/// many rounds as the table has pages, the listing is complete and holds every
/// ID exactly in table order.
pub proof fn listmount_returns_the_table(table: Seq<u64>, parent_mnt_id: u64)
    requires
        is_mount_table(table),
    ensures
        ({
            let l = listed(table, parent_mnt_id, table.len() / (LISTMOUNT_PAGE as nat) + 1);
            l.state == ListState::Complete && l.ids == table
        }),
{
    let full = table.len() / (LISTMOUNT_PAGE as nat);
    let k: int = full as int * 512;
    assert(k <= table.len() < k + 512);
    lemma_listed_prefix(table, parent_mnt_id, full);
    let before = listed(table, parent_mnt_id, full);
    lemma_filter_above(table, before.cursor, k);
    let page = kernel_page(table, before.cursor);
    assert(page == table.skip(k));
    assert(listed(table, parent_mnt_id, full + 1) == before.after(Ok(page)));
    if page.len() == 0 {
        assert(table.take(k) == table);
    } else {
        assert(table.take(k) + page == table);
    }
}

/// Parsed result from a `statmount(2)` call.
#[derive(Debug)]
pub struct StatmountResult {
    /// Unique mount ID.
    pub mnt_id: u64,
    /// Filesystem type (e.g. "overlay", "erofs").
    pub fs_type: Option<String>,
    /// Superblock source string (e.g. "composefs:myimage").
    pub sb_source: Option<String>,
    /// Mount point path relative to the filesystem root.
    pub mnt_point: Option<String>,
    /// Filesystem-specific options as individual strings.
    pub opt_array: Option<Vec<String>>,
}

/// What a [`StatmountResult`] says about a mount.
#[verifier::ext_equal]
pub struct MountInfo {
    /// Unique mount ID.
    pub mnt_id: u64,
    /// Filesystem type.
    pub fs_type: Option<Seq<char>>,
    /// Superblock source.
    pub sb_source: Option<Seq<char>>,
    /// Mount point.
    pub mnt_point: Option<Seq<char>>,
    /// Filesystem-specific options.
    pub opt_array: Option<Seq<Seq<char>>>,
}

impl View for StatmountResult {
    type V = MountInfo;

    open spec fn view(&self) -> MountInfo {
        MountInfo {
            mnt_id: self.mnt_id,
            fs_type: text::opt_text(self.fs_type),
            sb_source: text::opt_text(self.sb_source),
            mnt_point: text::opt_text(self.mnt_point),
            opt_array: match self.opt_array {
                Some(v) => Some(text::texts(v@)),
                None => None,
            },
        }
    }
}

impl Default for StatmountResult {
    fn default() -> (r: Self)
        ensures
            r@ == (MountInfo {
                mnt_id: 0,
                fs_type: None,
                sb_source: None,
                mnt_point: None,
                opt_array: None,
            }),
    {
        StatmountResult {
            mnt_id: 0,
            fs_type: None,
            sb_source: None,
            mnt_point: None,
            opt_array: None,
        }
    }
}

/// What to do after a `statmount(2)` attempt.
#[derive(Debug, Clone, Copy, PartialEq, Eq, Structural)]
pub enum StatmountStep {
    /// Call again with the larger buffer.
    Retry,
    /// The buffer holds a reply.
    Parse,
    /// The query failed.
    Fail(SyscallFailure),
}

/// A `statmount(2)` query and the buffer its next attempt needs.
#[derive(Debug)]
pub struct StatmountCall {
    mnt_id: u64,
    mask: u64,
    buf_size: usize,
}

/// Query metadata about a mount by its unique mount ID.
pub fn statmount(mnt_id: u64, mask: u64) -> (call: StatmountCall)
    ensures
        call.mount() == mnt_id,
        call.wanted() == mask,
        call.buffer() == STATMOUNT_BUF,
        call.buffer() == 4096,
{
    StatmountCall { mnt_id, mask, buf_size: STATMOUNT_BUF }
}

impl StatmountCall {
    /// The mount asked about.
    pub closed spec fn mount(&self) -> u64 {
        self.mnt_id
    }

    /// The mask of the fields asked for.
    pub closed spec fn wanted(&self) -> u64 {
        self.mask
    }

    /// The buffer size of the next attempt.
    pub closed spec fn buffer(&self) -> usize {
        self.buf_size
    }

    /// The request block of the call.
    pub fn request(&self) -> (req: MntIdReq)
        ensures
            req.asks(self.mount(), self.wanted()),
    {
        MntIdReq { size: MNT_ID_REQ_SIZE_VER0, spare: 0, mnt_id: self.mnt_id, param: self.mask }
    }

    /// The size of the buffer to hand to the next attempt.
    pub fn buf_size(&self) -> (size: usize)
        ensures
            size == self.buffer(),
    {
        self.buf_size
    }

    /// Takes in the outcome of an attempt. Only an overflow of the first,
    /// small buffer is worth a second attempt.
    pub fn resume(&mut self, outcome: Result<(), SyscallFailure>) -> (step: StatmountStep)
        ensures
            final(self).mount() == old(self).mount(),
            final(self).wanted() == old(self).wanted(),
            step == match outcome {
                Ok(()) => StatmountStep::Parse,
                Err(e) => if e == SyscallFailure::Overflow && old(self).buffer() == STATMOUNT_BUF {
                    StatmountStep::Retry
                } else {
                    StatmountStep::Fail(e)
                },
            },
            final(self).buffer() == if step == StatmountStep::Retry {
                STATMOUNT_BUF_LARGE
            } else {
                old(self).buffer()
            },
            step == StatmountStep::Retry ==> old(self).buffer() == 4096 && final(self).buffer()
                == 65536,
    {
        match outcome {
            Ok(()) => StatmountStep::Parse,
            Err(e) => {
                if e == SyscallFailure::Overflow && self.buf_size == STATMOUNT_BUF {
                    self.buf_size = STATMOUNT_BUF_LARGE;
                    StatmountStep::Retry
                } else {
                    StatmountStep::Fail(e)
                }
            },
        }
    }
}

/// The order in which the machine stores the bytes of an integer.
#[derive(Debug, Clone, Copy, PartialEq, Eq, Structural)]
pub enum ByteOrder {
    /// Least significant byte first.
    Little,
    /// Most significant byte first.
    Big,
}

/// The number whose base-256 digits are `b`, least significant first.
pub open spec fn le_value(b: Seq<u8>) -> nat
    decreases b.len(),
{
    if b.len() == 0 {
        0
    } else {
        b[0] as nat + 256 * le_value(b.drop_first())
    }
}

/// The unsigned integer of `width` bytes at `at`.
pub open spec fn uint_at(buf: Seq<u8>, at: int, width: int, order: ByteOrder) -> nat {
    let b = buf.subrange(at, at + width);
    match order {
        ByteOrder::Little => le_value(b),
        ByteOrder::Big => le_value(b.reverse()),
    }
}

fn byte_at(buf: &[u8], at: usize, width: usize, order: ByteOrder, i: usize) -> (b: u8)
    requires
        at + width <= buf@.len(),
        i < width,
    ensures
        b == match order {
            ByteOrder::Little => buf@.subrange(at as int, at + width)[i as int],
            ByteOrder::Big => buf@.subrange(at as int, at + width).reverse()[i as int],
        },
{
    assert(buf.len() == buf@.len());
    match order {
        ByteOrder::Little => buf[at + i],
        ByteOrder::Big => buf[at + (width - 1 - i)],
    }
}

proof fn lemma_le_value_split(b: Seq<u8>, k: int)
    requires
        0 <= k < b.len(),
    ensures
        le_value(b.skip(k)) == b[k] + 256 * le_value(b.skip(k + 1)),
{
    assert(b.skip(k).drop_first() == b.skip(k + 1));
}

proof fn lemma_le_value_bound(b: Seq<u8>)
    ensures
        b.len() <= 4 ==> le_value(b) < 0x1_0000_0000,
        b.len() <= 8 ==> le_value(b) < 0x1_0000_0000_0000_0000,
    decreases b.len(),
{
    reveal_with_fuel(le_value, 9);
}

/// Reads the unsigned integer of `width` bytes at `at`.
fn read_uint(buf: &[u8], at: usize, width: usize, order: ByteOrder) -> (v: u64)
    requires
        at + width <= buf@.len(),
        width <= 8,
    ensures
        v as nat == uint_at(buf@, at as int, width as int, order),
{
    let ghost b = match order {
        ByteOrder::Little => buf@.subrange(at as int, at + width),
        ByteOrder::Big => buf@.subrange(at as int, at + width).reverse(),
    };
    let mut v: u64 = 0;
    let mut i: usize = width;
    assert(b.skip(width as int) == Seq::<u8>::empty());
    while i > 0
        invariant
            i <= width <= 8,
            at + width <= buf@.len(),
            b.len() == width,
            b == match order {
                ByteOrder::Little => buf@.subrange(at as int, at + width),
                ByteOrder::Big => buf@.subrange(at as int, at + width).reverse(),
            },
            v as nat == le_value(b.skip(i as int)),
        decreases i,
    {
        i -= 1;
        proof {
            lemma_le_value_split(b, i as int);
            lemma_le_value_bound(b.skip(i as int));
        }
        v = v * 256 + byte_at(buf, at, width, order, i) as u64;
    }
    assert(b.skip(0) == b);
    v
}

/// Where the string that starts at `at` ends: its NUL byte, or the end of the
/// buffer.
pub open spec fn string_end(buf: Seq<u8>, at: int) -> int
    decreases buf.len() - at,
{
    if at < 0 || at >= buf.len() || buf[at] == 0 {
        at
    } else {
        string_end(buf, at + 1)
    }
}

/// The text of the string that starts at `at`.
pub open spec fn string_at(buf: Seq<u8>, at: int) -> Seq<char> {
    text::lossy_text(buf.subrange(at, string_end(buf, at)))
}

/// The texts of up to `count` consecutive strings from `at` on, as far as the
/// buffer reaches.
pub open spec fn strings_at(buf: Seq<u8>, at: int, count: nat) -> Seq<Seq<char>>
    decreases count,
{
    if count == 0 || at >= buf.len() {
        Seq::empty()
    } else {
        seq![string_at(buf, at)] + strings_at(
            buf,
            string_end(buf, at) + 1,
            (count - 1) as nat,
        )
    }
}

fn find_string_end(buf: &[u8], at: usize) -> (end: usize)
    requires
        at <= buf@.len(),
    ensures
        end as int == string_end(buf@, at as int),
        at <= end <= buf@.len(),
{
    let mut end: usize = at;
    while end < buf.len() && buf[end] != 0
        invariant
            at <= end <= buf@.len(),
            string_end(buf@, at as int) == string_end(buf@, end as int),
        decreases buf@.len() - end,
    {
        end += 1;
    }
    end
}

/// The string at `offset`, if the offset is inside the buffer and not zero.
pub fn extract_string(buf: &[u8], offset: u32) -> (s: Option<String>)
    ensures
        text::opt_text(s) == if offset == 0 || offset as int >= buf@.len() {
            None
        } else {
            Some(string_at(buf@, offset as int))
        },
{
    let start: usize = offset as usize;
    if start == 0 || start >= buf.len() {
        return None;
    }
    let end: usize = find_string_end(buf, start);
    Some(text::decode_lossy(slice_subrange(buf, start, end)))
}

/// Up to `count` consecutive strings from `offset` on.
pub fn extract_string_array(buf: &[u8], offset: u32, count: u32) -> (out: Vec<String>)
    ensures
        text::texts(out@) == strings_at(buf@, offset as int, count as nat),
{
    let mut out: Vec<String> = Vec::new();
    let mut pos: usize = offset as usize;
    let mut left: u32 = count;
    let ghost all = strings_at(buf@, offset as int, count as nat);
    assert(text::texts(out@) + all =~= all);
    while left > 0 && pos < buf.len()
        invariant
            text::texts(out@) + strings_at(buf@, pos as int, left as nat) == all,
        decreases left,
    {
        let end: usize = find_string_end(buf, pos);
        let s: String = text::decode_lossy(slice_subrange(buf, pos, end));
        let ghost before = text::texts(out@);
        out.push(s);
        assert(text::texts(out@) =~= before.push(s@));
        left -= 1;
        if end == buf.len() {
            assert(text::texts(out@) + strings_at(buf@, end + 1, left as nat) =~= all);
            pos = end;
        } else {
            pos = end + 1;
            assert(text::texts(out@) + strings_at(buf@, pos as int, left as nat) =~= all);
        }
    }
    assert(text::texts(out@) + Seq::<Seq<char>>::empty() =~= text::texts(out@));
    out
}

/// Whether a `statmount(2)` reply has the field that `bit` stands for.
pub open spec fn statmount_has(buf: Seq<u8>, order: ByteOrder, bit: u64) -> bool {
    (uint_at(buf, AT_MASK as int, 8, order) as u64) & bit != 0
}

/// A whole reply: the header is there, and every string offset that is in use
/// can be added to the header size.
pub open spec fn statmount_fits(buf: Seq<u8>, order: ByteOrder) -> bool {
    &&& buf.len() >= STATMOUNT_HEADER
    &&& statmount_has(buf, order, STATMOUNT_FS_TYPE) ==> STATMOUNT_HEADER + uint_at(
        buf,
        AT_FS_TYPE as int,
        4,
        order,
    ) <= u32::MAX
    &&& statmount_has(buf, order, STATMOUNT_SB_SOURCE) ==> STATMOUNT_HEADER + uint_at(
        buf,
        AT_SB_SOURCE as int,
        4,
        order,
    ) <= u32::MAX
    &&& statmount_has(buf, order, STATMOUNT_MNT_POINT) ==> STATMOUNT_HEADER + uint_at(
        buf,
        AT_MNT_POINT as int,
        4,
        order,
    ) <= u32::MAX
    &&& statmount_has(buf, order, STATMOUNT_OPT_ARRAY) ==> STATMOUNT_HEADER + uint_at(
        buf,
        AT_OPT_ARRAY as int,
        4,
        order,
    ) <= u32::MAX
}

/// The string field whose offset is stored at `at`, if the reply has it.
pub open spec fn statmount_string(buf: Seq<u8>, order: ByteOrder, bit: u64, at: int) -> Option<
    Seq<char>,
> {
    let offset = STATMOUNT_HEADER + uint_at(buf, at, 4, order);
    if statmount_has(buf, order, bit) && offset < buf.len() {
        Some(string_at(buf, offset))
    } else {
        None
    }
}

/// What a `statmount(2)` reply says.
pub open spec fn statmount_info(buf: Seq<u8>, order: ByteOrder) -> MountInfo {
    MountInfo {
        mnt_id: uint_at(buf, AT_MNT_ID as int, 8, order) as u64,
        fs_type: statmount_string(buf, order, STATMOUNT_FS_TYPE, AT_FS_TYPE as int),
        sb_source: statmount_string(buf, order, STATMOUNT_SB_SOURCE, AT_SB_SOURCE as int),
        mnt_point: statmount_string(buf, order, STATMOUNT_MNT_POINT, AT_MNT_POINT as int),
        opt_array: if statmount_has(buf, order, STATMOUNT_OPT_ARRAY) {
            Some(
                strings_at(
                    buf,
                    STATMOUNT_HEADER + uint_at(buf, AT_OPT_ARRAY as int, 4, order),
                    uint_at(buf, AT_OPT_NUM as int, 4, order),
                ),
            )
        } else {
            None
        },
    }
}

/// The absolute offset of the string whose relative offset is stored at `at`,
/// or `None` if it does not fit 32 bits.
fn string_offset(buf: &[u8], at: usize, order: ByteOrder) -> (offset: Option<u32>)
    requires
        at + 4 <= buf@.len(),
    ensures
        match offset {
            Some(o) => o == STATMOUNT_HEADER + uint_at(buf@, at as int, 4, order),
            None => STATMOUNT_HEADER + uint_at(buf@, at as int, 4, order) > u32::MAX,
        },
{
    let relative: u64 = read_uint(buf, at, 4, order);
    proof {
        lemma_le_value_bound(buf@.subrange(at as int, at + 4));
        lemma_le_value_bound(buf@.subrange(at as int, at + 4).reverse());
    }
    let sum: u64 = 512 + relative;
    if sum <= 0xffff_ffff {
        Some(sum as u32)
    } else {
        None
    }
}

/// Whether `buf` is a reply that [`parse_statmount`] accepts.
pub fn check_statmount(buf: &[u8], order: ByteOrder) -> (ok: bool)
    ensures
        ok == statmount_fits(buf@, order),
{
    if buf.len() < STATMOUNT_HEADER {
        return false;
    }
    let got: u64 = read_uint(buf, AT_MASK, 8, order);
    if got & STATMOUNT_FS_TYPE != 0 && string_offset(buf, AT_FS_TYPE, order).is_none() {
        return false;
    }
    if got & STATMOUNT_SB_SOURCE != 0 && string_offset(buf, AT_SB_SOURCE, order).is_none() {
        return false;
    }
    if got & STATMOUNT_MNT_POINT != 0 && string_offset(buf, AT_MNT_POINT, order).is_none() {
        return false;
    }
    if got & STATMOUNT_OPT_ARRAY != 0 && string_offset(buf, AT_OPT_ARRAY, order).is_none() {
        return false;
    }
    true
}

fn string_field(buf: &[u8], at: usize, order: ByteOrder) -> (s: Option<String>)
    requires
        at + 4 <= buf@.len(),
        STATMOUNT_HEADER + uint_at(buf@, at as int, 4, order) <= u32::MAX,
    ensures
        text::opt_text(s) == if STATMOUNT_HEADER + uint_at(buf@, at as int, 4, order)
            < buf@.len() {
            Some(string_at(buf@, STATMOUNT_HEADER + uint_at(buf@, at as int, 4, order)))
        } else {
            None
        },
{
    match string_offset(buf, at, order) {
        Some(offset) => extract_string(buf, offset),
        None => None,
    }
}

/// Reads a `statmount(2)` reply: the fixed header, then the strings that the
/// header points to. Only the fields that the reply's mask names are filled in.
pub fn parse_statmount(buf: &[u8], order: ByteOrder) -> (result: StatmountResult)
    requires
        statmount_fits(buf@, order),
    ensures
        result@ == statmount_info(buf@, order),
{
    let mut result: StatmountResult = StatmountResult::default();
    result.mnt_id = read_uint(buf, AT_MNT_ID, 8, order);
    let got: u64 = read_uint(buf, AT_MASK, 8, order);
    if got & STATMOUNT_FS_TYPE != 0 {
        result.fs_type = string_field(buf, AT_FS_TYPE, order);
    }
    if got & STATMOUNT_SB_SOURCE != 0 {
        result.sb_source = string_field(buf, AT_SB_SOURCE, order);
    }
    if got & STATMOUNT_MNT_POINT != 0 {
        result.mnt_point = string_field(buf, AT_MNT_POINT, order);
    }
    if got & STATMOUNT_OPT_ARRAY != 0 {
        let count: u64 = read_uint(buf, AT_OPT_NUM, 4, order);
        proof {
            lemma_le_value_bound(buf@.subrange(128, 132));
            lemma_le_value_bound(buf@.subrange(128, 132).reverse());
        }
        match string_offset(buf, AT_OPT_ARRAY, order) {
            Some(offset) => {
                result.opt_array = Some(extract_string_array(buf, offset, count as u32));
            },
            None => {},
        }
    }
    result
}

/// Overlay layer configuration summary.
#[derive(Debug, Clone, Copy, PartialEq, Eq, Structural)]
pub struct OvlLayersInfo {
    /// Number of lower (metadata) layers.
    pub numlower: u32,
    /// Number of data-only lower layers.
    pub numlowerdata: u32,
    /// 1 if an upper layer is configured, 0 otherwise.
    pub has_upper: u32,
}

impl Default for OvlLayersInfo {
    fn default() -> (info: Self)
        ensures
            info.numlower == 0,
            info.numlowerdata == 0,
            info.has_upper == 0,
    {
        OvlLayersInfo { numlower: 0, numlowerdata: 0, has_upper: 0 }
    }
}

/// A request names the size of its first version, nothing spare, the mount and the
/// parameter.
pub proof fn requests_are_of_the_first_version(req: MntIdReq, mnt_id: u64, param: u64)
    ensures
        req.asks(mnt_id, param) <==> req == (MntIdReq { size: 24, spare: 0, mnt_id, param }),
{
}

/// An enumeration asks for the mounts below its parent, from the start; every page is
/// added after those before it, and the next one is asked for after its last ID. A page of
/// fewer than 512 IDs is the last, and so is none at all. A failure ends the enumeration
/// and is kept.
pub proof fn pages_are_added_up(
    parent_mnt_id: u64,
    l: Listing,
    page: Seq<u64>,
    e: SyscallFailure,
    late: Result<Seq<u64>, SyscallFailure>,
)
    ensures
        ({
            let start = Listing::start(parent_mnt_id);
            &&& start.parent_mnt_id == parent_mnt_id
            &&& start.cursor == 0
            &&& start.ids.len() == 0
            &&& start.state == ListState::More
        }),
        l.state == ListState::More ==> {
            let next = l.after(Ok(page));
            let failed = l.after(Err(e));
            &&& next.parent_mnt_id == l.parent_mnt_id
            &&& next.ids == l.ids + page
            &&& page.len() > 0 ==> next.cursor == page[page.len() - 1]
            &&& next.state == if page.len() < 512 {
                ListState::Complete
            } else {
                ListState::More
            }
            &&& failed.state == ListState::Failed(e)
            &&& failed.ids == l.ids
        },
        l.state != ListState::More ==> l.after(late) == l,
{
    if page.len() == 0 {
        assert(l.ids + page =~= l.ids);
    }
}

/// Integers are read byte by byte: the first byte counts least in little-endian order, and
/// most in big-endian order.
pub proof fn integers_are_read_in_byte_order(buf: Seq<u8>, at: int)
    requires
        0 <= at,
    ensures
        at + 4 <= buf.len() ==> {
            &&& uint_at(buf, at, 4, ByteOrder::Little) == buf[at] + 0x100 * buf[at + 1] + 0x1_0000
                * buf[at + 2] + 0x100_0000 * buf[at + 3]
            &&& uint_at(buf, at, 4, ByteOrder::Big) == buf[at + 3] + 0x100 * buf[at + 2] + 0x1_0000
                * buf[at + 1] + 0x100_0000 * buf[at]
        },
        at + 8 <= buf.len() ==> {
            &&& uint_at(buf, at, 8, ByteOrder::Little) == buf[at] + 0x100 * buf[at + 1] + 0x1_0000
                * buf[at + 2] + 0x100_0000 * buf[at + 3] + 0x1_0000_0000 * buf[at + 4]
                + 0x100_0000_0000 * buf[at + 5] + 0x1_0000_0000_0000 * buf[at + 6]
                + 0x100_0000_0000_0000 * buf[at + 7]
            &&& uint_at(buf, at, 8, ByteOrder::Big) == buf[at + 7] + 0x100 * buf[at + 6] + 0x1_0000
                * buf[at + 5] + 0x100_0000 * buf[at + 4] + 0x1_0000_0000 * buf[at + 3]
                + 0x100_0000_0000 * buf[at + 2] + 0x1_0000_0000_0000 * buf[at + 1]
                + 0x100_0000_0000_0000 * buf[at]
        },
{
    if at + 4 <= buf.len() {
        lemma_four(buf.subrange(at, at + 4));
        lemma_four(buf.subrange(at, at + 4).reverse());
    }
    if at + 8 <= buf.len() {
        lemma_eight(buf.subrange(at, at + 8));
        lemma_eight(buf.subrange(at, at + 8).reverse());
    }
}

proof fn lemma_four(b: Seq<u8>)
    requires
        b.len() == 4,
    ensures
        le_value(b) == b[0] + 0x100 * b[1] + 0x1_0000 * b[2] + 0x100_0000 * b[3],
{
    lemma_le_value_split(b, 0);
    lemma_le_value_split(b, 1);
    lemma_le_value_split(b, 2);
    lemma_le_value_split(b, 3);
    assert(b.skip(0) =~= b);
    assert(b.skip(4).len() == 0);
}

proof fn lemma_eight(b: Seq<u8>)
    requires
        b.len() == 8,
    ensures
        le_value(b) == b[0] + 0x100 * b[1] + 0x1_0000 * b[2] + 0x100_0000 * b[3] + 0x1_0000_0000
            * b[4] + 0x100_0000_0000 * b[5] + 0x1_0000_0000_0000 * b[6] + 0x100_0000_0000_0000
            * b[7],
{
    lemma_le_value_split(b, 0);
    lemma_le_value_split(b, 1);
    lemma_le_value_split(b, 2);
    lemma_le_value_split(b, 3);
    lemma_le_value_split(b, 4);
    lemma_le_value_split(b, 5);
    lemma_le_value_split(b, 6);
    lemma_le_value_split(b, 7);
    assert(b.skip(0) =~= b);
    assert(b.skip(8).len() == 0);
}

/// Whether the bytes from `at` to `end` are a string: none of them is NUL, and there is a
/// NUL behind them, or nothing.
pub open spec fn is_string(buf: Seq<u8>, at: int, end: int) -> bool {
    &&& 0 <= at <= end <= buf.len()
    &&& forall|i: int| at <= i < end ==> #[trigger] buf[i] != 0
    &&& end == buf.len() || buf[end] == 0
}

/// A string reaches up to the first NUL, or to the end of the buffer, and is read as the
/// text of its bytes.
pub proof fn strings_end_at_the_first_nul(buf: Seq<u8>, at: int, end: int)
    requires
        is_string(buf, at, end),
    ensures
        string_end(buf, at) == end,
        string_at(buf, at) == text::lossy_text(buf.subrange(at, end)),
    decreases end - at,
{
    if at < end {
        strings_end_at_the_first_nul(buf, at + 1, end);
    }
}

/// Byte strings one after another, each with a NUL behind it.
pub open spec fn terminated(parts: Seq<Seq<u8>>) -> Seq<u8>
    decreases parts.len(),
{
    if parts.len() == 0 {
        Seq::empty()
    } else {
        parts.first() + seq![0u8] + terminated(parts.drop_first())
    }
}

/// Strings that were written one after another, each with a NUL behind it, are read back
/// one by one, whatever stands before and behind them.
pub proof fn strings_are_read_back(head: Seq<u8>, parts: Seq<Seq<u8>>, tail: Seq<u8>)
    requires
        forall|i: int, j: int|
            0 <= i < parts.len() && 0 <= j < parts[i].len() ==> #[trigger] parts[i][j] != 0,
    ensures
        ({
            let buf = head + terminated(parts) + tail;
            let texts = strings_at(buf, head.len() as int, parts.len());
            &&& texts.len() == parts.len()
            &&& forall|i: int|
                0 <= i < parts.len() ==> #[trigger] texts[i] == text::lossy_text(parts[i])
        }),
    decreases parts.len(),
{
    let buf = head + terminated(parts) + tail;
    if parts.len() > 0 {
        let part = parts.first();
        let rest = parts.drop_first();
        let at: int = head.len() as int;
        let end: int = at + part.len();
        assert forall|i: int| at <= i < end implies #[trigger] buf[i] != 0 by {
            assert(buf[i] == part[i - at]);
            assert(parts[0][i - at] != 0);
        }
        assert(buf[end] == 0);
        assert(buf.subrange(at, end) =~= part);
        strings_end_at_the_first_nul(buf, at, end);
        let next = head + part + seq![0u8];
        assert(buf =~= next + terminated(rest) + tail);
        assert forall|i: int, j: int| 0 <= i < rest.len() && 0 <= j < rest[i].len() implies
            #[trigger] rest[i][j] != 0 by {
            assert(parts[i + 1][j] != 0);
        }
        strings_are_read_back(next, rest, tail);
        let texts = strings_at(buf, at, parts.len());
        let more = strings_at(buf, end + 1, rest.len());
        assert(next.len() == end + 1);
        assert(texts =~= seq![text::lossy_text(part)] + more);
        assert forall|i: int| 0 <= i < parts.len() implies #[trigger] texts[i]
            == text::lossy_text(parts[i]) by {
            if i > 0 {
                assert(texts[i] == more[i - 1]);
                assert(parts[i] == rest[i - 1]);
            }
        }
    }
}

/// No more strings are read than were asked for, and none from behind the buffer. A string
/// that reaches up to the end of the buffer is the last.
pub proof fn no_more_strings_than_asked_for(buf: Seq<u8>, at: int, count: nat)
    requires
        0 <= at,
    ensures
        strings_at(buf, at, count).len() <= count,
        at >= buf.len() ==> strings_at(buf, at, count).len() == 0,
        at < buf.len() && count > 0 ==> strings_at(buf, at, count).len() > 0,
        at < buf.len() && count > 0 && (forall|i: int| at <= i < buf.len() ==> #[trigger] buf[i]
            != 0) ==> strings_at(buf, at, count) == seq![
            text::lossy_text(buf.subrange(at, buf.len() as int)),
        ],
    decreases count,
{
    if count > 0 && at < buf.len() {
        let end: int = string_end(buf, at);
        lemma_string_end(buf, at);
        no_more_strings_than_asked_for(buf, end + 1, (count - 1) as nat);
        if forall|i: int| at <= i < buf.len() ==> #[trigger] buf[i] != 0 {
            strings_end_at_the_first_nul(buf, at, buf.len() as int);
            assert(strings_at(buf, at, count) =~= seq![
                text::lossy_text(buf.subrange(at, buf.len() as int)),
            ]);
        }
    }
}

proof fn lemma_string_end(buf: Seq<u8>, at: int)
    requires
        0 <= at <= buf.len(),
    ensures
        is_string(buf, at, string_end(buf, at)),
    decreases buf.len() - at,
{
    if at < buf.len() && buf[at] != 0 {
        lemma_string_end(buf, at + 1);
    }
}

/// What a reply says of one of its strings: nothing if the mask does not name it or its
/// place is behind the buffer, or else the string at that place.
pub open spec fn says(
    field: Option<Seq<char>>,
    buf: Seq<u8>,
    named: bool,
    at: int,
    end: int,
) -> bool {
    if named && at < buf.len() {
        is_string(buf, at, end) ==> field == Some(text::lossy_text(buf.subrange(at, end)))
    } else {
        field is None
    }
}

/// Where the fields of a reply are: its mask at 8, the mount ID at 40, and at 36, 108, 124
/// and 132, relative to the end of the 512 bytes of the header, the places of the file
/// system type, the mount point, the source and the options, whose number is at 128. A
/// field is there exactly if its bit is in the mask.
pub proof fn reply_fields_are_at_their_places(
    buf: Seq<u8>,
    order: ByteOrder,
    fs_type_end: int,
    mnt_point_end: int,
    sb_source_end: int,
)
    ensures
        ({
            let info = statmount_info(buf, order);
            let mask = uint_at(buf, 8, 8, order) as u64;
            &&& info.mnt_id == uint_at(buf, 40, 8, order) as u64
            &&& says(
                info.fs_type,
                buf,
                mask & 0x20 != 0,
                512 + uint_at(buf, 36, 4, order) as int,
                fs_type_end,
            )
            &&& says(
                info.mnt_point,
                buf,
                mask & 0x10 != 0,
                512 + uint_at(buf, 108, 4, order) as int,
                mnt_point_end,
            )
            &&& says(
                info.sb_source,
                buf,
                mask & 0x200 != 0,
                512 + uint_at(buf, 124, 4, order) as int,
                sb_source_end,
            )
            &&& info.opt_array is Some <==> mask & 0x400 != 0
            &&& info.opt_array matches Some(options) ==> options == strings_at(
                buf,
                512 + uint_at(buf, 132, 4, order) as int,
                uint_at(buf, 128, 4, order),
            )
        }),
{
    let at: int = 512 + uint_at(buf, 36, 4, order) as int;
    if is_string(buf, at, fs_type_end) {
        strings_end_at_the_first_nul(buf, at, fs_type_end);
    }
    let at: int = 512 + uint_at(buf, 108, 4, order) as int;
    if is_string(buf, at, mnt_point_end) {
        strings_end_at_the_first_nul(buf, at, mnt_point_end);
    }
    let at: int = 512 + uint_at(buf, 124, 4, order) as int;
    if is_string(buf, at, sb_source_end) {
        strings_end_at_the_first_nul(buf, at, sb_source_end);
    }
}

/// A reply with a whole header is accepted if the places of its strings fit 32 bits; one
/// without a whole header is not.
pub proof fn whole_replies_are_accepted(buf: Seq<u8>, order: ByteOrder)
    ensures
        buf.len() < 512 ==> !statmount_fits(buf, order),
        buf.len() >= 512 && 512 + uint_at(buf, 36, 4, order) <= u32::MAX && 512 + uint_at(
            buf,
            108,
            4,
            order,
        ) <= u32::MAX && 512 + uint_at(buf, 124, 4, order) <= u32::MAX && 512 + uint_at(
            buf,
            132,
            4,
            order,
        ) <= u32::MAX ==> statmount_fits(buf, order),
        uint_at(buf, 8, 8, order) as u64 & 0x20 != 0 && 512 + uint_at(buf, 36, 4, order) > u32::MAX
            ==> !statmount_fits(buf, order),
        uint_at(buf, 8, 8, order) as u64 & 0x10 != 0 && 512 + uint_at(buf, 108, 4, order) > u32::MAX
            ==> !statmount_fits(buf, order),
        uint_at(buf, 8, 8, order) as u64 & 0x200 != 0 && 512 + uint_at(buf, 124, 4, order)
            > u32::MAX ==> !statmount_fits(buf, order),
        uint_at(buf, 8, 8, order) as u64 & 0x400 != 0 && 512 + uint_at(buf, 132, 4, order)
            > u32::MAX ==> !statmount_fits(buf, order),
{
}

/// The model of a parsed reply has what the reply has.
pub proof fn mount_models_are_faithful(r: StatmountResult, page: Result<Vec<u64>, SyscallFailure>)
    ensures
        r@.mnt_id == r.mnt_id,
        r@.fs_type == text::opt_text(r.fs_type),
        r@.sb_source == text::opt_text(r.sb_source),
        r@.mnt_point == text::opt_text(r.mnt_point),
        r.opt_array is None <==> r@.opt_array is None,
        r.opt_array matches Some(v) ==> r@.opt_array == Some(text::texts(v@)),
        match page {
            Ok(ids) => page_model(page) == Ok::<Seq<u64>, SyscallFailure>(ids@),
            Err(e) => page_model(page) == Err::<Seq<u64>, SyscallFailure>(e),
        },
{
}

} // verus!

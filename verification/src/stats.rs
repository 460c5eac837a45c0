//! Counters of what an import stored, and how.
use vstd::prelude::*;

verus! {

/// How an object reached the object store.
#[derive(Debug, Clone, Copy, PartialEq, Eq, Structural)]
pub enum ObjectStoreMethod {
    /// Cloned with a reflink.
    Reflinked,
    /// Hardlinked.
    Hardlinked,
    /// Copied byte by byte.
    Copied,
    /// It was there already.
    AlreadyPresent,
}

/// Statistics of an import.
#[derive(Debug, Clone, Copy, PartialEq, Eq, Structural)]
pub struct ImportStats {
    /// Number of layers of the image.
    pub layers: u64,
    /// Number of layers that were in the repository already.
    pub layers_already_present: u64,
    /// Number of objects reflinked.
    pub objects_reflinked: u64,
    /// Number of objects hardlinked.
    pub objects_hardlinked: u64,
    /// Number of objects copied.
    pub objects_copied: u64,
    /// Number of objects that were in the repository already.
    pub objects_already_present: u64,
    /// Bytes in reflinked objects.
    pub bytes_reflinked: u64,
    /// Bytes in hardlinked objects.
    pub bytes_hardlinked: u64,
    /// Bytes in copied objects.
    pub bytes_copied: u64,
    /// Bytes stored inline.
    pub bytes_inlined: u64,
}

impl Default for ImportStats {
    fn default() -> (stats: Self)
        ensures
            stats == ImportStats::zero(),
    {
        ImportStats {
            layers: 0,
            layers_already_present: 0,
            objects_reflinked: 0,
            objects_hardlinked: 0,
            objects_copied: 0,
            objects_already_present: 0,
            bytes_reflinked: 0,
            bytes_hardlinked: 0,
            bytes_copied: 0,
            bytes_inlined: 0,
        }
    }
}

impl ImportStats {
    /// Nothing counted yet.
    pub open spec fn zero() -> ImportStats {
        ImportStats {
            layers: 0,
            layers_already_present: 0,
            objects_reflinked: 0,
            objects_hardlinked: 0,
            objects_copied: 0,
            objects_already_present: 0,
            bytes_reflinked: 0,
            bytes_hardlinked: 0,
            bytes_copied: 0,
            bytes_inlined: 0,
        }
    }

    /// How many objects were counted.
    pub open spec fn objects(self) -> nat {
        (self.objects_reflinked + self.objects_hardlinked + self.objects_copied
            + self.objects_already_present) as nat
    }

    /// Whether `size` more inline bytes can be counted.
    pub open spec fn inline_fits(self, size: int) -> bool {
        self.bytes_inlined + size <= u64::MAX
    }

    /// The counters after `size` more inline bytes.
    pub open spec fn with_inline(self, size: int) -> ImportStats {
        ImportStats { bytes_inlined: (self.bytes_inlined + size) as u64, ..self }
    }

    /// Whether one more object of `size` bytes can be counted.
    pub open spec fn object_fits(self, method: ObjectStoreMethod, size: int) -> bool {
        match method {
            ObjectStoreMethod::Reflinked => self.objects_reflinked < u64::MAX
                && self.bytes_reflinked + size <= u64::MAX,
            ObjectStoreMethod::Hardlinked => self.objects_hardlinked < u64::MAX
                && self.bytes_hardlinked + size <= u64::MAX,
            ObjectStoreMethod::Copied => self.objects_copied < u64::MAX && self.bytes_copied + size
                <= u64::MAX,
            ObjectStoreMethod::AlreadyPresent => self.objects_already_present < u64::MAX,
        }
    }

    /// The counters after one more object of `size` bytes.
    pub open spec fn with_object(self, method: ObjectStoreMethod, size: int) -> ImportStats {
        match method {
            ObjectStoreMethod::Reflinked => ImportStats {
                objects_reflinked: (self.objects_reflinked + 1) as u64,
                bytes_reflinked: (self.bytes_reflinked + size) as u64,
                ..self
            },
            ObjectStoreMethod::Hardlinked => ImportStats {
                objects_hardlinked: (self.objects_hardlinked + 1) as u64,
                bytes_hardlinked: (self.bytes_hardlinked + size) as u64,
                ..self
            },
            ObjectStoreMethod::Copied => ImportStats {
                objects_copied: (self.objects_copied + 1) as u64,
                bytes_copied: (self.bytes_copied + size) as u64,
                ..self
            },
            ObjectStoreMethod::AlreadyPresent => ImportStats {
                objects_already_present: (self.objects_already_present + 1) as u64,
                ..self
            },
        }
    }

    /// Whether `size` more inline bytes can be counted.
    pub fn can_count_inline(&self, size: u64) -> (fits: bool)
        ensures
            fits == self.inline_fits(size as int),
    {
        self.bytes_inlined <= u64::MAX - size
    }

    /// Counts `size` inline bytes.
    pub fn count_inline(&mut self, size: u64)
        requires
            old(self).inline_fits(size as int),
        ensures
            *final(self) == old(self).with_inline(size as int),
    {
        self.bytes_inlined = self.bytes_inlined + size;
    }

    /// Whether one more object of `size` bytes can be counted.
    pub fn can_count_object(&self, method: ObjectStoreMethod, size: u64) -> (fits: bool)
        ensures
            fits == self.object_fits(method, size as int),
    {
        match method {
            ObjectStoreMethod::Reflinked => self.objects_reflinked < u64::MAX
                && self.bytes_reflinked <= u64::MAX - size,
            ObjectStoreMethod::Hardlinked => self.objects_hardlinked < u64::MAX
                && self.bytes_hardlinked <= u64::MAX - size,
            ObjectStoreMethod::Copied => self.objects_copied < u64::MAX && self.bytes_copied
                <= u64::MAX - size,
            ObjectStoreMethod::AlreadyPresent => self.objects_already_present < u64::MAX,
        }
    }

    /// Counts one object of `size` bytes. An object that was there already
    /// adds no bytes.
    pub fn count_object(&mut self, method: ObjectStoreMethod, size: u64)
        requires
            old(self).object_fits(method, size as int),
        ensures
            *final(self) == old(self).with_object(method, size as int),
    {
        match method {
            ObjectStoreMethod::Reflinked => {
                self.objects_reflinked = self.objects_reflinked + 1;
                self.bytes_reflinked = self.bytes_reflinked + size;
            },
            ObjectStoreMethod::Hardlinked => {
                self.objects_hardlinked = self.objects_hardlinked + 1;
                self.bytes_hardlinked = self.bytes_hardlinked + size;
            },
            ObjectStoreMethod::Copied => {
                self.objects_copied = self.objects_copied + 1;
                self.bytes_copied = self.bytes_copied + size;
            },
            ObjectStoreMethod::AlreadyPresent => {
                self.objects_already_present = self.objects_already_present + 1;
            },
        }
    }

    /// Whether the sums of two sets of counters can be held.
    pub open spec fn merge_fits(self, other: ImportStats) -> bool {
        &&& self.layers + other.layers <= u64::MAX
        &&& self.layers_already_present + other.layers_already_present <= u64::MAX
        &&& self.objects_reflinked + other.objects_reflinked <= u64::MAX
        &&& self.objects_hardlinked + other.objects_hardlinked <= u64::MAX
        &&& self.objects_copied + other.objects_copied <= u64::MAX
        &&& self.objects_already_present + other.objects_already_present <= u64::MAX
        &&& self.bytes_reflinked + other.bytes_reflinked <= u64::MAX
        &&& self.bytes_hardlinked + other.bytes_hardlinked <= u64::MAX
        &&& self.bytes_copied + other.bytes_copied <= u64::MAX
        &&& self.bytes_inlined + other.bytes_inlined <= u64::MAX
    }

    /// The sums of two sets of counters.
    pub open spec fn merged(self, other: ImportStats) -> ImportStats {
        ImportStats {
            layers: (self.layers + other.layers) as u64,
            layers_already_present: (self.layers_already_present + other.layers_already_present)
                as u64,
            objects_reflinked: (self.objects_reflinked + other.objects_reflinked) as u64,
            objects_hardlinked: (self.objects_hardlinked + other.objects_hardlinked) as u64,
            objects_copied: (self.objects_copied + other.objects_copied) as u64,
            objects_already_present: (self.objects_already_present + other.objects_already_present)
                as u64,
            bytes_reflinked: (self.bytes_reflinked + other.bytes_reflinked) as u64,
            bytes_hardlinked: (self.bytes_hardlinked + other.bytes_hardlinked) as u64,
            bytes_copied: (self.bytes_copied + other.bytes_copied) as u64,
            bytes_inlined: (self.bytes_inlined + other.bytes_inlined) as u64,
        }
    }

    /// Whether the sums of two sets of counters can be held.
    pub fn can_merge(&self, other: &ImportStats) -> (fits: bool)
        ensures
            fits == self.merge_fits(*other),
    {
        self.layers <= u64::MAX - other.layers && self.layers_already_present <= u64::MAX
            - other.layers_already_present && self.objects_reflinked <= u64::MAX
            - other.objects_reflinked && self.objects_hardlinked <= u64::MAX
            - other.objects_hardlinked && self.objects_copied <= u64::MAX - other.objects_copied
            && self.objects_already_present <= u64::MAX - other.objects_already_present
            && self.bytes_reflinked <= u64::MAX - other.bytes_reflinked && self.bytes_hardlinked
            <= u64::MAX - other.bytes_hardlinked && self.bytes_copied <= u64::MAX
            - other.bytes_copied && self.bytes_inlined <= u64::MAX - other.bytes_inlined
    }

    /// Adds the counters of `other`.
    pub fn merge(&mut self, other: &ImportStats)
        requires
            old(self).merge_fits(*other),
        ensures
            *final(self) == old(self).merged(*other),
    {
        self.layers = self.layers + other.layers;
        self.layers_already_present = self.layers_already_present + other.layers_already_present;
        self.objects_reflinked = self.objects_reflinked + other.objects_reflinked;
        self.objects_hardlinked = self.objects_hardlinked + other.objects_hardlinked;
        self.objects_copied = self.objects_copied + other.objects_copied;
        self.objects_already_present = self.objects_already_present + other.objects_already_present;
        self.bytes_reflinked = self.bytes_reflinked + other.bytes_reflinked;
        self.bytes_hardlinked = self.bytes_hardlinked + other.bytes_hardlinked;
        self.bytes_copied = self.bytes_copied + other.bytes_copied;
        self.bytes_inlined = self.bytes_inlined + other.bytes_inlined;
    }
}

/// Counting inline bytes changes that counter by their number, and no other.
pub proof fn inline_bytes_are_counted(stats: ImportStats, size: int)
    requires
        0 <= size,
        stats.bytes_inlined + size <= u64::MAX,
    ensures
        stats.inline_fits(size),
        ({
            let after = stats.with_inline(size);
            &&& after.bytes_inlined == stats.bytes_inlined + size
            &&& after.layers == stats.layers
            &&& after.layers_already_present == stats.layers_already_present
            &&& after.objects_reflinked == stats.objects_reflinked
            &&& after.objects_hardlinked == stats.objects_hardlinked
            &&& after.objects_copied == stats.objects_copied
            &&& after.objects_already_present == stats.objects_already_present
            &&& after.bytes_reflinked == stats.bytes_reflinked
            &&& after.bytes_hardlinked == stats.bytes_hardlinked
            &&& after.bytes_copied == stats.bytes_copied
        }),
{
}

/// Counting an object changes the number of objects stored the way it was stored by
/// one, and the bytes stored that way by its size, unless it was there already; and no
/// other counter.
pub proof fn objects_are_counted_by_method(stats: ImportStats, method: ObjectStoreMethod, size: int)
    requires
        0 <= size,
        stats.object_fits(method, size),
    ensures
        ({
            let after = stats.with_object(method, size);
            let one = |m: ObjectStoreMethod|
                if m == method {
                    1int
                } else {
                    0
                };
            let bytes = |m: ObjectStoreMethod|
                if m == method {
                    size
                } else {
                    0
                };
            &&& after.objects_reflinked == stats.objects_reflinked + one(
                ObjectStoreMethod::Reflinked,
            )
            &&& after.objects_hardlinked == stats.objects_hardlinked + one(
                ObjectStoreMethod::Hardlinked,
            )
            &&& after.objects_copied == stats.objects_copied + one(ObjectStoreMethod::Copied)
            &&& after.objects_already_present == stats.objects_already_present + one(
                ObjectStoreMethod::AlreadyPresent,
            )
            &&& after.bytes_reflinked == stats.bytes_reflinked + bytes(
                ObjectStoreMethod::Reflinked,
            )
            &&& after.bytes_hardlinked == stats.bytes_hardlinked + bytes(
                ObjectStoreMethod::Hardlinked,
            )
            &&& after.bytes_copied == stats.bytes_copied + bytes(ObjectStoreMethod::Copied)
            &&& after.bytes_inlined == stats.bytes_inlined
            &&& after.layers == stats.layers
            &&& after.layers_already_present == stats.layers_already_present
        }),
{
}

/// An object can be counted unless a counter that it changes would overflow.
pub proof fn objects_fit_unless_a_counter_overflows(
    stats: ImportStats,
    method: ObjectStoreMethod,
    size: int,
)
    requires
        0 <= size,
    ensures
        stats.objects() < u64::MAX && size + stats.bytes_reflinked + stats.bytes_hardlinked
            + stats.bytes_copied <= u64::MAX ==> stats.object_fits(method, size),
        stats.object_fits(method, size) && method != ObjectStoreMethod::AlreadyPresent ==> size
            <= u64::MAX,
        stats.inline_fits(size) <==> stats.bytes_inlined + size <= u64::MAX,
{
}

/// Merging adds up every counter.
pub proof fn merging_adds_up(a: ImportStats, b: ImportStats)
    requires
        a.merge_fits(b),
    ensures
        ({
            let sum = a.merged(b);
            &&& sum == b.merged(a)
            &&& b.merge_fits(a)
            &&& a.merged(ImportStats::zero()) == a
            &&& sum.layers == a.layers + b.layers
            &&& sum.layers_already_present == a.layers_already_present + b.layers_already_present
            &&& sum.objects() == a.objects() + b.objects()
            &&& sum.objects_reflinked == a.objects_reflinked + b.objects_reflinked
            &&& sum.objects_hardlinked == a.objects_hardlinked + b.objects_hardlinked
            &&& sum.objects_copied == a.objects_copied + b.objects_copied
            &&& sum.objects_already_present == a.objects_already_present
                + b.objects_already_present
            &&& sum.bytes_reflinked == a.bytes_reflinked + b.bytes_reflinked
            &&& sum.bytes_hardlinked == a.bytes_hardlinked + b.bytes_hardlinked
            &&& sum.bytes_copied == a.bytes_copied + b.bytes_copied
            &&& sum.bytes_inlined == a.bytes_inlined + b.bytes_inlined
        }),
{
}

/// Nothing counted means that every counter is zero.
pub proof fn nothing_is_counted_at_first()
    ensures
        ({
            let z = ImportStats::zero();
            &&& z.layers == 0 && z.layers_already_present == 0 && z.bytes_inlined == 0
            &&& z.objects_reflinked == 0 && z.objects_hardlinked == 0 && z.objects_copied == 0
            &&& z.objects_already_present == 0
            &&& z.bytes_reflinked == 0 && z.bytes_hardlinked == 0 && z.bytes_copied == 0
            &&& z.objects() == 0
        }),
{
}

/// Counters whose sums all fit can be merged.
pub proof fn merging_fits_unless_a_counter_overflows(a: ImportStats, b: ImportStats)
    requires
        a.layers + b.layers <= u64::MAX,
        a.layers_already_present + b.layers_already_present <= u64::MAX,
        a.objects() + b.objects() <= u64::MAX,
        a.bytes_reflinked + b.bytes_reflinked <= u64::MAX,
        a.bytes_hardlinked + b.bytes_hardlinked <= u64::MAX,
        a.bytes_copied + b.bytes_copied <= u64::MAX,
        a.bytes_inlined + b.bytes_inlined <= u64::MAX,
    ensures
        a.merge_fits(b),
{
}

} // verus!

//! Segment accounting: how much total disk to use, when to rotate to the
//! next segment, and which old segments garbage collection removes. Segment
//! indices live on a ring of 64-bit integers and wrap around.
use vstd::prelude::*;

verus! {

/// Granularity floor for one segment file.
pub const PAGE_SIZE: u64 = 4096;

/// Ceiling for one segment file, ten gibibytes.
pub const MAX_FILE_SIZE: u64 = 10737418240;

/// How many segments the configured total is split over.
pub const NUM_FILES_SPLIT: u64 = 4;

/// The next index on the segment ring.
pub open spec fn ring_next(x: u64) -> u64 {
    if x == u64::MAX {
        0
    } else {
        (x + 1) as u64
    }
}

/// The index `k` steps forward on the segment ring.
pub open spec fn ring_fwd(x: u64, k: nat) -> u64
    decreases k,
{
    if k == 0 {
        x
    } else {
        ring_next(ring_fwd(x, (k - 1) as nat))
    }
}

/// How many forward steps lead from `from` to `to` on the segment ring.
pub open spec fn ring_distance(from: u64, to: u64) -> int {
    if to >= from {
        to - from
    } else {
        u64::MAX - (from - to) + 1
    }
}

/// One forward step from anywhere but the target shortens the remaining
/// distance by one.
pub proof fn lemma_ring_next_distance(from: u64, to: u64)
    requires
        from != to,
    ensures
        ring_distance(ring_next(from), to) == ring_distance(from, to) - 1,
{
}

/// `k` forward steps shorten the remaining distance by `k`.
pub proof fn lemma_ring_fwd_distance(from: u64, to: u64, k: nat)
    requires
        k <= ring_distance(from, to),
    ensures
        ring_distance(ring_fwd(from, k), to) == ring_distance(from, to) - k,
    decreases k,
{
    if k > 0 {
        lemma_ring_fwd_distance(from, to, (k - 1) as nat);
        lemma_ring_next_distance(ring_fwd(from, (k - 1) as nat), to);
    }
}

/// Advancing the far end one step lengthens the distance by one, as long as
/// the window does not already span the whole ring.
pub proof fn lemma_ring_extend_distance(from: u64, to: u64)
    requires
        ring_distance(from, to) < u64::MAX,
    ensures
        ring_distance(from, ring_next(to)) == ring_distance(from, to) + 1,
{
}

/// Total bytes over a sequence of segment sizes.
pub open spec fn total_bytes(sizes: Seq<u64>) -> int
    decreases sizes.len(),
{
    if sizes.len() == 0 {
        0
    } else {
        sizes[0] + total_bytes(sizes.drop_first())
    }
}

/// A sequence of bounded entries has a bounded total.
pub proof fn lemma_total_bytes_bounded(sizes: Seq<u64>, bound: int)
    requires
        forall|i: int| 0 <= i < sizes.len() ==> sizes[i] <= bound,
    ensures
        total_bytes(sizes) <= sizes.len() * bound,
    decreases sizes.len(),
{
    if sizes.len() > 0 {
        assert(forall|i: int|
            0 <= i < sizes.drop_first().len() ==> #[trigger] sizes.drop_first()[i] <= bound);
        lemma_total_bytes_bounded(sizes.drop_first(), bound);
        assert(sizes.len() * bound == bound + (sizes.len() - 1) * bound) by (nonlinear_arith);
    }
}

/// Bytes each segment may hold, derived from the configured total.
pub open spec fn spec_size_per_file(size: u64) -> u64 {
    let split = (size / NUM_FILES_SPLIT) as u64;
    let capped = if split <= MAX_FILE_SIZE {
        split
    } else {
        MAX_FILE_SIZE
    };
    if capped >= PAGE_SIZE {
        capped
    } else {
        PAGE_SIZE
    }
}

/// How many segments may be live at once, derived from the configured total.
pub open spec fn spec_max_files(size: u64) -> u64 {
    let per_file = spec_size_per_file(size);
    if size % per_file == 0 {
        (size / per_file + 1) as u64
    } else {
        (size / per_file + 2) as u64
    }
}

/// A missing or unreadable segment index means a fresh directory: both
/// pointers start at zero.
pub open spec fn normalize_meta(meta: Option<(u64, u64)>) -> (u64, u64) {
    match meta {
        Some(pair) => pair,
        None => (0, 0),
    }
}

/// Idempotent open: normalizing the pair that a previous open persisted
/// gives that pair back, so reopening an untouched directory changes
/// neither pointer and replays the same segments.
pub proof fn lemma_normalize_idempotent(meta: Option<(u64, u64)>)
    ensures
        normalize_meta(Some(normalize_meta(meta))) == normalize_meta(meta),
{
}

/// Sizing and position of the segment ring: how large one segment may grow,
/// how many may be live, which one is written, and which is the oldest.
pub struct FileConfig {
    /// Number of live segments allowed between the two pointers.
    pub max_files: u64,
    /// Bytes each segment may hold before rotation.
    pub size_per_file: u64,
    /// Index of the segment currently written.
    pub current_pointer: u64,
    /// Index of the oldest live segment.
    pub gc_pointer: u64,
}

impl Default for FileConfig {
    /// The unbounded configuration: huge segments, an effectively unlimited
    /// number of them.
    fn default() -> (r: Self)
        ensures
            r.max_files == u64::MAX - 10,
            r.size_per_file == MAX_FILE_SIZE,
            r.current_pointer == 0,
            r.gc_pointer == 0,
    {
        FileConfig {
            max_files: u64::MAX - 10,
            size_per_file: MAX_FILE_SIZE,
            current_pointer: 0,
            gc_pointer: 0,
        }
    }
}

impl FileConfig {
    /// Derive segment sizing from the configured total size in bytes.
    pub fn new(size: u64) -> (r: Self)
        ensures
            r.size_per_file == spec_size_per_file(size),
            r.max_files == spec_max_files(size),
            1 <= r.max_files <= u64::MAX - 1,
            r.size_per_file >= PAGE_SIZE,
            r.current_pointer == 0,
            r.gc_pointer == 0,
    {
        let mut capacity = size / NUM_FILES_SPLIT;
        if capacity > MAX_FILE_SIZE {
            capacity = MAX_FILE_SIZE;
        }
        if capacity < PAGE_SIZE {
            capacity = PAGE_SIZE;
        }
        proof {
            assert(size / PAGE_SIZE * PAGE_SIZE <= size < (size / PAGE_SIZE + 1) * PAGE_SIZE)
                by (nonlinear_arith);
            assert(size / capacity <= size / PAGE_SIZE) by (nonlinear_arith)
                requires
                    capacity >= PAGE_SIZE > 0,
            ;
            assert(size / PAGE_SIZE <= u64::MAX - 3) by (nonlinear_arith)
                requires
                    size <= u64::MAX,
            ;
        }
        let mut conf = FileConfig::default();
        conf.size_per_file = capacity;
        conf.max_files = if size % capacity == 0 {
            size / capacity + 1
        } else {
            size / capacity + 2
        };
        conf
    }

    /// Move the write pointer one segment forward on the ring.
    pub fn advance_current(&mut self)
        ensures
            final(self).current_pointer == ring_next(old(self).current_pointer),
            final(self).gc_pointer == old(self).gc_pointer,
            final(self).max_files == old(self).max_files,
            final(self).size_per_file == old(self).size_per_file,
    {
        self.current_pointer = self.current_pointer.wrapping_add(1);
    }

    /// Garbage collection: when more than `max_files` steps separate the two
    /// pointers, hand back the indices of the oldest segments — one more than
    /// the excess, starting at the old `gc_pointer` — and advance the
    /// pointer past them, leaving exactly `max_files - 1` steps of distance.
    pub fn gc(&mut self) -> (deleted: Vec<u64>)
        requires
            old(self).max_files >= 1,
        ensures
            final(self).max_files == old(self).max_files,
            final(self).size_per_file == old(self).size_per_file,
            final(self).current_pointer == old(self).current_pointer,
            ({
                let diff = ring_distance(old(self).gc_pointer, old(self).current_pointer);
                if diff <= old(self).max_files {
                    final(self).gc_pointer == old(self).gc_pointer && deleted@ == Seq::<
                        u64,
                    >::empty()
                } else {
                    let del = diff - old(self).max_files;
                    &&& deleted@.len() == del + 1
                    &&& forall|i: int|
                        0 <= i <= del ==> deleted@[i] == ring_fwd(old(self).gc_pointer, i as nat)
                    &&& final(self).gc_pointer == ring_fwd(old(self).gc_pointer, (del + 1) as nat)
                    &&& ring_distance(final(self).gc_pointer, final(self).current_pointer) == old(
                        self,
                    ).max_files - 1
                }
            }),
    {
        let current = self.current_pointer;
        let mut gc_pointer = self.gc_pointer;
        let diff: u64 = if current >= gc_pointer {
            current - gc_pointer
        } else {
            u64::MAX - (gc_pointer - current) + 1
        };
        if diff <= self.max_files {
            return Vec::new();
        }
        let del_count = diff - self.max_files;
        let ghost gc0 = self.gc_pointer;
        let mut deleted: Vec<u64> = Vec::new();
        let mut counter: u64 = 0;
        while counter <= del_count
            invariant
                del_count <= u64::MAX - 1,
                counter <= del_count + 1,
                deleted@.len() == counter,
                forall|i: int| 0 <= i < counter ==> deleted@[i] == ring_fwd(gc0, i as nat),
                gc_pointer == ring_fwd(gc0, counter as nat),
            decreases del_count + 1 - counter,
        {
            deleted.push(gc_pointer);
            gc_pointer = gc_pointer.wrapping_add(1);
            counter = counter + 1;
            proof {
                assert(ring_fwd(gc0, counter as nat) == ring_next(
                    ring_fwd(gc0, (counter - 1) as nat),
                ));
            }
        }
        self.gc_pointer = gc_pointer;
        proof {
            lemma_ring_fwd_distance(
                gc0,
                current,
                (ring_distance(gc0, current) - self.max_files + 1) as nat,
            );
        }
        deleted
    }
}

/// Accounting for the segment currently written: the ring configuration, how
/// many bytes the active segment already holds, and a ghost account of every
/// live segment's byte count.
pub struct SegmentState {
    /// Sizing and the two ring pointers.
    pub config: FileConfig,
    /// Bytes already in the active segment file.
    pub filled: u64,
    /// Ghost: byte counts of the live segments, oldest first; the last entry
    /// is the active segment.
    pub sizes: Ghost<Seq<u64>>,
}

impl SegmentState {
    /// The ghost account matches the ring window: one entry per live segment,
    /// and the active segment's entry equals `filled`.
    pub open spec fn wf(&self) -> bool {
        &&& self.sizes@.len() == ring_distance(self.config.gc_pointer, self.config.current_pointer)
            + 1
        &&& self.sizes@.last() == self.filled
    }

    /// The bounded-footprint invariant, for a bound `c` on committed blocks:
    /// the window holds at most one segment beyond `max_files`, every sealed
    /// segment stayed below `size_per_file + c` bytes, and the active one is
    /// still below `size_per_file`.
    pub open spec fn footprint_ok(&self, c: u64) -> bool {
        &&& self.wf()
        &&& 1 <= self.config.size_per_file
        &&& self.config.max_files <= u64::MAX - 1
        &&& self.sizes@.len() <= self.config.max_files + 1
        &&& forall|i: int|
            0 <= i < self.sizes@.len() - 1 ==> self.sizes@[i] < self.config.size_per_file + c
        &&& self.filled < self.config.size_per_file
    }

    /// Open the engine's segment accounting: derive sizing from the total
    /// size, take the pointers from the persisted segment index (a missing or
    /// corrupt one means a fresh directory), and start from however many
    /// bytes the active segment already holds.
    pub fn open(size: u64, meta: Option<(u64, u64)>, existing: u64) -> (s: SegmentState)
        ensures
            s.config.size_per_file == spec_size_per_file(size),
            s.config.max_files == spec_max_files(size),
            1 <= s.config.max_files <= u64::MAX - 1,
            (s.config.gc_pointer, s.config.current_pointer) == normalize_meta(meta),
            s.filled == existing,
            s.wf(),
            // a fresh directory whose first segment is not already full
            // starts within the footprint bound, whatever the block bound
            meta is None && existing < spec_size_per_file(size) ==> forall|c: u64|
                s.footprint_ok(c),
    {
        let mut config = FileConfig::new(size);
        match meta {
            Some(pair) => {
                config.gc_pointer = pair.0;
                config.current_pointer = pair.1;
            },
            None => {},
        }
        let ghost window = ring_distance(config.gc_pointer, config.current_pointer);
        let s = SegmentState {
            config,
            filled: existing,
            sizes: Ghost(
                Seq::new(
                    (window + 1) as nat,
                    |i: int|
                        if i == window {
                            existing
                        } else {
                            0u64
                        },
                ),
            ),
        };
        s
    }

    /// Account for one committed block and say whether the active segment is
    /// now full, so that the caller must rotate.
    pub fn commit_step(&mut self, len: u64) -> (rotate: bool)
        requires
            old(self).filled + len <= u64::MAX,
        ensures
            final(self).config == old(self).config,
            final(self).filled == old(self).filled + len,
            rotate == (old(self).filled + len >= old(self).config.size_per_file),
            final(self).sizes@ == old(self).sizes@.update(
                old(self).sizes@.len() - 1,
                (old(self).filled + len) as u64,
            ),
            old(self).wf() ==> final(self).wf(),
    {
        self.filled = self.filled + len;
        proof {
            self.sizes@ = self.sizes@.update(self.sizes@.len() - 1, self.filled);
        }
        self.filled >= self.config.size_per_file
    }

    /// Rotate to the next segment: advance the write pointer, garbage
    /// collect, and hand back the indices of the segments to remove. The
    /// caller persists the new pointer pair and opens the fresh segment,
    /// which starts empty.
    pub fn rotate(&mut self) -> (deleted: Vec<u64>)
        requires
            old(self).config.max_files >= 1,
        ensures
            final(self).filled == 0,
            final(self).config.max_files == old(self).config.max_files,
            final(self).config.size_per_file == old(self).config.size_per_file,
            final(self).config.current_pointer == ring_next(old(self).config.current_pointer),
            ({
                let current = ring_next(old(self).config.current_pointer);
                let diff = ring_distance(old(self).config.gc_pointer, current);
                if diff <= old(self).config.max_files {
                    final(self).config.gc_pointer == old(self).config.gc_pointer && deleted@
                        == Seq::<u64>::empty()
                } else {
                    let del = diff - old(self).config.max_files;
                    &&& deleted@.len() == del + 1
                    &&& forall|i: int|
                        0 <= i <= del ==> deleted@[i] == ring_fwd(
                            old(self).config.gc_pointer,
                            i as nat,
                        )
                    &&& final(self).config.gc_pointer == ring_fwd(
                        old(self).config.gc_pointer,
                        (del + 1) as nat,
                    )
                }
            }),
            // bounded footprint: after any rotation at most `max_files`
            // steps separate the oldest live segment from the active one
            ring_distance(final(self).config.gc_pointer, final(self).config.current_pointer) <= old(
                self,
            ).config.max_files,
            // the ghost account drops the removed segments and gains the
            // fresh empty one
            final(self).sizes@ == old(self).sizes@.skip(deleted@.len() as int).push(0),
            old(self).wf() && ring_distance(
                old(self).config.gc_pointer,
                old(self).config.current_pointer,
            ) < u64::MAX ==> final(self).wf(),
    {
        proof {
            if ring_distance(self.config.gc_pointer, self.config.current_pointer) < u64::MAX {
                lemma_ring_extend_distance(self.config.gc_pointer, self.config.current_pointer);
            }
        }
        self.config.advance_current();
        let deleted = self.config.gc();
        self.filled = 0;
        proof {
            self.sizes@ = self.sizes@.skip(deleted@.len() as int).push(0);
        }
        deleted
    }

    /// Account for one committed block of `len` bytes: add it to the active
    /// segment and, when that fills the segment, rotate. `Some` hands back
    /// the segment indices that garbage collection removed (possibly none).
    ///
    /// Bounded footprint: together with `lemma_footprint_total`, the last
    /// clause says that an engine opened on a fresh directory and fed blocks
    /// of at most `c` bytes never holds more than
    /// `(max_files + 1) * (size_per_file + c)` bytes in live segments.
    pub fn commit(&mut self, len: u64) -> (deleted: Option<Vec<u64>>)
        requires
            old(self).config.max_files >= 1,
            old(self).filled + len <= u64::MAX,
        ensures
            final(self).config.max_files == old(self).config.max_files,
            final(self).config.size_per_file == old(self).config.size_per_file,
            match deleted {
                None => {
                    &&& old(self).filled + len < old(self).config.size_per_file
                    &&& final(self).config == old(self).config
                    &&& final(self).filled == old(self).filled + len
                },
                Some(d) => {
                    &&& old(self).filled + len >= old(self).config.size_per_file
                    &&& final(self).filled == 0
                    &&& final(self).config.current_pointer == ring_next(
                        old(self).config.current_pointer,
                    )
                    &&& ring_distance(
                        final(self).config.gc_pointer,
                        final(self).config.current_pointer,
                    ) <= old(self).config.max_files
                    &&& ({
                        let diff = ring_distance(
                            old(self).config.gc_pointer,
                            ring_next(old(self).config.current_pointer),
                        );
                        if diff <= old(self).config.max_files {
                            final(self).config.gc_pointer == old(self).config.gc_pointer && d@
                                == Seq::<u64>::empty()
                        } else {
                            let del = diff - old(self).config.max_files;
                            &&& d@.len() == del + 1
                            &&& forall|i: int|
                                0 <= i <= del ==> d@[i] == ring_fwd(
                                    old(self).config.gc_pointer,
                                    i as nat,
                                )
                            &&& final(self).config.gc_pointer == ring_fwd(
                                old(self).config.gc_pointer,
                                (del + 1) as nat,
                            )
                        }
                    })
                },
            },
            old(self).wf() && ring_distance(
                old(self).config.gc_pointer,
                old(self).config.current_pointer,
            ) < u64::MAX ==> final(self).wf(),
            // the bounded-footprint invariant is preserved, for every block
            // bound the commit respects
            forall|c: u64|
                len <= c && old(self).footprint_ok(c) ==> #[trigger] final(self).footprint_ok(c),
    {
        let ghost pre = *self;
        let full = self.commit_step(len);
        if !full {
            proof {
                assert forall|c: u64| len <= c && pre.footprint_ok(c) implies #[trigger] self
                    .footprint_ok(c) by {
                    assert(self.sizes@.len() == pre.sizes@.len());
                    assert(forall|i: int|
                        0 <= i < self.sizes@.len() - 1 ==> self.sizes@[i] == pre.sizes@[i]);
                }
            }
            return None;
        }
        let ghost mid = *self;
        let deleted = self.rotate();
        proof {
            assert forall|c: u64| len <= c && pre.footprint_ok(c) implies #[trigger] self
                .footprint_ok(c) by {
                let k = deleted@.len() as int;
                assert(mid.wf());
                assert(ring_distance(mid.config.gc_pointer, mid.config.current_pointer)
                    < u64::MAX);
                assert(self.wf());
                assert(self.sizes@.len() <= self.config.max_files + 1);
                assert(k <= mid.sizes@.len());
                assert forall|i: int| 0 <= i < self.sizes@.len() - 1 implies self.sizes@[i]
                    < self.config.size_per_file + c by {
                    assert(self.sizes@[i] == mid.sizes@[i + k]);
                    if i + k < mid.sizes@.len() - 1 {
                        assert(mid.sizes@[i + k] == pre.sizes@[i + k]);
                    } else {
                        assert(mid.sizes@[i + k] == pre.filled + len);
                    }
                }
            }
        }
        Some(deleted)
    }
}

/// From the footprint invariant: the live segments hold at most one segment
/// more than `max_files`, each below `size_per_file + c` bytes, so their
/// total stays under `(max_files + 1) * (size_per_file + c)`.
pub proof fn lemma_footprint_total(s: SegmentState, c: u64)
    requires
        s.footprint_ok(c),
    ensures
        total_bytes(s.sizes@) <= (s.config.max_files + 1) * (s.config.size_per_file + c),
{
    let bound = s.config.size_per_file + c;
    assert(forall|i: int| 0 <= i < s.sizes@.len() ==> s.sizes@[i] <= bound);
    lemma_total_bytes_bounded(s.sizes@, bound);
    assert(s.sizes@.len() * bound <= (s.config.max_files + 1) * bound) by (nonlinear_arith)
        requires
            s.sizes@.len() <= s.config.max_files + 1,
            bound >= 0,
    ;
}

} // verus!

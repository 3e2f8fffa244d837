//! A write-ahead log engine: an in-memory staging buffer, a segmented file
//! manager with garbage collection, persisted segment-index metadata, and a
//! sequential replay decoder.
//!
//! Everything here works on plain values (bytes, integers, strings); the
//! surrounding binary performs the actual file and thread work and drives
//! these verified cores.
use vstd::prelude::*;

pub mod buffer;
pub mod builder;
pub mod codec;
pub mod manager;
pub mod meta;
pub mod replay;
pub mod writer;

verus! {

/// Number of bytes staged in memory before a flush, when the caller does not
/// pick a size.
pub const DEFAULT_BUFFER_SIZE: usize = 4096;

/// A data size in kibibytes, mebibytes or gibibytes.
pub enum Size {
    Kb(usize),
    Mb(usize),
    Gb(usize),
}

impl Size {
    /// The number of bytes this size stands for.
    pub open spec fn spec_bytes(&self) -> int {
        match *self {
            Size::Kb(kb) => kb * 1024,
            Size::Mb(mb) => mb * 1024 * 1024,
            Size::Gb(gb) => gb * 1024 * 1024 * 1024,
        }
    }

    /// Convert to bytes, or nothing when the product does not fit the
    /// machine's word size.
    pub fn checked_bytes(&self) -> (r: Option<usize>)
        ensures
            match r {
                Some(v) => v == self.spec_bytes(),
                None => self.spec_bytes() > usize::MAX,
            },
    {
        match self {
            Size::Kb(kb) => kb.checked_mul(1024),
            Size::Mb(mb) => mb.checked_mul(1048576),
            Size::Gb(gb) => gb.checked_mul(1073741824),
        }
    }

    /// Convert to bytes. The product must fit the machine's word size.
    pub fn to_bytes(&self) -> (r: usize)
        requires
            self.spec_bytes() <= usize::MAX,
        ensures
            r == self.spec_bytes(),
    {
        match self {
            Size::Kb(kb) => *kb * 1024,
            Size::Mb(mb) => *mb * 1024 * 1024,
            Size::Gb(gb) => *gb * 1024 * 1024 * 1024,
        }
    }
}

/// Configuration consumed when the engine is opened.
pub struct WalConfig {
    /// Directory that holds the segments and the index file.
    pub location: String,
    /// Soft cap on the total disk footprint, in bytes.
    pub size: u64,
    /// Whether every commit is forced to stable storage.
    pub fsync: bool,
    /// Staging buffer size in bytes; zero disables the buffer.
    pub buffer_size: usize,
}

impl WalConfig {
    /// The configuration of an engine opened with just a directory and an
    /// optional footprint cap in mebibytes.
    pub fn with_size_mb(location: String, size_mb: Option<u16>) -> (c: WalConfig)
        ensures
            c.location@ == location@,
            !c.fsync,
            c.buffer_size == DEFAULT_BUFFER_SIZE,
            c.size == match size_mb {
                Some(v) => v * 1024 * 1024,
                None => u64::MAX as int,
            },
    {
        let size: u64 = match size_mb {
            Some(v) => (v as u64) * 1024 * 1024,
            None => u64::MAX,
        };
        WalConfig { location, size, fsync: false, buffer_size: DEFAULT_BUFFER_SIZE }
    }
}

impl Default for WalConfig {
    /// No location yet, unbounded footprint, no fsync, default buffer.
    fn default() -> (r: Self)
        ensures
            r.location@ == Seq::<char>::empty(),
            r.size == u64::MAX,
            !r.fsync,
            r.buffer_size == DEFAULT_BUFFER_SIZE,
    {
        WalConfig {
            location: String::new(),
            size: u64::MAX,
            fsync: false,
            buffer_size: DEFAULT_BUFFER_SIZE,
        }
    }
}

/// The engine's coarse regime: idle, one long replay, or multi-threaded
/// writing. Stored by the surrounding binary in one atomic byte.
#[derive(Clone, Copy, PartialEq, Eq, Structural, Debug)]
pub enum Mode {
    Idle,
    Read,
    Write,
}

impl Mode {
    /// The byte stored in the shared atomic for this mode.
    pub fn to_byte(self) -> (b: u8)
        ensures
            b == 0 <==> self == Mode::Idle,
            b == 1 <==> self == Mode::Read,
            b == 2 <==> self == Mode::Write,
    {
        match self {
            Mode::Idle => 0,
            Mode::Read => 1,
            Mode::Write => 2,
        }
    }

    /// The mode a stored byte stands for; unknown bytes count as idle.
    pub fn from_byte(b: u8) -> (m: Mode)
        ensures
            b == 1 ==> m == Mode::Read,
            b == 2 ==> m == Mode::Write,
            b != 1 && b != 2 ==> m == Mode::Idle,
    {
        if b == 1 {
            Mode::Read
        } else if b == 2 {
            Mode::Write
        } else {
            Mode::Idle
        }
    }
}

/// What a writer may do, given the mode it observed.
pub enum WriteAccess {
    /// Writing is already on: proceed.
    Proceed,
    /// The engine was idle: switch it to writing and proceed.
    Acquire,
    /// A replay is running; writing while reading is a programming error.
    Forbidden,
}

/// Mode arbitration for `write`: writing proceeds when the engine already
/// writes, takes the engine when it is idle, and is forbidden during a
/// replay.
pub fn write_transition(observed: Mode) -> (r: WriteAccess)
    ensures
        observed == Mode::Write ==> r is Proceed,
        observed == Mode::Idle ==> r is Acquire,
        observed == Mode::Read ==> r is Forbidden,
{
    match observed {
        Mode::Write => WriteAccess::Proceed,
        Mode::Idle => WriteAccess::Acquire,
        Mode::Read => WriteAccess::Forbidden,
    }
}

/// Mode arbitration for `read`: a replay may start only from idle, and owns
/// the engine until it ends; anything else is a recoverable refusal.
pub fn read_transition(observed: Mode) -> (r: Option<Mode>)
    ensures
        observed == Mode::Idle ==> r == Some(Mode::Read),
        observed != Mode::Idle ==> r is None,
{
    match observed {
        Mode::Idle => Some(Mode::Read),
        _ => None,
    }
}

/// Mode arbitration for the end of a replay: the iterator hands the engine
/// back to idle, whatever else happened.
pub fn read_release() -> (r: Mode)
    ensures
        r == Mode::Idle,
{
    Mode::Idle
}

} // verus!

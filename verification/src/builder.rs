//! Fluent construction of a [`WalConfig`]. The builder validates its inputs
//! and computes the configuration; creating the directory and opening the
//! engine on it is the surrounding binary's part.
use crate::{Size, WalConfig, DEFAULT_BUFFER_SIZE};
use vstd::prelude::*;

verus! {

/// Why a configuration cannot be built.
#[derive(Clone, Copy, PartialEq, Eq, Structural, Debug)]
pub enum BuildError {
    /// No storage location was given.
    MissingLocation,
}

impl BuildError {
    /// The user-facing message for this error.
    pub fn message(&self) -> (r: &'static str)
        ensures
            r@ == "Location field is required"@,
    {
        "Location field is required"
    }
}

/// Builds a [`WalConfig`] by chained calls: by default a four-kibibyte
/// buffer, an unbounded footprint, and no fsync.
pub struct WalBuilder {
    location: Option<String>,
    buffer_enabled: bool,
    buffer_size: Option<Size>,
    storage_size: Option<Size>,
    fsync: bool,
}

impl WalBuilder {
    /// The chosen directory, if one was given.
    pub closed spec fn spec_location(&self) -> Option<Seq<char>> {
        match self.location {
            Some(ref s) => Some(s@),
            None => None,
        }
    }

    /// Whether the staging buffer is enabled.
    pub closed spec fn spec_buffer_enabled(&self) -> bool {
        self.buffer_enabled
    }

    /// The chosen buffer size, if one was given.
    pub closed spec fn spec_buffer_size(&self) -> Option<Size> {
        self.buffer_size
    }

    /// The chosen footprint cap, if one was given.
    pub closed spec fn spec_storage_size(&self) -> Option<Size> {
        self.storage_size
    }

    /// Whether commits are forced to stable storage.
    pub closed spec fn spec_fsync(&self) -> bool {
        self.fsync
    }

    /// Start from the defaults: no location yet, a four-kibibyte buffer, no
    /// footprint cap, no fsync.
    pub fn new() -> (b: WalBuilder)
        ensures
            b.spec_location() is None,
            b.spec_buffer_enabled(),
            b.spec_buffer_size() == Some(Size::Kb(4usize)),
            b.spec_storage_size() is None,
            !b.spec_fsync(),
    {
        WalBuilder {
            location: None,
            buffer_enabled: true,
            buffer_size: Some(Size::Kb(4)),
            storage_size: None,
            fsync: false,
        }
    }

    /// Choose the directory that will hold the log. The directory must hold
    /// nothing but this log's files.
    pub fn location(self, loc: &str) -> (b: WalBuilder)
        ensures
            b.spec_location() == Some(loc@),
            b.spec_buffer_enabled() == self.spec_buffer_enabled(),
            b.spec_buffer_size() == self.spec_buffer_size(),
            b.spec_storage_size() == self.spec_storage_size(),
            b.spec_fsync() == self.spec_fsync(),
    {
        WalBuilder { location: Some(loc.to_owned()), ..self }
    }

    /// Force every commit out of the kernel's buffers to stable storage.
    pub fn enable_fsync(self) -> (b: WalBuilder)
        ensures
            b.spec_fsync(),
            b.spec_location() == self.spec_location(),
            b.spec_buffer_enabled() == self.spec_buffer_enabled(),
            b.spec_buffer_size() == self.spec_buffer_size(),
            b.spec_storage_size() == self.spec_storage_size(),
    {
        WalBuilder { fsync: true, ..self }
    }

    /// Skip the in-memory buffer and write straight to disk.
    pub fn disable_buffer(self) -> (b: WalBuilder)
        ensures
            !b.spec_buffer_enabled(),
            b.spec_location() == self.spec_location(),
            b.spec_buffer_size() == self.spec_buffer_size(),
            b.spec_storage_size() == self.spec_storage_size(),
            b.spec_fsync() == self.spec_fsync(),
    {
        WalBuilder { buffer_enabled: false, ..self }
    }

    /// Choose the staging buffer's size.
    pub fn buffer_size(self, size: Size) -> (b: WalBuilder)
        ensures
            b.spec_buffer_size() == Some(size),
            b.spec_location() == self.spec_location(),
            b.spec_buffer_enabled() == self.spec_buffer_enabled(),
            b.spec_storage_size() == self.spec_storage_size(),
            b.spec_fsync() == self.spec_fsync(),
    {
        WalBuilder { buffer_size: Some(size), ..self }
    }

    /// Cap the total disk footprint.
    pub fn storage_size(self, size: Size) -> (b: WalBuilder)
        ensures
            b.spec_storage_size() == Some(size),
            b.spec_location() == self.spec_location(),
            b.spec_buffer_enabled() == self.spec_buffer_enabled(),
            b.spec_buffer_size() == self.spec_buffer_size(),
            b.spec_fsync() == self.spec_fsync(),
    {
        WalBuilder { storage_size: Some(size), ..self }
    }

    /// The buffer size in bytes that this builder stands for: the chosen
    /// size, or zero when the buffer is disabled or no size was chosen.
    pub open spec fn spec_buffer_bytes(&self) -> int {
        if self.spec_buffer_enabled() {
            match self.spec_buffer_size() {
                Some(s) => s.spec_bytes(),
                None => 0,
            }
        } else {
            0
        }
    }

    /// The footprint cap in bytes that this builder stands for; unbounded
    /// when none was chosen.
    pub open spec fn spec_storage_bytes(&self) -> int {
        match self.spec_storage_size() {
            Some(s) => s.spec_bytes(),
            None => u64::MAX as int,
        }
    }

    /// Whether both chosen sizes fit the machine's word size, which is what
    /// `build` requires.
    pub fn sizes_fit(&self) -> (r: bool)
        ensures
            r == (self.spec_buffer_bytes() <= usize::MAX && (self.spec_storage_size() matches Some(
                s,
            ) ==> s.spec_bytes() <= usize::MAX)),
    {
        let buffer_ok = if self.buffer_enabled {
            match &self.buffer_size {
                Some(s) => s.checked_bytes().is_some(),
                None => true,
            }
        } else {
            true
        };
        let storage_ok = match &self.storage_size {
            Some(s) => s.checked_bytes().is_some(),
            None => true,
        };
        buffer_ok && storage_ok
    }

    /// Turn the builder into a configuration. Fails exactly when no location
    /// was chosen. The sizes must fit the machine's word size.
    pub fn build(self) -> (r: Result<WalConfig, BuildError>)
        requires
            self.spec_buffer_bytes() <= usize::MAX,
            self.spec_storage_size() matches Some(s) ==> s.spec_bytes() <= usize::MAX,
        ensures
            match r {
                Ok(c) => {
                    &&& self.spec_location() == Some(c.location@)
                    &&& c.fsync == self.spec_fsync()
                    &&& c.buffer_size == self.spec_buffer_bytes()
                    &&& c.size == self.spec_storage_bytes()
                },
                Err(e) => self.spec_location() is None && e == BuildError::MissingLocation,
            },
    {
        let location = match self.location {
            None => {
                return Err(BuildError::MissingLocation);
            },
            Some(loc) => loc,
        };
        let buffer_size = if self.buffer_enabled {
            match self.buffer_size {
                Some(size) => size.to_bytes(),
                None => 0,
            }
        } else {
            0
        };
        let size: u64 = match self.storage_size {
            Some(size) => size.to_bytes() as u64,
            None => u64::MAX,
        };
        Ok(WalConfig { location, size, fsync: self.fsync, buffer_size })
    }
}

} // verus!

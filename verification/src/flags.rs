//! The flag sets that callers pass: how to resolve, how to open, how to
//! rename.

use vstd::prelude::*;
use crate::sys::{o_creat, o_directory, resolve_no_symlinks, O_CREAT, O_DIRECTORY,
    RESOLVE_NO_SYMLINKS};

verus! {

/// How the resolver is to treat what it meets on the way. The bits are those
/// of the `resolve` field of `openat2`.
#[derive(Debug, Clone, Copy, PartialEq, Eq)]
pub struct ResolverFlags {
    pub bits: u64,
}

impl ResolverFlags {
    /// No flag.
    pub fn empty() -> (flags: ResolverFlags)
        ensures
            flags.bits == 0,
    {
        ResolverFlags { bits: 0 }
    }

    /// Fail on any symlink component, trailing or not.
    pub fn no_symlinks() -> (flags: ResolverFlags)
        ensures
            flags.bits == RESOLVE_NO_SYMLINKS,
    {
        ResolverFlags { bits: resolve_no_symlinks() }
    }

    /// The flags that `bits` holds.
    pub fn from_bits(bits: u64) -> (flags: ResolverFlags)
        ensures
            flags.bits == bits,
    {
        ResolverFlags { bits }
    }

    pub fn bits(&self) -> (bits: u64)
        ensures
            bits == self.bits,
    {
        self.bits
    }

    /// Whether every flag of `other` is set.
    pub open spec fn has(self, other: ResolverFlags) -> bool {
        self.bits & other.bits == other.bits
    }

    /// Whether symlinks are refused.
    pub open spec fn refuses_symlinks(self) -> bool {
        self.bits & RESOLVE_NO_SYMLINKS == RESOLVE_NO_SYMLINKS
    }

    /// Whether symlinks are refused.
    pub fn forbids_symlinks(&self) -> (refused: bool)
        ensures
            refused == self.refuses_symlinks(),
    {
        let bit: u64 = resolve_no_symlinks();
        self.bits & bit == bit
    }

    /// Whether every flag of `other` is set.
    pub fn contains(&self, other: ResolverFlags) -> (held: bool)
        ensures
            held == self.has(other),
    {
        self.bits & other.bits == other.bits
    }

    /// Sets the flags of `other`.
    pub fn insert(&mut self, other: ResolverFlags)
        ensures
            final(self).bits == old(self).bits | other.bits,
            final(self).has(other),
    {
        let ghost before = self.bits;
        let after: u64 = self.bits | other.bits;
        proof {
            let extra = other.bits;
            assert((before | extra) & extra == extra) by (bit_vector);
        }
        self.bits = after;
    }
}

impl Default for ResolverFlags {
    fn default() -> (flags: ResolverFlags)
        ensures
            flags.bits == 0,
    {
        ResolverFlags { bits: 0 }
    }
}

/// The flags of an `open`.
#[derive(Debug, Clone, Copy, PartialEq, Eq)]
pub struct OpenFlags {
    pub bits: i32,
}

impl OpenFlags {
    /// The flags that `bits` holds.
    pub fn from_bits(bits: i32) -> (flags: OpenFlags)
        ensures
            flags.bits == bits,
    {
        OpenFlags { bits }
    }

    pub fn bits(&self) -> (bits: i32)
        ensures
            bits == self.bits,
    {
        self.bits
    }

    /// `O_CREAT`.
    pub fn creat() -> (flags: OpenFlags)
        ensures
            flags.bits == O_CREAT,
    {
        OpenFlags { bits: o_creat() }
    }

    /// `O_DIRECTORY`.
    pub fn directory() -> (flags: OpenFlags)
        ensures
            flags.bits == O_DIRECTORY,
    {
        OpenFlags { bits: o_directory() }
    }

    /// Whether every flag of `other` is set.
    pub open spec fn has(self, other: OpenFlags) -> bool {
        self.bits & other.bits == other.bits
    }

    /// Whether every flag of `other` is set.
    pub fn contains(&self, other: OpenFlags) -> (held: bool)
        ensures
            held == self.has(other),
    {
        self.bits & other.bits == other.bits
    }

    /// Sets the flags of `other`.
    pub fn insert(&mut self, other: OpenFlags)
        ensures
            final(self).bits == old(self).bits | other.bits,
            final(self).has(other),
    {
        let ghost before = self.bits;
        let after: i32 = self.bits | other.bits;
        proof {
            let extra = other.bits;
            assert((before | extra) & extra == extra) by (bit_vector);
        }
        self.bits = after;
    }
}

/// The flags of a `renameat2`, handed to the kernel as they are.
#[derive(Debug, Clone, Copy, PartialEq, Eq)]
pub struct RenameFlags {
    pub bits: u32,
}

impl RenameFlags {
    /// No flag: a plain rename.
    pub fn empty() -> (flags: RenameFlags)
        ensures
            flags.bits == 0,
    {
        RenameFlags { bits: 0 }
    }

    /// The flags that `bits` holds.
    pub fn from_bits(bits: u32) -> (flags: RenameFlags)
        ensures
            flags.bits == bits,
    {
        RenameFlags { bits }
    }

    pub fn bits(&self) -> (bits: u32)
        ensures
            bits == self.bits,
    {
        self.bits
    }
}

} // verus!

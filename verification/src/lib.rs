//! Rendering of operating-system error codes as human-readable text.
//!
//! The heart of the library is a locale-aware decoder: the operating system
//! produces error messages as bytes in the current locale's narrow-character
//! encoding, and those bytes must be turned into valid canonical (UTF-8) text
//! without ever failing, losing synchronization, or silently dropping data.
//! Bytes that cannot be decoded are replaced by fixed four-character escape
//! tokens of the form `\xHH`; an encoding with no available converter degrades
//! to a fully escaped rendering rather than an error.
//!
//! The process-global error slot and the platform conversion facility are
//! external collaborators: callers read the live error code and drive the
//! byte-stream converter, while every decision about what the rendered text
//! contains is made here.

use vstd::prelude::*;

pub mod escape;
pub mod render;
pub mod decode;
pub mod utf8;

verus! {

/// Wraps a platform-specific error code.
///
/// The code is an opaque signed 32-bit integer with no internal structure;
/// equality and ordering are bit-for-bit.
#[derive(Debug, Copy, Clone, Eq, Ord, PartialEq, PartialOrd, Hash, Structural)]
pub struct Errno(pub i32);

/// An explicit stand-in for the process-global error slot.
///
/// The operating system keeps the last error code in ambient mutable state
/// (`errno` on POSIX, the last-error value on Windows). Modelling that slot
/// as an explicit value threaded through the accessors keeps every read and
/// write visible in the contracts; a platform binding maps this value onto
/// the real thread-local slot.
#[derive(Debug, Copy, Clone, Eq, PartialEq, Structural)]
pub struct CustomErrno {
    /// The error code currently held by the slot.
    pub code: i32,
}

/// The code a read of the slot returns.
pub open spec fn spec_errno(store: CustomErrno) -> Errno {
    Errno(store.code)
}

/// The slot after a write of `err`.
pub open spec fn spec_set_errno(store: CustomErrno, err: Errno) -> CustomErrno {
    CustomErrno { code: err.0 }
}

/// Reads the raw error code out of the slot.
pub fn errno_raw(store: &CustomErrno) -> (e: i32)
    ensures
        e == store.code,
{
    store.code
}

/// Stores a raw error code into the slot.
pub fn set_errno_raw(store: &mut CustomErrno, e: i32)
    ensures
        *final(store) == spec_set_errno(*old(store), Errno(e)),
{
    store.code = e;
}

/// Returns the error code held by the slot, as a typed value.
pub fn errno(store: &CustomErrno) -> (e: Errno)
    ensures
        e == spec_errno(*store),
{
    Errno(errno_raw(store))
}

/// Stores a typed error code into the slot.
pub fn set_errno(store: &mut CustomErrno, err: Errno)
    ensures
        *final(store) == spec_set_errno(*old(store), err),
{
    set_errno_raw(store, err.0)
}

/// Law: writing an error code into the slot and reading it back yields the
/// identical code.
pub proof fn lemma_errno_round_trip(store: CustomErrno, err: Errno)
    ensures
        spec_errno(spec_set_errno(store, err)) == err,
{
}

} // verus!

//! The ways in which a load can fail.

use vstd::prelude::*;

verus! {

/// Why a mesh or a material could not be loaded. Every one of these ends
/// the load: nothing partial is handed out.
#[derive(Clone, Copy, Debug, PartialEq, Eq, Structural)]
pub enum LoadError {
    /// The caller could not read or decode a file that the load asked for.
    Io,
    /// A field that must be a number is missing or is not written as one,
    /// or a face corner is malformed.
    Parse,
    /// A face has fewer than three corners.
    MalformedFace,
    /// A face has more than four corners.
    UnsupportedPolygon,
    /// A face corner refers to an attribute that its pool does not hold:
    /// the index is unset or lies behind the pool's end.
    IndexOutOfRange,
    /// The pixels handed in do not fill the width and height given.
    ImageLayout,
    /// An answer arrived that the load was not waiting for.
    Protocol,
}

} // verus!

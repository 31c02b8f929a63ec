//! The kinds of solid that a scene can ask for.

use vstd::prelude::*;
use crate::text::same_bytes;

verus! {

/// The solid that the type name of a figure asks for.
#[derive(Clone, Copy, Debug, PartialEq, Eq, Structural)]
pub enum FigureKind {
    Tetrahedron,
    Torus,
    /// A name that is neither of the two. Such a figure is not refused: it
    /// is drawn as the default torus.
    Unknown,
}

/// The rings of the torus that stands in for an unknown solid.
pub const DEFAULT_TORUS_RINGS: u32 = 20;

/// The vertices on each ring of that torus.
pub const DEFAULT_TORUS_RING_POINTS: u32 = 20;

/// The distance from the centre of that torus to the centre of a ring.
pub const DEFAULT_TORUS_RADIUS: u32 = 5;

/// The radius of a ring of that torus.
pub const DEFAULT_TORUS_RING_RADIUS: u32 = 1;

/// The letters of `Tetrahedron`.
pub open spec fn tetrahedron_name() -> Seq<u8> {
    seq![84u8, 101, 116, 114, 97, 104, 101, 100, 114, 111, 110]
}

/// The letters of `Torus`.
pub open spec fn torus_name() -> Seq<u8> {
    seq![84u8, 111, 114, 117, 115]
}

/// The kind that a type name stands for. Names are told apart letter by
/// letter, capitals included.
pub open spec fn kind_of(name: Seq<u8>) -> FigureKind {
    if name == tetrahedron_name() {
        FigureKind::Tetrahedron
    } else if name == torus_name() {
        FigureKind::Torus
    } else {
        FigureKind::Unknown
    }
}

impl FigureKind {
    /// The kind that a type name stands for.
    pub fn from_name(name: &[u8]) -> (kind: FigureKind)
        ensures
            kind == kind_of(name@),
    {
        let tetrahedron: [u8; 11] = [84, 101, 116, 114, 97, 104, 101, 100, 114, 111, 110];
        let torus: [u8; 5] = [84, 111, 114, 117, 115];
        proof {
            assert(tetrahedron@ =~= tetrahedron_name());
            assert(torus@ =~= torus_name());
        }
        if same_bytes(name, tetrahedron.as_slice()) {
            FigureKind::Tetrahedron
        } else if same_bytes(name, torus.as_slice()) {
            FigureKind::Torus
        } else {
            FigureKind::Unknown
        }
    }
}

} // verus!

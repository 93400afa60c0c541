use vstd::prelude::*;

verus! {

/// Marker value held by every synthesized record type, under a reserved
/// member name. The member cannot be produced by a derived `Default`, so a
/// synthesized type can only ever be built through its explicit constructor.
#[derive(Clone, Copy)]
pub struct Opaque;

} // verus!

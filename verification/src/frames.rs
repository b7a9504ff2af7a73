//! Trusted boundary to the `ecoord` reference-frame graph.
//!
//! The grid owns a handle to a time-varying graph of named coordinate
//! frames. The verified core never looks inside the graph: it stores the
//! handle, clones it into transformed grids, and swaps it on request.
//! Cross-frame geometry (resolving a rigid transform along a path of
//! registered frames and applying it to a point) is floating-point work and
//! lives outside the verified library.

use vstd::prelude::*;

verus! {

#[verifier::external_type_specification]
#[verifier::external_body]
pub struct ExTransformTree(ecoord::TransformTree);

/// Relies on `ecoord::TransformTree`'s derived `Clone`: a field-by-field
/// copy of the edge map, the frame map and the frame graph, which yields a
/// value equal to the original.
pub assume_specification[ <ecoord::TransformTree as Clone>::clone ](
    t: &ecoord::TransformTree,
) -> (r: ecoord::TransformTree)
    ensures
        r == *t,
;

} // verus!

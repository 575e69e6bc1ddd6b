//! The opaque shape boundary. Actors contribute implicit-surface values of
//! the renderer's shape algebra; this library never inspects their
//! internals. It carries them, combines them with the union operator, and
//! frames them as bytes for the episode container.

use vstd::prelude::*;

verus! {

#[verifier::external_type_specification]
#[verifier::external_body]
pub struct ExSdfNode(alice_sdf::types::SdfNode);

/// Relies on `SdfNode::union`: wraps the two shapes in a union node.
#[verifier::external_body]
pub(crate) fn sdf_union(a: alice_sdf::types::SdfNode, b: alice_sdf::types::SdfNode) -> alice_sdf::types::SdfNode {
    a.union(b)
}

/// Relies on `SdfNode::sphere`: the unit sphere, the fallback shape of an
/// empty scene.
#[verifier::external_body]
pub(crate) fn sdf_unit_sphere() -> alice_sdf::types::SdfNode {
    alice_sdf::types::SdfNode::sphere(1u8.into())
}

/// Relies on the `Clone` derive of `SdfNode`: a field-wise copy whose
/// children are shared reference-counted nodes, so the clone equals the
/// original value.
pub assume_specification[ <alice_sdf::types::SdfNode as Clone>::clone ](
    n: &alice_sdf::types::SdfNode,
) -> (r: alice_sdf::types::SdfNode)
    ensures
        r == *n,
;

/// Relies on `bincode::serialize` for the shape's `Serialize` derive, and
/// on bincode's round trip: a successful encoding (never empty, since the
/// shape enum always writes its variant tag) decodes back to a shape. An
/// encoding failure yields the empty byte vector, which does not decode
/// and which a later decode of the container rejects as an invalid body.
#[verifier::external_body]
pub(crate) fn sdf_to_bytes(n: &alice_sdf::types::SdfNode) -> (r: Vec<u8>)
    ensures
        r@.len() > 0 ==> spec_sdf_bytes_ok(r@),
{
    bincode::serialize(n).unwrap_or_default()
}

/// Whether a byte sequence decodes to a shape value, as
/// `bincode::deserialize` decides it: a function of the bytes alone.
pub uninterp spec fn spec_sdf_bytes_ok(b: Seq<u8>) -> bool;

/// Relies on `bincode::deserialize` for the shape's `Deserialize` derive;
/// `None` exactly when the bytes do not decode to a shape.
#[verifier::external_body]
pub(crate) fn sdf_from_bytes(b: &[u8]) -> (r: Option<alice_sdf::types::SdfNode>)
    ensures
        r is Some <==> spec_sdf_bytes_ok(b@),
{
    bincode::deserialize(b).ok()
}

} // verus!

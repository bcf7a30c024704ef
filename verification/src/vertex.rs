//! Mesh vertex layouts and their resolution against requested attributes.

use vstd::prelude::*;
use crate::error::ConfigError;

verus! {

/// An attribute slot a mesh asset may carry.
#[derive(PartialEq, Eq, Structural, Clone, Copy, Debug, Hash)]
pub enum VertexAttributeKind {
    Position,
    Uv0,
    Normal,
    Tangent,
    JointIndex,
    JointWeight,
}

/// One attribute the specializer asks to bind, at a fixed shader location.
#[derive(PartialEq, Eq, Structural, Clone, Copy, Debug)]
pub struct AttributeRequest {
    pub kind: VertexAttributeKind,
    /// Shader-visible location index the attribute is bound at.
    pub location: u32,
}

/// The ordered sequence of attribute slots present on a mesh.
///
/// Supplied by the mesh asset; read-only to this crate.
#[derive(PartialEq, Eq, Clone, Debug)]
pub struct VertexLayoutDescriptor {
    pub attrs: Vec<VertexAttributeKind>,
}

/// The vertex buffer layout of a resolved configuration: the requested
/// attributes, each at its shader location, in request order.
#[derive(PartialEq, Eq, Clone, Debug)]
pub struct VertexBufferLayout {
    pub attributes: Vec<AttributeRequest>,
}

impl VertexLayoutDescriptor {
    /// Whether the mesh carries the attribute.
    pub fn contains(&self, kind: VertexAttributeKind) -> (r: bool)
        ensures
            r == self.attrs@.contains(kind),
    {
        let mut i: usize = 0;
        while i < self.attrs.len()
            invariant
                i <= self.attrs@.len(),
                forall|j: int| 0 <= j < i ==> self.attrs@[j] != kind,
            decreases self.attrs@.len() - i,
        {
            if self.attrs[i] == kind {
                assert(self.attrs@.contains(kind));
                return true;
            }
            i += 1;
        }
        assert(!self.attrs@.contains(kind));
        false
    }
}

/// The first requested attribute the mesh does not carry, if any.
pub open spec fn first_missing(
    attrs: Seq<VertexAttributeKind>,
    req: Seq<AttributeRequest>,
) -> Option<VertexAttributeKind>
    decreases req.len(),
{
    if req.len() == 0 {
        None
    } else if !attrs.contains(req[0].kind) {
        Some(req[0].kind)
    } else {
        first_missing(attrs, req.drop_first())
    }
}

/// What resolving a request list against a mesh layout yields: the request
/// list itself when every requested attribute is present, otherwise the first
/// missing attribute as an error.
pub open spec fn spec_resolve(
    attrs: Seq<VertexAttributeKind>,
    req: Seq<AttributeRequest>,
) -> Result<Seq<AttributeRequest>, ConfigError> {
    match first_missing(attrs, req) {
        None => Ok(req),
        Some(kind) => Err(ConfigError::MissingVertexAttribute(kind)),
    }
}

/// Resolution succeeds exactly when every requested attribute is present.
pub proof fn lemma_first_missing_none(
    attrs: Seq<VertexAttributeKind>,
    req: Seq<AttributeRequest>,
)
    ensures
        first_missing(attrs, req) is None <==> (forall|i: int|
            0 <= i < req.len() ==> attrs.contains(#[trigger] req[i].kind)),
    decreases req.len(),
{
    if req.len() > 0 {
        lemma_first_missing_none(attrs, req.drop_first());
        if attrs.contains(req[0].kind) {
            assert forall|i: int|
                0 <= i < req.len() && (forall|j: int|
                    0 <= j < req.drop_first().len() ==> attrs.contains(
                        #[trigger] req.drop_first()[j].kind,
                    )) implies attrs.contains(#[trigger] req[i].kind) by {
                if i > 0 {
                    assert(req.drop_first()[i - 1] == req[i]);
                }
            }
            if first_missing(attrs, req) is None {
                assert forall|i: int| 0 <= i < req.len() implies attrs.contains(
                    #[trigger] req[i].kind,
                ) by {
                    if i > 0 {
                        assert(req.drop_first()[i - 1] == req[i]);
                    }
                }
            }
        }
    }
}

/// Resolve the requested attribute list against the mesh's layout.
///
/// Returns the vertex buffer layout binding exactly the requested attributes,
/// or reports the first requested attribute the mesh lacks.
pub fn resolve_layout(
    descriptor: &VertexLayoutDescriptor,
    requested: &Vec<AttributeRequest>,
) -> (r: Result<VertexBufferLayout, ConfigError>)
    ensures
        match r {
            Ok(layout) => spec_resolve(descriptor.attrs@, requested@) == Ok::<_, ConfigError>(
                layout.attributes@,
            ) && layout.attributes@ == requested@,
            Err(e) => spec_resolve(descriptor.attrs@, requested@) == Err::<Seq<AttributeRequest>,
                _,
            >(e),
        },
{
    let mut i: usize = 0;
    assert(requested@.skip(0) =~= requested@);
    while i < requested.len()
        invariant
            i <= requested@.len(),
            forall|j: int| 0 <= j < i ==> descriptor.attrs@.contains(#[trigger] requested@[j].kind),
            first_missing(descriptor.attrs@, requested@) == first_missing(
                descriptor.attrs@,
                requested@.skip(i as int),
            ),
        decreases requested@.len() - i,
    {
        let present = descriptor.contains(requested[i].kind);
        assert(requested@.skip(i as int)[0] == requested@[i as int]);
        assert(requested@.skip(i as int).drop_first() =~= requested@.skip(i + 1));
        if !present {
            return Err(ConfigError::MissingVertexAttribute(requested[i].kind));
        }
        i += 1;
    }
    assert(requested@.skip(i as int) =~= Seq::<AttributeRequest>::empty());
    Ok(VertexBufferLayout { attributes: requested.clone() })
}

} // verus!

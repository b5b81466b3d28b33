//! The vertex layout: how a flat array of vertex components decomposes into
//! named attributes.

use vstd::prelude::*;

verus! {

/// Bytes that one vertex component, a 32-bit float, takes in device memory.
pub const COMPONENT_BYTES: usize = 4;

/// Largest stride, in components, whose size in bytes still fits the signed
/// 32-bit integer that the device takes for it.
pub const MAX_STRIDE: usize = 0x1fff_ffff;

/// Components of a vertex position.
pub const VERTEX_POS_SIZE: usize = 3;

/// Components of a vertex normal.
pub const VERTEX_NORMAL_SIZE: usize = 3;

/// Components of a vertex tangent.
pub const VERTEX_TANGENT_SIZE: usize = 3;

/// Components of a vertex bitangent.
pub const VERTEX_BITANGENT_SIZE: usize = 3;

/// Components of a texture coordinate.
pub const VERTEX_TCOORD_SIZE: usize = 2;

/// Components of one vertex in the engine's layout.
pub const VERTEX_SIZE: usize = VERTEX_POS_SIZE + VERTEX_NORMAL_SIZE + VERTEX_TANGENT_SIZE
    + VERTEX_BITANGENT_SIZE + VERTEX_TCOORD_SIZE;

/// The attributes a shader program knows.
#[derive(Clone, Copy, Debug, PartialEq, Eq, Structural)]
pub enum AttributeName {
    Position,
    Normal,
    Tangent,
    Bitangent,
    TexCoord,
}

/// One attribute of the layout: its name and how many components it has.
#[derive(Clone, Copy, Debug, PartialEq, Eq, Structural)]
pub struct Attribute {
    pub name: AttributeName,
    pub components: usize,
}

/// Where the device finds one attribute inside a vertex: all sizes in bytes.
#[derive(Clone, Copy, Debug, PartialEq, Eq, Structural)]
pub struct AttributePointer {
    pub name: AttributeName,
    pub components: usize,
    pub stride_bytes: usize,
    pub offset_bytes: usize,
}

/// Sum of the component counts of `attributes`.
pub open spec fn total_components(attributes: Seq<Attribute>) -> nat
    decreases attributes.len(),
{
    if attributes.len() == 0 {
        0
    } else {
        total_components(attributes.drop_last()) + attributes.last().components as nat
    }
}

/// Components that come before attribute `index` in a vertex.
pub open spec fn offset_of(attributes: Seq<Attribute>, index: int) -> nat {
    total_components(attributes.take(index))
}

/// The pointer of attribute `index`, for a layout with these attributes.
pub open spec fn pointer_of(attributes: Seq<Attribute>, index: int) -> AttributePointer {
    AttributePointer {
        name: attributes[index].name,
        components: attributes[index].components,
        stride_bytes: (total_components(attributes) * COMPONENT_BYTES) as usize,
        offset_bytes: (offset_of(attributes, index) * COMPONENT_BYTES) as usize,
    }
}

/// The engine's layout: position, normal, tangent, bitangent, texture
/// coordinate.
pub open spec fn standard_attributes() -> Seq<Attribute> {
    seq![
        Attribute { name: AttributeName::Position, components: VERTEX_POS_SIZE },
        Attribute { name: AttributeName::Normal, components: VERTEX_NORMAL_SIZE },
        Attribute { name: AttributeName::Tangent, components: VERTEX_TANGENT_SIZE },
        Attribute { name: AttributeName::Bitangent, components: VERTEX_BITANGENT_SIZE },
        Attribute { name: AttributeName::TexCoord, components: VERTEX_TCOORD_SIZE },
    ]
}

/// A layout is usable when a vertex has at least one component and its size
/// in bytes fits the device's integer.
pub open spec fn layout_valid(attributes: Seq<Attribute>) -> bool {
    0 < total_components(attributes) <= MAX_STRIDE
}

/// The offset of the next attribute is the offset of this one plus its
/// components, and no offset goes beyond the total.
pub proof fn lemma_offset_step(attributes: Seq<Attribute>, index: int)
    requires
        0 <= index < attributes.len(),
    ensures
        offset_of(attributes, index + 1) == offset_of(attributes, index)
            + attributes[index].components,
        offset_of(attributes, index + 1) <= total_components(attributes),
        offset_of(attributes, 0) == 0,
        offset_of(attributes, attributes.len() as int) == total_components(attributes),
    decreases attributes.len() - index,
{
    assert(attributes.take(index + 1).drop_last() == attributes.take(index));
    assert(attributes.take(attributes.len() as int) == attributes);
    assert(attributes.take(0).len() == 0);
    if index + 1 < attributes.len() {
        lemma_offset_step(attributes, index + 1);
    }
}

/// The standard layout has `VERTEX_SIZE` components per vertex.
pub proof fn lemma_standard_total()
    ensures
        total_components(standard_attributes()) == VERTEX_SIZE,
        layout_valid(standard_attributes()),
{
    let s = standard_attributes();
    lemma_offset_step(s, 0);
    lemma_offset_step(s, 1);
    lemma_offset_step(s, 2);
    lemma_offset_step(s, 3);
    lemma_offset_step(s, 4);
}

impl AttributeName {
    /// The name under which the shader program declares the attribute.
    pub open spec fn spec_shader_name(self) -> Seq<char> {
        match self {
            AttributeName::Position => "position"@,
            AttributeName::Normal => "normal"@,
            AttributeName::Tangent => "tangent"@,
            AttributeName::Bitangent => "bitangent"@,
            AttributeName::TexCoord => "tcoord"@,
        }
    }

    /// The name under which the shader program declares the attribute.
    pub fn shader_name(&self) -> (name: &'static str)
        ensures
            name@ == self.spec_shader_name(),
    {
        match self {
            AttributeName::Position => "position",
            AttributeName::Normal => "normal",
            AttributeName::Tangent => "tangent",
            AttributeName::Bitangent => "bitangent",
            AttributeName::TexCoord => "tcoord",
        }
    }
}

/// A fixed description of the attributes of a vertex, in their order.
pub struct VertexLayout {
    attributes: Vec<Attribute>,
    stride: usize,
}

impl View for VertexLayout {
    type V = Seq<Attribute>;

    closed spec fn view(&self) -> Seq<Attribute> {
        self.attributes@
    }
}

impl VertexLayout {
    /// What holds of every value of this type.
    #[verifier::type_invariant]
    pub closed spec fn well_formed(self) -> bool {
        &&& layout_valid(self.attributes@)
        &&& self.stride == total_components(self.attributes@)
    }

    /// Every layout is usable.
    pub proof fn lemma_valid(self)
        requires
            self.well_formed(),
        ensures
            layout_valid(self@),
    {
    }

    /// Components per vertex.
    pub open spec fn spec_stride(&self) -> nat {
        total_components(self@)
    }

    /// A layout with the given attributes, if a vertex of it has at least
    /// one and at most `MAX_STRIDE` components.
    pub fn new(attributes: Vec<Attribute>) -> (layout: Option<VertexLayout>)
        ensures
            layout.is_some() <==> layout_valid(attributes@),
            layout.is_some() ==> layout.unwrap()@ == attributes@,
    {
        let mut total: usize = 0;
        let mut i: usize = 0;
        while i < attributes.len()
            invariant
                i <= attributes.len(),
                total == offset_of(attributes@, i as int),
                total <= MAX_STRIDE,
            decreases attributes.len() - i,
        {
            let components = attributes[i].components;
            proof {
                lemma_offset_step(attributes@, i as int);
            }
            if components > MAX_STRIDE - total {
                return None;
            }
            total = total + components;
            i += 1;
        }
        proof {
            assert(attributes@.take(i as int) == attributes@);
        }
        if total == 0 {
            None
        } else {
            Some(VertexLayout { attributes, stride: total })
        }
    }

    /// The engine's layout of `VERTEX_SIZE` components per vertex.
    pub fn standard() -> (layout: VertexLayout)
        ensures
            layout@ == standard_attributes(),
            layout.spec_stride() == VERTEX_SIZE,
    {
        let mut attributes: Vec<Attribute> = Vec::new();
        attributes.push(Attribute { name: AttributeName::Position, components: VERTEX_POS_SIZE });
        attributes.push(Attribute { name: AttributeName::Normal, components: VERTEX_NORMAL_SIZE });
        attributes.push(
            Attribute { name: AttributeName::Tangent, components: VERTEX_TANGENT_SIZE },
        );
        attributes.push(
            Attribute { name: AttributeName::Bitangent, components: VERTEX_BITANGENT_SIZE },
        );
        attributes.push(
            Attribute { name: AttributeName::TexCoord, components: VERTEX_TCOORD_SIZE },
        );
        proof {
            assert(attributes@ == standard_attributes());
            lemma_standard_total();
        }
        VertexLayout { attributes, stride: VERTEX_SIZE }
    }

    /// Components per vertex: the sum of the component counts.
    pub fn stride(&self) -> (stride: usize)
        ensures
            stride == self.spec_stride(),
            0 < stride <= MAX_STRIDE,
    {
        proof {
            use_type_invariant(self);
        }
        self.stride
    }

    /// Number of attributes.
    pub fn len(&self) -> (len: usize)
        ensures
            len == self@.len(),
    {
        self.attributes.len()
    }

    /// The attribute at `index`.
    pub fn attribute(&self, index: usize) -> (attribute: Attribute)
        requires
            index < self@.len(),
        ensures
            attribute == self@[index as int],
    {
        self.attributes[index]
    }

    /// Components that come before attribute `index` in a vertex.
    pub fn offset(&self, index: usize) -> (offset: usize)
        requires
            index <= self@.len(),
        ensures
            offset == offset_of(self@, index as int),
            offset <= self.spec_stride(),
    {
        proof {
            use_type_invariant(self);
        }
        let mut offset: usize = 0;
        let mut i: usize = 0;
        while i < index
            invariant
                i <= index <= self.attributes@.len(),
                offset == offset_of(self.attributes@, i as int),
                offset <= total_components(self.attributes@) <= MAX_STRIDE,
            decreases index - i,
        {
            proof {
                lemma_offset_step(self.attributes@, i as int);
            }
            offset = offset + self.attributes[i].components;
            i += 1;
        }
        proof {
            if self.attributes@.len() > 0 {
                lemma_offset_step(self.attributes@, 0);
            } else {
                assert(self.attributes@.take(0) == self.attributes@);
            }
        }
        offset
    }

    /// For each attribute, in order, what the device needs to find it in a
    /// buffer of vertices of this layout.
    pub fn pointers(&self) -> (pointers: Vec<AttributePointer>)
        ensures
            pointers@.len() == self@.len(),
            forall|i: int| 0 <= i < self@.len() ==> pointers@[i] == pointer_of(self@, i),
    {
        proof {
            use_type_invariant(self);
        }
        let mut pointers: Vec<AttributePointer> = Vec::new();
        let mut offset: usize = 0;
        let mut i: usize = 0;
        while i < self.attributes.len()
            invariant
                i <= self.attributes@.len(),
                offset == offset_of(self.attributes@, i as int),
                offset <= total_components(self.attributes@) <= MAX_STRIDE,
                self.stride == total_components(self.attributes@),
                pointers@.len() == i,
                forall|j: int| 0 <= j < i ==> pointers@[j] == pointer_of(self.attributes@, j),
            decreases self.attributes.len() - i,
        {
            let attribute = self.attributes[i];
            proof {
                lemma_offset_step(self.attributes@, i as int);
            }
            pointers.push(
                AttributePointer {
                    name: attribute.name,
                    components: attribute.components,
                    stride_bytes: self.stride * COMPONENT_BYTES,
                    offset_bytes: offset * COMPONENT_BYTES,
                },
            );
            offset = offset + attribute.components;
            i += 1;
        }
        pointers
    }
}

} // verus!

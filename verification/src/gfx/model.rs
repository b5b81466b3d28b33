//! The geometry of a model: its attributes as flat arrays, and the single
//! interleaved array that goes into a vertex buffer.

use crate::gfx::layout::VERTEX_SIZE;
use crate::util::common::Vertex;
use crate::util::obj::DecodedOBJ;
use crate::util::rmod::DecodedRMOD;
use vstd::prelude::*;

verus! {

/// The geometry of a model, one flat array for each attribute. A vertex has
/// three components in `vertices`, `normals`, `tangents` and `bitangents`
/// and two in `tcoords`; `elements` holds the indices of the triangles'
/// corners. `T` is the type of one component.
pub struct ModelInfo<T> {
    pub vertices: Vec<T>,
    pub normals: Vec<T>,
    pub bitangents: Vec<T>,
    pub tangents: Vec<T>,
    pub elements: Vec<u32>,
    pub tcoords: Vec<T>,
}

/// Component `k` of the interleaved array: vertex `k / 14`, and within the
/// vertex three components each of position, normal, tangent and bitangent,
/// then the two of the texture coordinate.
pub open spec fn interleaved_component<T>(
    vertices: Seq<T>,
    normals: Seq<T>,
    tangents: Seq<T>,
    bitangents: Seq<T>,
    tcoords: Seq<T>,
    k: int,
) -> T {
    let vertex = k / 14;
    let part = k % 14;
    if part < 3 {
        vertices[3 * vertex + part]
    } else if part < 6 {
        normals[3 * vertex + part - 3]
    } else if part < 9 {
        tangents[3 * vertex + part - 6]
    } else if part < 12 {
        bitangents[3 * vertex + part - 9]
    } else {
        tcoords[2 * vertex + part - 12]
    }
}

/// The attributes of all vertices in one array, vertex after vertex.
pub open spec fn interleaved<T>(
    vertices: Seq<T>,
    normals: Seq<T>,
    tangents: Seq<T>,
    bitangents: Seq<T>,
    tcoords: Seq<T>,
) -> Seq<T> {
    Seq::new(
        (14 * (vertices.len() / 3)) as nat,
        |k: int| interleaved_component(vertices, normals, tangents, bitangents, tcoords, k),
    )
}

/// The corners of all triangles, triangle after triangle.
pub open spec fn flattened(triangles: Seq<(u32, u32, u32)>) -> Seq<u32> {
    Seq::new(
        (3 * triangles.len()) as nat,
        |k: int|
            if k % 3 == 0 {
                triangles[k / 3].0
            } else if k % 3 == 1 {
                triangles[k / 3].1
            } else {
                triangles[k / 3].2
            },
    )
}

/// The positions of all vertices, three components each.
pub open spec fn positions_of<T>(vertices: Seq<Vertex<T>>) -> Seq<T> {
    Seq::new((3 * vertices.len()) as nat, |k: int| vertices[k / 3].pos.component(k % 3))
}

/// The normals of all vertices, three components each.
pub open spec fn normals_of<T>(vertices: Seq<Vertex<T>>) -> Seq<T> {
    Seq::new((3 * vertices.len()) as nat, |k: int| vertices[k / 3].norm.component(k % 3))
}

/// The tangents of all vertices, three components each.
pub open spec fn tangents_of<T>(vertices: Seq<Vertex<T>>) -> Seq<T> {
    Seq::new((3 * vertices.len()) as nat, |k: int| vertices[k / 3].tangent.component(k % 3))
}

/// The bitangents of all vertices, three components each.
pub open spec fn bitangents_of<T>(vertices: Seq<Vertex<T>>) -> Seq<T> {
    Seq::new((3 * vertices.len()) as nat, |k: int| vertices[k / 3].bitangent.component(k % 3))
}

/// The texture coordinates of all vertices, two components each.
pub open spec fn tcoords_of<T>(vertices: Seq<Vertex<T>>) -> Seq<T> {
    Seq::new((2 * vertices.len()) as nat, |k: int| vertices[k / 2].tc.component(k % 2))
}

impl<T: Copy> ModelInfo<T> {
    /// The attribute arrays hold whole vertices, and each has all the
    /// vertices that `vertices` has.
    pub open spec fn complete(&self) -> bool {
        &&& self.vertices@.len() % 3 == 0
        &&& self.normals@.len() >= self.vertices@.len()
        &&& self.tangents@.len() >= self.vertices@.len()
        &&& self.bitangents@.len() >= self.vertices@.len()
        &&& self.tcoords@.len() >= 2 * (self.vertices@.len() / 3)
    }

    /// Whether the attribute arrays are complete.
    pub fn is_complete(&self) -> (complete: bool)
        ensures
            complete == self.complete(),
    {
        let len = self.vertices.len();
        len % 3 == 0 && self.normals.len() >= len && self.tangents.len() >= len
            && self.bitangents.len() >= len && self.tcoords.len() >= 2 * (len / 3)
    }

    /// A model of the given attribute arrays.
    pub fn new(
        vertices: Vec<T>,
        elems: Vec<u32>,
        normals: Vec<T>,
        tangents: Vec<T>,
        bitangents: Vec<T>,
        tcoords: Vec<T>,
    ) -> (info: ModelInfo<T>)
        ensures
            info.vertices == vertices,
            info.elements == elems,
            info.normals == normals,
            info.tangents == tangents,
            info.bitangents == bitangents,
            info.tcoords == tcoords,
    {
        ModelInfo { vertices, normals, tangents, bitangents, elements: elems, tcoords }
    }

    /// Splits vertices into the five attribute arrays: positions, normals,
    /// tangents, bitangents and texture coordinates.
    pub fn vertex_to_data(vertices: &Vec<Vertex<T>>) -> (data: (
        Vec<T>,
        Vec<T>,
        Vec<T>,
        Vec<T>,
        Vec<T>,
    ))
        ensures
            data.0@ == positions_of(vertices@),
            data.1@ == normals_of(vertices@),
            data.2@ == tangents_of(vertices@),
            data.3@ == bitangents_of(vertices@),
            data.4@ == tcoords_of(vertices@),
    {
        let mut positions: Vec<T> = Vec::new();
        let mut normals: Vec<T> = Vec::new();
        let mut tangents: Vec<T> = Vec::new();
        let mut bitangents: Vec<T> = Vec::new();
        let mut tcoords: Vec<T> = Vec::new();
        let mut i: usize = 0;
        while i < vertices.len()
            invariant
                i <= vertices@.len(),
                positions@.len() == 3 * i,
                normals@.len() == 3 * i,
                tangents@.len() == 3 * i,
                bitangents@.len() == 3 * i,
                tcoords@.len() == 2 * i,
                forall|k: int| 0 <= k < 3 * i ==> positions@[k] == positions_of(vertices@)[k],
                forall|k: int| 0 <= k < 3 * i ==> normals@[k] == normals_of(vertices@)[k],
                forall|k: int| 0 <= k < 3 * i ==> tangents@[k] == tangents_of(vertices@)[k],
                forall|k: int| 0 <= k < 3 * i ==> bitangents@[k] == bitangents_of(vertices@)[k],
                forall|k: int| 0 <= k < 2 * i ==> tcoords@[k] == tcoords_of(vertices@)[k],
            decreases vertices.len() - i,
        {
            let vertex = vertices[i];
            positions.push(vertex.pos.x);
            positions.push(vertex.pos.y);
            positions.push(vertex.pos.z);
            normals.push(vertex.norm.x);
            normals.push(vertex.norm.y);
            normals.push(vertex.norm.z);
            tangents.push(vertex.tangent.x);
            tangents.push(vertex.tangent.y);
            tangents.push(vertex.tangent.z);
            bitangents.push(vertex.bitangent.x);
            bitangents.push(vertex.bitangent.y);
            bitangents.push(vertex.bitangent.z);
            tcoords.push(vertex.tc.x);
            tcoords.push(vertex.tc.y);
            i += 1;
        }
        (positions, normals, tangents, bitangents, tcoords)
    }

    /// The model of a decoded OBJ file: its vertices, split into the
    /// attribute arrays, and the corners of its triangles as indices.
    pub fn from_obj(object: &DecodedOBJ<T>) -> (info: ModelInfo<T>)
        ensures
            info.vertices@ == positions_of(object.vertices@),
            info.normals@ == normals_of(object.vertices@),
            info.tangents@ == tangents_of(object.vertices@),
            info.bitangents@ == bitangents_of(object.vertices@),
            info.tcoords@ == tcoords_of(object.vertices@),
            info.elements@ == flattened(object.elements@),
            info.complete(),
    {
        let (verts, norms, tans, bitans, tcs) = Self::vertex_to_data(&object.vertices);
        let mut elems: Vec<u32> = Vec::new();
        let mut i: usize = 0;
        while i < object.elements.len()
            invariant
                i <= object.elements@.len(),
                elems@.len() == 3 * i,
                forall|k: int| 0 <= k < 3 * i ==> elems@[k] == flattened(object.elements@)[k],
            decreases object.elements.len() - i,
        {
            let triangle = object.elements[i];
            elems.push(triangle.0);
            elems.push(triangle.1);
            elems.push(triangle.2);
            i += 1;
        }
        ModelInfo::new(verts, elems, norms, tans, bitans, tcs)
    }

    /// The model's vertices as one array in the layout of a vertex buffer:
    /// for each vertex its position, normal, tangent, bitangent and texture
    /// coordinate, `VERTEX_SIZE` components in all.
    pub fn get_vbo_format(&self) -> (vertices: Vec<T>)
        requires
            self.complete(),
        ensures
            vertices@ == interleaved(
                self.vertices@,
                self.normals@,
                self.tangents@,
                self.bitangents@,
                self.tcoords@,
            ),
            vertices@.len() == VERTEX_SIZE * (self.vertices@.len() / 3),
    {
        let ghost whole = interleaved(
            self.vertices@,
            self.normals@,
            self.tangents@,
            self.bitangents@,
            self.tcoords@,
        );
        let mut vertices: Vec<T> = Vec::new();
        let mut y: usize = 0;
        let mut x: usize = 0;
        while x < self.vertices.len()
            invariant
                self.complete(),
                x <= self.vertices@.len(),
                x % 3 == 0,
                2 * (x / 3) == y,
                vertices@.len() == 14 * (x / 3),
                whole == interleaved(
                    self.vertices@,
                    self.normals@,
                    self.tangents@,
                    self.bitangents@,
                    self.tcoords@,
                ),
                forall|k: int| 0 <= k < vertices@.len() ==> vertices@[k] == whole[k],
            decreases self.vertices.len() - x,
        {
            vertices.push(self.vertices[x]);
            vertices.push(self.vertices[x + 1]);
            vertices.push(self.vertices[x + 2]);
            vertices.push(self.normals[x]);
            vertices.push(self.normals[x + 1]);
            vertices.push(self.normals[x + 2]);
            vertices.push(self.tangents[x]);
            vertices.push(self.tangents[x + 1]);
            vertices.push(self.tangents[x + 2]);
            vertices.push(self.bitangents[x]);
            vertices.push(self.bitangents[x + 1]);
            vertices.push(self.bitangents[x + 2]);
            vertices.push(self.tcoords[y]);
            vertices.push(self.tcoords[y + 1]);
            y += 2;
            x += 3;
        }
        vertices
    }
}

impl ModelInfo<u32> {
    /// The model of a decoded RMOD file: its vertices, split into the
    /// attribute arrays, and its indices. The components are floats, given
    /// as their 32 bits.
    pub fn from_rmod(rmod: &DecodedRMOD) -> (info: ModelInfo<u32>)
        ensures
            info.vertices@ == positions_of(rmod.vertices@),
            info.normals@ == normals_of(rmod.vertices@),
            info.tangents@ == tangents_of(rmod.vertices@),
            info.bitangents@ == bitangents_of(rmod.vertices@),
            info.tcoords@ == tcoords_of(rmod.vertices@),
            info.elements@ == rmod.elements@,
            info.complete(),
    {
        let (verts, norms, tans, bitans, tcs) = Self::vertex_to_data(&rmod.vertices);
        let mut elems: Vec<u32> = Vec::new();
        let mut i: usize = 0;
        while i < rmod.elements.len()
            invariant
                i <= rmod.elements@.len(),
                elems@ == rmod.elements@.take(i as int),
            decreases rmod.elements.len() - i,
        {
            elems.push(rmod.elements[i]);
            proof {
                assert(rmod.elements@.take(i + 1) == rmod.elements@.take(i as int).push(
                    rmod.elements@[i as int],
                ));
            }
            i += 1;
        }
        proof {
            assert(rmod.elements@.take(i as int) == rmod.elements@);
        }
        ModelInfo::new(verts, elems, norms, tans, bitans, tcs)
    }
}

} // verus!

use mmo::gfx::model::ModelInfo;
use mmo::util::common::Vector2;
use mmo::util::common::Vector3;
use mmo::util::common::Vertex;
use mmo::util::obj::DecodedOBJ;
use mmo::util::rmod::DecodedRMOD;

fn vertex(base: f32) -> Vertex<f32> {
    Vertex {
        pos: Vector3 { x: base + 1.0, y: base + 2.0, z: base + 3.0 },
        norm: Vector3 { x: base + 4.0, y: base + 5.0, z: base + 6.0 },
        tangent: Vector3 { x: base + 7.0, y: base + 8.0, z: base + 9.0 },
        bitangent: Vector3 { x: base + 10.0, y: base + 11.0, z: base + 12.0 },
        tc: Vector2 { x: base + 13.0, y: base + 14.0 },
    }
}

#[test]
fn vertex_to_data_splits_the_attributes() {
    let vertices = vec![vertex(0.0), vertex(100.0)];
    let (positions, normals, tangents, bitangents, tcoords) =
        ModelInfo::vertex_to_data(&vertices);
    assert_eq!(positions, vec![1.0, 2.0, 3.0, 101.0, 102.0, 103.0]);
    assert_eq!(normals, vec![4.0, 5.0, 6.0, 104.0, 105.0, 106.0]);
    assert_eq!(tangents, vec![7.0, 8.0, 9.0, 107.0, 108.0, 109.0]);
    assert_eq!(bitangents, vec![10.0, 11.0, 12.0, 110.0, 111.0, 112.0]);
    assert_eq!(tcoords, vec![13.0, 14.0, 113.0, 114.0]);
}

#[test]
fn vbo_format_interleaves_the_attributes() {
    let info = ModelInfo::new(
        vec![1u32, 2, 3, 101, 102, 103],
        vec![0, 1, 0],
        vec![4, 5, 6, 104, 105, 106],
        vec![7, 8, 9, 107, 108, 109],
        vec![10, 11, 12, 110, 111, 112],
        vec![13, 14, 113, 114],
    );
    assert_eq!(
        info.get_vbo_format(),
        vec![
            1, 2, 3, 4, 5, 6, 7, 8, 9, 10, 11, 12, 13, 14, 101, 102, 103, 104, 105, 106, 107,
            108, 109, 110, 111, 112, 113, 114
        ]
    );
}

#[test]
fn vbo_format_of_no_vertices_is_empty() {
    let info: ModelInfo<u32> =
        ModelInfo::new(Vec::new(), Vec::new(), Vec::new(), Vec::new(), Vec::new(), Vec::new());
    assert_eq!(info.get_vbo_format(), Vec::<u32>::new());
}

#[test]
fn model_keeps_its_arrays() {
    let info = ModelInfo::new(vec![1u8], vec![2], vec![3u8], vec![4u8], vec![5u8], vec![6u8]);
    assert_eq!(info.vertices, vec![1]);
    assert_eq!(info.elements, vec![2]);
    assert_eq!(info.normals, vec![3]);
    assert_eq!(info.tangents, vec![4]);
    assert_eq!(info.bitangents, vec![5]);
    assert_eq!(info.tcoords, vec![6]);
}

#[test]
fn from_obj_flattens_the_triangles() {
    let vertices = vec![vertex(0.0), vertex(100.0), vertex(200.0), vertex(300.0)];
    let object = DecodedOBJ { vertices, elements: vec![(0, 1, 2), (2, 1, 3)] };
    let info = ModelInfo::from_obj(&object);
    assert_eq!(info.elements, vec![0, 1, 2, 2, 1, 3]);
    assert_eq!(info.vertices.len(), 12);
    assert_eq!(info.tcoords.len(), 8);
    let flat = info.get_vbo_format();
    assert_eq!(flat.len(), 56);
    for (i, base) in [0.0f32, 100.0, 200.0, 300.0].iter().enumerate() {
        for part in 0..14 {
            assert_eq!(flat[14 * i + part], base + 1.0 + part as f32);
        }
    }
}

#[test]
fn from_rmod_takes_the_elements_as_they_are() {
    let bits = |base: u32| Vertex {
        pos: Vector3 { x: base + 1, y: base + 2, z: base + 3 },
        norm: Vector3 { x: base + 4, y: base + 5, z: base + 6 },
        tangent: Vector3 { x: base + 7, y: base + 8, z: base + 9 },
        bitangent: Vector3 { x: base + 10, y: base + 11, z: base + 12 },
        tc: Vector2 { x: base + 13, y: base + 14 },
    };
    let rmod = DecodedRMOD {
        diffuse: None,
        specular: None,
        normal: None,
        vertices: vec![bits(0), bits(100), bits(200)],
        elements: vec![2, 0, 1],
        shininess: 0x4296_0000,
    };
    let info = ModelInfo::from_rmod(&rmod);
    assert_eq!(info.elements, vec![2, 0, 1]);
    assert_eq!(info.vertices, vec![1, 2, 3, 101, 102, 103, 201, 202, 203]);
    assert_eq!(info.normals, vec![4, 5, 6, 104, 105, 106, 204, 205, 206]);
    assert_eq!(info.tangents, vec![7, 8, 9, 107, 108, 109, 207, 208, 209]);
    assert_eq!(info.bitangents, vec![10, 11, 12, 110, 111, 112, 210, 211, 212]);
    assert_eq!(info.tcoords, vec![13, 14, 113, 114, 213, 214]);
    assert_eq!(info.get_vbo_format().len(), 42);
}

#[test]
fn a_model_is_complete_when_every_array_has_all_vertices() {
    let model = |positions: usize, normals: usize, tangents: usize, bitangents: usize, tcoords: usize| {
        ModelInfo::new(
            vec![0u8; positions],
            Vec::new(),
            vec![0u8; normals],
            vec![0u8; tangents],
            vec![0u8; bitangents],
            vec![0u8; tcoords],
        )
    };
    assert!(model(0, 0, 0, 0, 0).is_complete());
    assert!(model(6, 6, 6, 6, 4).is_complete());
    assert!(model(6, 9, 7, 6, 5).is_complete());
    assert!(!model(5, 6, 6, 6, 4).is_complete());
    assert!(!model(6, 5, 6, 6, 4).is_complete());
    assert!(!model(6, 6, 5, 6, 4).is_complete());
    assert!(!model(6, 6, 6, 5, 4).is_complete());
    assert!(!model(6, 6, 6, 6, 3).is_complete());
}

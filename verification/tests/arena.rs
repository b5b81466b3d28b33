use mmo::gfx::arena::check_indices;
use mmo::gfx::arena::correct_indices;
use mmo::gfx::arena::Arena;
use mmo::gfx::arena::BufferInfo;
use mmo::gfx::arena::BufferPlan;
use mmo::gfx::arena::DeviceFailure;
use mmo::gfx::arena::DeviceObjects;
use mmo::gfx::arena::DrawParams;
use mmo::gfx::arena::Pairing;
use mmo::gfx::arena::Plan;
use mmo::gfx::layout::Attribute;
use mmo::gfx::layout::AttributeName;
use mmo::gfx::layout::VertexLayout;
use mmo::gfx::pairing::Binding;
use mmo::gfx::pool::Allocation;
use mmo::gfx::pool::BackingBuffer;
use mmo::gfx::pool::DEFAULT_CAPACITY;

const NOTHING: DeviceObjects =
    DeviceObjects { index_buffer: None, vertex_buffer: None, binding: None };

fn all(index_buffer: u32, vertex_buffer: u32, binding: u32) -> DeviceObjects {
    DeviceObjects {
        index_buffer: Some(index_buffer),
        vertex_buffer: Some(vertex_buffer),
        binding: Some(binding),
    }
}

fn stride_seven() -> VertexLayout {
    VertexLayout::new(vec![
        Attribute { name: AttributeName::Position, components: 3 },
        Attribute { name: AttributeName::Normal, components: 2 },
        Attribute { name: AttributeName::TexCoord, components: 2 },
    ])
    .unwrap()
}

#[test]
fn new_arena_is_empty_and_in_generation_zero() {
    let arena = Arena::new(VertexLayout::standard(), DEFAULT_CAPACITY);
    assert_eq!(arena.generation(), 0);
    assert_eq!(arena.layout().stride(), 14);
    assert_eq!(arena.vertices().len(), 0);
    assert_eq!(arena.indices().len(), 0);
    assert_eq!(arena.pairings().rows(), 0);
    assert_eq!(arena.pairings().columns(), 0);
}

#[test]
fn plan_of_an_empty_arena_asks_for_everything() {
    let arena = Arena::new(VertexLayout::standard(), 1000);
    assert_eq!(
        arena.plan(28, 3),
        Plan {
            index_buffer: BufferPlan::Create { capacity: 1000 },
            vertex_buffer: BufferPlan::Create { capacity: 1000 },
            binding: None,
        }
    );
    assert_eq!(
        arena.plan(28, 1001),
        Plan {
            index_buffer: BufferPlan::Create { capacity: 1001 },
            vertex_buffer: BufferPlan::Create { capacity: 1000 },
            binding: None,
        }
    );
}

#[test]
fn register_into_an_empty_arena() {
    let mut arena = Arena::new(VertexLayout::standard(), 1000);
    let vertices = vec![0.5f32; 28];
    let elements: Vec<u32> = vec![0, 1, 1];
    let registration = arena.register(&vertices, &elements, all(7, 8, 9)).unwrap();
    assert_eq!(
        registration.handle,
        BufferInfo {
            pairing: Pairing { vertex_buffer: 0, index_buffer: 0 },
            element_offset: 0,
            element_count: 3,
            generation: 0
        }
    );
    assert_eq!(registration.binding, Binding { id: 9, created: true });
    assert_eq!(
        registration.vertices,
        Allocation { buffer_index: 0, base_offset: 0, device: 8, created: true }
    );
    assert_eq!(
        registration.indices,
        Allocation { buffer_index: 0, base_offset: 0, device: 7, created: true }
    );
    assert_eq!(registration.elements, vec![0, 1, 1]);
    assert_eq!(
        arena.vertices().buffer(0),
        BackingBuffer { device: 8, capacity: 1000, cursor: 28 }
    );
    assert_eq!(arena.indices().buffer(0), BackingBuffer { device: 7, capacity: 1000, cursor: 3 });
    assert_eq!(arena.pairings().rows(), 1);
    assert_eq!(arena.pairings().columns(), 1);
    assert_eq!(arena.pairings().get(0, 0), Some(9));
}

#[test]
fn second_registration_reuses_buffers_and_binding() {
    let mut arena = Arena::new(VertexLayout::standard(), 1000);
    let first = vec![0.0f32; 28];
    let second = vec![0.0f32; 42];
    arena.register(&first, &vec![0, 1, 1], all(7, 8, 9)).unwrap();
    assert_eq!(
        arena.plan(42, 3),
        Plan {
            index_buffer: BufferPlan::Reuse { index: 0, device: 7 },
            vertex_buffer: BufferPlan::Reuse { index: 0, device: 8 },
            binding: Some(9),
        }
    );
    let registration = arena.register(&second, &vec![0, 1, 2], NOTHING).unwrap();
    assert_eq!(
        registration.handle,
        BufferInfo {
            pairing: Pairing { vertex_buffer: 0, index_buffer: 0 },
            element_offset: 3,
            element_count: 3,
            generation: 0
        }
    );
    assert_eq!(registration.binding, Binding { id: 9, created: false });
    assert_eq!(
        registration.vertices,
        Allocation { buffer_index: 0, base_offset: 28, device: 8, created: false }
    );
    // Two whole vertices of fourteen components come before this mesh.
    assert_eq!(registration.elements, vec![2, 3, 4]);
}

#[test]
fn index_correction_with_stride_seven() {
    let mut arena = Arena::new(stride_seven(), 1000);
    arena.register(&vec![0u8; 14], &vec![0, 1, 0], all(1, 2, 3)).unwrap();
    let registration = arena.register(&vec![0u8; 21], &vec![0, 1, 2], NOTHING).unwrap();
    assert_eq!(registration.vertices.base_offset, 14);
    assert_eq!(registration.elements, vec![2, 3, 4]);
}

#[test]
fn correct_indices_adds_the_whole_vertices_before() {
    assert_eq!(correct_indices(&vec![0, 1, 2], 14, 7), vec![2, 3, 4]);
    assert_eq!(correct_indices(&vec![0, 1, 2], 0, 14), vec![0, 1, 2]);
    // The offset is counted in whole vertices, rounded down.
    assert_eq!(correct_indices(&vec![0, 1, 2], 21, 14), vec![1, 2, 3]);
    assert_eq!(correct_indices(&vec![5, 0, 9], 140, 14), vec![15, 10, 19]);
    assert_eq!(correct_indices(&Vec::new(), 140, 14), Vec::<u32>::new());
    assert_eq!(correct_indices(&vec![u32::MAX - 2], 28, 14), vec![u32::MAX]);
}

#[test]
fn check_indices_tells_whether_the_corrected_indices_fit() {
    assert!(check_indices(&vec![0, 1, 2], 14, 7));
    assert!(check_indices(&vec![u32::MAX - 2], 28, 14));
    assert!(!check_indices(&vec![0, u32::MAX - 1], 28, 14));
    assert!(check_indices(&vec![u32::MAX], 13, 14));
    assert!(!check_indices(&vec![u32::MAX], 14, 14));
    assert!(check_indices(&Vec::new(), usize::MAX, 1));
}

#[test]
fn oversized_mesh_gets_buffers_of_its_own_size() {
    let mut arena = Arena::new(VertexLayout::standard(), 100);
    assert_eq!(
        arena.plan(280, 150),
        Plan {
            index_buffer: BufferPlan::Create { capacity: 150 },
            vertex_buffer: BufferPlan::Create { capacity: 280 },
            binding: None,
        }
    );
    let elements: Vec<u32> = (0..150).map(|i| i % 20).collect();
    arena.register(&vec![0u8; 280], &elements, all(1, 2, 3)).unwrap();
    assert_eq!(arena.vertices().len(), 1);
    assert_eq!(arena.indices().len(), 1);
    assert_eq!(
        arena.vertices().buffer(0),
        BackingBuffer { device: 2, capacity: 280, cursor: 280 }
    );
    assert_eq!(
        arena.indices().buffer(0),
        BackingBuffer { device: 1, capacity: 150, cursor: 150 }
    );
}

#[test]
fn overflow_goes_to_a_new_buffer_with_a_new_pairing() {
    let mut arena = Arena::new(VertexLayout::standard(), 100);
    arena.register(&vec![0u8; 70], &vec![0; 90], all(1, 2, 3)).unwrap();
    // The vertices need a new buffer, the indices fit the old one.
    assert_eq!(
        arena.plan(42, 6),
        Plan {
            index_buffer: BufferPlan::Reuse { index: 0, device: 1 },
            vertex_buffer: BufferPlan::Create { capacity: 100 },
            binding: None,
        }
    );
    let registration = arena
        .register(
            &vec![0u8; 42],
            &vec![0; 6],
            DeviceObjects { index_buffer: None, vertex_buffer: Some(12), binding: Some(13) },
        )
        .unwrap();
    assert_eq!(
        registration.handle,
        BufferInfo {
            pairing: Pairing { vertex_buffer: 1, index_buffer: 0 },
            element_offset: 90,
            element_count: 6,
            generation: 0
        }
    );
    assert_eq!(registration.binding, Binding { id: 13, created: true });
    assert_eq!(arena.pairings().rows(), 2);
    assert_eq!(arena.pairings().columns(), 1);
    assert_eq!(arena.pairings().get(0, 0), Some(3));
    assert_eq!(arena.pairings().get(1, 0), Some(13));

    // The indices need a new buffer, the vertices fit the first one.
    let registration = arena
        .register(
            &vec![0u8; 28],
            &vec![0; 10],
            DeviceObjects { index_buffer: Some(21), vertex_buffer: None, binding: Some(23) },
        )
        .unwrap();
    assert_eq!(
        registration.handle,
        BufferInfo {
            pairing: Pairing { vertex_buffer: 0, index_buffer: 1 },
            element_offset: 0,
            element_count: 10,
            generation: 0
        }
    );
    assert_eq!(registration.vertices.base_offset, 70);
    assert_eq!(registration.elements, vec![5; 10]);
    assert_eq!(arena.pairings().rows(), 2);
    assert_eq!(arena.pairings().columns(), 2);
    assert_eq!(arena.pairings().get(0, 1), Some(23));
    assert_eq!(arena.pairings().get(1, 1), None);
}

#[test]
fn missing_index_buffer_fails_and_changes_nothing() {
    let mut arena = Arena::new(VertexLayout::standard(), 100);
    let supplied = DeviceObjects { index_buffer: None, vertex_buffer: Some(2), binding: Some(3) };
    let result = arena.register(&vec![0u8; 14], &vec![0, 0, 0], supplied);
    assert_eq!(result.err(), Some(DeviceFailure::IndexBuffer));
    assert_eq!(arena.vertices().len(), 0);
    assert_eq!(arena.indices().len(), 0);
    assert_eq!(arena.pairings().rows(), 0);
    assert_eq!(arena.pairings().columns(), 0);
}

#[test]
fn missing_vertex_buffer_fails_and_changes_nothing() {
    let mut arena = Arena::new(VertexLayout::standard(), 100);
    let supplied = DeviceObjects { index_buffer: Some(1), vertex_buffer: None, binding: Some(3) };
    let result = arena.register(&vec![0u8; 14], &vec![0, 0, 0], supplied);
    assert_eq!(result.err(), Some(DeviceFailure::VertexBuffer));
    assert_eq!(arena.vertices().len(), 0);
    assert_eq!(arena.indices().len(), 0);
    assert_eq!(arena.pairings().columns(), 0);
}

#[test]
fn missing_binding_fails_and_changes_nothing() {
    let mut arena = Arena::new(VertexLayout::standard(), 100);
    let supplied = DeviceObjects { index_buffer: Some(1), vertex_buffer: Some(2), binding: None };
    let result = arena.register(&vec![0u8; 14], &vec![0, 0, 0], supplied);
    assert_eq!(result.err(), Some(DeviceFailure::Binding));
    assert_eq!(arena.vertices().len(), 0);
    assert_eq!(arena.indices().len(), 0);
    assert_eq!(arena.pairings().rows(), 0);
    assert_eq!(arena.pairings().columns(), 0);
}

#[test]
fn the_first_missing_object_is_named() {
    let mut arena = Arena::new(VertexLayout::standard(), 100);
    let result = arena.register(&vec![0u8; 14], &vec![0, 0, 0], NOTHING);
    assert_eq!(result.err(), Some(DeviceFailure::IndexBuffer));
}

#[test]
fn add_buffers_up_front() {
    let mut arena = Arena::new(VertexLayout::standard(), DEFAULT_CAPACITY);
    assert_eq!(arena.add_vertex_buffer(5, 0), 0);
    assert_eq!(arena.add_index_buffer(6, 0), 0);
    assert_eq!(arena.pairings().rows(), 1);
    assert_eq!(arena.pairings().columns(), 1);
    assert_eq!(arena.pairings().get(0, 0), None);
    assert_eq!(
        arena.vertices().buffer(0),
        BackingBuffer { device: 5, capacity: 262140, cursor: 0 }
    );
    assert_eq!(
        arena.plan(14, 3),
        Plan {
            index_buffer: BufferPlan::Reuse { index: 0, device: 6 },
            vertex_buffer: BufferPlan::Reuse { index: 0, device: 5 },
            binding: None,
        }
    );
    let registration = arena
        .register(
            &vec![0u8; 14],
            &vec![0, 0, 0],
            DeviceObjects { index_buffer: None, vertex_buffer: None, binding: Some(8) },
        )
        .unwrap();
    assert_eq!(registration.binding, Binding { id: 8, created: true });
    assert!(!registration.vertices.created);
    assert!(!registration.indices.created);
}

#[test]
fn draw_params_of_a_current_record() {
    let mut arena = Arena::new(VertexLayout::standard(), 1000);
    arena.register(&vec![0u8; 14], &vec![0, 0, 0, 0], all(1, 2, 3)).unwrap();
    let registration = arena.register(&vec![0u8; 14], &vec![0, 0, 0], NOTHING).unwrap();
    assert_eq!(
        arena.draw_params(&registration.handle),
        Some(DrawParams { binding: 3, element_offset: 4, element_count: 3 })
    );
}

#[test]
fn a_record_of_another_generation_has_no_draw_params() {
    let mut arena = Arena::new(VertexLayout::standard(), 1000);
    let registration = arena.register(&vec![0u8; 14], &vec![0, 0, 0], all(1, 2, 3)).unwrap();
    let mut later = registration.handle;
    later.generation = 1;
    assert_eq!(arena.draw_params(&later), None);
    let mut elsewhere = registration.handle;
    elsewhere.pairing.vertex_buffer = 1;
    assert_eq!(arena.draw_params(&elsewhere), None);
    let mut elsewhere = registration.handle;
    elsewhere.pairing.index_buffer = 1;
    assert_eq!(arena.draw_params(&elsewhere), None);
}

#[test]
fn invalidate_all_raises_the_generation_and_empties_everything() {
    let mut arena = Arena::new(VertexLayout::standard(), 100);
    arena.register(&vec![0u8; 70], &vec![0; 90], all(1, 2, 3)).unwrap();
    arena
        .register(
            &vec![0u8; 42],
            &vec![0; 20],
            DeviceObjects { index_buffer: Some(11), vertex_buffer: Some(12), binding: Some(13) },
        )
        .unwrap();
    let destroyed = arena.invalidate_all();
    assert_eq!(destroyed, vec![3, 13]);
    assert_eq!(arena.generation(), 1);
    assert_eq!(arena.vertices().len(), 2);
    assert_eq!(arena.indices().len(), 2);
    assert_eq!(arena.vertices().buffer(0), BackingBuffer { device: 2, capacity: 100, cursor: 0 });
    assert_eq!(arena.vertices().buffer(1), BackingBuffer { device: 12, capacity: 100, cursor: 0 });
    assert_eq!(arena.indices().buffer(0), BackingBuffer { device: 1, capacity: 100, cursor: 0 });
    assert_eq!(arena.indices().buffer(1), BackingBuffer { device: 11, capacity: 100, cursor: 0 });
    assert_eq!(arena.pairings().rows(), 2);
    assert_eq!(arena.pairings().columns(), 2);
    for v in 0..2 {
        for e in 0..2 {
            assert_eq!(arena.pairings().get(v, e), None);
        }
    }
    assert_eq!(arena.invalidate_all(), Vec::<u32>::new());
    assert_eq!(arena.generation(), 2);
}

#[test]
fn resolve_of_a_current_record_allocates_nothing() {
    let mut arena = Arena::new(VertexLayout::standard(), 1000);
    let vertices = vec![0u8; 28];
    let elements: Vec<u32> = vec![0, 1, 1];
    let mut handle = arena.register(&vertices, &elements, all(1, 2, 3)).unwrap().handle;
    assert_eq!(arena.plan_resolve(&handle, 28, 3), None);
    let resolution = arena.resolve(&mut handle, &vertices, &elements, all(4, 5, 6)).unwrap();
    assert_eq!(resolution.draw, DrawParams { binding: 3, element_offset: 0, element_count: 3 });
    assert!(resolution.registration.is_none());
    assert_eq!(handle.generation, 0);
    assert_eq!(arena.vertices().buffer(0).cursor, 28);
    assert_eq!(arena.indices().buffer(0).cursor, 3);
}

#[test]
fn resolve_after_invalidation_registers_once() {
    let mut arena = Arena::new(VertexLayout::standard(), 1000);
    let other = vec![0u8; 14];
    let vertices = vec![0u8; 28];
    let elements: Vec<u32> = vec![0, 1, 1];
    arena.register(&other, &vec![0, 0, 0], all(1, 2, 3)).unwrap();
    let mut handle = arena.register(&vertices, &elements, NOTHING).unwrap().handle;
    assert_eq!(handle.element_offset, 3);

    assert_eq!(arena.invalidate_all(), vec![3]);
    assert_eq!(arena.generation(), 1);
    assert_eq!(arena.draw_params(&handle), None);
    assert_eq!(
        arena.plan_resolve(&handle, 28, 3),
        Some(Plan {
            index_buffer: BufferPlan::Reuse { index: 0, device: 1 },
            vertex_buffer: BufferPlan::Reuse { index: 0, device: 2 },
            binding: None,
        })
    );

    let supplied = DeviceObjects { index_buffer: None, vertex_buffer: None, binding: Some(30) };
    let resolution = arena.resolve(&mut handle, &vertices, &elements, supplied).unwrap();
    let registration = resolution.registration.unwrap();
    assert_eq!(registration.handle, handle);
    assert_eq!(
        handle,
        BufferInfo {
            pairing: Pairing { vertex_buffer: 0, index_buffer: 0 },
            element_offset: 0,
            element_count: 3,
            generation: 1
        }
    );
    assert_eq!(handle.generation, arena.generation());
    assert_eq!(resolution.draw, DrawParams { binding: 30, element_offset: 0, element_count: 3 });
    assert_eq!(registration.binding, Binding { id: 30, created: true });
    assert_eq!(registration.elements, vec![0, 1, 1]);
    assert_eq!(arena.vertices().buffer(0).cursor, 28);
    assert_eq!(arena.indices().buffer(0).cursor, 3);

    // Resolving again right away: nothing is allocated, nothing uploaded.
    let again = DeviceObjects { index_buffer: None, vertex_buffer: None, binding: Some(31) };
    let resolution = arena.resolve(&mut handle, &vertices, &elements, again).unwrap();
    assert!(resolution.registration.is_none());
    assert_eq!(resolution.draw, DrawParams { binding: 30, element_offset: 0, element_count: 3 });
    assert_eq!(handle.generation, 1);
    assert_eq!(arena.vertices().buffer(0).cursor, 28);
    assert_eq!(arena.indices().buffer(0).cursor, 3);
    assert_eq!(arena.pairings().get(0, 0), Some(30));
}

#[test]
fn resolve_of_a_stale_record_without_a_binding_fails_and_keeps_the_record() {
    let mut arena = Arena::new(VertexLayout::standard(), 1000);
    let vertices = vec![0u8; 28];
    let elements: Vec<u32> = vec![0, 1, 1];
    let mut handle = arena.register(&vertices, &elements, all(1, 2, 3)).unwrap().handle;
    let before = handle;
    arena.invalidate_all();
    let result = arena.resolve(&mut handle, &vertices, &elements, NOTHING);
    assert_eq!(result.err(), Some(DeviceFailure::Binding));
    assert_eq!(handle, before);
    assert_eq!(arena.vertices().buffer(0).cursor, 0);
    assert_eq!(arena.indices().buffer(0).cursor, 0);
}

#[test]
fn records_stay_current_while_others_are_registered() {
    let mut arena = Arena::new(VertexLayout::standard(), 100);
    let first = arena.register(&vec![0u8; 70], &vec![0; 90], all(1, 2, 3)).unwrap().handle;
    arena.register(&vec![0u8; 70], &vec![0; 90], all(11, 12, 13)).unwrap();
    arena.register(&vec![0u8; 14], &vec![0; 3], NOTHING).unwrap();
    assert_eq!(
        arena.draw_params(&first),
        Some(DrawParams { binding: 3, element_offset: 0, element_count: 90 })
    );
}

#[test]
fn registered_meshes_never_overlap() {
    let meshes: [(usize, usize); 8] =
        [(28, 6), (70, 90), (14, 3), (0, 0), (98, 4), (42, 100), (14, 1), (56, 12)];
    let mut arena = Arena::new(VertexLayout::standard(), 100);
    let mut placed = Vec::new();
    let mut device = 0;
    for (vertex_len, element_len) in meshes {
        device += 3;
        let registration = arena
            .register(
                &vec![0u8; vertex_len],
                &vec![0u32; element_len],
                all(device, device + 1, device + 2),
            )
            .unwrap();
        placed.push((registration.vertices, vertex_len, registration.indices, element_len));
    }
    for i in 0..placed.len() {
        let (vertices, vertex_len, indices, element_len) = placed[i];
        assert!(
            vertices.base_offset + vertex_len
                <= arena.vertices().buffer(vertices.buffer_index).capacity
        );
        assert!(
            indices.base_offset + element_len
                <= arena.indices().buffer(indices.buffer_index).capacity
        );
        for j in (i + 1)..placed.len() {
            let (later_vertices, _, later_indices, _) = placed[j];
            if vertices.buffer_index == later_vertices.buffer_index {
                assert!(vertices.base_offset + vertex_len <= later_vertices.base_offset);
            }
            if indices.buffer_index == later_indices.buffer_index {
                assert!(indices.base_offset + element_len <= later_indices.base_offset);
            }
        }
    }
}

#[test]
fn end_to_end_two_meshes_invalidate_and_a_third() {
    let mut arena = Arena::new(VertexLayout::standard(), 262140);
    assert_eq!(arena.layout().stride(), 14);
    let first = arena.register(&vec![0.0f32; 10], &vec![0, 0, 0], all(1, 2, 3)).unwrap();
    let second = arena.register(&vec![0.0f32; 20000], &vec![0, 1, 2], NOTHING).unwrap();
    assert_eq!(first.vertices.buffer_index, 0);
    assert_eq!(first.vertices.base_offset, 0);
    assert_eq!(second.vertices.buffer_index, 0);
    assert_eq!(second.vertices.base_offset, 10);
    assert_eq!(first.handle.pairing.vertex_buffer, 0);
    assert_eq!(second.handle.pairing.vertex_buffer, 0);
    assert_eq!(arena.vertices().len(), 1);
    assert_eq!(arena.vertices().buffer(0).capacity, 262140);
    assert_eq!(arena.vertices().buffer(0).cursor, 20010);
    assert_eq!(first.handle.generation, 0);
    assert_eq!(second.handle.generation, 0);

    arena.invalidate_all();

    let third = arena
        .register(
            &vec![0.0f32; 5],
            &vec![0, 0, 0],
            DeviceObjects { index_buffer: None, vertex_buffer: None, binding: Some(4) },
        )
        .unwrap();
    assert_eq!(third.vertices.buffer_index, 0);
    assert_eq!(third.vertices.base_offset, 0);
    assert_eq!(third.vertices.device, 2);
    assert!(!third.vertices.created);
    assert_eq!(third.handle.generation, second.handle.generation + 1);
    assert_eq!(third.handle.generation, 1);
    assert_eq!(arena.vertices().len(), 1);
    assert_eq!(arena.vertices().buffer(0).cursor, 5);
}

#[test]
fn takes_indices_looks_at_where_the_mesh_will_go() {
    let mut arena = Arena::new(VertexLayout::standard(), 1000);
    // Into an empty arena every index goes as it is.
    assert!(arena.takes_indices(28, &vec![0, u32::MAX]));
    arena.register(&vec![0u8; 28], &vec![0, 1, 1], all(1, 2, 3)).unwrap();
    // Now two vertices come before the next mesh.
    assert!(arena.takes_indices(28, &vec![0, u32::MAX - 2]));
    assert!(!arena.takes_indices(28, &vec![0, u32::MAX - 1]));
    // A mesh that needs a buffer of its own begins at its front.
    assert!(arena.takes_indices(2000, &vec![0, u32::MAX]));
    assert!(arena.takes_indices(28, &Vec::new()));
}

#[test]
fn meshes_of_one_generation_never_overlap_through_invalidations() {
    // Sizes of vertex data and indices; `None` is an invalidation.
    let steps: [Option<(usize, usize)>; 12] = [
        Some((28, 6)),
        Some((70, 90)),
        Some((14, 3)),
        None,
        Some((98, 4)),
        Some((42, 100)),
        None,
        None,
        Some((14, 1)),
        Some((56, 12)),
        Some((300, 7)),
        Some((1, 1)),
    ];
    let mut arena = Arena::new(VertexLayout::standard(), 100);
    let mut placed = Vec::new();
    let mut device = 0;
    for step in steps {
        match step {
            Some((vertex_len, element_len)) => {
                device += 3;
                let registration = arena
                    .register(
                        &vec![0u8; vertex_len],
                        &vec![0u32; element_len],
                        all(device, device + 1, device + 2),
                    )
                    .unwrap();
                assert_eq!(registration.handle.generation, arena.generation());
                placed.push((
                    registration.handle.generation,
                    registration.vertices,
                    vertex_len,
                    registration.indices,
                    element_len,
                ));
            }
            None => {
                arena.invalidate_all();
            }
        }
    }
    assert_eq!(arena.generation(), 3);
    let mut reused = false;
    for i in 0..placed.len() {
        let (generation, vertices, vertex_len, indices, element_len) = placed[i];
        for j in (i + 1)..placed.len() {
            let (later_generation, later_vertices, _, later_indices, _) = placed[j];
            if generation != later_generation {
                reused = reused
                    || (vertices.buffer_index == later_vertices.buffer_index
                        && later_vertices.base_offset < vertices.base_offset + vertex_len);
                continue;
            }
            if vertices.buffer_index == later_vertices.buffer_index {
                assert!(vertices.base_offset + vertex_len <= later_vertices.base_offset);
            }
            if indices.buffer_index == later_indices.buffer_index {
                assert!(indices.base_offset + element_len <= later_indices.base_offset);
            }
        }
    }
    // What was given up is used again.
    assert!(reused);
}

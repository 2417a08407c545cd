use redixel::batch::{DrawRun, Geometry, GeometryCapacity, RECT_INDICES, TRIANGLE_INDICES, next_power_of_two};
use redixel::texture::TextureId;

/// A vertex reduced to its position; the batch never looks inside one.
type Vertex = [f32; 3];

fn solid_rect() -> [Vertex; 4] {
    [[0.0, 0.0, 0.0], [1.0, 0.0, 0.0], [0.0, 1.0, 0.0], [1.0, 1.0, 0.0]]
}

fn sprite_rect() -> [Vertex; 4] {
    solid_rect()
}

fn triangle(a: [f32; 2], b: [f32; 2], c: [f32; 2]) -> [Vertex; 3] {
    [[a[0], a[1], 0.0], [b[0], b[1], 0.0], [c[0], c[1], 0.0]]
}

#[test]
fn rect_index_pattern_is_pinned() {
    assert_eq!(RECT_INDICES, [0, 2, 1, 1, 2, 3]);
}

#[test]
fn push_leaves_indices_alone_on_empty_geometry() {
    let mut geometry: Geometry<Vertex> = Geometry::default();
    geometry.push(&solid_rect(), &RECT_INDICES, None);

    assert_eq!(geometry.indices(), RECT_INDICES.to_vec());
}

#[test]
fn push_rebases_indices_onto_queued_vertices() {
    let mut geometry: Geometry<Vertex> = Geometry::default();
    geometry.push(&triangle([0.0, 0.0], [1.0, 0.0], [0.0, 1.0]), &[0, 1, 2], None);
    geometry.push(&triangle([1.0, 1.0], [1.0, 0.0], [0.0, 1.0]), &[0, 1, 2], None);
    geometry.push(&triangle([0.0, 0.0], [0.0, 1.0], [1.0, 0.0]), &[0, 1, 2], None);

    assert_eq!(geometry.vertices().len(), 9);
    assert_eq!(geometry.indices(), vec![0, 1, 2, 3, 4, 5, 6, 7, 8]);
}

#[test]
fn consecutive_rects_offset_their_base_vertex() {
    let mut geometry: Geometry<Vertex> = Geometry::default();
    geometry.push(&solid_rect(), &RECT_INDICES, None);
    geometry.push(&solid_rect(), &RECT_INDICES, None);

    assert_eq!(geometry.vertices().len(), 8);
    assert_eq!(geometry.indices(), vec![0, 2, 1, 1, 2, 3, 4, 6, 5, 5, 6, 7]);
}

#[test]
fn triangle_pushes_three_sequential_indices() {
    let mut geometry: Geometry<Vertex> = Geometry::default();
    geometry.push(&triangle([0.0, 0.0], [1.0, 0.0], [0.0, 1.0]), &TRIANGLE_INDICES, None);

    assert_eq!(geometry.vertices().len(), 3);
    assert_eq!(geometry.indices(), vec![0, 1, 2]);
}

#[test]
fn mixing_rects_and_triangles_keeps_indices_in_range() {
    let mut geometry: Geometry<Vertex> = Geometry::default();
    geometry.push(&triangle([0.0, 0.0], [1.0, 0.0], [0.0, 1.0]), &TRIANGLE_INDICES, None);
    geometry.push(&solid_rect(), &RECT_INDICES, None);
    geometry.push(&triangle([1.0, 1.0], [1.0, 0.0], [0.0, 1.0]), &TRIANGLE_INDICES, None);

    assert_eq!(geometry.vertices().len(), 10);
    assert_eq!(geometry.indices().len(), 12);

    let highest: u32 = *geometry.indices().iter().max().unwrap();
    assert!(highest < geometry.vertices().len() as u32);
}

#[test]
fn geometry_has_no_ceiling() {
    const QUADS: usize = 50_000;

    let mut geometry: Geometry<Vertex> = Geometry::default();
    for _ in 0..QUADS {
        geometry.push(&solid_rect(), &RECT_INDICES, None);
    }

    assert_eq!(geometry.vertices().len(), QUADS * 4);
    assert_eq!(geometry.indices().len(), QUADS * 6);

    let highest: u32 = *geometry.indices().iter().max().unwrap();
    assert_eq!(highest, geometry.vertices().len() as u32 - 1);
}

#[test]
fn clear_resets_every_queue() {
    let mut geometry: Geometry<Vertex> = Geometry::default();
    geometry.push(&solid_rect(), &RECT_INDICES, None);
    geometry.clear();

    assert!(geometry.vertices().is_empty());
    assert!(geometry.indices().is_empty());
    assert!(geometry.runs().is_empty());
}

#[test]
fn triangle_3d_pushes_three_sequential_indices() {
    let mut geometry: Geometry<Vertex> = Geometry::default();
    geometry.push(
        &[[0.0, 0.0, 0.0], [1.0, 0.0, 0.0], [0.0, 1.0, 0.0]],
        &TRIANGLE_INDICES,
        None,
    );

    assert_eq!(geometry.vertices().len(), 3);
    assert_eq!(geometry.indices(), vec![0, 1, 2]);
}

#[test]
fn untextured_geometry_collapses_into_one_run() {
    let mut geometry: Geometry<Vertex> = Geometry::default();
    for _ in 0..16 {
        geometry.push(&solid_rect(), &RECT_INDICES, None);
    }

    assert_eq!(geometry.runs().len(), 1, "a frame with no textures stays one draw call");
    assert_eq!(geometry.runs()[0].start, 0);
    assert_eq!(geometry.runs()[0].end, geometry.indices().len() as u32);
}

#[test]
fn consecutive_sprites_sharing_a_texture_collapse_into_one_run() {
    let texture: TextureId = TextureId::new(3);

    let mut geometry: Geometry<Vertex> = Geometry::default();
    for _ in 0..8 {
        geometry.push(&sprite_rect(), &RECT_INDICES, Some(texture));
    }

    assert_eq!(geometry.runs().len(), 1);
    assert_eq!(geometry.runs()[0].texture, Some(texture));
}

#[test]
fn changing_texture_opens_a_new_run() {
    let first: TextureId = TextureId::new(0);
    let second: TextureId = TextureId::new(1);

    let mut geometry: Geometry<Vertex> = Geometry::default();
    geometry.push(&sprite_rect(), &RECT_INDICES, Some(first));
    geometry.push(&sprite_rect(), &RECT_INDICES, Some(second));
    geometry.push(&sprite_rect(), &RECT_INDICES, Some(first));

    let textures: Vec<Option<TextureId>> = geometry.runs().iter().map(|r: &DrawRun| r.texture).collect();

    assert_eq!(
        textures,
        vec![Some(first), Some(second), Some(first)],
        "reordering runs to merge them would break painter order"
    );
}

#[test]
fn interleaving_textured_and_untextured_preserves_submission_order() {
    let texture: TextureId = TextureId::new(7);

    let mut geometry: Geometry<Vertex> = Geometry::default();
    geometry.push(&solid_rect(), &RECT_INDICES, None);
    geometry.push(&sprite_rect(), &RECT_INDICES, Some(texture));
    geometry.push(&solid_rect(), &RECT_INDICES, None);

    let textures: Vec<Option<TextureId>> = geometry.runs().iter().map(|r: &DrawRun| r.texture).collect();

    assert_eq!(textures, vec![None, Some(texture), None]);
}

#[test]
fn runs_partition_the_index_buffer() {
    let texture: TextureId = TextureId::new(2);

    let mut geometry: Geometry<Vertex> = Geometry::default();
    geometry.push(&solid_rect(), &RECT_INDICES, None);
    geometry.push(&sprite_rect(), &RECT_INDICES, Some(texture));
    geometry.push(&triangle([0.0, 0.0], [1.0, 0.0], [0.0, 1.0]), &TRIANGLE_INDICES, None);

    let mut cursor: u32 = 0;
    for run in geometry.runs() {
        assert_eq!(run.start, cursor, "a gap between runs would drop geometry");
        assert!(run.end > run.start, "an empty run is a wasted draw call");
        cursor = run.end;
    }

    assert_eq!(
        cursor,
        geometry.indices().len() as u32,
        "a short last run would silently drop the tail"
    );
}

#[test]
fn counts_follow_what_was_pushed() {
    let mut geometry: Geometry<Vertex> = Geometry::new();
    geometry.push(&solid_rect(), &RECT_INDICES, None);
    geometry.push(&triangle([0.0, 0.0], [1.0, 0.0], [0.0, 1.0]), &TRIANGLE_INDICES, None);

    assert_eq!(geometry.unique_vertex_count(), 7);
    assert_eq!(geometry.index_count(), 9);
    assert_eq!(geometry.indices(), vec![0, 2, 1, 1, 2, 3, 4, 5, 6]);
}

#[test]
fn next_power_of_two_matches_std() {
    for n in [0usize, 1, 2, 3, 4, 5, 7, 8, 9, 1000, 1024, 1025] {
        assert_eq!(next_power_of_two(n), n.next_power_of_two());
    }
}

#[test]
fn capacity_climbs_to_a_power_of_two_and_never_shrinks() {
    let mut capacity: GeometryCapacity = GeometryCapacity::new();

    assert_eq!(capacity.reserve(0, 0), (false, false));
    assert_eq!(capacity.reserve(5, 9), (true, true));
    assert_eq!(capacity.reserve(8, 16), (false, false));
    assert_eq!(capacity.reserve(3, 2), (false, false));
    assert_eq!(capacity.reserve(9, 16), (true, false));
    assert_eq!(capacity.reserve(16, 17), (false, true));
}

#[test]
fn reserved_capacities_are_the_next_powers_of_two() {
    let mut capacity: GeometryCapacity = GeometryCapacity::new();
    capacity.reserve(5, 9);

    assert_eq!(capacity.vertex_capacity(), 8);
    assert_eq!(capacity.index_capacity(), 16);

    capacity.reserve(1, 1);
    assert_eq!(capacity.vertex_capacity(), 8);
    assert_eq!(capacity.index_capacity(), 16);
}

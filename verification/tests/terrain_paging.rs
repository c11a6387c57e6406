use std::collections::HashSet;

use render_core::terrain::GroundPatch;
use render_core::terrain::HALF_PATCHES_PER_SIDE;
use render_core::terrain::PATCHES_PER_SIDE;
use render_core::terrain::Position;
use render_core::terrain::Terrain;
use render_core::terrain::VERTICES_PER_SIDE;

fn position(x: i64, z: i64) -> Position {
    Position { x, y: 0, z }
}

fn coords(t: &Terrain) -> HashSet<(i32, i32)> {
    t.to_geometries().iter().map(|p| (p.ix, p.iy)).collect()
}

fn ordered_coords(t: &Terrain) -> Vec<(i32, i32)> {
    t.to_geometries().iter().map(|p| (p.ix, p.iy)).collect()
}

#[test]
fn index_count_follows_the_resolution() {
    assert_eq!(VERTICES_PER_SIDE, 68);
    let per_side = (VERTICES_PER_SIDE - 1) as u32;
    for resolution in [1u32, 4, 8] {
        let quads = (per_side / resolution) as usize;
        assert_eq!(GroundPatch::indices(resolution).len(), 2 * quads * quads * 3);
    }
    assert_eq!(GroundPatch::indices(1).len(), 26934);
    assert_eq!(GroundPatch::indices(4).len(), 1536);
    assert_eq!(GroundPatch::indices(8).len(), 384);
}

#[test]
fn first_quad_indices() {
    let fine = GroundPatch::indices(1);
    assert_eq!(&fine[0..6], &[0, 1, 68, 68, 1, 69]);
    let coarse = GroundPatch::indices(4);
    assert_eq!(&coarse[0..6], &[0, 4, 272, 272, 4, 276]);
}

#[test]
fn lod_selection_by_distance() {
    let patch = GroundPatch::new(0, 0);
    let fine_len = 26934;
    let coarse_len = 1536;
    let very_coarse_len = 384;
    // distance 0
    assert_eq!(patch.index_buffer(0, 0).len(), fine_len);
    // distance 4: still fine
    assert_eq!(patch.index_buffer(2, 2).len(), fine_len);
    // distance 5: coarse
    assert_eq!(patch.index_buffer(2, 3).len(), coarse_len);
    // distance 8: coarse
    assert_eq!(patch.index_buffer(4, 4).len(), coarse_len);
    // distance 9: very coarse
    assert_eq!(patch.index_buffer(4, 5).len(), very_coarse_len);
    // negative offsets count the same
    assert_eq!(patch.index_buffer(-2, -3).len(), coarse_len);
}

#[test]
fn patch_holds_its_cell_and_buffers() {
    let patch = GroundPatch::new(3, -2);
    assert_eq!(patch.ix, 3);
    assert_eq!(patch.iy, -2);
    assert_eq!(patch.index_buffer.len(), 26934);
    assert_eq!(patch.coarse_index_buffer.len(), 1536);
    assert_eq!(patch.very_coarse_index_buffer.len(), 384);
}

#[test]
fn pos2patch_rounds_towards_negative_infinity() {
    assert_eq!(Terrain::pos2patch(position(0, 0)), (0, 0));
    assert_eq!(Terrain::pos2patch(position(15, 16)), (0, 1));
    assert_eq!(Terrain::pos2patch(position(-1, -16)), (-1, -1));
    assert_eq!(Terrain::pos2patch(position(-17, 31)), (-2, 1));
}

#[test]
fn window_is_full_after_new_and_update() {
    let side = PATCHES_PER_SIDE as usize;
    let half = HALF_PATCHES_PER_SIDE;
    let mut t = Terrain::new(position(8, 8));
    assert_eq!(t.center, (0, 0));
    assert_eq!(t.to_geometries().len(), side * side);
    for p in t.to_geometries() {
        assert!((p.ix - t.center.0).abs() <= half);
        assert!((p.iy - t.center.1).abs() <= half);
    }

    t.update(position(40, -33));
    assert_eq!(t.center, (2, -3));
    assert_eq!(t.to_geometries().len(), side * side);
    for p in t.to_geometries() {
        assert!((p.ix - t.center.0).abs() <= half);
        assert!((p.iy - t.center.1).abs() <= half);
    }
}

#[test]
fn coarse_resolutions_beyond_the_grid_give_no_quads() {
    // one quad per side once the decimation swallows the whole grid
    assert_eq!(GroundPatch::indices(67).len(), 6);
    assert_eq!(GroundPatch::indices(68).len(), 0);
    assert_eq!(GroundPatch::indices(1000).len(), 0);
}

#[test]
fn update_to_the_same_cell_changes_nothing() {
    let mut t = Terrain::new(position(3, -3));
    let before = ordered_coords(&t);
    let center = t.center;
    t.update(position(12, -1));
    assert_eq!(t.center, center);
    // the patches survive in their stored order
    assert_eq!(ordered_coords(&t), before);
}

#[test]
fn one_patch_step_shifts_one_column() {
    let mut t = Terrain::new(position(0, 0));
    let before = coords(&t);
    t.update(position(16, 0));
    assert_eq!(t.center, (1, 0));
    let after = coords(&t);

    let created: HashSet<_> = after.difference(&before).copied().collect();
    let evicted: HashSet<_> = before.difference(&after).copied().collect();
    let expected_created: HashSet<(i32, i32)> = (-16..=16).map(|y| (17, y)).collect();
    let expected_evicted: HashSet<(i32, i32)> = (-16..=16).map(|y| (-16, y)).collect();
    assert_eq!(created, expected_created);
    assert_eq!(evicted, expected_evicted);
    assert_eq!(created.len(), PATCHES_PER_SIDE as usize);
    assert_eq!(evicted.len(), PATCHES_PER_SIDE as usize);
}

#[test]
fn eviction_keeps_the_survivors_in_order() {
    let mut t = Terrain::new(position(0, 0));
    let before = ordered_coords(&t);
    t.update(position(16, 0));
    // survivors first, in their old order, then the freshly created column
    let mut expected: Vec<(i32, i32)> =
        before.iter().copied().filter(|c| c.0 != -16).collect();
    expected.extend((-16..=16).map(|y| (17, y)));
    assert_eq!(ordered_coords(&t), expected);
}

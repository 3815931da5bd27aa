use organoids::mesh::{circle_mesh_indices, fan_triangle_indices, ring_mesh_indices, MIN_ROUND_SEGMENTS};
use organoids::raster::{
    graph_background_shade, graph_gridline_rows, graph_pixel_offset, mask_edge_squared_distance, rank_by_key,
    species_miniature_signature, SIGNATURE_PRIME,
};

#[test]
fn fan_closes_back_to_the_first_rim_vertex() {
    assert_eq!(fan_triangle_indices(3), vec![0, 1, 2, 0, 2, 3, 0, 3, 1]);
    assert_eq!(fan_triangle_indices(1), vec![0, 1, 1]);
    assert!(fan_triangle_indices(0).is_empty());
}

#[test]
fn circles_use_at_least_sixteen_segments() {
    let small = circle_mesh_indices(3);
    assert_eq!(small.len(), 3 * MIN_ROUND_SEGMENTS);
    assert_eq!(&small[small.len() - 3..], &[0, 16, 1]);
    let big = circle_mesh_indices(40);
    assert_eq!(big.len(), 120);
    assert!(big.iter().all(|&i| i <= 40));
}

#[test]
fn ring_quads_join_inner_and_outer_vertices() {
    let ring = ring_mesh_indices(16);
    assert_eq!(ring.len(), 96);
    assert_eq!(&ring[..6], &[0, 1, 3, 0, 3, 2]);
    assert_eq!(&ring[90..], &[30, 31, 1, 30, 1, 0]);
    assert_eq!(ring_mesh_indices(2).len(), 96);
    assert!(ring_mesh_indices(20).iter().all(|&i| i < 40));
}

#[test]
fn pixel_offsets_stay_inside_the_image() {
    assert_eq!(graph_pixel_offset(10, 5, 0, 0), Some(0));
    assert_eq!(graph_pixel_offset(10, 5, 3, 2), Some(92));
    assert_eq!(graph_pixel_offset(10, 5, 9, 4), Some(196));
    assert_eq!(graph_pixel_offset(10, 5, 10, 0), None);
    assert_eq!(graph_pixel_offset(10, 5, -1, 0), None);
    assert_eq!(graph_pixel_offset(10, 5, 0, 5), None);
    assert_eq!(graph_pixel_offset(0, 0, 0, 0), None);
}

#[test]
fn graph_background_bands_and_gridlines() {
    assert_eq!(graph_background_shade(0), 12);
    assert_eq!(graph_background_shade(21), 12);
    assert_eq!(graph_background_shade(22), 9);
    assert_eq!(graph_background_shade(44), 12);
    assert_eq!(graph_gridline_rows(132), vec![16, 41, 66, 91, 116]);
    assert_eq!(graph_gridline_rows(32), vec![16, 16, 16, 16, 16]);
}

fn disc_mask(size: u32, radius: i32) -> Vec<bool> {
    let c = size as i32 / 2;
    let mut mask = Vec::new();
    for y in 0..size as i32 {
        for x in 0..size as i32 {
            mask.push((x - c) * (x - c) + (y - c) * (y - c) <= radius * radius);
        }
    }
    mask
}

#[test]
fn mask_edge_distance_finds_the_nearest_differing_cell() {
    let mask = disc_mask(21, 5);
    // from the center, the nearest outside cell is 5 across and 1 down
    assert_eq!(mask_edge_squared_distance(&mask, 21, 10, 10, true), Some(26));
    // just inside the rim
    assert_eq!(mask_edge_squared_distance(&mask, 21, 15, 10, true), Some(1));
    // far outside: nothing within 3 cells
    assert_eq!(mask_edge_squared_distance(&mask, 21, 0, 0, false), None);
    // just outside the rim
    assert_eq!(mask_edge_squared_distance(&mask, 21, 16, 10, false), Some(1));
    // an inside cell at the border sees the outside of the mask
    let full = vec![true; 9];
    assert_eq!(mask_edge_squared_distance(&full, 3, 0, 1, true), Some(1));
    assert_eq!(mask_edge_squared_distance(&full, 3, 1, 1, true), Some(4));
    // points beyond the mask see its border, and a longer buffer is read as the mask
    assert_eq!(mask_edge_squared_distance(&full, 3, 10, 10, false), None);
    assert_eq!(mask_edge_squared_distance(&full, 3, 4, 1, true), Some(1));
    let mut longer = full.clone();
    longer.push(false);
    assert_eq!(mask_edge_squared_distance(&longer, 3, 1, 1, true), Some(4));
}

#[test]
fn ranks_follow_keys_with_ties_by_position() {
    assert_eq!(rank_by_key(&vec![162, 151, 156, 153]), vec![3, 0, 2, 1]);
    assert_eq!(rank_by_key(&vec![5, 5, 1]), vec![1, 2, 0]);
    assert_eq!(rank_by_key(&vec![]), Vec::<usize>::new());
    assert_eq!(rank_by_key(&vec![-3, i64::MAX, i64::MIN]), vec![1, 2, 0]);
}

#[test]
fn miniature_signature_folds_quantized_values() {
    assert_eq!(species_miniature_signature(7, 0, &vec![]), 7);
    assert_eq!(species_miniature_signature(7, 2, &vec![]), 7 | (2u64 << 41));
    assert_eq!(species_miniature_signature(1, 0, &vec![5]), SIGNATURE_PRIME + 5);
    let values = vec![256, 12, 0, 255, 96, 3, 40, 700];
    let mut expected = 123_456u64 ^ (4u64 << 41);
    for v in &values {
        expected = expected.wrapping_mul(1_099_511_628_211).wrapping_add(*v);
    }
    assert_eq!(species_miniature_signature(123_456, 4, &values), expected);
    let mut changed = values.clone();
    changed[3] = 254;
    assert_ne!(species_miniature_signature(123_456, 4, &changed), expected);
}

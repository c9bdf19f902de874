use rustray::post_processing::{outline_matching_neighbours, texel_fetch_offset_u32, texel_index, PostProcessingConfig, Texel};
use rustray::sampling::{next_power_of_two, render_samples, sample_cell_size, sample_grid, wrap_coord};

#[test]
fn wrapping_texture_coordinates() {
    assert_eq!(wrap_coord(5, 4), 1);
    assert_eq!(wrap_coord(-1, 4), 3);
    assert_eq!(wrap_coord(-8, 4), 0);
    assert_eq!(wrap_coord(0, 7), 0);
    assert_eq!(wrap_coord(i32::MIN, 3), (i32::MIN as i64).rem_euclid(3) as u32);
    for c in -20..20 {
        assert_eq!(wrap_coord(c, 6), c.rem_euclid(6) as u32);
    }
}

#[test]
fn powers_of_two() {
    assert_eq!(next_power_of_two(0), 1);
    assert_eq!(next_power_of_two(1), 1);
    assert_eq!(next_power_of_two(5), 8);
    assert_eq!(next_power_of_two(8), 8);
    assert_eq!(next_power_of_two(32768), 32768);
    for n in 0..2000u16 {
        assert_eq!(next_power_of_two(n), n.next_power_of_two());
    }
}

#[test]
fn sample_grid_sizes() {
    assert_eq!(sample_cell_size(0), 1);
    assert_eq!(sample_cell_size(1), 1);
    assert_eq!(sample_cell_size(2), 2);
    assert_eq!(sample_cell_size(4), 4);
    assert_eq!(sample_cell_size(16), 16);
    assert_eq!(sample_cell_size(30), 16);
    for s in 0..3000u16 {
        let c = sample_cell_size(s);
        assert!((s as u32) <= (c as u32) * (c as u32));
    }
}

#[test]
fn grid_lists_every_position_once() {
    let g = sample_grid(3);
    assert_eq!(g, vec![(0, 0), (0, 1), (0, 2), (1, 0), (1, 1), (1, 2), (2, 0), (2, 1), (2, 2)]);
    assert!(sample_grid(0).is_empty());
}

#[test]
fn samples_are_distinct_grid_positions() {
    for s in [0u16, 1, 2, 5, 16, 64] {
        let v = render_samples(s);
        assert_eq!(v.len(), s as usize);
        let c = sample_cell_size(s);
        let mut sorted = v.clone();
        sorted.sort();
        sorted.dedup();
        assert_eq!(sorted.len(), v.len());
        assert!(v.iter().all(|&(x, y)| x < c && y < c));
    }
    assert_eq!(render_samples(1), vec![(0, 0)]);
}

#[test]
fn texel_positions_and_fetches() {
    let t = Texel { x: 1, y: 1 };
    assert_eq!(texel_index(t, Texel { x: 0, y: 0 }, 3, 9), Some(4));
    assert_eq!(texel_index(t, Texel { x: 0, y: -2 }, 3, 9), None);
    assert_eq!(texel_index(t, Texel { x: 0, y: 2 }, 3, 9), None);
    let ids = vec![1, 2, 3, 4, 5, 6, 7, 8, 9];
    assert_eq!(texel_fetch_offset_u32(&ids, t, Texel { x: 1, y: 0 }, 3), 6);
    assert_eq!(texel_fetch_offset_u32(&ids, t, Texel { x: 5, y: 5 }, 3), 0);
}

#[test]
fn outline_neighbour_counts() {
    let ids = vec![7, 7, 7, 7, 7, 7, 7, 7, 7];
    assert_eq!(outline_matching_neighbours(Texel { x: 1, y: 1 }, &ids, 3), 4);
    let ids = vec![0, 1, 0, 2, 1, 3, 0, 1, 0];
    assert_eq!(outline_matching_neighbours(Texel { x: 1, y: 1 }, &ids, 3), 2);
    let ids = vec![5, 6, 6, 6];
    // corner texel: the neighbour above and to the left fall outside and read 0
    assert_eq!(outline_matching_neighbours(Texel { x: 0, y: 0 }, &ids, 2), 0);
    let c = PostProcessingConfig::new();
    assert!(!c.cavity && !c.outline);
}

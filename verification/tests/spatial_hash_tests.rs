use rtgc_siberian_cities::spatial_hash::SpatialHash;

#[test]
fn neighbours_see_each_other() {
    let mut grid = SpatialHash::new();
    grid.insert(7, (0, 0, 0));
    assert_eq!(grid.get_potential_collisions((0, 0, 0)), vec![7]);
    assert_eq!(grid.get_potential_collisions((1, -1, 1)), vec![7]);
    assert_eq!(grid.get_potential_collisions((-1, 1, 0)), vec![7]);
    assert!(grid.get_potential_collisions((2, 0, 0)).is_empty());
    assert!(grid.get_potential_collisions((0, 0, -2)).is_empty());
}

#[test]
fn candidates_come_in_block_order() {
    let mut grid = SpatialHash::new();
    grid.insert(1, (1, 1, 1));
    grid.insert(2, (-1, -1, -1));
    grid.insert(3, (0, 0, 0));
    grid.insert(4, (0, 0, 0));
    // block order runs from offset (-1,-1,-1) to (1,1,1); a bucket keeps filing order
    assert_eq!(grid.get_potential_collisions((0, 0, 0)), vec![2, 3, 4, 1]);
}

#[test]
fn far_cells_wrap_onto_the_same_bucket() {
    let mut grid = SpatialHash::new();
    grid.insert(9, (-1, 0, 0));
    // -1 wraps to 999999
    assert_eq!(grid.get_potential_collisions((999_999, 0, 0)), vec![9]);
    assert_eq!(grid.get_potential_collisions((1_000_000, 0, 0)), vec![9]);
    grid.insert(5, (2_000_003, 0, 0));
    assert_eq!(grid.get_potential_collisions((3, 0, 0)), vec![5]);
}

#[test]
fn clear_forgets_bodies() {
    let mut grid = SpatialHash::new();
    grid.insert(1, (0, 0, 0));
    grid.clear();
    assert!(grid.get_potential_collisions((0, 0, 0)).is_empty());
}

use life::life_matrix::quadtree::QuadTreeMatrix;

#[test]
fn quadtree_can_set_and_get() {
    let mut matrix = QuadTreeMatrix::new();

    // get uninitialized bits
    assert_eq!(matrix.get(0, 0), false); // top_left
    assert_eq!(matrix.get(13, 7), false); // top_right

    matrix.set(0, 0, false); // top_left
    matrix.set(13, 7, true); // top_right
    matrix.set(7, 13, true); // bottom_left
    matrix.set(9, 8, false); // bottom_right

    // get initialized bits
    assert_eq!(matrix.get(0, 0), false); // top_left
    assert_eq!(matrix.get(13, 7), true); // top_right
    assert_eq!(matrix.get(7, 13), true); // bottom_left
    assert_eq!(matrix.get(9, 8), false); // bottom_right
}

#[test]
fn quadtree_can_get_outside_of_tree() {
    let matrix = QuadTreeMatrix::new();

    assert_eq!(matrix.get(23, 10), false); // outside top_right
    assert_eq!(matrix.get(10, 23), false); // outside bottom_left
    assert_eq!(matrix.get(23, 23), false); // outside bottom_right
}

#[test]
fn quadtree_can_grow() {
    let mut matrix = QuadTreeMatrix::new();

    matrix.set(9, 23, false); // outside bottom_left
    matrix.set(23, 23, true); // outside bottom_right
    matrix.set(23, 10, true); // outside top_right

    assert_eq!(matrix.get(9, 23), false); // bottom_left
    assert_eq!(matrix.get(23, 23), true); // bottom_right
    assert_eq!(matrix.get(23, 10), true); // top_right
}

#[test]
fn quadtree_growth_keeps_earlier_cells() {
    let mut tree = QuadTreeMatrix::new();
    let cells = [(0, 0), (15, 15), (8, 3), (3, 8), (7, 7)];
    for &(x, y) in cells.iter() {
        tree.set(x, y, true);
    }
    tree.set(7, 7, false);
    // Far beyond the first 16 × 16 region: several doublings at once.
    tree.set(1000, 5, true);
    for &(x, y) in cells.iter() {
        assert_eq!(tree.get(x, y), !(x == 7 && y == 7), "({}, {})", x, y);
    }
    assert!(tree.get(1000, 5));
    assert!(!tree.get(1000, 6));
    assert!(!tree.get(999, 5));
}

#[test]
fn quadtree_edge_of_region_grows() {
    let mut tree = QuadTreeMatrix::new();
    tree.set(16, 0, true);
    tree.set(0, 16, true);
    assert!(tree.get(16, 0));
    assert!(tree.get(0, 16));
    assert!(!tree.get(16, 16));
}

#[test]
fn quadtree_negative_reads_are_dead() {
    let mut tree = QuadTreeMatrix::new();
    tree.set(0, 0, true);
    assert!(!tree.get(-1, 0));
    assert!(!tree.get(0, -1));
    assert!(tree.get(0, 0));
}

#[test]
fn quadtree_largest_coordinates() {
    let mut tree = QuadTreeMatrix::new();
    tree.set(i32::MAX, i32::MAX, true);
    tree.set(3, 4, true);
    assert!(tree.get(i32::MAX, i32::MAX));
    assert!(tree.get(3, 4));
    assert!(!tree.get(i32::MAX - 1, i32::MAX));
}

#[test]
fn quadtree_repeated_set_keeps_cells() {
    let mut tree = QuadTreeMatrix::new();
    tree.set(20, 3, true);
    tree.set(20, 3, true);
    tree.set(5, 5, true);
    assert!(tree.get(20, 3));
    assert!(tree.get(5, 5));
    assert!(!tree.get(32, 3));
}

use hycol::lattice::triangle_lattice;

#[test]
fn lattice_of_side_zero_is_empty() {
    assert!(triangle_lattice(0).is_empty());
}

#[test]
fn lattice_of_side_one_is_the_corner() {
    assert_eq!(triangle_lattice(1), vec![(0, 0)]);
}

#[test]
fn lattice_of_side_three_row_by_row() {
    assert_eq!(
        triangle_lattice(3),
        vec![(0, 0), (0, 1), (0, 2), (1, 0), (1, 1), (2, 0)]
    );
}

#[test]
fn lattice_count_is_triangular() {
    for n in 0..40usize {
        assert_eq!(triangle_lattice(n).len(), n * (n + 1) / 2);
    }
}

#[test]
fn lattice_weights_are_barycentric() {
    let n = 12usize;
    let points = triangle_lattice(n);
    for &(i, j) in points.iter() {
        assert!(i + j <= n - 1);
    }
    for w in points.windows(2) {
        assert!(w[0] < w[1]);
    }
    // pair (i, j) stands after the i earlier rows of n, n - 1, ... points
    assert_eq!(points[n + (n - 1) + 4], (2, 4));
}

use ray_tracer::lights::{count_unshadowed, sample_cells, scatter_allowed};

#[test]
fn sample_cells_walk_rows_first() {
    assert_eq!(sample_cells(2, 2), vec![(0, 0), (1, 0), (0, 1), (1, 1)]);
    assert_eq!(
        sample_cells(3, 2),
        vec![(0, 0), (1, 0), (2, 0), (0, 1), (1, 1), (2, 1)]
    );
}

#[test]
fn sample_cells_of_empty_grid() {
    assert_eq!(sample_cells(0, 5), vec![]);
    assert_eq!(sample_cells(4, 0), vec![]);
}

// A two-by-two area light: its intensity is the unshadowed count over
// four, so the only possible values are 0, 0.25, 0.5, 0.75 and 1.
#[test]
fn four_sample_intensities() {
    let fixtures: [(Vec<bool>, usize, f32); 5] = [
        (vec![true, true, true, true], 0, 0.0),
        (vec![false, true, true, true], 1, 0.25),
        (vec![false, true, false, true], 2, 0.5),
        (vec![false, false, false, true], 3, 0.75),
        (vec![false, false, false, false], 4, 1.0),
    ];
    for (shadowed, count, intensity) in fixtures {
        let n = count_unshadowed(&shadowed);
        assert_eq!(n, count);
        assert_eq!(n as f32 / shadowed.len() as f32, intensity);
    }
}

#[test]
fn count_of_no_samples() {
    assert_eq!(count_unshadowed(&vec![]), 0);
}

// A secondary ray is never spawned once the depth budget is spent,
// whatever the material says.
#[test]
fn no_scatter_without_depth() {
    assert_eq!(scatter_allowed(0, false), false);
    assert_eq!(scatter_allowed(0, true), false);
    assert_eq!(scatter_allowed(-1, false), false);
}

#[test]
fn scatter_needs_a_nonzero_coefficient() {
    assert_eq!(scatter_allowed(5, true), false);
    assert_eq!(scatter_allowed(5, false), true);
    assert_eq!(scatter_allowed(1, false), true);
}

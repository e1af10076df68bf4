use ray_tracer::refraction::refraction_boundary;

// Maps a containment answer to a refractive index, as the shading step
// does: each key names a glass sphere, no container means vacuum.
fn index_of(key: Option<u64>, table: &[f32]) -> f32 {
    match key {
        None => 1.0,
        Some(k) => table[k as usize],
    }
}

// Three overlapping glass spheres of refractive indices 1.5, 2.0 and 2.5,
// crossed by one ray: six boundaries in the order enter A, enter B,
// enter C, leave B, leave C, leave A, giving the classic n1/n2 ladder.
#[test]
fn three_nested_glass_spheres() {
    let table = [1.5, 2.0, 2.5];
    let hits: Vec<u64> = vec![0, 1, 2, 1, 2, 0];
    let expected = [
        (1.0, 1.5),
        (1.5, 2.0),
        (2.0, 2.5),
        (2.5, 2.5),
        (2.5, 1.5),
        (1.5, 1.0),
    ];
    for target in 0..hits.len() {
        let (from_key, into_key) = refraction_boundary(&hits, target);
        let n1 = index_of(from_key, &table);
        let n2 = index_of(into_key, &table);
        assert_eq!((n1, n2), expected[target], "at boundary {}", target);
    }
}

// A ray passing straight through a single glass sphere: vacuum to glass at
// the near surface, glass to vacuum at the far one.
#[test]
fn single_sphere_entry_and_exit() {
    let hits: Vec<u64> = vec![7, 7];
    assert_eq!(refraction_boundary(&hits, 0), (None, Some(7)));
    assert_eq!(refraction_boundary(&hits, 1), (Some(7), None));
}

// A hit inside an already-entered object keeps that object as the outer
// medium on both sides.
#[test]
fn nested_object_keeps_outer_medium() {
    // Enter 3, then a small sphere 8 entirely inside it.
    let hits: Vec<u64> = vec![3, 8, 8, 3];
    assert_eq!(refraction_boundary(&hits, 1), (Some(3), Some(8)));
    assert_eq!(refraction_boundary(&hits, 2), (Some(8), Some(3)));
}

use raytracer::scene::nearest_hit;

#[test]
fn no_objects_no_hit() {
    assert_eq!(nearest_hit(&vec![]), None);
}

#[test]
fn all_misses_no_hit() {
    assert_eq!(nearest_hit(&vec![None, None, None]), None);
}

#[test]
fn smallest_parameter_wins() {
    assert_eq!(nearest_hit(&vec![Some(9), None, Some(3), Some(5)]), Some(2));
    assert_eq!(nearest_hit(&vec![None, Some(7)]), Some(1));
}

#[test]
fn earliest_object_wins_ties() {
    assert_eq!(nearest_hit(&vec![Some(8), Some(4), None, Some(4)]), Some(1));
}

#[test]
fn float_parameters_order_by_bits() {
    let ts = [2.5f64, 0.75, 1.0e3, 0.001];
    let keys: Vec<Option<u64>> = ts.iter().map(|t| Some(t.to_bits())).collect();
    assert_eq!(nearest_hit(&keys), Some(3));
}

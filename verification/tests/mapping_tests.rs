use project_set::ColIndexMapping;
use project_set::MappingError;

fn sample_mapping() -> ColIndexMapping {
    // source size 3, target size 2
    ColIndexMapping::with_target_size(vec![Some(0), None, Some(1)], 2)
}

#[test]
fn resolvable_indices_lie_in_target_range() {
    let m = sample_mapping();
    assert_eq!(m.source_size(), 3);
    assert_eq!(m.target_size(), 2);
    for i in 0..3usize {
        if let Ok(Some(t)) = m.try_map(i) {
            assert!(t < 2);
        }
    }
    assert_eq!(m.try_map(0), Ok(Some(0)));
    assert_eq!(m.try_map(1), Ok(None));
    assert_eq!(m.try_map(2), Ok(Some(1)));
}

#[test]
fn query_beyond_source_size_fails_with_index_out_of_range() {
    let m = sample_mapping();
    assert_eq!(m.try_map(3), Err(MappingError::IndexOutOfRange));
    assert_eq!(m.try_map(100), Err(MappingError::IndexOutOfRange));
}

#[test]
fn try_map_all_is_all_or_nothing() {
    let m = sample_mapping();
    assert_eq!(m.try_map_all(&vec![0, 2]), Some(vec![0, 1]));
    assert_eq!(m.try_map_all(&vec![2, 0]), Some(vec![1, 0]));
    assert_eq!(m.try_map_all(&vec![0, 1]), None);
    assert_eq!(m.try_map_all(&vec![]), Some(vec![]));
}

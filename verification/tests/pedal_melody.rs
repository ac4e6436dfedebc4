use midi_patcher::effects::pedal_melody::{create_notes_mapping, create_notes_mapping_internal, LOWER_THRESHOLD, UPPER_THRESHOLD};

#[test]
fn test_create_notes_mapping_1() {
    assert_eq!(create_notes_mapping(&vec![1]), vec![
        (UPPER_THRESHOLD, 1),
        (0, 0)
    ]);
}

#[test]
fn test_create_notes_mapping_2() {
    assert_eq!(create_notes_mapping(&vec![1, 2]), vec![
        (UPPER_THRESHOLD, 1),
        (0, 2),
    ]);
}

#[test]
fn test_create_notes_mapping_3() {
    assert_eq!(create_notes_mapping(&vec![1, 2, 3]), vec![
        (UPPER_THRESHOLD, 1),
        (LOWER_THRESHOLD, 2),
        (0, 3),
    ]);
}

#[test]
fn test_create_notes_mapping_4() {
    assert_eq!(create_notes_mapping(&vec![1, 2, 3, 4]), vec![
        (UPPER_THRESHOLD, 1),
        (64, 2),
        (LOWER_THRESHOLD, 3),
        (0, 4),
    ]);
}

#[test]
fn test_create_notes_mapping_5() {
    assert_eq!(create_notes_mapping(&vec![1, 2, 3, 4, 5]), vec![
        (UPPER_THRESHOLD, 1),
        (84, 2),
        (44, 3),
        (LOWER_THRESHOLD, 4),
        (0, 5),
    ]);
}

#[test]
fn mapping_with_custom_thresholds_keeps_fixed_first_threshold() {
    assert_eq!(create_notes_mapping_internal(&[60, 62, 64], 1, 127), vec![
        (UPPER_THRESHOLD, 60),
        (1, 62),
        (0, 64),
    ]);
}

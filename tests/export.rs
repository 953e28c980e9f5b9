use lightsail::export::pad_front;

#[test]
fn rows_are_aligned_right() {
    let rows = vec![vec![(1.0, 1.0)], vec![(0.5, 0.5), (1.0, 1.0)], vec![]];
    let r = pad_front(&rows, 3, (0.0, 0.0));
    assert_eq!(
        r,
        vec![
            vec![(0.0, 0.0), (0.0, 0.0), (1.0, 1.0)],
            vec![(0.0, 0.0), (0.5, 0.5), (1.0, 1.0)],
            vec![(0.0, 0.0), (0.0, 0.0), (0.0, 0.0)],
        ]
    );
}

#[test]
fn full_rows_are_unchanged() {
    let rows = vec![vec![1u8, 2, 3]];
    assert_eq!(pad_front(&rows, 3, 0), rows);
    assert_eq!(pad_front(&Vec::<Vec<u8>>::new(), 4, 0), Vec::<Vec<u8>>::new());
}

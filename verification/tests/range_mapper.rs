use midi_patcher::utils::range_mapper::RangeToRangeMapper;

#[test]
fn test() {
    let mapper = RangeToRangeMapper::new((10, 20), (40, 80));

    assert_eq!(mapper.map(9), 40);
    assert_eq!(mapper.map(10), 40);

    assert_eq!(mapper.map(20), 80);
    assert_eq!(mapper.map(21), 80);

    assert_eq!(mapper.map(15), 60);
    assert_eq!(mapper.map(11), 44);
}

#[test]
fn test_large() {
    let mapper = RangeToRangeMapper::new((10, 240), (20, 250));
    assert_eq!(mapper.map(100), 110);
}

#[test]
fn mapping_is_monotonic_on_samples() {
    let mapper = RangeToRangeMapper::new((0, 127), (30, 90));
    let mut last = 0;
    for v in 0..=255u8 {
        let r = mapper.map(v);
        assert!(r >= last);
        assert!(r >= 30 && r <= 90);
        last = r;
    }
}

use omnitiles::filter::PositionFilter;

#[test]
fn seeded_filter_reports_seed() {
    let f = PositionFilter::new(1234);
    assert_eq!(f.estimate(), 1234);
}

#[test]
fn single_spike_is_rejected_by_median() {
    let mut f = PositionFilter::new(100);
    assert_eq!(f.push(4000), 100);
    assert_eq!(f.push(100), 100);
}

#[test]
fn two_spikes_are_still_rejected() {
    let mut f = PositionFilter::new(100);
    assert_eq!(f.push(4000), 100);
    assert_eq!(f.push(4000), 100);
    assert_eq!(f.push(100), 100);
}

#[test]
fn average_moves_two_percent_toward_median() {
    let mut f = PositionFilter::new(0);
    assert_eq!(f.push(1000), 0);
    assert_eq!(f.push(1000), 0);
    // Median is now 1000: the average moves 2% of 1000 counts.
    assert_eq!(f.push(1000), 20);
}

#[test]
fn constant_input_converges_exactly() {
    let mut f = PositionFilter::new(0);
    let mut last = 0u16;
    let mut reached = None;
    for i in 0..2000 {
        let r = f.push(3000);
        assert!(r >= last && r <= 3000);
        last = r;
        if r == 3000 && reached.is_none() {
            reached = Some(i);
        }
    }
    assert!(reached.is_some());
    assert_eq!(f.estimate(), 3000);
}

#[test]
fn constant_input_converges_from_above() {
    let mut f = PositionFilter::new(4095);
    for _ in 0..2000 {
        f.push(7);
    }
    assert_eq!(f.estimate(), 7);
}

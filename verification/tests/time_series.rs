use ocw_labs::time_series::{TimeSeries, ValueCollisionPolicy};

/// Values for one time unit add up, as the default collision policy says.
fn add(a: f64, b: f64) -> f64 {
    a + b
}

#[test]
fn it_defaults_to_increment() {
    assert_eq!(ValueCollisionPolicy::default(), ValueCollisionPolicy::Increment);
    assert_ne!(ValueCollisionPolicy::default(), ValueCollisionPolicy::Overwrite);
    let series: TimeSeries<f64> = TimeSeries::new();
    assert_eq!(series.collision_policy, ValueCollisionPolicy::Increment);
    assert_eq!(series.metrics_capacity, 300);
}

#[test]
fn it_pushes_circular_buffer() {
    let mut test: TimeSeries<f64> = TimeSeries::new().with_capacity(4);
    test.circular_push((10, Some(0f64)));
    assert_eq!(test.first_idx, 0);
    assert_eq!(test.last_idx, 1);
    test.circular_push((11, Some(1f64)));
    test.circular_push((12, None));
    test.circular_push((13, Some(3f64)));
    assert_eq!(test.first_idx, 0);
    assert_eq!(test.last_idx, 4);
    assert_eq!(test.metrics, vec![(10, Some(0f64)), (11, Some(1f64)), (12, None), (13, Some(3f64))]);
    test.circular_push((14, Some(4f64)));
    assert_eq!(test.metrics, vec![(14, Some(4f64)), (11, Some(1f64)), (12, None), (13, Some(3f64))]);
    assert_eq!(test.first_idx, 1);
    assert_eq!(test.last_idx, 0);
    test.circular_push((15, Some(5f64)));
    assert_eq!(test.metrics, vec![(14, Some(4f64)), (15, Some(5f64)), (12, None), (13, Some(3f64))]);
    assert_eq!(test.first_idx, 2);
    assert_eq!(test.last_idx, 1);
}

#[test]
fn it_transforms_to_flat_vec() {
    let mut test: TimeSeries<f64> = TimeSeries::new().with_capacity(4);
    assert_eq!(test.first_idx, 0);
    assert_eq!(test.last_idx, 0);
    test.push((10, 0f64), add);
    assert_eq!(test.first_idx, 0);
    assert_eq!(test.last_idx, 1);
    test.push((13, 3f64), add);
    assert_eq!(test.first_idx, 0);
    assert_eq!(test.last_idx, 4);
    assert_eq!(test.as_vec(), vec![(10, Some(0f64)), (11, None), (12, None), (13, Some(3f64))]);
    test.push((14, 4f64), add);
    test.first_idx = 1;
    test.last_idx = 1;
    assert_eq!(test.as_vec(), vec![(11, None), (12, None), (13, Some(3f64)), (14, Some(4f64))]);
    test.active_items = 1;
    test.first_idx = 1;
    test.last_idx = 2;
    assert_eq!(test.as_vec(), vec![(11, None)]);
    test.first_idx = 3;
    test.last_idx = 4;
    test.active_items = 1;
    assert_eq!(test.as_vec(), vec![(13, Some(3f64))]);
    test.first_idx = 3;
    test.last_idx = 1;
    test.active_items = 2;
    assert_eq!(test.as_vec(), vec![(13, Some(3f64)), (14, Some(4f64))]);
}

#[test]
fn it_fills_empty_epochs() {
    let mut test: TimeSeries<f64> = TimeSeries::new().with_capacity(4);
    test.push((10, 0f64), add);
    test.push((13, 3f64), add);
    assert_eq!(test.metrics, vec![(10, Some(0f64)), (11, None), (12, None), (13, Some(3f64))]);
    assert_eq!(test.active_items, 4);
    test.push((18, 8f64), add);
    assert_eq!(test.active_items, 1);
    assert_eq!(test.metrics, vec![(18, Some(8f64)), (11, None), (12, None), (13, Some(3f64))]);
    assert_eq!(test.first_idx, 0);
    assert_eq!(test.last_idx, 1);
    assert_eq!(test.active_items, 1);
    assert_eq!(test.as_vec(), vec![(18, Some(8f64))]);
    test.push((20, 0f64), add);
    assert_eq!(test.metrics, vec![(18, Some(8f64)), (19, None), (20, Some(0f64)), (13, Some(3f64))]);
    assert_eq!(test.first_idx, 0);
    assert_eq!(test.last_idx, 3);
    assert_eq!(test.active_items, 3);
    assert_eq!(test.as_vec(), vec![(18, Some(8f64)), (19, None), (20, Some(0f64))]);
    test.push((50, 5f64), add);
    assert_eq!(test.metrics, vec![(50, Some(5f64)), (19, None), (20, Some(0f64)), (13, Some(3f64))]);
    assert_eq!(test.as_vec(), vec![(50, Some(5f64))]);
    test.push((53, 3f64), add);
    assert_eq!(test.metrics, vec![(50, Some(5f64)), (51, None), (52, None), (53, Some(3f64))]);
}

#[test]
fn it_combines_values_of_one_epoch() {
    let mut test: TimeSeries<i64> = TimeSeries::new().with_capacity(3);
    test.push((7, 2), |a, b| a + b);
    test.push((7, 5), |a, b| a + b);
    assert_eq!(test.as_vec(), vec![(7, Some(7))]);
    // an epoch before the latest one lands on the latest entry too
    test.push((6, 1), |_a, b| b);
    assert_eq!(test.as_vec(), vec![(7, Some(1))]);
    test.circular_push((8, None));
    test.push((8, 4), |a, b| a + b);
    assert_eq!(test.as_vec(), vec![(7, Some(1)), (8, Some(4))]);
    assert_eq!(test.get_first_filled(), Some(1));
    let mut empty: TimeSeries<i64> = TimeSeries::new().with_capacity(2);
    empty.circular_push((1, None));
    assert_eq!(empty.get_first_filled(), None);
}

#[test]
fn it_finds_the_latest_filled_value() {
    let mut test: TimeSeries<i64> = TimeSeries::new().with_capacity(4);
    test.circular_push((10, Some(0)));
    test.circular_push((11, Some(1)));
    test.circular_push((12, None));
    assert_eq!(test.get_last_filled(), Some(1));
    test.circular_push((13, None));
    assert_eq!(test.last_idx, 4);
    assert_eq!(test.get_last_filled(), Some(1));
    let mut full: TimeSeries<i64> = TimeSeries::new().with_capacity(4);
    for (epoch, value) in [(10, 1), (11, 2), (12, 3), (13, 4)] {
        full.push((epoch, value), |a, b| a + b);
    }
    assert_eq!(full.get_last_filled(), Some(4));
    let mut only_first: TimeSeries<i64> = TimeSeries::new().with_capacity(4);
    only_first.push((10, 0), |a, b| a + b);
    only_first.circular_push((11, None));
    only_first.circular_push((12, None));
    only_first.circular_push((13, None));
    assert_eq!(only_first.get_last_filled(), Some(0));
}

#[test]
fn it_keeps_one_entry_per_epoch_after_wrapping() {
    let mut test: TimeSeries<i64> = TimeSeries::new().with_capacity(4);
    for (epoch, value) in [(10, 0), (11, 1), (12, 2), (13, 3), (14, 4), (15, 5)] {
        test.push((epoch, value), |a, b| a + b);
    }
    assert_eq!(test.as_vec(), vec![(12, Some(2)), (13, Some(3)), (14, Some(4)), (15, Some(5))]);
    assert_eq!(test.active_items, 4);
    assert_eq!(test.first_idx, 2);
    // around the ring more than once, with a gap to fill
    test.push((16, 6), |a, b| a + b);
    test.push((17, 7), |a, b| a + b);
    test.push((19, 9), |a, b| a + b);
    assert_eq!(test.as_vec(), vec![(16, Some(6)), (17, Some(7)), (18, None), (19, Some(9))]);
    assert_eq!(test.active_items, 4);
    assert_eq!(test.get_last_filled(), Some(9));
    assert_eq!(test.get_first_filled(), Some(6));
    // a value at the latest epoch lands on the latest entry
    test.push((19, 1), |a, b| a + b);
    assert_eq!(test.as_vec(), vec![(16, Some(6)), (17, Some(7)), (18, None), (19, Some(10))]);
}

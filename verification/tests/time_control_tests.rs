use foxsee::time_control::calculate_time_capacity;

#[test]
fn test_calculate_time_capacity() {
    let time_capacity = calculate_time_capacity(180_000, 40, 0);
    assert_eq!(5434, time_capacity.main_time_millis);
    assert_eq!(4363, time_capacity.extra_time_millis);

    let time_capacity = calculate_time_capacity(5000, 28, 1000);
    assert_eq!(1097, time_capacity.main_time_millis);
    assert_eq!(138, time_capacity.extra_time_millis);
}

#[test]
fn test_time_capacity_short_clock() {
    // main share 30 / (1 + 0) = 30 > 20: overhead taken off, nothing left over
    let time_capacity = calculate_time_capacity(30, 1, 0);
    assert_eq!(10, time_capacity.main_time_millis);
    assert_eq!(0, time_capacity.extra_time_millis);

    // main share 15 is no more than the overhead: half of it, no extra time
    let time_capacity = calculate_time_capacity(15, 1, 0);
    assert_eq!(7, time_capacity.main_time_millis);
    assert_eq!(0, time_capacity.extra_time_millis);
}

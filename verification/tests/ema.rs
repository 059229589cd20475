use zerg_pool::ema::Ema;

#[test]
fn test_ema_calculation() {
    // alpha = 1/2 in parts per million; values scaled by one million.
    let mut ema = Ema::new(500_000);

    assert_eq!(ema.feed(1_000_000), 1_000_000);
    assert_eq!(ema.feed(2_000_000), 1_500_000);
    assert_eq!(ema.feed(3_000_000), 2_250_000);
}

#[test]
fn test_ema_edge_cases() {
    // Zero input stays zero.
    let mut ema_zero = Ema::new(500_000);
    assert_eq!(ema_zero.feed(0), 0);
    assert_eq!(ema_zero.feed(0), 0);

    // An extreme value is emitted verbatim and stays exactly stable
    // under repeated constant input.
    let mut ema_max = Ema::new(500_000);
    let max_val = u64::MAX / 2;
    let first_output = ema_max.feed(max_val);
    assert_eq!(first_output, max_val);
    let actual_max = ema_max.feed(max_val);
    assert_eq!(actual_max, max_val);

    // The largest representable value behaves the same.
    let mut ema_top = Ema::new(500_000);
    assert_eq!(ema_top.feed(u64::MAX), u64::MAX);
    assert_eq!(ema_top.feed(u64::MAX), u64::MAX);
}

#[test]
fn test_ema_constant_input_converges() {
    // Starting far away, constant input pulls the average within one
    // scaled unit (one part per million at unit scale) and keeps it
    // there.
    let mut ema = Ema::new(500_000);
    ema.feed(0);
    let target: u64 = 1_000_000;
    let mut last: u64 = 0;
    for _ in 0..40 {
        last = ema.feed(target);
    }
    assert!(target - last <= 1);
    let again = ema.feed(target);
    assert!(target - again <= 1);
}

#[test]
fn test_ema_reset() {
    let mut ema = Ema::new(500_000);
    ema.feed(1_000_000);
    ema.feed(2_000_000);
    ema.reset();
    // After a reset the next observation is emitted verbatim again.
    assert_eq!(ema.feed(300), 300);
}

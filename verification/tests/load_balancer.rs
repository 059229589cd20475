use zerg_pool::balancer::WeightCalculator;

#[test]
fn test_weight_calculation_boundary() {
    let mut calculator = WeightCalculator::new(500_000);

    // Idle CPU and memory with the worst latency score exactly zero.
    let min_weight = calculator.calculate(0, 0, 1000);
    assert_eq!(min_weight, 0);

    // Full load converges to full scale after the averages settle.
    for _ in 0..10 {
        calculator.calculate(1_000_000, 1_000_000, 0);
    }
    let max_weight = calculator.calculate(1_000_000, 1_000_000, 0);
    assert!(1_000_000 - max_weight <= 1_000);
}

#[test]
fn test_weight_calculation_normal() {
    let mut calculator = WeightCalculator::new(500_000);

    // 200 ms latency scores 0.8; first observations pass through the
    // averages verbatim, so the blend is exact:
    // 0.6 * 0.8 + 0.3 * 0.5 + 0.1 * 0.8 = 0.71.
    let weight = calculator.calculate(800_000, 500_000, 200);
    assert_eq!(weight, 710_000);
}

#[test]
fn test_weight_calculation_extreme() {
    let mut calculator = WeightCalculator::new(500_000);

    // 500 ms latency scores 0.5: 0.6 * 0.9 + 0.3 * 0.1 + 0.1 * 0.5 = 0.62.
    let weight = calculator.calculate(900_000, 100_000, 500);
    assert_eq!(weight, 620_000);
}

#[test]
fn test_ema_smoothing_effect() {
    // A low coefficient makes the smoothing visible.
    let mut calculator = WeightCalculator::new(200_000);

    let w1 = calculator.calculate(500_000, 500_000, 500);
    let w2 = calculator.calculate(1_000_000, 1_000_000, 0);

    // Smoothing keeps the score from jumping straight to full load,
    // but it moves towards the new level.
    assert!(w2 < 1_000_000);
    assert!(w2 > w1);
}

#[test]
fn test_latency_contribution_boundaries() {
    // Zero latency contributes the full network score to its average;
    // latency at or beyond one second contributes nothing.
    let mut at_zero = WeightCalculator::new(500_000);
    let w_zero = at_zero.calculate(0, 0, 0);
    assert_eq!(w_zero, 100_000);

    let mut at_cap = WeightCalculator::new(500_000);
    let w_cap = at_cap.calculate(0, 0, 1000);
    assert_eq!(w_cap, 0);

    let mut beyond_cap = WeightCalculator::new(500_000);
    let w_beyond = beyond_cap.calculate(0, 0, 60_000);
    assert_eq!(w_beyond, 0);
}

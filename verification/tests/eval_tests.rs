use hypha::eval::DeliveryMetrics;

#[test]
fn test_percentile_calculation() {
    let mut metrics = DeliveryMetrics::default();
    // 100 samples from 1000us to 100000us
    metrics.latencies_us = (1..=100).map(|i| i * 1000).collect();

    let p50 = metrics.p50().unwrap();
    assert!(p50 >= 49000 && p50 <= 52000, "p50 was {}", p50);

    let p90 = metrics.p90().unwrap();
    assert!(p90 >= 89000 && p90 <= 92000, "p90 was {}", p90);

    let p99 = metrics.p99().unwrap();
    assert!(p99 >= 98000 && p99 <= 100000, "p99 was {}", p99);
}

#[test]
fn test_delivery_rate() {
    let mut metrics = DeliveryMetrics::default();
    metrics.expected_deliveries = 100;
    metrics.messages_delivered = 95;

    let rate = metrics.delivery_rate();
    assert!(rate.abs_diff(950_000) < 1_000, "rate was {}", rate);
    assert_eq!(rate, 950_000);
}

#[test]
fn test_percentile_ranks_are_exact() {
    let mut metrics = DeliveryMetrics::default();
    assert_eq!(metrics.p50(), None);
    assert_eq!(metrics.percentile(0), None);
    // unsorted on purpose
    metrics.latencies_us = (1..=100).rev().map(|i| i * 1000).collect();
    assert_eq!(metrics.p50(), Some(51_000));
    assert_eq!(metrics.p90(), Some(90_000));
    assert_eq!(metrics.p99(), Some(99_000));
    assert_eq!(metrics.p999(), Some(100_000));
    assert_eq!(metrics.percentile(0), Some(1_000));
    assert_eq!(metrics.percentile(100_000_000), Some(100_000));
    // 0.5 % of 99 ranks is 0.495: rank 0; 0.6 % is 0.594: rank 1
    assert_eq!(metrics.percentile(500_000), Some(1_000));
    assert_eq!(metrics.percentile(600_000), Some(2_000));
    metrics.latencies_us = vec![7];
    assert_eq!(metrics.p999(), Some(7));
    metrics.latencies_us = vec![9, 3];
    assert_eq!(metrics.p50(), Some(9));
    assert_eq!(metrics.percentile(49_999_999), Some(3));
}

#[test]
fn test_delivery_rate_edges() {
    let mut metrics = DeliveryMetrics::default();
    assert_eq!(metrics.delivery_rate(), 0);
    metrics.messages_delivered = 5;
    assert_eq!(metrics.delivery_rate(), 0);
    metrics.expected_deliveries = 3;
    assert_eq!(metrics.delivery_rate(), 1_000_000);
    metrics.expected_deliveries = 15;
    assert_eq!(metrics.delivery_rate(), 333_333);
    metrics.messages_delivered = u64::MAX;
    metrics.expected_deliveries = u64::MAX;
    assert_eq!(metrics.delivery_rate(), 1_000_000);
}

#[test]
fn test_latency_distribution() {
    let mut metrics = DeliveryMetrics::default();
    assert!(metrics.cdf(4).is_empty());
    assert!(metrics.cdf(0).is_empty());
    assert_eq!(metrics.max_latency(), 0);
    metrics.latencies_us = vec![10, 40, 20, 30, 40];
    assert_eq!(metrics.max_latency(), 40);
    assert_eq!(metrics.within(20), 2);
    assert_eq!(metrics.within(9), 0);
    assert_eq!(
        metrics.cdf(4),
        vec![(10, 200_000), (20, 400_000), (30, 600_000), (40, 1_000_000)]
    );
    // more steps than microseconds: each step is one microsecond wide
    metrics.latencies_us = vec![2, 1, 2];
    assert_eq!(metrics.cdf(3), vec![(1, 333_333), (2, 1_000_000), (3, 1_000_000)]);
}

#[test]
fn test_delivery_counters() {
    let mut metrics = DeliveryMetrics::default();
    metrics.record_publish(4);
    metrics.record_publish(4);
    assert_eq!(metrics.messages_published, 2);
    assert_eq!(metrics.expected_deliveries, 8);
    metrics.record_delivery(50_000);
    metrics.record_delivery(10);
    assert_eq!(metrics.messages_delivered, 2);
    assert_eq!(metrics.latencies_us, vec![50_000, 10]);
    assert_eq!(metrics.delivery_rate(), 250_000);
    metrics.set_expected_deliveries(3);
    assert_eq!(metrics.expected_deliveries, 6);
    metrics.messages_published = u64::MAX;
    metrics.set_expected_deliveries(2);
    assert_eq!(metrics.expected_deliveries, u64::MAX);
    metrics.record_publish(1);
    assert_eq!(metrics.messages_published, u64::MAX);
}

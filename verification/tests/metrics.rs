use ws_latency_monitor::band::{band_of, Band, Ratio, Spread};
use ws_latency_monitor::metrics::Metrics;
use ws_latency_monitor::stats::Percent;
use ws_latency_monitor::wide::Wide;

fn filled(window: usize, samples: &[u64]) -> Metrics {
    let mut m = Metrics::new(window);
    for ns in samples {
        m.push(*ns);
    }
    m
}

fn whole(num: i32) -> Percent {
    Percent { num, den: 1 }
}

fn millis(r: Ratio) -> f64 {
    r.num as f64 / r.den as f64 / 1e6
}

#[test]
fn new_metrics_are_empty() {
    let m = Metrics::new(3);
    assert!(m.is_empty());
    assert_eq!(m.min(), None);
    assert_eq!(m.max(), None);
    assert_eq!(m.avg(), Ratio { num: 0, den: 1 });
    assert_eq!(m.percentile(whole(50)), 0);
    assert_eq!(m.jitter(), Spread { num: Wide { hi: 0, lo: 0 }, den: 1 });
    assert_eq!(m.loss_pct(), Ratio { num: 0, den: 1 });
    assert_eq!((m.total_sent(), m.timeouts(), m.reconnects(), m.connected()), (0, 0, 0, false));
}

#[test]
fn the_window_keeps_the_latest() {
    let m = filled(3, &[5, 1, 4, 2, 3]);
    assert_eq!(m.samples(), vec![4, 2, 3]);
    assert_eq!(m.total_sent(), 5);
    assert!(!m.is_empty());
}

#[test]
fn a_window_of_zero_keeps_nothing() {
    let mut m = filled(0, &[5, 1, 4]);
    assert!(m.is_empty());
    assert_eq!((m.samples(), m.min(), m.percentile(whole(50))), (vec![], None, 0));
    m.push_timeout();
    assert_eq!((m.total_sent(), m.timeouts()), (4, 1));
}

#[test]
fn a_window_of_one_keeps_the_last() {
    let m = filled(1, &[5, 1, 4]);
    assert_eq!(m.samples(), vec![4]);
}

#[test]
fn extremes_and_mean() {
    let m = filled(10, &[30_000_000, 10_000_000, 25_000_000]);
    assert_eq!(m.min(), Some(10_000_000));
    assert_eq!(m.max(), Some(30_000_000));
    assert_eq!(m.avg(), Ratio { num: 65_000_000, den: 3 });
    assert!((millis(m.avg()) - 21.666_666_666).abs() < 1e-6);
}

#[test]
fn percentiles_of_ten() {
    let m = filled(10, &[7, 3, 10, 1, 5, 9, 2, 8, 6, 4]);
    assert_eq!(m.percentile(whole(-5)), 1);
    assert_eq!(m.percentile(whole(i32::MIN)), 1);
    assert_eq!(m.percentile(whole(0)), 1);
    assert_eq!(m.percentile(whole(50)), 6);
    assert_eq!(m.percentile(whole(95)), 10);
    assert_eq!(m.percentile(whole(99)), 10);
    assert_eq!(m.percentile(whole(100)), 10);
    assert_eq!(m.percentile(whole(250)), 10);
    assert_eq!(m.percentile(whole(i32::MAX)), 10);
    assert_eq!(m.percentile(Percent { num: 333, den: 10 }), 4);
    // The window is left in its order.
    assert_eq!(m.samples()[0], 7);
}

#[test]
fn percentiles_of_a_hundred() {
    let samples: Vec<u64> = (1..=100).rev().collect();
    let m = filled(100, &samples);
    assert_eq!(m.percentile(whole(50)), 51);
    assert_eq!(m.percentile(whole(95)), 95);
    assert_eq!(m.percentile(whole(99)), 99);
}

#[test]
fn percentile_indices_agree_with_floating_point() {
    for len in 1..=700u64 {
        let samples: Vec<u64> = (0..len).collect();
        let m = filled(1000, &samples);
        for p in [50i32, 95, 99] {
            let index = ((f64::from(p) / 100.0) * (len - 1) as f64).round() as u64;
            assert_eq!(m.percentile(whole(p)), index.min(len - 1));
        }
    }
}

#[test]
fn percentile_of_one() {
    let m = filled(10, &[42]);
    assert_eq!(m.percentile(whole(50)), 42);
    assert_eq!(m.percentile(whole(99)), 42);
}

#[test]
fn jitter_is_the_standard_deviation() {
    let m = filled(10, &[1, 2, 3, 4]);
    assert_eq!(m.jitter(), Spread { num: Wide { hi: 0, lo: 20 }, den: 16 });
    let m = filled(10, &[2, 4, 4, 4, 5, 5, 7, 9]);
    assert_eq!(m.jitter(), Spread { num: Wide { hi: 0, lo: 256 }, den: 64 });
    let m = filled(10, &[8, 8, 8]);
    assert_eq!(m.jitter(), Spread { num: Wide { hi: 0, lo: 0 }, den: 9 });
    let m = filled(10, &[8]);
    assert_eq!(m.jitter(), Spread { num: Wide { hi: 0, lo: 0 }, den: 1 });
}

#[test]
fn jitter_of_the_largest_samples() {
    let m = filled(10, &[u64::MAX, u64::MAX, 0]);
    let lo = u128::MAX - (1u128 << 66) + 3;
    assert_eq!(m.jitter(), Spread { num: Wide { hi: 1, lo }, den: 9 });
}

#[test]
fn loss_is_a_share_of_all_pings() {
    let mut m = filled(2, &[1, 2, 3]);
    assert_eq!(m.loss_pct(), Ratio { num: 0, den: 3 });
    m.push_timeout();
    assert_eq!(m.loss_pct(), Ratio { num: 100, den: 4 });
    assert_eq!((m.total_sent(), m.timeouts()), (4, 1));
    assert_eq!(m.samples(), vec![2, 3]);
}

#[test]
fn sessions_are_counted() {
    let mut m = Metrics::new(2);
    m.set_connected();
    assert!(m.connected());
    m.set_disconnected();
    m.set_disconnected();
    assert!(!m.connected());
    assert_eq!(m.reconnects(), 2);
}

#[test]
fn bands_of_latencies() {
    assert_eq!(band_of(0), Band::Fast);
    assert_eq!(band_of(49_999_999), Band::Fast);
    assert_eq!(band_of(50_000_000), Band::Fair);
    assert_eq!(band_of(149_999_999), Band::Fair);
    assert_eq!(band_of(150_000_000), Band::Slow);
    assert_eq!(band_of(u64::MAX), Band::Slow);
}

#[test]
fn bands_of_fractions_and_deviations() {
    assert_eq!(Ratio { num: 149_999_999, den: 3 }.band(), Band::Fast);
    assert_eq!(Ratio { num: 150_000_000, den: 3 }.band(), Band::Fair);
    assert_eq!(Ratio { num: 450_000_000, den: 3 }.band(), Band::Slow);
    assert_eq!(Ratio { num: u128::MAX, den: u128::MAX }.band(), Band::Fast);
    let squared = |ns: u128, den: u128| Spread { num: Wide::product(ns * ns, den), den };
    assert_eq!(squared(49_999_999, 7).band(), Band::Fast);
    assert_eq!(squared(50_000_000, 7).band(), Band::Fair);
    assert_eq!(squared(149_999_999, 7).band(), Band::Fair);
    assert_eq!(squared(150_000_000, 7).band(), Band::Slow);
}

#[test]
fn wide_products_and_sums() {
    assert_eq!(Wide::product(u128::MAX, u128::MAX), Wide { hi: u128::MAX - 1, lo: 1 });
    assert_eq!(Wide::product(1 << 64, 1 << 64), Wide { hi: 1, lo: 0 });
    assert_eq!(Wide::product(6, 7), Wide { hi: 0, lo: 42 });
    let a = Wide { hi: 1, lo: u128::MAX };
    let b = Wide { hi: 2, lo: 5 };
    assert_eq!(a.plus(b), Wide { hi: 4, lo: 4 });
    assert_eq!(Wide { hi: 4, lo: 4 }.minus(b), a);
    assert_eq!(Wide { hi: 0, lo: 9 }.plus(Wide { hi: 0, lo: 1 }), Wide { hi: 0, lo: 10 });
    assert!(a.less_than(b));
    assert!(!b.less_than(a));
    assert!(!a.less_than(a));
}

#[test]
fn statistics_lie_in_order() {
    let m = filled(50, &[90, 3, 77, 12, 12, 64, 5]);
    let (least, most) = (m.min().unwrap(), m.max().unwrap());
    let avg = m.avg();
    assert!(u128::from(least) * avg.den <= avg.num && avg.num <= u128::from(most) * avg.den);
    assert_eq!(m.percentile(whole(0)), least);
    assert_eq!(m.percentile(whole(100)), most);
    for p in 0..100i32 {
        assert!(m.percentile(whole(p)) <= m.percentile(whole(p + 1)));
        assert!(m.samples().contains(&m.percentile(whole(p))));
    }
}

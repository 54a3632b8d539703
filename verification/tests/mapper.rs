//! Tests of the metrics mapper: present fields map one to one, absent
//! fields emit nothing, and the exit status is always observed.

use callipe::metrics::{MetricName, MetricValue, Observation};
use callipe::parse::ProbeResult;

fn partial_result() -> ProbeResult {
    ProbeResult {
        transmitted: Some(10),
        received: Some(0),
        packet_loss_micro_percent: Some(100_000_000),
        elapsed_time_ms: Some(9244),
        rtt_min_micro_ms: None,
        rtt_avg_micro_ms: None,
        rtt_max_micro_ms: None,
        rtt_mdev_micro_ms: None,
    }
}

#[test]
fn absent_fields_emit_no_observation() {
    let obs = callipe::metrics::map(&partial_result(), Some(1));
    for name in [
        MetricName::RttMinMs,
        MetricName::RttAvgMs,
        MetricName::RttMaxMs,
        MetricName::RttMdevMs,
    ] {
        assert!(obs.iter().all(|o| o.name != name));
    }
}

#[test]
fn present_fields_emit_exactly_their_value() {
    let obs = callipe::metrics::map(&partial_result(), Some(1));
    assert_eq!(
        obs,
        vec![
            Observation {
                name: MetricName::PacketsTransmitted,
                value: MetricValue::Count(10),
            },
            Observation {
                name: MetricName::PacketsReceived,
                value: MetricValue::Count(0),
            },
            Observation {
                name: MetricName::PacketLossPercent,
                value: MetricValue::Micro(100_000_000),
            },
            Observation {
                name: MetricName::ElapsedTimeMs,
                value: MetricValue::Count(9244),
            },
            Observation {
                name: MetricName::ExitStatus,
                value: MetricValue::Status(1),
            },
        ]
    );
}

#[test]
fn all_absent_still_observes_exit_status() {
    let empty = ProbeResult {
        transmitted: None,
        received: None,
        packet_loss_micro_percent: None,
        elapsed_time_ms: None,
        rtt_min_micro_ms: None,
        rtt_avg_micro_ms: None,
        rtt_max_micro_ms: None,
        rtt_mdev_micro_ms: None,
    };
    let obs = callipe::metrics::map(&empty, Some(0));
    assert_eq!(
        obs,
        vec![Observation {
            name: MetricName::ExitStatus,
            value: MetricValue::Status(0),
        }]
    );
}

#[test]
fn unknown_exit_code_observes_the_sentinel() {
    let empty = ProbeResult {
        transmitted: None,
        received: None,
        packet_loss_micro_percent: None,
        elapsed_time_ms: None,
        rtt_min_micro_ms: None,
        rtt_avg_micro_ms: None,
        rtt_max_micro_ms: None,
        rtt_mdev_micro_ms: None,
    };
    let obs = callipe::metrics::map(&empty, None);
    assert_eq!(
        obs,
        vec![Observation {
            name: MetricName::ExitStatus,
            value: MetricValue::Status(-1),
        }]
    );
}

#[test]
fn metric_names_are_stable_and_prefixed() {
    let names = [
        (MetricName::PacketsTransmitted, "ping_packets_transmitted"),
        (MetricName::PacketsReceived, "ping_packets_received"),
        (MetricName::PacketLossPercent, "ping_packet_loss_percent"),
        (MetricName::ElapsedTimeMs, "ping_elapsed_time_ms"),
        (MetricName::RttMinMs, "ping_rtt_min_ms"),
        (MetricName::RttAvgMs, "ping_rtt_avg_ms"),
        (MetricName::RttMaxMs, "ping_rtt_max_ms"),
        (MetricName::RttMdevMs, "ping_rtt_mdev_ms"),
        (MetricName::ExitStatus, "ping_exit_status"),
    ];
    for (name, text) in names {
        assert_eq!(name.text(), text);
        assert!(text.starts_with("ping_"));
    }
}

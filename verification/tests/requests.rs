//! Tests of request validation, target classification, the rendered
//! command arguments, and the output-to-observations pipeline.

use callipe::metrics::{MetricName, MetricValue, Observation};
use callipe::parse::{ParseError, RawProbeOutput};
use callipe::request::{
    command_args, observations_for_output, validate_request, ClientInputError, ProbeTarget,
};
use callipe::settings::{CollectorPlan, Input};

#[test]
fn missing_target_is_a_client_error() {
    assert_eq!(
        validate_request(None, None),
        Err(ClientInputError::MissingTarget)
    );
}

#[test]
fn empty_target_is_a_client_error() {
    assert_eq!(
        validate_request(Some(vec![]), None),
        Err(ClientInputError::EmptyTarget)
    );
}

#[test]
fn zero_count_is_a_client_error() {
    assert_eq!(
        validate_request(Some(b"example.com".to_vec()), Some(0)),
        Err(ClientInputError::NonPositiveCount)
    );
}

#[test]
fn negative_count_is_a_client_error() {
    assert_eq!(
        validate_request(Some(b"example.com".to_vec()), Some(-3)),
        Err(ClientInputError::NonPositiveCount)
    );
}

#[test]
fn count_defaults_to_one() {
    let req = validate_request(Some(b"example.com".to_vec()), None).unwrap();
    assert_eq!(req.count, 1);
}

#[test]
fn address_literals_are_classified_as_addresses() {
    let req = validate_request(Some(b"1.1.1.1".to_vec()), Some(4)).unwrap();
    assert_eq!(req.target, ProbeTarget::Address(b"1.1.1.1".to_vec()));
    assert_eq!(req.count, 4);
}

#[test]
fn other_targets_fall_back_to_hostnames() {
    for text in [
        &b"example.com"[..],
        b"256.1.1.1",
        b"01.2.3.4",
        b"1.2.3",
        b"1.2.3.4.5",
        b"2001:db8::1",
    ] {
        let req = validate_request(Some(text.to_vec()), None).unwrap();
        assert_eq!(req.target, ProbeTarget::Hostname(text.to_vec()));
    }
}

#[test]
fn command_arguments_render_count_and_target() {
    let req = validate_request(Some(b"8.8.8.8".to_vec()), Some(10)).unwrap();
    let args = command_args(&req);
    assert_eq!(
        args,
        vec![
            b"-q".to_vec(),
            b"-c".to_vec(),
            b"10".to_vec(),
            b"8.8.8.8".to_vec(),
        ]
    );
}

#[test]
fn pipeline_maps_a_successful_probe() {
    let output = RawProbeOutput {
        exit_code: Some(0),
        stdout: b"PING 1.1.1.1 (1.1.1.1) 56(84) bytes of data.\n\
\n\
--- 1.1.1.1 ping statistics ---\n\
1 packets transmitted, 1 received, 0% packet loss, time 0ms\n\
rtt min/avg/max/mdev = 7.537/7.537/7.537/0.000 ms\n"
            .to_vec(),
    };
    let obs = observations_for_output(&output).unwrap();
    assert_eq!(
        obs,
        vec![
            Observation {
                name: MetricName::PacketsTransmitted,
                value: MetricValue::Count(1),
            },
            Observation {
                name: MetricName::PacketsReceived,
                value: MetricValue::Count(1),
            },
            Observation {
                name: MetricName::PacketLossPercent,
                value: MetricValue::Micro(0),
            },
            Observation {
                name: MetricName::ElapsedTimeMs,
                value: MetricValue::Count(0),
            },
            Observation {
                name: MetricName::RttMinMs,
                value: MetricValue::Micro(7_537_000),
            },
            Observation {
                name: MetricName::RttAvgMs,
                value: MetricValue::Micro(7_537_000),
            },
            Observation {
                name: MetricName::RttMaxMs,
                value: MetricValue::Micro(7_537_000),
            },
            Observation {
                name: MetricName::RttMdevMs,
                value: MetricValue::Micro(0),
            },
            Observation {
                name: MetricName::ExitStatus,
                value: MetricValue::Status(0),
            },
        ]
    );
}

#[test]
fn pipeline_fails_the_probe_on_an_unrecognized_line() {
    let output = RawProbeOutput {
        exit_code: Some(0),
        stdout: b"garbage output here\n".to_vec(),
    };
    assert!(matches!(
        observations_for_output(&output),
        Err(ParseError::UnrecognizedLine { .. })
    ));
}

#[test]
fn input_dispatch_names_its_collector() {
    let input = Input::Cpu {
        per_cpu: true,
        total_cpu: false,
    };
    assert_eq!(
        input.run(),
        Ok(CollectorPlan::Cpu {
            per_cpu: true,
            total_cpu: false,
        })
    );
}

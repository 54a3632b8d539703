//! Tests of the output parser: the spec scenarios, the tool's output
//! variants, and the failure paths.

use callipe::parse::{parse, ParseError, ProbeResult};

fn all_absent() -> ProbeResult {
    ProbeResult {
        transmitted: None,
        received: None,
        packet_loss_micro_percent: None,
        elapsed_time_ms: None,
        rtt_min_micro_ms: None,
        rtt_avg_micro_ms: None,
        rtt_max_micro_ms: None,
        rtt_mdev_micro_ms: None,
    }
}

#[test]
fn single_probe_block() {
    let text = b"PING 1.1.1.1 (1.1.1.1) 56(84) bytes of data.\n\
\n\
--- 1.1.1.1 ping statistics ---\n\
1 packets transmitted, 1 received, 0% packet loss, time 0ms\n\
rtt min/avg/max/mdev = 7.537/7.537/7.537/0.000 ms\n";
    let r = parse(text).unwrap();
    assert_eq!(r.transmitted, Some(1));
    assert_eq!(r.received, Some(1));
    assert_eq!(r.packet_loss_micro_percent, Some(0));
    assert_eq!(r.elapsed_time_ms, Some(0));
    assert_eq!(r.rtt_min_micro_ms, Some(7_537_000));
    assert_eq!(r.rtt_avg_micro_ms, Some(7_537_000));
    assert_eq!(r.rtt_max_micro_ms, Some(7_537_000));
    assert_eq!(r.rtt_mdev_micro_ms, Some(0));
}

#[test]
fn ten_probe_block() {
    let text = b"PING 8.8.8.8 (8.8.8.8) 56(84) bytes of data.\n\
\n\
--- 8.8.8.8 ping statistics ---\n\
10 packets transmitted, 10 received, 0% packet loss, time 9011ms\n\
rtt min/avg/max/mdev = 7.427/7.654/7.936/0.169 ms\n";
    let r = parse(text).unwrap();
    assert_eq!(r.transmitted, Some(10));
    assert_eq!(r.received, Some(10));
    assert_eq!(r.packet_loss_micro_percent, Some(0));
    assert_eq!(r.elapsed_time_ms, Some(9011));
    assert_eq!(r.rtt_min_micro_ms, Some(7_427_000));
    assert_eq!(r.rtt_avg_micro_ms, Some(7_654_000));
    assert_eq!(r.rtt_max_micro_ms, Some(7_936_000));
    assert_eq!(r.rtt_mdev_micro_ms, Some(169_000));
}

#[test]
fn full_loss_block() {
    let text = b"PING 192.0.2.1 (192.0.2.1) 56(84) bytes of data.\n\
\n\
--- 192.0.2.1 ping statistics ---\n\
10 packets transmitted, 0 received, 100% packet loss, time 9244ms\n";
    let r = parse(text).unwrap();
    assert_eq!(r.transmitted, Some(10));
    assert_eq!(r.received, Some(0));
    assert_eq!(r.packet_loss_micro_percent, Some(100_000_000));
    assert_eq!(r.elapsed_time_ms, Some(9244));
    assert_eq!(r.rtt_min_micro_ms, None);
    assert_eq!(r.rtt_avg_micro_ms, None);
    assert_eq!(r.rtt_max_micro_ms, None);
    assert_eq!(r.rtt_mdev_micro_ms, None);
}

#[test]
fn empty_output_is_all_absent() {
    let r = parse(b"").unwrap();
    assert_eq!(r, all_absent());
}

#[test]
fn garbage_line_is_unrecognized() {
    let text = b"PING 1.1.1.1 (1.1.1.1) 56(84) bytes of data.\n\
garbage output here\n\
--- 1.1.1.1 ping statistics ---\n\
1 packets transmitted, 1 received, 0% packet loss, time 0ms\n";
    match parse(text) {
        Err(ParseError::UnrecognizedLine { line }) => {
            assert_eq!(line, b"garbage output here".to_vec());
        }
        other => panic!("expected an unrecognized line, got {:?}", other),
    }
}

#[test]
fn parsing_twice_yields_equal_results() {
    let text = b"PING 1.1.1.1 (1.1.1.1) 56(84) bytes of data.\n\
\n\
--- 1.1.1.1 ping statistics ---\n\
1 packets transmitted, 1 received, 0% packet loss, time 0ms\n\
rtt min/avg/max/mdev = 7.537/7.537/7.537/0.000 ms\n";
    assert_eq!(parse(text), parse(text));
}

#[test]
fn no_time_variant_leaves_elapsed_absent() {
    let text = b"PING6 2001:db8::1\n\
--- 2001:db8::1 ping6 statistics ---\n\
10 packets transmitted, 10 packets received, 0.0% packet loss\n\
round-trip min/avg/max/std-dev = 0.294/0.327/0.390/0.031 ms\n";
    let r = parse(text).unwrap();
    assert_eq!(r.transmitted, Some(10));
    assert_eq!(r.received, Some(10));
    assert_eq!(r.packet_loss_micro_percent, Some(0));
    assert_eq!(r.elapsed_time_ms, None);
    assert_eq!(r.rtt_min_micro_ms, Some(294_000));
    assert_eq!(r.rtt_avg_micro_ms, Some(327_000));
    assert_eq!(r.rtt_max_micro_ms, Some(390_000));
    assert_eq!(r.rtt_mdev_micro_ms, Some(31_000));
}

#[test]
fn fractional_loss_is_carried_exactly() {
    let text = b"3 packets transmitted, 2 packets received, 33.3% packet loss\n";
    let r = parse(text).unwrap();
    assert_eq!(r.transmitted, Some(3));
    assert_eq!(r.received, Some(2));
    assert_eq!(r.packet_loss_micro_percent, Some(33_300_000));
    assert_eq!(r.elapsed_time_ms, None);
}

#[test]
fn malformed_count_is_reported_with_the_line() {
    let text = b"x packets transmitted, 1 received, 0% packet loss, time 0ms\n";
    match parse(text) {
        Err(ParseError::MalformedLine { line }) => {
            assert_eq!(
                line,
                b"x packets transmitted, 1 received, 0% packet loss, time 0ms".to_vec()
            );
        }
        other => panic!("expected a malformed line, got {:?}", other),
    }
}

#[test]
fn malformed_latency_value_fails() {
    let text = b"rtt min/avg/max/mdev = 7.537/oops/7.537/0.000 ms\n";
    assert!(matches!(
        parse(text),
        Err(ParseError::MalformedLine { .. })
    ));
}

#[test]
fn too_many_latency_values_fail() {
    let text = b"rtt min/avg/max/mdev = 1.0/2.0/3.0/4.0/5.0 ms\n";
    assert!(matches!(
        parse(text),
        Err(ParseError::MalformedLine { .. })
    ));
}

#[test]
fn short_latency_list_leaves_trailing_fields_absent() {
    let text = b"rtt min/avg/max/mdev = 1.5/2.25 ms\n";
    let r = parse(text).unwrap();
    assert_eq!(r.rtt_min_micro_ms, Some(1_500_000));
    assert_eq!(r.rtt_avg_micro_ms, Some(2_250_000));
    assert_eq!(r.rtt_max_micro_ms, None);
    assert_eq!(r.rtt_mdev_micro_ms, None);
}

#[test]
fn carriage_returns_are_stripped() {
    let text = b"1 packets transmitted, 1 received, 0% packet loss, time 3ms\r\n";
    let r = parse(text).unwrap();
    assert_eq!(r.transmitted, Some(1));
    assert_eq!(r.elapsed_time_ms, Some(3));
}

#[test]
fn blank_and_tab_lines_are_ignored() {
    let text = b" \t \n\n1 packets transmitted, 1 received, 0% packet loss, time 3ms\n";
    let r = parse(text).unwrap();
    assert_eq!(r.transmitted, Some(1));
}

//! The output parser: classifies each line of captured probe output and
//! folds the recognized lines into a [`ProbeResult`].
//!
//! The text is processed line by line, because the external tool's variants
//! interleave a varying number of benign banner and header lines with the two
//! information-bearing ones. Each line's whitespace-separated fields are
//! matched against a small fixed set of shapes; a line whose shape is known
//! but whose numeric payload does not parse is a malformed line, and a line
//! matching no shape at all is an unrecognized line. Both stop the parse and
//! carry the offending line verbatim.

use crate::scan::{
    bytes_eq, copy_bytes, parse_decimal_micro, parse_u64, spec_fields, spec_lines,
    spec_parse_decimal_micro, spec_parse_u64, spec_split, split_fields, split_lines, split_sep,
    views_of,
};
use vstd::prelude::*;

verus! {

/// `'%'`: closes the packet-loss field.
pub const BYTE_PERCENT: u8 = 37;

/// `'/'`: separates the four latency values.
pub const BYTE_SLASH: u8 = 47;

/// `'m'`: first byte of the `ms` unit suffix.
pub const BYTE_M: u8 = 109;

/// `'s'`: second byte of the `ms` unit suffix.
pub const BYTE_S: u8 = 115;

/// `"PING"`: the banner that opens a probe report.
pub const KW_BANNER: [u8; 4] = [80, 73, 78, 71];

/// `"PING6"`: the banner of the IPv6 tool variant.
pub const KW_BANNER6: [u8; 5] = [80, 73, 78, 71, 54];

/// `"---"`: the frame of the statistics section header.
pub const KW_DASHES: [u8; 3] = [45, 45, 45];

/// `"ping"`: the probe name inside the section header.
pub const KW_PING: [u8; 4] = [112, 105, 110, 103];

/// `"ping6"`: the IPv6 probe name inside the section header.
pub const KW_PING6: [u8; 5] = [112, 105, 110, 103, 54];

/// `"statistics"`: the last word of the section header.
pub const KW_STATISTICS: [u8; 10] = [115, 116, 97, 116, 105, 115, 116, 105, 99, 115];

/// `"packets"`: the word after the transmitted count.
pub const KW_PACKETS: [u8; 7] = [112, 97, 99, 107, 101, 116, 115];

/// `"transmitted,"`: the label of the transmitted count.
pub const KW_TRANSMITTED: [u8; 12] = [116, 114, 97, 110, 115, 109, 105, 116, 116, 101, 100, 44];

/// `"received,"`: the label of the received count.
pub const KW_RECEIVED: [u8; 9] = [114, 101, 99, 101, 105, 118, 101, 100, 44];

/// `"packet"`: the first word of the loss label.
pub const KW_PACKET: [u8; 6] = [112, 97, 99, 107, 101, 116];

/// `"loss,"`: the loss label when a time field follows.
pub const KW_LOSS_COMMA: [u8; 5] = [108, 111, 115, 115, 44];

/// `"loss"`: the loss label when the line ends there.
pub const KW_LOSS: [u8; 4] = [108, 111, 115, 115];

/// `"time"`: the label of the elapsed-time field.
pub const KW_TIME: [u8; 4] = [116, 105, 109, 101];

/// `"rtt"`: the label that opens the latency line.
pub const KW_RTT: [u8; 3] = [114, 116, 116];

/// `"round-trip"`: the vendor spelling of the latency label.
pub const KW_ROUND_TRIP: [u8; 10] = [114, 111, 117, 110, 100, 45, 116, 114, 105, 112];

/// `"min/avg/max/mdev"`: the latency column names.
pub const KW_RTT_FIELDS: [u8; 16] = [
    109,
    105,
    110,
    47,
    97,
    118,
    103,
    47,
    109,
    97,
    120,
    47,
    109,
    100,
    101,
    118,
];

/// `"min/avg/max/std-dev"`: the vendor spelling of the latency column names.
pub const KW_RTT_FIELDS_ALT: [u8; 19] = [
    109,
    105,
    110,
    47,
    97,
    118,
    103,
    47,
    109,
    97,
    120,
    47,
    115,
    116,
    100,
    45,
    100,
    101,
    118,
];

/// `"="`: the separator before the latency values.
pub const KW_EQUALS: [u8; 1] = [61];

/// `"ms"`: the unit that closes the latency line.
pub const KW_MS: [u8; 2] = [109, 115];

/// The structured outcome of one probe: every field is independently
/// present or absent. Absence means the line class carrying the field was
/// not found in the output — not zero. A result with every field absent is
/// valid; empty output produces one.
///
/// Fractional values are carried as integers in millionths of their unit:
/// packet loss in millionths of a percent, and the four round-trip-time
/// statistics in millionths of a millisecond.
#[derive(Debug, Clone, Copy, PartialEq, Eq)]
pub struct ProbeResult {
    /// Probes sent.
    pub transmitted: Option<u64>,
    /// Replies received.
    pub received: Option<u64>,
    /// Packet loss, in millionths of a percent.
    pub packet_loss_micro_percent: Option<u64>,
    /// Total elapsed time, in whole milliseconds.
    pub elapsed_time_ms: Option<u64>,
    /// Least round-trip time, in millionths of a millisecond.
    pub rtt_min_micro_ms: Option<u64>,
    /// Mean round-trip time, in millionths of a millisecond.
    pub rtt_avg_micro_ms: Option<u64>,
    /// Greatest round-trip time, in millionths of a millisecond.
    pub rtt_max_micro_ms: Option<u64>,
    /// Round-trip-time deviation, in millionths of a millisecond.
    pub rtt_mdev_micro_ms: Option<u64>,
}

/// What the external process handed back: its exit code, absent when the
/// process was ended by a signal, and the captured standard output.
#[derive(Debug, Clone, PartialEq, Eq)]
pub struct RawProbeOutput {
    /// The exit code, when the process exited normally.
    pub exit_code: Option<i32>,
    /// The captured standard output, as raw bytes.
    pub stdout: Vec<u8>,
}

/// Why a parse stopped, with the offending line verbatim.
#[derive(Debug, Clone, PartialEq, Eq)]
pub enum ParseError {
    /// A line matched a known shape but a numeric payload did not parse.
    MalformedLine { line: Vec<u8> },
    /// A line matched no known shape.
    UnrecognizedLine { line: Vec<u8> },
}

/// The specification-level form of [`ParseError`].
pub enum ParseErrorView {
    /// See [`ParseError::MalformedLine`].
    Malformed { line: Seq<u8> },
    /// See [`ParseError::UnrecognizedLine`].
    Unrecognized { line: Seq<u8> },
}

impl View for ParseError {
    type V = ParseErrorView;

    open spec fn view(&self) -> ParseErrorView {
        match self {
            ParseError::MalformedLine { line } => ParseErrorView::Malformed { line: line@ },
            ParseError::UnrecognizedLine { line } => ParseErrorView::Unrecognized { line: line@ },
        }
    }
}

impl ProbeResult {
    /// The result with every field absent.
    pub open spec fn spec_empty() -> ProbeResult {
        ProbeResult {
            transmitted: None,
            received: None,
            packet_loss_micro_percent: None,
            elapsed_time_ms: None,
            rtt_min_micro_ms: None,
            rtt_avg_micro_ms: None,
            rtt_max_micro_ms: None,
            rtt_mdev_micro_ms: None,
        }
    }

    /// Builds the result with every field absent.
    pub fn empty() -> (r: ProbeResult)
        ensures
            r == ProbeResult::spec_empty(),
    {
        ProbeResult {
            transmitted: None,
            received: None,
            packet_loss_micro_percent: None,
            elapsed_time_ms: None,
            rtt_min_micro_ms: None,
            rtt_avg_micro_ms: None,
            rtt_max_micro_ms: None,
            rtt_mdev_micro_ms: None,
        }
    }
}

/// A banner line: its first field is `PING` or `PING6`.
pub open spec fn is_banner_shape(toks: Seq<Seq<u8>>) -> bool {
    toks.len() > 0 && (toks[0] == KW_BANNER@ || toks[0] == KW_BANNER6@)
}

/// The section header `--- <target> ping statistics ---`, with `ping6` as
/// the IPv6 variant.
pub open spec fn is_header_shape(toks: Seq<Seq<u8>>) -> bool {
    &&& toks.len() == 5
    &&& toks[0] == KW_DASHES@
    &&& (toks[2] == KW_PING@ || toks[2] == KW_PING6@)
    &&& toks[3] == KW_STATISTICS@
    &&& toks[4] == KW_DASHES@
}

/// The counts line with a trailing time field:
/// `<N> packets transmitted, <N> received, <P>% packet loss, time <T>ms`.
pub open spec fn is_timed_stats_shape(toks: Seq<Seq<u8>>) -> bool {
    &&& toks.len() == 10
    &&& toks[1] == KW_PACKETS@
    &&& toks[2] == KW_TRANSMITTED@
    &&& toks[4] == KW_RECEIVED@
    &&& toks[6] == KW_PACKET@
    &&& toks[7] == KW_LOSS_COMMA@
    &&& toks[8] == KW_TIME@
}

/// The counts line without a time field:
/// `<N> packets transmitted, <N> packets received, <P>% packet loss`.
pub open spec fn is_plain_stats_shape(toks: Seq<Seq<u8>>) -> bool {
    &&& toks.len() == 9
    &&& toks[1] == KW_PACKETS@
    &&& toks[2] == KW_TRANSMITTED@
    &&& toks[4] == KW_PACKETS@
    &&& toks[5] == KW_RECEIVED@
    &&& toks[7] == KW_PACKET@
    &&& toks[8] == KW_LOSS@
}

/// The latency line:
/// `rtt min/avg/max/mdev = <a>/<b>/<c>/<d> ms`, with `round-trip` and
/// `std-dev` as vendor spellings.
pub open spec fn is_rtt_shape(toks: Seq<Seq<u8>>) -> bool {
    &&& toks.len() == 5
    &&& (toks[0] == KW_RTT@ || toks[0] == KW_ROUND_TRIP@)
    &&& (toks[1] == KW_RTT_FIELDS@ || toks[1] == KW_RTT_FIELDS_ALT@)
    &&& toks[2] == KW_EQUALS@
    &&& toks[4] == KW_MS@
}

/// The packet-loss field: a decimal number closed by `%`, in millionths of
/// a percent.
pub open spec fn spec_parse_percent_micro(t: Seq<u8>) -> Option<u64> {
    if t.len() >= 1 && t.last() == BYTE_PERCENT {
        spec_parse_decimal_micro(t.drop_last())
    } else {
        None
    }
}

/// The elapsed-time field: a whole number of milliseconds closed by `ms`.
pub open spec fn spec_parse_ms_count(t: Seq<u8>) -> Option<u64> {
    if t.len() >= 2 && t[t.len() - 2] == BYTE_M && t[t.len() - 1] == BYTE_S {
        spec_parse_u64(t.take(t.len() - 2))
    } else {
        None
    }
}

/// Whether the slash-separated latency values are at most four and each
/// parses as a decimal number.
pub open spec fn rtt_parts_ok(parts: Seq<Seq<u8>>) -> bool {
    parts.len() <= 4 && forall|i: int|
        0 <= i < parts.len() ==> spec_parse_decimal_micro(parts[i]) is Some
}

/// The latency field at position `i`, or the previous value where fewer
/// values were given: missing trailing values leave their fields untouched.
pub open spec fn rtt_slot(parts: Seq<Seq<u8>>, i: int, prev: Option<u64>) -> Option<u64> {
    if i < parts.len() {
        spec_parse_decimal_micro(parts[i])
    } else {
        prev
    }
}

/// One step of the parse: how a single line changes the accumulated result.
///
/// Blank lines, banners and section headers change nothing. A counts line
/// sets the three count fields, and the elapsed time when it carries one. A
/// latency line sets as many of the four latency fields as it carries
/// values. A recognized shape with an unparsable payload is a malformed
/// line; any other line is unrecognized.
pub open spec fn spec_apply_line(acc: ProbeResult, line: Seq<u8>) -> Result<
    ProbeResult,
    ParseErrorView,
> {
    let toks = spec_fields(line);
    if toks.len() == 0 {
        Ok(acc)
    } else if is_banner_shape(toks) {
        Ok(acc)
    } else if is_header_shape(toks) {
        Ok(acc)
    } else if is_timed_stats_shape(toks) {
        if spec_parse_u64(toks[0]) is Some && spec_parse_u64(toks[3]) is Some
            && spec_parse_percent_micro(toks[5]) is Some && spec_parse_ms_count(toks[9]) is Some {
            Ok(
                ProbeResult {
                    transmitted: spec_parse_u64(toks[0]),
                    received: spec_parse_u64(toks[3]),
                    packet_loss_micro_percent: spec_parse_percent_micro(toks[5]),
                    elapsed_time_ms: spec_parse_ms_count(toks[9]),
                    rtt_min_micro_ms: acc.rtt_min_micro_ms,
                    rtt_avg_micro_ms: acc.rtt_avg_micro_ms,
                    rtt_max_micro_ms: acc.rtt_max_micro_ms,
                    rtt_mdev_micro_ms: acc.rtt_mdev_micro_ms,
                },
            )
        } else {
            Err(ParseErrorView::Malformed { line })
        }
    } else if is_plain_stats_shape(toks) {
        if spec_parse_u64(toks[0]) is Some && spec_parse_u64(toks[3]) is Some
            && spec_parse_percent_micro(toks[6]) is Some {
            Ok(
                ProbeResult {
                    transmitted: spec_parse_u64(toks[0]),
                    received: spec_parse_u64(toks[3]),
                    packet_loss_micro_percent: spec_parse_percent_micro(toks[6]),
                    elapsed_time_ms: acc.elapsed_time_ms,
                    rtt_min_micro_ms: acc.rtt_min_micro_ms,
                    rtt_avg_micro_ms: acc.rtt_avg_micro_ms,
                    rtt_max_micro_ms: acc.rtt_max_micro_ms,
                    rtt_mdev_micro_ms: acc.rtt_mdev_micro_ms,
                },
            )
        } else {
            Err(ParseErrorView::Malformed { line })
        }
    } else if is_rtt_shape(toks) {
        let parts = spec_split(toks[3], BYTE_SLASH);
        if rtt_parts_ok(parts) {
            Ok(
                ProbeResult {
                    transmitted: acc.transmitted,
                    received: acc.received,
                    packet_loss_micro_percent: acc.packet_loss_micro_percent,
                    elapsed_time_ms: acc.elapsed_time_ms,
                    rtt_min_micro_ms: rtt_slot(parts, 0, acc.rtt_min_micro_ms),
                    rtt_avg_micro_ms: rtt_slot(parts, 1, acc.rtt_avg_micro_ms),
                    rtt_max_micro_ms: rtt_slot(parts, 2, acc.rtt_max_micro_ms),
                    rtt_mdev_micro_ms: rtt_slot(parts, 3, acc.rtt_mdev_micro_ms),
                },
            )
        } else {
            Err(ParseErrorView::Malformed { line })
        }
    } else {
        Err(ParseErrorView::Unrecognized { line })
    }
}

/// Folds [`spec_apply_line`] over the lines, stopping at the first failing
/// line.
pub open spec fn spec_parse_lines(lines: Seq<Seq<u8>>, acc: ProbeResult) -> Result<
    ProbeResult,
    ParseErrorView,
>
    decreases lines.len(),
{
    if lines.len() == 0 {
        Ok(acc)
    } else {
        match spec_apply_line(acc, lines[0]) {
            Ok(next) => spec_parse_lines(lines.drop_first(), next),
            Err(e) => Err(e),
        }
    }
}

/// What parsing the captured probe output yields: the fold of every line
/// over the all-absent result, or the first line-level failure.
pub open spec fn spec_parse(s: Seq<u8>) -> Result<ProbeResult, ParseErrorView> {
    spec_parse_lines(spec_lines(s), ProbeResult::spec_empty())
}


/// Parses the packet-loss field as [`spec_parse_percent_micro`] describes.
fn parse_percent_micro(t: &[u8]) -> (r: Option<u64>)
    ensures
        r == spec_parse_percent_micro(t@),
{
    if t.len() < 1 {
        return None;
    }
    if t[t.len() - 1] != BYTE_PERCENT {
        return None;
    }
    let body = &t[0..t.len() - 1];
    proof {
        assert(body@ =~= t@.drop_last());
    }
    parse_decimal_micro(body)
}

/// Parses the elapsed-time field as [`spec_parse_ms_count`] describes.
fn parse_ms_count(t: &[u8]) -> (r: Option<u64>)
    ensures
        r == spec_parse_ms_count(t@),
{
    if t.len() < 2 {
        return None;
    }
    if t[t.len() - 2] != BYTE_M || t[t.len() - 1] != BYTE_S {
        return None;
    }
    let body = &t[0..t.len() - 2];
    proof {
        assert(body@ =~= t@.take(t@.len() - 2));
    }
    parse_u64(body)
}

/// Applies one line to the accumulated result, exactly as
/// [`spec_apply_line`] describes.
pub fn apply_line(acc: ProbeResult, line: &Vec<u8>) -> (r: Result<ProbeResult, ParseError>)
    ensures
        match r {
            Ok(a) => spec_apply_line(acc, line@) == Ok::<ProbeResult, ParseErrorView>(a),
            Err(e) => spec_apply_line(acc, line@) == Err::<ProbeResult, ParseErrorView>(e@),
        },
{
    let toks = split_fields(line.as_slice());
    let ghost stoks = spec_fields(line@);
    proof {
        assert(views_of(toks@) == stoks);
        assert(forall|k: int| 0 <= k < toks@.len() ==> views_of(toks@)[k] == toks@[k]@);
    }
    let n = toks.len();
    if n == 0 {
        return Ok(acc);
    }
    if bytes_eq(toks[0].as_slice(), KW_BANNER.as_slice()) || bytes_eq(
        toks[0].as_slice(),
        KW_BANNER6.as_slice(),
    ) {
        return Ok(acc);
    }
    proof {
        assert(!is_banner_shape(stoks));
    }
    if n == 5 && bytes_eq(toks[0].as_slice(), KW_DASHES.as_slice()) && (bytes_eq(
        toks[2].as_slice(),
        KW_PING.as_slice(),
    ) || bytes_eq(toks[2].as_slice(), KW_PING6.as_slice())) && bytes_eq(
        toks[3].as_slice(),
        KW_STATISTICS.as_slice(),
    ) && bytes_eq(toks[4].as_slice(), KW_DASHES.as_slice()) {
        return Ok(acc);
    }
    proof {
        assert(!is_header_shape(stoks));
    }
    if n == 10 && bytes_eq(toks[1].as_slice(), KW_PACKETS.as_slice()) && bytes_eq(
        toks[2].as_slice(),
        KW_TRANSMITTED.as_slice(),
    ) && bytes_eq(toks[4].as_slice(), KW_RECEIVED.as_slice()) && bytes_eq(
        toks[6].as_slice(),
        KW_PACKET.as_slice(),
    ) && bytes_eq(toks[7].as_slice(), KW_LOSS_COMMA.as_slice()) && bytes_eq(
        toks[8].as_slice(),
        KW_TIME.as_slice(),
    ) {
        proof {
            assert(is_timed_stats_shape(stoks));
        }
        let tx = parse_u64(toks[0].as_slice());
        let rx = parse_u64(toks[3].as_slice());
        let loss = parse_percent_micro(toks[5].as_slice());
        let elapsed = parse_ms_count(toks[9].as_slice());
        if tx.is_some() && rx.is_some() && loss.is_some() && elapsed.is_some() {
            return Ok(
                ProbeResult {
                    transmitted: tx,
                    received: rx,
                    packet_loss_micro_percent: loss,
                    elapsed_time_ms: elapsed,
                    rtt_min_micro_ms: acc.rtt_min_micro_ms,
                    rtt_avg_micro_ms: acc.rtt_avg_micro_ms,
                    rtt_max_micro_ms: acc.rtt_max_micro_ms,
                    rtt_mdev_micro_ms: acc.rtt_mdev_micro_ms,
                },
            );
        } else {
            return Err(ParseError::MalformedLine { line: copy_bytes(line.as_slice()) });
        }
    }
    proof {
        assert(!is_timed_stats_shape(stoks));
    }
    if n == 9 && bytes_eq(toks[1].as_slice(), KW_PACKETS.as_slice()) && bytes_eq(
        toks[2].as_slice(),
        KW_TRANSMITTED.as_slice(),
    ) && bytes_eq(toks[4].as_slice(), KW_PACKETS.as_slice()) && bytes_eq(
        toks[5].as_slice(),
        KW_RECEIVED.as_slice(),
    ) && bytes_eq(toks[7].as_slice(), KW_PACKET.as_slice()) && bytes_eq(
        toks[8].as_slice(),
        KW_LOSS.as_slice(),
    ) {
        proof {
            assert(is_plain_stats_shape(stoks));
        }
        let tx = parse_u64(toks[0].as_slice());
        let rx = parse_u64(toks[3].as_slice());
        let loss = parse_percent_micro(toks[6].as_slice());
        if tx.is_some() && rx.is_some() && loss.is_some() {
            return Ok(
                ProbeResult {
                    transmitted: tx,
                    received: rx,
                    packet_loss_micro_percent: loss,
                    elapsed_time_ms: acc.elapsed_time_ms,
                    rtt_min_micro_ms: acc.rtt_min_micro_ms,
                    rtt_avg_micro_ms: acc.rtt_avg_micro_ms,
                    rtt_max_micro_ms: acc.rtt_max_micro_ms,
                    rtt_mdev_micro_ms: acc.rtt_mdev_micro_ms,
                },
            );
        } else {
            return Err(ParseError::MalformedLine { line: copy_bytes(line.as_slice()) });
        }
    }
    proof {
        assert(!is_plain_stats_shape(stoks));
    }
    if n == 5 && (bytes_eq(toks[0].as_slice(), KW_RTT.as_slice()) || bytes_eq(
        toks[0].as_slice(),
        KW_ROUND_TRIP.as_slice(),
    )) && (bytes_eq(toks[1].as_slice(), KW_RTT_FIELDS.as_slice()) || bytes_eq(
        toks[1].as_slice(),
        KW_RTT_FIELDS_ALT.as_slice(),
    )) && bytes_eq(toks[2].as_slice(), KW_EQUALS.as_slice()) && bytes_eq(
        toks[4].as_slice(),
        KW_MS.as_slice(),
    ) {
        proof {
            assert(is_rtt_shape(stoks));
        }
        let parts = split_sep(toks[3].as_slice(), BYTE_SLASH);
        let ghost sparts = spec_split(stoks[3], BYTE_SLASH);
        proof {
            assert(views_of(parts@) == sparts);
            assert(forall|k: int| 0 <= k < parts@.len() ==> views_of(parts@)[k] == parts@[k]@);
        }
        let m = parts.len();
        if m > 4 {
            return Err(ParseError::MalformedLine { line: copy_bytes(line.as_slice()) });
        }
        let v0 = parse_decimal_micro(parts[0].as_slice());
        let v1 = if m >= 2 {
            parse_decimal_micro(parts[1].as_slice())
        } else {
            None
        };
        let v2 = if m >= 3 {
            parse_decimal_micro(parts[2].as_slice())
        } else {
            None
        };
        let v3 = if m >= 4 {
            parse_decimal_micro(parts[3].as_slice())
        } else {
            None
        };
        if v0.is_none() || (m >= 2 && v1.is_none()) || (m >= 3 && v2.is_none()) || (m >= 4
            && v3.is_none()) {
            proof {
                assert(!rtt_parts_ok(sparts));
            }
            return Err(ParseError::MalformedLine { line: copy_bytes(line.as_slice()) });
        }
        proof {
            assert(rtt_parts_ok(sparts)) by {
                assert(forall|i: int|
                    0 <= i < sparts.len() ==> spec_parse_decimal_micro(
                        #[trigger] sparts[i],
                    ) is Some) by {
                    assert(spec_parse_decimal_micro(sparts[0]) is Some);
                    if sparts.len() >= 2 {
                        assert(spec_parse_decimal_micro(sparts[1]) is Some);
                    }
                    if sparts.len() >= 3 {
                        assert(spec_parse_decimal_micro(sparts[2]) is Some);
                    }
                    if sparts.len() >= 4 {
                        assert(spec_parse_decimal_micro(sparts[3]) is Some);
                    }
                }
            }
        }
        let rtt_avg = if m >= 2 {
            v1
        } else {
            acc.rtt_avg_micro_ms
        };
        let rtt_max = if m >= 3 {
            v2
        } else {
            acc.rtt_max_micro_ms
        };
        let rtt_mdev = if m >= 4 {
            v3
        } else {
            acc.rtt_mdev_micro_ms
        };
        return Ok(
            ProbeResult {
                transmitted: acc.transmitted,
                received: acc.received,
                packet_loss_micro_percent: acc.packet_loss_micro_percent,
                elapsed_time_ms: acc.elapsed_time_ms,
                rtt_min_micro_ms: v0,
                rtt_avg_micro_ms: rtt_avg,
                rtt_max_micro_ms: rtt_max,
                rtt_mdev_micro_ms: rtt_mdev,
            },
        );
    }
    proof {
        assert(!is_rtt_shape(stoks));
    }
    Err(ParseError::UnrecognizedLine { line: copy_bytes(line.as_slice()) })
}

/// Parses captured probe output, exactly as [`spec_parse`] describes: the
/// structured result, or the first malformed or unrecognized line.
///
/// The parse is total over arbitrary bytes and a success may leave every
/// field absent; in particular, empty output parses to the all-absent
/// result.
pub fn parse(text: &[u8]) -> (r: Result<ProbeResult, ParseError>)
    ensures
        match r {
            Ok(pr) => spec_parse(text@) == Ok::<ProbeResult, ParseErrorView>(pr),
            Err(e) => spec_parse(text@) == Err::<ProbeResult, ParseErrorView>(e@),
        },
{
    let lines = split_lines(text);
    let mut acc = ProbeResult::empty();
    let mut i: usize = 0;
    proof {
        assert(spec_lines(text@).skip(0) =~= spec_lines(text@));
    }
    while i < lines.len()
        invariant
            0 <= i <= lines.len(),
            views_of(lines@) == spec_lines(text@),
            spec_parse(text@) == spec_parse_lines(spec_lines(text@).skip(i as int), acc),
        decreases lines.len() - i,
    {
        proof {
            assert(views_of(lines@)[i as int] == lines@[i as int]@);
            assert(spec_lines(text@).skip(i as int)[0] == spec_lines(text@)[i as int]);
            assert(spec_lines(text@).skip(i as int).drop_first() =~= spec_lines(text@).skip(
                i as int + 1,
            ));
        }
        match apply_line(acc, &lines[i]) {
            Ok(next) => {
                acc = next;
            },
            Err(e) => {
                return Err(e);
            },
        }
        i = i + 1;
    }
    proof {
        assert(spec_lines(text@).skip(spec_lines(text@).len() as int) =~= Seq::<Seq<u8>>::empty());
    }
    Ok(acc)
}


/// Parsing is deterministic: the outcome is a function of the captured
/// text alone, so parsing the same output twice yields equal results.
pub proof fn lemma_parse_deterministic(
    s: Seq<u8>,
    r1: Result<ProbeResult, ParseErrorView>,
    r2: Result<ProbeResult, ParseErrorView>,
)
    requires
        r1 == spec_parse(s),
        r2 == spec_parse(s),
    ensures
        r1 == r2,
{
}

/// A line that does not carry the latency shape leaves the four latency
/// fields unchanged, whatever else it does.
proof fn lemma_apply_line_keeps_rtt(acc: ProbeResult, line: Seq<u8>)
    requires
        !is_rtt_shape(spec_fields(line)),
    ensures
        match spec_apply_line(acc, line) {
            Ok(a) => {
                &&& a.rtt_min_micro_ms == acc.rtt_min_micro_ms
                &&& a.rtt_avg_micro_ms == acc.rtt_avg_micro_ms
                &&& a.rtt_max_micro_ms == acc.rtt_max_micro_ms
                &&& a.rtt_mdev_micro_ms == acc.rtt_mdev_micro_ms
            },
            Err(_) => true,
        },
{
}

proof fn lemma_fold_keeps_rtt_absent(lines: Seq<Seq<u8>>, acc: ProbeResult)
    requires
        forall|i: int| 0 <= i < lines.len() ==> !is_rtt_shape(spec_fields(#[trigger] lines[i])),
        acc.rtt_min_micro_ms is None,
        acc.rtt_avg_micro_ms is None,
        acc.rtt_max_micro_ms is None,
        acc.rtt_mdev_micro_ms is None,
    ensures
        match spec_parse_lines(lines, acc) {
            Ok(r) => {
                &&& r.rtt_min_micro_ms is None
                &&& r.rtt_avg_micro_ms is None
                &&& r.rtt_max_micro_ms is None
                &&& r.rtt_mdev_micro_ms is None
            },
            Err(_) => true,
        },
    decreases lines.len(),
{
    if lines.len() > 0 {
        lemma_apply_line_keeps_rtt(acc, lines[0]);
        match spec_apply_line(acc, lines[0]) {
            Ok(next) => {
                assert forall|i: int|
                    0 <= i < lines.drop_first().len() implies !is_rtt_shape(
                    spec_fields(#[trigger] lines.drop_first()[i]),
                ) by {
                    assert(lines.drop_first()[i] == lines[i + 1]);
                }
                lemma_fold_keeps_rtt_absent(lines.drop_first(), next);
            },
            Err(_) => {},
        }
    }
}

/// Output without a latency-shaped line parses to a result whose four
/// latency fields are all absent — never zero. This is what complete packet
/// loss looks like: the tool omits the latency line, and the fields stay
/// absent.
pub proof fn lemma_no_rtt_line_no_rtt_fields(s: Seq<u8>, r: ProbeResult)
    requires
        spec_parse(s) == Ok::<ProbeResult, ParseErrorView>(r),
        forall|i: int|
            0 <= i < spec_lines(s).len() ==> !is_rtt_shape(
                spec_fields(#[trigger] spec_lines(s)[i]),
            ),
    ensures
        r.rtt_min_micro_ms is None,
        r.rtt_avg_micro_ms is None,
        r.rtt_max_micro_ms is None,
        r.rtt_mdev_micro_ms is None,
{
    lemma_fold_keeps_rtt_absent(spec_lines(s), ProbeResult::spec_empty());
}

/// A line that does not carry the timed counts shape leaves the elapsed
/// time unchanged; in particular the counts line without a time field never
/// populates it.
proof fn lemma_apply_line_keeps_elapsed(acc: ProbeResult, line: Seq<u8>)
    requires
        !is_timed_stats_shape(spec_fields(line)),
    ensures
        match spec_apply_line(acc, line) {
            Ok(a) => a.elapsed_time_ms == acc.elapsed_time_ms,
            Err(_) => true,
        },
{
}

proof fn lemma_fold_keeps_elapsed_absent(lines: Seq<Seq<u8>>, acc: ProbeResult)
    requires
        forall|i: int|
            0 <= i < lines.len() ==> !is_timed_stats_shape(spec_fields(#[trigger] lines[i])),
        acc.elapsed_time_ms is None,
    ensures
        match spec_parse_lines(lines, acc) {
            Ok(r) => r.elapsed_time_ms is None,
            Err(_) => true,
        },
    decreases lines.len(),
{
    if lines.len() > 0 {
        lemma_apply_line_keeps_elapsed(acc, lines[0]);
        match spec_apply_line(acc, lines[0]) {
            Ok(next) => {
                assert forall|i: int|
                    0 <= i < lines.drop_first().len() implies !is_timed_stats_shape(
                    spec_fields(#[trigger] lines.drop_first()[i]),
                ) by {
                    assert(lines.drop_first()[i] == lines[i + 1]);
                }
                lemma_fold_keeps_elapsed_absent(lines.drop_first(), next);
            },
            Err(_) => {},
        }
    }
}

/// Only the counts line that carries a time field can populate the elapsed
/// time. Output whose counts lines all lack the time field — whatever other
/// lines stand around them — parses to a result with the elapsed time
/// absent.
pub proof fn lemma_no_timed_line_no_elapsed(s: Seq<u8>, r: ProbeResult)
    requires
        spec_parse(s) == Ok::<ProbeResult, ParseErrorView>(r),
        forall|i: int|
            0 <= i < spec_lines(s).len() ==> !is_timed_stats_shape(
                spec_fields(#[trigger] spec_lines(s)[i]),
            ),
    ensures
        r.elapsed_time_ms is None,
{
    lemma_fold_keeps_elapsed_absent(spec_lines(s), ProbeResult::spec_empty());
}

} // verus!

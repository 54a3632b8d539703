//! The metrics mapper: turns a [`ProbeResult`] and the probe process's exit
//! status into named numeric observations.
//!
//! Each present field yields exactly one observation under its well-known
//! name; an absent field yields nothing, so a missing series means "not
//! measured this round" and is never confused with a measured zero. The exit
//! status is always observed, with a sentinel when the exit code itself is
//! unknown.

use crate::parse::ProbeResult;
use vstd::prelude::*;

verus! {

/// The exit status observed when the process's exit code is unavailable,
/// for instance after a signal ended it.
pub const EXIT_STATUS_UNKNOWN: i64 = -1;

/// The stable, well-known name of one metric series. All names share the
/// probe-kind prefix `ping_`, so the renderer can group them without
/// inspecting their meaning.
#[derive(Debug, Clone, Copy, PartialEq, Eq)]
pub enum MetricName {
    /// Probes sent: `ping_packets_transmitted`.
    PacketsTransmitted,
    /// Replies received: `ping_packets_received`.
    PacketsReceived,
    /// Packet loss: `ping_packet_loss_percent`.
    PacketLossPercent,
    /// Total elapsed time: `ping_elapsed_time_ms`.
    ElapsedTimeMs,
    /// Least round-trip time: `ping_rtt_min_ms`.
    RttMinMs,
    /// Mean round-trip time: `ping_rtt_avg_ms`.
    RttAvgMs,
    /// Greatest round-trip time: `ping_rtt_max_ms`.
    RttMaxMs,
    /// Round-trip-time deviation: `ping_rtt_mdev_ms`.
    RttMdevMs,
    /// The probe process's exit status: `ping_exit_status`.
    ExitStatus,
}

/// One observed numeric value, in the scale its metric uses.
#[derive(Debug, Clone, Copy, PartialEq, Eq)]
pub enum MetricValue {
    /// An exact whole number: a count, or a whole number of milliseconds.
    Count(u64),
    /// A fixed-point value in millionths of the metric's unit.
    Micro(u64),
    /// An exit status: the exit code, or [`EXIT_STATUS_UNKNOWN`].
    Status(i64),
}

/// One named numeric observation for a scrape.
#[derive(Debug, Clone, Copy, PartialEq, Eq)]
pub struct Observation {
    /// The metric series this value belongs to.
    pub name: MetricName,
    /// The observed value.
    pub value: MetricValue,
}

impl MetricName {
    /// The wire name of this metric series.
    pub open spec fn spec_text(self) -> Seq<char> {
        match self {
            MetricName::PacketsTransmitted => "ping_packets_transmitted"@,
            MetricName::PacketsReceived => "ping_packets_received"@,
            MetricName::PacketLossPercent => "ping_packet_loss_percent"@,
            MetricName::ElapsedTimeMs => "ping_elapsed_time_ms"@,
            MetricName::RttMinMs => "ping_rtt_min_ms"@,
            MetricName::RttAvgMs => "ping_rtt_avg_ms"@,
            MetricName::RttMaxMs => "ping_rtt_max_ms"@,
            MetricName::RttMdevMs => "ping_rtt_mdev_ms"@,
            MetricName::ExitStatus => "ping_exit_status"@,
        }
    }

    /// Renders the wire name of this metric series.
    pub fn text(&self) -> (r: &'static str)
        ensures
            r@ == self.spec_text(),
    {
        match self {
            MetricName::PacketsTransmitted => "ping_packets_transmitted",
            MetricName::PacketsReceived => "ping_packets_received",
            MetricName::PacketLossPercent => "ping_packet_loss_percent",
            MetricName::ElapsedTimeMs => "ping_elapsed_time_ms",
            MetricName::RttMinMs => "ping_rtt_min_ms",
            MetricName::RttAvgMs => "ping_rtt_avg_ms",
            MetricName::RttMaxMs => "ping_rtt_max_ms",
            MetricName::RttMdevMs => "ping_rtt_mdev_ms",
            MetricName::ExitStatus => "ping_exit_status",
        }
    }
}

/// The observation a present whole-number field yields, and the empty
/// sequence for an absent one.
pub open spec fn opt_count_obs(name: MetricName, v: Option<u64>) -> Seq<Observation> {
    match v {
        Some(x) => seq![Observation { name, value: MetricValue::Count(x) }],
        None => Seq::empty(),
    }
}

/// The observation a present fixed-point field yields, and the empty
/// sequence for an absent one.
pub open spec fn opt_micro_obs(name: MetricName, v: Option<u64>) -> Seq<Observation> {
    match v {
        Some(x) => seq![Observation { name, value: MetricValue::Micro(x) }],
        None => Seq::empty(),
    }
}

/// The observed exit status: the exit code when the process exited
/// normally, and [`EXIT_STATUS_UNKNOWN`] otherwise.
pub open spec fn spec_exit_status(exit_code: Option<i32>) -> i64 {
    match exit_code {
        Some(c) => c as i64,
        None => EXIT_STATUS_UNKNOWN,
    }
}

/// The full observation set for one probe: one observation per present
/// field, in a fixed order, closed by the always-present exit status.
pub open spec fn spec_map(r: ProbeResult, exit_code: Option<i32>) -> Seq<Observation> {
    opt_count_obs(MetricName::PacketsTransmitted, r.transmitted) + opt_count_obs(
        MetricName::PacketsReceived,
        r.received,
    ) + opt_micro_obs(MetricName::PacketLossPercent, r.packet_loss_micro_percent) + opt_count_obs(
        MetricName::ElapsedTimeMs,
        r.elapsed_time_ms,
    ) + opt_micro_obs(MetricName::RttMinMs, r.rtt_min_micro_ms) + opt_micro_obs(
        MetricName::RttAvgMs,
        r.rtt_avg_micro_ms,
    ) + opt_micro_obs(MetricName::RttMaxMs, r.rtt_max_micro_ms) + opt_micro_obs(
        MetricName::RttMdevMs,
        r.rtt_mdev_micro_ms,
    ) + seq![
        Observation {
            name: MetricName::ExitStatus,
            value: MetricValue::Status(spec_exit_status(exit_code)),
        },
    ]
}

/// Appends the observation of one whole-number field, when it is present.
fn push_count_obs(obs: &mut Vec<Observation>, name: MetricName, v: Option<u64>)
    ensures
        final(obs)@ == old(obs)@ + opt_count_obs(name, v),
{
    if let Some(x) = v {
        obs.push(Observation { name, value: MetricValue::Count(x) });
    }
    proof {
        assert(obs@ =~= old(obs)@ + opt_count_obs(name, v));
    }
}

/// Appends the observation of one fixed-point field, when it is present.
fn push_micro_obs(obs: &mut Vec<Observation>, name: MetricName, v: Option<u64>)
    ensures
        final(obs)@ == old(obs)@ + opt_micro_obs(name, v),
{
    if let Some(x) = v {
        obs.push(Observation { name, value: MetricValue::Micro(x) });
    }
    proof {
        assert(obs@ =~= old(obs)@ + opt_micro_obs(name, v));
    }
}

/// Appends the always-present exit-status observation.
fn push_exit_obs(obs: &mut Vec<Observation>, exit_code: Option<i32>)
    ensures
        final(obs)@ == old(obs)@ + seq![
            Observation {
                name: MetricName::ExitStatus,
                value: MetricValue::Status(spec_exit_status(exit_code)),
            },
        ],
{
    let status: i64 = match exit_code {
        Some(c) => c as i64,
        None => EXIT_STATUS_UNKNOWN,
    };
    obs.push(Observation { name: MetricName::ExitStatus, value: MetricValue::Status(status) });
    proof {
        assert(obs@ =~= old(obs)@ + seq![
            Observation {
                name: MetricName::ExitStatus,
                value: MetricValue::Status(spec_exit_status(exit_code)),
            },
        ]);
    }
}

/// Maps a parse result and the process's exit code onto the observation
/// set, exactly as [`spec_map`] describes.
pub fn map(result: &ProbeResult, exit_code: Option<i32>) -> (obs: Vec<Observation>)
    ensures
        obs@ == spec_map(*result, exit_code),
{
    let mut obs: Vec<Observation> = Vec::new();
    push_count_obs(&mut obs, MetricName::PacketsTransmitted, result.transmitted);
    proof {
        assert(Seq::<Observation>::empty() + opt_count_obs(
            MetricName::PacketsTransmitted,
            result.transmitted,
        ) =~= opt_count_obs(MetricName::PacketsTransmitted, result.transmitted));
    }
    push_count_obs(&mut obs, MetricName::PacketsReceived, result.received);
    push_micro_obs(&mut obs, MetricName::PacketLossPercent, result.packet_loss_micro_percent);
    push_count_obs(&mut obs, MetricName::ElapsedTimeMs, result.elapsed_time_ms);
    push_micro_obs(&mut obs, MetricName::RttMinMs, result.rtt_min_micro_ms);
    push_micro_obs(&mut obs, MetricName::RttAvgMs, result.rtt_avg_micro_ms);
    push_micro_obs(&mut obs, MetricName::RttMaxMs, result.rtt_max_micro_ms);
    push_micro_obs(&mut obs, MetricName::RttMdevMs, result.rtt_mdev_micro_ms);
    push_exit_obs(&mut obs, exit_code);
    obs
}

/// Whether the observation set carries the given metric name.
pub open spec fn has_observation(obs: Seq<Observation>, name: MetricName) -> bool {
    exists|i: int| 0 <= i < obs.len() && obs[i].name == name
}

/// An absent field emits nothing: the mapped observation set never carries
/// the key of a field the result does not hold, for any result and any
/// exit code.
#[verifier::rlimit(50)]
pub proof fn lemma_map_omits_absent_fields(r: ProbeResult, exit_code: Option<i32>)
    ensures
        r.transmitted is None ==> !has_observation(
            spec_map(r, exit_code),
            MetricName::PacketsTransmitted,
        ),
        r.received is None ==> !has_observation(
            spec_map(r, exit_code),
            MetricName::PacketsReceived,
        ),
        r.packet_loss_micro_percent is None ==> !has_observation(
            spec_map(r, exit_code),
            MetricName::PacketLossPercent,
        ),
        r.elapsed_time_ms is None ==> !has_observation(
            spec_map(r, exit_code),
            MetricName::ElapsedTimeMs,
        ),
        r.rtt_min_micro_ms is None ==> !has_observation(spec_map(r, exit_code), MetricName::RttMinMs),
        r.rtt_avg_micro_ms is None ==> !has_observation(spec_map(r, exit_code), MetricName::RttAvgMs),
        r.rtt_max_micro_ms is None ==> !has_observation(spec_map(r, exit_code), MetricName::RttMaxMs),
        r.rtt_mdev_micro_ms is None ==> !has_observation(
            spec_map(r, exit_code),
            MetricName::RttMdevMs,
        ),
{
    let obs = spec_map(r, exit_code);
    if r.transmitted is None {
        assert forall|i: int| 0 <= i < obs.len() implies (#[trigger] obs[i]).name
            != MetricName::PacketsTransmitted by {}
    }
    if r.received is None {
        assert forall|i: int| 0 <= i < obs.len() implies (#[trigger] obs[i]).name
            != MetricName::PacketsReceived by {}
    }
    if r.packet_loss_micro_percent is None {
        assert forall|i: int| 0 <= i < obs.len() implies (#[trigger] obs[i]).name
            != MetricName::PacketLossPercent by {}
    }
    if r.elapsed_time_ms is None {
        assert forall|i: int| 0 <= i < obs.len() implies (#[trigger] obs[i]).name
            != MetricName::ElapsedTimeMs by {}
    }
    if r.rtt_min_micro_ms is None {
        assert forall|i: int| 0 <= i < obs.len() implies (#[trigger] obs[i]).name
            != MetricName::RttMinMs by {}
    }
    if r.rtt_avg_micro_ms is None {
        assert forall|i: int| 0 <= i < obs.len() implies (#[trigger] obs[i]).name
            != MetricName::RttAvgMs by {}
    }
    if r.rtt_max_micro_ms is None {
        assert forall|i: int| 0 <= i < obs.len() implies (#[trigger] obs[i]).name
            != MetricName::RttMaxMs by {}
    }
    if r.rtt_mdev_micro_ms is None {
        assert forall|i: int| 0 <= i < obs.len() implies (#[trigger] obs[i]).name
            != MetricName::RttMdevMs by {}
    }
}

} // verus!

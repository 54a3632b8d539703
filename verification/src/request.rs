//! The request-side decisions of one probe: validating the client's
//! parameters, rendering the external tool's argument list, and turning the
//! captured output into the observation set.
//!
//! The surrounding application only moves bytes: it hands the query
//! parameters in, spawns the external tool with the rendered arguments, and
//! hands the captured output back.

use crate::metrics::{spec_map, Observation};
use crate::parse::{parse, spec_parse, ParseError, ParseErrorView, ProbeResult, RawProbeOutput};
use crate::scan::{
    all_digits, copy_bytes, digits_value, lemma_digits_value_bound, lemma_digits_value_nonneg,
    lemma_pow10_small, parse_u64, spec_decimal_digits, spec_split, split_sep, u64_digits,
    views_of, BYTE_0, BYTE_DOT,
};
use vstd::prelude::*;

verus! {

/// `"-q"`: keeps the external tool to its summary output.
pub const FLAG_QUIET: [u8; 2] = [45, 113];

/// `"-c"`: sets the external tool's probe count.
pub const FLAG_COUNT: [u8; 2] = [45, 99];

/// Why a request was rejected before any probe ran. These are client
/// errors: no external process is spawned for them.
#[derive(Debug, Clone, Copy, PartialEq, Eq)]
pub enum ClientInputError {
    /// No target parameter was supplied.
    MissingTarget,
    /// The target parameter is the empty string.
    EmptyTarget,
    /// The count parameter is zero or negative.
    NonPositiveCount,
}

/// One dotted-decimal octet: one to three digits, no leading zero, at most
/// 255.
pub open spec fn is_ipv4_octet(p: Seq<u8>) -> bool {
    &&& 1 <= p.len() <= 3
    &&& all_digits(p)
    &&& digits_value(p) <= 255
    &&& (p.len() == 1 || p[0] != BYTE_0)
}

/// A literal IPv4 address: four dot-separated octets.
pub open spec fn is_ipv4_literal(s: Seq<u8>) -> bool {
    let parts = spec_split(s, BYTE_DOT);
    parts.len() == 4 && forall|i: int| 0 <= i < 4 ==> is_ipv4_octet(#[trigger] parts[i])
}

fn is_ipv4_octet_bytes(p: &[u8]) -> (r: bool)
    ensures
        r == is_ipv4_octet(p@),
{
    if p.len() < 1 || p.len() > 3 {
        return false;
    }
    match parse_u64(p) {
        Some(v) => {
            proof {
                lemma_digits_value_nonneg(p@);
            }
            v <= 255 && (p.len() == 1 || p[0] != BYTE_0)
        },
        None => {
            proof {
                if all_digits(p@) {
                    lemma_digits_value_bound(p@);
                    lemma_pow10_small(p@.len());
                }
            }
            false
        },
    }
}

/// Decides whether `s` is a literal IPv4 address, as [`is_ipv4_literal`]
/// describes.
pub fn is_ipv4_literal_bytes(s: &[u8]) -> (r: bool)
    ensures
        r == is_ipv4_literal(s@),
{
    let parts = split_sep(s, BYTE_DOT);
    let ghost sparts = spec_split(s@, BYTE_DOT);
    proof {
        assert(views_of(parts@) == sparts);
        assert(forall|k: int| 0 <= k < parts@.len() ==> views_of(parts@)[k] == parts@[k]@);
    }
    if parts.len() != 4 {
        return false;
    }
    proof {
        assert(sparts[0] == parts@[0]@);
        assert(sparts[1] == parts@[1]@);
        assert(sparts[2] == parts@[2]@);
        assert(sparts[3] == parts@[3]@);
    }
    if !is_ipv4_octet_bytes(parts[0].as_slice()) {
        proof {
            assert(!is_ipv4_octet(sparts[0]));
        }
        return false;
    }
    if !is_ipv4_octet_bytes(parts[1].as_slice()) {
        proof {
            assert(!is_ipv4_octet(sparts[1]));
        }
        return false;
    }
    if !is_ipv4_octet_bytes(parts[2].as_slice()) {
        proof {
            assert(!is_ipv4_octet(sparts[2]));
        }
        return false;
    }
    if !is_ipv4_octet_bytes(parts[3].as_slice()) {
        proof {
            assert(!is_ipv4_octet(sparts[3]));
        }
        return false;
    }
    proof {
        assert forall|i: int| 0 <= i < 4 implies is_ipv4_octet(#[trigger] sparts[i]) by {
            if i == 0 {
                assert(is_ipv4_octet(sparts[0]));
            } else if i == 1 {
                assert(is_ipv4_octet(sparts[1]));
            } else if i == 2 {
                assert(is_ipv4_octet(sparts[2]));
            } else {
                assert(is_ipv4_octet(sparts[3]));
            }
        }
    }
    true
}

/// A resolved probe destination: a literal IPv4 address, or any other
/// non-empty name carried opaquely until it is rendered back into a command
/// argument. The address parse is attempted first; everything else falls
/// back to an opaque hostname.
#[derive(Debug, Clone, PartialEq, Eq)]
pub enum ProbeTarget {
    /// The target text is a literal IPv4 address.
    Address(Vec<u8>),
    /// The target text is carried as an opaque hostname.
    Hostname(Vec<u8>),
}

impl ProbeTarget {
    /// The carried target text.
    pub open spec fn spec_text(self) -> Seq<u8> {
        match self {
            ProbeTarget::Address(t) => t@,
            ProbeTarget::Hostname(t) => t@,
        }
    }

    /// Well-formed: an address is a literal IPv4 address, and a hostname is
    /// non-empty and not an address literal.
    pub open spec fn wf(self) -> bool {
        match self {
            ProbeTarget::Address(t) => is_ipv4_literal(t@),
            ProbeTarget::Hostname(t) => t@.len() > 0 && !is_ipv4_literal(t@),
        }
    }

    /// The carried target text, to be rendered into a command argument.
    pub fn text(&self) -> (r: &Vec<u8>)
        ensures
            r@ == self.spec_text(),
    {
        match self {
            ProbeTarget::Address(t) => t,
            ProbeTarget::Hostname(t) => t,
        }
    }
}

/// One validated probe request: a well-formed target and a positive probe
/// count.
#[derive(Debug, Clone, PartialEq, Eq)]
pub struct ProbeRequest {
    /// The destination to probe.
    pub target: ProbeTarget,
    /// How many probes to send; at least one.
    pub count: u64,
}

impl ProbeRequest {
    /// Well-formed: the target is well-formed and the count positive.
    pub open spec fn wf(self) -> bool {
        self.target.wf() && self.count >= 1
    }
}

/// Validates the client's query parameters into a probe request.
///
/// The target must be supplied and non-empty: it becomes an address when it
/// parses as a literal IPv4 address and an opaque hostname otherwise. The
/// count, when supplied, must be positive; when absent it defaults to one.
/// Exactly the rejected inputs yield an error, each its own.
pub fn validate_request(target: Option<Vec<u8>>, count: Option<i64>) -> (r: Result<
    ProbeRequest,
    ClientInputError,
>)
    ensures
        r is Ok <==> (match target {
            Some(t) => t@.len() > 0 && (match count {
                Some(c) => c >= 1,
                None => true,
            }),
            None => false,
        }),
        match r {
            Ok(req) => {
                &&& req.wf()
                &&& match target {
                    Some(t) => {
                        &&& req.target.spec_text() == t@
                        &&& (req.target is Address <==> is_ipv4_literal(t@))
                    },
                    None => false,
                }
                &&& req.count == (match count {
                    Some(c) => c as u64,
                    None => 1u64,
                })
            },
            Err(e) => e == (match target {
                None => ClientInputError::MissingTarget,
                Some(t) => if t@.len() == 0 {
                    ClientInputError::EmptyTarget
                } else {
                    ClientInputError::NonPositiveCount
                },
            }),
        },
{
    let t = match target {
        Some(t) => t,
        None => {
            return Err(ClientInputError::MissingTarget);
        },
    };
    if t.len() == 0 {
        return Err(ClientInputError::EmptyTarget);
    }
    let n: u64 = match count {
        Some(c) => {
            if c < 1 {
                return Err(ClientInputError::NonPositiveCount);
            }
            c as u64
        },
        None => 1,
    };
    let target = if is_ipv4_literal_bytes(t.as_slice()) {
        ProbeTarget::Address(t)
    } else {
        ProbeTarget::Hostname(t)
    };
    Ok(ProbeRequest { target, count: n })
}

/// Renders the argument list the external reachability tool is spawned
/// with: quiet summary output, the probe count, and the target text.
pub fn command_args(req: &ProbeRequest) -> (args: Vec<Vec<u8>>)
    ensures
        args@.len() == 4,
        args@[0]@ == FLAG_QUIET@,
        args@[1]@ == FLAG_COUNT@,
        args@[2]@ == spec_decimal_digits(req.count as nat),
        args@[3]@ == req.target.spec_text(),
{
    let mut args: Vec<Vec<u8>> = Vec::new();
    args.push(copy_bytes(FLAG_QUIET.as_slice()));
    args.push(copy_bytes(FLAG_COUNT.as_slice()));
    args.push(u64_digits(req.count));
    args.push(copy_bytes(req.target.text().as_slice()));
    args
}

/// Turns the captured output of one probe into the observation set.
///
/// Policy: a malformed or unrecognized line fails the whole probe; no
/// partial observation set is returned for such output. On success the
/// observations are exactly the mapped parse result, with the process's
/// exit status always among them.
pub fn observations_for_output(output: &RawProbeOutput) -> (r: Result<Vec<Observation>, ParseError>)
    ensures
        match r {
            Ok(obs) => spec_parse(output.stdout@) matches Ok(pr) && obs@ == spec_map(
                pr,
                output.exit_code,
            ),
            Err(e) => spec_parse(output.stdout@) == Err::<ProbeResult, ParseErrorView>(e@),
        },
{
    match parse(output.stdout.as_slice()) {
        Ok(result) => Ok(crate::metrics::map(&result, output.exit_code)),
        Err(e) => Err(e),
    }
}

} // verus!

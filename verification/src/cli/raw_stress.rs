//! Compliance records of the raw block-device validation harness: one JSON line per phase,
//! with the cycle timings' minimum, maximum and mean.
use vstd::prelude::*;
use vstd::string::StringSliceAdditionalSpecFns;
use vstd::utf8::encode_utf8;
use crate::text::{decimal, push_decimal, push_str};

verus! {

/// Arguments of the `raw-stress` subcommand.
#[derive(Debug, Clone)]
pub struct RawStressArgs {
    pub device: String,
    pub golden: String,
    pub state: Option<String>,
    pub cycles: usize,
    pub inject_sector: Option<u64>,
    pub jsonl_out: String,
}

/// Sum of the timings.
pub open spec fn seq_sum(s: Seq<u64>) -> nat
    decreases s.len(),
{
    if s.len() == 0 {
        0
    } else {
        seq_sum(s.drop_last()) + s.last() as nat
    }
}

/// Least timing, or 0 when there are none.
pub open spec fn seq_min(s: Seq<u64>) -> u64
    decreases s.len(),
{
    if s.len() == 0 {
        0
    } else if s.len() == 1 || s.last() < seq_min(s.drop_last()) {
        s.last()
    } else {
        seq_min(s.drop_last())
    }
}

/// Greatest timing, or 0 when there are none.
pub open spec fn seq_max(s: Seq<u64>) -> u64
    decreases s.len(),
{
    if s.len() == 0 {
        0
    } else if s.len() == 1 || s.last() > seq_max(s.drop_last()) {
        s.last()
    } else {
        seq_max(s.drop_last())
    }
}

/// Mean timing, rounded down, or 0 when there are none.
pub open spec fn seq_avg(s: Seq<u64>) -> nat {
    if s.len() == 0 {
        0
    } else {
        seq_sum(s) / s.len()
    }
}

/// `true` or `false`.
pub open spec fn bool_text(b: bool) -> Seq<u8> {
    if b {
        encode_utf8("true"@)
    } else {
        encode_utf8("false"@)
    }
}

/// Fault-injection fields: sector, byte offset and whether verification failed closed.
pub open spec fn fault_json(fault: Option<(u64, u64, bool)>) -> Seq<u8> {
    match fault {
        Some((sector, offset, rejected)) => encode_utf8(",\"inject_sector\":"@) + decimal(sector as nat)
            + encode_utf8(",\"inject_byte_offset\":"@) + decimal(offset as nat) + encode_utf8(
            ",\"fail_closed\":"@,
        ) + bool_text(rejected),
        None => Seq::empty(),
    }
}

/// The JSON line of a harness phase.
pub open spec fn phase_json(
    phase: Seq<u8>,
    status: Seq<u8>,
    device: Seq<u8>,
    golden: Seq<u8>,
    image_len: nat,
    cycles: nat,
    timings: Seq<u64>,
    elapsed_ms: nat,
    fault: Option<(u64, u64, bool)>,
) -> Seq<u8> {
    encode_utf8("{\"phase\":\""@) + phase + encode_utf8("\",\"status\":\""@) + status + encode_utf8(
        "\",\"device\":\""@,
    ) + device + encode_utf8("\",\"golden\":\""@) + golden + encode_utf8("\",\"image_bytes\":"@)
        + decimal(image_len) + encode_utf8(",\"cycles\":"@) + decimal(cycles) + encode_utf8(
        ",\"timing_ns\":{\"min\":"@,
    ) + decimal(seq_min(timings) as nat) + encode_utf8(",\"max\":"@) + decimal(seq_max(timings) as nat)
        + encode_utf8(",\"avg\":"@) + decimal(seq_avg(timings)) + encode_utf8("},\"elapsed_ms\":"@)
        + decimal(elapsed_ms) + fault_json(fault) + encode_utf8("}"@)
}

fn timing_stats(timings: &[u64]) -> (r: (u64, u64, u64))
    requires
        seq_sum(timings@) <= u64::MAX,
    ensures
        r.0 == seq_min(timings@),
        r.1 == seq_max(timings@),
        r.2 == seq_avg(timings@),
{
    let n = timings.len();
    if n == 0 {
        return (0, 0, 0);
    }
    let mut lo = timings[0];
    let mut hi = timings[0];
    let mut sum: u64 = timings[0];
    let mut i: usize = 1;
    proof {
        let p = timings@.subrange(0, 1);
        assert(p.drop_last() =~= Seq::<u64>::empty());
        assert(seq_sum(p.drop_last()) == 0);
        assert(p.last() == timings@[0]);
    }
    while i < n
        invariant
            n == timings@.len(),
            1 <= i <= n,
            seq_sum(timings@) <= u64::MAX,
            lo == seq_min(timings@.subrange(0, i as int)),
            hi == seq_max(timings@.subrange(0, i as int)),
            sum == seq_sum(timings@.subrange(0, i as int)),
        decreases n - i,
    {
        let t = timings[i];
        proof {
            let p = timings@.subrange(0, i + 1);
            assert(p.drop_last() =~= timings@.subrange(0, i as int));
            assert(p.last() == t);
            lemma_sum_prefix_bounded(timings@, i + 1);
        }
        if t < lo {
            lo = t;
        }
        if t > hi {
            hi = t;
        }
        sum = sum + t;
        i = i + 1;
    }
    assert(timings@.subrange(0, n as int) =~= timings@);
    (lo, hi, sum / (n as u64))
}

proof fn lemma_sum_prefix_bounded(s: Seq<u64>, k: int)
    requires
        0 <= k <= s.len(),
    ensures
        seq_sum(s.subrange(0, k)) <= seq_sum(s),
    decreases s.len() - k,
{
    if k < s.len() {
        lemma_sum_prefix_bounded(s, k + 1);
        let p = s.subrange(0, k + 1);
        assert(p.drop_last() =~= s.subrange(0, k));
    } else {
        assert(s.subrange(0, k) =~= s);
    }
}

/// The JSON line of a harness phase. Device and golden paths are written as given.
pub fn json_line(
    phase: &str,
    status: &str,
    args: &RawStressArgs,
    image_len: usize,
    cycles: usize,
    timings_ns: &[u64],
    elapsed_ms: u64,
    fault: Option<(u64, u64, bool)>,
) -> (line: Vec<u8>)
    requires
        seq_sum(timings_ns@) <= u64::MAX,
    ensures
        line@ == phase_json(
            phase.spec_bytes(),
            status.spec_bytes(),
            encode_utf8(args.device@),
            encode_utf8(args.golden@),
            image_len as nat,
            cycles as nat,
            timings_ns@,
            elapsed_ms as nat,
            fault,
        ),
{
    let (min_ns, max_ns, avg_ns) = timing_stats(timings_ns);
    let mut line: Vec<u8> = Vec::new();
    push_str(&mut line, "{\"phase\":\"");
    push_str(&mut line, phase);
    push_str(&mut line, "\",\"status\":\"");
    push_str(&mut line, status);
    push_str(&mut line, "\",\"device\":\"");
    push_str(&mut line, args.device.as_str());
    push_str(&mut line, "\",\"golden\":\"");
    push_str(&mut line, args.golden.as_str());
    push_str(&mut line, "\",\"image_bytes\":");
    push_decimal(&mut line, image_len as u64);
    push_str(&mut line, ",\"cycles\":");
    push_decimal(&mut line, cycles as u64);
    push_str(&mut line, ",\"timing_ns\":{\"min\":");
    push_decimal(&mut line, min_ns);
    push_str(&mut line, ",\"max\":");
    push_decimal(&mut line, max_ns);
    push_str(&mut line, ",\"avg\":");
    push_decimal(&mut line, avg_ns);
    push_str(&mut line, "},\"elapsed_ms\":");
    push_decimal(&mut line, elapsed_ms);
    let ghost before_fault = line@;
    match fault {
        Some((sector, offset, rejected)) => {
            push_str(&mut line, ",\"inject_sector\":");
            push_decimal(&mut line, sector);
            push_str(&mut line, ",\"inject_byte_offset\":");
            push_decimal(&mut line, offset);
            push_str(&mut line, ",\"fail_closed\":");
            if rejected {
                push_str(&mut line, "true");
            } else {
                push_str(&mut line, "false");
            }
        },
        None => {},
    }
    assert(line@ =~= before_fault + fault_json(fault));
    push_str(&mut line, "}");
    line
}

/// Verdict of the fault-injection phase: the harness passes exactly when verification of the
/// image read back after the bit flip was refused (fail-closed). Gives the record status and
/// whether the flip was rejected.
pub fn fault_injection_verdict(accepted_after_flip: bool) -> (v: (&'static str, bool))
    ensures
        v.1 == !accepted_after_flip,
        v.0@ == (if accepted_after_flip {
            "FAIL"@
        } else {
            "PASS"@
        }),
{
    if accepted_after_flip {
        ("FAIL", false)
    } else {
        ("PASS", true)
    }
}

} // verus!

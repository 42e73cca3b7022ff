//! Management API metrics in the Prometheus text exposition format. The counters live in a
//! registry value that the server owns and shares.
use vstd::prelude::*;
use vstd::utf8::encode_utf8;
use crate::text::{decimal, push_decimal, push_str};

verus! {

/// Request, error, asset and alert counts.
#[derive(Debug, Clone, Copy, PartialEq, Eq, Structural)]
pub struct MetricsRegistry {
    pub requests: u64,
    pub errors: u64,
    pub assets: u64,
    pub alerts: u64,
}

impl MetricsRegistry {
    /// All counts zero.
    pub fn new() -> (m: Self)
        ensures
            m == (MetricsRegistry { requests: 0, errors: 0, assets: 0, alerts: 0 }),
    {
        MetricsRegistry { requests: 0, errors: 0, assets: 0, alerts: 0 }
    }

    /// Counts one more request, wrapping around at `u64::MAX` like an atomic counter.
    pub fn increment_requests(&mut self)
        ensures
            final(self).requests == (old(self).requests + 1) % 0x1_0000_0000_0000_0000,
            final(self).errors == old(self).errors,
            final(self).assets == old(self).assets,
            final(self).alerts == old(self).alerts,
    {
        self.requests = self.requests.wrapping_add(1);
    }

    /// Counts one more error, wrapping around at `u64::MAX` like an atomic counter.
    pub fn increment_errors(&mut self)
        ensures
            final(self).errors == (old(self).errors + 1) % 0x1_0000_0000_0000_0000,
            final(self).requests == old(self).requests,
            final(self).assets == old(self).assets,
            final(self).alerts == old(self).alerts,
    {
        self.errors = self.errors.wrapping_add(1);
    }

    /// Records the number of enrolled assets.
    pub fn set_asset_count(&mut self, n: u64)
        ensures
            *final(self) == (MetricsRegistry { assets: n, ..*old(self) }),
    {
        self.assets = n;
    }

    /// Records the number of active alerts.
    pub fn set_alert_count(&mut self, n: u64)
        ensures
            *final(self) == (MetricsRegistry { alerts: n, ..*old(self) }),
    {
        self.alerts = n;
    }
}

/// One metric: help line, type line, then the sample.
pub open spec fn metric_block(name: Seq<char>, help: Seq<char>, kind: Seq<char>, value: nat) -> Seq<u8> {
    encode_utf8("# HELP "@) + encode_utf8(name) + encode_utf8(" "@) + encode_utf8(help) + encode_utf8(
        "\n# TYPE "@,
    ) + encode_utf8(name) + encode_utf8(" "@) + encode_utf8(kind) + encode_utf8("\n"@) + encode_utf8(name)
        + encode_utf8(" "@) + decimal(value) + encode_utf8("\n"@)
}

/// The exposition text of the registry, with the server's uptime.
pub open spec fn metrics_text(m: MetricsRegistry, uptime_secs: u64) -> Seq<u8> {
    metric_block("dfim_http_requests_total"@, "Total HTTP requests"@, "counter"@, m.requests as nat)
        + metric_block("dfim_http_errors_total"@, "Total HTTP errors"@, "counter"@, m.errors as nat)
        + metric_block("dfim_assets_total"@, "Total enrolled assets"@, "gauge"@, m.assets as nat)
        + metric_block("dfim_alerts_active"@, "Active security alerts"@, "gauge"@, m.alerts as nat)
        + metric_block("dfim_uptime_seconds"@, "API uptime"@, "gauge"@, uptime_secs as nat) + encode_utf8(
        "# HELP dfim_build_info Build metadata\n# TYPE dfim_build_info gauge\ndfim_build_info{version=\"1.0.0\",phase=\"5\"} 1\n"@,
    )
}

fn push_metric(out: &mut Vec<u8>, name: &str, help: &str, kind: &str, value: u64)
    ensures
        final(out)@ == old(out)@ + metric_block(name@, help@, kind@, value as nat),
{
    push_str(out, "# HELP ");
    push_str(out, name);
    push_str(out, " ");
    push_str(out, help);
    push_str(out, "\n# TYPE ");
    push_str(out, name);
    push_str(out, " ");
    push_str(out, kind);
    push_str(out, "\n");
    push_str(out, name);
    push_str(out, " ");
    push_decimal(out, value);
    push_str(out, "\n");
    assert(final(out)@ =~= old(out)@ + metric_block(name@, help@, kind@, value as nat));
}

/// Renders the registry in the Prometheus text format.
pub fn render_metrics(m: &MetricsRegistry, uptime_secs: u64) -> (text: Vec<u8>)
    ensures
        text@ == metrics_text(*m, uptime_secs),
{
    let mut out: Vec<u8> = Vec::new();
    push_metric(&mut out, "dfim_http_requests_total", "Total HTTP requests", "counter", m.requests);
    push_metric(&mut out, "dfim_http_errors_total", "Total HTTP errors", "counter", m.errors);
    push_metric(&mut out, "dfim_assets_total", "Total enrolled assets", "gauge", m.assets);
    push_metric(&mut out, "dfim_alerts_active", "Active security alerts", "gauge", m.alerts);
    push_metric(&mut out, "dfim_uptime_seconds", "API uptime", "gauge", uptime_secs);
    push_str(
        &mut out,
        "# HELP dfim_build_info Build metadata\n# TYPE dfim_build_info gauge\ndfim_build_info{version=\"1.0.0\",phase=\"5\"} 1\n",
    );
    out
}

/// Fleet-wide counts for a tenant.
#[derive(Debug, Default, Clone, Copy, PartialEq, Eq)]
pub struct FleetSummaryRaw {
    pub total_assets: i64,
    pub healthy: i64,
    pub tampered: i64,
    pub blocked: i64,
    pub pending: i64,
    pub total_nodes: i64,
    pub total_policies: i64,
    pub active_alerts: i64,
}

} // verus!

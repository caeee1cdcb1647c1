//! Telemetry prefixes of the core layer.

use vstd::prelude::*;

verus! {

/// Name prefixes under which several deployments share one metric namespace.
#[derive(Debug, Clone)]
pub struct Config {
    /// Prefix of every metric name; `None` keeps the canonical names.
    pub metrics_prefix: Option<String>,
    /// Prefix of every span name; `None` keeps the canonical names.
    pub span_prefix: Option<String>,
}

impl Default for Config {
    fn default() -> (r: Self)
        ensures
            r.metrics_prefix is None,
            r.span_prefix is None,
    {
        Config { metrics_prefix: None, span_prefix: None }
    }
}

}

//! Release-gate reasons and admission budgets for Julia hosts and graph-structural pods.
use vstd::prelude::*;
use std::time::Duration;

verus! {

/// `Duration` is `Copy`: its `clone` hands back the same span.
pub assume_specification[ <Duration as Clone>::clone ](d: &Duration) -> (r: Duration)
    ensures
        r == *d,
;

/// Stability reason emitted by the `SearchStrategyFlow` persistent host release gate.
#[derive(Clone, Copy, Debug, PartialEq, Eq)]
pub enum SearchStrategyFlowPersistentHostStabilizationReason {
    /// Warm submits stayed within the configured tail budget.
    Stable,
    /// Warm submit p95 crossed the configured budget.
    P95Exceeded,
    /// Warm submit max latency crossed the configured budget.
    MaxExceeded,
    /// Warm submit spread crossed the configured budget after entering the
    /// meaningful tail-latency region.
    SpreadExceeded,
}

impl SearchStrategyFlowPersistentHostStabilizationReason {
    /// The reporting token of a reason.
    pub open spec fn token(self) -> Seq<char> {
        match self {
            SearchStrategyFlowPersistentHostStabilizationReason::Stable => "stable"@,
            SearchStrategyFlowPersistentHostStabilizationReason::P95Exceeded => "p95_exceeded"@,
            SearchStrategyFlowPersistentHostStabilizationReason::MaxExceeded => "max_exceeded"@,
            SearchStrategyFlowPersistentHostStabilizationReason::SpreadExceeded => "spread_exceeded"@,
        }
    }

    /// Returns the stable JSON/reporting token for this stabilization reason.
    pub fn as_str(self) -> (r: &'static str)
        ensures
            r@ == self.token(),
    {
        match self {
            SearchStrategyFlowPersistentHostStabilizationReason::Stable => "stable",
            SearchStrategyFlowPersistentHostStabilizationReason::P95Exceeded => "p95_exceeded",
            SearchStrategyFlowPersistentHostStabilizationReason::MaxExceeded => "max_exceeded",
            SearchStrategyFlowPersistentHostStabilizationReason::SpreadExceeded => "spread_exceeded",
        }
    }
}

/// The initial admission budget for a host: the preferred budget when stable,
/// the degraded one otherwise, and never below one.
pub open spec fn persistent_host_recommended_max_in_flight(
    reason: SearchStrategyFlowPersistentHostStabilizationReason,
    preferred_max_in_flight: usize,
    degraded_max_in_flight: usize,
) -> usize {
    let budget = match reason {
        SearchStrategyFlowPersistentHostStabilizationReason::Stable => preferred_max_in_flight,
        _ => degraded_max_in_flight,
    };
    if budget >= 1 {
        budget
    } else {
        1
    }
}

pub fn recommended_max_in_flight_for(
    reason: SearchStrategyFlowPersistentHostStabilizationReason,
    preferred_max_in_flight: usize,
    degraded_max_in_flight: usize,
) -> (r: usize)
    ensures
        r == persistent_host_recommended_max_in_flight(
            reason,
            preferred_max_in_flight,
            degraded_max_in_flight,
        ),
{
    let budget = match reason {
        SearchStrategyFlowPersistentHostStabilizationReason::Stable => preferred_max_in_flight,
        _ => degraded_max_in_flight,
    };
    if budget >= 1 {
        budget
    } else {
        1
    }
}

/// Result summary for one graph-structural release prewarm probe.
#[derive(Clone, Debug, PartialEq)]
pub struct WendaoSearchGraphStructuralPrewarmReport {
    /// Number of logical Flight route calls performed.
    pub route_count: usize,
    /// Total elapsed time for all logical prewarm route calls.
    pub elapsed: Duration,
    /// Stable tiny candidate id used by the solver-demo prewarm request.
    pub candidate_id: String,
}

/// Stability reason emitted by the graph-structural release gate.
#[derive(Clone, Copy, Debug, PartialEq, Eq)]
pub enum WendaoSearchGraphStructuralStabilizationReason {
    /// Sequential and concurrent samples stayed within the configured tail budget.
    Stable,
    /// Sequential samples crossed the configured tail budget.
    SequentialExceeded,
    /// Concurrent samples crossed the configured tail budget.
    ConcurrentExceeded,
    /// Both sequential and concurrent samples crossed the configured tail budget.
    BothExceeded,
}

/// The release-gate verdict of a graph-structural pod: why, whether stable, and
/// the initial admission budget.
pub open spec fn graph_structural_verdict(
    sequential_passes: bool,
    concurrent_passes: bool,
    preferred_max_in_flight: usize,
    degraded_max_in_flight: usize,
) -> (WendaoSearchGraphStructuralStabilizationReason, bool, usize) {
    let reason = if sequential_passes && concurrent_passes {
        WendaoSearchGraphStructuralStabilizationReason::Stable
    } else if concurrent_passes {
        WendaoSearchGraphStructuralStabilizationReason::SequentialExceeded
    } else if sequential_passes {
        WendaoSearchGraphStructuralStabilizationReason::ConcurrentExceeded
    } else {
        WendaoSearchGraphStructuralStabilizationReason::BothExceeded
    };
    let preferred = if preferred_max_in_flight >= 1 {
        preferred_max_in_flight
    } else {
        1
    };
    let degraded = if degraded_max_in_flight >= 1 {
        degraded_max_in_flight
    } else {
        1
    };
    let stable = sequential_passes && concurrent_passes;
    (
        reason,
        stable,
        if stable {
            preferred
        } else if degraded <= preferred {
            degraded
        } else {
            preferred
        },
    )
}

pub fn graph_structural_stability_verdict(
    sequential_passes: bool,
    concurrent_passes: bool,
    preferred_max_in_flight: usize,
    degraded_max_in_flight: usize,
) -> (r: (WendaoSearchGraphStructuralStabilizationReason, bool, usize))
    ensures
        r == graph_structural_verdict(
            sequential_passes,
            concurrent_passes,
            preferred_max_in_flight,
            degraded_max_in_flight,
        ),
{
    let reason = match (sequential_passes, concurrent_passes) {
        (true, true) => WendaoSearchGraphStructuralStabilizationReason::Stable,
        (false, true) => WendaoSearchGraphStructuralStabilizationReason::SequentialExceeded,
        (true, false) => WendaoSearchGraphStructuralStabilizationReason::ConcurrentExceeded,
        (false, false) => WendaoSearchGraphStructuralStabilizationReason::BothExceeded,
    };
    let stable = match reason {
        WendaoSearchGraphStructuralStabilizationReason::Stable => true,
        _ => false,
    };
    let preferred = if preferred_max_in_flight >= 1 {
        preferred_max_in_flight
    } else {
        1
    };
    let degraded = if degraded_max_in_flight >= 1 {
        degraded_max_in_flight
    } else {
        1
    };
    let budget = if stable {
        preferred
    } else if degraded <= preferred {
        degraded
    } else {
        preferred
    };
    (reason, stable, budget)
}

/// Index of the `per_mille` percentile in a sorted list of `len` samples:
/// `ceil((len - 1) * per_mille / 1000)`.
pub open spec fn percentile_index_spec(len: nat, per_mille: nat) -> int {
    ((len - 1) * per_mille + 999) / 1000
}

pub fn percentile_index(len: usize, per_mille: usize) -> (r: usize)
    requires
        len >= 1,
        per_mille <= 1000,
        (len - 1) * per_mille + 999 <= usize::MAX,
    ensures
        r as int == percentile_index_spec(len as nat, per_mille as nat),
        r < len,
{
    let last_index = len - 1;
    let r = (last_index * per_mille + 999) / 1000;
    assert(r <= last_index) by (nonlinear_arith)
        requires
            r == (last_index * per_mille + 999) / 1000,
            per_mille <= 1000,
    ;
    r
}

} // verus!

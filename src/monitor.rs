//! The refresh cycle: configuration, the phases of one cycle, and the text
//! emitted for each snapshot.
use vstd::prelude::*;
use vstd::string::StringExecFns;
use crate::frame::{clear_sequence, frame_text, render, reset_cursor};
use crate::process::{rank, ranking, ProcessRecord, SystemSnapshot};

verus! {

/// Seconds between the end of one frame and the next snapshot, by default.
pub const DEFAULT_INTERVAL_SECS: u64 = 2;

/// Rows of the process table, by default.
pub const DEFAULT_MAX_ROWS: u8 = 10;

/// Fixed settings of a running monitor.
pub struct MonitorConfig {
    pub interval_secs: u64,
    pub max_rows: u8,
}

impl MonitorConfig {
    /// The default settings: a refresh every two seconds, ten rows.
    pub fn standard() -> (r: Self)
        ensures
            r.interval_secs == 2,
            r.max_rows == 10,
    {
        MonitorConfig { interval_secs: DEFAULT_INTERVAL_SECS, max_rows: DEFAULT_MAX_ROWS }
    }
}

/// The phases of the refresh cycle, which repeats without end.
#[derive(Clone, Copy, Debug, PartialEq, Eq, Structural)]
pub enum Phase {
    Idle,
    Sampling,
    Ranking,
    Rendering,
    Sleeping,
}

impl Phase {
    /// The phase that follows this one.
    pub open spec fn successor(self) -> Phase {
        match self {
            Phase::Idle => Phase::Sampling,
            Phase::Sampling => Phase::Ranking,
            Phase::Ranking => Phase::Rendering,
            Phase::Rendering => Phase::Sleeping,
            Phase::Sleeping => Phase::Idle,
        }
    }

    /// Moves the cycle on by one phase.
    pub fn next(self) -> (r: Phase)
        ensures
            r == self.successor(),
    {
        match self {
            Phase::Idle => Phase::Sampling,
            Phase::Sampling => Phase::Ranking,
            Phase::Ranking => Phase::Rendering,
            Phase::Rendering => Phase::Sleeping,
            Phase::Sleeping => Phase::Idle,
        }
    }
}

/// Ranks the snapshot's processes under the configured row limit.
pub fn ranked_view(snapshot: &SystemSnapshot, config: &MonitorConfig) -> (r: Vec<ProcessRecord>)
    ensures
        r@ == ranking(snapshot.processes@, config.max_rows as nat),
{
    rank(snapshot, config.max_rows)
}

/// Everything written to the terminal for one snapshot: the clear-and-home
/// sequence, then the frame of the snapshot and its ranked processes.
pub fn cycle_output(snapshot: &SystemSnapshot, config: &MonitorConfig) -> (r: String)
    ensures
        r@ == clear_sequence() + frame_text(
            *snapshot,
            ranking(snapshot.processes@, config.max_rows as nat),
        ),
{
    let view = ranked_view(snapshot, config);
    let frame = render(snapshot, &view);
    let mut out = String::from_str(reset_cursor());
    out.append(frame.as_str());
    out
}

/// Rendering is repeatable: equal snapshots with equal ranked views give
/// identical frames.
pub proof fn lemma_frame_repeatable(
    s1: SystemSnapshot,
    s2: SystemSnapshot,
    v1: Seq<ProcessRecord>,
    v2: Seq<ProcessRecord>,
)
    requires
        s1 == s2,
        v1 == v2,
    ensures
        frame_text(s1, v1) == frame_text(s2, v2),
{
}

/// The cycle comes back to where it started after five phases.
pub proof fn lemma_cycle_returns(p: Phase)
    ensures
        p.successor().successor().successor().successor().successor() == p,
{
}

} // verus!

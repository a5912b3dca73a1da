//! The search for the next horizon crossing of a satellite.
//!
//! The search alternates with the propagator: it asks for the elevation at
//! a time, the caller computes it and hands it back, and the search decides
//! what to ask next. It scans forward from its start in fixed steps until two
//! samples in a row bracket the crossing, then halves the bracket until the
//! elevation at the probe is within `ELEVATION_TOLERANCE` of zero, the bracket
//! is one nanosecond wide, or `MAX_REFINEMENTS` probes have been made.
//!
//! Times are Julian dates in nanoseconds; elevations are in microdegrees.

use vstd::prelude::*;

verus! {

/// Elevation counted as on the horizon, in microdegrees (0.001 degrees).
pub const ELEVATION_TOLERANCE: i64 = 1000;

/// Most probes made while halving a bracket.
pub const MAX_REFINEMENTS: u32 = 64;

/// Which crossing is searched for.
#[derive(Clone, Copy, Debug, PartialEq, Eq)]
pub enum Crossing {
    /// Acquisition of signal: the elevation goes from below the horizon to
    /// at or above it.
    Aos,
    /// Loss of signal: the elevation goes from above the horizon to at or
    /// below it.
    Los,
}

/// Where a search stands.
#[derive(Clone, Copy, Debug, PartialEq, Eq)]
pub enum Phase {
    /// Scanning; the elevation at `probe` is awaited, and `prev` holds the
    /// time and elevation of the sample before it, if there was one.
    Scan { probe: i128, prev: Option<(i128, i64)> },
    /// Halving the bracket `lo..hi`; the elevation at `probe` is awaited and
    /// `n` probes have been made in it.
    Refine { lo: i128, hi: i128, probe: i128, n: u32 },
    /// The search has ended.
    Done,
}

/// What the caller does next.
#[derive(Clone, Copy, Debug, PartialEq, Eq)]
pub enum Action {
    /// Compute the elevation at this time and hand it to `advance`.
    Probe(i128),
    /// The crossing is at this time.
    Found(i128),
    /// There is no crossing up to the end of the search.
    NotFound,
}

#[derive(Clone, Copy, Debug, PartialEq, Eq)]
pub struct PassSearch {
    pub crossing: Crossing,
    /// First time sampled.
    pub start: i128,
    /// No time after this is sampled.
    pub end: i128,
    /// Time between two samples of the scan.
    pub step: i128,
    pub phase: Phase,
}

/// Whether elevation `e` lies on the side of the horizon before the crossing.
pub open spec fn before(c: Crossing, e: i64) -> bool {
    match c {
        Crossing::Aos => e < 0,
        Crossing::Los => e > 0,
    }
}

pub open spec fn abs(e: int) -> int {
    if e < 0 {
        -e
    } else {
        e
    }
}

/// The halfway point of a bracket, rounded down.
pub open spec fn midpoint(lo: int, hi: int) -> int {
    lo + (hi - lo) / 2
}

impl PassSearch {
    pub open spec fn wf(&self) -> bool {
        &&& 0 < self.step
        &&& 0 <= self.start <= self.end
        &&& self.end + self.step <= i128::MAX
        &&& match self.phase {
            Phase::Scan { probe, prev } => self.start <= probe <= self.end && (prev matches Some(
                (t, _),
            ) ==> self.start <= t < probe),
            Phase::Refine { lo, hi, probe, n } => self.start <= lo && lo + 1 < hi <= self.end
                && probe == midpoint(lo as int, hi as int) && n < MAX_REFINEMENTS,
            Phase::Done => true,
        }
    }

    /// The time whose elevation the search awaits.
    pub open spec fn pending(&self) -> Option<i128> {
        match self.phase {
            Phase::Scan { probe, .. } => Some(probe),
            Phase::Refine { probe, .. } => Some(probe),
            Phase::Done => None,
        }
    }

    /// Starts a search for `crossing` over the times `start..=end`, sampled
    /// every `step` nanoseconds; the first action is a probe at `start`.
    pub fn new(crossing: Crossing, start: i128, end: i128, step: i128) -> (r: (PassSearch, Action))
        requires
            0 < step,
            0 <= start <= end,
            end + step <= i128::MAX,
        ensures
            r.0.wf(),
            r.0.crossing == crossing && r.0.start == start && r.0.end == end && r.0.step == step,
            r.0.phase == (Phase::Scan { probe: start, prev: None }),
            r.1 == Action::Probe(start),
    {
        (
            PassSearch { crossing, start, end, step, phase: Phase::Scan { probe: start, prev: None } },
            Action::Probe(start),
        )
    }

    fn is_before(crossing: Crossing, e: i64) -> (r: bool)
        ensures
            r == before(crossing, e),
    {
        match crossing {
            Crossing::Aos => e < 0,
            Crossing::Los => e > 0,
        }
    }

    /// Takes the elevation `elevation` at the pending probe and decides the
    /// next action.
    pub fn advance(&self, elevation: i64) -> (r: (PassSearch, Action))
        requires
            self.wf(),
            self.phase != Phase::Done,
        ensures
            r.0.wf(),
            r.0.crossing == self.crossing && r.0.start == self.start && r.0.end == self.end
                && r.0.step == self.step,
            r.1 matches Action::Probe(t) ==> r.0.pending() == Some(t) && self.start <= t <= self.end,
            !(r.1 matches Action::Probe(_)) <==> r.0.phase == Phase::Done,
            // A crossing is never at the start, so a search from one
            // crossing finds a later one.
            r.1 matches Action::Found(t) ==> self.start < t <= self.end,
            match self.phase {
                Phase::Scan { probe, prev } => {
                    let closes = prev matches Some((_, p)) && before(self.crossing, p) && !before(
                        self.crossing,
                        elevation,
                    );
                    let pt = prev.unwrap().0;
                    if !closes {
                        // Scanning on: the sample does not close a bracket,
                        // and is kept as the one before the next.
                        let next = if self.end - probe < self.step {
                            self.end
                        } else {
                            (probe + self.step) as i128
                        };
                        if probe < self.end {
                            &&& r.1 == Action::Probe(next)
                            &&& r.0.phase == (Phase::Scan {
                                probe: next,
                                prev: Some((probe, elevation)),
                            })
                        } else {
                            r.1 == Action::NotFound
                        }
                    } else if probe - pt <= 1 {
                        // A bracket one nanosecond wide closes at its end.
                        r.1 == Action::Found(probe)
                    } else {
                        // A bracket closes: its ends are the last two samples.
                        r.0.phase == (Phase::Refine {
                            lo: pt,
                            hi: probe,
                            probe: midpoint(pt as int, probe as int) as i128,
                            n: 0,
                        })
                    }
                },
                Phase::Refine { lo, hi, probe, n } => {
                    if abs(elevation as int) <= ELEVATION_TOLERANCE || n + 1 >= MAX_REFINEMENTS {
                        // Halving ends at a probe within the tolerance, or
                        // when the probes are spent.
                        r.1 == Action::Found(probe)
                    } else {
                        // The probe replaces the end of the bracket on its
                        // side of the horizon.
                        let nlo = if before(self.crossing, elevation) {
                            probe
                        } else {
                            lo
                        };
                        let nhi = if before(self.crossing, elevation) {
                            hi
                        } else {
                            probe
                        };
                        if nhi - nlo <= 1 {
                            r.1 == Action::Found(nhi)
                        } else {
                            r.0.phase == (Phase::Refine {
                                lo: nlo,
                                hi: nhi,
                                probe: midpoint(nlo as int, nhi as int) as i128,
                                n: (n + 1) as u32,
                            })
                        }
                    }
                },
                Phase::Done => true,
            },
    {
        let done = PassSearch { phase: Phase::Done, ..*self };
        match self.phase {
            Phase::Scan { probe, prev } => {
                let (closes, lo) = match prev {
                    Some((t, p)) => (
                        Self::is_before(self.crossing, p) && !Self::is_before(
                            self.crossing,
                            elevation,
                        ),
                        t,
                    ),
                    None => (false, probe),
                };
                if closes {
                    if probe - lo <= 1 {
                        (done, Action::Found(probe))
                    } else {
                        let mid = lo + (probe - lo) / 2;
                        (
                            PassSearch {
                                phase: Phase::Refine { lo, hi: probe, probe: mid, n: 0 },
                                ..*self
                            },
                            Action::Probe(mid),
                        )
                    }
                } else if probe < self.end {
                    let next = if self.end - probe < self.step {
                        self.end
                    } else {
                        probe + self.step
                    };
                    (
                        PassSearch { phase: Phase::Scan { probe: next, prev: Some((probe, elevation)) }, ..*self },
                        Action::Probe(next),
                    )
                } else {
                    (done, Action::NotFound)
                }
            },
            Phase::Refine { lo, hi, probe, n } => {
                let near = -ELEVATION_TOLERANCE <= elevation && elevation <= ELEVATION_TOLERANCE;
                if near || n + 1 >= MAX_REFINEMENTS {
                    (done, Action::Found(probe))
                } else {
                    let (nlo, nhi) = if Self::is_before(self.crossing, elevation) {
                        (probe, hi)
                    } else {
                        (lo, probe)
                    };
                    if nhi - nlo <= 1 {
                        (done, Action::Found(nhi))
                    } else {
                        let mid = nlo + (nhi - nlo) / 2;
                        (
                            PassSearch {
                                phase: Phase::Refine { lo: nlo, hi: nhi, probe: mid, n: n + 1 },
                                ..*self
                            },
                            Action::Probe(mid),
                        )
                    }
                }
            },
            Phase::Done => (done, Action::NotFound),
        }
    }
}

} // verus!

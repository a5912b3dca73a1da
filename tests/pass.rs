use gpredict::pass::{Action, Crossing, PassSearch, Phase, ELEVATION_TOLERANCE, MAX_REFINEMENTS};

/// Runs a search against an elevation function and counts the probes.
fn run(crossing: Crossing, start: i128, end: i128, step: i128, elev: impl Fn(i128) -> i64) -> (Action, usize) {
    let (mut search, mut action) = PassSearch::new(crossing, start, end, step);
    let mut probes = 0;
    while let Action::Probe(t) = action {
        assert!(start <= t && t <= end);
        probes += 1;
        let (next, a) = search.advance(elev(t));
        search = next;
        action = a;
    }
    assert_eq!(search.phase, Phase::Done);
    (action, probes)
}

#[test]
fn finds_rise() {
    let (a, _) = run(Crossing::Aos, 0, 1_000_000, 300, |t| ((t - 123_457) * 1000) as i64);
    match a {
        Action::Found(t) => assert!((t - 123_457).abs() <= 1),
        _ => panic!("no rise found"),
    }
}

#[test]
fn finds_set() {
    let (a, _) = run(Crossing::Los, 0, 1_000_000, 1000, |t| (-(t - 500_001) * 1000) as i64);
    match a {
        Action::Found(t) => assert!((t - 500_001).abs() <= 1),
        _ => panic!("no set found"),
    }
}

#[test]
fn rise_needs_elevation_below_first() {
    // Above the horizon at the start, below from 200 to 600, above again after.
    let elev = |t: i128| if t < 200 || t >= 600 { 5_000_000 } else { -5_000_000 };
    let (a, _) = run(Crossing::Aos, 0, 1000, 50, elev);
    assert_eq!(a, Action::Found(600));
}

#[test]
fn no_crossing_within_horizon() {
    let (a, probes) = run(Crossing::Aos, 0, 1000, 100, |_| -1_000_000);
    assert_eq!(a, Action::NotFound);
    assert_eq!(probes, 11);
    let (a, _) = run(Crossing::Los, 0, 1000, 100, |_| 1_000_000);
    assert_eq!(a, Action::NotFound);
}

#[test]
fn last_step_is_shortened_to_the_end() {
    let (mut s, a) = PassSearch::new(Crossing::Aos, 0, 250, 100);
    assert_eq!(a, Action::Probe(0));
    let mut seen = Vec::new();
    let mut a = a;
    while let Action::Probe(t) = a {
        seen.push(t);
        let r = s.advance(-1);
        s = r.0;
        a = r.1;
    }
    assert_eq!(seen, vec![0, 100, 200, 250]);
}

#[test]
fn los_after_aos() {
    // A pass from 1000 to 3000.
    let elev = |t: i128| if t >= 1000 && t < 3000 { ((t - 999) * 10) as i64 } else { -2_000_000 };
    let aos = match run(Crossing::Aos, 0, 10_000, 100, elev).0 {
        Action::Found(t) => t,
        _ => panic!("no rise found"),
    };
    let los = match run(Crossing::Los, aos, 10_000, 100, elev).0 {
        Action::Found(t) => t,
        _ => panic!("no set found"),
    };
    assert!(los > aos);
    assert_eq!(los, 3000);
}

#[test]
fn refinement_narrows_to_one_nanosecond() {
    // The elevation never comes within the tolerance: halving stops when the
    // bracket is one nanosecond wide.
    let elev = |t: i128| if t < 1000 { -ELEVATION_TOLERANCE * 10 } else { ELEVATION_TOLERANCE * 10 };
    let (a, probes) = run(Crossing::Aos, 0, 1 << 40, 1 << 40, elev);
    assert_eq!(a, Action::Found(1000));
    assert!(probes <= 2 + 40);
}

#[test]
fn refinement_is_bounded() {
    let elev = |t: i128| if t < 1000 { -ELEVATION_TOLERANCE * 10 } else { ELEVATION_TOLERANCE * 10 };
    let (a, probes) = run(Crossing::Aos, 0, 1 << 90, 1 << 80, elev);
    assert_eq!(probes, 2 + MAX_REFINEMENTS as usize);
    match a {
        Action::Found(t) => assert!(t >= 1000 && t <= 1 << 80),
        _ => panic!("no rise found"),
    }
}

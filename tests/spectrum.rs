use lightsail::spectrum::SpectrumHistory;

const SEED: (f64, f64) = (1.0, 1.0);

#[test]
fn log_starts_with_the_seed_line() {
    let log = SpectrumHistory::new(SEED);
    assert_eq!(log.len(), 1);
    assert_eq!(log.latest(), &vec![SEED]);
    assert_eq!(log.seed_line(), SEED);
}

#[test]
fn propagation_before_feedback_gives_the_seed_alone() {
    let mut log = SpectrumHistory::new(SEED);
    let r = log.propagate(None, |l: (f64, f64)| (2.0 * l.0, 3.0 * l.1));
    assert_eq!(r, vec![(1.0, 1.0)]);
    assert_eq!(log.len(), 2);
    assert_eq!(log.generation(1), &vec![(1.0, 1.0)]);
}

#[test]
fn propagation_transforms_lines_and_appends_the_seed() {
    let mut log = SpectrumHistory::new(SEED);
    let doppler = 0.5;
    let shift = move |l: (f64, f64)| (l.0 * doppler, l.1 * doppler);
    let first = log.propagate(Some(0), shift);
    assert_eq!(first, vec![(0.5, 0.5), (1.0, 1.0)]);
    let second = log.propagate(Some(1), shift);
    assert_eq!(second, vec![(0.25, 0.25), (0.5, 0.5), (1.0, 1.0)]);
    assert_eq!(log.len(), 3);
    for g in 0..log.len() {
        assert_eq!(*log.generation(g).last().unwrap(), SEED);
    }
}

#[test]
fn index_past_the_log_selects_the_latest_generation() {
    let mut log = SpectrumHistory::new(SEED);
    log.propagate(Some(0), |l: (f64, f64)| (l.0 * 0.5, l.1));
    assert_eq!(log.select(0), 0);
    assert_eq!(log.select(1), 1);
    assert_eq!(log.select(2), 1);
    assert_eq!(log.select(usize::MAX), 1);
    let r = log.propagate(Some(7), |l: (f64, f64)| (l.0 * 0.5, l.1));
    assert_eq!(r, vec![(0.25, 1.0), (0.5, 1.0), (1.0, 1.0)]);
}

#[test]
fn propagation_from_an_older_generation() {
    let mut log = SpectrumHistory::new(SEED);
    log.propagate(Some(0), |l: (f64, f64)| (l.0, l.1 * 0.5));
    log.propagate(Some(1), |l: (f64, f64)| (l.0, l.1 * 0.5));
    let r = log.propagate(Some(0), |l: (f64, f64)| (l.0 * 3.0, 0.0));
    assert_eq!(r, vec![(3.0, 0.0), (1.0, 1.0)]);
    assert_eq!(log.latest(), &r);
}

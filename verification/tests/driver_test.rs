use fuzzy_cmeans::driver::{ConfigError, Driver, Phase, Step};
use fuzzy_cmeans::ieee::{INFINITY, ONE, TWO};

#[test]
fn bit_patterns_are_those_of_the_doubles() {
    assert_eq!(ONE, 1.0f64.to_bits());
    assert_eq!(TWO, 2.0f64.to_bits());
    assert_eq!(INFINITY, f64::INFINITY.to_bits());
}

#[test]
fn zero_clusters_are_refused() {
    assert!(matches!(Driver::new(0, 2, 10, TWO), Err(ConfigError::NoClusters)));
}

#[test]
fn zero_clusters_are_reported_before_a_bad_fuzzifier() {
    assert!(matches!(Driver::new(0, 2, 10, ONE), Err(ConfigError::NoClusters)));
}

#[test]
fn fuzzifier_of_one_or_less_is_refused() {
    for q in [1.0f64, 0.999_999, 0.5, 0.0, -0.0, -1.0, -2.0, f64::MIN_POSITIVE, f64::MIN] {
        assert!(
            matches!(Driver::new(3, 2, 10, q.to_bits()), Err(ConfigError::BadFuzzifier)),
            "{}",
            q
        );
    }
}

#[test]
fn fuzzifier_that_is_no_number_is_refused() {
    for q in [f64::NAN, -f64::NAN, f64::INFINITY, f64::NEG_INFINITY] {
        assert!(
            matches!(Driver::new(3, 2, 10, q.to_bits()), Err(ConfigError::BadFuzzifier)),
            "{}",
            q
        );
    }
    assert!(matches!(Driver::new(3, 2, 10, u64::MAX), Err(ConfigError::BadFuzzifier)));
}

#[test]
fn fuzzifier_above_one_is_accepted() {
    for q in [1.000_000_000_000_000_2f64, 1.5, 2.0, 3.0, 1e10, f64::MAX] {
        assert!(Driver::new(3, 2, 10, q.to_bits()).is_ok(), "{}", q);
    }
}

#[test]
fn run_without_iterations_only_initializes() {
    let mut d = Driver::new(4, 3, 0, TWO).unwrap();
    assert_eq!(d.current_phase(), Phase::Initializing);
    assert_eq!(d.pending(), Step::Initialize { clusters: 4, dims: 3 });
    assert!(!d.is_done());
    d.advance();
    assert_eq!(d.current_phase(), Phase::Done);
    assert_eq!(d.pending(), Step::Finish);
    assert!(d.is_done());
}

#[test]
fn run_refines_exactly_as_often_as_asked() {
    let q = 2.5f64.to_bits();
    let mut d = Driver::new(2, 5, 3, q).unwrap();
    let mut steps = Vec::new();
    while !d.is_done() {
        steps.push(d.pending());
        d.advance();
    }
    assert_eq!(
        steps,
        vec![
            Step::Initialize { clusters: 2, dims: 5 },
            Step::Refine { iteration: 0, fuzzifier: q },
            Step::Refine { iteration: 1, fuzzifier: q },
            Step::Refine { iteration: 2, fuzzifier: q },
        ]
    );
    assert_eq!(d.pending(), Step::Finish);
}

#[test]
fn finished_run_stays_finished() {
    let mut d = Driver::new(1, 1, 1, TWO).unwrap();
    d.advance();
    assert_eq!(d.current_phase(), Phase::Iterating(0));
    d.advance();
    assert_eq!(d.current_phase(), Phase::Done);
    d.advance();
    d.advance();
    assert_eq!(d.current_phase(), Phase::Done);
    assert_eq!(d.pending(), Step::Finish);
}

#[test]
fn run_of_many_iterations_counts_up() {
    let mut d = Driver::new(1, 1, usize::MAX, TWO).unwrap();
    d.advance();
    for t in 0..1000 {
        assert_eq!(d.pending(), Step::Refine { iteration: t, fuzzifier: TWO });
        d.advance();
    }
    assert!(!d.is_done());
}

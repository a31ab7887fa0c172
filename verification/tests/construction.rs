//! Building a gene and finding its faults.

use bounded_gene::{CandidateF64, Double, GeneError, CROSSOVER_INDEX, MUTATION_INDEX};

fn d(x: f64) -> Double {
    Double::from_bits(x.to_bits())
}

fn f(x: Double) -> f64 {
    f64::from_bits(x.to_bits())
}

#[test]
fn distribution_indices() {
    assert_eq!(CROSSOVER_INDEX, 2);
    assert_eq!(MUTATION_INDEX, 5);
}

#[test]
fn new_keeps_what_it_is_given() {
    let g = CandidateF64::new(d(5.0), d(0.0), d(10.0)).unwrap();
    assert_eq!(f(g.val), 5.0);
    assert_eq!(f(g.range.0), 0.0);
    assert_eq!(f(g.range.1), 10.0);
    assert_eq!(g.check(), Ok(()));
}

#[test]
fn an_inverted_range_is_rejected() {
    let r = CandidateF64::new(d(3.0), d(5.0), d(1.0));
    assert_eq!(r.err(), Some(GeneError::MalformedRange));
    let r = CandidateF64::new(d(5.0), d(5.0), d(1.0));
    assert_eq!(r.err(), Some(GeneError::MalformedRange));
}

#[test]
fn an_inverted_range_is_found_on_a_gene_built_by_hand() {
    let g = CandidateF64 { val: d(3.0), range: (d(5.0), d(1.0)) };
    assert_eq!(g.check(), Err(GeneError::MalformedRange));
}

#[test]
fn a_range_of_one_point_is_in_order() {
    let g = CandidateF64::new(d(2.0), d(2.0), d(2.0)).unwrap();
    assert_eq!(f(g.val), 2.0);
    assert!(CandidateF64::new(d(0.0), d(0.0), d(-0.0)).is_ok());
    assert!(CandidateF64::new(d(0.0), d(-0.0), d(0.0)).is_ok());
}

#[test]
fn the_value_need_not_lie_in_the_range() {
    let g = CandidateF64::new(d(50.0), d(0.0), d(10.0)).unwrap();
    assert_eq!(f(g.val), 50.0);
    let g = CandidateF64::new(d(-50.0), d(0.0), d(10.0)).unwrap();
    assert_eq!(f(g.val), -50.0);
}

#[test]
fn numbers_that_are_not_finite_are_rejected() {
    let bad = [f64::NAN, f64::INFINITY, f64::NEG_INFINITY];
    for x in bad {
        assert_eq!(CandidateF64::new(d(x), d(0.0), d(1.0)).err(), Some(GeneError::NonFinite));
        assert_eq!(CandidateF64::new(d(0.5), d(x), d(1.0)).err(), Some(GeneError::NonFinite));
        assert_eq!(CandidateF64::new(d(0.5), d(0.0), d(x)).err(), Some(GeneError::NonFinite));
    }
}

#[test]
fn an_inverted_range_is_reported_before_a_value_that_is_not_finite() {
    let r = CandidateF64::new(d(f64::NAN), d(5.0), d(1.0));
    assert_eq!(r.err(), Some(GeneError::MalformedRange));
}

#[test]
fn a_bound_that_is_not_finite_is_reported_before_the_order_of_the_bounds() {
    let r = CandidateF64::new(d(0.0), d(f64::INFINITY), d(1.0));
    assert_eq!(r.err(), Some(GeneError::NonFinite));
}

#[test]
fn a_gene_can_be_copied() {
    let g = CandidateF64::new(d(5.0), d(0.0), d(10.0)).unwrap();
    let h = g.clone();
    assert_eq!(h.val.to_bits(), g.val.to_bits());
    assert_eq!(h.range.0.to_bits(), g.range.0.to_bits());
    assert_eq!(h.range.1.to_bits(), g.range.1.to_bits());
}

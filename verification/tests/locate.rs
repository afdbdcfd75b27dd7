//! Each property run over many generated inputs with crabcheck: on a correct
//! `SmallVec` every run passes.

use crabcheck::gens;
use crabcheck::{Config, TestResult};
use smallvec::etna::{
    property_append_preserves_length, property_from_vec_zero_capacity,
    property_leak_inline_panics, PropertyResult,
};

fn to_result(r: PropertyResult) -> TestResult {
    match r {
        PropertyResult::Pass => TestResult::Pass,
        PropertyResult::Fail(m) => TestResult::Fail(m),
        PropertyResult::Discard => TestResult::Discard(String::from("discarded")),
    }
}

fn config() -> Config {
    Config::default().seed(7).tests(200)
}

#[test]
fn locate_leak_inline_panics() {
    let report = crabcheck::check(
        &config(),
        (gens::vec(gens::int::<u8>(..)).len(0..32), gens::int::<u8>(..)),
        |(values, inline_cap): (Vec<u8>, u8)| to_result(property_leak_inline_panics(values, inline_cap)),
    );
    report.assert_passed();
}

#[test]
fn locate_append_preserves_length() {
    let report = crabcheck::check(
        &config(),
        (gens::vec(gens::int::<i64>(..)).len(0..16), gens::vec(gens::int::<i64>(..)).len(0..16)),
        |(a, b): (Vec<i64>, Vec<i64>)| to_result(property_append_preserves_length(a, b)),
    );
    report.assert_passed();
}

#[test]
fn locate_from_vec_zero_capacity() {
    let report = crabcheck::check(
        &config(),
        gens::vec(gens::int::<u16>(..)).len(0..8),
        |push_after: Vec<u16>| to_result(property_from_vec_zero_capacity(push_after)),
    );
    report.assert_passed();
}

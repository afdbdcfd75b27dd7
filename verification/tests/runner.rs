use smallvec::etna::{property_from_vec_zero_capacity_given, PropertyResult};
use smallvec::pow2::checked_next_power_of_two;
use smallvec::runner::{
    all_properties, canonical_append, canonical_from_vec_zero, canonical_leak, cases_budget_from,
    check_property, json_str, parse_property_name, parse_tool, report_line, run_all_step,
    selects_all, to_err, Metrics, PropertyName, Tool,
};
use smallvec::text::{append_number, i64_list_text, number_between, u16_list_text, u8_list_text};
use smallvec::SmallVec;

#[test]
fn json_str_quotes_plain_text() {
    assert_eq!(json_str("abc"), "\"abc\"");
    assert_eq!(json_str(""), "\"\"");
}

#[test]
fn json_str_escapes_specials() {
    assert_eq!(json_str("a\"b\\c"), "\"a\\\"b\\\\c\"");
    assert_eq!(json_str("x\ny\rz\tw"), "\"x\\ny\\rz\\tw\"");
}

#[test]
fn json_str_escapes_control_characters_as_unicode() {
    assert_eq!(json_str("\u{1}"), "\"\\u0001\"");
    assert_eq!(json_str("\u{1f}z"), "\"\\u001fz\"");
    assert_eq!(json_str("é\u{7f}"), "\"é\u{7f}\"");
}

#[test]
fn next_power_of_two_values() {
    assert_eq!(checked_next_power_of_two(0), Some(1));
    assert_eq!(checked_next_power_of_two(1), Some(1));
    assert_eq!(checked_next_power_of_two(2), Some(2));
    assert_eq!(checked_next_power_of_two(3), Some(4));
    assert_eq!(checked_next_power_of_two(5), Some(8));
    assert_eq!(checked_next_power_of_two(1024), Some(1024));
    assert_eq!(checked_next_power_of_two(usize::MAX / 2 + 1), Some(usize::MAX / 2 + 1));
    assert_eq!(checked_next_power_of_two(usize::MAX / 2 + 2), None);
    assert_eq!(checked_next_power_of_two(usize::MAX), None);
}

#[test]
fn to_err_maps_each_result() {
    assert_eq!(to_err(PropertyResult::Pass), Ok(()));
    assert_eq!(to_err(PropertyResult::Discard), Ok(()));
    assert_eq!(to_err(PropertyResult::Fail("boom".to_string())), Err("boom".to_string()));
}

#[test]
fn metrics_combine_adds_up() {
    let a = Metrics { inputs: 3, elapsed_us: 10 };
    let b = Metrics { inputs: 4, elapsed_us: 25 };
    let c = a.combine(b);
    assert_eq!(c.inputs, 7);
    assert_eq!(c.elapsed_us, 35);
    let d = Metrics::default();
    assert_eq!(d.inputs, 0);
    assert_eq!(d.elapsed_us, 0);
}

#[test]
fn canonical_inputs() {
    let l = canonical_leak();
    assert_eq!(l.values, vec![0x42]);
    assert_eq!(l.inline_cap, 1);
    let a = canonical_append();
    assert_eq!(a.a, vec![1, 2, 3]);
    assert_eq!(a.b, vec![4, 5]);
    assert_eq!(canonical_from_vec_zero().push_after, vec![7, 8, 9]);
}

#[test]
fn every_canonical_check_passes() {
    for p in all_properties() {
        assert_eq!(check_property(p), Ok(()), "{}", p.name());
    }
}

#[test]
fn property_names_parse() {
    assert_eq!(parse_property_name("LeakInlinePanics"), Some(PropertyName::LeakInlinePanics));
    assert_eq!(
        parse_property_name("AppendPreservesLength"),
        Some(PropertyName::AppendPreservesLength)
    );
    assert_eq!(parse_property_name("FromVecZeroCapacity"), Some(PropertyName::FromVecZeroCapacity));
    assert_eq!(parse_property_name("All"), None);
    assert_eq!(parse_property_name("leakinlinepanics"), None);
    assert!(selects_all("All"));
    assert!(!selects_all("all"));
    assert_eq!(all_properties().len(), 3);
    for p in all_properties() {
        assert_eq!(parse_property_name(p.name()), Some(p));
    }
}

#[test]
fn tool_names_parse() {
    assert_eq!(parse_tool("etna"), Some(Tool::Etna));
    assert_eq!(parse_tool("proptest"), Some(Tool::Proptest));
    assert_eq!(parse_tool("quickcheck"), Some(Tool::Quickcheck));
    assert_eq!(parse_tool("crabcheck"), Some(Tool::Crabcheck));
    assert_eq!(parse_tool("hegel"), Some(Tool::Hegel));
    assert_eq!(parse_tool("cargo"), None);
}

#[test]
fn zero_capacity_checks_fail_on_a_spilled_vector() {
    let sv: SmallVec<u16, 2> = SmallVec::from_vec_with_capacity(Vec::new(), 4);
    match property_from_vec_zero_capacity_given(sv, vec![1, 2]) {
        PropertyResult::Fail(m) => {
            assert_eq!(m, "SmallVec::from_vec(Vec::with_capacity(0)) was spilled (len=0, cap=4)")
        }
        _ => panic!("expected a failure"),
    }
}

#[test]
fn zero_capacity_checks_fail_on_a_nonempty_vector() {
    let sv: SmallVec<u16, 2> = SmallVec::from_vec_with_capacity(vec![3], 1);
    assert!(matches!(property_from_vec_zero_capacity_given(sv, vec![]), PropertyResult::Fail(_)));
}

#[test]
fn zero_capacity_checks_pass_on_an_empty_inline_vector() {
    let sv: SmallVec<u16, 2> = SmallVec::new();
    assert!(matches!(
        property_from_vec_zero_capacity_given(sv, vec![1, 2, 3, 4, 5]),
        PropertyResult::Pass
    ));
}

#[test]
fn decimal_text_of_numbers() {
    let mut t = String::from("n=");
    append_number(&mut t, 0);
    assert_eq!(t, "n=0");
    append_number(&mut t, 1209);
    assert_eq!(t, "n=01209");
    assert_eq!(number_between("<", usize::MAX, ">"), format!("<{}>", usize::MAX));
    assert_eq!(number_between("", 10, ""), "10");
}

#[test]
fn zero_capacity_checks_report_the_length_of_a_nonempty_vector() {
    let mut sv: SmallVec<u16, 2> = SmallVec::new();
    sv.push(4);
    match property_from_vec_zero_capacity_given(sv, vec![]) {
        PropertyResult::Fail(m) => {
            assert_eq!(m, "SmallVec::from_vec(Vec::with_capacity(0)).len()=1")
        }
        _ => panic!("expected a failure"),
    }
}

#[test]
fn report_line_writes_every_field() {
    let m = Metrics { inputs: 12, elapsed_us: 3400 };
    assert_eq!(
        report_line("etna", "All", "passed", m, None, None),
        "{\"status\":\"passed\",\"tests\":12,\"discards\":0,\"time\":\"3400us\",\"counterexample\":null,\"error\":null,\"tool\":\"etna\",\"property\":\"All\"}"
    );
    let m = Metrics { inputs: 0, elapsed_us: 0 };
    assert_eq!(
        report_line("hegel", "X", "failed", m, Some("(a=\"q\")"), Some("line\nbreak")),
        "{\"status\":\"failed\",\"tests\":0,\"discards\":0,\"time\":\"0us\",\"counterexample\":\"(a=\\\"q\\\")\",\"error\":\"line\\nbreak\",\"tool\":\"hegel\",\"property\":\"X\"}"
    );
}

#[test]
fn cases_budget_reads_a_u64_or_defaults() {
    assert_eq!(cases_budget_from(None), 200);
    assert_eq!(cases_budget_from(Some("50")), 50);
    assert_eq!(cases_budget_from(Some("+7")), 7);
    assert_eq!(cases_budget_from(Some("007")), 7);
    assert_eq!(cases_budget_from(Some("0")), 0);
    assert_eq!(cases_budget_from(Some("18446744073709551615")), u64::MAX);
    assert_eq!(cases_budget_from(Some("18446744073709551616")), 200);
    assert_eq!(cases_budget_from(Some("")), 200);
    assert_eq!(cases_budget_from(Some("+")), 200);
    assert_eq!(cases_budget_from(Some("-1")), 200);
    assert_eq!(cases_budget_from(Some(" 5")), 200);
    assert_eq!(cases_budget_from(Some("5x")), 200);
    assert_eq!(cases_budget_from(Some("٣")), 200);
    for text in ["1", "+12", "99999", "x", "", "+", "-0", "1_000"] {
        assert_eq!(cases_budget_from(Some(text)), text.parse::<u64>().unwrap_or(200), "{}", text);
    }
}

#[test]
fn run_all_step_adds_metrics_and_stops_on_error() {
    let total = Metrics { inputs: 2, elapsed_us: 5 };
    let (t, stop) = run_all_step(total, Ok(()), Metrics { inputs: 1, elapsed_us: 7 });
    assert_eq!((t.inputs, t.elapsed_us), (3, 12));
    assert_eq!(stop, None);
    let (t, stop) = run_all_step(t, Err("bad".to_string()), Metrics { inputs: 4, elapsed_us: 1 });
    assert_eq!((t.inputs, t.elapsed_us), (7, 13));
    assert_eq!(stop, Some("bad".to_string()));
}

#[test]
fn list_texts_match_debug() {
    let bytes: Vec<u8> = vec![0, 7, 255];
    assert_eq!(u8_list_text(&bytes), format!("{:?}", bytes));
    assert_eq!(u8_list_text(&[]), "[]");
    let wide: Vec<u16> = vec![65535, 10];
    assert_eq!(u16_list_text(&wide), format!("{:?}", wide));
    let signed: Vec<i64> = vec![i64::MIN, -1, 0, 42, i64::MAX];
    assert_eq!(i64_list_text(&signed), format!("{:?}", signed));
    assert_eq!(i64_list_text(&[5]), "[5]");
}

#[test]
fn runner_messages() {
    assert_eq!(
        smallvec::runner::unknown_property_message(Tool::Hegel, "Nope"),
        "Unknown property for hegel: Nope"
    );
    assert_eq!(smallvec::runner::unknown_tool_message("cargo"), "Unknown tool: cargo");
    assert_eq!(
        smallvec::runner::hegel_failure_message("Property test failed: (a=[1])"),
        "(a=[1])"
    );
    assert_eq!(smallvec::runner::hegel_failure_message("boom"), "boom");
    assert_eq!(smallvec::runner::hegel_failure_message("Property test"), "Property test");
    assert_eq!(Tool::Crabcheck.name(), "crabcheck");
}

use native_shim::codes::{
    map_asof_strategy, map_closed_window, map_concat_strategy, map_decimal_precision,
    map_fill_limit, map_jointype, map_pivot_agg, map_primitive_type, parse_window_size, AggKind,
    AsofStrategyKind, ClosedWindowKind, ConcatKind, JoinKind, TypeCode,
};
use native_shim::render::{render_bool, render_i64, render_u64, schema_text};

#[test]
fn join_codes_map_as_documented() {
    assert_eq!(map_jointype(0), JoinKind::Inner);
    assert_eq!(map_jointype(1), JoinKind::Left);
    assert_eq!(map_jointype(2), JoinKind::Full);
    assert_eq!(map_jointype(3), JoinKind::Cross);
    assert_eq!(map_jointype(4), JoinKind::Semi);
    assert_eq!(map_jointype(5), JoinKind::Anti);
    assert_eq!(map_jointype(-1), JoinKind::Inner);
    assert_eq!(map_jointype(99), JoinKind::Inner);
}

#[test]
fn closed_window_keywords_map_with_left_fallback() {
    assert_eq!(map_closed_window("left"), ClosedWindowKind::Left);
    assert_eq!(map_closed_window("right"), ClosedWindowKind::Right);
    assert_eq!(map_closed_window("both"), ClosedWindowKind::Both);
    assert_eq!(map_closed_window("none"), ClosedWindowKind::Neither);
    assert_eq!(map_closed_window("sideways"), ClosedWindowKind::Left);
}

#[test]
fn pivot_aggregation_codes_map_with_first_fallback() {
    assert_eq!(map_pivot_agg(0), AggKind::First);
    assert_eq!(map_pivot_agg(1), AggKind::Sum);
    assert_eq!(map_pivot_agg(2), AggKind::Min);
    assert_eq!(map_pivot_agg(3), AggKind::Max);
    assert_eq!(map_pivot_agg(4), AggKind::Mean);
    assert_eq!(map_pivot_agg(5), AggKind::Median);
    assert_eq!(map_pivot_agg(6), AggKind::Count);
    assert_eq!(map_pivot_agg(7), AggKind::Len);
    assert_eq!(map_pivot_agg(8), AggKind::Last);
    assert_eq!(map_pivot_agg(42), AggKind::First);
}

#[test]
fn concat_codes_map_and_reject_unknown() {
    assert_eq!(map_concat_strategy(0).unwrap(), ConcatKind::Vertical);
    assert_eq!(map_concat_strategy(1).unwrap(), ConcatKind::Horizontal);
    assert_eq!(map_concat_strategy(2).unwrap(), ConcatKind::Diagonal);
    let e = map_concat_strategy(3).unwrap_err();
    assert_eq!(e.message(), &String::from("Invalid concat strategy"));
}

#[test]
fn asof_strategy_keywords_map_with_backward_fallback() {
    assert_eq!(map_asof_strategy("forward"), AsofStrategyKind::Forward);
    assert_eq!(map_asof_strategy("nearest"), AsofStrategyKind::Nearest);
    assert_eq!(map_asof_strategy("backward"), AsofStrategyKind::Backward);
    assert_eq!(map_asof_strategy(""), AsofStrategyKind::Backward);
}

#[test]
fn zero_limits_and_precisions_mean_none() {
    assert_eq!(map_fill_limit(0), None);
    assert_eq!(map_fill_limit(7), Some(7));
    assert_eq!(map_decimal_precision(0), None);
    assert_eq!(map_decimal_precision(38), Some(38));
}

#[test]
fn primitive_type_codes_map_with_unknown_fallback() {
    assert_eq!(map_primitive_type(1), TypeCode::Bool);
    assert_eq!(map_primitive_type(5), TypeCode::Int64);
    assert_eq!(map_primitive_type(11), TypeCode::Float64);
    assert_eq!(map_primitive_type(12), TypeCode::Text);
    assert_eq!(map_primitive_type(17), TypeCode::Binary);
    assert_eq!(map_primitive_type(0), TypeCode::Unknown);
    assert_eq!(map_primitive_type(18), TypeCode::Unknown);
}

#[test]
fn window_sizes_parse_from_digits_with_index_marker() {
    assert_eq!(parse_window_size("3"), Some(3));
    assert_eq!(parse_window_size("3i"), Some(3));
    assert_eq!(parse_window_size(" 10i "), Some(10));
    assert_eq!(parse_window_size("0"), Some(0));
    assert_eq!(parse_window_size("18446744073709551615"), Some(18446744073709551615));
}

#[test]
fn time_spans_and_junk_are_no_window_sizes() {
    assert_eq!(parse_window_size("3d"), None);
    assert_eq!(parse_window_size(""), None);
    assert_eq!(parse_window_size("   "), None);
    assert_eq!(parse_window_size("i"), None);
    assert_eq!(parse_window_size("-3"), None);
    assert_eq!(parse_window_size("18446744073709551616"), None);
}

#[test]
fn decimal_rendering_is_exact() {
    assert_eq!(render_u64(0), String::from("0"));
    assert_eq!(render_u64(10), String::from("10"));
    assert_eq!(render_u64(u64::MAX), String::from("18446744073709551615"));
    assert_eq!(render_i64(-1), String::from("-1"));
    assert_eq!(render_i64(i64::MIN), String::from("-9223372036854775808"));
    assert_eq!(render_i64(i64::MAX), String::from("9223372036854775807"));
    assert_eq!(render_bool(true), String::from("true"));
    assert_eq!(render_bool(false), String::from("false"));
}

#[test]
fn schema_line_lists_fields_in_order() {
    let fields = vec![
        (String::from("age"), String::from("Int64")),
        (String::from("name"), String::from("String")),
    ];
    assert_eq!(
        schema_text(&fields),
        String::from("{ \"age\": \"Int64\", \"name\": \"String\" }")
    );
    assert_eq!(schema_text(&vec![]), String::from("{  }"));
}

use open_cowork::config::{
    parse_max_tool_iterations, should_stop_tool_loop, MAX_TOOL_ITERATIONS_ENV,
};

#[test]
fn parse_max_tool_iterations_defaults_to_zero() {
    assert_eq!(parse_max_tool_iterations(None), 0);
    assert_eq!(parse_max_tool_iterations(Some("")), 0);
    assert_eq!(parse_max_tool_iterations(Some("not-a-number")), 0);
}

#[test]
fn parse_max_tool_iterations_parses_valid_numbers() {
    assert_eq!(parse_max_tool_iterations(Some("6")), 6);
    assert_eq!(parse_max_tool_iterations(Some(" 12 ")), 12);
}

#[test]
fn should_stop_tool_loop_respects_limit() {
    assert!(!should_stop_tool_loop(0, 3));
    assert!(!should_stop_tool_loop(2, 3));
    assert!(should_stop_tool_loop(3, 3));
    assert!(should_stop_tool_loop(4, 3));
}

#[test]
fn should_stop_tool_loop_unlimited_when_zero() {
    assert!(!should_stop_tool_loop(0, 0));
    assert!(!should_stop_tool_loop(100, 0));
}

#[test]
fn unreadable_limits_mean_unlimited() {
    assert_eq!(parse_max_tool_iterations(Some("abc")), 0);
    assert_eq!(parse_max_tool_iterations(Some("   ")), 0);
    assert_eq!(parse_max_tool_iterations(Some("-1")), 0);
    assert_eq!(parse_max_tool_iterations(Some("1.5")), 0);
    assert_eq!(parse_max_tool_iterations(Some("12 3")), 0);
    assert_eq!(parse_max_tool_iterations(Some("+")), 0);
    assert_eq!(
        parse_max_tool_iterations(Some("99999999999999999999999999")),
        0
    );
    assert!(!should_stop_tool_loop(
        usize::MAX,
        parse_max_tool_iterations(Some("abc"))
    ));
}

#[test]
fn limits_are_read_like_unsigned_numbers() {
    assert_eq!(parse_max_tool_iterations(Some("+7")), 7);
    assert_eq!(parse_max_tool_iterations(Some("007")), 7);
    assert_eq!(parse_max_tool_iterations(Some("\t2\n")), 2);
    assert_eq!(parse_max_tool_iterations(Some("0")), 0);
    assert_eq!(
        parse_max_tool_iterations(Some(&usize::MAX.to_string())),
        usize::MAX
    );
}

#[test]
fn limit_setting_has_its_name() {
    assert_eq!(MAX_TOOL_ITERATIONS_ENV, "OPEN_COWORK_MAX_TOOL_ITERATIONS");
}

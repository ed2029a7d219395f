use slider_rs::decimal::{Decimal, ParseError};
use slider_rs::model::{
    apply_keyboard_step, fill_percent, keyboard_value, ConfigError, Direction, Notification,
    SliderConfig, SliderState,
};
use slider_rs::Orientation;

fn d(text: &str) -> Decimal {
    Decimal::parse(text).unwrap()
}

fn config(min: &str, max: &str, step: &str) -> SliderConfig {
    SliderConfig::new(d(min), d(max), d(step), Orientation::Horizontal).unwrap()
}

#[test]
fn parse_reads_whole_and_fraction() {
    assert_eq!(d("2.5").units, 2_500_000);
    assert_eq!(d("-3").units, -3_000_000);
    assert_eq!(d("+7.25").units, 7_250_000);
    assert_eq!(d(".5").units, 500_000);
    assert_eq!(d("5.").units, 5_000_000);
    assert_eq!(d("0.000001").units, 1);
    assert_eq!(d("1.2345678").units, 1_234_567);
    assert_eq!(d("-0").units, 0);
}

#[test]
fn parse_refuses_malformed_text() {
    for text in ["", "-", "+", ".", "-.", "not-a-number", "1.2.3", "1e5", "NaN", "inf", " 1", "1,5"] {
        assert_eq!(Decimal::parse(text), Err(ParseError::Malformed), "{}", text);
    }
}

#[test]
fn parse_refuses_out_of_range() {
    assert_eq!(Decimal::parse("9223372036854.775807").unwrap().units, i64::MAX);
    assert_eq!(Decimal::parse("-9223372036854.775808").unwrap().units, i64::MIN);
    assert_eq!(Decimal::parse("9223372036854.775808"), Err(ParseError::OutOfRange));
    assert_eq!(Decimal::parse("99999999999999999999999"), Err(ParseError::OutOfRange));
    assert_eq!(Decimal::parse("99999999999999999999999x"), Err(ParseError::Malformed));
}

#[test]
fn to_text_is_shortest() {
    assert_eq!(Decimal::from_units(2_500_000).to_text(), "2.5");
    assert_eq!(Decimal::from_int(10).to_text(), "10");
    assert_eq!(Decimal::from_int(0).to_text(), "0");
    assert_eq!(Decimal::from_units(-1).to_text(), "-0.000001");
    assert_eq!(Decimal::from_units(-12_340_000).to_text(), "-12.34");
    assert_eq!(Decimal::from_units(i64::MIN).to_text(), "-9223372036854.775808");
}

#[test]
fn text_round_trips() {
    for units in [0, 1, -1, 2_500_000, 999_999, 1_000_001, -70_000, i64::MAX, i64::MIN] {
        let v = Decimal::from_units(units);
        assert_eq!(Decimal::parse(&v.to_text()), Ok(v));
    }
}

#[test]
fn single_set_primary_stores_value_and_notifies_once() {
    let cfg = config("0", "100", "1");
    let mut state = SliderState::new(&cfg, false, None, None);
    assert_eq!(state, SliderState::Single { value: d("0") });
    let v = d("42.5");
    let notes = state.set_primary(&v.to_text()).unwrap();
    assert_eq!(state.primary(), v);
    assert_eq!(notes, vec![Notification::ValueChanged(v)]);
}

#[test]
fn single_mode_stores_out_of_range_value_verbatim() {
    let cfg = config("0", "10", "1");
    let mut state = SliderState::new(&cfg, false, Some(d("5")), None);
    state.set_primary("250").unwrap();
    assert_eq!(state.primary(), d("250"));
}

#[test]
fn double_primary_stops_at_secondary() {
    let cfg = config("0", "100", "1");
    let mut state = SliderState::new(&cfg, true, None, Some((d("20"), d("80"))));
    let notes = state.set_primary("90").unwrap();
    assert_eq!(state, SliderState::Double { primary: d("80"), secondary: d("80") });
    assert_eq!(
        notes,
        vec![Notification::RangeChanged(d("80"), d("80")), Notification::ValueChanged(d("80"))]
    );
    let notes = state.set_primary("30").unwrap();
    assert_eq!(state, SliderState::Double { primary: d("30"), secondary: d("80") });
    assert_eq!(
        notes,
        vec![Notification::RangeChanged(d("30"), d("80")), Notification::ValueChanged(d("30"))]
    );
}

#[test]
fn double_secondary_stops_at_primary() {
    let cfg = config("0", "100", "1");
    let mut state = SliderState::new(&cfg, true, None, Some((d("20"), d("80"))));
    let notes = state.set_secondary("10").unwrap();
    assert_eq!(state, SliderState::Double { primary: d("20"), secondary: d("20") });
    assert_eq!(
        notes,
        vec![Notification::RangeChanged(d("20"), d("20")), Notification::ValueChanged(d("20"))]
    );
    state.set_secondary("65.5").unwrap();
    assert_eq!(state.secondary(), Some(d("65.5")));
    assert_eq!(state.primary(), d("20"));
}

#[test]
fn set_primary_not_a_number_changes_nothing() {
    let cfg = config("0", "100", "1");
    let mut state = SliderState::new(&cfg, true, None, Some((d("20"), d("80"))));
    let before = state;
    assert_eq!(state.set_primary("not-a-number"), Err(ParseError::Malformed));
    assert_eq!(state, before);
    assert_eq!(state.set_secondary("not-a-number"), Err(ParseError::Malformed));
    assert_eq!(state, before);
}

#[test]
fn set_secondary_on_single_slider_does_nothing() {
    let cfg = config("0", "100", "1");
    let mut state = SliderState::new(&cfg, false, Some(d("3")), None);
    assert_eq!(state.set_secondary("50"), Ok(vec![]));
    assert_eq!(state, SliderState::Single { value: d("3") });
    assert_eq!(state.secondary(), None);
}

#[test]
fn set_primary_twice_notifies_twice_alike() {
    let cfg = config("0", "100", "1");
    let mut state = SliderState::new(&cfg, true, None, None);
    let first = state.set_primary("40").unwrap();
    let after_first = state;
    let second = state.set_primary("40").unwrap();
    assert_eq!(first, second);
    assert_eq!(state, after_first);
    assert_eq!(first.len(), 2);
}

#[test]
fn initial_state_follows_value_then_range_then_bounds() {
    let cfg = config("0", "10", "1");
    assert_eq!(
        SliderState::new(&cfg, true, None, None),
        SliderState::Double { primary: d("0"), secondary: d("10") }
    );
    assert_eq!(
        SliderState::new(&cfg, true, Some(d("4")), Some((d("2"), d("8")))),
        SliderState::Double { primary: d("4"), secondary: d("8") }
    );
    assert_eq!(
        SliderState::new(&cfg, false, None, Some((d("2"), d("8")))),
        SliderState::Single { value: d("2") }
    );
    assert!(SliderState::new(&cfg, true, None, None).is_double());
}

#[test]
fn tick_values_quarter_steps() {
    let ticks = config("0", "10", "2.5").tick_values();
    assert_eq!(ticks, vec![d("0"), d("2.5"), d("5.0"), d("7.5"), d("10.0")]);
}

#[test]
fn tick_values_stop_before_max() {
    let ticks = config("1", "10", "4").tick_values();
    assert_eq!(ticks, vec![d("1"), d("5"), d("9")]);
}

#[test]
fn tick_values_empty_for_continuous_or_negative_step() {
    assert!(config("0", "10", "0").tick_values().is_empty());
    let raw = SliderConfig { min: d("0"), max: d("10"), step: d("-1"), orientation: Orientation::Vertical };
    assert!(raw.tick_values().is_empty());
}

#[test]
fn config_refuses_bad_bounds_and_steps() {
    assert_eq!(
        SliderConfig::new(d("5"), d("5"), d("1"), Orientation::Horizontal),
        Err(ConfigError::EmptyRange)
    );
    assert_eq!(
        SliderConfig::new(d("6"), d("5"), d("1"), Orientation::Horizontal),
        Err(ConfigError::EmptyRange)
    );
    assert_eq!(
        SliderConfig::new(d("0"), d("5"), d("-1"), Orientation::Horizontal),
        Err(ConfigError::NegativeStep)
    );
    assert!(config("0", "5", "0").is_continuous());
    assert!(!config("0", "5", "1").is_continuous());
}

#[test]
fn step_attribute_is_any_when_continuous() {
    assert_eq!(config("0", "5", "0").step_attribute(), "any");
    assert_eq!(config("0", "5", "0.25").step_attribute(), "0.25");
}

#[test]
fn fill_percent_examples() {
    assert_eq!(fill_percent(d("25"), d("0"), d("100")), Some(d("25.0")));
    assert_eq!(fill_percent(d("0"), d("0"), d("100")), Some(d("0.0")));
    assert_eq!(fill_percent(d("100"), d("0"), d("100")), Some(d("100.0")));
    assert_eq!(fill_percent(d("1"), d("0"), d("3")), Some(Decimal::from_units(33_333_333)));
    assert_eq!(fill_percent(d("-1"), d("0"), d("3")), Some(Decimal::from_units(-33_333_333)));
}

#[test]
fn fill_percent_too_large_is_none() {
    let top = Decimal::from_units(i64::MAX);
    assert_eq!(fill_percent(top, Decimal::from_units(0), Decimal::from_units(1)), None);
}

#[test]
fn keyboard_step_examples() {
    assert_eq!(apply_keyboard_step(d("50"), Direction::Increase, d("5"), d("0"), d("100")), d("55"));
    assert_eq!(apply_keyboard_step(d("98"), Direction::Increase, d("5"), d("0"), d("100")), d("100"));
    assert_eq!(apply_keyboard_step(d("2"), Direction::Decrease, d("5"), d("0"), d("100")), d("0"));
    assert_eq!(apply_keyboard_step(d("2.5"), Direction::Decrease, d("0.5"), d("0"), d("100")), d("2"));
}

#[test]
fn keys_map_to_directions() {
    assert_eq!(Direction::from_key("ArrowLeft"), Some(Direction::Decrease));
    assert_eq!(Direction::from_key("ArrowDown"), Some(Direction::Decrease));
    assert_eq!(Direction::from_key("ArrowRight"), Some(Direction::Increase));
    assert_eq!(Direction::from_key("ArrowUp"), Some(Direction::Increase));
    assert_eq!(Direction::from_key("Enter"), None);
    assert_eq!(Direction::from_key("arrowup"), None);
}

#[test]
fn keyboard_value_from_raw_input() {
    assert_eq!(keyboard_value("50", "ArrowUp", d("1"), d("0"), d("100")), d("51"));
    assert_eq!(keyboard_value("50", "Tab", d("1"), d("0"), d("100")), d("50"));
    assert_eq!(keyboard_value("junk", "ArrowUp", d("1"), d("5"), d("100")), d("5"));
    assert_eq!(keyboard_value("150", "Tab", d("1"), d("0"), d("100")), d("100"));
}

#[test]
fn to_fixed_rounds_half_to_even() {
    assert_eq!(d("5").to_fixed(1), "5.0");
    assert_eq!(d("25").to_fixed(2), "25.00");
    assert_eq!(d("0").to_fixed(2), "0.00");
    assert_eq!(d("2.5").to_fixed(0), "2");
    assert_eq!(d("3.5").to_fixed(0), "4");
    assert_eq!(d("0.25").to_fixed(1), "0.2");
    assert_eq!(d("0.35").to_fixed(1), "0.4");
    assert_eq!(d("0.126").to_fixed(2), "0.13");
    assert_eq!(d("9.96").to_fixed(1), "10.0");
    assert_eq!(d("-1.25").to_fixed(1), "-1.2");
    assert_eq!(d("-0.04").to_fixed(1), "-0.0");
    assert_eq!(d("1.234567").to_fixed(6), "1.234567");
    assert_eq!(Decimal::from_units(i64::MIN).to_fixed(0), "-9223372036855");
}

#[test]
fn step_labels_round_each_tick() {
    assert_eq!(config("0", "10", "2.5").step_labels(), vec!["0", "2", "5", "8", "10"]);
    assert_eq!(config("1", "10", "4").step_labels(), vec!["1", "5", "9"]);
    assert!(config("0", "10", "0").step_labels().is_empty());
}

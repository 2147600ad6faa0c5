use temp_panel::textfmt::format_value;
use temp_panel::units::{rounded_deg, to_display};
use temp_panel::Unit;

fn text(v: i64, unit: Unit) -> String {
    format_value(v, unit).into_iter().collect()
}

#[test]
fn value_cell_pads_to_three_columns() {
    assert_eq!(text(to_display(45_000, Unit::Celsius), Unit::Celsius), " 45°C");
    assert_eq!(text(to_display(5_000, Unit::Celsius), Unit::Celsius), "  5°C");
    assert_eq!(text(0, Unit::Celsius), "  0°C");
}

#[test]
fn value_cell_uses_unit_letter() {
    assert_eq!(
        text(to_display(45_000, Unit::Fahrenheit), Unit::Fahrenheit),
        "113°F"
    );
}

#[test]
fn negative_values_keep_their_sign() {
    assert_eq!(text(to_display(-40_000, Unit::Celsius), Unit::Celsius), "-40°C");
    // -40 °C is exactly -40 °F.
    assert_eq!(
        text(to_display(-40_000, Unit::Fahrenheit), Unit::Fahrenheit),
        "-40°F"
    );
}

#[test]
fn wide_values_overflow_their_three_columns() {
    assert_eq!(text(to_display(1_234_000, Unit::Celsius), Unit::Celsius), "1234°C");
}

#[test]
fn rounding_is_nearest_ties_to_even() {
    // 0.5 and 1.5 degrees, in display units of 1/5000 degree
    assert_eq!(rounded_deg(2_500), 0);
    assert_eq!(rounded_deg(7_500), 2);
    assert_eq!(rounded_deg(2_501), 1);
    assert_eq!(rounded_deg(-2_500), 0);
    assert_eq!(rounded_deg(-7_500), -2);
    assert_eq!(rounded_deg(4_999), 1);
}

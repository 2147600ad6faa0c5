use temp_panel::aggregate::aggregate;
use temp_panel::backend::{hardware_readings, normalize_device_name};
use temp_panel::reading::{HwSample, Reading, Source};
use temp_panel::render::plan_rows;
use temp_panel::units::{from_display, to_display};
use temp_panel::widget::{Rational, TempWidget, Theme};
use temp_panel::Unit;

use tui::buffer::Buffer;
use tui::layout::Rect;
use tui::style::{Color, Style};

fn theme() -> Theme {
    Theme {
        text: Style::default(),
        temp_low: Style::default().fg(Color::Green),
        temp_high: Style::default().fg(Color::Red),
    }
}

fn hw_sample(unit: &str, value_milli: i64) -> HwSample {
    HwSample {
        unit: unit.to_string(),
        label: None,
        value_milli,
    }
}

fn scenario_readings(unit: Unit) -> Vec<Reading> {
    let hw = hardware_readings(vec![
        hw_sample("cpu", 45_000),
        hw_sample("chipset", 0),
        hw_sample("gpu-die", 62_000),
    ]);
    let acc = vec![Reading {
        label: "RTX".to_string(),
        value: 70_000,
        source: Source::Accelerator,
    }];
    aggregate(hw, acc, unit)
}

#[test]
fn scenario_merges_filters_and_orders() {
    let out = scenario_readings(Unit::Celsius);
    let got: Vec<(String, i64)> = out.iter().map(|r| (r.label.clone(), r.value)).collect();
    assert_eq!(
        got,
        vec![
            ("RTX".to_string(), 70 * 5000),
            ("gpu-die".to_string(), 62 * 5000),
            ("cpu".to_string(), 45 * 5000),
        ]
    );
}

#[test]
fn scenario_all_low_below_threshold_eighty() {
    let out = scenario_readings(Unit::Celsius);
    let rows = plan_rows(&out, Rect::new(0, 0, 20, 10), 80 * 5000, Unit::Celsius);
    assert_eq!(rows.len(), 3);
    assert!(rows.iter().all(|row| !row.high));
}

#[test]
fn scenario_threshold_sixty_splits_emphasis() {
    let out = scenario_readings(Unit::Celsius);
    let rows = plan_rows(&out, Rect::new(0, 0, 20, 10), 60 * 5000, Unit::Celsius);
    assert_eq!(rows.len(), 3);
    assert!(rows[0].high); // RTX at 70
    assert!(rows[1].high); // gpu-die at 62
    assert!(!rows[2].high); // cpu at 45
}

#[test]
fn hardware_zero_dropped_accelerator_zero_kept() {
    let hw = hardware_readings(vec![hw_sample("cold", 0), hw_sample("warm", 1_000)]);
    assert_eq!(hw.len(), 1);
    assert_eq!(hw[0].label, "warm");
    let acc = vec![Reading {
        label: "idle-gpu".to_string(),
        value: 0,
        source: Source::Accelerator,
    }];
    let out = aggregate(hw, acc, Unit::Celsius);
    let got: Vec<(String, i64)> = out.iter().map(|r| (r.label.clone(), r.value)).collect();
    assert_eq!(
        got,
        vec![("warm".to_string(), 5000), ("idle-gpu".to_string(), 0)]
    );
}

#[test]
fn hardware_negative_dropped() {
    let hw = hardware_readings(vec![hw_sample("below", -5_000), hw_sample("ok", 30_000)]);
    assert_eq!(hw.len(), 1);
    assert_eq!(hw[0].label, "ok");
}

#[test]
fn hardware_label_joins_unit_and_sublabel() {
    let hw = hardware_readings(vec![HwSample {
        unit: "coretemp".to_string(),
        label: Some("core0".to_string()),
        value_milli: 41_000,
    }]);
    assert_eq!(hw.len(), 1);
    assert_eq!(hw[0].label, "coretemp-core0");
    assert_eq!(hw[0].source, Source::Hardware);
}

#[test]
fn ties_keep_concatenation_order() {
    let hw = hardware_readings(vec![hw_sample("first", 50_000), hw_sample("second", 50_000)]);
    let acc = vec![Reading {
        label: "third".to_string(),
        value: 50_000,
        source: Source::Accelerator,
    }];
    let out = aggregate(hw, acc, Unit::Celsius);
    let labels: Vec<String> = out.iter().map(|r| r.label.clone()).collect();
    assert_eq!(
        labels,
        vec![
            "first".to_string(),
            "second".to_string(),
            "third".to_string(),
        ]
    );
}

#[test]
fn fahrenheit_conversion_is_exact() {
    // 45 °C is exactly 113 °F.
    assert_eq!(to_display(45_000, Unit::Fahrenheit), 113 * 5000);
    assert_eq!(to_display(45_000, Unit::Celsius), 45 * 5000);
}

#[test]
fn conversion_round_trips() {
    for c in [-40_000i64, -1, 0, 1, 36_600, 45_000, 99_999] {
        let f = to_display(c, Unit::Fahrenheit);
        assert_eq!(from_display(f, Unit::Fahrenheit), c);
        let v = to_display(c, Unit::Celsius);
        assert_eq!(from_display(v, Unit::Celsius), c);
    }
}

#[test]
fn normalize_strips_vendor_prefix_once() {
    assert_eq!(normalize_device_name("NVIDIA GeForce RTX"), "GeForce RTX");
    assert_eq!(normalize_device_name("Radeon VII"), "Radeon VII");
    assert_eq!(normalize_device_name("NVIDIA"), "NVIDIA");
    assert_eq!(normalize_device_name(""), "");
}

#[test]
fn new_panel_is_empty_with_five_second_cadence() {
    let w = TempWidget::new(theme(), false);
    assert!(w.ordered_readings().is_empty());
    assert_eq!(w.get_update_interval(), Rational { numer: 5, denom: 1 });
}

#[test]
fn update_publishes_sorted_snapshot() {
    let mut w = TempWidget::new(theme(), false);
    w.update(vec![
        hw_sample("a", 10_000),
        hw_sample("b", 90_000),
        hw_sample("c", 0),
        hw_sample("d", 55_000),
    ]);
    let readings = w.ordered_readings();
    let values: Vec<i64> = readings.iter().map(|r| r.value).collect();
    let mut expected = values.clone();
    expected.sort_by(|x, y| y.cmp(x));
    assert_eq!(values, expected);
    assert!(readings.iter().all(|r| r.value > 0));
}

#[test]
fn short_area_draws_chrome_only() {
    let mut w = TempWidget::new(theme(), false);
    w.update(vec![hw_sample("cpu", 45_000)]);
    let area = Rect::new(0, 0, 20, 1);
    let mut buf = Buffer::empty(area);
    w.render(area, &mut buf);

    let empty_panel = TempWidget::new(theme(), false);
    let mut chrome_only = Buffer::empty(area);
    empty_panel.render(area, &mut chrome_only);
    assert_eq!(buf, chrome_only);
}

#[test]
fn zero_inner_height_plans_no_rows() {
    let out = scenario_readings(Unit::Celsius);
    for h in [0u16, 1, 2] {
        let rows = plan_rows(&out, Rect::new(0, 0, 20, h), 80 * 5000, Unit::Celsius);
        assert!(rows.len() <= h.saturating_sub(2) as usize);
    }
}

#[test]
fn render_writes_labels_and_low_values() {
    let mut w = TempWidget::new(theme(), false);
    w.update(vec![hw_sample("cpu", 45_000)]);
    let area = Rect::new(0, 0, 20, 5);
    let mut buf = Buffer::empty(area);
    w.render(area, &mut buf);

    let row: String = (1..19).map(|x| buf.get(x, 1).symbol.clone()).collect();
    assert!(row.starts_with("cpu"));
    assert!(row.contains(" 45°C"));
    // value cell is right-aligned at the inner-right edge
    assert_eq!(buf.get(14, 1).symbol, " ");
    assert_eq!(buf.get(15, 1).symbol, "4");
    assert_eq!(buf.get(16, 1).symbol, "5");
    assert_eq!(buf.get(17, 1).symbol, "°");
    assert_eq!(buf.get(18, 1).symbol, "C");
    // 45 is below the 80-degree threshold: low emphasis
    assert_eq!(buf.get(15, 1).style().fg, Some(Color::Green));
    assert_eq!(buf.get(16, 1).style().fg, Some(Color::Green));
}

#[test]
fn unavailable_accelerator_gives_hardware_only_result() {
    // In an environment without an accelerator subsystem the session fails
    // to initialize, and a tick must equal the hardware-only aggregation.
    let samples = || {
        vec![
            hw_sample("a", 10_000),
            hw_sample("b", 90_000),
            hw_sample("c", 0),
        ]
    };
    let mut w = TempWidget::new(theme(), false);
    w.update(samples());
    let expected = aggregate(hardware_readings(samples()), Vec::new(), Unit::Celsius);
    let got: Vec<(String, i64)> = w
        .ordered_readings()
        .iter()
        .map(|r| (r.label.clone(), r.value))
        .collect();
    let want: Vec<(String, i64)> = expected
        .iter()
        .map(|r| (r.label.clone(), r.value))
        .collect();
    assert_eq!(got, want);
}

#[test]
fn fahrenheit_panel_renders_high_emphasis_at_threshold() {
    // 85 degrees Celsius is 185 degrees Fahrenheit, at or above the
    // 80-degree-Celsius threshold (176 degrees Fahrenheit): high emphasis.
    let mut w = TempWidget::new(theme(), true);
    w.update(vec![hw_sample("cpu", 85_000)]);
    let area = Rect::new(0, 0, 20, 5);
    let mut buf = Buffer::empty(area);
    w.render(area, &mut buf);
    assert_eq!(buf.get(14, 1).symbol, "1");
    assert_eq!(buf.get(15, 1).symbol, "8");
    assert_eq!(buf.get(16, 1).symbol, "5");
    assert_eq!(buf.get(17, 1).symbol, "°");
    assert_eq!(buf.get(18, 1).symbol, "F");
    assert_eq!(buf.get(14, 1).style().fg, Some(Color::Red));
}

#[test]
fn render_leaves_cells_outside_the_area_untouched() {
    let mut w = TempWidget::new(theme(), false);
    w.update(vec![hw_sample("cpu", 45_000)]);
    let big = Rect::new(0, 0, 30, 10);
    let area = Rect::new(0, 0, 20, 5);
    let mut buf = Buffer::empty(big);
    w.render(area, &mut buf);
    for y in 0..10u16 {
        for x in 0..30u16 {
            if y >= 5 {
                assert_eq!(buf.get(x, y).symbol, " ");
            }
        }
    }
}

#[test]
fn render_clips_to_inner_height() {
    let mut w = TempWidget::new(theme(), false);
    w.update(vec![
        hw_sample("one", 10_000),
        hw_sample("two", 20_000),
        hw_sample("three", 30_000),
        hw_sample("four", 40_000),
    ]);
    let area = Rect::new(0, 0, 20, 4); // inner height 2: only two rows fit
    let mut buf = Buffer::empty(area);
    w.render(area, &mut buf);
    // rows 1 and 2 carry data; row 3 is the bottom border
    assert_eq!(buf.get(1, 1).symbol, "f"); // "four" (40 highest)
    assert_eq!(buf.get(1, 2).symbol, "t"); // "three"
    let bottom: String = (0..20).map(|x| buf.get(x, 3).symbol.clone()).collect();
    assert!(!bottom.contains("two"));
}

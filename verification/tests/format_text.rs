use tail_f_plot::format::{
    classify_x_unit, day_parts, hour_parts, minute_parts, plain_parts, seconds_parts, value_row_parts,
    tidy_fixed, tidy_scientific, trim_zeros, x_style, XStyle, XUnit,
};

fn parts(v: Vec<(String, bool)>) -> Vec<(String, bool)> {
    v
}

fn p(s: &str, b: bool) -> (String, bool) {
    (s.to_string(), b)
}

#[test]
fn trim_zeros_drops_zeros_and_point() {
    assert_eq!(trim_zeros("1.500000"), "1.5");
    assert_eq!(trim_zeros("2.000000"), "2");
    assert_eq!(trim_zeros("100"), "1");
    assert_eq!(trim_zeros("-0.0"), "-0");
}

#[test]
fn tidy_fixed_only_with_point() {
    assert_eq!(tidy_fixed("12.3400"), "12.34");
    assert_eq!(tidy_fixed("100"), "100");
    assert_eq!(tidy_fixed("inf"), "inf");
}

#[test]
fn tidy_scientific_keeps_exponent() {
    assert_eq!(tidy_scientific("1.500000e3"), "1.5e3");
    assert_eq!(tidy_scientific("1.000000e-7"), "1e-7");
    assert_eq!(tidy_scientific("NaN"), "NaN");
}

#[test]
fn unit_kinds() {
    assert_eq!(classify_x_unit("days"), XUnit::Day);
    assert_eq!(classify_x_unit("min"), XUnit::Minute);
    assert_eq!(classify_x_unit("hours"), XUnit::Hour);
    assert_eq!(classify_x_unit("sec"), XUnit::Second);
    assert_eq!(classify_x_unit(""), XUnit::Empty);
    assert_eq!(classify_x_unit("m"), XUnit::Other);
}

#[test]
fn styles() {
    assert_eq!(x_style("min", false, true, false), XStyle::MinuteClock);
    assert_eq!(x_style("min", false, false, false), XStyle::PlainWithUnit);
    assert_eq!(x_style("d", true, false, false), XStyle::DayClock);
    assert_eq!(x_style("h", false, false, true), XStyle::HourClock);
    assert_eq!(x_style("s", true, true, true), XStyle::Seconds);
    assert_eq!(x_style("", false, false, false), XStyle::Plain);
}

#[test]
fn day_readout() {
    assert_eq!(
        parts(day_parts(false, 3, 4, 5, 6)),
        vec![p("t = ", false), p("3", true), p("d 04:05:06", false)]
    );
    assert_eq!(
        parts(day_parts(true, 12, 23, 59, 60)),
        vec![p("t = -", false), p("12", true), p("d 23:59:60", false)]
    );
}

#[test]
fn minute_readout() {
    assert_eq!(
        parts(minute_parts(false, 7, 5, 0)),
        vec![p("t = ", false), p("7", true), p(":05", false)]
    );
    assert_eq!(
        parts(minute_parts(true, 120, 30, 4)),
        vec![p("t = -", false), p("120", true), p(":30.4", false)]
    );
}

#[test]
fn hour_readout() {
    assert_eq!(
        parts(hour_parts(false, 1, 2, 3, 9)),
        vec![p("t = ", false), p("1", true), p(":02", false), p(":03.9", false)]
    );
}

#[test]
fn seconds_and_plain_readouts() {
    assert_eq!(parts(seconds_parts("-12.0")), vec![p("t = ", false), p("-12", true)]);
    assert_eq!(parts(plain_parts("1.25", "")), vec![p("x = ", false), p("1.25", true)]);
    assert_eq!(
        parts(plain_parts("1.25", "m")),
        vec![p("x = ", false), p("1.25", true), p(" (m)", false)]
    );
}

#[test]
fn value_rows() {

    assert_eq!(
        value_row_parts("y", "1.5", "K"),
        vec![p("y", false), p(" = ", false), p("1.5", true), p(" (K)", false)]
    );
    assert_eq!(value_row_parts("T", "2", ""), vec![p("T", false), p(" = ", false), p("2", true)]);
}

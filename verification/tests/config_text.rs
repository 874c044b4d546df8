use tail_f_plot::config::{
    default_colors, exception_text, help_text, join_strings, order_bold, order_monospace,
    order_proportional, resolve_colors, resolve_delimiter, resolve_string_quote,
    resolve_time_scale, seconds_per_unit, series_legend_name, series_names, window_title,
    x_axis_label, TimeScale,
};

fn strings(v: &[&str]) -> Vec<String> {
    v.iter().map(|s| s.to_string()).collect()
}

#[test]
fn delimiter_names() {
    assert_eq!(resolve_delimiter("tab"), "\t");
    assert_eq!(resolve_delimiter("semicolon"), ";");
    assert_eq!(resolve_delimiter("space"), " ");
    assert_eq!(resolve_delimiter("vbar"), "|");
    assert_eq!(resolve_delimiter("comma"), ",");
    assert_eq!(resolve_delimiter("TAB"), ",");
    assert_eq!(resolve_delimiter(""), ",");
}

#[test]
fn quote_names() {
    assert_eq!(resolve_string_quote("squote"), Some('\''));
    assert_eq!(resolve_string_quote("dquote"), Some('"'));
    assert_eq!(resolve_string_quote("backtick"), Some('`'));
    assert_eq!(resolve_string_quote("none"), None);
    assert_eq!(resolve_string_quote("quote"), None);
}

#[test]
fn time_scale_names() {
    assert_eq!(resolve_time_scale("d"), Some(TimeScale::Days));
    assert_eq!(resolve_time_scale("h"), Some(TimeScale::Hours));
    assert_eq!(resolve_time_scale("m"), Some(TimeScale::Minutes));
    assert_eq!(resolve_time_scale("s"), Some(TimeScale::Seconds));
    assert_eq!(resolve_time_scale("min"), None);
    assert_eq!(seconds_per_unit(TimeScale::Days), 86400);
    assert_eq!(seconds_per_unit(TimeScale::Hours), 3600);
    assert_eq!(seconds_per_unit(TimeScale::Minutes), 60);
    assert_eq!(seconds_per_unit(TimeScale::Seconds), 1);
}

#[test]
fn colors_default_palette_when_empty() {
    let c = resolve_colors(&[]);
    assert_eq!(c.len(), 12);
    assert_eq!(c[0], [31, 119, 180]);
    assert_eq!(c[11], [152, 223, 138]);
    assert_eq!(c, default_colors());
}

#[test]
fn colors_parse_hex_entries() {
    let c = resolve_colors(&strings(&["#FF0000", "00ff7f", "##0A0b0C"]));
    assert_eq!(c, vec![[255, 0, 0], [0, 255, 127], [10, 11, 12]]);
}

#[test]
fn colors_skip_unreadable_entries() {
    let c = resolve_colors(&strings(&["#12345", "#GG0000", "#-10000", "#1234567", "#102030"]));
    assert_eq!(c, vec![[16, 32, 48]]);
    let none = resolve_colors(&strings(&["red"]));
    assert!(none.is_empty());
}

#[test]
fn colors_drop_sign_characters() {
    let c = resolve_colors(&strings(&["+f+1+0", "#+F+F+F", "#00ff00"]));
    assert_eq!(c, vec![[0, 255, 0]]);
}

#[test]
fn colors_non_ascii_entry_is_skipped() {
    let c = resolve_colors(&strings(&["ééé"]));
    assert!(c.is_empty());
}

#[test]
fn help_text_layout() {
    let h = help_text("plot.exe", "1.2.3.4");
    assert!(h.starts_with("HANA tail-f_plot v1.2.3.4\n\nReal-time CSV plotting tool.\n\nUsage:\nplot.exe <CSV_PATH> [OPTIONS]\n"));
    assert!(h.contains("\n(max-points / max-x-range: stricter of the two applies)\n"));
    assert!(h.ends_with("Example:\nplot.exe data.csv --y-cols 2,3 --y-names \"Temp,Pressure\"\nplot.exe data.tsv --delimiter tab --y-cols 2,3"));
}

#[test]
fn join_with_separator() {
    assert_eq!(join_strings(&strings(&["a", "b", "c"]), ","), "a,b,c");
    assert_eq!(join_strings(&[], ","), "");
}

#[test]
fn title_with_and_without_names() {
    assert_eq!(window_title(&[], "data.csv", "0.2"), "data.csv - HANA tail-f_plot - v0.2");
    assert_eq!(
        window_title(&strings(&["Temp", "Pressure"]), "data.csv", "0.2"),
        "Temp,Pressure - data.csv - HANA tail-f_plot - v0.2"
    );
    assert_eq!(window_title(&strings(&[""]), "f", "1"), "f - HANA tail-f_plot - v1");
}

#[test]
fn exception_text_drops_usage_lines() {
    let msg = "error: unexpected argument '--foo' found\n\nUsage: tail-f_plot [OPTIONS]\r\n\nFor more information, try '--help'.\n";
    assert_eq!(
        exception_text(msg, "plot.exe"),
        "EXCEPTION: error: unexpected argument '--foo' found\n\n\nFor more information, try '--help'.\n\nRun `plot.exe --help` for usage."
    );
}

#[test]
fn exception_text_of_empty_message() {
    assert_eq!(exception_text("", "x"), "EXCEPTION: \n\nRun `x --help` for usage.");
}

#[test]
fn names_default_to_columns() {
    assert_eq!(series_names(&[], &[2, 10]), vec!["Col2", "Col10"]);
    assert_eq!(series_names(&strings(&["A"]), &[2, 3]), vec!["A"]);
}

#[test]
fn axis_label_with_unit() {
    assert_eq!(x_axis_label("Time", "min"), "Time (min)");
    assert_eq!(x_axis_label("Time", ""), "Time");
}

#[test]
fn legend_name_with_value() {
    assert_eq!(series_legend_name("T", Some("1.5"), "K"), "T : 1.5(K)");
    assert_eq!(series_legend_name("T", None, "K"), "T");
}

#[test]
fn font_order() {
    let mut p = strings(&["base"]);
    order_proportional(&mut p, true, true);
    assert_eq!(p, vec!["segoe_ui", "segoe_symbol", "base"]);
    let mut q = strings(&["base"]);
    order_proportional(&mut q, false, true);
    assert_eq!(q, vec!["segoe_symbol", "base"]);
    let mut m = strings(&["mono"]);
    order_monospace(&mut m, true);
    assert_eq!(m, vec!["consolas", "mono"]);
    let mut b = Vec::new();
    order_bold(&mut b, true, &p);
    assert_eq!(b, vec!["segoe_bold", "segoe_ui", "segoe_symbol", "base"]);
    let mut b2 = Vec::new();
    order_bold(&mut b2, false, &strings(&["x"]));
    assert_eq!(b2, vec!["x"]);
}

use tail_f_plot::csv::{split_on_delimiter, Fed, LineFeeder, RowParser};

fn parser(delim: &str, widths: Vec<usize>, quote: Option<char>, merge: bool) -> RowParser {
    RowParser::new(1, &[2, 3], delim.to_string(), widths, quote, merge)
}

#[test]
fn split_on_comma_keeps_empty_fields() {
    assert_eq!(split_on_delimiter("a,,b,", ","), vec!["a", "", "b", ""]);
}

#[test]
fn split_on_multi_char_delimiter() {
    assert_eq!(split_on_delimiter("1::2:::3", "::"), vec!["1", "2", ":3"]);
}

#[test]
fn split_on_empty_delimiter_separates_every_char() {
    assert_eq!(split_on_delimiter("ab", ""), vec!["", "a", "b", ""]);
    assert_eq!(split_on_delimiter("", ""), vec!["", ""]);
}

#[test]
fn split_without_delimiter_gives_whole_line() {
    assert_eq!(split_on_delimiter("abc", ";"), vec!["abc"]);
    assert_eq!(split_on_delimiter("", ";"), vec![""]);
}

#[test]
fn new_converts_one_based_columns() {
    let p = RowParser::new(0, &[1, 0, 5], ",".to_string(), vec![], None, false);
    assert_eq!(p.x_col, 0);
    assert_eq!(p.y_cols, vec![0, 0, 4]);
    let p = RowParser::new(3, &[], ",".to_string(), vec![], None, false);
    assert_eq!(p.x_col, 2);
}

#[test]
fn merge_delimiter_drops_blank_fields() {
    let p = parser(" ", vec![], None, true);
    assert_eq!(p.split_fields("  1   2  3 "), vec!["1", "2", "3"]);
    let p = parser(" ", vec![], None, false);
    assert_eq!(p.split_fields("1  2"), vec!["1", "", "2"]);
}

#[test]
fn fixed_width_fields_by_bytes() {
    let p = parser(",", vec![3, 2, 4, 2], None, false);
    assert_eq!(p.split_fields("abcdefg"), vec!["abc", "de", "fg", ""]);
}

#[test]
fn fixed_width_cut_inside_character_gives_empty_field() {
    // 'é' takes two bytes: a cut after one byte falls inside it.
    let p = parser(",", vec![1, 2, 3], None, false);
    assert_eq!(p.split_fields("aébc"), vec!["a", "é", "bc"]);
    let p = parser(",", vec![2, 3], None, false);
    assert_eq!(p.split_fields("aébc"), vec!["", ""]);
}

#[test]
fn parse_row_extracts_trimmed_cells() {
    let p = parser(",", vec![], None, false);
    let r = p.parse_row("10, 1.5 ,,x").unwrap();
    assert_eq!(r.x, "10");
    assert_eq!(r.ys, vec![Some("1.5".to_string()), None]);
}

#[test]
fn parse_row_strips_quotes_after_trimming() {
    let p = parser(",", vec![], Some('"'), false);
    let r = p.parse_row(" \"7\" ,\"\"2\"\", \"\" ").unwrap();
    assert_eq!(r.x, "7");
    assert_eq!(r.ys, vec![Some("2".to_string()), None]);
}

#[test]
fn parse_row_missing_columns() {
    let p = parser(",", vec![], None, false);
    let r = p.parse_row("5").unwrap();
    assert_eq!(r.x, "5");
    assert_eq!(r.ys, vec![None, None]);
    let p = RowParser::new(4, &[1], ",".to_string(), vec![], None, false);
    assert!(p.parse_row("1,2").is_none());
}

#[test]
fn parse_row_tab_delimited() {
    let p = parser("\t", vec![], None, false);
    let r = p.parse_row("1\t2\t3").unwrap();
    assert_eq!(r.x, "1");
    assert_eq!(r.ys, vec![Some("2".to_string()), Some("3".to_string())]);
}

#[test]
fn feeder_skips_header_lines() {
    let mut f = LineFeeder::new(3);
    assert!(matches!(f.feed("title\n"), Fed::Header));
    assert!(matches!(f.feed("x,y\n"), Fed::Header));
    match f.feed(" 1,2 \r\n") {
        Fed::Row(s) => assert_eq!(s, "1,2"),
        _ => panic!("expected a row"),
    }
    assert_eq!(f.current_line(), 4);
}

#[test]
fn feeder_reports_blank_lines() {
    let mut f = LineFeeder::new(1);
    assert!(matches!(f.feed("   \n"), Fed::Blank));
    assert_eq!(f.current_line(), 2);
}

#[test]
fn feeder_keeps_incomplete_line_until_its_end() {
    // Feeding "1,2" then ",3\n" gives the row of "1,2,3\n".
    let mut f = LineFeeder::new(1);
    assert!(matches!(f.feed("1,2"), Fed::Incomplete));
    assert_eq!(f.current_line(), 1);
    match f.feed(",3\n") {
        Fed::Row(s) => assert_eq!(s, "1,2,3"),
        _ => panic!("expected a row"),
    }
    let mut g = LineFeeder::new(1);
    match g.feed("1,2,3\n") {
        Fed::Row(s) => assert_eq!(s, "1,2,3"),
        _ => panic!("expected a row"),
    }
}

#[test]
fn feeder_restart_forgets_buffer() {
    let mut f = LineFeeder::new(2);
    assert!(matches!(f.feed("h\n"), Fed::Header));
    assert!(matches!(f.feed("par"), Fed::Incomplete));
    f.restart();
    assert_eq!(f.current_line(), 1);
    assert!(matches!(f.feed("again\n"), Fed::Header));
    match f.feed("row\n") {
        Fed::Row(s) => assert_eq!(s, "row"),
        _ => panic!("expected a row"),
    }
}

#[test]
fn feeder_empty_chunk_is_incomplete() {
    let mut f = LineFeeder::new(1);
    assert!(matches!(f.feed(""), Fed::Incomplete));
}

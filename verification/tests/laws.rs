use tail_f_plot::config::{join_strings, resolve_colors, resolve_delimiter};
use tail_f_plot::csv::{split_on_delimiter, Fed, LineFeeder, RowParser};
use tail_f_plot::format::{tidy_fixed, tidy_scientific, trim_zeros};
use tail_f_plot::toolbar::ToolbarState;

#[test]
fn split_then_join_gives_line_back() {
    for (line, d) in [("a,,b,", ","), ("1::2:::3", "::"), ("xyz", ""), ("", ";"), ("a\tb", "\t")] {
        let pieces = split_on_delimiter(line, d);
        assert_eq!(join_strings(&pieces, d), line);
    }
}

#[test]
fn merged_fields_are_never_blank() {
    let p = RowParser::new(1, &[], " ".to_string(), vec![], None, true);
    for f in p.split_fields(" a \u{3000} b  c ") {
        assert!(!f.trim().is_empty());
    }
}

#[test]
fn every_delimiter_is_one_char() {
    for name in ["tab", "semicolon", "space", "vbar", "comma", "other", ""] {
        assert_eq!(resolve_delimiter(name).chars().count(), 1);
    }
}

#[test]
fn colors_never_outnumber_entries() {
    let entries: Vec<String> = ["#000000", "bad", "#ffffff"].iter().map(|s| s.to_string()).collect();
    assert!(resolve_colors(&entries).len() <= entries.len());
}

#[test]
fn tidying_never_lengthens() {
    for s in ["1.500000", "100", "2.000000e-5", "nan", "0.0"] {
        assert!(trim_zeros(s).len() <= s.len());
        assert!(tidy_fixed(s).len() <= s.len());
        assert!(tidy_scientific(s).len() <= s.len());
    }
}

#[test]
fn finishing_a_frame_twice_raises_nothing_more() {
    let mut t = ToolbarState::default();
    t.log_scale = true;
    t.auto_y = false;
    t.finish_frame();
    let home = t.need_home;
    let reset = t.need_reset;
    t.finish_frame();
    assert_eq!((t.need_home, t.need_reset), (home, reset));
}

#[test]
fn trimmed_rows_have_no_edge_space() {

    let mut f = LineFeeder::new(1);
    match f.feed("\u{a0} 3,4\t\r\n") {
        Fed::Row(r) => {
            assert_eq!(r, "3,4");
            assert_eq!(r.trim(), r);
        }
        _ => panic!("expected a row"),
    }
}

/// Feeds `text` as successive line reads return it; collects the rows.
fn feed_as_reads(f: &mut LineFeeder, text: &str) -> Vec<String> {
    let mut rows = Vec::new();
    for piece in text.split_inclusive('\n') {
        if let Fed::Row(r) = f.feed(piece) {
            rows.push(r);
        }
    }
    rows
}

#[test]
fn growth_split_across_polls_gives_same_rows() {
    let text = "h\n1,2\n3,\u{e9}4\n\n5,6\r\n7,8";
    for cut in 0..=text.len() {
        if !text.is_char_boundary(cut) || text[..cut].ends_with('\r') {
            continue;
        }
        let mut whole = LineFeeder::new(2);
        let all = feed_as_reads(&mut whole, text);
        let mut parts = LineFeeder::new(2);
        let mut split = feed_as_reads(&mut parts, &text[..cut]);
        split.extend(feed_as_reads(&mut parts, &text[cut..]));
        assert_eq!(split, all, "cut at {}", cut);
        assert_eq!(parts.current_line(), whole.current_line());
    }
}

#[test]
fn only_first_data_row_decides_skipped_lines() {
    let mut f = LineFeeder::new(3);
    assert_eq!(feed_as_reads(&mut f, "a\nb\nc\n d \n\n e"), vec!["c", "d"]);
    let mut g = LineFeeder::new(1);
    assert_eq!(feed_as_reads(&mut g, "a\nb\nc\n d \n\n e"), vec!["a", "b", "c", "d"]);
}

#[test]
fn programmatic_log_scale_and_clicks_raise_no_home() {
    let mut t = ToolbarState::default();
    t.set_log_scale(true);
    t.click_legend();
    t.click_about();
    t.click_zoom_in();
    t.finish_frame();
    assert!(!t.need_home);
    assert!(!t.need_reset);
    t.auto_x = false;
    t.finish_frame();
    assert!(!t.need_reset);
}

#[test]
fn same_arguments_read_same_cells() {
    let chunks = ["title\n", "x,y\n", "1,2\n", "3", ",4\n", "  \n", "5,6\r\n"];
    let p1 = RowParser::new(0, &[0, 2], ",".to_string(), vec![], None, false);
    let p2 = RowParser::new(1, &[1, 2], ",".to_string(), vec![], None, false);
    let mut f1 = LineFeeder::new(3);
    let mut f2 = LineFeeder::new(3);
    let mut cells1 = Vec::new();
    let mut cells2 = Vec::new();
    for c in chunks {
        if let Fed::Row(r) = f1.feed(c) {
            let t = p1.parse_row(&r).unwrap();
            cells1.push((t.x, t.ys));
        }
        if let Fed::Row(r) = f2.feed(c) {
            let t = p2.parse_row(&r).unwrap();
            cells2.push((t.x, t.ys));
        }
    }
    assert_eq!(cells1, cells2);
    assert_eq!(cells1.len(), 3);
    assert_eq!(cells1[1].0, "3");
    assert_eq!(cells1[1].1, vec![Some("3".to_string()), Some("4".to_string())]);
}

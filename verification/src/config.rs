//! Command-line settings resolved into values: delimiter and quote names,
//! series colours, time scales, series names, labels, the window title and
//! the help and error texts.
use vstd::prelude::*;
use crate::text::{chars_of, push_chars, push_str, str_equal, trim_chars, usize_to_string, CharClass};

verus! {

broadcast use vstd::string::group_string_axioms;

// ---------------------------------------------------------------------------
// Delimiter and quote names
// ---------------------------------------------------------------------------

/// The delimiter that a `--delimiter` name stands for; `comma` and every
/// unknown name give a comma.
pub open spec fn delimiter_for(name: Seq<char>) -> Seq<char> {
    if name == "tab"@ {
        "\t"@
    } else if name == "semicolon"@ {
        ";"@
    } else if name == "space"@ {
        " "@
    } else if name == "vbar"@ {
        "|"@
    } else {
        ","@
    }
}

/// Resolves a delimiter name to the delimiter itself.
pub fn resolve_delimiter(name: &str) -> (d: String)
    ensures
        d@ == delimiter_for(name@),
{
    if str_equal(name, "tab") {
        "\t".to_owned()
    } else if str_equal(name, "semicolon") {
        ";".to_owned()
    } else if str_equal(name, "space") {
        " ".to_owned()
    } else if str_equal(name, "vbar") {
        "|".to_owned()
    } else {
        ",".to_owned()
    }
}

/// The quote character that a `--string-quote` name stands for; `none` and
/// every unknown name give no quote.
pub open spec fn quote_for(name: Seq<char>) -> Option<char> {
    if name == "squote"@ {
        Some('\'')
    } else if name == "dquote"@ {
        Some('"')
    } else if name == "backtick"@ {
        Some('`')
    } else {
        None
    }
}

/// Resolves a string-quote name to the quote character.
pub fn resolve_string_quote(name: &str) -> (q: Option<char>)
    ensures
        q == quote_for(name@),
{
    if str_equal(name, "squote") {
        Some('\'')
    } else if str_equal(name, "dquote") {
        Some('"')
    } else if str_equal(name, "backtick") {
        Some('`')
    } else {
        None
    }
}

/// Every delimiter name resolves to a single character.
pub proof fn law_delimiter_is_one_char(name: Seq<char>)
    ensures
        delimiter_for(name).len() == 1,
{
    reveal_strlit("\t");
    reveal_strlit(";");
    reveal_strlit(" ");
    reveal_strlit("|");
    reveal_strlit(",");
}

// ---------------------------------------------------------------------------
// Time scales
// ---------------------------------------------------------------------------

/// A named X time scale (`--x-time-scale`).
#[derive(Debug, Clone, Copy, PartialEq, Eq, Structural)]
pub enum TimeScale {
    Days,
    Hours,
    Minutes,
    Seconds,
}

/// The time scale a name stands for: `d`, `h`, `m` or `s`.
pub open spec fn time_scale_for(name: Seq<char>) -> Option<TimeScale> {
    if name == "d"@ {
        Some(TimeScale::Days)
    } else if name == "h"@ {
        Some(TimeScale::Hours)
    } else if name == "m"@ {
        Some(TimeScale::Minutes)
    } else if name == "s"@ {
        Some(TimeScale::Seconds)
    } else {
        None
    }
}

/// Resolves a time-scale name; other names leave the proportion as given.
pub fn resolve_time_scale(name: &str) -> (t: Option<TimeScale>)
    ensures
        t == time_scale_for(name@),
{
    if str_equal(name, "d") {
        Some(TimeScale::Days)
    } else if str_equal(name, "h") {
        Some(TimeScale::Hours)
    } else if str_equal(name, "m") {
        Some(TimeScale::Minutes)
    } else if str_equal(name, "s") {
        Some(TimeScale::Seconds)
    } else {
        None
    }
}

/// The number of raw X units (seconds) in one unit of the scale.
pub fn seconds_per_unit(t: TimeScale) -> (n: u32)
    ensures
        n == match t {
            TimeScale::Days => 86400u32,
            TimeScale::Hours => 3600u32,
            TimeScale::Minutes => 60u32,
            TimeScale::Seconds => 1u32,
        },
{
    match t {
        TimeScale::Days => 86400,
        TimeScale::Hours => 3600,
        TimeScale::Minutes => 60,
        TimeScale::Seconds => 1,
    }
}

// ---------------------------------------------------------------------------
// Colours
// ---------------------------------------------------------------------------

/// The value of a hexadecimal digit, either case.
pub open spec fn hex_digit(c: char) -> Option<int> {
    if '0' <= c && c <= '9' {
        Some(c as int - '0' as int)
    } else if 'a' <= c && c <= 'f' {
        Some(c as int - 'a' as int + 10)
    } else if 'A' <= c && c <= 'F' {
        Some(c as int - 'A' as int + 10)
    } else {
        None
    }
}

/// The byte written by the two hexadecimal digits `a b`.
pub open spec fn hex_byte(a: char, b: char) -> Option<u8> {
    match (hex_digit(a), hex_digit(b)) {
        (Some(x), Some(y)) => Some((16 * x + y) as u8),
        _ => None,
    }
}

/// The lower-case hexadecimal digit of `v`, read off the code points.
pub open spec fn hex_lower(v: int) -> char {
    if v < 10 {
        (48 + v) as char
    } else {
        (87 + v) as char
    }
}

/// The upper-case hexadecimal digit of `v`, read off the code points.
pub open spec fn hex_upper(v: int) -> char {
    if v < 10 {
        (48 + v) as char
    } else {
        (55 + v) as char
    }
}

/// Every hexadecimal digit, in either case, reads as its value, and no
/// other character than `0-9`, `a-f`, `A-F` is a digit.
pub proof fn law_hex_digits(v: int, c: char)
    requires
        0 <= v < 16,
    ensures
        hex_digit(hex_lower(v)) == Some(v),
        hex_digit(hex_upper(v)) == Some(v),
        hex_digit(c) is Some <==> ('0' <= c && c <= '9') || ('a' <= c && c <= 'f') || ('A' <= c
            && c <= 'F'),
{
}

/// A `#` followed by the two-digit hexadecimal writing of each of three
/// bytes reads back as those bytes, whichever case the digits are in.
pub proof fn law_color_code_reads_bytes(r: u8, g: u8, b: u8, upper: bool)
    ensures
        ({
            let h = |v: int| if upper { hex_upper(v) } else { hex_lower(v) };
            color_code(
                seq![
                    '#',
                    h(r as int / 16),
                    h(r as int % 16),
                    h(g as int / 16),
                    h(g as int % 16),
                    h(b as int / 16),
                    h(b as int % 16),
                ],
            ) == Some(seq![r, g, b])
        }),
{
    let h = |v: int| if upper { hex_upper(v) } else { hex_lower(v) };
    let s = seq!['#', h(r as int / 16), h(r as int % 16), h(g as int / 16), h(g as int % 16), h(b as int / 16), h(b as int % 16)];
    law_hex_digits(r as int / 16, '0');
    law_hex_digits(r as int % 16, '0');
    law_hex_digits(g as int / 16, '0');
    law_hex_digits(g as int % 16, '0');
    law_hex_digits(b as int / 16, '0');
    law_hex_digits(b as int % 16, '0');
    let qc = CharClass::Exactly('#');
    assert(s[1] != '#');
    assert(crate::text::skip_class(s, 0, qc) == crate::text::skip_class(s, 1, qc));
    assert(crate::text::skip_class(s, 1, qc) == 1);
    let t = s.skip(1);
    assert(t.len() == 6);
    assert(t[0] == h(r as int / 16) && t[1] == h(r as int % 16));
    assert(t[2] == h(g as int / 16) && t[3] == h(g as int % 16));
    assert(t[4] == h(b as int / 16) && t[5] == h(b as int % 16));
    assert(hex_byte(t[0], t[1]) == Some(r));
    assert(hex_byte(t[2], t[3]) == Some(g));
    assert(hex_byte(t[4], t[5]) == Some(b));
}

/// The colour that one `--colors` entry gives: after dropping the leading
/// `#` characters, six characters read as three hexadecimal bytes.
pub open spec fn color_code(s: Seq<char>) -> Option<Seq<u8>> {
    let h = crate::text::strip_start(s, CharClass::Exactly('#'));
    if h.len() == 6 {
        match (hex_byte(h[0], h[1]), hex_byte(h[2], h[3]), hex_byte(h[4], h[5])) {
            (Some(r), Some(g), Some(b)) => Some(seq![r, g, b]),
            _ => None,
        }
    } else {
        None
    }
}

/// The colours of the first `k` entries, the unreadable entries left out.
pub open spec fn colors_prefix(entries: Seq<Seq<char>>, k: int) -> Seq<Seq<u8>>
    decreases k,
{
    if k <= 0 {
        seq![]
    } else {
        match color_code(entries[k - 1]) {
            Some(c) => colors_prefix(entries, k - 1).push(c),
            None => colors_prefix(entries, k - 1),
        }
    }
}

/// The built-in palette of twelve colours.
pub open spec fn default_palette() -> Seq<Seq<u8>> {
    seq![
        seq![31u8, 119u8, 180u8],
        seq![255u8, 127u8, 14u8],
        seq![44u8, 160u8, 44u8],
        seq![214u8, 39u8, 40u8],
        seq![148u8, 103u8, 189u8],
        seq![140u8, 86u8, 75u8],
        seq![227u8, 119u8, 194u8],
        seq![127u8, 127u8, 127u8],
        seq![188u8, 189u8, 34u8],
        seq![23u8, 190u8, 207u8],
        seq![255u8, 187u8, 120u8],
        seq![152u8, 223u8, 138u8],
    ]
}

/// The colours that `--colors` gives: the built-in palette when no entry
/// is given, otherwise the readable entries in order.
pub open spec fn colors_for(entries: Seq<Seq<char>>) -> Seq<Seq<u8>> {
    if entries.len() == 0 {
        default_palette()
    } else {
        colors_prefix(entries, entries.len() as int)
    }
}

/// Slicing a six-byte entry into byte pairs cuts between characters.
pub open spec fn color_entry_sliceable(s: Seq<char>) -> bool {
    let b = vstd::utf8::encode_utf8(crate::text::strip_start(s, CharClass::Exactly('#')));
    b.len() == 6 ==> vstd::utf8::is_char_boundary(b, 2) && vstd::utf8::is_char_boundary(b, 4)
}

/// The views of colour triples.
pub open spec fn color_views(v: Seq<[u8; 3]>) -> Seq<Seq<u8>> {
    v.map_values(|c: [u8; 3]| c@)
}

/// The built-in palette.
pub fn default_colors() -> (v: Vec<[u8; 3]>)
    ensures
        color_views(v@) == default_palette(),
{
    let v: Vec<[u8; 3]> = vec![
        [31, 119, 180],
        [255, 127, 14],
        [44, 160, 44],
        [214, 39, 40],
        [148, 103, 189],
        [140, 86, 75],
        [227, 119, 194],
        [127, 127, 127],
        [188, 189, 34],
        [23, 190, 207],
        [255, 187, 120],
        [152, 223, 138],
    ];
    assert(color_views(v@) =~= default_palette());
    v
}

fn hex_digit_exec(c: char) -> (r: Option<u8>)
    ensures
        r matches Some(x) ==> hex_digit(c) == Some(x as int),
        r is None ==> hex_digit(c) is None,
{
    if '0' <= c && c <= '9' {
        Some(((c as u32) - ('0' as u32)) as u8)
    } else if 'a' <= c && c <= 'f' {
        Some(((c as u32) - ('a' as u32) + 10) as u8)
    } else if 'A' <= c && c <= 'F' {
        Some(((c as u32) - ('A' as u32) + 10) as u8)
    } else {
        None
    }
}

fn hex_byte_exec(a: char, b: char) -> (r: Option<u8>)
    ensures
        r == hex_byte(a, b),
{
    match (hex_digit_exec(a), hex_digit_exec(b)) {
        (Some(x), Some(y)) => Some(16 * x + y),
        _ => None,
    }
}

fn color_code_exec(s: &String) -> (r: Option<[u8; 3]>)
    ensures
        r matches Some(c) ==> color_code(s@) == Some(c@),
        r is None ==> color_code(s@) is None,
{
    let cs = chars_of(s.as_str());
    let start = crate::text::skip_class_index(&cs, 0, CharClass::Exactly('#'));
    proof {
        crate::text::lemma_skip_class_bounds(cs@, 0, CharClass::Exactly('#'));
    }
    if cs.len() - start != 6 {
        return None;
    }
    let ghost h = crate::text::strip_start(cs@, CharClass::Exactly('#'));
    assert(h[0] == cs@[start as int]);
    assert(h[1] == cs@[start + 1]);
    assert(h[2] == cs@[start + 2]);
    assert(h[3] == cs@[start + 3]);
    assert(h[4] == cs@[start + 4]);
    assert(h[5] == cs@[start + 5]);
    let r = hex_byte_exec(cs[start], cs[start + 1]);
    let g = hex_byte_exec(cs[start + 2], cs[start + 3]);
    let b = hex_byte_exec(cs[start + 4], cs[start + 5]);
    match (r, g, b) {
        (Some(r), Some(g), Some(b)) => {
            let c = [r, g, b];
            assert(c@ =~= seq![r, g, b]);
            Some(c)
        },
        _ => None,
    }
}

/// Reads `#RRGGBB` entries into colours, leaving out unreadable entries;
/// with no entry at all, the built-in palette of twelve colours.
pub fn resolve_colors(input: &[String]) -> (colors: Vec<[u8; 3]>)
    requires
        forall|i: int| 0 <= i < input@.len() ==> color_entry_sliceable(#[trigger] input@[i]@),
    ensures
        color_views(colors@) == colors_for(input@.map_values(|s: String| s@)),
{
    let ghost entries = input@.map_values(|s: String| s@);
    if input.len() == 0 {
        return default_colors();
    }
    let mut out: Vec<[u8; 3]> = Vec::new();
    let mut i: usize = 0;
    while i < input.len()
        invariant
            entries == input@.map_values(|s: String| s@),
            i <= input@.len(),
            color_views(out@) == colors_prefix(entries, i as int),
        decreases input@.len() - i,
    {
        let c = color_code_exec(&input[i]);
        let ghost before = color_views(out@);
        match c {
            Some(c) => {
                out.push(c);
                assert(color_views(out@) =~= before.push(c@));
            },
            None => {},
        }
        i = i + 1;
    }
    out
}

/// Never more colours come out than entries go in, unless the palette is used.
pub proof fn law_colors_count(entries: Seq<Seq<char>>, k: int)
    requires
        0 <= k <= entries.len(),
    ensures
        colors_prefix(entries, k).len() <= k,
    decreases k,
{
    if k > 0 {
        law_colors_count(entries, k - 1);
    }
}

// ---------------------------------------------------------------------------
// Names, labels and title
// ---------------------------------------------------------------------------

/// `sep`-joined pieces, as `[String]::join`.
pub open spec fn join(pieces: Seq<Seq<char>>, sep: Seq<char>) -> Seq<char>
    decreases pieces.len(),
{
    if pieces.len() == 0 {
        seq![]
    } else if pieces.len() == 1 {
        pieces[0]
    } else {
        join(pieces.drop_last(), sep) + sep + pieces.last()
    }
}

/// Joins strings with a separator.
pub fn join_strings(pieces: &[String], sep: &str) -> (s: String)
    ensures
        s@ == join(pieces@.map_values(|p: String| p@), sep@),
{
    let ghost views = pieces@.map_values(|p: String| p@);
    let mut s = String::new();
    let mut i: usize = 0;
    while i < pieces.len()
        invariant
            views == pieces@.map_values(|p: String| p@),
            i <= pieces@.len(),
            s@ == join(views.take(i as int), sep@),
        decreases pieces@.len() - i,
    {
        if i > 0 {
            push_str(&mut s, sep);
        }
        push_str(&mut s, pieces[i].as_str());
        i = i + 1;
        assert(views.take(i as int).drop_last() =~= views.take(i - 1));
    }
    assert(views.take(pieces@.len() as int) =~= views);
    s
}

/// Default name of the series read from 1-based column `c`.
pub open spec fn column_name(c: nat) -> Seq<char> {
    "Col"@ + crate::text::decimal(c)
}

/// The series names: the given names, or `Col<N>` for each Y column when
/// no name is given.
pub fn series_names(y_names: &[String], y_cols: &[usize]) -> (names: Vec<String>)
    ensures
        y_names@.len() > 0 ==> names@ == y_names@,
        y_names@.len() == 0 ==> names@.len() == y_cols@.len() && forall|j: int|
            0 <= j < y_cols@.len() ==> (#[trigger] names@[j])@ == column_name(
                y_cols@[j] as nat,
            ),
{
    if y_names.len() > 0 {
        let mut out: Vec<String> = Vec::new();
        let mut i: usize = 0;
        while i < y_names.len()
            invariant
                i <= y_names@.len(),
                out@ == y_names@.take(i as int),
            decreases y_names@.len() - i,
        {
            out.push(y_names[i].clone());
            i = i + 1;
            assert(out@ =~= y_names@.take(i as int));
        }
        assert(out@ =~= y_names@);
        return out;
    }
    let mut out: Vec<String> = Vec::new();
    let mut j: usize = 0;
    while j < y_cols.len()
        invariant
            j <= y_cols@.len(),
            out@.len() == j,
            forall|k: int| 0 <= k < j ==> (#[trigger] out@[k])@ == column_name(y_cols@[k] as nat),
        decreases y_cols@.len() - j,
    {
        let mut s = "Col".to_owned();
        let n = usize_to_string(y_cols[j]);
        push_str(&mut s, n.as_str());
        out.push(s);
        j = j + 1;
    }
    out
}

/// The X axis label: the label, followed by the unit in parentheses when
/// there is one.
pub fn x_axis_label(label: &str, unit: &str) -> (s: String)
    ensures
        s@ == if unit@.len() == 0 {
            label@
        } else {
            label@ + " ("@ + unit@ + ")"@
        },
{
    let mut s = label.to_owned();
    if unit.unicode_len() != 0 {
        push_str(&mut s, " (");
        push_str(&mut s, unit);
        push_str(&mut s, ")");
    }
    s
}

/// The window title: the joined series names (when not empty), the file
/// name and the program name with its version.
pub open spec fn title_for(y_names: Seq<Seq<char>>, file_name: Seq<char>, version: Seq<char>) -> Seq<
    char,
> {
    let names = join(y_names, ","@);
    if names.len() == 0 {
        file_name + " - HANA tail-f_plot - v"@ + version
    } else {
        names + " - "@ + file_name + " - HANA tail-f_plot - v"@ + version
    }
}

/// Builds the window title.
pub fn window_title(y_names: &[String], file_name: &str, version: &str) -> (s: String)
    ensures
        s@ == title_for(y_names@.map_values(|p: String| p@), file_name@, version@),
{
    let names = join_strings(y_names, ",");
    let mut s = String::new();
    if names.as_str().unicode_len() != 0 {
        push_str(&mut s, names.as_str());
        push_str(&mut s, " - ");
    }
    push_str(&mut s, file_name);
    push_str(&mut s, " - HANA tail-f_plot - v");
    push_str(&mut s, version);
    s
}

/// The name a series has in the plot's legend: with its latest value and
/// the unit when there is a value.
pub fn series_legend_name(name: &str, value: Option<&str>, unit: &str) -> (s: String)
    ensures
        s@ == match value {
            Some(v) => name@ + " : "@ + v@ + "("@ + unit@ + ")"@,
            None => name@,
        },
{
    let mut s = name.to_owned();
    match value {
        Some(v) => {
            push_str(&mut s, " : ");
            push_str(&mut s, v);
            push_str(&mut s, "(");
            push_str(&mut s, unit);
            push_str(&mut s, ")");
        },
        None => {},
    }
    s
}

// ---------------------------------------------------------------------------
// Help and error texts
// ---------------------------------------------------------------------------

/// The help text, around the program version and the executable name.
pub open spec fn help_text_for(exe: Seq<char>, version: Seq<char>) -> Seq<char> {
    "HANA tail-f_plot v"@ + version + HELP_INTRO@ + exe + HELP_BODY@ + exe + HELP_EXAMPLE1@ + exe
        + HELP_EXAMPLE2@
}

/// Help text between the version and the usage line.
pub const HELP_INTRO: &'static str = "\n\n\
        Real-time CSV plotting tool.\n\n\
        Usage:\n";

/// Help text after the usage line's executable name.
pub const HELP_BODY: &'static str = " <CSV_PATH> [OPTIONS]\n\n\
        Arguments:\n\
        <CSV_PATH>  CSV file path\n\n\
        Options:\n\
        --x-col <N>              X-axis column (1-based) [default: 1]\n\
        --y-cols <N,N,...>       Y-axis columns (comma separated)\n\
        --y-names <A,B,...>      Y-axis legend names (comma separated)\n\
        --header-row <N>         Header row number [default: 2]\n\
        --data-start-row <N>     Data start row [default: 3]\n\
        --y-unit <UNIT>          Y-axis unit (shown in title)\n\
        --log-y                  Start with log scale on Y-axis\n\
        --monitor <N>            Monitor index (0-based)\n\
        --bounds <x1,y1,x2,y2>  Window bounds (work-area %)\n\
        --absolute-x             Use absolute X (no origin subtraction)\n\n\
        CSV Parsing:\n\
        --delimiter <NAME>       comma|tab|semicolon|space|vbar [default: comma]\n\
        --string-quote <NAME>    none|squote|dquote|backtick [default: none]\n\
        --merge-delimiter        Merge consecutive delimiters\n\
        --fixed-width <N,N,...>  Fixed-width columns (overrides delimiter)\n\n\
        Rendering:\n\
        --repaint-interval-ms <N>  Repaint interval [default: 250]\n\
        --x-axis-label <STR>       X-axis label [default: Time]\n\
        --x-unit <UNIT>            X-axis unit [default: min]\n\
        --x-time-scale <NAME>      Time scale: d,h,m,s (overrides --x-proportion)\n\
        --x-proportion <F>         X proportional constant [default: 1/60]\n\
        --line-width <F>           Line width [default: 1.5]\n\
        --colors <#RRGGBB,...>     Series colors (empty=default 12)\n\
        --max-points <N>           Max points per series [default: 5000]\n\
        --max-x-range <F>          Max X range [default: 120.0]\n\
          (max-points / max-x-range: stricter of the two applies)\n\
        --marker-radius <F>        Marker radius [default: 4.0]\n\n\
        Example:\n";

/// Help text after the first example's executable name.
pub const HELP_EXAMPLE1: &'static str = " data.csv --y-cols 2,3 --y-names \"Temp,Pressure\"\n";

/// Help text after the second example's executable name.
pub const HELP_EXAMPLE2: &'static str = " data.tsv --delimiter tab --y-cols 2,3";

/// The help text shown for `--help`, for a missing CSV path and (in a
/// window) when started without a console.
pub fn help_text(exe: &str, version: &str) -> (s: String)
    ensures
        s@ == help_text_for(exe@, version@),
{
    let mut s = "HANA tail-f_plot v".to_owned();
    push_str(&mut s, version);
    push_str(&mut s, HELP_INTRO);
    push_str(&mut s, exe);
    push_str(&mut s, HELP_BODY);
    push_str(&mut s, exe);
    push_str(&mut s, HELP_EXAMPLE1);
    push_str(&mut s, exe);
    push_str(&mut s, HELP_EXAMPLE2);
    s
}

/// The help text begins with `HANA `, the prefix by which a launching
/// program recognises it on standard output.
pub proof fn law_help_text_prefix(exe: Seq<char>, version: Seq<char>)
    ensures
        help_text_for(exe, version).take(5) == "HANA "@,
{
    reveal_strlit("HANA tail-f_plot v");
    reveal_strlit("HANA ");
    assert(help_text_for(exe, version).take(5) =~= "HANA "@);
}

/// Index of the first `'\n'` at or after `i`.
pub open spec fn newline_from(s: Seq<char>, i: int) -> int
    decreases s.len() - i,
{
    if i < 0 || i >= s.len() || s[i] == '\n' {
        i
    } else {
        newline_from(s, i + 1)
    }
}

/// A line without the `'\r'` of a `"\r\n"` ending.
pub open spec fn drop_cr(t: Seq<char>) -> Seq<char> {
    if t.len() > 0 && t.last() == '\r' {
        t.drop_last()
    } else {
        t
    }
}

/// `str::lines` on `s[i..]`: pieces ended by `'\n'` (a `'\r'` right before
/// it is dropped too); the final line ending is optional.
pub open spec fn lines_from(s: Seq<char>, i: int) -> Seq<Seq<char>>
    decreases s.len() - i,
{
    if i < 0 || i >= s.len() {
        seq![]
    } else {
        let j = newline_from(s, i);
        if j < s.len() {
            proof {
                lemma_newline_from(s, i);
            }
            seq![drop_cr(s.subrange(i, j))] + lines_from(s, j + 1)
        } else {
            seq![s.subrange(i, s.len() as int)]
        }
    }
}

pub proof fn lemma_newline_from(s: Seq<char>, i: int)
    requires
        0 <= i <= s.len(),
    ensures
        i <= newline_from(s, i) <= s.len(),
        newline_from(s, i) < s.len() ==> s[newline_from(s, i)] == '\n',
        forall|k: int| i <= k < newline_from(s, i) ==> s[k] != '\n',
    decreases s.len() - i,
{
    if i < s.len() && s[i] != '\n' {
        lemma_newline_from(s, i + 1);
    }
}

/// Whether a line starts with `Usage:`.
pub open spec fn is_usage_line(l: Seq<char>) -> bool {
    l.len() >= 6 && l.take(6) == "Usage:"@
}

/// The lines `lines[..k]` that are not usage lines.
pub open spec fn non_usage_prefix(lines: Seq<Seq<char>>, k: int) -> Seq<Seq<char>>
    decreases k,
{
    if k <= 0 {
        seq![]
    } else if is_usage_line(lines[k - 1]) {
        non_usage_prefix(lines, k - 1)
    } else {
        non_usage_prefix(lines, k - 1).push(lines[k - 1])
    }
}

/// The text printed for a rejected command line: the parser's message
/// without its usage lines, trimmed, and a hint to run `--help`.
pub open spec fn exception_text_for(msg: Seq<char>, exe: Seq<char>) -> Seq<char> {
    let ls = lines_from(msg, 0);
    "EXCEPTION: "@ + crate::text::trim(join(non_usage_prefix(ls, ls.len() as int), "\n"@))
        + "\n\nRun `"@ + exe + " --help` for usage."@
}

/// The error text begins with `EXCEPTION: `, the prefix by which a
/// launching program recognises a rejected command line.
pub proof fn law_exception_text_prefix(msg: Seq<char>, exe: Seq<char>)
    ensures
        exception_text_for(msg, exe).take(11) == "EXCEPTION: "@,
{
    reveal_strlit("EXCEPTION: ");
    assert(exception_text_for(msg, exe).take(11) =~= "EXCEPTION: "@);
}

fn lines_exec(v: &Vec<char>) -> (ls: Vec<Vec<char>>)
    ensures
        ls@.map_values(|l: Vec<char>| l@) == lines_from(v@, 0),
{
    let mut out: Vec<Vec<char>> = Vec::new();
    let mut i: usize = 0;
    while i < v.len()
        invariant
            i <= v.len(),
            out@.map_values(|l: Vec<char>| l@) + lines_from(v@, i as int) == lines_from(v@, 0),
        decreases v.len() - i,
    {
        let mut j = i;
        while j < v.len() && v[j] != '\n'
            invariant
                i <= j <= v.len(),
                newline_from(v@, i as int) == newline_from(v@, j as int),
            decreases v.len() - j,
        {
            j = j + 1;
        }
        proof {
            lemma_newline_from(v@, i as int);
        }
        let mut line: Vec<char> = Vec::new();
        let mut k = i;
        while k < j
            invariant
                i <= k <= j <= v.len(),
                line@ == v@.subrange(i as int, k as int),
            decreases j - k,
        {
            line.push(v[k]);
            k = k + 1;
            assert(line@ =~= v@.subrange(i as int, k as int));
        }
        let ghost before = out@.map_values(|l: Vec<char>| l@);
        if j < v.len() {
            if line.len() > 0 && line[line.len() - 1] == '\r' {
                line.pop();
            }
            assert(line@ =~= drop_cr(v@.subrange(i as int, j as int)));
            out.push(line);
            assert(out@.map_values(|l: Vec<char>| l@) =~= before.push(line@));
            assert(lines_from(v@, i as int) =~= seq![line@] + lines_from(v@, j + 1));
            i = j + 1;
        } else {
            out.push(line);
            assert(out@.map_values(|l: Vec<char>| l@) =~= before.push(line@));
            assert(lines_from(v@, i as int) =~= seq![line@]);
            assert(lines_from(v@, j as int) =~= Seq::<Seq<char>>::empty());
            i = j;
        }
    }
    assert(lines_from(v@, i as int) =~= Seq::<Seq<char>>::empty());
    out
}

fn starts_with_usage(l: &Vec<char>) -> (b: bool)
    ensures
        b == is_usage_line(l@),
{
    proof {
        reveal_strlit("Usage:");
    }
    let ghost u = "Usage:"@;
    if l.len() < 6 {
        return false;
    }
    let r = l[0] == 'U' && l[1] == 's' && l[2] == 'a' && l[3] == 'g' && l[4] == 'e' && l[5]
        == ':';
    if r {
        assert(l@.take(6) =~= u);
    } else {
        assert(l@.take(6) != u) by {
            if l@.take(6) == u {
                assert(l@.take(6)[0] == u[0]);
                assert(l@.take(6)[1] == u[1]);
                assert(l@.take(6)[2] == u[2]);
                assert(l@.take(6)[3] == u[3]);
                assert(l@.take(6)[4] == u[4]);
                assert(l@.take(6)[5] == u[5]);
            }
        }
    }
    r
}

/// The text printed when the command line is rejected.
pub fn exception_text(msg: &str, exe: &str) -> (s: String)
    ensures
        s@ == exception_text_for(msg@, exe@),
{
    let mv = chars_of(msg);
    let ls = lines_exec(&mv);
    let ghost lsv = ls@.map_values(|l: Vec<char>| l@);
    let mut joined: Vec<char> = Vec::new();
    let mut kept: usize = 0;
    let ghost mut kept_lines: Seq<Seq<char>> = seq![];
    let mut i: usize = 0;
    while i < ls.len()
        invariant
            lsv == ls@.map_values(|l: Vec<char>| l@),
            i <= ls@.len(),
            kept_lines == non_usage_prefix(lsv, i as int),
            kept as nat == kept_lines.len(),
            kept <= i,
            joined@ == join(kept_lines, "\n"@),
        decreases ls@.len() - i,
    {
        let u = starts_with_usage(&ls[i]);
        if !u {
            let ghost prev = joined@;
            if kept > 0 {
                joined.push('\n');
            }
            let mut k: usize = 0;
            let ghost mid = joined@;
            while k < ls[i].len()
                invariant
                    i < ls@.len(),
                    k <= ls@[i as int]@.len(),
                    joined@ == mid + ls@[i as int]@.take(k as int),
                decreases ls@[i as int]@.len() - k,
            {
                joined.push(ls[i][k]);
                k = k + 1;
                assert(joined@ =~= mid + ls@[i as int]@.take(k as int));
            }
            assert(ls@[i as int]@.take(ls@[i as int]@.len() as int) =~= ls@[i as int]@);
            proof {
                reveal_strlit("\n");
                let nk = kept_lines.push(lsv[i as int]);
                assert(nk.drop_last() =~= kept_lines);
                if kept_lines.len() > 0 {
                    assert(mid =~= prev + "\n"@);
                } else {
                    assert(mid =~= prev);
                }
                kept_lines = nk;
            }
            kept = kept + 1;
        }
        i = i + 1;
    }
    let t = trim_chars(&joined);
    let mut s = "EXCEPTION: ".to_owned();
    push_chars(&mut s, &t);
    push_str(&mut s, "\n\nRun `");
    push_str(&mut s, exe);
    push_str(&mut s, " --help` for usage.");
    assert(lsv == lines_from(msg@, 0));
    s
}

// ---------------------------------------------------------------------------
// Font fallback order
// ---------------------------------------------------------------------------

/// `family` with `name` put first when `present`.
pub open spec fn with_first(family: Seq<Seq<char>>, name: Seq<char>, present: bool) -> Seq<
    Seq<char>,
> {
    if present {
        seq![name] + family
    } else {
        family
    }
}

fn insert_first(family: &mut Vec<String>, name: &str, present: bool)
    ensures
        final(family)@.map_values(|f: String| f@) == with_first(
            old(family)@.map_values(|f: String| f@),
            name@,
            present,
        ),
{
    if present {
        let ghost before = family@.map_values(|f: String| f@);
        family.insert(0, name.to_owned());
        assert(family@.map_values(|f: String| f@) =~= seq![name@] + before);
    }
}

/// The proportional family: the system UI font first, then the symbol
/// font, then the fonts it had, each system font only when it was found.
pub fn order_proportional(family: &mut Vec<String>, has_ui_font: bool, has_symbol_font: bool)
    ensures
        final(family)@.map_values(|f: String| f@) == with_first(
            with_first(old(family)@.map_values(|f: String| f@), "segoe_symbol"@, has_symbol_font),
            "segoe_ui"@,
            has_ui_font,
        ),
{
    insert_first(family, "segoe_symbol", has_symbol_font);
    insert_first(family, "segoe_ui", has_ui_font);
}

/// The monospace family: the system monospace font first when it was found.
pub fn order_monospace(family: &mut Vec<String>, has_mono_font: bool)
    ensures
        final(family)@.map_values(|f: String| f@) == with_first(
            old(family)@.map_values(|f: String| f@),
            "consolas"@,
            has_mono_font,
        ),
{
    insert_first(family, "consolas", has_mono_font);
}

/// The bold family: what it had, then the system bold font when it was
/// found, then the whole proportional family as fallback.
pub fn order_bold(family: &mut Vec<String>, has_bold_font: bool, proportional: &[String])
    ensures
        final(family)@.map_values(|f: String| f@) == old(family)@.map_values(|f: String| f@)
            + (if has_bold_font {
            seq!["segoe_bold"@]
        } else {
            Seq::<Seq<char>>::empty()
        }) + proportional@.map_values(|f: String| f@),
{
    let ghost start = family@.map_values(|f: String| f@);
    if has_bold_font {
        family.push("segoe_bold".to_owned());
    }
    let ghost mid = family@.map_values(|f: String| f@);
    assert(mid =~= start + (if has_bold_font {
        seq!["segoe_bold"@]
    } else {
        Seq::<Seq<char>>::empty()
    }));
    let mut i: usize = 0;
    while i < proportional.len()
        invariant
            i <= proportional@.len(),
            family@.map_values(|f: String| f@) == mid + proportional@.map_values(
                |f: String| f@,
            ).take(i as int),
        decreases proportional@.len() - i,
    {
        let ghost before = family@.map_values(|f: String| f@);
        let item = proportional[i].clone();
        family.push(item);
        assert(family@.map_values(|f: String| f@) =~= before.push(proportional@[i as int]@));
        i = i + 1;
        assert(family@.map_values(|f: String| f@) =~= mid + proportional@.map_values(
            |f: String| f@,
        ).take(i as int));
    }
    assert(proportional@.map_values(|f: String| f@).take(proportional@.len() as int)
        =~= proportional@.map_values(|f: String| f@));
}

} // verus!

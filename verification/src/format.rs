//! Text of the tooltip, legend and axis labels.
//!
//! Printing a floating-point number is left to the caller; these functions
//! tidy the printed digits and lay out the X readout from its integer parts.
use vstd::prelude::*;
use crate::text::{chars_of, push_padded2, push_signed_decimal, push_str, str_equal, string_of,
    CharClass};

verus! {

broadcast use vstd::string::group_string_axioms;

/// `s.trim_end_matches('0').trim_end_matches('.')`: a printed decimal
/// without trailing zeros and without a trailing point.
pub open spec fn drop_zeros(s: Seq<char>) -> Seq<char> {
    crate::text::strip_end(
        crate::text::strip_end(s, CharClass::Exactly('0')),
        CharClass::Exactly('.'),
    )
}

fn strip_end_chars(v: &Vec<char>, cls: CharClass) -> (r: Vec<char>)
    ensures
        r@ == crate::text::strip_end(v@, cls),
{
    let j = crate::text::back_class_index(v, v.len(), cls);
    proof {
        crate::text::lemma_back_class_bounds(v@, v@.len() as int, cls);
    }
    let mut r: Vec<char> = Vec::new();
    let mut k: usize = 0;
    while k < j
        invariant
            j <= v.len(),
            k <= j,
            r@ == v@.take(k as int),
        decreases j - k,
    {
        r.push(v[k]);
        k = k + 1;
        assert(r@ =~= v@.take(k as int));
    }
    r
}

fn drop_zeros_chars(v: &Vec<char>) -> (r: Vec<char>)
    ensures
        r@ == drop_zeros(v@),
{
    let a = strip_end_chars(v, CharClass::Exactly('0'));
    strip_end_chars(&a, CharClass::Exactly('.'))
}

/// Drops trailing zeros, then a trailing decimal point.
pub fn trim_zeros(s: &str) -> (r: String)
    ensures
        r@ == drop_zeros(s@),
{
    let v = chars_of(s);
    let r = drop_zeros_chars(&v);
    string_of(&r)
}

/// A fixed-point reading: trailing fraction zeros dropped when the text
/// has a decimal point, unchanged otherwise.
pub open spec fn tidy_fixed_for(s: Seq<char>) -> Seq<char> {
    if s.contains('.') {
        drop_zeros(s)
    } else {
        s
    }
}

/// Tidies a printed fixed-point number.
pub fn tidy_fixed(s: &str) -> (r: String)
    ensures
        r@ == tidy_fixed_for(s@),
{
    let v = chars_of(s);
    let mut i: usize = 0;
    while i < v.len()
        invariant
            v@ == s@,
            i <= v.len(),
            forall|k: int| 0 <= k < i ==> v@[k] != '.',
        decreases v.len() - i,
    {
        if v[i] == '.' {
            assert(s@.contains('.')) by {
                assert(s@[i as int] == '.');
            }
            let r = drop_zeros_chars(&v);
            return string_of(&r);
        }
        i = i + 1;
    }
    assert(!s@.contains('.'));
    string_of(&v)
}

/// Index of the first `'e'` in `s`, if any.
pub open spec fn first_e(s: Seq<char>, i: int) -> int
    decreases s.len() - i,
{
    if i < 0 || i >= s.len() || s[i] == 'e' {
        i
    } else {
        first_e(s, i + 1)
    }
}

/// A scientific reading (`1.500000e3`): trailing mantissa zeros and a
/// bare point dropped, the exponent kept.
pub open spec fn tidy_scientific_for(s: Seq<char>) -> Seq<char> {
    let e = first_e(s, 0);
    if e < s.len() {
        drop_zeros(s.take(e)) + s.skip(e)
    } else {
        s
    }
}

/// Tidies a printed scientific number.
pub fn tidy_scientific(s: &str) -> (r: String)
    ensures
        r@ == tidy_scientific_for(s@),
{
    let v = chars_of(s);
    let mut i: usize = 0;
    while i < v.len() && v[i] != 'e'
        invariant
            v@ == s@,
            i <= v.len(),
            first_e(v@, 0) == first_e(v@, i as int),
        decreases v.len() - i,
    {
        i = i + 1;
    }
    if i >= v.len() {
        return string_of(&v);
    }
    let mut m: Vec<char> = Vec::new();
    let mut k: usize = 0;
    while k < i
        invariant
            i < v.len(),
            k <= i,
            m@ == v@.take(k as int),
        decreases i - k,
    {
        m.push(v[k]);
        k = k + 1;
        assert(m@ =~= v@.take(k as int));
    }
    let t = drop_zeros_chars(&m);
    let mut out = string_of(&t);
    let mut j = i;
    let ghost base = out@;
    while j < v.len()
        invariant
            i <= j <= v.len(),
            out@ == base + v@.subrange(i as int, j as int),
        decreases v.len() - j,
    {
        out.push(v[j]);
        j = j + 1;
        assert(out@ =~= base + v@.subrange(i as int, j as int));
    }
    assert(v@.subrange(i as int, v@.len() as int) =~= v@.skip(i as int));
    out
}

/// How the X unit is named.
#[derive(Debug, Clone, Copy, PartialEq, Eq, Structural)]
pub enum XUnit {
    Day,
    Minute,
    Hour,
    Second,
    /// No unit.
    Empty,
    /// Any other unit.
    Other,
}

/// The kind of a unit name.
pub open spec fn x_unit_for(u: Seq<char>) -> XUnit {
    if u == "d"@ || u == "day"@ || u == "days"@ {
        XUnit::Day
    } else if u == "min"@ || u == "minute"@ || u == "minutes"@ {
        XUnit::Minute
    } else if u == "h"@ || u == "hour"@ || u == "hours"@ {
        XUnit::Hour
    } else if u == "s"@ || u == "sec"@ || u == "second"@ || u == "seconds"@ {
        XUnit::Second
    } else if u.len() == 0 {
        XUnit::Empty
    } else {
        XUnit::Other
    }
}

/// Classifies a unit name.
pub fn classify_x_unit(unit: &str) -> (k: XUnit)
    ensures
        k == x_unit_for(unit@),
{
    if str_equal(unit, "d") || str_equal(unit, "day") || str_equal(unit, "days") {
        XUnit::Day
    } else if str_equal(unit, "min") || str_equal(unit, "minute") || str_equal(unit, "minutes") {
        XUnit::Minute
    } else if str_equal(unit, "h") || str_equal(unit, "hour") || str_equal(unit, "hours") {
        XUnit::Hour
    } else if str_equal(unit, "s") || str_equal(unit, "sec") || str_equal(unit, "second")
        || str_equal(unit, "seconds") {
        XUnit::Second
    } else if unit.unicode_len() == 0 {
        XUnit::Empty
    } else {
        XUnit::Other
    }
}

/// The layout of the X readout.
#[derive(Debug, Clone, Copy, PartialEq, Eq, Structural)]
pub enum XStyle {
    /// `t = <days>d hh:mm:ss`
    DayClock,
    /// `t = <minutes>:ss[.t]`
    MinuteClock,
    /// `t = <hours>:mm:ss[.t]`
    HourClock,
    /// `t = <seconds>`
    Seconds,
    /// `x = <value>`
    Plain,
    /// `x = <value> (<unit>)`
    PlainWithUnit,
}

/// The readout layout for a unit: a clock when the unit names days,
/// minutes or hours and the X proportion is that of the unit (one raw
/// second per 1/86400, 1/60 or 1/3600 of it, as the flags tell).
pub open spec fn x_style_for(unit: Seq<char>, per_day: bool, per_minute: bool, per_hour: bool) -> XStyle {
    let k = x_unit_for(unit);
    if per_day && k == XUnit::Day {
        XStyle::DayClock
    } else if per_minute && k == XUnit::Minute {
        XStyle::MinuteClock
    } else if per_hour && k == XUnit::Hour {
        XStyle::HourClock
    } else if k == XUnit::Second {
        XStyle::Seconds
    } else if k == XUnit::Empty {
        XStyle::Plain
    } else {
        XStyle::PlainWithUnit
    }
}

/// Chooses the readout layout.
pub fn x_style(unit: &str, per_day: bool, per_minute: bool, per_hour: bool) -> (st: XStyle)
    ensures
        st == x_style_for(unit@, per_day, per_minute, per_hour),
{
    let k = classify_x_unit(unit);
    if per_day && k == XUnit::Day {
        XStyle::DayClock
    } else if per_minute && k == XUnit::Minute {
        XStyle::MinuteClock
    } else if per_hour && k == XUnit::Hour {
        XStyle::HourClock
    } else if k == XUnit::Second {
        XStyle::Seconds
    } else if k == XUnit::Empty {
        XStyle::Plain
    } else {
        XStyle::PlainWithUnit
    }
}

/// The views of readout parts.
pub open spec fn parts_view(p: Seq<(String, bool)>) -> Seq<(Seq<char>, bool)> {
    p.map_values(|x: (String, bool)| (x.0@, x.1))
}

/// `"t = "` followed by the sign.
pub open spec fn t_prefix(negative: bool) -> Seq<char> {
    if negative {
        "t = -"@
    } else {
        "t = "@
    }
}

/// Seconds with an optional tenth: `:ss` or `:ss.t`.
pub open spec fn seconds_text(sec: int, tenth: int) -> Seq<char> {
    if tenth == 0 {
        ":"@ + crate::text::padded2(sec)
    } else {
        ":"@ + crate::text::padded2(sec) + "."@ + crate::text::signed_decimal(tenth)
    }
}

fn t_prefix_exec(negative: bool) -> (s: String)
    ensures
        s@ == t_prefix(negative),
{
    if negative {
        "t = -".to_owned()
    } else {
        "t = ".to_owned()
    }
}

fn seconds_text_exec(sec: i64, tenth: i64) -> (s: String)
    ensures
        s@ == seconds_text(sec as int, tenth as int),
{
    let mut s = ":".to_owned();
    push_padded2(&mut s, sec);
    if tenth != 0 {
        push_str(&mut s, ".");
        push_signed_decimal(&mut s, tenth);
    }
    s
}

fn decimal_string(n: i64) -> (s: String)
    ensures
        s@ == crate::text::signed_decimal(n as int),
{
    let mut s = String::new();
    push_signed_decimal(&mut s, n);
    assert(s@ =~= crate::text::signed_decimal(n as int));
    s
}

/// `t = <days>` in bold, then `d hh:mm:ss`.
pub fn day_parts(negative: bool, days: i64, hours: i64, minutes: i64, seconds: i64) -> (p: Vec<
    (String, bool),
>)
    ensures
        parts_view(p@) == seq![
            (t_prefix(negative), false),
            (crate::text::signed_decimal(days as int), true),
            ("d "@ + crate::text::padded2(hours as int) + ":"@ + crate::text::padded2(
                minutes as int,
            ) + ":"@ + crate::text::padded2(seconds as int), false),
        ],
{
    let mut tail = "d ".to_owned();
    push_padded2(&mut tail, hours);
    push_str(&mut tail, ":");
    push_padded2(&mut tail, minutes);
    push_str(&mut tail, ":");
    push_padded2(&mut tail, seconds);
    let p = vec![(t_prefix_exec(negative), false), (decimal_string(days), true), (tail, false)];
    assert(parts_view(p@) =~= seq![
        (t_prefix(negative), false),
        (crate::text::signed_decimal(days as int), true),
        ("d "@ + crate::text::padded2(hours as int) + ":"@ + crate::text::padded2(minutes as int)
            + ":"@ + crate::text::padded2(seconds as int), false),
    ]);
    p
}

/// `t = <minutes>` in bold, then `:ss` or `:ss.t`.
pub fn minute_parts(negative: bool, minutes: i64, sec: i64, tenth: i64) -> (p: Vec<(String, bool)>)
    ensures
        parts_view(p@) == seq![
            (t_prefix(negative), false),
            (crate::text::signed_decimal(minutes as int), true),
            (seconds_text(sec as int, tenth as int), false),
        ],
{
    let p = vec![
        (t_prefix_exec(negative), false),
        (decimal_string(minutes), true),
        (seconds_text_exec(sec, tenth), false),
    ];
    assert(parts_view(p@) =~= seq![
        (t_prefix(negative), false),
        (crate::text::signed_decimal(minutes as int), true),
        (seconds_text(sec as int, tenth as int), false),
    ]);
    p
}

/// `t = <hours>` in bold, then `:mm`, then `:ss` or `:ss.t`.
pub fn hour_parts(negative: bool, hours: i64, minutes: i64, sec: i64, tenth: i64) -> (p: Vec<
    (String, bool),
>)
    ensures
        parts_view(p@) == seq![
            (t_prefix(negative), false),
            (crate::text::signed_decimal(hours as int), true),
            (":"@ + crate::text::padded2(minutes as int), false),
            (seconds_text(sec as int, tenth as int), false),
        ],
{
    let mut mm = ":".to_owned();
    push_padded2(&mut mm, minutes);
    let p = vec![
        (t_prefix_exec(negative), false),
        (decimal_string(hours), true),
        (mm, false),
        (seconds_text_exec(sec, tenth), false),
    ];
    assert(parts_view(p@) =~= seq![
        (t_prefix(negative), false),
        (crate::text::signed_decimal(hours as int), true),
        (":"@ + crate::text::padded2(minutes as int), false),
        (seconds_text(sec as int, tenth as int), false),
    ]);
    p
}

/// `t = ` then the printed seconds in bold, trailing zeros dropped.
pub fn seconds_parts(printed: &str) -> (p: Vec<(String, bool)>)
    ensures
        parts_view(p@) == seq![("t = "@, false), (drop_zeros(printed@), true)],
{
    let p = vec![("t = ".to_owned(), false), (trim_zeros(printed), true)];
    assert(parts_view(p@) =~= seq![("t = "@, false), (drop_zeros(printed@), true)]);
    p
}

/// `x = ` then the printed value in bold, then the unit in parentheses
/// when there is one.
pub fn plain_parts(printed: &str, unit: &str) -> (p: Vec<(String, bool)>)
    ensures
        unit@.len() == 0 ==> parts_view(p@) == seq![("x = "@, false), (printed@, true)],
        unit@.len() > 0 ==> parts_view(p@) == seq![
            ("x = "@, false),
            (printed@, true),
            (" ("@ + unit@ + ")"@, false),
        ],
{
    let mut p = vec![("x = ".to_owned(), false), (printed.to_owned(), true)];
    if unit.unicode_len() == 0 {
        assert(parts_view(p@) =~= seq![("x = "@, false), (printed@, true)]);
    } else {
        let mut u = " (".to_owned();
        push_str(&mut u, unit);
        push_str(&mut u, ")");
        let ghost before = p@;
        p.push((u, false));
        assert(parts_view(p@) =~= seq![
            ("x = "@, false),
            (printed@, true),
            (" ("@ + unit@ + ")"@, false),
        ]);
    }
    p
}

/// A tooltip value row: the label, ` = `, the printed value in bold, then
/// the unit in parentheses when there is one.
pub fn value_row_parts(label: &str, printed: &str, unit: &str) -> (p: Vec<(String, bool)>)
    ensures
        unit@.len() == 0 ==> parts_view(p@) == seq![
            (label@, false),
            (" = "@, false),
            (printed@, true),
        ],
        unit@.len() > 0 ==> parts_view(p@) == seq![
            (label@, false),
            (" = "@, false),
            (printed@, true),
            (" ("@ + unit@ + ")"@, false),
        ],
{
    let mut p = vec![(label.to_owned(), false), (" = ".to_owned(), false), (printed.to_owned(), true)];
    if unit.unicode_len() == 0 {
        assert(parts_view(p@) =~= seq![(label@, false), (" = "@, false), (printed@, true)]);
    } else {
        let mut u = " (".to_owned();
        push_str(&mut u, unit);
        push_str(&mut u, ")");
        p.push((u, false));
        assert(parts_view(p@) =~= seq![
            (label@, false),
            (" = "@, false),
            (printed@, true),
            (" ("@ + unit@ + ")"@, false),
        ]);
    }
    p
}

/// A printed number is never longer after tidying.
pub proof fn law_tidy_never_longer(s: Seq<char>)
    ensures
        drop_zeros(s).len() <= s.len(),
        tidy_fixed_for(s).len() <= s.len(),
        tidy_scientific_for(s).len() <= s.len(),
{
    crate::text::lemma_back_class_bounds(s, s.len() as int, CharClass::Exactly('0'));
    let a = crate::text::strip_end(s, CharClass::Exactly('0'));
    crate::text::lemma_back_class_bounds(a, a.len() as int, CharClass::Exactly('.'));
    let e = first_e(s, 0);
    if e < s.len() {
        lemma_first_e(s, 0);
        let m = s.take(e);
        crate::text::lemma_back_class_bounds(m, m.len() as int, CharClass::Exactly('0'));
        let a2 = crate::text::strip_end(m, CharClass::Exactly('0'));
        crate::text::lemma_back_class_bounds(a2, a2.len() as int, CharClass::Exactly('.'));
    }
}

pub proof fn lemma_first_e(s: Seq<char>, i: int)
    requires
        0 <= i <= s.len(),
    ensures
        i <= first_e(s, i) <= s.len(),
    decreases s.len() - i,
{
    if i < s.len() && s[i] != 'e' {
        lemma_first_e(s, i + 1);
    }
}

} // verus!

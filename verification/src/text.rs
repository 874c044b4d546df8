//! Character-level text helpers shared by the parser and the formatters.
//!
//! Strings are modelled by their views, `Seq<char>`.  The trimming helpers
//! follow `str::trim`, `str::trim_matches`, `str::trim_start_matches` and
//! `str::trim_end_matches` exactly.
use vstd::prelude::*;

verus! {

broadcast use vstd::string::group_string_axioms;

/// Trusted: std's `String::push` appends the character to the end of the
/// string and changes nothing else, as its documentation states.
pub assume_specification[ String::push ](s: &mut String, ch: char)
    ensures
        final(s)@ == old(s)@.push(ch),
;

/// The Unicode `White_Space` property, which is what `char::is_whitespace`
/// (and hence `str::trim`) tests.
pub open spec fn is_space(c: char) -> bool {
    ||| ('\u{9}' <= c && c <= '\u{d}')
    ||| c == ' '
    ||| c == '\u{85}'
    ||| c == '\u{a0}'
    ||| c == '\u{1680}'
    ||| ('\u{2000}' <= c && c <= '\u{200a}')
    ||| c == '\u{2028}'
    ||| c == '\u{2029}'
    ||| c == '\u{202f}'
    ||| c == '\u{205f}'
    ||| c == '\u{3000}'
}

/// Executable form of [`is_space`].
pub fn char_is_space(c: char) -> (r: bool)
    ensures
        r == is_space(c),
{
    ('\u{9}' <= c && c <= '\u{d}') || c == ' ' || c == '\u{85}' || c == '\u{a0}' || c
        == '\u{1680}' || ('\u{2000}' <= c && c <= '\u{200a}') || c == '\u{2028}' || c
        == '\u{2029}' || c == '\u{202f}' || c == '\u{205f}' || c == '\u{3000}'
}

/// A class of characters that a trim removes.
#[derive(Clone, Copy)]
pub enum CharClass {
    /// Unicode white space, as in `str::trim`.
    Space,
    /// Exactly the given character, as in `str::trim_matches(c)`.
    Exactly(char),
}

/// Whether `c` belongs to the class.
pub open spec fn in_class(cls: CharClass, c: char) -> bool {
    match cls {
        CharClass::Space => is_space(c),
        CharClass::Exactly(d) => c == d,
    }
}

/// Executable form of [`in_class`].
pub fn class_contains(cls: CharClass, c: char) -> (r: bool)
    ensures
        r == in_class(cls, c),
{
    match cls {
        CharClass::Space => char_is_space(c),
        CharClass::Exactly(d) => c == d,
    }
}

/// First index at or after `i` whose character is outside the class.
pub open spec fn skip_class(s: Seq<char>, i: int, cls: CharClass) -> int
    decreases s.len() - i,
{
    if 0 <= i < s.len() && in_class(cls, s[i]) {
        skip_class(s, i + 1, cls)
    } else {
        i
    }
}

/// Index just past the last character at or before `j - 1` outside the class.
pub open spec fn back_class(s: Seq<char>, j: int, cls: CharClass) -> int
    decreases j,
{
    if 0 < j <= s.len() && in_class(cls, s[j - 1]) {
        back_class(s, j - 1, cls)
    } else {
        j
    }
}

/// `s` without its leading run of class characters (`trim_start_matches`).
pub open spec fn strip_start(s: Seq<char>, cls: CharClass) -> Seq<char> {
    s.skip(skip_class(s, 0, cls))
}

/// `s` without its trailing run of class characters (`trim_end_matches`).
pub open spec fn strip_end(s: Seq<char>, cls: CharClass) -> Seq<char> {
    s.take(back_class(s, s.len() as int, cls))
}

/// `s` without leading and trailing class characters (`trim` / `trim_matches`).
pub open spec fn strip(s: Seq<char>, cls: CharClass) -> Seq<char> {
    strip_end(strip_start(s, cls), cls)
}

/// `str::trim`.
pub open spec fn trim(s: Seq<char>) -> Seq<char> {
    strip(s, CharClass::Space)
}

pub proof fn lemma_skip_class_bounds(s: Seq<char>, i: int, cls: CharClass)
    requires
        0 <= i <= s.len(),
    ensures
        i <= skip_class(s, i, cls) <= s.len(),
        forall|k: int| i <= k < skip_class(s, i, cls) ==> in_class(cls, #[trigger] s[k]),
        skip_class(s, i, cls) < s.len() ==> !in_class(cls, s[skip_class(s, i, cls)]),
    decreases s.len() - i,
{
    if i < s.len() && in_class(cls, s[i]) {
        lemma_skip_class_bounds(s, i + 1, cls);
    }
}

pub proof fn lemma_back_class_bounds(s: Seq<char>, j: int, cls: CharClass)
    requires
        0 <= j <= s.len(),
    ensures
        0 <= back_class(s, j, cls) <= j,
        forall|k: int| back_class(s, j, cls) <= k < j ==> in_class(cls, #[trigger] s[k]),
        back_class(s, j, cls) > 0 ==> !in_class(cls, s[back_class(s, j, cls) - 1]),
    decreases j,
{
    if 0 < j && in_class(cls, s[j - 1]) {
        lemma_back_class_bounds(s, j - 1, cls);
    }
}

/// A trimmed text neither starts nor ends with white space, and trimming
/// it again changes nothing.
pub proof fn law_trim_edges(s: Seq<char>)
    ensures
        trim(s).len() > 0 ==> !is_space(trim(s)[0]) && !is_space(trim(s).last()),
        trim(s).len() <= s.len(),
        trim(trim(s)) == trim(s),
{
    let cls = CharClass::Space;
    lemma_skip_class_bounds(s, 0, cls);
    let a = strip_start(s, cls);
    lemma_back_class_bounds(a, a.len() as int, cls);
    let t = strip_end(a, cls);
    if t.len() > 0 {
        assert(t[0] == a[0]);
        assert(a[0] == s[skip_class(s, 0, cls)]);
        assert(t.last() == a[back_class(a, a.len() as int, cls) - 1]);
        assert(skip_class(t, 0, cls) == 0);
        assert(t.skip(0) =~= t);
        assert(back_class(t, t.len() as int, cls) == t.len());
        assert(t.take(t.len() as int) =~= t);
    } else {
        assert(strip_start(t, cls) =~= t);
        assert(strip_end(t, cls) =~= t);
    }
}

/// The characters of a string slice.
pub fn chars_of(s: &str) -> (v: Vec<char>)
    ensures
        v@ == s@,
{
    let mut v: Vec<char> = Vec::new();
    for c in it: s.chars()
        invariant
            it.seq() == s@,
            v@ == it.seq().take(it.index() as int),
    {
        v.push(c);
        assert(v@ =~= it.seq().take(it.index() + 1));
    }
    assert(v@ =~= s@);
    v
}

/// The string made of the characters `v[from..to]`.
pub fn string_from_range(v: &Vec<char>, from: usize, to: usize) -> (s: String)
    requires
        from <= to <= v.len(),
    ensures
        s@ == v@.subrange(from as int, to as int),
{
    let mut s = String::new();
    let mut i = from;
    while i < to
        invariant
            from <= i <= to <= v.len(),
            s@ == v@.subrange(from as int, i as int),
        decreases to - i,
    {
        s.push(v[i]);
        i = i + 1;
        assert(s@ =~= v@.subrange(from as int, i as int));
    }
    s
}

/// The string made of all characters of `v`.
pub fn string_of(v: &Vec<char>) -> (s: String)
    ensures
        s@ == v@,
{
    let s = string_from_range(v, 0, v.len());
    assert(v@.subrange(0, v@.len() as int) =~= v@);
    s
}

/// Appends the characters of `v` to `s`.
pub fn push_chars(s: &mut String, v: &Vec<char>)
    ensures
        final(s)@ == old(s)@ + v@,
{
    let mut i: usize = 0;
    while i < v.len()
        invariant
            i <= v.len(),
            s@ == old(s)@ + v@.take(i as int),
        decreases v.len() - i,
    {
        s.push(v[i]);
        i = i + 1;
        assert(s@ =~= old(s)@ + v@.take(i as int));
    }
    assert(v@.take(v@.len() as int) =~= v@);
}

/// Appends a string slice to `s`.
pub fn push_str(s: &mut String, t: &str)
    ensures
        final(s)@ == old(s)@ + t@,
{
    let v = chars_of(t);
    push_chars(s, &v);
}

/// Whether two string slices hold the same characters.
pub fn str_equal(a: &str, b: &str) -> (r: bool)
    ensures
        r == (a@ == b@),
{
    let va = chars_of(a);
    let vb = chars_of(b);
    if va.len() != vb.len() {
        return false;
    }
    let mut i: usize = 0;
    while i < va.len()
        invariant
            va@ == a@,
            vb@ == b@,
            va.len() == vb.len(),
            i <= va.len(),
            forall|k: int| 0 <= k < i ==> va@[k] == vb@[k],
        decreases va.len() - i,
    {
        if va[i] != vb[i] {
            return false;
        }
        i = i + 1;
    }
    assert(va@ =~= vb@);
    true
}

/// Index of the first character of `v[from..]` outside the class.
pub fn skip_class_index(v: &Vec<char>, from: usize, cls: CharClass) -> (i: usize)
    requires
        from <= v.len(),
    ensures
        i == skip_class(v@, from as int, cls),
{
    let mut i = from;
    while i < v.len() && class_contains(cls, v[i])
        invariant
            from <= i <= v.len(),
            skip_class(v@, from as int, cls) == skip_class(v@, i as int, cls),
        decreases v.len() - i,
    {
        i = i + 1;
    }
    i
}

/// Index just past the last character of `v[..to]` outside the class.
pub fn back_class_index(v: &Vec<char>, to: usize, cls: CharClass) -> (j: usize)
    requires
        to <= v.len(),
    ensures
        j == back_class(v@, to as int, cls),
{
    let mut j = to;
    while j > 0 && class_contains(cls, v[j - 1])
        invariant
            j <= to <= v.len(),
            back_class(v@, to as int, cls) == back_class(v@, j as int, cls),
        decreases j,
    {
        j = j - 1;
    }
    j
}

/// The characters of `v` without leading and trailing class characters.
pub fn strip_chars(v: &Vec<char>, cls: CharClass) -> (r: Vec<char>)
    ensures
        r@ == strip(v@, cls),
{
    let a = skip_class_index(v, 0, cls);
    proof {
        lemma_skip_class_bounds(v@, 0, cls);
    }
    let mut t: Vec<char> = Vec::new();
    let mut i = a;
    while i < v.len()
        invariant
            a <= i <= v.len(),
            t@ == v@.subrange(a as int, i as int),
        decreases v.len() - i,
    {
        t.push(v[i]);
        i = i + 1;
        assert(t@ =~= v@.subrange(a as int, i as int));
    }
    assert(t@ =~= strip_start(v@, cls));
    let b = back_class_index(&t, t.len(), cls);
    proof {
        lemma_back_class_bounds(t@, t@.len() as int, cls);
    }
    let mut r: Vec<char> = Vec::new();
    let mut k: usize = 0;
    while k < b
        invariant
            b <= t.len(),
            k <= b,
            r@ == t@.take(k as int),
        decreases b - k,
    {
        r.push(t[k]);
        k = k + 1;
        assert(r@ =~= t@.take(k as int));
    }
    r
}

/// `str::trim`, as characters.
pub fn trim_chars(v: &Vec<char>) -> (r: Vec<char>)
    ensures
        r@ == trim(v@),
{
    strip_chars(v, CharClass::Space)
}

/// The character of a decimal digit.
pub open spec fn digit_char(d: int) -> char {
    if d == 0 {
        '0'
    } else if d == 1 {
        '1'
    } else if d == 2 {
        '2'
    } else if d == 3 {
        '3'
    } else if d == 4 {
        '4'
    } else if d == 5 {
        '5'
    } else if d == 6 {
        '6'
    } else if d == 7 {
        '7'
    } else if d == 8 {
        '8'
    } else {
        '9'
    }
}

/// Decimal representation of a natural number, as printed by `{}`.
pub open spec fn decimal(n: nat) -> Seq<char>
    decreases n,
{
    if n < 10 {
        seq![digit_char(n as int)]
    } else {
        decimal(n / 10).push(digit_char((n % 10) as int))
    }
}

/// Decimal representation of an integer, as printed by `{}`.
pub open spec fn signed_decimal(n: int) -> Seq<char> {
    if n < 0 {
        seq!['-'] + decimal((-n) as nat)
    } else {
        decimal(n as nat)
    }
}

/// An integer printed by `{:02}`: zero-padded to at least two characters.
pub open spec fn padded2(n: int) -> Seq<char> {
    if 0 <= n < 10 {
        seq!['0', digit_char(n)]
    } else {
        signed_decimal(n)
    }
}

fn digit_to_char(d: u64) -> (c: char)
    requires
        d < 10,
    ensures
        c == digit_char(d as int),
{
    if d == 0 {
        '0'
    } else if d == 1 {
        '1'
    } else if d == 2 {
        '2'
    } else if d == 3 {
        '3'
    } else if d == 4 {
        '4'
    } else if d == 5 {
        '5'
    } else if d == 6 {
        '6'
    } else if d == 7 {
        '7'
    } else if d == 8 {
        '8'
    } else {
        '9'
    }
}

/// Appends the decimal digits of `n`.
pub fn push_decimal(s: &mut String, n: u64)
    ensures
        final(s)@ == old(s)@ + decimal(n as nat),
    decreases n,
{
    if n >= 10 {
        push_decimal(s, n / 10);
    }
    let c = digit_to_char(n % 10);
    s.push(c);
    proof {
        if n >= 10 {
            assert(old(s)@ + decimal(n as nat) =~= (old(s)@ + decimal((n / 10) as nat)).push(c));
        } else {
            assert(old(s)@ + decimal(n as nat) =~= old(s)@.push(c));
        }
    }
}

/// Appends `n` as printed by `{}`.
pub fn push_signed_decimal(s: &mut String, n: i64)
    ensures
        final(s)@ == old(s)@ + signed_decimal(n as int),
{
    if n < 0 {
        s.push('-');
        let m: u64 = if n == i64::MIN {
            9223372036854775808u64
        } else {
            (-n) as u64
        };
        push_decimal(s, m);
        assert(old(s)@ + signed_decimal(n as int) =~= old(s)@.push('-') + decimal(m as nat));
    } else {
        push_decimal(s, n as u64);
    }
}

/// Appends `n` as printed by `{:02}`.
pub fn push_padded2(s: &mut String, n: i64)
    ensures
        final(s)@ == old(s)@ + padded2(n as int),
{
    if 0 <= n && n < 10 {
        s.push('0');
        let c = digit_to_char(n as u64);
        s.push(c);
        assert(old(s)@ + padded2(n as int) =~= old(s)@.push('0').push(c));
    } else {
        push_signed_decimal(s, n);
    }
}

/// `n` as printed by `{}`.
pub fn usize_to_string(n: usize) -> (s: String)
    ensures
        s@ == decimal(n as nat),
{
    let mut s = String::new();
    push_decimal(&mut s, n as u64);
    assert(s@ =~= decimal(n as nat));
    s
}

/// The value of a decimal digit character, read off its code point.
pub open spec fn digit_value(c: char) -> int {
    c as int - '0' as int
}

/// The number a string of decimal digits writes, most significant first.
pub open spec fn decimal_value(s: Seq<char>) -> int
    decreases s.len(),
{
    if s.len() == 0 {
        0
    } else {
        10 * decimal_value(s.drop_last()) + digit_value(s.last())
    }
}

/// Every digit character is the character `'0' + d` of its digit `d`.
pub proof fn law_digit_char_code(d: int)
    requires
        0 <= d < 10,
    ensures
        digit_char(d) as int == '0' as int + d,
        '0' <= digit_char(d) && digit_char(d) <= '9',
        digit_value(digit_char(d)) == d,
{
}

/// Appending a digit to a string of digits multiplies its value by ten and
/// adds the digit.
pub proof fn lemma_decimal_value_push(s: Seq<char>, c: char)
    ensures
        decimal_value(s.push(c)) == 10 * decimal_value(s) + digit_value(c),
        decimal_value(seq![c]) == digit_value(c),
{
    assert(s.push(c).drop_last() =~= s);
    assert(seq![c].drop_last() =~= Seq::<char>::empty());
    assert(decimal_value(Seq::<char>::empty()) == 0);
}

/// A printed natural number consists of decimal digits, has no leading
/// zero, and reads back as the number.
pub proof fn law_decimal_reads_back(n: nat)
    ensures
        decimal_value(decimal(n)) == n,
        decimal(n).len() > 0,
        forall|k: int| 0 <= k < decimal(n).len() ==> '0' <= #[trigger] decimal(n)[k] && decimal(n)[k] <= '9',
        decimal(n).len() > 1 <==> n >= 10,
        decimal(n).len() > 1 ==> decimal(n)[0] != '0',
    decreases n,
{
    if n < 10 {
        law_digit_char_code(n as int);
        assert(decimal(n) == seq![digit_char(n as int)]);
        lemma_decimal_value_push(Seq::<char>::empty(), digit_char(n as int));
    } else {
        let q: nat = n / 10;
        let r: int = (n % 10) as int;
        law_decimal_reads_back(q);
        law_digit_char_code(r);
        let p = decimal(q);
        let s = decimal(n);
        assert(s == p.push(digit_char(r)));
        lemma_decimal_value_push(p, digit_char(r));
        assert(decimal_value(s) == 10 * q + r);
        assert(10 * q + r == n);
        assert forall|k: int| 0 <= k < s.len() implies '0' <= #[trigger] s[k] && s[k] <= '9' by {
            if k < s.len() - 1 {
                assert(s[k] == p[k]);
            }
        }
        assert(s[0] == p[0]);
        if q < 10 {
            law_digit_char_code(q as int);
            assert(p == seq![digit_char(q as int)]);
            assert(p[0] != '0');
        }
    }
}

/// A number below 100 printed by `{:02}` is exactly two digits that read
/// back as the number: `padded2(0)` is `"00"`, `padded2(7)` is `"07"`.
pub proof fn law_padded2_two_digits(n: int)
    requires
        0 <= n < 100,
    ensures
        padded2(n).len() == 2,
        decimal_value(padded2(n)) == n,
        forall|k: int| 0 <= k < 2 ==> '0' <= #[trigger] padded2(n)[k] && padded2(n)[k] <= '9',
{
    if n < 10 {
        law_digit_char_code(n);
        let s = padded2(n);
        assert(s == seq!['0'].push(digit_char(n)));
        lemma_decimal_value_push(seq!['0'], digit_char(n));
        lemma_decimal_value_push(Seq::<char>::empty(), '0');
    } else {
        law_decimal_reads_back(n as nat);
        assert(padded2(n) == decimal(n as nat));
        let q: nat = (n / 10) as nat;
        assert(q < 10);
        assert(decimal(n as nat) == decimal(q).push(digit_char(n % 10)));
        assert(decimal(q) == seq![digit_char(q as int)]);
    }
}

} // verus!

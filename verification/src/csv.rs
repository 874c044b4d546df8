//! Text side of the CSV/TSV tail reader: assembling appended lines into
//! rows, and cutting a row into the X cell and the Y cells.
//!
//! Number parsing is not done here: a row comes out as the trimmed text of
//! each selected cell, and the caller turns that text into numbers.
use vstd::prelude::*;
use vstd::utf8::*;
use vstd::string::StringSliceAdditionalSpecFns;
use crate::text::{chars_of, string_from_range, string_of, strip_chars, trim_chars, CharClass};

verus! {

broadcast use vstd::string::group_string_axioms;

// ---------------------------------------------------------------------------
// Splitting on a delimiter
// ---------------------------------------------------------------------------

/// Whether `d` occurs in `s` at index `i`.
pub open spec fn occurs_at(s: Seq<char>, d: Seq<char>, i: int) -> bool {
    0 <= i && i + d.len() <= s.len() && s.subrange(i, i + d.len()) == d
}

/// The first index at or after `from` where `d` occurs in `s`.
pub open spec fn find_from(s: Seq<char>, d: Seq<char>, from: int) -> Option<int>
    decreases s.len() + 1 - from,
{
    if from < 0 || from + d.len() > s.len() {
        None
    } else if occurs_at(s, d, from) {
        Some(from)
    } else {
        find_from(s, d, from + 1)
    }
}

pub proof fn lemma_find_from(s: Seq<char>, d: Seq<char>, from: int)
    requires
        0 <= from,
    ensures
        find_from(s, d, from) matches Some(i) ==> from <= i && i + d.len() <= s.len()
            && occurs_at(s, d, i) && forall|k: int| from <= k < i ==> !occurs_at(s, d, k),
        find_from(s, d, from) is None ==> forall|k: int| from <= k ==> !occurs_at(s, d, k),
    decreases s.len() + 1 - from,
{
    if from + d.len() > s.len() {
    } else if occurs_at(s, d, from) {
    } else {
        lemma_find_from(s, d, from + 1);
    }
}

/// The pieces of `s[start..]` between the occurrences of the non-empty `d`,
/// scanning left to right for non-overlapping occurrences.
pub open spec fn split_from(s: Seq<char>, d: Seq<char>, start: int) -> Seq<Seq<char>>
    decreases s.len() - start,
{
    if d.len() == 0 || start < 0 || start > s.len() {
        seq![]
    } else {
        match find_from(s, d, start) {
            Some(i) => {
                proof {
                    lemma_find_from(s, d, start);
                }
                seq![s.subrange(start, i)] + split_from(s, d, i + d.len())
            },
            None => seq![s.subrange(start, s.len() as int)],
        }
    }
}

/// `str::split` with a string pattern: the pieces between the occurrences
/// of `d`.  An empty pattern matches before and after every character.
pub open spec fn split_on(s: Seq<char>, d: Seq<char>) -> Seq<Seq<char>> {
    if d.len() == 0 {
        seq![Seq::<char>::empty()] + Seq::new(s.len(), |i: int| seq![s[i]]) + seq![
            Seq::<char>::empty(),
        ]
    } else {
        split_from(s, d, 0)
    }
}

/// The views of a vector of strings.
pub open spec fn views(v: Seq<String>) -> Seq<Seq<char>> {
    v.map_values(|x: String| x@)
}

fn occurs_at_exec(v: &Vec<char>, d: &Vec<char>, i: usize) -> (r: bool)
    requires
        i + d.len() <= v.len(),
    ensures
        r == occurs_at(v@, d@, i as int),
{
    let mut k: usize = 0;
    while k < d.len()
        invariant
            i + d.len() <= v.len(),
            k <= d.len(),
            forall|j: int| 0 <= j < k ==> v@[i + j] == d@[j],
        decreases d.len() - k,
    {
        if v[i + k] != d[k] {
            assert(v@.subrange(i as int, i + d@.len())[k as int] != d@[k as int]);
            return false;
        }
        k = k + 1;
    }
    assert(v@.subrange(i as int, i + d@.len()) =~= d@);
    true
}

fn find_from_exec(v: &Vec<char>, d: &Vec<char>, from: usize) -> (r: Option<usize>)
    requires
        from <= v.len(),
        d.len() > 0,
    ensures
        r matches Some(i) ==> find_from(v@, d@, from as int) == Some(i as int),
        r is None ==> find_from(v@, d@, from as int) is None,
{
    let mut i = from;
    while i < v.len() && d.len() <= v.len() - i
        invariant
            from <= i <= v.len(),
            d.len() > 0,
            find_from(v@, d@, from as int) == find_from(v@, d@, i as int),
        decreases v.len() + 1 - i,
    {
        if occurs_at_exec(v, d, i) {
            return Some(i);
        }
        i = i + 1;
    }
    None
}

/// Splits `line` on `delim`, as `line.split(delim)` does.
pub fn split_on_delimiter(line: &str, delim: &str) -> (fields: Vec<String>)
    ensures
        views(fields@) == split_on(line@, delim@),
{
    let v = chars_of(line);
    let d = chars_of(delim);
    let mut out: Vec<String> = Vec::new();
    if d.len() == 0 {
        out.push(String::new());
        let mut i: usize = 0;
        while i < v.len()
            invariant
                i <= v.len(),
                views(out@) =~= seq![Seq::<char>::empty()] + Seq::new(
                    i as nat,
                    |k: int| seq![v@[k]],
                ),
            decreases v.len() - i,
        {
            let piece = string_from_range(&v, i, i + 1);
            assert(piece@ =~= seq![v@[i as int]]);
            let ghost before = views(out@);
            out.push(piece);
            assert(views(out@) =~= before.push(piece@));
            i = i + 1;
        }
        let ghost before = views(out@);
        out.push(String::new());
        assert(views(out@) =~= before.push(Seq::<char>::empty()));
        assert(views(out@) =~= split_on(line@, delim@));
        return out;
    }
    let mut start: usize = 0;
    loop
        invariant
            d@.len() > 0,
            v@ == line@,
            d@ == delim@,
            start <= v.len(),
            views(out@) + split_from(v@, d@, start as int) == split_from(v@, d@, 0),
        decreases v.len() - start,
    {
        let found = find_from_exec(&v, &d, start);
        proof {
            lemma_find_from(v@, d@, start as int);
        }
        match found {
            Some(i) => {
                let piece = string_from_range(&v, start, i);
                let ghost old_out = views(out@);
                out.push(piece);
                assert(views(out@) =~= old_out.push(piece@));
                assert(split_from(v@, d@, start as int) =~= seq![piece@] + split_from(
                    v@,
                    d@,
                    i + d@.len(),
                ));
                assert(views(out@) + split_from(v@, d@, i + d@.len()) =~= old_out + split_from(
                    v@,
                    d@,
                    start as int,
                ));
                start = i + d.len();
            },
            None => {
                let piece = string_from_range(&v, start, v.len());
                let ghost old_out = views(out@);
                out.push(piece);
                assert(views(out@) =~= old_out + split_from(v@, d@, start as int));
                return out;
            },
        }
    }
}

/// Joining a non-empty list after one more leading piece puts the
/// separator between that piece and the rest.
pub proof fn lemma_join_cons(a: Seq<char>, rest: Seq<Seq<char>>, d: Seq<char>)
    requires
        rest.len() > 0,
    ensures
        crate::config::join(seq![a] + rest, d) == a + d + crate::config::join(rest, d),
    decreases rest.len(),
{
    let all = seq![a] + rest;
    if rest.len() == 1 {
        assert(all.drop_last() =~= seq![a]);
        assert(all.last() == rest[0]);
        assert(crate::config::join(rest, d) == rest[0]);
        assert(a + d + rest[0] =~= crate::config::join(seq![a], d) + d + rest[0]);
    } else {
        lemma_join_cons(a, rest.drop_last(), d);
        assert(all.drop_last() =~= seq![a] + rest.drop_last());
        assert(all.last() == rest.last());
        assert(a + d + crate::config::join(rest, d) =~= (a + d + crate::config::join(
            rest.drop_last(),
            d,
        )) + d + rest.last());
    }
}

proof fn lemma_join_split_from(s: Seq<char>, d: Seq<char>, start: int)
    requires
        d.len() > 0,
        0 <= start <= s.len(),
    ensures
        split_from(s, d, start).len() > 0,
        crate::config::join(split_from(s, d, start), d) == s.subrange(start, s.len() as int),
    decreases s.len() - start,
{
    lemma_find_from(s, d, start);
    match find_from(s, d, start) {
        Some(i) => {
            lemma_join_split_from(s, d, i + d.len());
            lemma_join_cons(s.subrange(start, i), split_from(s, d, i + d.len()), d);
            assert(s.subrange(i, i + d.len()) == d);
            assert(s.subrange(start, i) + d + s.subrange(i + d.len(), s.len() as int)
                =~= s.subrange(start, s.len() as int));
        },
        None => {
            assert(crate::config::join(seq![s.subrange(start, s.len() as int)], d)
                == s.subrange(start, s.len() as int));
        },
    }
}

proof fn lemma_join_singles(s: Seq<char>, k: int)
    requires
        0 <= k <= s.len(),
    ensures
        crate::config::join(
            seq![Seq::<char>::empty()] + Seq::new(k as nat, |i: int| seq![s[i]]),
            Seq::<char>::empty(),
        ) == s.take(k),
    decreases k,
{
    let e = Seq::<char>::empty();
    let ps = seq![e] + Seq::new(k as nat, |i: int| seq![s[i]]);
    if k == 0 {
        assert(ps =~= seq![e]);
        assert(s.take(0) =~= e);
    } else {
        lemma_join_singles(s, k - 1);
        assert(ps.drop_last() =~= seq![e] + Seq::new((k - 1) as nat, |i: int| seq![s[i]]));
        assert(ps.last() == seq![s[k - 1]]);
        assert(s.take(k) =~= s.take(k - 1) + e + seq![s[k - 1]]);
    }
}

/// Splitting a line on a delimiter and joining the pieces with it gives
/// the line back: the pieces are exactly the text between the delimiters.
pub proof fn law_split_join_roundtrip(s: Seq<char>, d: Seq<char>)
    ensures
        crate::config::join(split_on(s, d), d) == s,
{
    if d.len() == 0 {
        let e = Seq::<char>::empty();
        let ps = split_on(s, d);
        assert(d =~= e);
        lemma_join_singles(s, s.len() as int);
        assert(ps.drop_last() =~= seq![e] + Seq::new(s.len(), |i: int| seq![s[i]]));
        assert(ps.len() >= 2);
        assert(ps.last() == e);
        assert(crate::config::join(ps, d) == crate::config::join(ps.drop_last(), d) + d
            + ps.last());
        assert(s.take(s.len() as int) =~= s);
        assert(s + d + e =~= s);
    } else {
        lemma_join_split_from(s, d, 0);
        assert(s.subrange(0, s.len() as int) =~= s);
    }
}

/// No field left after merging delimiters is blank.
pub proof fn law_merged_fields_not_blank(fields: Seq<Seq<char>>, k: int)
    requires
        0 <= k <= fields.len(),
    ensures
        forall|j: int|
            0 <= j < nonblank_prefix(fields, k).len() ==> !is_blank(
                #[trigger] nonblank_prefix(fields, k)[j],
            ),
        nonblank_prefix(fields, k).len() <= k,
    decreases k,
{
    if k > 0 {
        law_merged_fields_not_blank(fields, k - 1);
    }
}

// ---------------------------------------------------------------------------
// Merging delimiters
// ---------------------------------------------------------------------------

/// Whether a field holds nothing but white space.
pub open spec fn is_blank(f: Seq<char>) -> bool {
    crate::text::trim(f).len() == 0
}

/// The first `k` fields of `fields` without the blank ones.
pub open spec fn nonblank_prefix(fields: Seq<Seq<char>>, k: int) -> Seq<Seq<char>>
    decreases k,
{
    if k <= 0 {
        seq![]
    } else if is_blank(fields[k - 1]) {
        nonblank_prefix(fields, k - 1)
    } else {
        nonblank_prefix(fields, k - 1).push(fields[k - 1])
    }
}

/// `fields` without the blank ones, in order.
pub open spec fn nonblank(fields: Seq<Seq<char>>) -> Seq<Seq<char>> {
    nonblank_prefix(fields, fields.len() as int)
}

fn drop_blank_fields(fields: Vec<String>) -> (r: Vec<String>)
    ensures
        views(r@) == nonblank(views(fields@)),
{
    let mut out: Vec<String> = Vec::new();
    let mut i: usize = 0;
    while i < fields.len()
        invariant
            i <= fields.len(),
            views(out@) == nonblank_prefix(views(fields@), i as int),
        decreases fields.len() - i,
    {
        let f = fields[i].clone();
        let cs = chars_of(f.as_str());
        let t = trim_chars(&cs);
        let ghost before = views(out@);
        if t.len() != 0 {
            out.push(f);
            assert(views(out@) =~= before.push(fields@[i as int]@));
        }
        i = i + 1;
    }
    out
}

// ---------------------------------------------------------------------------
// Fixed-width columns
// ---------------------------------------------------------------------------

/// The byte offset where fixed-width field `k` starts in a line of `len`
/// bytes.  Once the line is used up every later field starts at the end.
pub open spec fn fixed_pos(len: int, widths: Seq<usize>, k: int) -> int
    decreases k,
{
    if k <= 0 {
        0
    } else {
        let p = fixed_pos(len, widths, k - 1);
        if p >= len {
            p
        } else if p + widths[k - 1] < len {
            p + widths[k - 1]
        } else {
            len
        }
    }
}

pub proof fn lemma_fixed_pos_bounds(len: int, widths: Seq<usize>, k: int)
    requires
        0 <= len,
    ensures
        0 <= fixed_pos(len, widths, k) <= len,
    decreases k,
{
    if k > 0 {
        lemma_fixed_pos_bounds(len, widths, k - 1);
    }
}

/// The byte end of fixed-width field `k`.
pub open spec fn fixed_end(len: int, widths: Seq<usize>, k: int) -> int {
    let p = fixed_pos(len, widths, k);
    if p + widths[k] < len {
        p + widths[k]
    } else {
        len
    }
}

/// The bytes of fixed-width field `k` of the UTF-8 line `b`: empty once the
/// line is used up, and empty when the cut would fall inside a character
/// (as `str::get` gives `None` there).
pub open spec fn fixed_field_bytes(b: Seq<u8>, widths: Seq<usize>, k: int) -> Seq<u8> {
    let p = fixed_pos(b.len() as int, widths, k);
    let e = fixed_end(b.len() as int, widths, k);
    if p >= b.len() {
        Seq::<u8>::empty()
    } else if is_char_boundary(b, p) && is_char_boundary(b, e) {
        b.subrange(p, e)
    } else {
        Seq::<u8>::empty()
    }
}

/// The fixed-width fields of a line, as characters.
pub open spec fn fixed_fields(line: Seq<char>, widths: Seq<usize>) -> Seq<Seq<char>> {
    Seq::new(widths.len(), |k: int| decode_utf8(fixed_field_bytes(encode_utf8(line), widths, k)))
}

/// No cut position of the line overflows `usize`.
pub open spec fn fixed_cuts_fit(len: int, widths: Seq<usize>) -> bool {
    forall|k: int|
        0 <= k < widths.len() && fixed_pos(len, widths, k) < len ==> fixed_pos(len, widths, k)
            + widths[k] <= usize::MAX
}

proof fn lemma_boundary_in_suffix(b: Seq<u8>, p: int, e: int)
    requires
        valid_utf8(b),
        0 <= p <= e <= b.len(),
        is_char_boundary(b, p),
        is_char_boundary(b, e),
    ensures
        valid_utf8(b.subrange(p, b.len() as int)),
        is_char_boundary(b.subrange(p, b.len() as int), e - p),
{
    let r = b.subrange(p, b.len() as int);
    valid_utf8_split(b, p);
    if e == b.len() {
        is_char_boundary_start_end_of_seq(r);
        assert(r.len() == e - p);
    } else {
        is_char_boundary_iff_not_is_continuation_byte(b, e);
        is_char_boundary_iff_not_is_continuation_byte(r, e - p);
        assert(r[e - p] == b[e]);
    }
}

fn split_fixed(line: &str, widths: &Vec<usize>) -> (fields: Vec<String>)
    requires
        fixed_cuts_fit(line.spec_bytes().len() as int, widths@),
    ensures
        fields.len() == widths.len(),
        forall|k: int|
            0 <= k < widths.len() ==> encode_utf8(#[trigger] fields@[k]@) == fixed_field_bytes(
                line.spec_bytes(),
                widths@,
                k,
            ),
{
    let ghost b = line.spec_bytes();
    let len = line.as_bytes().len();
    proof {
        encode_utf8_valid_utf8(line@);
    }
    let mut out: Vec<String> = Vec::new();
    let mut pos: usize = 0;
    let mut k: usize = 0;
    while k < widths.len()
        invariant
            b == line.spec_bytes(),
            len == b.len(),
            valid_utf8(b),
            fixed_cuts_fit(len as int, widths@),
            k <= widths.len(),
            out.len() == k,
            pos == fixed_pos(len as int, widths@, k as int),
            forall|j: int|
                0 <= j < k ==> encode_utf8(#[trigger] out@[j]@) == fixed_field_bytes(
                    b,
                    widths@,
                    j,
                ),
        decreases widths.len() - k,
    {
        proof {
            lemma_fixed_pos_bounds(len as int, widths@, k as int);
        }
        let w = widths[k];
        if pos >= len {
            out.push(String::new());
            assert(encode_utf8(Seq::<char>::empty()) =~= Seq::<u8>::empty());
        } else {
            let end = if w < len - pos {
                pos + w
            } else {
                len
            };
            if line.is_char_boundary(pos) && line.is_char_boundary(end) {
                let (_, rest) = line.split_at(pos);
                proof {
                    lemma_boundary_in_suffix(b, pos as int, end as int);
                }
                let (mid, _) = rest.split_at(end - pos);
                assert(mid.spec_bytes() =~= b.subrange(pos as int, end as int));
                out.push(mid.to_owned());
            } else {
                out.push(String::new());
                assert(encode_utf8(Seq::<char>::empty()) =~= Seq::<u8>::empty());
            }
            pos = end;
        }
        k = k + 1;
    }
    out
}

// ---------------------------------------------------------------------------
// Row layout
// ---------------------------------------------------------------------------

/// How a data row is cut into cells and which cells are read.
pub struct RowParser {
    /// Column of the X value, 0-based.
    pub x_col: usize,
    /// Columns of the Y values, 0-based, in series order.
    pub y_cols: Vec<usize>,
    /// Field delimiter (used when `fixed_widths` is empty).
    pub delimiter: String,
    /// Fixed-width column widths in bytes; when non-empty they replace the delimiter.
    pub fixed_widths: Vec<usize>,
    /// Quote character stripped from both ends of every cell.
    pub string_quote: Option<char>,
    /// Treat runs of delimiters as one (blank fields are dropped).
    pub merge_delimiter: bool,
}

/// The text of the X cell and of each Y cell of one row.
pub struct RowText {
    /// The trimmed, unquoted X cell.
    pub x: String,
    /// For each Y column: the trimmed, unquoted cell, or `None` when the
    /// column is missing or the cell is empty.
    pub ys: Vec<Option<String>>,
}

/// The view of an optional string.
pub open spec fn opt_view(o: Option<String>) -> Option<Seq<char>> {
    match o {
        Some(s) => Some(s@),
        None => None,
    }
}

impl View for RowText {
    type V = (Seq<char>, Seq<Option<Seq<char>>>);

    open spec fn view(&self) -> (Seq<char>, Seq<Option<Seq<char>>>) {
        (self.x@, self.ys@.map_values(|o: Option<String>| opt_view(o)))
    }
}

/// A cell after `crate::text::trim()` and, with a quote character, `trim_matches(quote)`.
pub open spec fn clean_cell(cell: Seq<char>, quote: Option<char>) -> Seq<char> {
    match quote {
        Some(q) => crate::text::strip(crate::text::trim(cell), CharClass::Exactly(q)),
        None => crate::text::trim(cell),
    }
}

/// The value of a Y column: missing columns and empty cells read as `None`.
pub open spec fn y_cell(fields: Seq<Seq<char>>, col: int, quote: Option<char>) -> Option<
    Seq<char>,
> {
    if 0 <= col < fields.len() && clean_cell(fields[col], quote).len() > 0 {
        Some(clean_cell(fields[col], quote))
    } else {
        None
    }
}

/// A cell written between two configured quote characters cleans to the
/// text between them, whatever the quote character (as long as it is not
/// white space), provided the text holds no quote character: the cleaned
/// cell neither starts nor ends with the quote.
pub proof fn law_quoted_cell_unquoted(q: char, text: Seq<char>)
    requires
        !crate::text::is_space(q),
        !text.contains(q),
    ensures
        clean_cell(seq![q] + text + seq![q], Some(q)) == text,
        clean_cell(text, Some(q)) == crate::text::trim(text),
{
    let cell = seq![q] + text + seq![q];
    let sp = CharClass::Space;
    let qc = CharClass::Exactly(q);
    assert(cell[0] == q);
    assert(cell[cell.len() - 1] == q);
    assert(crate::text::skip_class(cell, 0, sp) == 0);
    assert(cell.skip(0) =~= cell);
    assert(crate::text::back_class(cell, cell.len() as int, sp) == cell.len());
    assert(cell.take(cell.len() as int) =~= cell);
    assert(crate::text::trim(cell) == cell);
    // leading quote
    assert(crate::text::skip_class(cell, 0, qc) == crate::text::skip_class(cell, 1, qc));
    if text.len() > 0 {
        assert(cell[1] == text[0]);
        assert(!(text[0] == q)) by {
            if text[0] == q {
                assert(text.contains(q));
            }
        }
        assert(crate::text::skip_class(cell, 1, qc) == 1);
        let a = cell.skip(1);
        assert(a =~= text + seq![q]);
        assert(a[a.len() - 1] == q);
        assert(crate::text::back_class(a, a.len() as int, qc) == crate::text::back_class(
            a,
            a.len() - 1,
            qc,
        ));
        assert(a[a.len() - 2] == text[text.len() - 1]);
        assert(!(text[text.len() - 1] == q)) by {
            if text[text.len() - 1] == q {
                assert(text.contains(q));
            }
        }
        assert(crate::text::back_class(a, a.len() - 1, qc) == a.len() - 1);
        assert(a.take(a.len() - 1) =~= text);
    } else {
        assert(cell =~= seq![q, q]);
        assert(crate::text::skip_class(cell, 1, qc) == crate::text::skip_class(cell, 2, qc));
        assert(crate::text::skip_class(cell, 2, qc) == 2);
        let a = cell.skip(2);
        assert(a.len() == 0);
        assert(crate::text::back_class(a, 0, qc) == 0);
        assert(a.take(0) =~= text);
    }
    // a cell without quotes only gets trimmed
    let t = crate::text::trim(text);
    crate::text::law_trim_edges(text);
    crate::text::lemma_skip_class_bounds(text, 0, sp);
    let st = crate::text::strip_start(text, sp);
    crate::text::lemma_back_class_bounds(st, st.len() as int, sp);
    assert forall|k: int| 0 <= k < t.len() implies t[k] != q by {
        assert(t[k] == st[k]);
        assert(st[k] == text[k + crate::text::skip_class(text, 0, sp)]);
        if t[k] == q {
            assert(text.contains(q));
        }
    }
    if t.len() > 0 {
        assert(crate::text::skip_class(t, 0, qc) == 0);
        assert(crate::text::back_class(t, t.len() as int, qc) == t.len());
    } else {
        assert(crate::text::skip_class(t, 0, qc) == 0);
        assert(crate::text::back_class(t, 0, qc) == 0);
    }
    assert(t.skip(0) =~= t);
    assert(t.take(t.len() as int) =~= t);
}

fn clean_cell_exec(cell: &String, quote: Option<char>) -> (r: Vec<char>)
    ensures
        r@ == clean_cell(cell@, quote),
{
    let cs = chars_of(cell.as_str());
    let t = trim_chars(&cs);
    match quote {
        Some(q) => strip_chars(&t, CharClass::Exactly(q)),
        None => t,
    }
}

/// The 0-based column that a 1-based column number names; 0 is read as 1.
pub open spec fn column_index(c: usize) -> usize {
    if c > 0 {
        (c - 1) as usize
    } else {
        0
    }
}

impl RowParser {
    /// Two layouts cut and read rows alike: same columns, delimiter,
    /// widths, quote and merge setting.
    pub open spec fn same_layout(&self, other: &Self) -> bool {
        &&& self.x_col == other.x_col
        &&& self.y_cols@ == other.y_cols@
        &&& self.delimiter@ == other.delimiter@
        &&& self.fixed_widths@ == other.fixed_widths@
        &&& self.string_quote == other.string_quote
        &&& self.merge_delimiter == other.merge_delimiter
    }

    /// The fields of `line` under this layout.
    pub open spec fn spec_fields(&self, line: Seq<char>) -> Seq<Seq<char>> {
        if self.fixed_widths@.len() > 0 {
            fixed_fields(line, self.fixed_widths@)
        } else if self.merge_delimiter {
            nonblank(split_on(line, self.delimiter@))
        } else {
            split_on(line, self.delimiter@)
        }
    }

    /// Whether cutting `line` into fixed-width fields stays within `usize`.
    pub open spec fn cuts_fit(&self, line: &str) -> bool {
        self.fixed_widths@.len() > 0 ==> fixed_cuts_fit(
            line.spec_bytes().len() as int,
            self.fixed_widths@,
        )
    }

    /// The cells of a row, or `None` when the row has no X column.
    pub open spec fn spec_row(&self, line: Seq<char>) -> Option<
        (Seq<char>, Seq<Option<Seq<char>>>),
    > {
        let fields = self.spec_fields(line);
        if self.x_col < fields.len() {
            Some(
                (
                    clean_cell(fields[self.x_col as int], self.string_quote),
                    Seq::new(
                        self.y_cols@.len(),
                        |j: int| y_cell(fields, self.y_cols@[j] as int, self.string_quote),
                    ),
                ),
            )
        } else {
            None
        }
    }

    /// A layout from 1-based column numbers (column 0 is read as column 1).
    pub fn new(
        x_col_1based: usize,
        y_cols_1based: &[usize],
        delimiter: String,
        fixed_widths: Vec<usize>,
        string_quote: Option<char>,
        merge_delimiter: bool,
    ) -> (p: Self)
        ensures
            p.x_col == column_index(x_col_1based),
            p.y_cols@.len() == y_cols_1based@.len(),
            forall|j: int|
                0 <= j < y_cols_1based@.len() ==> #[trigger] p.y_cols@[j] == column_index(
                    y_cols_1based@[j],
                ),
            p.delimiter == delimiter,
            p.fixed_widths == fixed_widths,
            p.string_quote == string_quote,
            p.merge_delimiter == merge_delimiter,
    {
        let mut y_cols: Vec<usize> = Vec::new();
        let mut i: usize = 0;
        while i < y_cols_1based.len()
            invariant
                i <= y_cols_1based@.len(),
                y_cols@.len() == i,
                forall|j: int|
                    0 <= j < i ==> #[trigger] y_cols@[j] == if y_cols_1based@[j] > 0 {
                        y_cols_1based@[j] - 1
                    } else {
                        0
                    },
            decreases y_cols_1based@.len() - i,
        {
            let c = y_cols_1based[i];
            y_cols.push(if c > 0 {
                c - 1
            } else {
                0
            });
            i = i + 1;
        }
        RowParser {
            x_col: if x_col_1based > 0 {
                x_col_1based - 1
            } else {
                0
            },
            y_cols,
            delimiter,
            fixed_widths,
            string_quote,
            merge_delimiter,
        }
    }

    /// Cuts a line into fields: fixed-width byte columns when widths are
    /// set, otherwise the pieces between delimiters (blank pieces dropped
    /// when delimiters are merged).
    pub fn split_fields(&self, line: &str) -> (fields: Vec<String>)
        requires
            self.cuts_fit(line),
        ensures
            views(fields@) == self.spec_fields(line@),
            self.fixed_widths@.len() > 0 ==> forall|k: int|
                0 <= k < fields.len() ==> encode_utf8(#[trigger] fields@[k]@)
                    == fixed_field_bytes(line.spec_bytes(), self.fixed_widths@, k),
    {
        if self.fixed_widths.len() > 0 {
            let fields = split_fixed(line, &self.fixed_widths);
            proof {
                encode_utf8_valid_utf8(line@);
                assert forall|k: int| 0 <= k < fields.len() implies #[trigger] views(fields@)[k]
                    == fixed_fields(line@, self.fixed_widths@)[k] by {
                    encode_utf8_decode_utf8(fields@[k]@);
                }
                assert(views(fields@) =~= fixed_fields(line@, self.fixed_widths@));
            }
            fields
        } else {
            let raw = split_on_delimiter(line, self.delimiter.as_str());
            if self.merge_delimiter {
                drop_blank_fields(raw)
            } else {
                raw
            }
        }
    }

    /// The X text and Y texts of a row; `None` when the row has no X column.
    pub fn parse_row(&self, line: &str) -> (r: Option<RowText>)
        requires
            self.cuts_fit(line),
        ensures
            r matches Some(t) ==> self.spec_row(line@) == Some(t@),
            r is None ==> self.spec_row(line@) is None,
    {
        let fields = self.split_fields(line);
        let ghost fv = views(fields@);
        if self.x_col >= fields.len() {
            return None;
        }
        let xc = clean_cell_exec(&fields[self.x_col], self.string_quote);
        let x = string_of(&xc);
        let mut ys: Vec<Option<String>> = Vec::new();
        let mut j: usize = 0;
        while j < self.y_cols.len()
            invariant
                fv == views(fields@),
                fv == self.spec_fields(line@),
                j <= self.y_cols@.len(),
                ys@.len() == j,
                forall|i: int|
                    0 <= i < j ==> opt_view(#[trigger] ys@[i]) == y_cell(
                        fv,
                        self.y_cols@[i] as int,
                        self.string_quote,
                    ),
            decreases self.y_cols@.len() - j,
        {
            let col = self.y_cols[j];
            if col < fields.len() {
                let c = clean_cell_exec(&fields[col], self.string_quote);
                if c.len() > 0 {
                    ys.push(Some(string_of(&c)));
                } else {
                    ys.push(None);
                }
            } else {
                ys.push(None);
            }
            j = j + 1;
        }
        let t = RowText { x, ys };
        assert(t@.1 =~= Seq::new(
            self.y_cols@.len(),
            |i: int| y_cell(fv, self.y_cols@[i] as int, self.string_quote),
        ));
        Some(t)
    }
}


// ---------------------------------------------------------------------------
// Assembling appended lines
// ---------------------------------------------------------------------------

/// The state of a new assembler: line 1, nothing buffered.
pub open spec fn fresh_feed(data_start_row: nat) -> FeedState {
    FeedState { line: 1, data_start_row, pending: Seq::<char>::empty() }
}

/// What one chunk returned by a line read turned out to be.
pub enum Fed<T> {
    /// The chunk did not end a line; it is kept until the rest arrives.
    Incomplete,
    /// A completed line above the first data row.
    Header,
    /// A completed data line holding only white space.
    Blank,
    /// A completed data line, trimmed.
    Row(T),
}

/// The state of the line assembler, as mathematical values.
pub struct FeedState {
    /// 1-based number of the next line to complete.
    pub line: nat,
    /// 1-based number of the first data row.
    pub data_start_row: nat,
    /// Text of a line whose end has not arrived yet.
    pub pending: Seq<char>,
}

/// Whether a chunk read from the file ends a line.
pub open spec fn ends_line(chunk: Seq<char>) -> bool {
    chunk.len() > 0 && (chunk.last() == '\n' || chunk.last() == '\r')
}

/// One step of the line assembler on a chunk returned by a line read.
pub open spec fn feed_step(st: FeedState, chunk: Seq<char>) -> (FeedState, Fed<Seq<char>>) {
    if !ends_line(chunk) {
        (FeedState { pending: st.pending + chunk, ..st }, Fed::Incomplete)
    } else {
        let full = st.pending + chunk;
        let next = FeedState { line: st.line + 1, pending: Seq::<char>::empty(), ..st };
        if st.line < st.data_start_row {
            (next, Fed::Header)
        } else if crate::text::trim(full).len() == 0 {
            (next, Fed::Blank)
        } else {
            (next, Fed::Row(crate::text::trim(full)))
        }
    }
}

/// The view of an outcome.
pub open spec fn fed_view(f: Fed<String>) -> Fed<Seq<char>> {
    match f {
        Fed::Incomplete => Fed::Incomplete,
        Fed::Header => Fed::Header,
        Fed::Blank => Fed::Blank,
        Fed::Row(s) => Fed::Row(s@),
    }
}

/// Turns the chunks that successive line reads return into data rows:
/// it buffers a line until its end arrives, skips the lines above the
/// first data row, and trims each data line.
pub struct LineFeeder {
    current_line: usize,
    data_start_row: usize,
    pending: String,
}

impl View for LineFeeder {
    type V = FeedState;

    closed spec fn view(&self) -> FeedState {
        FeedState {
            line: self.current_line as nat,
            data_start_row: self.data_start_row as nat,
            pending: self.pending@,
        }
    }
}

impl LineFeeder {
    /// An assembler at line 1 with nothing buffered.
    pub fn new(data_start_row: usize) -> (f: Self)
        ensures
            f@ == fresh_feed(data_start_row as nat),
    {
        LineFeeder { current_line: 1, data_start_row, pending: String::new() }
    }

    /// Starts over at line 1 with nothing buffered (the file was reopened).
    pub fn restart(&mut self)
        ensures
            final(self)@ == (FeedState { line: 1, pending: Seq::<char>::empty(), ..old(self)@ }),
    {
        self.current_line = 1;
        self.pending = String::new();
    }

    /// 1-based number of the next line to complete.
    pub fn current_line(&self) -> (n: usize)
        ensures
            n as nat == self@.line,
    {
        self.current_line
    }

    /// Feeds the chunk that one line read returned.
    pub fn feed(&mut self, chunk: &str) -> (r: Fed<String>)
        requires
            ends_line(chunk@) ==> old(self)@.line < usize::MAX,
        ensures
            (final(self)@, fed_view(r)) == feed_step(old(self)@, chunk@),
    {
        let cv = chars_of(chunk);
        let n = cv.len();
        let ends = n > 0 && (cv[n - 1] == '\n' || cv[n - 1] == '\r');
        if !ends {
            crate::text::push_chars(&mut self.pending, &cv);
            return Fed::Incomplete;
        }
        let mut full = String::new();
        std::mem::swap(&mut full, &mut self.pending);
        crate::text::push_chars(&mut full, &cv);
        let before = self.current_line;
        self.current_line = before + 1;
        if before < self.data_start_row {
            return Fed::Header;
        }
        let fc = chars_of(full.as_str());
        let t = trim_chars(&fc);
        if t.len() == 0 {
            Fed::Blank
        } else {
            Fed::Row(string_of(&t))
        }
    }
}

/// Feeding a line in two reads, the first of which does not end the line,
/// gives the same row and state as feeding it in one read.
pub proof fn law_split_line_same_row(st: FeedState, a: Seq<char>, b: Seq<char>)
    requires
        !ends_line(a),
        ends_line(b),
    ensures
        feed_step(feed_step(st, a).0, b) == feed_step(st, a + b),
{
    assert((a + b).last() == b.last());
    assert(st.pending + a + b =~= st.pending + (a + b));
}

/// A chunk that does not end a line only grows the buffer.
pub proof fn law_incomplete_keeps_line(st: FeedState, a: Seq<char>)
    requires
        !ends_line(a),
    ensures
        feed_step(st, a).0.line == st.line,
        feed_step(st, a).0.pending == st.pending + a,
        feed_step(st, a).1 is Incomplete,
{
}

/// A chunk that ends a line advances the line number by exactly one and
/// empties the buffer; lines above the first data row never give a row.
pub proof fn law_complete_line_advances(st: FeedState, b: Seq<char>)
    requires
        ends_line(b),
    ensures
        feed_step(st, b).0.line == st.line + 1,
        feed_step(st, b).0.pending.len() == 0,
        st.line < st.data_start_row ==> feed_step(st, b).1 is Header,
        feed_step(st, b).1 matches Fed::Row(t) ==> t.len() > 0 && t == crate::text::trim(st.pending + b),
{
}

/// The rows one outcome hands on.
pub open spec fn fed_rows(o: Fed<Seq<char>>) -> Seq<Seq<char>> {
    match o {
        Fed::Row(t) => seq![t],
        _ => seq![],
    }
}

/// Feeds a text the way successive line reads return it: one piece per
/// `'\n'`-ended line, and the rest (if any) as a last piece.  Gives the
/// final state and the rows handed on, in order.
pub open spec fn feed_text(st: FeedState, t: Seq<char>) -> (FeedState, Seq<Seq<char>>)
    decreases t.len(),
{
    if t.len() == 0 {
        (st, seq![])
    } else {
        let j = crate::config::newline_from(t, 0);
        if j < t.len() {
            proof {
                crate::config::lemma_newline_from(t, 0);
            }
            let (st1, o) = feed_step(st, t.take(j + 1));
            let (st2, rs) = feed_text(st1, t.skip(j + 1));
            (st2, fed_rows(o) + rs)
        } else {
            (feed_step(st, t).0, fed_rows(feed_step(st, t).1))
        }
    }
}

proof fn lemma_newline_at(s: Seq<char>, i: int, j: int)
    requires
        0 <= i <= j <= s.len(),
        forall|k: int| i <= k < j ==> s[k] != '\n',
        j == s.len() || s[j] == '\n',
    ensures
        crate::config::newline_from(s, i) == j,
    decreases j - i,
{
    if i < j {
        lemma_newline_at(s, i + 1, j);
    }
}

/// Text that grows in two parts gives the same rows and the same state
/// whether it is fed part by part or all at once, provided the first part
/// does not end in a bare `'\r'` (a read at that point would take it as
/// a line ending): a line cut by the split is kept until it is whole and
/// is handed on once.
pub proof fn law_split_feed_same_rows(st: FeedState, a: Seq<char>, b: Seq<char>)
    requires
        !(a.len() > 0 && a.last() == '\r'),
    ensures
        ({
            let (s1, r1) = feed_text(st, a);
            let (s2, r2) = feed_text(s1, b);
            (s2, r1 + r2) == feed_text(st, a + b)
        }),
    decreases a.len(),
{
    let ab = a + b;
    if a.len() == 0 {
        assert(ab =~= b);
        assert(Seq::<Seq<char>>::empty() + feed_text(st, b).1 =~= feed_text(st, b).1);
        return;
    }
    crate::config::lemma_newline_from(a, 0);
    let j = crate::config::newline_from(a, 0);
    if j < a.len() {
        lemma_newline_at(ab, 0, j);
        let a2 = a.skip(j + 1);
        assert(ab.take(j + 1) =~= a.take(j + 1));
        assert(ab.skip(j + 1) =~= a2 + b);
        if a2.len() > 0 {
            assert(a2.last() == a.last());
        }
        let (st1, o) = feed_step(st, a.take(j + 1));
        law_split_feed_same_rows(st1, a2, b);
        let (sa, ra) = feed_text(st1, a2);
        let (s2, r2) = feed_text(sa, b);
        assert(fed_rows(o) + ra + r2 =~= fed_rows(o) + (ra + r2));
    } else {
        assert(!ends_line(a));
        let sa = feed_step(st, a).0;
        assert(feed_text(st, a) == (sa, Seq::<Seq<char>>::empty()));
        assert(sa.pending == st.pending + a);
        if b.len() == 0 {
            assert(ab =~= a);
            assert(Seq::<Seq<char>>::empty() + Seq::<Seq<char>>::empty() =~= Seq::<
                Seq<char>,
            >::empty());
            return;
        }
        crate::config::lemma_newline_from(b, 0);
        let k = crate::config::newline_from(b, 0);
        assert forall|m: int| 0 <= m < a.len() + k implies ab[m] != '\n' by {
            if m < a.len() {
                assert(ab[m] == a[m]);
            } else {
                assert(ab[m] == b[m - a.len()]);
            }
        }
        if k < b.len() {
            assert(ab[a.len() + k] == b[k]);
            lemma_newline_at(ab, 0, a.len() + k);
            let c = b.take(k + 1);
            assert(ab.take(a.len() + k + 1) =~= a + c);
            assert(ab.skip(a.len() + k + 1) =~= b.skip(k + 1));
            assert(c.last() == '\n');
            law_split_line_same_row(st, a, c);
            let r = feed_text(st, ab).1;
            assert(Seq::<Seq<char>>::empty() + feed_text(sa, b).1 =~= feed_text(sa, b).1);
        } else {
            lemma_newline_at(ab, 0, ab.len() as int);
            assert(ab.last() == b.last());
            if ends_line(b) {
                law_split_line_same_row(st, a, b);
            } else {
                assert(st.pending + a + b =~= st.pending + ab);
            }
            assert(Seq::<Seq<char>>::empty() + feed_text(sa, b).1 =~= feed_text(sa, b).1);
        }
    }
}

/// The lines of a text that reads complete, with their endings: each
/// `'\n'`-ended line, and a last piece when it ends in `'\r'`.
pub open spec fn text_lines(t: Seq<char>) -> Seq<Seq<char>>
    decreases t.len(),
{
    if t.len() == 0 {
        seq![]
    } else {
        let j = crate::config::newline_from(t, 0);
        if j < t.len() {
            proof {
                crate::config::lemma_newline_from(t, 0);
            }
            seq![t.take(j + 1)] + text_lines(t.skip(j + 1))
        } else if ends_line(t) {
            seq![t]
        } else {
            seq![]
        }
    }
}

/// The rows of the lines `lines`, the first numbered `n`: a line below
/// the first data row `start` that is not blank gives its trimmed text.
pub open spec fn numbered_rows(lines: Seq<Seq<char>>, n: int, start: int) -> Seq<Seq<char>>
    decreases lines.len(),
{
    if lines.len() == 0 {
        seq![]
    } else {
        let rest = numbered_rows(lines.drop_first(), n + 1, start);
        if n < start || crate::text::trim(lines[0]).len() == 0 {
            rest
        } else {
            seq![crate::text::trim(lines[0])] + rest
        }
    }
}

/// From an assembler with nothing buffered, the rows of a text are its
/// completed lines, numbered on from the assembler's line number, that are
/// at or after the first data row and not blank, each trimmed: the line
/// number and the first data row alone decide which lines are skipped.
pub proof fn law_rows_by_line_number(st: FeedState, t: Seq<char>)
    requires
        st.pending.len() == 0,
    ensures
        feed_text(st, t).1 == numbered_rows(text_lines(t), st.line as int, st.data_start_row as int),
    decreases t.len(),
{
    if t.len() == 0 {
        return;
    }
    crate::config::lemma_newline_from(t, 0);
    let j = crate::config::newline_from(t, 0);
    if j < t.len() {
        let c = t.take(j + 1);
        assert(c.last() == '\n');
        assert(st.pending + c =~= c);
        let st1 = feed_step(st, c).0;
        law_rows_by_line_number(st1, t.skip(j + 1));
        let lines = text_lines(t);
        assert(lines.drop_first() =~= text_lines(t.skip(j + 1)));
        assert(lines[0] == c);
    } else {
        assert(st.pending + t =~= t);
        if ends_line(t) {
            let lines = text_lines(t);
            assert(lines.drop_first() =~= Seq::<Seq<char>>::empty());
            assert(numbered_rows(Seq::<Seq<char>>::empty(), st.line + 1int, st.data_start_row as int)
                =~= Seq::<Seq<char>>::empty());
            assert(fed_rows(feed_step(st, t).1) =~= numbered_rows(lines, st.line as int, st.data_start_row as int));
        }
    }
}

/// Feeds the chunks of successive line reads one after another; gives the
/// final state and the rows handed on, in order.
pub open spec fn feed_chunks(st: FeedState, chunks: Seq<Seq<char>>) -> (FeedState, Seq<Seq<char>>)
    decreases chunks.len(),
{
    if chunks.len() == 0 {
        (st, seq![])
    } else {
        let (st1, o) = feed_step(st, chunks[0]);
        let (st2, rs) = feed_chunks(st1, chunks.drop_first());
        (st2, fed_rows(o) + rs)
    }
}

/// A column number 0 reads the same column as 1.
pub proof fn law_column_zero_reads_as_one()
    ensures
        column_index(0) == column_index(1),
{
}

/// Two layouts built from the same arguments read every line alike.  The
/// layout takes no header-row number, so that number cannot change how a
/// row is read.
pub proof fn law_same_layout_same_cells(p1: RowParser, p2: RowParser, line: Seq<char>)
    requires
        p1.same_layout(&p2),
    ensures
        p1.spec_fields(line) == p2.spec_fields(line),
        p1.spec_row(line) == p2.spec_row(line),
{
    assert(p1.y_cols@.len() == p2.y_cols@.len());
    if p1.x_col < p1.spec_fields(line).len() {
        let f = p1.spec_fields(line);
        assert(Seq::new(
            p1.y_cols@.len(),
            |j: int| y_cell(f, p1.y_cols@[j] as int, p1.string_quote),
        ) =~= Seq::new(
            p2.y_cols@.len(),
            |j: int| y_cell(f, p2.y_cols@[j] as int, p2.string_quote),
        ));
    }
}

/// The cells that a layout reads from each row.
pub open spec fn rows_cells(p: RowParser, rows: Seq<Seq<char>>) -> Seq<
    Option<(Seq<char>, Seq<Option<Seq<char>>>)>,
> {
    rows.map_values(|r: Seq<char>| p.spec_row(r))
}

/// Two watchers built from the same arguments (the same first data row for
/// the assembler, the same layout for the parser) read the same cells from
/// the same sequence of chunks.  Neither the assembler nor the layout takes
/// a header-row number, so it has no effect on what is read.
pub proof fn law_same_arguments_same_cells(
    d: nat,
    p1: RowParser,
    p2: RowParser,
    chunks: Seq<Seq<char>>,
)
    requires
        p1.same_layout(&p2),
    ensures
        rows_cells(p1, feed_chunks(fresh_feed(d), chunks).1) == rows_cells(
            p2,
            feed_chunks(fresh_feed(d), chunks).1,
        ),
{
    let rows = feed_chunks(fresh_feed(d), chunks).1;
    assert forall|k: int| 0 <= k < rows.len() implies rows_cells(p1, rows)[k] == rows_cells(
        p2,
        rows,
    )[k] by {
        law_same_layout_same_cells(p1, p2, rows[k]);
    }
    assert(rows_cells(p1, rows) =~= rows_cells(p2, rows));
}

/// Assemblers in the same state stay in the same state and hand on the
/// same rows whatever chunks they are fed.
pub proof fn law_same_state_same_rows(a: FeedState, b: FeedState, chunks: Seq<Seq<char>>)
    requires
        a == b,
    ensures
        feed_chunks(a, chunks) == feed_chunks(b, chunks),
{
}

} // verus!

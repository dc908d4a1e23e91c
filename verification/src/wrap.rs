//! Wrapping of highlighted source lines to the width of the source panel.
//!
//! A highlighted line is a sequence of styled pieces of text; the style is
//! carried as a tag that the terminal layer maps back to its colours.  A
//! line wider than the code area is cut greedily into visual rows: pieces
//! are placed whole while they fit, split at a character count otherwise,
//! and a full row is closed before the next piece is placed.
use vstd::prelude::*;
use crate::text::{chars_of, decimal, push_decimal, push_seq, push_str, slice_vec, string_of};

verus! {

/// Width of the line-number gutter (`"   1 │ "`).
pub const LINE_NUM_WIDTH: usize = 7;

/// A styled piece of a row: its style tag and its text.
pub open spec fn piece_view(p: (usize, String)) -> (usize, Seq<char>) {
    (p.0, p.1@)
}

/// The pieces of a row as plain values.
pub open spec fn row_view(row: Seq<(usize, String)>) -> Seq<(usize, Seq<char>)> {
    row.map_values(|p: (usize, String)| piece_view(p))
}

/// The rows as plain values.
pub open spec fn rows_view(rows: Seq<Vec<(usize, String)>>) -> Seq<Seq<(usize, Seq<char>)>> {
    rows.map_values(|r: Vec<(usize, String)>| row_view(r@))
}

/// The gutter of source line `n`: the number right-aligned in four
/// columns, then ` │ `.
pub open spec fn gutter_text(n: nat) -> Seq<char> {
    let d = decimal(n);
    Seq::new(if d.len() < 4 { (4 - d.len()) as nat } else { 0 }, |_i: int| ' ') + d + " │ "@
}

/// The gutter of source line `n`.
pub fn gutter(n: u64) -> (r: String)
    ensures
        r@ == gutter_text(n as nat),
{
    let mut digits: Vec<char> = Vec::new();
    push_decimal(&mut digits, n as u128);
    assert(digits@ =~= decimal(n as nat));
    let mut out: Vec<char> = Vec::new();
    let pad: usize = if digits.len() < 4 { 4 - digits.len() } else { 0 };
    let mut i: usize = 0;
    while i < pad
        invariant
            0 <= i <= pad,
            out@ =~= Seq::new(i as nat, |_i: int| ' '),
        decreases pad - i,
    {
        out.push(' ');
        i = i + 1;
    }
    push_seq(&mut out, digits.as_slice());
    push_str(&mut out, " │ ");
    string_of(out.as_slice())
}

/// The gutter of a continuation row of a wrapped line: blanks where the
/// number would stand, then the separator ` │ `.
pub open spec fn continuation_gutter_text() -> Seq<char> {
    "     │ "@
}

/// The gutter of a continuation row, as wide as a numbered gutter.
pub fn continuation_gutter() -> (r: String)
    ensures
        r@ == continuation_gutter_text(),
        r@.len() == LINE_NUM_WIDTH,
{
    proof { reveal_strlit("     │ "); }
    string_of(chars_of("     │ ").as_slice())
}

/// A number below ten thousand has at most four decimal digits.
proof fn lemma_short_decimal(n: nat)
    requires
        n < 10000,
    ensures
        1 <= decimal(n).len() <= 4,
{
    reveal_with_fuel(decimal, 5);
}

/// In a file of fewer than ten thousand lines every numbered gutter is
/// exactly as wide as the gutter that wrapping leaves room for.
pub proof fn law_gutter_is_line_num_width(n: nat)
    requires
        n < 10000,
    ensures
        gutter_text(n).len() == LINE_NUM_WIDTH,
{
    lemma_short_decimal(n);
    reveal_strlit(" │ ");
}

/// A text with every tab replaced by four spaces, so that each character
/// takes one terminal column.
pub open spec fn expand_tabs(s: Seq<char>) -> Seq<char>
    decreases s.len(),
{
    if s.len() == 0 {
        Seq::empty()
    } else {
        expand_tabs(s.drop_last()) + (if s.last() == '\t' { seq![' ', ' ', ' ', ' '] } else { seq![s.last()] })
    }
}

/// Replace every tab of a text by four spaces.
pub fn expand_tabs_str(s: &str) -> (r: String)
    ensures
        r@ == expand_tabs(s@),
{
    let v = chars_of(s);
    let mut out: Vec<char> = Vec::new();
    let mut i: usize = 0;
    while i < v.len()
        invariant
            0 <= i <= v@.len(),
            v@ == s@,
            out@ == expand_tabs(v@.take(i as int)),
        decreases v@.len() - i,
    {
        assert(v@.take(i as int + 1).drop_last() =~= v@.take(i as int));
        if v[i] == '\t' {
            out.push(' ');
            out.push(' ');
            out.push(' ');
            out.push(' ');
            assert(out@ =~= expand_tabs(v@.take(i as int)) + seq![' ', ' ', ' ', ' ']);
        } else {
            out.push(v[i]);
            assert(out@ =~= expand_tabs(v@.take(i as int)) + seq![v@[i as int]]);
        }
        i = i + 1;
    }
    assert(v@.take(v@.len() as int) =~= v@);
    string_of(out.as_slice())
}

/// The number of bytes `c` takes in UTF-8.
pub open spec fn utf8_len(c: char) -> nat {
    let u = c as u32;
    if u < 0x80 { 1 } else if u < 0x800 { 2 } else if u < 0x10000 { 3 } else { 4 }
}

/// The number of bytes a text takes in UTF-8.
pub open spec fn byte_len(s: Seq<char>) -> nat
    decreases s.len(),
{
    if s.len() == 0 { 0 } else { byte_len(s.drop_last()) + utf8_len(s.last()) }
}

/// The number of bytes of all pieces of a line.
pub open spec fn line_bytes(pieces: Seq<(usize, Seq<char>)>) -> nat
    decreases pieces.len(),
{
    if pieces.len() == 0 { 0 } else { line_bytes(pieces.drop_last()) + byte_len(pieces.last().1) }
}

/// Columns left for code once the gutter is drawn.
pub open spec fn spec_code_width(total_width: u16) -> int {
    if total_width >= LINE_NUM_WIDTH { total_width - LINE_NUM_WIDTH } else { 0 }
}

/// The wrapping state after placing `text` with `style`, starting from the
/// finished `rows`, the row `cur` being filled and its `width` in bytes:
/// a full row is closed first; a text that fits goes whole onto the row;
/// otherwise as many characters as there are columns left go onto the row,
/// the row is closed, and the rest is placed on the next rows.
pub open spec fn place(
    rows: Seq<Seq<(usize, Seq<char>)>>,
    cur: Seq<(usize, Seq<char>)>,
    width: int,
    style: usize,
    text: Seq<char>,
    code_width: int,
) -> (Seq<Seq<(usize, Seq<char>)>>, Seq<(usize, Seq<char>)>, int)
    decreases text.len(), (if width >= code_width { 1int } else { 0int }),
{
    if text.len() == 0 || code_width <= 0 {
        (rows, cur, width)
    } else if width >= code_width {
        place(rows.push(cur), Seq::empty(), 0, style, text, code_width)
    } else if byte_len(text) <= code_width - width {
        (rows, cur.push((style, text)), width + byte_len(text))
    } else {
        let k = if code_width - width < text.len() { code_width - width } else { text.len() as int };
        place(rows.push(cur.push((style, text.take(k)))), Seq::empty(), 0, style, text.skip(k), code_width)
    }
}

/// The wrapping state after placing the pieces of a line in order.
pub open spec fn place_all(pieces: Seq<(usize, Seq<char>)>, code_width: int)
    -> (Seq<Seq<(usize, Seq<char>)>>, Seq<(usize, Seq<char>)>, int)
    decreases pieces.len(),
{
    if pieces.len() == 0 {
        (Seq::empty(), Seq::empty(), 0)
    } else {
        let (rows, cur, width) = place_all(pieces.drop_last(), code_width);
        place(rows, cur, width, pieces.last().0, pieces.last().1, code_width)
    }
}

/// The visual rows of a line: the line itself when there is no room for
/// code or when it fits; otherwise the rows of the greedy placement, with
/// the last row kept when it holds anything.
pub open spec fn wrap_rows(pieces: Seq<(usize, Seq<char>)>, code_width: int) -> Seq<Seq<(usize, Seq<char>)>> {
    if code_width <= 0 || line_bytes(pieces) <= code_width {
        seq![pieces]
    } else {
        let (rows, cur, _w) = place_all(pieces, code_width);
        if cur.len() > 0 { rows.push(cur) } else { rows }
    }
}

/// Columns left for code once the gutter is drawn.
pub fn code_width(total_width: u16) -> (r: usize)
    ensures
        r == spec_code_width(total_width),
{
    let t = total_width as usize;
    if t >= LINE_NUM_WIDTH { t - LINE_NUM_WIDTH } else { 0 }
}

/// The number of bytes `c` takes in UTF-8.
fn char_bytes(c: char) -> (r: usize)
    ensures
        r == utf8_len(c),
{
    let u = c as u32;
    if u < 0x80 { 1 } else if u < 0x800 { 2 } else if u < 0x10000 { 3 } else { 4 }
}

proof fn lemma_byte_len_prefix(s: Seq<char>, i: int)
    requires
        0 <= i < s.len(),
    ensures
        byte_len(s.take(i + 1)) == byte_len(s.take(i)) + utf8_len(s[i]),
{
    assert(s.take(i + 1).drop_last() =~= s.take(i));
}

proof fn lemma_byte_len_monotone(s: Seq<char>, i: int, j: int)
    requires
        0 <= i <= j <= s.len(),
    ensures
        byte_len(s.take(i)) <= byte_len(s.take(j)),
    decreases j - i,
{
    if i < j {
        lemma_byte_len_prefix(s, j - 1);
        lemma_byte_len_monotone(s, i, j - 1);
    }
}

/// The number of bytes of a text, when it is at most `limit`.
fn bytes_within(text: &[char], limit: usize) -> (r: Option<usize>)
    ensures
        match r {
            Some(n) => n == byte_len(text@) && n <= limit,
            None => byte_len(text@) > limit,
        },
{
    let mut sum: usize = 0;
    let mut i: usize = 0;
    while i < text.len()
        invariant
            0 <= i <= text@.len(),
            sum == byte_len(text@.take(i as int)),
            sum <= limit,
        decreases text@.len() - i,
    {
        proof { lemma_byte_len_prefix(text@, i as int); }
        let b = char_bytes(text[i]);
        if b > limit - sum {
            proof {
                lemma_byte_len_monotone(text@, i as int + 1, text@.len() as int);
                assert(text@.take(text@.len() as int) =~= text@);
            }
            return None;
        }
        sum = sum + b;
        i = i + 1;
    }
    assert(text@.take(text@.len() as int) =~= text@);
    Some(sum)
}

proof fn lemma_line_bytes_prefix(p: Seq<(usize, Seq<char>)>, i: int)
    requires
        0 <= i < p.len(),
    ensures
        line_bytes(p.take(i + 1)) == line_bytes(p.take(i)) + byte_len(p[i].1),
{
    assert(p.take(i + 1).drop_last() =~= p.take(i));
}

proof fn lemma_line_bytes_monotone(p: Seq<(usize, Seq<char>)>, i: int, j: int)
    requires
        0 <= i <= j <= p.len(),
    ensures
        line_bytes(p.take(i)) <= line_bytes(p.take(j)),
    decreases j - i,
{
    if i < j {
        lemma_line_bytes_prefix(p, j - 1);
        lemma_line_bytes_monotone(p, i, j - 1);
    }
}

/// Whether the pieces of a line take at most `limit` bytes.
fn line_fits(pieces: &Vec<(usize, String)>, limit: usize) -> (r: bool)
    ensures
        r == (line_bytes(row_view(pieces@)) <= limit),
{
    let ghost p = row_view(pieces@);
    let mut used: usize = 0;
    let mut i: usize = 0;
    while i < pieces.len()
        invariant
            0 <= i <= pieces@.len(),
            p == row_view(pieces@),
            used == line_bytes(p.take(i as int)),
            used <= limit,
        decreases pieces@.len() - i,
    {
        proof { lemma_line_bytes_prefix(p, i as int); }
        let text = chars_of(pieces[i].1.as_str());
        match bytes_within(text.as_slice(), limit - used) {
            Some(n) => {
                used = used + n;
            },
            None => {
                proof {
                    lemma_line_bytes_monotone(p, i as int + 1, p.len() as int);
                    assert(p.take(p.len() as int) =~= p);
                }
                return false;
            },
        }
        i = i + 1;
    }
    assert(p.take(p.len() as int) =~= p);
    true
}

/// A copy of a row.
fn copy_row(pieces: &Vec<(usize, String)>) -> (r: Vec<(usize, String)>)
    ensures
        row_view(r@) == row_view(pieces@),
{
    let mut out: Vec<(usize, String)> = Vec::new();
    let mut i: usize = 0;
    while i < pieces.len()
        invariant
            0 <= i <= pieces@.len(),
            row_view(out@) == row_view(pieces@).take(i as int),
        decreases pieces@.len() - i,
    {
        let text = string_of(chars_of(pieces[i].1.as_str()).as_slice());
        let piece = (pieces[i].0, text);
        assert(piece_view(piece) == piece_view(pieces@[i as int]));
        proof { lemma_row_push(out@, piece); }
        out.push(piece);
        assert(row_view(pieces@).take(i as int + 1) =~= row_view(pieces@).take(i as int).push(piece_view(pieces@[i as int])));
        i = i + 1;
    }
    assert(row_view(pieces@).take(pieces@.len() as int) =~= row_view(pieces@));
    out
}

proof fn lemma_rows_push(rows: Seq<Vec<(usize, String)>>, row: Vec<(usize, String)>)
    ensures
        rows_view(rows.push(row)) == rows_view(rows).push(row_view(row@)),
{
    assert(rows_view(rows.push(row)) =~= rows_view(rows).push(row_view(row@)));
}

proof fn lemma_row_push(row: Seq<(usize, String)>, p: (usize, String))
    ensures
        row_view(row.push(p)) == row_view(row).push(piece_view(p)),
{
    assert(row_view(row.push(p)) =~= row_view(row).push(piece_view(p)));
}

/// The visual rows of a highlighted line for a panel `total_width` columns
/// wide: pieces of text with their style tags, in order.
pub fn wrap_line(pieces: &Vec<(usize, String)>, total_width: u16) -> (r: Vec<Vec<(usize, String)>>)
    ensures
        rows_view(r@) == wrap_rows(row_view(pieces@), spec_code_width(total_width)),
{
    let ghost p = row_view(pieces@);
    let cw = code_width(total_width);
    if cw == 0 || line_fits(pieces, cw) {
        let mut one: Vec<Vec<(usize, String)>> = Vec::new();
        one.push(copy_row(pieces));
        assert(rows_view(one@) =~= seq![p]);
        return one;
    }
    let mut rows: Vec<Vec<(usize, String)>> = Vec::new();
    let mut cur: Vec<(usize, String)> = Vec::new();
    let mut width: usize = 0;
    let mut i: usize = 0;
    assert(rows_view(rows@) =~= Seq::<Seq<(usize, Seq<char>)>>::empty());
    assert(row_view(cur@) =~= Seq::<(usize, Seq<char>)>::empty());
    assert(p.take(0) =~= Seq::<(usize, Seq<char>)>::empty());
    while i < pieces.len()
        invariant
            0 <= i <= pieces@.len(),
            p == row_view(pieces@),
            cw > 0,
            width <= cw,
            (rows_view(rows@), row_view(cur@), width as int) == place_all(p.take(i as int), cw as int),
        decreases pieces@.len() - i,
    {
        let style = pieces[i].0;
        let mut rest = chars_of(pieces[i].1.as_str());
        assert(p.take(i as int + 1).drop_last() =~= p.take(i as int));
        let ghost target = place_all(p.take(i as int + 1), cw as int);
        assert(place(rows_view(rows@), row_view(cur@), width as int, style, rest@, cw as int) == target);
        while rest.len() > 0
            invariant
                cw > 0,
                width <= cw,
                place(rows_view(rows@), row_view(cur@), width as int, style, rest@, cw as int) == target,
            decreases rest@.len(), (if width >= cw { 1int } else { 0int }),
        {
            if width >= cw {
                proof { lemma_rows_push(rows@, cur); }
                rows.push(cur);
                cur = Vec::new();
                width = 0;
                assert(row_view(cur@) =~= Seq::<(usize, Seq<char>)>::empty());
                continue;
            }
            let available = cw - width;
            match bytes_within(rest.as_slice(), available) {
                Some(n) => {
                    let text = string_of(rest.as_slice());
                    proof { lemma_row_push(cur@, (style, text)); }
                    cur.push((style, text));
                    width = width + n;
                    rest = Vec::new();
                    assert(rest@ =~= Seq::<char>::empty());
                },
                None => {
                    let k = if available < rest.len() { available } else { rest.len() };
                    let head = string_of(slice_vec(rest.as_slice(), 0, k).as_slice());
                    assert(rest@.subrange(0, k as int) =~= rest@.take(k as int));
                    proof { lemma_row_push(cur@, (style, head)); }
                    cur.push((style, head));
                    proof { lemma_rows_push(rows@, cur); }
                    rows.push(cur);
                    cur = Vec::new();
                    width = 0;
                    assert(row_view(cur@) =~= Seq::<(usize, Seq<char>)>::empty());
                    let tail = slice_vec(rest.as_slice(), k, rest.len());
                    assert(tail@ =~= rest@.skip(k as int));
                    rest = tail;
                },
            }
        }
        i = i + 1;
    }
    assert(p.take(p.len() as int) =~= p);
    if cur.len() > 0 {
        proof { lemma_rows_push(rows@, cur); }
        rows.push(cur);
    }
    rows
}

/// The characters of a piece, each with the piece's style tag.
pub open spec fn tagged(piece: (usize, Seq<char>)) -> Seq<(usize, char)> {
    piece.1.map_values(|c: char| (piece.0, c))
}

/// The styled characters of a row, in order.
pub open spec fn row_chars(row: Seq<(usize, Seq<char>)>) -> Seq<(usize, char)>
    decreases row.len(),
{
    if row.len() == 0 { Seq::empty() } else { row_chars(row.drop_last()) + tagged(row.last()) }
}

/// The styled characters of rows, in order.
pub open spec fn rows_chars(rows: Seq<Seq<(usize, Seq<char>)>>) -> Seq<(usize, char)>
    decreases rows.len(),
{
    if rows.len() == 0 { Seq::empty() } else { rows_chars(rows.drop_last()) + row_chars(rows.last()) }
}

proof fn lemma_row_chars_push(row: Seq<(usize, Seq<char>)>, p: (usize, Seq<char>))
    ensures
        row_chars(row.push(p)) == row_chars(row) + tagged(p),
{
    assert(row.push(p).drop_last() =~= row);
}

proof fn lemma_rows_chars_push(rows: Seq<Seq<(usize, Seq<char>)>>, row: Seq<(usize, Seq<char>)>)
    ensures
        rows_chars(rows.push(row)) == rows_chars(rows) + row_chars(row),
{
    assert(rows.push(row).drop_last() =~= rows);
}

proof fn lemma_place_keeps_chars(
    rows: Seq<Seq<(usize, Seq<char>)>>,
    cur: Seq<(usize, Seq<char>)>,
    width: int,
    style: usize,
    text: Seq<char>,
    code_width: int,
)
    requires
        code_width > 0,
    ensures
        ({
            let (r, c, _w) = place(rows, cur, width, style, text, code_width);
            rows_chars(r) + row_chars(c) == rows_chars(rows) + row_chars(cur) + tagged((style, text))
        }),
    decreases text.len(), (if width >= code_width { 1int } else { 0int }),
{
    let empty_row = Seq::<(usize, Seq<char>)>::empty();
    if text.len() == 0 {
        assert(tagged((style, text)) =~= Seq::<(usize, char)>::empty());
        assert(rows_chars(rows) + row_chars(cur) + tagged((style, text)) =~= rows_chars(rows) + row_chars(cur));
    } else if width >= code_width {
        lemma_place_keeps_chars(rows.push(cur), empty_row, 0, style, text, code_width);
        lemma_rows_chars_push(rows, cur);
        assert(row_chars(empty_row) =~= Seq::<(usize, char)>::empty());
        assert(rows_chars(rows.push(cur)) + row_chars(empty_row) + tagged((style, text))
            =~= rows_chars(rows) + row_chars(cur) + tagged((style, text)));
    } else if byte_len(text) <= code_width - width {
        lemma_row_chars_push(cur, (style, text));
        assert(rows_chars(rows) + (row_chars(cur) + tagged((style, text)))
            =~= rows_chars(rows) + row_chars(cur) + tagged((style, text)));
    } else {
        let k = if code_width - width < text.len() { code_width - width } else { text.len() as int };
        let head = cur.push((style, text.take(k)));
        lemma_place_keeps_chars(rows.push(head), empty_row, 0, style, text.skip(k), code_width);
        lemma_rows_chars_push(rows, head);
        lemma_row_chars_push(cur, (style, text.take(k)));
        assert(row_chars(empty_row) =~= Seq::<(usize, char)>::empty());
        assert(tagged((style, text.take(k))) + tagged((style, text.skip(k))) =~= tagged((style, text)));
        assert(rows_chars(rows.push(head)) + row_chars(empty_row) + tagged((style, text.skip(k)))
            =~= rows_chars(rows) + row_chars(cur) + tagged((style, text)));
    }
}

proof fn lemma_place_all_keeps_chars(pieces: Seq<(usize, Seq<char>)>, code_width: int)
    requires
        code_width > 0,
    ensures
        ({
            let (r, c, _w) = place_all(pieces, code_width);
            rows_chars(r) + row_chars(c) == row_chars(pieces)
        }),
    decreases pieces.len(),
{
    if pieces.len() == 0 {
        let e = Seq::<Seq<(usize, Seq<char>)>>::empty();
        assert(rows_chars(e) + row_chars(Seq::<(usize, Seq<char>)>::empty()) =~= Seq::<(usize, char)>::empty());
    } else {
        lemma_place_all_keeps_chars(pieces.drop_last(), code_width);
        let (rows, cur, width) = place_all(pieces.drop_last(), code_width);
        lemma_place_keeps_chars(rows, cur, width, pieces.last().0, pieces.last().1, code_width);
        assert(pieces.last() == (pieces.last().0, pieces.last().1));
    }
}

/// Wrapping loses and reorders nothing: the rows hold the characters of
/// the line, each with the style it had, in the same order.
pub proof fn law_wrap_keeps_every_character(pieces: Seq<(usize, Seq<char>)>, code_width: int)
    ensures
        rows_chars(wrap_rows(pieces, code_width)) == row_chars(pieces),
{
    if code_width <= 0 || line_bytes(pieces) <= code_width {
        let e = Seq::<Seq<(usize, Seq<char>)>>::empty();
        assert(seq![pieces].drop_last() =~= e);
        assert(seq![pieces].last() == pieces);
        assert(rows_chars(seq![pieces]) == rows_chars(e) + row_chars(pieces));
        assert(rows_chars(e) + row_chars(pieces) =~= row_chars(pieces));
    } else {
        lemma_place_all_keeps_chars(pieces, code_width);
        let (rows, cur, _w) = place_all(pieces, code_width);
        if cur.len() > 0 {
            lemma_rows_chars_push(rows, cur);
        } else {
            assert(cur =~= Seq::<(usize, Seq<char>)>::empty());
            assert(rows_chars(rows) + row_chars(cur) =~= rows_chars(rows));
        }
    }
}

/// Every row of `rows` holds at most `limit` characters.
pub open spec fn rows_fit(rows: Seq<Seq<(usize, Seq<char>)>>, limit: int) -> bool {
    forall|i: int| 0 <= i < rows.len() ==> #[trigger] row_chars(rows[i]).len() <= limit
}

proof fn lemma_byte_len_at_least_len(s: Seq<char>)
    ensures
        s.len() <= byte_len(s),
    decreases s.len(),
{
    if s.len() > 0 {
        lemma_byte_len_at_least_len(s.drop_last());
    }
}

proof fn lemma_row_chars_within_bytes(row: Seq<(usize, Seq<char>)>)
    ensures
        row_chars(row).len() <= line_bytes(row),
    decreases row.len(),
{
    if row.len() > 0 {
        lemma_row_chars_within_bytes(row.drop_last());
        lemma_byte_len_at_least_len(row.last().1);
    }
}

proof fn lemma_place_fits(
    rows: Seq<Seq<(usize, Seq<char>)>>,
    cur: Seq<(usize, Seq<char>)>,
    width: int,
    style: usize,
    text: Seq<char>,
    code_width: int,
)
    requires
        code_width > 0,
        0 <= width <= code_width,
        row_chars(cur).len() <= width,
        rows_fit(rows, code_width),
    ensures
        ({
            let (r, c, w) = place(rows, cur, width, style, text, code_width);
            &&& 0 <= w <= code_width
            &&& row_chars(c).len() <= w
            &&& rows_fit(r, code_width)
        }),
    decreases text.len(), (if width >= code_width { 1int } else { 0int }),
{
    let empty_row = Seq::<(usize, Seq<char>)>::empty();
    if text.len() == 0 {
    } else if width >= code_width {
        assert(rows_fit(rows.push(cur), code_width)) by {
            assert forall|i: int| 0 <= i < rows.push(cur).len() implies #[trigger] row_chars(rows.push(cur)[i]).len() <= code_width by {
                if i < rows.len() {
                    assert(rows.push(cur)[i] == rows[i]);
                }
            }
        }
        assert(row_chars(empty_row) =~= Seq::<(usize, char)>::empty());
        lemma_place_fits(rows.push(cur), empty_row, 0, style, text, code_width);
    } else if byte_len(text) <= code_width - width {
        lemma_row_chars_push(cur, (style, text));
        lemma_byte_len_at_least_len(text);
    } else {
        let k = if code_width - width < text.len() { code_width - width } else { text.len() as int };
        let head = cur.push((style, text.take(k)));
        lemma_row_chars_push(cur, (style, text.take(k)));
        assert(row_chars(head).len() <= code_width);
        assert(rows_fit(rows.push(head), code_width)) by {
            assert forall|i: int| 0 <= i < rows.push(head).len() implies #[trigger] row_chars(rows.push(head)[i]).len() <= code_width by {
                if i < rows.len() {
                    assert(rows.push(head)[i] == rows[i]);
                }
            }
        }
        assert(row_chars(empty_row) =~= Seq::<(usize, char)>::empty());
        lemma_place_fits(rows.push(head), empty_row, 0, style, text.skip(k), code_width);
    }
}

proof fn lemma_place_all_fits(pieces: Seq<(usize, Seq<char>)>, code_width: int)
    requires
        code_width > 0,
    ensures
        ({
            let (r, c, w) = place_all(pieces, code_width);
            &&& 0 <= w <= code_width
            &&& row_chars(c).len() <= w
            &&& rows_fit(r, code_width)
        }),
    decreases pieces.len(),
{
    if pieces.len() > 0 {
        lemma_place_all_fits(pieces.drop_last(), code_width);
        let (rows, cur, width) = place_all(pieces.drop_last(), code_width);
        lemma_place_fits(rows, cur, width, pieces.last().0, pieces.last().1, code_width);
    }
}

/// When there is room for code, no visual row holds more characters than
/// the code area has columns.
pub proof fn law_wrapped_rows_fit(pieces: Seq<(usize, Seq<char>)>, code_width: int)
    requires
        code_width > 0,
    ensures
        rows_fit(wrap_rows(pieces, code_width), code_width),
{
    if line_bytes(pieces) <= code_width {
        lemma_row_chars_within_bytes(pieces);
        assert(seq![pieces][0] == pieces);
    } else {
        lemma_place_all_fits(pieces, code_width);
        let (rows, cur, _w) = place_all(pieces, code_width);
        if cur.len() > 0 {
            assert forall|i: int| 0 <= i < rows.push(cur).len() implies #[trigger] row_chars(rows.push(cur)[i]).len() <= code_width by {
                if i < rows.len() {
                    assert(rows.push(cur)[i] == rows[i]);
                }
            }
        }
    }
}

} // verus!

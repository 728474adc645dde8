//! Reading the wire protocol: the engine-side frame parsed line by line into
//! the board-and-piece model. Header lines are prefix-sensitive; a malformed
//! line parses to `None`, never to a crash.

use vstd::prelude::*;
use crate::game::anfield::Anfield;
use crate::game::piece::Piece;
use crate::rules::{Cell, cell_from_char, grid_wf};

verus! {

/// Token separators: the blank characters these formats use.
pub open spec fn is_space(c: char) -> bool {
    c == ' ' || c == '\t' || c == '\n' || c == '\r'
}

/// The value of a decimal digit character, or `-1`.
pub open spec fn digit_val(c: char) -> int {
    if c == '0' {
        0
    } else if c == '1' {
        1
    } else if c == '2' {
        2
    } else if c == '3' {
        3
    } else if c == '4' {
        4
    } else if c == '5' {
        5
    } else if c == '6' {
        6
    } else if c == '7' {
        7
    } else if c == '8' {
        8
    } else if c == '9' {
        9
    } else {
        -1
    }
}

pub open spec fn is_digit(c: char) -> bool {
    digit_val(c) >= 0
}

/// The first non-blank position at or after `i`.
pub open spec fn skip_spaces(s: Seq<char>, i: int) -> int
    decreases s.len() - i,
{
    if 0 <= i < s.len() && is_space(s[i]) {
        skip_spaces(s, i + 1)
    } else {
        i
    }
}

/// The end of the token starting at `i`: the first blank position after it.
pub open spec fn token_end(s: Seq<char>, i: int) -> int
    decreases s.len() - i,
{
    if 0 <= i < s.len() && !is_space(s[i]) {
        token_end(s, i + 1)
    } else {
        i
    }
}

/// The end of `[start, e)` after dropping every trailing colon.
pub open spec fn strip_colons(s: Seq<char>, start: int, e: int) -> int
    decreases e - start,
{
    if start < e <= s.len() && s[e - 1] == ':' {
        strip_colons(s, start, e - 1)
    } else {
        e
    }
}

/// The value of an all-digit string, most significant digit first.
pub open spec fn digits_val(s: Seq<char>) -> int
    decreases s.len(),
{
    if s.len() == 0 {
        0
    } else {
        digits_val(s.drop_last()) * 10 + digit_val(s.last())
    }
}

pub open spec fn all_digits(s: Seq<char>) -> bool {
    forall|i: int| 0 <= i < s.len() ==> is_digit(#[trigger] s[i])
}

/// What an unsigned decimal token parses to: an optional leading plus sign,
/// then at least one digit, with a value that fits the machine word.
pub open spec fn spec_parse_usize(s: Seq<char>) -> Option<usize> {
    let ds = if s.len() > 0 && s[0] == '+' {
        s.subrange(1, s.len() as int)
    } else {
        s
    };
    if ds.len() > 0 && all_digits(ds) && digits_val(ds) <= usize::MAX {
        Some(digits_val(ds) as usize)
    } else {
        None
    }
}

proof fn lemma_digits_val_nonneg(s: Seq<char>)
    requires
        all_digits(s),
    ensures
        digits_val(s) >= 0,
    decreases s.len(),
{
    if s.len() > 0 {
        assert(forall|i: int| 0 <= i < s.len() - 1 ==> #[trigger] s.drop_last()[i] == s[i]);
        lemma_digits_val_nonneg(s.drop_last());
    }
}

/// With every digit in place, a longer prefix never has a smaller value.
proof fn lemma_digits_val_prefix_monotone(s: Seq<char>, i: int)
    requires
        all_digits(s),
        0 <= i <= s.len(),
    ensures
        digits_val(s.subrange(0, i)) <= digits_val(s),
    decreases s.len() - i,
{
    assert(forall|k: int| 0 <= k < s.len() ==> is_digit(#[trigger] s.subrange(0, s.len() as int)[k]));
    if i == s.len() {
        assert(s.subrange(0, i) =~= s);
    } else {
        lemma_digits_val_prefix_monotone(s, i + 1);
        let a = s.subrange(0, i);
        let b = s.subrange(0, i + 1);
        assert(b.drop_last() =~= a);
        assert(forall|k: int| 0 <= k < a.len() ==> #[trigger] a[k] == s[k]);
        lemma_digits_val_nonneg(a);
        assert(digits_val(b) == digits_val(a) * 10 + digit_val(s[i]));
        assert(digits_val(a) * 10 >= digits_val(a)) by (nonlinear_arith)
            requires
                digits_val(a) >= 0,
        ;
    }
}

/// The decimal writer and this reader agree: what `dec_digits` renders is all
/// digits and reads back to the same value.
pub proof fn lemma_dec_digits_value(n: int)
    requires
        0 <= n,
    ensures
        all_digits(crate::text::dec_digits(n)),
        digits_val(crate::text::dec_digits(n)) == n,
        crate::text::dec_digits(n).len() >= 1,
    decreases n,
{
    let ds = crate::text::dec_digits(n);
    if n < 10 {
        assert(ds =~= seq![crate::text::digit_char(n)]);
        assert(ds.drop_last().len() == 0);
        assert(digits_val(ds.drop_last()) == 0);
        assert(digit_val(crate::text::digit_char(n)) == n);
    } else {
        lemma_dec_digits_value(n / 10);
        let pre = crate::text::dec_digits(n / 10);
        assert(ds == pre.push(crate::text::digit_char(n % 10)));
        assert(ds.drop_last() =~= pre);
        assert(digit_val(crate::text::digit_char(n % 10)) == n % 10);
        assert(forall|i: int|
            0 <= i < ds.len() ==> #[trigger] ds[i] == (if i < pre.len() {
                pre[i]
            } else {
                crate::text::digit_char(n % 10)
            }));
        assert(digits_val(ds) == digits_val(pre) * 10 + digit_val(ds.last()));
        vstd::arithmetic::div_mod::lemma_fundamental_div_mod(n, 10);
    }
}

/// Scanning from inside a run of blanks that ends at `j` stops at `j`.
pub proof fn lemma_skip_spaces_scan(s: Seq<char>, i: int, j: int)
    requires
        0 <= i <= j <= s.len(),
        forall|k: int| i <= k < j ==> is_space(#[trigger] s[k]),
        j == s.len() || !is_space(s[j]),
    ensures
        skip_spaces(s, i) == j,
    decreases j - i,
{
    if i < j {
        lemma_skip_spaces_scan(s, i + 1, j);
    }
}

/// Scanning from inside a token that ends at `j` stops at `j`.
pub proof fn lemma_token_end_scan(s: Seq<char>, i: int, j: int)
    requires
        0 <= i <= j <= s.len(),
        forall|k: int| i <= k < j ==> !is_space(#[trigger] s[k]),
        j == s.len() || is_space(s[j]),
    ensures
        token_end(s, i) == j,
    decreases j - i,
{
    if i < j {
        lemma_token_end_scan(s, i + 1, j);
    }
}

/// The two numbers of a header line `<prefix><w> <h>[:...]`, read as
/// `split_whitespace` would: the second and third whitespace-separated tokens
/// after the fixed prefix, the third with trailing colons removed.
pub open spec fn spec_parse_dims(s: Seq<char>, prefix: Seq<char>) -> Option<(usize, usize)> {
    if s.len() >= prefix.len() && s.subrange(0, prefix.len() as int) == prefix {
        let t1s = skip_spaces(s, prefix.len() as int);
        let t1e = token_end(s, t1s);
        let t2s = skip_spaces(s, t1e);
        let t2e = token_end(s, t2s);
        if t2e > t2s {
            let e = strip_colons(s, t2s, t2e);
            match (spec_parse_usize(s.subrange(t1s, t1e)), spec_parse_usize(s.subrange(t2s, e))) {
                (Some(a), Some(b)) => Some((a, b)),
                _ => None,
            }
        } else {
            None
        }
    } else {
        None
    }
}

/// The cell characters of a board row line: a `NNN ` row-number prefix is
/// skipped when present.
pub open spec fn row_content(s: Seq<char>) -> Seq<char> {
    if s.len() > 4 && s[3] == ' ' {
        s.subrange(4, s.len() as int)
    } else {
        s
    }
}

/// The decimal digit value of `c`, if it is a digit.
fn digit_of(c: char) -> (r: Option<u8>)
    ensures
        r matches Some(d) ==> d as int == digit_val(c) && is_digit(c),
        r is None ==> !is_digit(c),
{
    match c {
        '0' => Some(0),
        '1' => Some(1),
        '2' => Some(2),
        '3' => Some(3),
        '4' => Some(4),
        '5' => Some(5),
        '6' => Some(6),
        '7' => Some(7),
        '8' => Some(8),
        '9' => Some(9),
        _ => None,
    }
}

pub(crate) fn is_space_at(line: &str, i: usize) -> (r: bool)
    requires
        i < line@.len(),
    ensures
        r == is_space(line@[i as int]),
{
    let c = line.get_char(i);
    c == ' ' || c == '\t' || c == '\n' || c == '\r'
}

/// The first non-blank position at or after `i`.
pub(crate) fn skip_spaces_at(line: &str, i: usize, n: usize) -> (r: usize)
    requires
        i <= n,
        n == line@.len(),
    ensures
        r as int == skip_spaces(line@, i as int),
        i <= r <= n,
    decreases n - i,
{
    if i < n && is_space_at(line, i) {
        skip_spaces_at(line, i + 1, n)
    } else {
        i
    }
}

/// The end of the token starting at `i`.
pub(crate) fn token_end_at(line: &str, i: usize, n: usize) -> (r: usize)
    requires
        i <= n,
        n == line@.len(),
    ensures
        r as int == token_end(line@, i as int),
        i <= r <= n,
    decreases n - i,
{
    if i < n && !is_space_at(line, i) {
        token_end_at(line, i + 1, n)
    } else {
        i
    }
}

/// Parses the decimal token in `line[start .. end)`.
pub(crate) fn parse_usize_in(line: &str, start: usize, end: usize) -> (r: Option<usize>)
    requires
        start <= end <= line@.len(),
    ensures
        r == spec_parse_usize(line@.subrange(start as int, end as int)),
{
    let ghost tok = line@.subrange(start as int, end as int);
    let mut i: usize = start;
    if i < end && line.get_char(i) == '+' {
        i += 1;
    }
    let ghost ds = if tok.len() > 0 && tok[0] == '+' {
        tok.subrange(1, tok.len() as int)
    } else {
        tok
    };
    proof {
        assert(ds =~= line@.subrange(i as int, end as int));
    }
    if i == end {
        return None;
    }
    let mut acc: usize = 0;
    let mut k: usize = i;
    while k < end
        invariant
            i <= k <= end,
            end <= line@.len(),
            i < end,
            ds == line@.subrange(i as int, end as int),
            all_digits(ds.subrange(0, k - i)),
            acc as int == digits_val(ds.subrange(0, k - i)),
        decreases end - k,
    {
        let c = line.get_char(k);
        proof {
            assert(ds[k - i] == line@[k as int]);
        }
        match digit_of(c) {
            None => {
                proof {
                    assert(!is_digit(ds[k - i]));
                }
                return None;
            },
            Some(d) => {
                proof {
                    assert(ds.subrange(0, k - i + 1).drop_last() =~= ds.subrange(0, k - i));
                    assert(ds.subrange(0, k - i + 1).last() == ds[k - i]);
                    lemma_digits_val_nonneg(ds.subrange(0, k - i));
                }
                if acc > (usize::MAX - d as usize) / 10 {
                    proof {
                        let q = (usize::MAX - d as usize) / 10;
                        assert(acc as int * 10 + d as int > usize::MAX as int) by (nonlinear_arith)
                            requires
                                acc as int >= q as int + 1,
                                q == (usize::MAX - d as usize) / 10,
                                0 <= d < 10,
                        ;
                        if all_digits(ds) {
                            lemma_digits_val_prefix_monotone(ds, k - i + 1);
                        }
                    }
                    return None;
                }
                acc = acc * 10 + d as usize;
                k += 1;
            },
        }
    }
    proof {
        assert(ds.subrange(0, (end - i) as int) =~= ds);
    }
    Some(acc)
}

/// Drops trailing colons from `line[start .. e)`.
fn strip_colons_at(line: &str, start: usize, e: usize) -> (r: usize)
    requires
        start <= e <= line@.len(),
    ensures
        r as int == strip_colons(line@, start as int, e as int),
        start <= r <= e,
    decreases e - start,
{
    if start < e && line.get_char(e - 1) == ':' {
        strip_colons_at(line, start, e - 1)
    } else {
        e
    }
}

/// The player-announcement prefix `$$$ exec p`.
pub open spec fn exec_line_prefix() -> Seq<char> {
    seq!['$', '$', '$', ' ', 'e', 'x', 'e', 'c', ' ', 'p']
}

/// The board-header prefix `Anfield `.
pub open spec fn anfield_prefix() -> Seq<char> {
    seq!['A', 'n', 'f', 'i', 'e', 'l', 'd', ' ']
}

/// The piece-header prefix `Piece `.
pub open spec fn piece_prefix() -> Seq<char> {
    seq!['P', 'i', 'e', 'c', 'e', ' ']
}

/// What a player-announcement line carries: the digit right after the fixed
/// prefix, as the player number.
pub open spec fn spec_parse_player_info(s: Seq<char>) -> Option<u8> {
    if s.len() > 10 && s.subrange(0, 10) == exec_line_prefix() && is_digit(s[10]) {
        Some(digit_val(s[10]) as u8)
    } else {
        None
    }
}

/// Compares `line[0 .. want.len())` against `want`.
fn has_prefix(line: &str, want: &Vec<char>) -> (r: bool)
    ensures
        r == (line@.len() >= want@.len() && line@.subrange(0, want@.len() as int) == want@),
{
    let n = line.unicode_len();
    if n < want.len() {
        return false;
    }
    let mut i: usize = 0;
    while i < want.len()
        invariant
            i <= want@.len(),
            want@.len() <= n == line@.len(),
            forall|j: int| 0 <= j < i ==> line@[j] == want@[j],
        decreases want@.len() - i,
    {
        if line.get_char(i) != want[i] {
            proof {
                assert(line@.subrange(0, want@.len() as int)[i as int] != want@[i as int]);
            }
            return false;
        }
        i += 1;
    }
    proof {
        assert(line@.subrange(0, want@.len() as int) =~= want@);
    }
    true
}

/// The reader side of the wire protocol.
pub struct GameParser;

impl GameParser {
    /// Reads the player number from a `$$$ exec p<N> : [...]` line.
    pub fn parse_player_info(line: &str) -> (r: Option<u8>)
        ensures
            r == spec_parse_player_info(line@),
    {
        let mut want: Vec<char> = Vec::new();
        want.push('$');
        want.push('$');
        want.push('$');
        want.push(' ');
        want.push('e');
        want.push('x');
        want.push('e');
        want.push('c');
        want.push(' ');
        want.push('p');
        proof {
            assert(want@ =~= exec_line_prefix());
        }
        if !has_prefix(line, &want) {
            return None;
        }
        if line.unicode_len() <= 10 {
            return None;
        }
        match digit_of(line.get_char(10)) {
            Some(d) => Some(d),
            None => None,
        }
    }

    /// Reads `width` and `height` from an `Anfield <w> <h>:` line.
    pub fn parse_anfield_header(line: &str) -> (r: Option<(usize, usize)>)
        ensures
            r == spec_parse_dims(line@, anfield_prefix()),
    {
        let mut want: Vec<char> = Vec::new();
        want.push('A');
        want.push('n');
        want.push('f');
        want.push('i');
        want.push('e');
        want.push('l');
        want.push('d');
        want.push(' ');
        proof {
            assert(want@ =~= anfield_prefix());
        }
        Self::parse_dims(line, &want)
    }

    /// Reads `width` and `height` from a `Piece <w> <h>:` line.
    pub fn parse_piece_header(line: &str) -> (r: Option<(usize, usize)>)
        ensures
            r == spec_parse_dims(line@, piece_prefix()),
    {
        let mut want: Vec<char> = Vec::new();
        want.push('P');
        want.push('i');
        want.push('e');
        want.push('c');
        want.push('e');
        want.push(' ');
        proof {
            assert(want@ =~= piece_prefix());
        }
        Self::parse_dims(line, &want)
    }

    /// The two whitespace-separated numbers after a fixed header prefix, the
    /// second with trailing colons removed.
    fn parse_dims(line: &str, want: &Vec<char>) -> (r: Option<(usize, usize)>)
        ensures
            r == spec_parse_dims(line@, want@),
    {
        if !has_prefix(line, want) {
            return None;
        }
        let n = line.unicode_len();
        let t1s = skip_spaces_at(line, want.len(), n);
        let t1e = token_end_at(line, t1s, n);
        let t2s = skip_spaces_at(line, t1e, n);
        let t2e = token_end_at(line, t2s, n);
        if t2e <= t2s {
            return None;
        }
        let e = strip_colons_at(line, t2s, t2e);
        let a = parse_usize_in(line, t1s, t1e);
        let b = parse_usize_in(line, t2s, e);
        match (a, b) {
            (Some(a), Some(b)) => Some((a, b)),
            _ => None,
        }
    }

    /// Reads one board row: an `NNN ` row-number prefix is skipped when
    /// present, and every remaining character maps to a cell.
    pub fn parse_anfield_row(line: &str) -> (r: Vec<Cell>)
        ensures
            r@.len() == row_content(line@).len(),
            forall|i: int|
                0 <= i < r@.len() ==> #[trigger] r@[i] == cell_from_char(row_content(line@)[i]),
    {
        let n = line.unicode_len();
        let start: usize = if n > 4 && line.get_char(3) == ' ' {
            4
        } else {
            0
        };
        let ghost content = row_content(line@);
        let mut cells: Vec<Cell> = Vec::new();
        let mut i: usize = start;
        while i < n
            invariant
                start <= i <= n,
                n == line@.len(),
                start == (if line@.len() > 4 && line@[3] == ' ' {
                    4int
                } else {
                    0int
                }),
                cells@.len() == i - start,
                forall|j: int|
                    0 <= j < cells@.len() ==> #[trigger] cells@[j] == cell_from_char(content[j]),
            decreases n - i,
        {
            let c = line.get_char(i);
            cells.push(Cell::from_char(c));
            i += 1;
        }
        cells
    }

    /// Reads the whole board: the header line, then one line per row. The
    /// board must fit the engine's size cap; rows beyond the stated height
    /// and characters beyond the stated width are ignored, and missing rows
    /// or characters leave cells empty.
    pub fn parse_anfield(lines: &Vec<String>) -> (r: Option<Anfield>)
        ensures
            r is None ==> lines@.len() == 0 || spec_parse_dims(lines@[0]@, anfield_prefix())
                is None || (spec_parse_dims(lines@[0]@, anfield_prefix())
                matches Some(d) && d.0 * d.1 > crate::rules::MAX_CELLS),
            r matches Some(a) ==> {
                &&& lines@.len() > 0
                &&& spec_parse_dims(lines@[0]@, anfield_prefix()) == Some((a.width, a.height))
                &&& a.wf()
                &&& forall|yy: int, xx: int|
                    0 <= yy < a.height && 0 <= xx < a.width ==> #[trigger] a.view_grid()[yy][xx]
                        == (if yy + 1 < lines@.len() && xx < row_content(lines@[yy + 1]@).len() {
                        cell_from_char(row_content(lines@[yy + 1]@)[xx])
                    } else {
                        Cell::Empty
                    })
            },
    {
        if lines.len() == 0 {
            return None;
        }
        let (width, height) = match Self::parse_anfield_header(lines[0].as_str()) {
            None => {
                return None;
            },
            Some(d) => d,
        };
        proof {
            assert((width as u128) * (height as u128) <= u128::MAX) by (nonlinear_arith)
                requires
                    width as u128 <= u64::MAX as u128,
                    height as u128 <= u64::MAX as u128,
            ;
        }
        if (width as u128) * (height as u128) > 19000000 {
            proof {
                assert(width * height > 19000000) by (nonlinear_arith)
                    requires
                        (width as u128) * (height as u128) > 19000000,
                        width == width as u128 as int,
                        height == height as u128 as int,
                ;
            }
            return None;
        }
        proof {
            assert(width * height <= 19000000) by (nonlinear_arith)
                requires
                    (width as u128) * (height as u128) <= 19000000,
                    width == width as u128 as int,
                    height == height as u128 as int,
            ;
        }
        let mut anfield = Anfield::new(width, height);
        let mut y: usize = 0;
        while y < height && 1 + y < lines.len()
            invariant
                y <= height,
                anfield.wf(),
                anfield.width == width,
                anfield.height == height,
                width * height <= crate::rules::MAX_CELLS,
                forall|yy: int, xx: int|
                    0 <= yy < height && 0 <= xx < width ==> #[trigger] anfield.view_grid()[yy][xx]
                        == (if yy < y && yy + 1 < lines@.len() && xx < row_content(
                        lines@[yy + 1]@,
                    ).len() {
                        cell_from_char(row_content(lines@[yy + 1]@)[xx])
                    } else {
                        Cell::Empty
                    }),
            decreases height - y,
        {
            let row = Self::parse_anfield_row(lines[1 + y].as_str());
            let ghost content = row_content(lines@[1 + y as int]@);
            let mut x: usize = 0;
            while x < width && x < row.len()
                invariant
                    x <= width,
                    y < height,
                    1 + y < lines@.len(),
                    row@.len() == content.len(),
                    forall|j: int|
                        0 <= j < row@.len() ==> #[trigger] row@[j] == cell_from_char(content[j]),
                    anfield.wf(),
                    anfield.width == width,
                    anfield.height == height,
                    forall|yy: int, xx: int|
                        0 <= yy < height && 0 <= xx < width ==> #[trigger] anfield.view_grid()[yy][xx]
                            == (if (yy < y && yy + 1 < lines@.len() && xx < row_content(
                            lines@[yy + 1]@,
                        ).len()) || (yy == y && xx < x && xx < content.len()) {
                            cell_from_char(row_content(lines@[yy + 1]@)[xx])
                        } else {
                            Cell::Empty
                        }),
                decreases width - x,
            {
                let ghost gprev = anfield.view_grid();
                let ok = anfield.set_cell(x, y, row[x]);
                proof {
                    assert(ok);
                    assert forall|yy: int, xx: int|
                        0 <= yy < height && 0 <= xx < width implies #[trigger] anfield.view_grid()[yy][xx]
                        == (if (yy < y && yy + 1 < lines@.len() && xx < row_content(
                        lines@[yy + 1]@,
                    ).len()) || (yy == y && xx < x + 1 && xx < content.len()) {
                        cell_from_char(row_content(lines@[yy + 1]@)[xx])
                    } else {
                        Cell::Empty
                    }) by {
                        assert(gprev[yy].len() == width);
                        if !(yy == y as int && xx == x as int) {
                            assert(anfield.view_grid()[yy][xx] == gprev[yy][xx]);
                        }
                    }
                }
                x += 1;
            }
            y += 1;
        }
        Some(anfield)
    }

    /// Reads the piece in play: the header line gives the number of pattern
    /// lines to read, and the pattern itself fixes the bounding box.
    pub fn parse_piece(lines: &Vec<String>) -> (r: Option<Piece>)
        ensures
            r is None ==> lines@.len() == 0 || spec_parse_dims(lines@[0]@, piece_prefix()) is None
                || (spec_parse_dims(lines@[0]@, piece_prefix()) matches Some(d) && lines@.len() < 1
                + d.1),
            r matches Some(p) ==> {
                &&& lines@.len() > 0
                &&& spec_parse_dims(lines@[0]@, piece_prefix()) matches Some(d) && p.height == d.1
                    && lines@.len() >= 1 + d.1
                &&& p.wf()
                &&& p.width as int == (if p.height > 0 {
                    lines@[1]@.len() as int
                } else {
                    0int
                })
                &&& forall|yy: int, xx: int|
                    0 <= yy < p.height && 0 <= xx < p.width ==> #[trigger] p.mask()[yy][xx] == (xx
                        < lines@[1 + yy]@.len() && lines@[1 + yy]@[xx] != '.')
            },
    {
        if lines.len() == 0 {
            return None;
        }
        let (_width, height) = match Self::parse_piece_header(lines[0].as_str()) {
            None => {
                return None;
            },
            Some(d) => d,
        };
        if lines.len() - 1 < height {
            return None;
        }
        let mut pattern: Vec<String> = Vec::new();
        let mut i: usize = 0;
        while i < height
            invariant
                i <= height,
                lines@.len() >= 1 + height,
                pattern@.len() == i,
                forall|j: int| 0 <= j < i ==> (#[trigger] pattern@[j])@ == lines@[1 + j]@,
            decreases height - i,
        {
            pattern.push(lines[1 + i].clone());
            i += 1;
        }
        Some(Piece::from_pattern(pattern))
    }
}

} // verus!

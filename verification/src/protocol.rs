//! Writing the wire protocol: the engine-side frame sent to a player program
//! each turn, and the reading of the program's move reply. The transport (a
//! child process and its pipes) lives outside the library; these functions
//! only build and read the text.

use vstd::prelude::*;
use crate::engine::GameState;
use crate::piece::Piece;
use crate::rules::{Cell, cell_to_char};
use crate::text::{chars_to_string, dec_digits, push_decimal, push_str_chars};
use crate::game::parser::{skip_spaces, token_end, spec_parse_usize};

verus! {

/// A row index as the frame writes it: three digits, zero-padded.
pub open spec fn pad3(n: int) -> Seq<char> {
    if n < 10 {
        seq!['0', '0'] + dec_digits(n)
    } else if n < 100 {
        seq!['0'] + dec_digits(n)
    } else {
        dec_digits(n)
    }
}

/// The characters of one board row in the frame: `NNN ` then one character
/// per cell.
pub open spec fn row_chars(row: Seq<Cell>, y: int) -> Seq<char> {
    pad3(y) + seq![' '] + Seq::new(row.len(), |x: int| cell_to_char(row[x]))
}

/// The board rows of the frame, for rows before `upto_y`.
pub open spec fn board_rows_chars(g: Seq<Seq<Cell>>, upto_y: int) -> Seq<char>
    decreases upto_y,
{
    if upto_y <= 0 {
        Seq::empty()
    } else {
        board_rows_chars(g, upto_y - 1) + row_chars(g[upto_y - 1], upto_y - 1) + seq!['\n']
    }
}

/// The whole board part of a frame: `Anfield <w> <h>:` and one line per row.
pub open spec fn anfield_frame_chars(g: Seq<Seq<Cell>>, w: int, h: int) -> Seq<char> {
    "Anfield "@ + dec_digits(w) + seq![' '] + dec_digits(h) + seq![':', '\n'] + board_rows_chars(
        g,
        h,
    )
}

/// A player announcement line: `$$$ exec p<N> : [<path>]`.
pub open spec fn exec_frame_chars(player_id: u8, path: Seq<char>) -> Seq<char> {
    "$$$ exec p"@ + dec_digits(player_id as int) + " : ["@ + path + seq![']', '\n']
}

/// One row of the piece part of a frame: a star for an occupied cell, a dot
/// otherwise.
pub open spec fn piece_row_chars(sh: Seq<(usize, usize)>, w: int, y: int) -> Seq<char> {
    Seq::new(
        w as nat,
        |x: int|
            if sh.contains(((x as usize), (y as usize))) {
                '*'
            } else {
                '.'
            },
    )
}

/// The piece rows of a frame, for rows before `upto_y`.
pub open spec fn piece_rows_chars(sh: Seq<(usize, usize)>, w: int, upto_y: int) -> Seq<char>
    decreases upto_y,
{
    if upto_y <= 0 {
        Seq::empty()
    } else {
        piece_rows_chars(sh, w, upto_y - 1) + piece_row_chars(sh, w, upto_y - 1) + seq!['\n']
    }
}

/// The whole piece part of a frame: `Piece <w> <h>:` and one line per row.
pub open spec fn piece_frame_chars(sh: Seq<(usize, usize)>, w: int, h: int) -> Seq<char> {
    "Piece "@ + dec_digits(w) + seq![' '] + dec_digits(h) + seq![':', '\n'] + piece_rows_chars(
        sh,
        w,
        h,
    )
}

/// What a move reply parses to: the first two whitespace-separated unsigned
/// numbers, or nothing when the reply holds fewer than two well-formed
/// numbers — which the engine treats as "no move".
pub open spec fn spec_parse_move_reply(s: Seq<char>) -> Option<(usize, usize)> {
    let t1s = skip_spaces(s, 0);
    let t1e = token_end(s, t1s);
    let t2s = skip_spaces(s, t1e);
    let t2e = token_end(s, t2s);
    if t1e > t1s && t2e > t2s {
        match (spec_parse_usize(s.subrange(t1s, t1e)), spec_parse_usize(s.subrange(t2s, t2e))) {
            (Some(x), Some(y)) => Some((x, y)),
            _ => None,
        }
    } else {
        None
    }
}

/// The move writer and the reply reader agree: a written move line reads
/// back as the same position.
pub proof fn lemma_move_reply_round_trip(x: usize, y: usize)
    ensures
        spec_parse_move_reply(
            dec_digits(x as int) + seq![' '] + dec_digits(y as int) + seq!['\n'],
        ) == Some((x, y)),
{
    let dx = dec_digits(x as int);
    let dy = dec_digits(y as int);
    let s = dx + seq![' '] + dy + seq!['\n'];
    crate::game::parser::lemma_dec_digits_value(x as int);
    crate::game::parser::lemma_dec_digits_value(y as int);
    let l1 = dx.len() as int;
    let l2 = dy.len() as int;
    assert(s.len() == l1 + 1 + l2 + 1);
    assert forall|k: int| 0 <= k < l1 implies !crate::game::parser::is_space(#[trigger] s[k]) by {
        assert(s[k] == dx[k]);
        assert(crate::game::parser::is_digit(dx[k]));
    }
    assert forall|k: int| l1 + 1 <= k < l1 + 1 + l2 implies !crate::game::parser::is_space(
        #[trigger] s[k],
    ) by {
        assert(s[k] == dy[k - l1 - 1]);
        assert(crate::game::parser::is_digit(dy[k - l1 - 1]));
    }
    assert(s[l1] == ' ');
    assert(s[l1 + 1 + l2] == '\n');
    crate::game::parser::lemma_skip_spaces_scan(s, 0, 0);
    crate::game::parser::lemma_token_end_scan(s, 0, l1);
    crate::game::parser::lemma_skip_spaces_scan(s, l1, l1 + 1);
    crate::game::parser::lemma_token_end_scan(s, l1 + 1, l1 + 1 + l2);
    assert(s.subrange(0, l1) =~= dx);
    assert(s.subrange(l1 + 1, l1 + 1 + l2) =~= dy);
    assert(crate::game::parser::digit_val(dx[0]) >= 0);
    assert(dx[0] != '+');
    assert(crate::game::parser::digit_val(dy[0]) >= 0);
    assert(dy[0] != '+');
    assert(spec_parse_usize(dx) == Some(x));
    assert(spec_parse_usize(dy) == Some(y));
}

/// The board-header writer and reader agree: the header line the frame
/// writes parses back to the same dimensions.
pub proof fn lemma_anfield_header_round_trip(w: usize, h: usize)
    ensures
        crate::game::parser::spec_parse_dims(
            "Anfield "@ + dec_digits(w as int) + seq![' '] + dec_digits(h as int) + seq![':'],
            crate::game::parser::anfield_prefix(),
        ) == Some((w, h)),
{
    reveal_strlit("Anfield ");
    let dw = dec_digits(w as int);
    let dh = dec_digits(h as int);
    let s = "Anfield "@ + dw + seq![' '] + dh + seq![':'];
    crate::game::parser::lemma_dec_digits_value(w as int);
    crate::game::parser::lemma_dec_digits_value(h as int);
    let lw = dw.len() as int;
    let lh = dh.len() as int;
    assert(s.len() == 8 + lw + 1 + lh + 1);
    assert(s.subrange(0, 8) =~= crate::game::parser::anfield_prefix());
    assert forall|k: int| 8 <= k < 8 + lw implies !crate::game::parser::is_space(
        #[trigger] s[k],
    ) by {
        assert(s[k] == dw[k - 8]);
        assert(crate::game::parser::is_digit(dw[k - 8]));
    }
    assert forall|k: int| 8 + lw + 1 <= k < 8 + lw + 1 + lh implies !crate::game::parser::is_space(
        #[trigger] s[k],
    ) by {
        assert(s[k] == dh[k - 8 - lw - 1]);
        assert(crate::game::parser::is_digit(dh[k - 8 - lw - 1]));
    }
    assert(s[8 + lw] == ' ');
    assert(s[8 + lw + 1 + lh] == ':');
    assert(!crate::game::parser::is_space(s[8]));
    crate::game::parser::lemma_skip_spaces_scan(s, 8, 8);
    crate::game::parser::lemma_token_end_scan(s, 8, 8 + lw);
    crate::game::parser::lemma_skip_spaces_scan(s, 8 + lw, 8 + lw + 1);
    assert(!crate::game::parser::is_space(s[8 + lw + 1 + lh]));
    crate::game::parser::lemma_token_end_scan(s, 8 + lw + 1, 8 + lw + 1 + lh + 1);
    assert(crate::game::parser::strip_colons(s, 8 + lw + 1, 8 + lw + 1 + lh + 1) == 8 + lw + 1
        + lh) by {
        let e0 = 8 + lw + 1 + lh + 1;
        assert(s[e0 - 1] == ':');
        assert(s[e0 - 2] == dh[lh - 1]);
        assert(crate::game::parser::is_digit(dh[lh - 1]));
        assert(s[e0 - 2] != ':');
        assert(crate::game::parser::strip_colons(s, 8 + lw + 1, e0 - 1) == e0 - 1);
    }
    assert(s.subrange(8, 8 + lw) =~= dw);
    assert(s.subrange(8 + lw + 1, 8 + lw + 1 + lh) =~= dh);
    assert(crate::game::parser::digit_val(dw[0]) >= 0);
    assert(dw[0] != '+');
    assert(crate::game::parser::digit_val(dh[0]) >= 0);
    assert(dh[0] != '+');
    assert(spec_parse_usize(dw) == Some(w));
    assert(spec_parse_usize(dh) == Some(h));
}

proof fn lemma_dec_digits_len_small(n: int)
    requires
        0 <= n < 1000,
    ensures
        n < 10 ==> dec_digits(n).len() == 1,
        10 <= n < 100 ==> dec_digits(n).len() == 2,
        100 <= n ==> dec_digits(n).len() == 3,
    decreases n,
{
    if n >= 10 {
        lemma_dec_digits_len_small(n / 10);
    }
}

/// The row writer and reader agree: a written board row (for the row indexes
/// the padded format covers) reads back as the same cells.
pub proof fn lemma_row_round_trip(row: Seq<Cell>, y: int)
    requires
        0 <= y < 1000,
        row.len() >= 1,
    ensures
        crate::game::parser::row_content(row_chars(row, y)).len() == row.len(),
        forall|x: int|
            0 <= x < row.len() ==> crate::rules::cell_from_char(
                #[trigger] crate::game::parser::row_content(row_chars(row, y))[x],
            ) == row[x],
{
    let s = row_chars(row, y);
    lemma_dec_digits_len_small(y);
    assert(pad3(y).len() == 3);
    assert(s[3] == ' ');
    assert(s.len() == 4 + row.len());
    let content = crate::game::parser::row_content(s);
    assert(content =~= Seq::new(row.len(), |x: int| cell_to_char(row[x])));
    assert forall|x: int| 0 <= x < row.len() implies crate::rules::cell_from_char(
        #[trigger] content[x],
    ) == row[x] by {
        assert(content[x] == cell_to_char(row[x]));
    }
}

/// Appends the three-digit zero-padded row index.
fn push_pad3(out: &mut Vec<char>, n: u64)
    ensures
        final(out)@ == old(out)@ + pad3(n as int),
{
    if n < 10 {
        out.push('0');
        out.push('0');
        push_decimal(out, n);
        proof {
            assert(old(out)@.push('0').push('0') =~= old(out)@ + seq!['0', '0']);
        }
    } else if n < 100 {
        out.push('0');
        push_decimal(out, n);
        proof {
            assert(old(out)@.push('0') =~= old(out)@ + seq!['0']);
        }
    } else {
        push_decimal(out, n);
    }
}

/// The `$$$ exec p<N> : [<path>]` line of a frame, newline included.
pub fn format_exec_line(player_id: u8, path: &str) -> (r: String)
    ensures
        r@ == exec_frame_chars(player_id, path@),
{
    let mut out: Vec<char> = Vec::new();
    push_str_chars(&mut out, "$$$ exec p");
    push_decimal(&mut out, player_id as u64);
    push_str_chars(&mut out, " : [");
    push_str_chars(&mut out, path);
    out.push(']');
    out.push('\n');
    proof {
        assert(out@ =~= exec_frame_chars(player_id, path@));
    }
    chars_to_string(&out)
}

/// The board part of a frame: the `Anfield` header and one `NNN <cells>`
/// line per row.
pub fn format_anfield(game: &GameState) -> (r: String)
    requires
        game.wf(),
    ensures
        r@ == anfield_frame_chars(game.grid(), game.width as int, game.height as int),
{
    let ghost g = game.grid();
    let mut out: Vec<char> = Vec::new();
    push_str_chars(&mut out, "Anfield ");
    push_decimal(&mut out, game.width as u64);
    out.push(' ');
    push_decimal(&mut out, game.height as u64);
    out.push(':');
    out.push('\n');
    let ghost header = out@;
    let mut y: usize = 0;
    while y < game.height
        invariant
            y <= game.height,
            out@ == header + board_rows_chars(g, y as int),
        decreases game.height - y,
    {
        push_pad3(&mut out, y as u64);
        out.push(' ');
        let ghost row_start = out@;
        let ghost row = g[y as int];
        proof {
            assert(g[y as int] == game.board@[y as int]@);
        }
        let mut x: usize = 0;
        while x < game.width
            invariant
                x <= game.width,
                y < game.height,
                row == g[y as int],
                row.len() == game.width,
                out@ == row_start + Seq::new(x as nat, |j: int| cell_to_char(row[j])),
            decreases game.width - x,
        {
            proof {
                assert(g[y as int] == game.board@[y as int]@);
            }
            let cell = game.board[y][x];
            out.push(cell.to_char());
            proof {
                assert(out@ =~= row_start + Seq::new((x + 1) as nat, |j: int| cell_to_char(row[j])));
            }
            x += 1;
        }
        out.push('\n');
        proof {
            assert(Seq::new(game.width as nat, |j: int| cell_to_char(row[j])) =~= Seq::new(
                row.len(),
                |j: int| cell_to_char(row[j]),
            ));
            assert(out@ =~= header + board_rows_chars(g, y + 1));
        }
        y += 1;
    }
    proof {
        assert(out@ =~= anfield_frame_chars(g, game.width as int, game.height as int));
    }
    chars_to_string(&out)
}

/// The piece part of a frame: the `Piece` header and one pattern line per
/// row, a star for each occupied cell.
pub fn format_piece(piece: &Piece) -> (r: String)
    ensures
        r@ == piece_frame_chars(piece.shape@, piece.width as int, piece.height as int),
{
    let ghost sh = piece.shape@;
    let mut out: Vec<char> = Vec::new();
    push_str_chars(&mut out, "Piece ");
    push_decimal(&mut out, piece.width as u64);
    out.push(' ');
    push_decimal(&mut out, piece.height as u64);
    out.push(':');
    out.push('\n');
    let ghost header = out@;
    let mut y: usize = 0;
    while y < piece.height
        invariant
            y <= piece.height,
            out@ == header + piece_rows_chars(sh, piece.width as int, y as int),
        decreases piece.height - y,
    {
        let ghost row_start = out@;
        let mut x: usize = 0;
        while x < piece.width
            invariant
                x <= piece.width,
                y < piece.height,
                out@ == row_start + piece_row_chars(sh, x as int, y as int),
            decreases piece.width - x,
        {
            if piece.has_cell(x, y) {
                out.push('*');
            } else {
                out.push('.');
            }
            proof {
                assert(out@ =~= row_start + piece_row_chars(sh, x + 1, y as int));
            }
            x += 1;
        }
        out.push('\n');
        proof {
            assert(out@ =~= header + piece_rows_chars(sh, piece.width as int, y + 1));
        }
        y += 1;
    }
    proof {
        assert(out@ =~= piece_frame_chars(sh, piece.width as int, piece.height as int));
    }
    chars_to_string(&out)
}

/// The move line the library itself writes as a reply: `<x> <y>` and a
/// newline.
pub fn format_move(x: usize, y: usize) -> (r: String)
    ensures
        r@ == dec_digits(x as int) + seq![' '] + dec_digits(y as int) + seq!['\n'],
{
    let mut out: Vec<char> = Vec::new();
    push_decimal(&mut out, x as u64);
    out.push(' ');
    push_decimal(&mut out, y as u64);
    out.push('\n');
    proof {
        assert(out@ =~= dec_digits(x as int) + seq![' '] + dec_digits(y as int) + seq!['\n']);
    }
    chars_to_string(&out)
}

/// Reads a player program's reply: the first two whitespace-separated
/// numbers as a position, or `None` — a forfeit — when the reply is not well
/// formed.
pub fn parse_move_reply(reply: &str) -> (r: Option<(usize, usize)>)
    ensures
        r == spec_parse_move_reply(reply@),
{
    let n = reply.unicode_len();
    let t1s = crate::game::parser::skip_spaces_at(reply, 0, n);
    let t1e = crate::game::parser::token_end_at(reply, t1s, n);
    let t2s = crate::game::parser::skip_spaces_at(reply, t1e, n);
    let t2e = crate::game::parser::token_end_at(reply, t2s, n);
    if !(t1e > t1s && t2e > t2s) {
        return None;
    }
    let a = crate::game::parser::parse_usize_in(reply, t1s, t1e);
    let b = crate::game::parser::parse_usize_in(reply, t2s, t2e);
    match (a, b) {
        (Some(x), Some(y)) => Some((x, y)),
        _ => None,
    }
}

} // verus!

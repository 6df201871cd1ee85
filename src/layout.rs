use vstd::prelude::*;
use vstd::arithmetic::div_mod::{lemma_fundamental_div_mod, lemma_multiply_divide_lt};
use vstd::arithmetic::mul::lemma_mul_inequality;
use crate::color::{Color, label_text, lemma_label_len};
use crate::piece::{Piece, PieceModel, models, plain, push_piece};
use crate::text::{blank_string, blanks};

verus! {

/// Blank character rows between two bands of squares.
pub const ROW_SPACING: usize = 2;

/// Blank character columns between two squares.
pub const COL_SPACING: usize = 2;

/// Height of a square in character rows; its width is twice as many columns.
pub open spec fn square_size(decimal: bool) -> nat {
    if decimal {
        8
    } else {
        4
    }
}

/// Columns taken by one square and the gap before it.
pub open spec fn column_unit(decimal: bool) -> nat {
    (2 * square_size(decimal) + COL_SPACING) as nat
}

/// Rows taken by one band of squares and the gap above it.
pub open spec fn band_height(decimal: bool) -> nat {
    (square_size(decimal) + ROW_SPACING) as nat
}

/// Squares per band on a terminal `width` columns wide; at least one.
pub open spec fn grid_columns(width: nat, decimal: bool) -> nat {
    if width / column_unit(decimal) == 0 {
        1
    } else {
        width / column_unit(decimal)
    }
}

/// Bands needed for `n` squares, `cols` to a band: `n / cols` rounded up.
pub open spec fn grid_rows(n: nat, cols: nat) -> nat {
    if n % cols == 0 {
        n / cols
    } else {
        n / cols + 1
    }
}

/// Band `r` is the last one and holds fewer than `cols` squares.
pub open spec fn is_ragged(n: nat, cols: nat, r: nat) -> bool {
    r + 1 == grid_rows(n, cols) && n % cols != 0
}

/// The number of squares in band `r`.
pub open spec fn squares_in_band(n: nat, cols: nat, r: nat) -> nat {
    if is_ragged(n, cols, r) {
        n % cols
    } else {
        cols
    }
}

/// The blank columns that center a ragged band: half the width of its empty slots.
pub open spec fn ragged_lead(n: nat, cols: nat, decimal: bool) -> nat {
    ((cols - n % cols) * column_unit(decimal) / 2) as nat
}

/// One unstyled blank.
pub open spec fn gap_piece() -> PieceModel {
    plain(seq![' '])
}

/// One cell of a square: a blank in the square's color on the same color.
pub open spec fn block_piece(c: Color) -> PieceModel {
    (seq![' '], Some(c), Some(c), false)
}

/// Part `t` of the label above a square: the gap, the bold label, then
/// blanks up to the square's width.
pub open spec fn label_part(c: Color, decimal: bool, t: int) -> PieceModel {
    if t == 0 {
        plain(blanks(COL_SPACING as nat))
    } else if t == 1 {
        (label_text(c, decimal), None, None, true)
    } else {
        plain(blanks((2 * square_size(decimal) - label_text(c, decimal).len()) as nat))
    }
}

/// Piece `x` of the label row of band `r`: three pieces per square.
pub open spec fn label_row_piece(cs: Seq<Color>, decimal: bool, cols: nat, r: nat, x: int) -> PieceModel {
    label_part(cs[r * cols + x / 3], decimal, x % 3)
}

/// Cell `j` of a row `m` rows into band `r`, other than the label row.
pub open spec fn cell_piece(cs: Seq<Color>, decimal: bool, cols: nat, r: nat, m: nat, j: int) -> PieceModel {
    if m < ROW_SPACING || j % (column_unit(decimal) as int) < COL_SPACING {
        gap_piece()
    } else {
        block_piece(cs[r * cols + j / (column_unit(decimal) as int)])
    }
}

/// What comes before the cells of a row of band `r`: the centering blanks
/// of a ragged band.
pub open spec fn row_lead(n: nat, cols: nat, decimal: bool, r: nat) -> Seq<PieceModel> {
    if is_ragged(n, cols, r) {
        seq![plain(blanks(ragged_lead(n, cols, decimal)))]
    } else {
        Seq::empty()
    }
}

/// Character row `i` of the grid of the colors `cs`, `cols` squares to a band.
/// Each band starts with `ROW_SPACING` rows of gap: the last of them carries
/// the labels, each label standing for the whole width of its square and the
/// gap before it. The rows that follow are the squares, each after a gap of
/// `COL_SPACING` columns.
pub open spec fn grid_line(cs: Seq<Color>, decimal: bool, cols: nat, i: nat) -> Seq<PieceModel> {
    let r = i / band_height(decimal);
    let m = i % band_height(decimal);
    let k = squares_in_band(cs.len(), cols, r);
    row_lead(cs.len(), cols, decimal, r) + if m + 1 == ROW_SPACING {
        Seq::new(3 * k, |x: int| label_row_piece(cs, decimal, cols, r, x))
    } else {
        Seq::new(k * column_unit(decimal), |j: int| cell_piece(cs, decimal, cols, r, m, j))
    }
}

/// Every band but a ragged last one is full, and the squares of band `r`
/// are colors `r * cols` onwards.
pub proof fn lemma_band_in_range(n: nat, cols: nat, r: nat)
    requires
        cols >= 1,
        r < grid_rows(n, cols),
    ensures
        r * cols + squares_in_band(n, cols, r) <= n,
{
    let q = n / cols;
    lemma_fundamental_div_mod(n as int, cols as int);
    assert(cols * q == q * cols) by (nonlinear_arith);
    if r < q {
        assert(!is_ragged(n, cols, r));
        lemma_mul_inequality(r + 1 as int, q as int, cols as int);
        assert((r + 1) * cols == r * cols + cols) by (nonlinear_arith);
    } else {
        assert(r == q);
        assert(is_ragged(n, cols, r));
    }
}

/// Character row `i` of the grid of `colors`, `cols` squares to a band.
fn grid_row(colors: &Vec<Color>, decimal: bool, cols: usize, i: usize) -> (line: Vec<Piece>)
    requires
        1 <= cols <= 65535,
        colors@.len() < usize::MAX,
        i < grid_rows(colors@.len(), cols as nat) * band_height(decimal),
    ensures
        models(line@) == grid_line(colors@, decimal, cols as nat, i as nat),
{
    let ghost cs = colors@;
    let sq: usize = if decimal {
        8
    } else {
        4
    };
    let unit: usize = 2 * sq + COL_SPACING;
    let band: usize = sq + ROW_SPACING;
    let n = colors.len();
    let rows = if n % cols == 0 {
        n / cols
    } else {
        n / cols + 1
    };
    let r = i / band;
    let m = i % band;
    proof {
        assert(band * rows == rows * band) by (nonlinear_arith);
        lemma_multiply_divide_lt(i as int, band as int, rows as int);
        lemma_band_in_range(n as nat, cols as nat, r as nat);
    }
    let ragged = r + 1 == rows && n % cols != 0;
    let k = if ragged {
        n % cols
    } else {
        cols
    };
    assert(r * cols <= n) by (nonlinear_arith)
        requires
            r * cols + k <= n,
    ;
    let base = r * cols;
    let mut line: Vec<Piece> = Vec::new();
    if ragged {
        let empty = cols - n % cols;
        assert(empty * unit <= 65535 * 18) by (nonlinear_arith)
            requires
                empty <= 65535,
                unit <= 18,
        ;
        let lead = empty * unit / 2;
        push_piece(&mut line, Piece::plain(blank_string(lead), false));
    }
    let ghost lead_models = models(line@);
    assert(lead_models == row_lead(n as nat, cols as nat, decimal, r as nat));
    if m + 1 == ROW_SPACING {
        let mut c: usize = 0;
        while c < k
            invariant
                c <= k,
                base + k <= n,
                base == r * cols,
                n == cs.len(),
                colors@ == cs,
                sq == square_size(decimal),
                models(line@) == lead_models + Seq::new(
                    3 * c as nat,
                    |x: int| label_row_piece(cs, decimal, cols as nat, r as nat, x),
                ),
            decreases k - c,
        {
            let col = colors[base + c];
            let label = col.label(decimal);
            let len = label.as_str().unicode_len();
            proof {
                lemma_label_len(col, decimal);
                if !decimal {
                    assert(label_text(col, decimal).len() == 7);
                }
            }
            let ghost before = models(line@);
            push_piece(&mut line, Piece::plain(blank_string(COL_SPACING), false));
            push_piece(&mut line, Piece::plain(label, true));
            push_piece(&mut line, Piece::plain(blank_string(2 * sq - len), false));
            proof {
                let f = |x: int| label_row_piece(cs, decimal, cols as nat, r as nat, x);
                let x0 = 3 * c as int;
                assert(x0 / 3 == c && x0 % 3 == 0);
                assert((x0 + 1) / 3 == c && (x0 + 1) % 3 == 1);
                assert((x0 + 2) / 3 == c && (x0 + 2) % 3 == 2);
                assert(cs[r * cols + c] == col);
                assert(f(x0) == plain(blanks(COL_SPACING as nat)));
                assert(f(x0 + 1) == (label_text(col, decimal), None::<Color>, None::<Color>, true));
                assert(f(x0 + 2) == plain(blanks((2 * sq - len) as nat)));
                assert(models(line@) == before.push(f(x0)).push(f(x0 + 1)).push(f(x0 + 2)));
                assert(models(line@) =~= lead_models + Seq::new(3 * (c + 1) as nat, f));
            }
            c = c + 1;
        }
    } else {
        assert(k * unit <= 65535 * 18) by (nonlinear_arith)
            requires
                k <= 65535,
                unit <= 18,
        ;
        let width = k * unit;
        let mut j: usize = 0;
        while j < width
            invariant
                j <= width,
                width == k * unit,
                unit == column_unit(decimal),
                base + k <= n,
                base == r * cols,
                n == cs.len(),
                colors@ == cs,
                models(line@) == lead_models + Seq::new(
                    j as nat,
                    |x: int| cell_piece(cs, decimal, cols as nat, r as nat, m as nat, x),
                ),
            decreases width - j,
        {
            let ghost before = models(line@);
            if m < ROW_SPACING || j % unit < COL_SPACING {
                let mut text = String::new();
                text.push(' ');
                push_piece(&mut line, Piece::plain(text, false));
            } else {
                proof {
                    lemma_multiply_divide_lt(j as int, unit as int, k as int);
                    assert(unit * k == k * unit) by (nonlinear_arith);
                }
                let colour = colors[base + j / unit];
                let mut text = String::new();
                text.push(' ');
                push_piece(&mut line, Piece::colored(text, colour, colour, false));
            }
            proof {
                assert(seq![' '].push(' ') =~= seq![' ', ' ']);
                let f = |x: int| cell_piece(cs, decimal, cols as nat, r as nat, m as nat, x);
                assert(models(line@) =~= lead_models + Seq::new((j + 1) as nat, f));
            }
            j = j + 1;
        }
    }
    line
}

/// The grid has `n / cols` bands rounded up, each holding at least one
/// square; all are full but the last, which holds `n % cols` squares when
/// that is not zero and leaves `cols - n % cols` slots empty; together they
/// hold exactly the `n` squares.
pub proof fn lemma_grid_shape(n: nat, cols: nat)
    requires
        cols >= 1,
    ensures
        n == 0 ==> grid_rows(n, cols) == 0,
        n > 0 ==> grid_rows(n, cols) >= 1,
        n > 0 ==> (grid_rows(n, cols) - 1) * cols < n <= grid_rows(n, cols) * cols,
        forall|r: nat|
            r + 1 < grid_rows(n, cols) ==> #[trigger] squares_in_band(n, cols, r) == cols,
        n > 0 && n % cols != 0 ==> squares_in_band(n, cols, (grid_rows(n, cols) - 1) as nat) == n % cols
            && cols - squares_in_band(n, cols, (grid_rows(n, cols) - 1) as nat) == cols - n % cols,
        n > 0 && n % cols == 0 ==> squares_in_band(n, cols, (grid_rows(n, cols) - 1) as nat) == cols,
        n > 0 ==> (grid_rows(n, cols) - 1) * cols + squares_in_band(n, cols, (grid_rows(n, cols) - 1) as nat)
            == n,
{
    let q = n / cols;
    lemma_fundamental_div_mod(n as int, cols as int);
    assert(cols * q == q * cols) by (nonlinear_arith);
    if n == 0 {
        assert(q == 0);
    }
    if n > 0 {
        if n % cols == 0 {
            assert(q >= 1) by (nonlinear_arith)
                requires
                    q * cols == n,
                    n > 0,
            ;
            assert((q - 1) * cols == q * cols - cols) by (nonlinear_arith);
        } else {
            assert((q + 1) * cols == q * cols + cols) by (nonlinear_arith);
        }
    }
}

/// `lines` is the grid of the colors `cs` on a terminal `width` columns
/// wide: its character rows, then one empty line.
pub open spec fn shows_grid(lines: Seq<Vec<Piece>>, cs: Seq<Color>, decimal: bool, width: nat) -> bool {
    let cols = grid_columns(width, decimal);
    let height = grid_rows(cs.len(), cols) * band_height(decimal);
    &&& lines.len() == height + 1
    &&& forall|i: int| 0 <= i < height ==> models(#[trigger] lines[i]@) == grid_line(cs, decimal, cols, i as nat)
    &&& lines[height as int]@.len() == 0
}

/// The grid of `colors` on a terminal `width` columns wide.
pub fn grid_lines(colors: &Vec<Color>, decimal: bool, width: u16) -> (lines: Vec<Vec<Piece>>)
    requires
        colors@.len() <= usize::MAX / 16,
    ensures
        shows_grid(lines@, colors@, decimal, width as nat),
{
    let sq: usize = if decimal {
        8
    } else {
        4
    };
    let unit: usize = 2 * sq + COL_SPACING;
    let band: usize = sq + ROW_SPACING;
    let mut cols: usize = width as usize / unit;
    if cols == 0 {
        cols = 1;
    }
    let n = colors.len();
    let rows = if n % cols == 0 {
        n / cols
    } else {
        n / cols + 1
    };
    proof {
        lemma_grid_shape(n as nat, cols as nat);
        if n > 0 {
            assert((rows - 1) * cols >= rows - 1) by (nonlinear_arith)
                requires
                    cols >= 1,
                    rows >= 1,
            ;
        }
    }
    assert(rows * band <= n * 10) by (nonlinear_arith)
        requires
            rows <= n,
            band <= 10,
    ;
    let height = rows * band;
    let ghost cs = colors@;
    let mut lines: Vec<Vec<Piece>> = Vec::new();
    let mut i: usize = 0;
    while i < height
        invariant
            i <= height,
            height == grid_rows(n as nat, cols as nat) * band_height(decimal),
            cols == grid_columns(width as nat, decimal),
            1 <= cols <= 65535,
            n == cs.len(),
            n <= usize::MAX / 16,
            colors@ == cs,
            lines@.len() == i,
            forall|x: int| 0 <= x < i ==> models(#[trigger] lines@[x]@) == grid_line(cs, decimal, cols as nat, x as nat),
        decreases height - i,
    {
        let line = grid_row(colors, decimal, cols, i);
        lines.push(line);
        i = i + 1;
    }
    lines.push(Vec::new());
    lines
}

} // verus!

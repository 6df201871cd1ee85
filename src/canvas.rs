use vstd::prelude::*;
use crate::color::{Color, label_text};
use crate::contrast::{is_first_best, more_contrast};
use crate::layout::{grid_lines, shows_grid};
use crate::piece::{Piece, PieceModel, models, plain, push_piece};

verus! {

pub open spec fn black() -> Color {
    Color { r: 0, g: 0, b: 0 }
}

pub open spec fn white() -> Color {
    Color { r: 255, g: 255, b: 255 }
}

/// The text color for a label on `bg`: of black and white, the one with the
/// greater contrast, black on a tie.
pub open spec fn text_color(bg: Color) -> Color {
    if more_contrast(bg, white(), black()) {
        white()
    } else {
        black()
    }
}

/// The padding character of inline labels on the terminal.
pub const INLINE_PAD: char = ' ';

/// The padding character of labels handed to a text UI (a no-break space).
pub const FRAGMENT_PAD: char = '\u{a0}';

/// The labelled swatch of one color: its label between two `pad`
/// characters, bold, in its text color on the color itself.
pub open spec fn swatch_piece(c: Color, decimal: bool, pad: char) -> PieceModel {
    (seq![pad] + label_text(c, decimal) + seq![pad], Some(text_color(c)), Some(c), true)
}

/// The separator between two swatches.
pub open spec fn comma_piece() -> PieceModel {
    plain(seq![','])
}

/// The number of pieces of an inline list of `n` colors.
pub open spec fn inline_len(n: nat) -> nat {
    if n == 0 {
        0
    } else {
        (2 * n - 1) as nat
    }
}

/// The inline list: the swatch of each color in order, a comma between two
/// of them and none after the last.
pub open spec fn inline_line(cs: Seq<Color>, decimal: bool, pad: char) -> Seq<PieceModel> {
    Seq::new(
        inline_len(cs.len()),
        |p: int|
            if p % 2 == 0 {
                swatch_piece(cs[p / 2], decimal, pad)
            } else {
                comma_piece()
            },
    )
}

/// The pieces of an inline list that are separators.
pub open spec fn commas_of(line: Seq<PieceModel>) -> Seq<PieceModel> {
    line.filter(|p: PieceModel| p == comma_piece())
}

/// The pieces of an inline list that are labels.
pub open spec fn labels_of(line: Seq<PieceModel>) -> Seq<PieceModel> {
    line.filter(|p: PieceModel| p != comma_piece())
}

/// An inline list of `n` colors holds exactly `n` labels and `n - 1`
/// commas (none when `n` is at most one).
pub proof fn lemma_inline_counts(cs: Seq<Color>, decimal: bool, pad: char)
    ensures
        labels_of(inline_line(cs, decimal, pad)).len() == cs.len(),
        commas_of(inline_line(cs, decimal, pad)).len() == if cs.len() == 0 {
            0
        } else {
            cs.len() - 1
        },
    decreases cs.len(),
{
    let line = inline_line(cs, decimal, pad);
    let is_comma = |p: PieceModel| p == comma_piece();
    let not_comma = |p: PieceModel| p != comma_piece();
    reveal(Seq::filter);
    if cs.len() > 0 {
        assert(swatch_piece(cs.last(), decimal, pad).1 != comma_piece().1);
    }
    if cs.len() == 0 {
        assert(line.len() == 0);
    } else if cs.len() == 1 {
        assert(line.len() == 1);
        assert(line.drop_last().len() == 0);
        assert(line.last() == swatch_piece(cs[0], decimal, pad));
        assert(line.filter(is_comma) == line.drop_last().filter(is_comma));
        assert(line.filter(not_comma).len() == line.drop_last().filter(not_comma).len() + 1);
    } else {
        let prev_cs = cs.drop_last();
        lemma_inline_counts(prev_cs, decimal, pad);
        let prev = inline_line(prev_cs, decimal, pad);
        let n = cs.len();
        assert(line.len() == 2 * n - 1);
        assert(((2 * n - 2) as int) / 2 == n - 1);
        assert(((2 * n - 3) as int) % 2 == 1);
        assert(line.last() == swatch_piece(cs.last(), decimal, pad));
        assert(line.drop_last().last() == comma_piece());
        assert forall|p: int| 0 <= p < prev.len() implies #[trigger] line.drop_last().drop_last()[p] == prev[p] by {
            assert(p / 2 < n - 1);
        }
        assert(line.drop_last().drop_last() =~= prev);
        assert(line.filter(is_comma) == line.drop_last().filter(is_comma));
        assert(line.drop_last().filter(is_comma) == prev.filter(is_comma).push(comma_piece()));
        assert(line.filter(not_comma) == line.drop_last().filter(not_comma).push(line.last()));
        assert(line.drop_last().filter(not_comma) == prev.filter(not_comma));
    }
}

/// The labels of the colors, in order, joined by commas.
pub open spec fn joined_labels(cs: Seq<Color>, decimal: bool) -> Seq<char>
    decreases cs.len(),
{
    if cs.len() == 0 {
        Seq::empty()
    } else if cs.len() == 1 {
        label_text(cs[0], decimal)
    } else {
        joined_labels(cs.drop_last(), decimal) + seq![','] + label_text(cs.last(), decimal)
    }
}

/// The contrasting text color for labels on `bg`.
pub fn label_color(bg: Color) -> (r: Color)
    ensures
        r == text_color(bg),
{
    let candidates = vec![Color { r: 0, g: 0, b: 0 }, Color { r: 255, g: 255, b: 255 }];
    let r = bg.best_contrast(&candidates);
    proof {
        let k = choose|k: int| is_first_best(bg, candidates@, k) && r == candidates@[k];
        assert(k == 0 || k == 1);
    }
    r
}

/// How the colors go on the terminal.
#[derive(Clone, Copy, Debug, PartialEq, Eq, Structural)]
pub enum RenderMode {
    /// One line of labelled swatches.
    InlineList,
    /// A grid of colored squares with their labels.
    GridCanvas,
}

/// The colors of one picture and how to show them.
pub struct ColorsCanvas {
    pub colors: Vec<Color>,
    /// Draw a grid of squares rather than an inline list.
    pub show_canvas: bool,
    /// Label colors in decimal rather than hexadecimal.
    pub with_rgb: bool,
    /// Produce a text for the clipboard.
    pub clip_colors: bool,
}

impl ColorsCanvas {
    pub fn new(colors: Vec<Color>, sc: bool, wrgb: bool, clip_colors: bool) -> (cv: ColorsCanvas)
        ensures
            cv.colors@ == colors@,
            cv.show_canvas == sc,
            cv.with_rgb == wrgb,
            cv.clip_colors == clip_colors,
    {
        ColorsCanvas { colors, show_canvas: sc, with_rgb: wrgb, clip_colors }
    }

    /// The mode that `display` renders in.
    pub fn mode(&self) -> (m: RenderMode)
        ensures
            m == (if self.show_canvas {
                RenderMode::GridCanvas
            } else {
                RenderMode::InlineList
            }),
    {
        if self.show_canvas {
            RenderMode::GridCanvas
        } else {
            RenderMode::InlineList
        }
    }

    /// The swatches of the colors in order, separated by commas, each label
    /// padded on both sides with `pad`.
    pub fn labelled_swatches(&self, pad: char) -> (line: Vec<Piece>)
        ensures
            models(line@) == inline_line(self.colors@, self.with_rgb, pad),
    {
        let n = self.colors.len();
        let mut line: Vec<Piece> = Vec::new();
        let mut i: usize = 0;
        while i < n
            invariant
                n == self.colors@.len(),
                i <= n,
                models(line@) == inline_line(self.colors@.take(i as int), self.with_rgb, pad),
            decreases n - i,
        {
            let col = self.colors[i];
            let txt_col = label_color(col);
            let mut text = String::new();
            text.push(pad);
            text.append(col.label(self.with_rgb).as_str());
            text.push(pad);
            let ghost before = models(line@);
            if i > 0 {
                proof {
                    reveal_strlit(",");
                }
                let comma = Piece::plain(String::from_str(","), false);
                assert(comma@ == comma_piece()) by {
                    assert(","@ =~= seq![',']);
                }
                push_piece(&mut line, comma);
            }
            push_piece(&mut line, Piece::colored(text, txt_col, col, true));
            proof {
                let cs = self.colors@.take(i + 1);
                let prev = self.colors@.take(i as int);
                let want = inline_line(cs, self.with_rgb, pad);
                assert(text@ == seq![pad] + label_text(col, self.with_rgb) + seq![pad]);
                assert(inline_len(cs.len()) == 2 * i + 1);
                assert(forall|p: int| 0 <= p < 2 * i - 1 ==> p / 2 < i && #[trigger] want[p] == inline_line(prev, self.with_rgb, pad)[p]);
                assert((2 * i) as int / 2 == i);
                assert(i > 0 ==> (2 * i - 1) as int % 2 == 1);
                if i > 0 {
                    assert(models(line@) == before.push(comma_piece()).push(swatch_piece(col, self.with_rgb, pad)));
                } else {
                    assert(models(line@) == before.push(swatch_piece(col, self.with_rgb, pad)));
                }
                assert(models(line@) =~= want);
            }
            i = i + 1;
        }
        assert(self.colors@.take(n as int) =~= self.colors@);
        line
    }

    /// The inline list as printed on the terminal.
    pub fn print(&self) -> (line: Vec<Piece>)
        ensures
            models(line@) == inline_line(self.colors@, self.with_rgb, INLINE_PAD),
    {
        self.labelled_swatches(INLINE_PAD)
    }

    /// The grid of squares for a terminal `term_width` columns wide, one
    /// vector of pieces per line.
    pub fn draw(&self, term_width: u16) -> (lines: Vec<Vec<Piece>>)
        requires
            self.colors@.len() <= usize::MAX / 16,
        ensures
            shows_grid(lines@, self.colors@, self.with_rgb, term_width as nat),
    {
        grid_lines(&self.colors, self.with_rgb, term_width)
    }

    /// What goes on the terminal, one vector of pieces per line: the grid
    /// when it was asked for, else the inline list on a line of its own.
    pub fn display(&self, term_width: u16) -> (lines: Vec<Vec<Piece>>)
        requires
            self.colors@.len() <= usize::MAX / 16,
        ensures
            self.show_canvas ==> shows_grid(lines@, self.colors@, self.with_rgb, term_width as nat),
            !self.show_canvas ==> lines@.len() == 1 && models(lines@[0]@) == inline_line(
                self.colors@,
                self.with_rgb,
                INLINE_PAD,
            ),
    {
        match self.mode() {
            RenderMode::GridCanvas => self.draw(term_width),
            RenderMode::InlineList => {
                let mut lines: Vec<Vec<Piece>> = Vec::new();
                lines.push(self.print());
                lines
            },
        }
    }

    /// The inline list as styled fragments for a text UI.
    pub fn tui_text(&self) -> (line: Vec<Piece>)
        ensures
            models(line@) == inline_line(self.colors@, self.with_rgb, FRAGMENT_PAD),
    {
        self.labelled_swatches(FRAGMENT_PAD)
    }

    /// The labels joined by commas, when a clipboard text was asked for.
    pub fn colors_clipboarded(&self) -> (r: Option<String>)
        ensures
            r.is_some() == self.clip_colors,
            r.is_some() ==> r.unwrap()@ == joined_labels(self.colors@, self.with_rgb),
    {
        if !self.clip_colors {
            return None;
        }
        let n = self.colors.len();
        let mut text = String::new();
        let mut i: usize = 0;
        while i < n
            invariant
                n == self.colors@.len(),
                i <= n,
                text@ == joined_labels(self.colors@.take(i as int), self.with_rgb),
            decreases n - i,
        {
            if i > 0 {
                text.push(',');
            }
            text.append(self.colors[i].label(self.with_rgb).as_str());
            proof {
                let cs = self.colors@.take(i + 1);
                assert(cs.drop_last() =~= self.colors@.take(i as int));
                assert(text@ =~= joined_labels(cs, self.with_rgb));
            }
            i = i + 1;
        }
        assert(self.colors@.take(n as int) =~= self.colors@);
        Some(text)
    }
}

} // verus!

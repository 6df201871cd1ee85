use vstd::prelude::*;
use crate::color::Color;

verus! {

/// What a piece of output looks like: its text, foreground and background
/// colors (`None`: the terminal's own) and whether it is bold.
pub type PieceModel = (Seq<char>, Option<Color>, Option<Color>, bool);

/// One run of text with a single style.
#[derive(Clone, Debug, PartialEq, Eq)]
pub struct Piece {
    pub text: String,
    pub fg: Option<Color>,
    pub bg: Option<Color>,
    pub bold: bool,
}

impl View for Piece {
    type V = PieceModel;

    open spec fn view(&self) -> PieceModel {
        (self.text@, self.fg, self.bg, self.bold)
    }
}

/// The models of a sequence of pieces.
pub open spec fn models(v: Seq<Piece>) -> Seq<PieceModel> {
    v.map_values(|p: Piece| p@)
}

/// Unstyled text.
pub open spec fn plain(text: Seq<char>) -> PieceModel {
    (text, None, None, false)
}

impl Piece {
    /// A piece of text in the terminal's own colors.
    pub fn plain(text: String, bold: bool) -> (p: Piece)
        ensures
            p@ == (text@, None::<Color>, None::<Color>, bold),
    {
        Piece { text, fg: None, bg: None, bold }
    }

    /// A piece of text with the given foreground and background.
    pub fn colored(text: String, fg: Color, bg: Color, bold: bool) -> (p: Piece)
        ensures
            p@ == (text@, Some(fg), Some(bg), bold),
    {
        Piece { text, fg: Some(fg), bg: Some(bg), bold }
    }
}

/// Appends a piece to a line, keeping the models in step.
pub fn push_piece(line: &mut Vec<Piece>, p: Piece)
    ensures
        models(final(line)@) == models(old(line)@).push(p@),
{
    line.push(p);
    assert(models(final(line)@) =~= models(old(line)@).push(p@));
}

} // verus!

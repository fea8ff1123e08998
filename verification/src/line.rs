//! Lines of output and the pieces that they are made of.
use crate::text::{decimal, decimal_string};
use vstd::prelude::*;

verus! {

/// How a piece of a line is meant to stand out. A plain rendering ignores it.
#[derive(PartialEq, Eq, Structural, Clone, Copy, Debug)]
pub enum Style {
    /// Running text.
    Plain,
    /// The label in front of a headline value.
    Label,
    /// The name of the kind of a constant-pool entry.
    Kind,
    /// A name that was looked up in the constant pool.
    Bold,
}

/// One piece of a line of output: text with a style, or a floating-point
/// value, given by its IEEE 754 bit pattern and to be shown in decimal.
#[derive(PartialEq, Debug)]
pub enum Piece {
    Text { style: Style, text: String },
    Float(u32),
    Double(u64),
}

/// A piece of a line, as mathematics.
pub enum PieceModel {
    Text { style: Style, text: Seq<char> },
    Float(u32),
    Double(u64),
}

impl View for Piece {
    type V = PieceModel;

    open spec fn view(&self) -> PieceModel {
        match *self {
            Piece::Text { style, text } => PieceModel::Text { style, text: text@ },
            Piece::Float(bits) => PieceModel::Float(bits),
            Piece::Double(bits) => PieceModel::Double(bits),
        }
    }
}

/// Running text.
pub open spec fn plain(text: Seq<char>) -> PieceModel {
    PieceModel::Text { style: Style::Plain, text }
}

/// The label in front of a headline value.
pub open spec fn label(text: Seq<char>) -> PieceModel {
    PieceModel::Text { style: Style::Label, text }
}

/// The name of the kind of a constant-pool entry.
pub open spec fn kind(text: Seq<char>) -> PieceModel {
    PieceModel::Text { style: Style::Kind, text }
}

/// A name that was looked up in the constant pool.
pub open spec fn bold(text: Seq<char>) -> PieceModel {
    PieceModel::Text { style: Style::Bold, text }
}

/// A number in decimal, as running text.
pub open spec fn number(n: nat) -> PieceModel {
    plain(decimal(n))
}

/// One line of output: its pieces from left to right.
#[derive(PartialEq, Debug)]
pub struct Line {
    pub pieces: Vec<Piece>,
}

impl View for Line {
    type V = Seq<PieceModel>;

    open spec fn view(&self) -> Seq<PieceModel> {
        Seq::new(self.pieces@.len(), |i: int| self.pieces@[i]@)
    }
}

/// The models of a list of lines, in order.
pub open spec fn lines_view(lines: Seq<Line>) -> Seq<Seq<PieceModel>> {
    Seq::new(lines.len(), |i: int| lines[i]@)
}

impl Line {
    /// The empty line.
    pub fn new() -> (r: Line)
        ensures
            r@ == Seq::<PieceModel>::empty(),
    {
        let r = Line { pieces: Vec::new() };
        assert(r@ =~= Seq::<PieceModel>::empty());
        r
    }

    /// Adds `text` in style `style` at the end of the line.
    pub fn push(&mut self, style: Style, text: &str)
        ensures
            final(self)@ == old(self)@.push(PieceModel::Text { style, text: text@ }),
    {
        self.pieces.push(Piece::Text { style, text: text.to_owned() });
        assert(self@ =~= old(self)@.push(PieceModel::Text { style, text: text@ }));
    }

    /// Adds `text` in style `style` at the end of the line.
    pub fn push_string(&mut self, style: Style, text: String)
        ensures
            final(self)@ == old(self)@.push(PieceModel::Text { style, text: text@ }),
    {
        self.pieces.push(Piece::Text { style, text });
        assert(self@ =~= old(self)@.push(PieceModel::Text { style, text: text@ }));
    }

    /// Adds `n` in decimal, as running text, at the end of the line.
    pub fn push_number(&mut self, n: usize)
        ensures
            final(self)@ == old(self)@.push(number(n as nat)),
    {
        self.push_string(Style::Plain, decimal_string(n as u64));
    }

    /// Adds the 32-bit floating-point value with the bit pattern `bits` at
    /// the end of the line.
    pub fn push_float(&mut self, bits: u32)
        ensures
            final(self)@ == old(self)@.push(PieceModel::Float(bits)),
    {
        self.pieces.push(Piece::Float(bits));
        assert(self@ =~= old(self)@.push(PieceModel::Float(bits)));
    }

    /// Adds the 64-bit floating-point value with the bit pattern `bits` at
    /// the end of the line.
    pub fn push_double(&mut self, bits: u64)
        ensures
            final(self)@ == old(self)@.push(PieceModel::Double(bits)),
    {
        self.pieces.push(Piece::Double(bits));
        assert(self@ =~= old(self)@.push(PieceModel::Double(bits)));
    }
}

} // verus!

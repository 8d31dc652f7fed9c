use vstd::prelude::*;

verus! {

/// The kind of a lexical token.
#[derive(Clone, Copy, Debug, PartialEq, Eq, Structural)]
pub enum Kind {
    Illegal,
    Eof,
    Ident,
    Int,
    String,
    Char,
    Package,
    Import,
    Fn,
    Pub,
    Let,
    Var,
    Struct,
    Interface,
    Enum,
    Or,
    If,
    Else,
    For,
    Break,
    Continue,
    Return,
    Match,
    Case,
    Taskgroup,
    Spawn,
    True,
    False,
    Nil,
    Error,
    MapKw,
    Chan,
    ColonAssign,
    Colon,
    Semicolon,
    EqualEqual,
    Assign,
    BangEqual,
    Bang,
    Question,
    Comma,
    Dot,
    AmpAmp,
    Amp,
    LParen,
    RParen,
    LBrace,
    RBrace,
    LBracket,
    RBracket,
    PipePipe,
    Pipe,
    PlusAssign,
    Plus,
    MinusAssign,
    Minus,
    StarAssign,
    Star,
    SlashAssign,
    Slash,
    PercentAssign,
    Percent,
    LessEqual,
    Less,
    GreaterEqual,
    Greater,
}

/// A source position: file name, 1-based line and 1-based column.
#[derive(Clone, Debug, Default, PartialEq, Eq)]
pub struct Position {
    pub file: String,
    pub line: usize,
    pub column: usize,
}

/// A lexical token with its kind, decoded text and start position.
#[derive(Clone, Debug, PartialEq, Eq)]
pub struct Token {
    pub kind: Kind,
    pub text: String,
    pub pos: Position,
}

/// The mathematical value of a position.
pub struct PositionView {
    pub file: Seq<char>,
    pub line: nat,
    pub column: nat,
}

impl View for Position {
    type V = PositionView;

    open spec fn view(&self) -> PositionView {
        PositionView { file: self.file@, line: self.line as nat, column: self.column as nat }
    }
}

impl Position {
    /// A copy of this position.
    pub fn duplicate(&self) -> (res: Position)
        ensures
            res@ == self@,
    {
        Position { file: self.file.clone(), line: self.line, column: self.column }
    }
}

} // verus!

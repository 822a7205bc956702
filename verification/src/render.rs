//! How tokens and statements are written. What is written comes in pieces:
//! texts, and floats, which are left for the reader of the pieces to format.
use crate::ast::{
    Expression, ExpressionKind, ExpressionKindView, ExpressionView, KeyView, Literal, LiteralView,
    Statement, StatementKind, StatementKindView, StatementView, TableHeaderKind,
};
use crate::token::{
    Literal as TokenLiteral, LiteralView as TokenLiteralView, Radix, StringKind, Token, TokenView,
};
use crate::value::FloatParts;
use vstd::prelude::*;

verus! {

/// A piece of what is written.
#[derive(Debug, PartialEq, Eq)]
pub enum Piece {
    /// A text, to be taken as it is
    Text(String),
    /// A float, to be formatted
    Float(FloatParts),
}

/// The mathematical model of a [`Piece`].
pub enum PieceView {
    Text(Seq<char>),
    Float(FloatParts),
}

impl View for Piece {
    type V = PieceView;

    open spec fn view(&self) -> PieceView {
        match self {
            Piece::Text(text) => PieceView::Text(text@),
            Piece::Float(parts) => PieceView::Float(*parts),
        }
    }
}

/// The models of a sequence of pieces, in order.
pub open spec fn pieces_view(pieces: Seq<Piece>) -> Seq<PieceView> {
    pieces.map_values(|p: Piece| p@)
}

/// One piece of text.
pub open spec fn text(s: Seq<char>) -> Seq<PieceView> {
    seq![PieceView::Text(s)]
}

/// How Rust shows a character: between single quotes, escaped where needed.
pub uninterp spec fn shown_char(c: char) -> Seq<char>;

/// How Rust shows a string: between double quotes, escaped where needed.
pub uninterp spec fn shown_text(s: Seq<char>) -> Seq<char>;

/// `format!("{:?}", c)` for a character.
#[verifier::external_body]
fn show_char(c: char) -> (shown: String)
    ensures
        shown@ == shown_char(c),
{
    format!("{:?}", c)
}

/// `format!("{:?}", s)` for a string.
#[verifier::external_body]
fn show_text(s: &str) -> (shown: String)
    ensures
        shown@ == shown_text(s@),
{
    format!("{:?}", s)
}

/// The character of a digit: `0` to `9`, and then `a` to `z`.
pub open spec fn digit_char(d: int) -> char {
    if d < 10 {
        ('0' as u8 + d) as u8 as char
    } else {
        ('a' as u8 + d - 10) as u8 as char
    }
}

/// The digits of a number in a radix, the highest first, with no leading zero.
pub open spec fn number_text(value: nat, radix: nat) -> Seq<char>
    decreases value,
{
    if radix < 2 || value < radix {
        seq![digit_char(value as int)]
    } else {
        proof {
            assert(value / radix < value) by (nonlinear_arith)
                requires
                    radix >= 2,
                    value >= radix,
            ;
        }
        number_text(value / radix, radix).push(digit_char((value % radix) as int))
    }
}

/// Appends the digits of a number in a radix.
fn push_number(out: &mut String, value: u64, radix: u8)
    requires
        2 <= radix <= 36,
    ensures
        final(out)@ == old(out)@ + number_text(value as nat, radix as nat),
    decreases value,
{
    if value >= radix as u64 {
        proof {
            assert(value / (radix as u64) < value) by (nonlinear_arith)
                requires
                    radix >= 2,
                    value >= radix,
            ;
        }
        push_number(out, value / (radix as u64), radix);
    }
    let d = (value % (radix as u64)) as u8;
    let c = if d < 10 {
        (48u8 + d) as char
    } else {
        (97u8 + d - 10) as char
    };
    out.push(c);
    proof {
        if value < radix as u64 {
            assert(value % (radix as u64) == value) by (nonlinear_arith)
                requires
                    value < radix,
            ;
        }
    }
}

/// The digits of a number in a radix.
pub fn number_to_text(value: u64, radix: u8) -> (shown: String)
    requires
        2 <= radix <= 36,
    ensures
        shown@ == number_text(value as nat, radix as nat),
{
    let mut shown = String::new();
    push_number(&mut shown, value, radix);
    shown
}

/// Appends one piece of text.
fn push_piece(out: &mut Vec<Piece>, piece: Piece)
    ensures
        pieces_view(final(out)@) == pieces_view(old(out)@) + seq![piece@],
{
    out.push(piece);
}

/// Appends a text that is written in the program.
fn push_str(out: &mut Vec<Piece>, s: &str)
    ensures
        pieces_view(final(out)@) == pieces_view(old(out)@) + text(s@),
{
    push_piece(out, Piece::Text(s.to_owned()));
}

/// How a literal of an expression is written: a character and a string as
/// Rust shows them, an integer in decimal digits, a float as a piece of its own.
pub open spec fn literal_pieces(lit: LiteralView) -> Seq<PieceView> {
    match lit {
        LiteralView::Character(c) => text(shown_char(c)),
        LiteralView::String(s) => text(shown_text(s)),
        LiteralView::Integer(i) => text(number_text(i as nat, 10)),
        LiteralView::Float(f) => seq![PieceView::Float(f)],
    }
}

/// How the elements of an array are written: one after the other, with a
/// comma and a blank between them.
pub open spec fn items_pieces<L>(items: Seq<ExpressionView<L>>) -> Seq<PieceView>
    decreases items,
{
    if items.len() == 0 {
        Seq::empty()
    } else if items.len() == 1 {
        expression_pieces(items.last())
    } else {
        items_pieces(items.drop_last()) + text(", "@) + expression_pieces(items.last())
    }
}

/// How the elements of an inline table are written: each as `key = value`,
/// with a comma and a blank between them.
pub open spec fn pairs_pieces<L>(pairs: Seq<(KeyView<L>, ExpressionView<L>)>) -> Seq<PieceView>
    decreases pairs,
{
    if pairs.len() == 0 {
        Seq::empty()
    } else {
        let last = text(pairs.last().0.text()) + text(" = "@) + expression_pieces(pairs.last().1);
        if pairs.len() == 1 {
            last
        } else {
            pairs_pieces(pairs.drop_last()) + text(", "@) + last
        }
    }
}

/// How an expression is written: a literal as such, an array between
/// brackets, an inline table between braces. An expression of a kind that is
/// not handled is written as nothing.
pub open spec fn expression_pieces<L>(expr: ExpressionView<L>) -> Seq<PieceView>
    decreases expr,
{
    match expr.kind {
        ExpressionKindView::Literal(lit) => literal_pieces(lit),
        ExpressionKindView::Array(items) => text("["@) + items_pieces(items) + text("]"@),
        ExpressionKindView::InlineTable(pairs) => text("{"@) + pairs_pieces(pairs) + text("}"@),
        ExpressionKindView::Unknown => Seq::empty(),
    }
}

/// How a statement is written: a binding as `pattern = expression`, a header
/// between brackets, doubled for an array of tables, with its default behind
/// an assign sign if it has one. A statement of a kind that is not handled is
/// written as nothing.
pub open spec fn statement_pieces<L>(stmt: StatementView<L>) -> Seq<PieceView> {
    match stmt.kind {
        StatementKindView::ValueBinding(pattern, expr) => text(pattern.text()) + text(" = "@)
            + expression_pieces(expr),
        StatementKindView::TableHeader(kind, pattern, default) => {
            let open = if kind == TableHeaderKind::Array {
                text("[["@)
            } else {
                text("["@)
            };
            let close = if kind == TableHeaderKind::Array {
                text("]]"@)
            } else {
                text("]"@)
            };
            match default {
                Some(expr) => open + text(pattern.text()) + text(" = "@) + expression_pieces(expr)
                    + close,
                None => open + text(pattern.text()) + close,
            }
        },
        StatementKindView::Unknown => Seq::empty(),
    }
}

impl Literal {
    /// Appends the pieces that the literal is written as.
    pub fn render(&self, out: &mut Vec<Piece>)
        ensures
            pieces_view(final(out)@) == pieces_view(old(out)@) + literal_pieces(self@),
    {
        match self {
            Literal::Character(c) => push_piece(out, Piece::Text(show_char(*c))),
            Literal::String(s) => push_piece(out, Piece::Text(show_text(s.as_str()))),
            Literal::Integer(i) => push_piece(out, Piece::Text(number_to_text(*i, 10))),
            Literal::Float(f) => push_piece(out, Piece::Float(*f)),
        }
    }
}

impl<L> Expression<L> {
    /// Appends the pieces that the expression is written as.
    pub fn render(&self, out: &mut Vec<Piece>)
        ensures
            pieces_view(final(out)@) == pieces_view(old(out)@) + expression_pieces(self@),
        decreases self,
    {
        let ghost before = pieces_view(out@);
        match &self.kind {
            ExpressionKind::Literal(lit) => {
                lit.render(out);
            },
            ExpressionKind::Array(arr) => {
                let ghost items = self@.kind->Array_0;
                push_str(out, "[");
                let mut i: usize = 0;
                while i < arr.len()
                    invariant
                        i <= arr.len(),
                        self.kind is Array && self.kind->Array_0 == *arr,
                        items == self@.kind->Array_0,
                        items.len() == arr.len(),
                        pieces_view(out@) == before + text("["@) + items_pieces(
                            items.take(i as int),
                        ),
                    decreases arr.len() - i,
                {
                    proof {
                        assert(items.take(i + 1).drop_last() =~= items.take(i as int));
                    }
                    if i > 0 {
                        push_str(out, ", ");
                    }
                    arr[i].render(out);
                    i += 1;
                }
                proof {
                    assert(items.take(arr.len() as int) =~= items);
                }
                push_str(out, "]");
            },
            ExpressionKind::InlineTable(arr) => {
                let ghost pairs = self@.kind->InlineTable_0;
                push_str(out, "{");
                let mut i: usize = 0;
                while i < arr.len()
                    invariant
                        i <= arr.len(),
                        self.kind is InlineTable && self.kind->InlineTable_0 == *arr,
                        pairs == self@.kind->InlineTable_0,
                        pairs.len() == arr.len(),
                        pieces_view(out@) == before + text("{"@) + pairs_pieces(
                            pairs.take(i as int),
                        ),
                    decreases arr.len() - i,
                {
                    proof {
                        assert(pairs.take(i + 1).drop_last() =~= pairs.take(i as int));
                    }
                    if i > 0 {
                        push_str(out, ", ");
                    }
                    push_piece(out, Piece::Text(arr[i].0.to_text()));
                    push_str(out, " = ");
                    arr[i].1.render(out);
                    proof {
                        let front = pairs_pieces(pairs.take(i as int));
                        let last = text(arr@[i as int].0@.text()) + text(" = "@)
                            + expression_pieces(arr@[i as int].1@);
                        if i > 0 {
                            assert(pieces_view(out@) =~= before + text("{"@) + (front + text(
                                ", "@,
                            ) + last));
                        } else {
                            assert(pieces_view(out@) =~= before + text("{"@) + last);
                        }
                    }
                    i += 1;
                }
                proof {
                    assert(pairs.take(arr.len() as int) =~= pairs);
                }
                push_str(out, "}");
            },
            ExpressionKind::Unknown => {},
        }
    }
}

impl<L> Statement<L> {
    /// The pieces that the statement is written as.
    pub fn render(&self) -> (out: Vec<Piece>)
        ensures
            pieces_view(out@) == statement_pieces(self@),
    {
        let mut out: Vec<Piece> = Vec::new();
        match &self.kind {
            StatementKind::ValueBinding(pattern, expr) => {
                push_piece(&mut out, Piece::Text(pattern.to_text()));
                push_str(&mut out, " = ");
                expr.render(&mut out);
            },
            StatementKind::TableHeader(kind, pattern, default) => {
                match kind {
                    TableHeaderKind::Normal => push_str(&mut out, "["),
                    TableHeaderKind::Array => push_str(&mut out, "[["),
                }
                push_piece(&mut out, Piece::Text(pattern.to_text()));
                match default {
                    Some(expr) => {
                        push_str(&mut out, " = ");
                        expr.render(&mut out);
                    },
                    None => {},
                }
                match kind {
                    TableHeaderKind::Normal => push_str(&mut out, "]"),
                    TableHeaderKind::Array => push_str(&mut out, "]]"),
                }
            },
            StatementKind::Unknown => {},
        }
        out
    }
}

/// A text repeated `n` times.
pub open spec fn repeated(s: Seq<char>, n: nat) -> Seq<char>
    decreases n,
{
    if n == 0 {
        Seq::empty()
    } else {
        repeated(s, (n - 1) as nat) + s
    }
}

/// How a literal token is written: an integer in the digits of its radix
/// behind `0b` for a binary and `0o` for an octal as well as for a
/// hexadecimal one; a float as a piece of its own; a character and a normal
/// string as Rust shows them; a raw string as Rust shows it, between one
/// double quote less than it was written with on either side.
pub open spec fn token_literal_pieces(lit: TokenLiteralView) -> Seq<PieceView> {
    match lit {
        TokenLiteralView::Integer(i, Radix::Binary) => text("0b"@ + number_text(i as nat, 2)),
        TokenLiteralView::Integer(i, Radix::Octal) => text("0o"@ + number_text(i as nat, 8)),
        TokenLiteralView::Integer(i, Radix::Hexadecimal) => text(
            "0o"@ + number_text(i as nat, 16),
        ),
        TokenLiteralView::Integer(i, Radix::Decimal) => text(number_text(i as nat, 10)),
        TokenLiteralView::Float(f) => seq![PieceView::Float(f)],
        TokenLiteralView::Character(c) => text(shown_char(c)),
        TokenLiteralView::String(s, StringKind::Normal) => text(shown_text(s)),
        TokenLiteralView::String(s, StringKind::Raw(n)) => text(
            repeated(seq!['"'], (n - 1) as nat) + shown_text(s) + repeated(
                seq!['"'],
                (n - 1) as nat,
            ),
        ),
    }
}

/// How a token is written: a line break as `newline`, blanks as
/// `whitespaces`, a comment behind `// `, and the others as they are written.
pub open spec fn token_pieces(token: TokenView) -> Seq<PieceView> {
    match token {
        TokenView::Newline => text("newline"@),
        TokenView::Whitespaces => text("whitespaces"@),
        TokenView::Comment(comment) => text("// "@ + comment),
        TokenView::Symbol(symbol) => text(symbol.text()),
        TokenView::Identifier(ident) => text(ident.text()),
        TokenView::Literal(lit) => token_literal_pieces(lit),
    }
}

/// Appends a text `n` times.
fn push_repeated(out: &mut String, s: &str, n: usize)
    ensures
        final(out)@ == old(out)@ + repeated(s@, n as nat),
{
    let mut i: usize = 0;
    while i < n
        invariant
            i <= n,
            out@ == old(out)@ + repeated(s@, i as nat),
        decreases n - i,
    {
        crate::scan::push_text(out, s);
        i += 1;
    }
}

impl TokenLiteral {
    /// The pieces that the literal is written as. A raw string is written
    /// with one double quote less than it was read with, so it has to have
    /// been read with one at least.
    pub fn render(&self) -> (out: Vec<Piece>)
        requires
            !(self@ matches TokenLiteralView::String(_, StringKind::Raw(n)) && n == 0),
        ensures
            pieces_view(out@) == token_literal_pieces(self@),
    {
        let mut out: Vec<Piece> = Vec::new();
        match self {
            TokenLiteral::Integer(i, radix) => {
                let mut shown = String::new();
                let base: u8 = match radix {
                    Radix::Binary => {
                        crate::scan::push_text(&mut shown, "0b");
                        2
                    },
                    Radix::Octal => {
                        crate::scan::push_text(&mut shown, "0o");
                        8
                    },
                    Radix::Hexadecimal => {
                        crate::scan::push_text(&mut shown, "0o");
                        16
                    },
                    Radix::Decimal => 10,
                };
                let digits = number_to_text(*i, base);
                crate::scan::push_text(&mut shown, digits.as_str());
                push_piece(&mut out, Piece::Text(shown));
            },
            TokenLiteral::Float(f) => push_piece(&mut out, Piece::Float(*f)),
            TokenLiteral::Character(c) => push_piece(&mut out, Piece::Text(show_char(*c))),
            TokenLiteral::String(s, StringKind::Normal) => push_piece(
                &mut out,
                Piece::Text(show_text(s.as_str())),
            ),
            TokenLiteral::String(s, StringKind::Raw(n)) => {
                let quotes = (*n - 1) as usize;
                let mut shown = String::new();
                proof {
                    reveal_strlit("\"");
                    assert("\""@ =~= seq!['"']);
                }
                push_repeated(&mut shown, "\"", quotes);
                let inner = show_text(s.as_str());
                crate::scan::push_text(&mut shown, inner.as_str());
                push_repeated(&mut shown, "\"", quotes);
                push_piece(&mut out, Piece::Text(shown));
            },
        }
        out
    }
}

impl Token {
    /// The pieces that the token is written as.
    pub fn render(&self) -> (out: Vec<Piece>)
        requires
            !(self@ matches TokenView::Literal(TokenLiteralView::String(_, StringKind::Raw(n)))
                && n == 0),
        ensures
            pieces_view(out@) == token_pieces(self@),
    {
        match self {
            Token::Literal(lit) => lit.render(),
            _ => {
                let mut out: Vec<Piece> = Vec::new();
                match self {
                    Token::Newline => push_str(&mut out, "newline"),
                    Token::Whitespaces => push_str(&mut out, "whitespaces"),
                    Token::Comment(comment) => {
                        let mut shown = String::new();
                        crate::scan::push_text(&mut shown, "// ");
                        crate::scan::push_text(&mut shown, comment.as_str());
                        push_piece(&mut out, Piece::Text(shown));
                    },
                    Token::Symbol(symbol) => push_piece(&mut out, Piece::Text(symbol.to_text())),
                    Token::Identifier(ident) => push_piece(&mut out, Piece::Text(ident.to_text())),
                    Token::Literal(_) => {},
                }
                out
            },
        }
    }
}

} // verus!

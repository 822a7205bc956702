//! Token types
use crate::scan::push_text;
use crate::value::FloatParts;
use vstd::prelude::*;

verus! {

/// Kinds of symbols
#[derive(Copy, Clone, Debug, PartialEq, Eq, Structural)]
pub enum Symbol {
    /// An assign sign (`=`, `U+003D`)
    Assign,
    /// A comma (`,`, `U+002C`)
    Comma,
    /// A dot (`.`, `U+002E`)
    Dot,
    /// A backslash (`\`, `U+005C`)
    BackSlash,
    /// An underscore (`_`, `U+005F`)
    Underscore,
    /// An at mark (`@`, `U+0040`)
    At,
    /// An opening side of brackets (`[`, `U+005B`)
    OpenBracket,
    /// A closing side of brackets (`]`, `U+005D`)
    CloseBracket,
    /// A opening side of braces (`{`, `U+007B`)
    OpenBrace,
    /// A closing side of braces (`}`, `U+007D`)
    CloseBrace,
}

impl View for Symbol {
    type V = Symbol;

    open spec fn view(&self) -> Symbol {
        *self
    }
}

impl Symbol {
    /// The character that the symbol is written as.
    pub open spec fn text(self) -> Seq<char> {
        match self {
            Symbol::Assign => seq!['='],
            Symbol::Comma => seq![','],
            Symbol::Dot => seq!['.'],
            Symbol::BackSlash => seq!['\\'],
            Symbol::Underscore => seq!['_'],
            Symbol::At => seq!['@'],
            Symbol::OpenBracket => seq!['['],
            Symbol::CloseBracket => seq![']'],
            Symbol::OpenBrace => seq!['{'],
            Symbol::CloseBrace => seq!['}'],
        }
    }

    /// The character that the symbol is written as.
    pub fn to_char(self) -> (c: char)
        ensures
            seq![c] == self.text(),
    {
        match self {
            Symbol::Assign => '=',
            Symbol::Comma => ',',
            Symbol::Dot => '.',
            Symbol::BackSlash => '\\',
            Symbol::Underscore => '_',
            Symbol::At => '@',
            Symbol::OpenBracket => '[',
            Symbol::CloseBracket => ']',
            Symbol::OpenBrace => '{',
            Symbol::CloseBrace => '}',
        }
    }

    /// The symbol as it is written.
    pub fn to_text(self) -> (text: String)
        ensures
            text@ == self.text(),
    {
        let mut text = String::new();
        let c = self.to_char();
        text.push(c);
        text
    }
}

/// Kinds of identifiers
#[derive(Copy, Clone, Debug, PartialEq, Eq, Structural)]
pub enum IdentifierKind {
    /// A bare key
    Bare,
    /// A raw key
    Raw,
}

/// Identifiers
#[derive(Debug, PartialEq, Eq)]
pub struct Identifier {
    /// A kind of identifier
    pub kind: IdentifierKind,
    /// A name of identifier
    pub name: String,
}

/// The mathematical model of an [`Identifier`].
pub struct IdentifierView {
    pub kind: IdentifierKind,
    pub name: Seq<char>,
}

impl View for Identifier {
    type V = IdentifierView;

    open spec fn view(&self) -> IdentifierView {
        IdentifierView { kind: self.kind, name: self.name@ }
    }
}

/// What `str::escape_debug` makes of a text: the text with the characters
/// escaped that Rust escapes when it shows a string.
pub uninterp spec fn escaped_debug(text: Seq<char>) -> Seq<char>;

/// `str::escape_debug`, collected into a string.
#[verifier::external_body]
fn escape_debug(text: &str) -> (escaped: String)
    ensures
        escaped@ == escaped_debug(text@),
{
    text.escape_debug().to_string()
}

/// The text with a backslash before each opening brace.
pub open spec fn braces_escaped(text: Seq<char>) -> Seq<char>
    decreases text.len(),
{
    if text.len() == 0 {
        text
    } else if text.last() == '{' {
        braces_escaped(text.drop_last()).push('\\').push('{')
    } else {
        braces_escaped(text.drop_last()).push(text.last())
    }
}

/// Puts a backslash before each opening brace.
fn escape_braces(text: &str) -> (escaped: String)
    ensures
        escaped@ == braces_escaped(text@),
{
    let mut escaped = String::new();
    for c in it: text.chars()
        invariant
            it.seq() == text@,
            escaped@ == braces_escaped(it.seq().take(it.index() as int)),
    {
        proof {
            assert(it.seq().take(it.index() + 1).drop_last() =~= it.seq().take(it.index() as int));
        }
        if c == '{' {
            escaped.push('\\');
        }
        escaped.push(c);
    }
    assert(text@.take(text@.len() as int) =~= text@);
    escaped
}

impl IdentifierView {
    /// The identifier as it is written: a bare key as its name, a raw key
    /// between `${` and `}`, with its name escaped as Rust escapes a string
    /// that it shows, and a backslash before each opening brace.
    pub open spec fn text(self) -> Seq<char> {
        match self.kind {
            IdentifierKind::Bare => self.name,
            IdentifierKind::Raw => seq!['$', '{'] + braces_escaped(escaped_debug(self.name))
                + seq!['}'],
        }
    }
}

impl Identifier {
    /// The identifier as it is written.
    pub fn to_text(&self) -> (text: String)
        ensures
            text@ == self@.text(),
    {
        match self.kind {
            IdentifierKind::Bare => self.name.clone(),
            IdentifierKind::Raw => {
                let mut text = String::new();
                text.push('$');
                text.push('{');
                assert(text@ =~= seq!['$', '{']);
                let inner = escape_braces(escape_debug(self.name.as_str()).as_str());
                push_text(&mut text, inner.as_str());
                text.push('}');
                text
            },
        }
    }
}

/// Radixes of integers
#[derive(Copy, Clone, Debug, PartialEq, Eq, Structural)]
pub enum Radix {
    /// A binary integer starts with `0b`
    Binary,
    /// A octal integer starts with `0o`
    Octal,
    /// A hexadecimal integer starts with `0x`
    Hexadecimal,
    /// A decimal integer with no prefix
    Decimal,
}

/// Kinds of strings
#[derive(Copy, Clone, Debug, PartialEq, Eq, Structural)]
pub enum StringKind {
    /// A normal string surrounded by `""`
    Normal,
    /// A raw string surrounded by `"""""""` or more quotes
    Raw(u8),
}

impl View for StringKind {
    type V = StringKind;

    open spec fn view(&self) -> StringKind {
        *self
    }
}

impl View for Radix {
    type V = Radix;

    open spec fn view(&self) -> Radix {
        *self
    }
}

/// Literal values
#[derive(Debug, PartialEq)]
pub enum Literal {
    /// An integer
    Integer(u64, Radix),
    /// An floating point decimal
    Float(FloatParts),
    /// A character
    Character(char),
    /// A string
    String(String, StringKind),
}

/// The mathematical model of a [`Literal`].
pub enum LiteralView {
    Integer(u64, Radix),
    Float(FloatParts),
    Character(char),
    String(Seq<char>, StringKind),
}

impl View for Literal {
    type V = LiteralView;

    open spec fn view(&self) -> LiteralView {
        match self {
            Literal::Integer(value, radix) => LiteralView::Integer(*value, *radix),
            Literal::Float(parts) => LiteralView::Float(*parts),
            Literal::Character(c) => LiteralView::Character(*c),
            Literal::String(s, kind) => LiteralView::String(s@, *kind),
        }
    }
}

/// Values of tokens
#[derive(Debug, PartialEq)]
pub enum Token {
    /// A line break
    Newline,
    /// A sequence of whitespaces
    Whitespaces,
    /// A comment
    Comment(String),
    /// A symbol
    Symbol(Symbol),
    /// An identifier
    Identifier(Identifier),
    /// A literal
    Literal(Literal),
}

impl Clone for Identifier {
    fn clone(&self) -> (r: Self)
        ensures
            r@ == self@,
    {
        Identifier { kind: self.kind, name: self.name.clone() }
    }
}

impl Clone for Literal {
    fn clone(&self) -> (r: Self)
        ensures
            r@ == self@,
    {
        match self {
            Literal::Integer(value, radix) => Literal::Integer(*value, *radix),
            Literal::Float(parts) => Literal::Float(*parts),
            Literal::Character(c) => Literal::Character(*c),
            Literal::String(s, kind) => Literal::String(s.clone(), *kind),
        }
    }
}

impl Clone for Token {
    fn clone(&self) -> (r: Self)
        ensures
            r@ == self@,
    {
        match self {
            Token::Newline => Token::Newline,
            Token::Whitespaces => Token::Whitespaces,
            Token::Comment(text) => Token::Comment(text.clone()),
            Token::Symbol(symbol) => Token::Symbol(*symbol),
            Token::Identifier(ident) => Token::Identifier(ident.clone()),
            Token::Literal(lit) => Token::Literal(lit.clone()),
        }
    }
}

/// The mathematical model of a [`Token`].
pub enum TokenView {
    Newline,
    Whitespaces,
    Comment(Seq<char>),
    Symbol(Symbol),
    Identifier(IdentifierView),
    Literal(LiteralView),
}

impl View for Token {
    type V = TokenView;

    open spec fn view(&self) -> TokenView {
        match self {
            Token::Newline => TokenView::Newline,
            Token::Whitespaces => TokenView::Whitespaces,
            Token::Comment(text) => TokenView::Comment(text@),
            Token::Symbol(symbol) => TokenView::Symbol(*symbol),
            Token::Identifier(ident) => TokenView::Identifier(ident@),
            Token::Literal(lit) => TokenView::Literal(lit@),
        }
    }
}

} // verus!

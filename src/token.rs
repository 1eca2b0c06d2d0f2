use vstd::prelude::*;
use vstd::string::StrSliceExecFns;
use vstd::string::StringExecFns;

verus! {

/// The lexical categories of the language.
#[derive(Debug, Clone, Copy, PartialEq, Eq, Structural)]
pub enum TokenKind {
    Illegal,
    /// End of input.
    EOF,
    // identifiers and literals
    Ident,
    Int,
    // operators
    Assign,
    Plus,
    Minus,
    Bang,
    Asterisk,
    Slash,
    LT,
    GT,
    EQ,
    NotEQ,
    // delimiters
    Comma,
    Semicolon,
    LParen,
    RParen,
    LBrace,
    RBrace,
    // keywords
    Function,
    Let,
    True,
    False,
    If,
    Else,
    Return,
}

/// A classified lexical unit together with the exact source text it came from.
#[derive(Debug, Clone, PartialEq)]
pub struct Token {
    pub kind: TokenKind,
    pub literal: String,
}

/// The mathematical value of a token.
pub struct SpecToken {
    pub kind: TokenKind,
    pub literal: Seq<char>,
}

impl View for Token {
    type V = SpecToken;

    open spec fn view(&self) -> SpecToken {
        SpecToken { kind: self.kind, literal: self.literal@ }
    }
}

impl Token {
    /// A copy of this token, with the same kind and text.
    pub fn duplicate(&self) -> (t: Token)
        ensures
            t@ == self@,
    {
        Token { kind: self.kind, literal: self.literal.clone() }
    }
}

/// The human-readable text of a token kind: the symbol of an operator or
/// delimiter, the name of any other kind.
pub open spec fn kind_text(kind: TokenKind) -> Seq<char> {
    match kind {
        TokenKind::Illegal => "Illegal"@,
        TokenKind::EOF => "Eof"@,
        TokenKind::Ident => "Ident"@,
        TokenKind::Int => "Int"@,
        TokenKind::Assign => "="@,
        TokenKind::Plus => "+"@,
        TokenKind::Minus => "-"@,
        TokenKind::Bang => "!"@,
        TokenKind::Asterisk => "*"@,
        TokenKind::Slash => "/"@,
        TokenKind::LT => "<"@,
        TokenKind::GT => ">"@,
        TokenKind::EQ => "=="@,
        TokenKind::NotEQ => "!="@,
        TokenKind::Comma => ","@,
        TokenKind::Semicolon => ";"@,
        TokenKind::LParen => "("@,
        TokenKind::RParen => ")"@,
        TokenKind::LBrace => "{"@,
        TokenKind::RBrace => "}"@,
        TokenKind::Function => "Function"@,
        TokenKind::Let => "Let"@,
        TokenKind::True => "True"@,
        TokenKind::False => "False"@,
        TokenKind::If => "If"@,
        TokenKind::Else => "Else"@,
        TokenKind::Return => "Return"@,
    }
}

/// The name of a token kind, as written in the enum.
pub open spec fn kind_name(kind: TokenKind) -> Seq<char> {
    match kind {
        TokenKind::Illegal => "Illegal"@,
        TokenKind::EOF => "EOF"@,
        TokenKind::Ident => "Ident"@,
        TokenKind::Int => "Int"@,
        TokenKind::Assign => "Assign"@,
        TokenKind::Plus => "Plus"@,
        TokenKind::Minus => "Minus"@,
        TokenKind::Bang => "Bang"@,
        TokenKind::Asterisk => "Asterisk"@,
        TokenKind::Slash => "Slash"@,
        TokenKind::LT => "LT"@,
        TokenKind::GT => "GT"@,
        TokenKind::EQ => "EQ"@,
        TokenKind::NotEQ => "NotEQ"@,
        TokenKind::Comma => "Comma"@,
        TokenKind::Semicolon => "Semicolon"@,
        TokenKind::LParen => "LParen"@,
        TokenKind::RParen => "RParen"@,
        TokenKind::LBrace => "LBrace"@,
        TokenKind::RBrace => "RBrace"@,
        TokenKind::Function => "Function"@,
        TokenKind::Let => "Let"@,
        TokenKind::True => "True"@,
        TokenKind::False => "False"@,
        TokenKind::If => "If"@,
        TokenKind::Else => "Else"@,
        TokenKind::Return => "Return"@,
    }
}

impl TokenKind {
    /// The name of this kind, as written in the enum.
    pub fn name(&self) -> (r: String)
        ensures
            r@ == kind_name(*self),
    {
        let s: &str = match self {
            TokenKind::Illegal => "Illegal",
            TokenKind::EOF => "EOF",
            TokenKind::Ident => "Ident",
            TokenKind::Int => "Int",
            TokenKind::Assign => "Assign",
            TokenKind::Plus => "Plus",
            TokenKind::Minus => "Minus",
            TokenKind::Bang => "Bang",
            TokenKind::Asterisk => "Asterisk",
            TokenKind::Slash => "Slash",
            TokenKind::LT => "LT",
            TokenKind::GT => "GT",
            TokenKind::EQ => "EQ",
            TokenKind::NotEQ => "NotEQ",
            TokenKind::Comma => "Comma",
            TokenKind::Semicolon => "Semicolon",
            TokenKind::LParen => "LParen",
            TokenKind::RParen => "RParen",
            TokenKind::LBrace => "LBrace",
            TokenKind::RBrace => "RBrace",
            TokenKind::Function => "Function",
            TokenKind::Let => "Let",
            TokenKind::True => "True",
            TokenKind::False => "False",
            TokenKind::If => "If",
            TokenKind::Else => "Else",
            TokenKind::Return => "Return",
        };
        String::from_str(s)
    }

    /// The text of this kind, as used in diagnostics.
    pub fn text(&self) -> (r: String)
        ensures
            r@ == kind_text(*self),
    {
        let s: &str = match self {
            TokenKind::Illegal => "Illegal",
            TokenKind::EOF => "Eof",
            TokenKind::Ident => "Ident",
            TokenKind::Int => "Int",
            TokenKind::Assign => "=",
            TokenKind::Plus => "+",
            TokenKind::Minus => "-",
            TokenKind::Bang => "!",
            TokenKind::Asterisk => "*",
            TokenKind::Slash => "/",
            TokenKind::LT => "<",
            TokenKind::GT => ">",
            TokenKind::EQ => "==",
            TokenKind::NotEQ => "!=",
            TokenKind::Comma => ",",
            TokenKind::Semicolon => ";",
            TokenKind::LParen => "(",
            TokenKind::RParen => ")",
            TokenKind::LBrace => "{",
            TokenKind::RBrace => "}",
            TokenKind::Function => "Function",
            TokenKind::Let => "Let",
            TokenKind::True => "True",
            TokenKind::False => "False",
            TokenKind::If => "If",
            TokenKind::Else => "Else",
            TokenKind::Return => "Return",
        };
        String::from_str(s)
    }
}

/// The kind of a letter run: the reserved kind of a keyword, else `Ident`.
pub open spec fn keyword_kind(word: Seq<char>) -> TokenKind {
    if word == "fn"@ {
        TokenKind::Function
    } else if word == "let"@ {
        TokenKind::Let
    } else if word == "true"@ {
        TokenKind::True
    } else if word == "false"@ {
        TokenKind::False
    } else if word == "if"@ {
        TokenKind::If
    } else if word == "else"@ {
        TokenKind::Else
    } else if word == "return"@ {
        TokenKind::Return
    } else {
        TokenKind::Ident
    }
}

/// Whether two strings hold the same characters.
pub fn same_text(a: &str, b: &str) -> (r: bool)
    ensures
        r == (a@ == b@),
{
    let n = a.unicode_len();
    if n != b.unicode_len() {
        return false;
    }
    let mut i: usize = 0;
    while i < n
        invariant
            n == a@.len(),
            n == b@.len(),
            i <= n,
            forall|j: int| 0 <= j < i ==> a@[j] == b@[j],
        decreases n - i,
    {
        if a.get_char(i) != b.get_char(i) {
            return false;
        }
        i = i + 1;
    }
    assert(a@ =~= b@);
    true
}

/// Classifies an identifier: a keyword gets its reserved kind, any other
/// word is `Ident`.
pub fn lookup_keywords(identifier: &str) -> (kind: TokenKind)
    ensures
        kind == keyword_kind(identifier@),
{
    if same_text(identifier, "fn") {
        TokenKind::Function
    } else if same_text(identifier, "let") {
        TokenKind::Let
    } else if same_text(identifier, "true") {
        TokenKind::True
    } else if same_text(identifier, "false") {
        TokenKind::False
    } else if same_text(identifier, "if") {
        TokenKind::If
    } else if same_text(identifier, "else") {
        TokenKind::Else
    } else if same_text(identifier, "return") {
        TokenKind::Return
    } else {
        TokenKind::Ident
    }
}

} // verus!

use vstd::prelude::*;
use vstd::string::StrSliceExecFns;
use crate::token::{keyword_kind, lookup_keywords, SpecToken, Token, TokenKind};

verus! {

/// Relies on `String::push`: the character is appended at the end.
pub assume_specification[ String::push ](string: &mut String, ch: char)
    ensures
        final(string)@ == old(string)@.push(ch),
;

pub open spec fn spec_is_letter(c: char) -> bool {
    ('a' <= c && c <= 'z') || ('A' <= c && c <= 'Z') || c == '_'
}

pub open spec fn spec_is_digit(c: char) -> bool {
    '0' <= c && c <= '9'
}

/// Space, tab, newline and carriage return separate tokens.
pub open spec fn spec_is_space(c: char) -> bool {
    c == ' ' || c == '\t' || c == '\n' || c == '\r'
}

/// The kind of a character that is a token on its own.
pub open spec fn single_char_kind(c: char) -> Option<TokenKind> {
    if c == '=' {
        Some(TokenKind::Assign)
    } else if c == ';' {
        Some(TokenKind::Semicolon)
    } else if c == '(' {
        Some(TokenKind::LParen)
    } else if c == ')' {
        Some(TokenKind::RParen)
    } else if c == ',' {
        Some(TokenKind::Comma)
    } else if c == '+' {
        Some(TokenKind::Plus)
    } else if c == '{' {
        Some(TokenKind::LBrace)
    } else if c == '}' {
        Some(TokenKind::RBrace)
    } else if c == '-' {
        Some(TokenKind::Minus)
    } else if c == '!' {
        Some(TokenKind::Bang)
    } else if c == '*' {
        Some(TokenKind::Asterisk)
    } else if c == '/' {
        Some(TokenKind::Slash)
    } else if c == '<' {
        Some(TokenKind::LT)
    } else if c == '>' {
        Some(TokenKind::GT)
    } else {
        None
    }
}

/// The first position at or after `p` that does not hold white space.
pub open spec fn skip_spaces(s: Seq<char>, p: int) -> int
    decreases s.len() - p,
{
    if 0 <= p < s.len() && spec_is_space(s[p]) {
        skip_spaces(s, p + 1)
    } else {
        p
    }
}

/// The end of the maximal run of letters that starts at `p`.
pub open spec fn letters_end(s: Seq<char>, p: int) -> int
    decreases s.len() - p,
{
    if 0 <= p < s.len() && spec_is_letter(s[p]) {
        letters_end(s, p + 1)
    } else {
        p
    }
}

/// The end of the maximal run of digits that starts at `p`.
pub open spec fn digits_end(s: Seq<char>, p: int) -> int
    decreases s.len() - p,
{
    if 0 <= p < s.len() && spec_is_digit(s[p]) {
        digits_end(s, p + 1)
    } else {
        p
    }
}

/// The token that starts at position `p` of `s` (after white space), and the
/// position just after it.
#[verifier::opaque]
pub open spec fn lex_at(s: Seq<char>, p: int) -> (SpecToken, int) {
    let q = skip_spaces(s, p);
    if q >= s.len() {
        (SpecToken { kind: TokenKind::EOF, literal: Seq::empty() }, q)
    } else {
        let c = s[q];
        if single_char_kind(c) is Some {
            (SpecToken { kind: single_char_kind(c)->0, literal: seq![c] }, q + 1)
        } else if spec_is_letter(c) {
            let e = letters_end(s, q);
            let word = s.subrange(q, e);
            (SpecToken { kind: keyword_kind(word), literal: word }, e)
        } else if spec_is_digit(c) {
            let e = digits_end(s, q);
            (SpecToken { kind: TokenKind::Int, literal: s.subrange(q, e) }, e)
        } else {
            (SpecToken { kind: TokenKind::Illegal, literal: seq![c] }, q + 1)
        }
    }
}

pub proof fn lemma_skip_spaces(s: Seq<char>, p: int)
    requires
        0 <= p <= s.len(),
    ensures
        p <= skip_spaces(s, p) <= s.len(),
        skip_spaces(s, p) < s.len() ==> !spec_is_space(s[skip_spaces(s, p)]),
    decreases s.len() - p,
{
    if p < s.len() && spec_is_space(s[p]) {
        lemma_skip_spaces(s, p + 1);
    }
}

pub proof fn lemma_letters_end(s: Seq<char>, p: int)
    requires
        0 <= p <= s.len(),
    ensures
        p <= letters_end(s, p) <= s.len(),
        forall|i: int| p <= i < letters_end(s, p) ==> spec_is_letter(#[trigger] s[i]),
        letters_end(s, p) < s.len() ==> !spec_is_letter(s[letters_end(s, p)]),
    decreases s.len() - p,
{
    if p < s.len() && spec_is_letter(s[p]) {
        lemma_letters_end(s, p + 1);
    }
}

pub proof fn lemma_digits_end(s: Seq<char>, p: int)
    requires
        0 <= p <= s.len(),
    ensures
        p <= digits_end(s, p) <= s.len(),
        forall|i: int| p <= i < digits_end(s, p) ==> spec_is_digit(#[trigger] s[i]),
        digits_end(s, p) < s.len() ==> !spec_is_digit(s[digits_end(s, p)]),
    decreases s.len() - p,
{
    if p < s.len() && spec_is_digit(s[p]) {
        lemma_digits_end(s, p + 1);
    }
}

/// Each token other than the end marker consumes at least one character; the
/// end marker stands at the end of the input.
pub proof fn lemma_lex_at(s: Seq<char>, p: int)
    requires
        0 <= p <= s.len(),
    ensures
        p <= lex_at(s, p).1 <= s.len(),
        lex_at(s, p).0.kind != TokenKind::EOF ==> p < lex_at(s, p).1,
        lex_at(s, p).0.kind == TokenKind::EOF ==> lex_at(s, p).1 == s.len(),
        lex_at(s, p).0.kind == TokenKind::EOF ==> lex_at(s, p).0 == (SpecToken {
            kind: TokenKind::EOF,
            literal: Seq::empty(),
        }),
        p == s.len() ==> lex_at(s, p).0.kind == TokenKind::EOF,
{
    reveal(lex_at);
    lemma_skip_spaces(s, p);
    let q = skip_spaces(s, p);
    if q < s.len() {
        lemma_letters_end(s, q);
        lemma_digits_end(s, q);
    }
}

/// The tokens of `s` from position `p` on, ending with the end marker.
#[verifier::opaque]
pub open spec fn tokens_from(s: Seq<char>, p: int) -> Seq<SpecToken>
    decreases s.len() - p,
{
    let (t, e) = lex_at(s, p);
    if t.kind == TokenKind::EOF || p < 0 || p > s.len() {
        seq![t]
    } else {
        proof {
            lemma_lex_at(s, p);
        }
        seq![t] + tokens_from(s, e)
    }
}

/// The tokens of a whole source text, ending with the end marker.
pub open spec fn tokens_of(s: Seq<char>) -> Seq<SpecToken> {
    tokens_from(s, 0)
}

/// The end marker: kind `EOF`, empty text.
pub open spec fn end_token() -> SpecToken {
    SpecToken { kind: TokenKind::EOF, literal: Seq::empty() }
}

/// The token of a character that is a token on its own.
pub open spec fn single_token(c: char) -> SpecToken {
    SpecToken { kind: single_char_kind(c)->0, literal: seq![c] }
}

/// At the end of the input the lexer yields the end marker and stays where it
/// is, so every later call yields it again.
pub proof fn lemma_end_repeats(s: Seq<char>)
    ensures
        lex_at(s, s.len() as int) == (end_token(), s.len() as int),
{
    reveal(lex_at);
}

proof fn lemma_single_chars_from(s: Seq<char>, p: int)
    requires
        0 <= p <= s.len(),
        forall|i: int| 0 <= i < s.len() ==> (#[trigger] single_char_kind(s[i])) is Some,
    ensures
        tokens_from(s, p) == Seq::new((s.len() - p) as nat, |i: int| single_token(s[p + i])).push(
            end_token(),
        ),
    decreases s.len() - p,
{
    reveal(tokens_from);
    reveal(lex_at);
    if p < s.len() {
        assert(single_char_kind(s[p]) is Some);
        assert(skip_spaces(s, p) == p);
        lemma_single_chars_from(s, p + 1);
        assert(tokens_from(s, p) =~= Seq::new((s.len() - p) as nat, |i: int| single_token(s[p + i])).push(
            end_token(),
        ));
    } else {
        assert(tokens_from(s, p) =~= Seq::new(0, |i: int| single_token(s[p + i])).push(end_token()));
    }
}

/// A text made only of one-character operators and delimiters yields exactly
/// one token per character, of the matching kind and with that character as
/// its text, in order, followed by the end marker.
pub proof fn lemma_single_char_tokens(s: Seq<char>)
    requires
        forall|i: int| 0 <= i < s.len() ==> (#[trigger] single_char_kind(s[i])) is Some,
    ensures
        tokens_of(s) == Seq::new(s.len(), |i: int| single_token(s[i])).push(end_token()),
{
    lemma_single_chars_from(s, 0);
    assert(Seq::new((s.len() - 0) as nat, |i: int| single_token(s[0 + i])) =~= Seq::new(
        s.len(),
        |i: int| single_token(s[i]),
    ));
}

/// Call by call: on a text made only of one-character operators and
/// delimiters, a lexer whose cursor is at `k` (as it is after `k` calls from
/// the start, each call moving it one character) yields the token of the
/// `k`-th character and moves to `k + 1`; at the end it yields the end marker
/// and stays, so every later call yields it again.
pub proof fn lemma_single_char_step(s: Seq<char>, k: int)
    requires
        forall|i: int| 0 <= i < s.len() ==> (#[trigger] single_char_kind(s[i])) is Some,
        0 <= k <= s.len(),
    ensures
        k < s.len() ==> lex_at(s, k) == (single_token(s[k]), k + 1),
        k == s.len() ==> lex_at(s, k) == (end_token(), k),
{
    reveal(lex_at);
    if k < s.len() {
        assert(single_char_kind(s[k]) is Some);
        assert(skip_spaces(s, k) == k);
    }
}

/// Where the cursor stands after `k` calls of `next_token` from position `p`.
pub open spec fn cursor_after(s: Seq<char>, p: int, k: nat) -> int
    decreases k,
{
    if k == 0 {
        p
    } else {
        lex_at(s, cursor_after(s, p, (k - 1) as nat)).1
    }
}

/// The token that call number `k` (from zero) of `next_token` yields on a
/// fresh lexer over `s`.
pub open spec fn call_token(s: Seq<char>, k: nat) -> SpecToken {
    lex_at(s, cursor_after(s, 0, k)).0
}

proof fn lemma_single_char_cursor(s: Seq<char>, k: nat)
    requires
        forall|i: int| 0 <= i < s.len() ==> (#[trigger] single_char_kind(s[i])) is Some,
    ensures
        cursor_after(s, 0, k) == if k <= s.len() {
            k as int
        } else {
            s.len() as int
        },
    decreases k,
{
    if k > 0 {
        lemma_single_char_cursor(s, (k - 1) as nat);
        let c = cursor_after(s, 0, (k - 1) as nat);
        lemma_single_char_step(s, c);
    }
}

/// On a text made only of one-character operators and delimiters, the calls
/// of `next_token` on a fresh lexer yield one token per character, in order,
/// of the matching kind and with that character as its text; every call after
/// those yields the end marker.
pub proof fn lemma_single_char_calls(s: Seq<char>, k: nat)
    requires
        forall|i: int| 0 <= i < s.len() ==> (#[trigger] single_char_kind(s[i])) is Some,
    ensures
        k < s.len() ==> call_token(s, k) == single_token(s[k as int]),
        k >= s.len() ==> call_token(s, k) == end_token(),
{
    lemma_single_char_cursor(s, k);
    lemma_single_char_step(s, cursor_after(s, 0, k));
}

/// Each of the seven keywords classifies as its reserved kind, and any other
/// word as a plain identifier.
pub proof fn lemma_keyword_kinds(word: Seq<char>)
    ensures
        keyword_kind("fn"@) == TokenKind::Function,
        keyword_kind("let"@) == TokenKind::Let,
        keyword_kind("true"@) == TokenKind::True,
        keyword_kind("false"@) == TokenKind::False,
        keyword_kind("if"@) == TokenKind::If,
        keyword_kind("else"@) == TokenKind::Else,
        keyword_kind("return"@) == TokenKind::Return,
        word != "fn"@ && word != "let"@ && word != "true"@ && word != "false"@ && word != "if"@
            && word != "else"@ && word != "return"@ ==> keyword_kind(word) == TokenKind::Ident,
{
    reveal_strlit("fn");
    reveal_strlit("let");
    reveal_strlit("true");
    reveal_strlit("false");
    reveal_strlit("if");
    reveal_strlit("else");
    reveal_strlit("return");
    assert("let"@ != "fn"@) by {
        assert("let"@.len() != "fn"@.len());
    }
    assert("true"@ != "fn"@ && "true"@ != "let"@) by {
        assert("true"@[0] != "fn"@[0]);
        assert("true"@[0] != "let"@[0]);
    }
    assert("false"@ != "fn"@ && "false"@ != "let"@ && "false"@ != "true"@) by {
        assert("false"@.len() != "fn"@.len());
        assert("false"@.len() != "let"@.len());
        assert("false"@.len() != "true"@.len());
    }
    assert("if"@ != "fn"@ && "if"@ != "let"@ && "if"@ != "true"@ && "if"@ != "false"@) by {
        assert("if"@[1] != "fn"@[1]);
        assert("if"@.len() != "let"@.len());
        assert("if"@.len() != "true"@.len());
        assert("if"@.len() != "false"@.len());
    }
    assert("else"@ != "fn"@ && "else"@ != "let"@ && "else"@ != "true"@ && "else"@ != "false"@
        && "else"@ != "if"@) by {
        assert("else"@.len() != "fn"@.len());
        assert("else"@.len() != "let"@.len());
        assert("else"@[0] != "true"@[0]);
        assert("else"@.len() != "false"@.len());
        assert("else"@.len() != "if"@.len());
    }
    assert("return"@ != "fn"@ && "return"@ != "let"@ && "return"@ != "true"@ && "return"@
        != "false"@ && "return"@ != "if"@ && "return"@ != "else"@) by {
        assert("return"@.len() != "fn"@.len());
        assert("return"@.len() != "let"@.len());
        assert("return"@.len() != "true"@.len());
        assert("return"@.len() != "false"@.len());
        assert("return"@.len() != "if"@.len());
        assert("return"@.len() != "else"@.len());
    }
}

proof fn lemma_letters_to_end(s: Seq<char>, p: int)
    requires
        0 <= p <= s.len(),
        forall|i: int| 0 <= i < s.len() ==> spec_is_letter(#[trigger] s[i]),
    ensures
        letters_end(s, p) == s.len(),
    decreases s.len() - p,
{
    if p < s.len() {
        lemma_letters_to_end(s, p + 1);
    }
}

/// A word of letters and underscores tokenizes as one token whose text is the
/// word and whose kind is its keyword kind (a plain identifier unless it is
/// one of the keywords), followed by the end marker.
pub proof fn lemma_word_token(word: Seq<char>)
    requires
        word.len() > 0,
        forall|i: int| 0 <= i < word.len() ==> spec_is_letter(#[trigger] word[i]),
    ensures
        tokens_of(word) == seq![SpecToken { kind: keyword_kind(word), literal: word }, end_token()],
{
    reveal(tokens_from);
    reveal(lex_at);
    assert(spec_is_letter(word[0]));
    assert(skip_spaces(word, 0) == 0);
    lemma_letters_to_end(word, 0);
    assert(word.subrange(0, word.len() as int) =~= word);
    assert(tokens_from(word, word.len() as int) == seq![end_token()]);
}

/// A tokenizer over a source text held in memory, with a read cursor.
pub struct Lexer {
    input: Vec<char>,
    position: usize,
}

impl Lexer {
    /// The source text.
    pub closed spec fn source(&self) -> Seq<char> {
        self.input@
    }

    /// The read cursor.
    pub closed spec fn pos(&self) -> int {
        self.position as int
    }

    pub open spec fn wf(&self) -> bool {
        0 <= self.pos() <= self.source().len()
    }

    /// A tokenizer at the start of `input`.
    pub fn new(input: &str) -> (lexer: Lexer)
        ensures
            lexer.wf(),
            lexer.source() == input@,
            lexer.pos() == 0,
    {
        let n = input.unicode_len();
        let mut chars: Vec<char> = Vec::new();
        let mut i: usize = 0;
        while i < n
            invariant
                n == input@.len(),
                i <= n,
                chars@ == input@.subrange(0, i as int),
            decreases n - i,
        {
            chars.push(input.get_char(i));
            i = i + 1;
        }
        assert(chars@ =~= input@);
        Lexer { input: chars, position: 0 }
    }

    /// The character under the cursor, if any is left.
    fn current(&self) -> (c: Option<char>)
        requires
            self.wf(),
        ensures
            self.pos() < self.source().len() ==> c == Some(self.source()[self.pos()]),
            self.pos() >= self.source().len() ==> c is None,
    {
        if self.position < self.input.len() {
            Some(self.input[self.position])
        } else {
            None
        }
    }

    /// Moves the cursor one character on.
    fn read_char(&mut self)
        requires
            old(self).wf(),
            old(self).pos() < old(self).source().len(),
        ensures
            final(self).wf(),
            final(self).source() == old(self).source(),
            final(self).pos() == old(self).pos() + 1,
    {
        assert(self.position < self.input.len());
        self.position = self.position + 1;
    }

    /// The next token; at the end of input, the end marker, again on every call.
    pub fn next_token(&mut self) -> (t: Token)
        requires
            old(self).wf(),
        ensures
            final(self).wf(),
            final(self).source() == old(self).source(),
            t@ == lex_at(old(self).source(), old(self).pos()).0,
            final(self).pos() == lex_at(old(self).source(), old(self).pos()).1,
    {
        proof {
            reveal(lex_at);
        }
        self.skip_whitespace();
        let ghost s = self.source();
        let ghost q = self.pos();
        proof {
            lemma_lex_at(s, q);
        }
        match self.current() {
            None => Token { kind: TokenKind::EOF, literal: String::new() },
            Some(ch) => {
                let single = match ch {
                    '=' => Some(TokenKind::Assign),
                    ';' => Some(TokenKind::Semicolon),
                    '(' => Some(TokenKind::LParen),
                    ')' => Some(TokenKind::RParen),
                    ',' => Some(TokenKind::Comma),
                    '+' => Some(TokenKind::Plus),
                    '{' => Some(TokenKind::LBrace),
                    '}' => Some(TokenKind::RBrace),
                    '-' => Some(TokenKind::Minus),
                    '!' => Some(TokenKind::Bang),
                    '*' => Some(TokenKind::Asterisk),
                    '/' => Some(TokenKind::Slash),
                    '<' => Some(TokenKind::LT),
                    '>' => Some(TokenKind::GT),
                    _ => None,
                };
                assert(single == single_char_kind(ch));
                match single {
                    Some(kind) => {
                        self.read_char();
                        Lexer::new_token(kind, ch)
                    },
                    None => {
                        if Lexer::is_letter(ch) {
                            let literal = self.read_identifier();
                            let kind = lookup_keywords(literal.as_str());
                            Token { kind, literal }
                        } else if Lexer::is_digit(ch) {
                            let literal = self.read_number();
                            Token { kind: TokenKind::Int, literal }
                        } else {
                            self.read_char();
                            Lexer::new_token(TokenKind::Illegal, ch)
                        }
                    },
                }
            },
        }
    }

    /// A token whose text is the one character `ch`.
    fn new_token(kind: TokenKind, ch: char) -> (t: Token)
        ensures
            t@ == (SpecToken { kind, literal: seq![ch] }),
    {
        let mut literal = String::new();
        literal.push(ch);
        assert(literal@ =~= seq![ch]);
        Token { kind, literal }
    }

    fn is_letter(ch: char) -> (r: bool)
        ensures
            r == spec_is_letter(ch),
    {
        ('a' <= ch && ch <= 'z') || ('A' <= ch && ch <= 'Z') || ch == '_'
    }

    fn is_digit(ch: char) -> (r: bool)
        ensures
            r == spec_is_digit(ch),
    {
        '0' <= ch && ch <= '9'
    }

    fn is_space(ch: char) -> (r: bool)
        ensures
            r == spec_is_space(ch),
    {
        ch == ' ' || ch == '\t' || ch == '\n' || ch == '\r'
    }

    /// Reads the maximal run of letters under the cursor.
    fn read_identifier(&mut self) -> (word: String)
        requires
            old(self).wf(),
        ensures
            final(self).wf(),
            final(self).source() == old(self).source(),
            final(self).pos() == letters_end(old(self).source(), old(self).pos()),
            word@ == old(self).source().subrange(old(self).pos(), final(self).pos()),
    {
        let ghost s = self.source();
        let ghost start = self.pos();
        let mut identifier = String::new();
        while self.position < self.input.len() && Lexer::is_letter(self.input[self.position])
            invariant
                self.wf(),
                self.source() == s,
                0 <= start <= self.pos(),
                letters_end(s, start) == letters_end(s, self.pos()),
                identifier@ == s.subrange(start, self.pos()),
            decreases s.len() - self.pos(),
        {
            let c = self.input[self.position];
            let ghost p = self.pos();
            identifier.push(c);
            self.read_char();
            assert(s.subrange(start, p + 1) =~= s.subrange(start, p).push(c));
        }
        identifier
    }

    /// Moves the cursor past white space.
    fn skip_whitespace(&mut self)
        requires
            old(self).wf(),
        ensures
            final(self).wf(),
            final(self).source() == old(self).source(),
            final(self).pos() == skip_spaces(old(self).source(), old(self).pos()),
    {
        let ghost s = self.source();
        let ghost start = self.pos();
        while self.position < self.input.len() && Lexer::is_space(self.input[self.position])
            invariant
                self.wf(),
                self.source() == s,
                skip_spaces(s, start) == skip_spaces(s, self.pos()),
            decreases s.len() - self.pos(),
        {
            self.read_char();
        }
    }

    /// Reads the maximal run of digits under the cursor.
    fn read_number(&mut self) -> (number: String)
        requires
            old(self).wf(),
        ensures
            final(self).wf(),
            final(self).source() == old(self).source(),
            final(self).pos() == digits_end(old(self).source(), old(self).pos()),
            number@ == old(self).source().subrange(old(self).pos(), final(self).pos()),
    {
        let ghost s = self.source();
        let ghost start = self.pos();
        let mut number = String::new();
        while self.position < self.input.len() && Lexer::is_digit(self.input[self.position])
            invariant
                self.wf(),
                self.source() == s,
                0 <= start <= self.pos(),
                digits_end(s, start) == digits_end(s, self.pos()),
                number@ == s.subrange(start, self.pos()),
            decreases s.len() - self.pos(),
        {
            let c = self.input[self.position];
            let ghost p = self.pos();
            number.push(c);
            self.read_char();
            assert(s.subrange(start, p + 1) =~= s.subrange(start, p).push(c));
        }
        number
    }
}

} // verus!

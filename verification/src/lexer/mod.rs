pub mod diagnostics;
pub mod grammar;
pub mod tokens;

use vstd::prelude::*;

use crate::diagnostic::reporter::Reporter;
use crate::diagnostic::store::DiagnosticEntry;
use crate::diagnostic::{DiagnosticMessage, DiagnosticReport, DiagnosticResult};
use crate::lexer::diagnostics::LexerDiagnostic;
use crate::lexer::grammar::{
    adv, at_end, char_at, comment, cur, digits, eat, ident_chars, index, is_alpha, is_digit, is_radix_letter,
    lex, lexeme, make_diagnostic, make_token, newline, number_token, peek, pos_wf, remaining, scan_from,
    scan_step, start_pos, string_body, string_token, symbol_token, with_equals, word_token, lemma_adv,
    lemma_scan_step, LexPos, ScanStep, SpecToken,
};
use crate::lexer::tokens::kind::{KeywordKind, LiteralKind, OperatorKind, PunctuationKind, TokenKind};
use crate::lexer::tokens::{Token, TokenStream};
use crate::span::{CodeSourceId, Cursor, Span};
use crate::text::{push_char, str_eq};

verus! {

impl View for Token {
    type V = SpecToken;

    open spec fn view(&self) -> SpecToken {
        SpecToken { kind: self.kind, lexeme: self.lexeme@, cursor: self.cursor, span: self.span }
    }
}

/// The number radixes a number literal may name after a leading `0`.
#[derive(Debug, Clone, Copy, PartialEq, Eq, Structural)]
pub enum NumberRadix {
    /// `b`
    Binary,
    /// `o`
    Octal,
    /// `x`
    Hexadecimal,
}

impl NumberRadix {
    pub open spec fn spec_from_letter(c: char) -> Option<NumberRadix> {
        if c == 'b' {
            Some(NumberRadix::Binary)
        } else if c == 'o' {
            Some(NumberRadix::Octal)
        } else if c == 'x' {
            Some(NumberRadix::Hexadecimal)
        } else {
            None
        }
    }

    /// The radix that the letter `c` names.
    pub fn from_letter(c: char) -> (r: Option<NumberRadix>)
        ensures
            r == Self::spec_from_letter(c),
            r is Some <==> is_radix_letter(c),
    {
        if c == 'b' {
            Some(NumberRadix::Binary)
        } else if c == 'o' {
            Some(NumberRadix::Octal)
        } else if c == 'x' {
            Some(NumberRadix::Hexadecimal)
        } else {
            None
        }
    }

    pub open spec fn spec_base(self) -> u32 {
        match self {
            NumberRadix::Binary => 2,
            NumberRadix::Octal => 8,
            NumberRadix::Hexadecimal => 16,
        }
    }

    /// The base of the radix.
    pub fn base(&self) -> (r: u32)
        ensures
            r == self.spec_base(),
    {
        match self {
            NumberRadix::Binary => 2,
            NumberRadix::Octal => 8,
            NumberRadix::Hexadecimal => 16,
        }
    }
}

/// Turns the bytes of a source into tokens.
pub struct LumaLexer<'a> {
    /// The source code
    source: &'a [u8],
    /// The scanned list of tokens from the source
    tokens: Vec<Token>,
    /// The current line number in source
    line: usize,
    /// The current column number in source
    column: usize,
    /// The start of the current token
    start: usize,
    /// The length of the current token
    length: usize,
    /// Diagnostic reporter for errors and warnings
    reporter: Reporter,
}

impl<'a> LumaLexer<'a> {
    pub closed spec fn src(self) -> Seq<u8> {
        self.source@
    }

    pub closed spec fn lpos(self) -> LexPos {
        LexPos { start: self.start as nat, length: self.length as nat, line: self.line as nat, column: self.column as nat }
    }

    pub closed spec fn spec_tokens(self) -> Seq<Token> {
        self.tokens@
    }

    pub closed spec fn spec_reporter(self) -> Reporter {
        self.reporter
    }

    /// The source fits in a span, and the position is well formed.
    pub open spec fn wf(self) -> bool {
        &&& self.src().len() < u32::MAX
        &&& pos_wf(self.src(), self.lpos())
    }

    /// Everything but the position is as in `other`.
    pub open spec fn same_frame(self, other: Self) -> bool {
        &&& self.src() == other.src()
        &&& self.spec_tokens() == other.spec_tokens()
        &&& self.spec_reporter() == other.spec_reporter()
    }

    /// A lexer at the start of `source`, reporting as `parent:lexer`.
    /// Spans are 32-bit, so the source must be shorter than `u32::MAX` bytes.
    pub fn new(source: &'a [u8], reporter: &Reporter) -> (r: Self)
        requires
            source@.len() < u32::MAX,
        ensures
            r.wf(),
            r.src() == source@,
            r.lpos() == start_pos(),
            r.spec_tokens().len() == 0,
            r.spec_reporter().spec_name() == reporter.spec_name() + ":"@ + "lexer"@,
            r.spec_reporter().spec_source().spec_source_name() == reporter.spec_source().spec_source_name(),
            r.spec_reporter().spec_entries().len() == 0,
    {
        LumaLexer {
            source,
            tokens: Vec::new(),
            line: 1,
            column: 1,
            start: 0,
            length: 0,
            reporter: reporter.collector("lexer"),
        }
    }

    /// The reporter that collected the diagnostics of scanning.
    pub fn into_reporter(self) -> (r: Reporter)
        ensures
            r == self.spec_reporter(),
    {
        self.reporter
    }

    /// Scans the whole source: the tokens, ending with the end-of-file token.
    /// Every diagnostic of scanning is filed with the lexer's reporter.
    pub fn scan(&mut self) -> (r: TokenStream)
        requires
            old(self).wf(),
            old(self).lpos() == start_pos(),
            old(self).spec_tokens().len() == 0,
        ensures
            r.spec_tokens().map_values(|t: Token| t@) == lex(old(self).src()).0,
            r.spec_pos() == 0,
            final(self).spec_reporter().spec_name() == old(self).spec_reporter().spec_name(),
            final(self).spec_reporter().spec_source() == old(self).spec_reporter().spec_source(),
            final(self).spec_reporter().spec_entries().len() == old(self).spec_reporter().spec_entries().len()
                + lex(old(self).src()).1.len(),
            final(self).spec_reporter().spec_entries().take(old(self).spec_reporter().spec_entries().len() as int)
                == old(self).spec_reporter().spec_entries(),
            forall|i: int|
                0 <= i < lex(old(self).src()).1.len() ==> {
                    let e = #[trigger] final(self).spec_reporter().spec_entries()[old(self).spec_reporter().spec_entries().len() + i];
                    &&& e.diagnostic == lex(old(self).src()).1[i]
                    &&& e.source_name@ == old(self).spec_reporter().spec_source().spec_source_name()
                    &&& e.reporter_name@ == old(self).spec_reporter().spec_name()
                },
    {
        let ghost s = self.src();
        let ghost entries0 = self.reporter.spec_entries();
        let ghost name0 = self.reporter.spec_name();
        let ghost source0 = self.reporter.spec_source();
        let ghost total = scan_from(s, start_pos());
        let mut ndiag: usize = 0;
        while !self.is_at_end()
            invariant
                self.wf(),
                self.src() == s,
                self.reporter.spec_name() == name0,
                self.reporter.spec_source() == source0,
                self.reporter.spec_entries().take(entries0.len() as int) == entries0,
                self.reporter.spec_entries().len() == entries0.len() + ndiag,
                ndiag <= index(self.lpos()),
                ({
                    let (ts, ds, pe) = scan_from(s, self.lpos());
                    &&& total.0 == self.tokens@.map_values(|t: Token| t@) + ts
                    &&& total.1.len() == ndiag + ds.len()
                    &&& total.1.skip(ndiag as int) == ds
                    &&& total.2 == pe
                }),
                forall|i: int|
                    0 <= i < ndiag ==> {
                        let e = #[trigger] self.reporter.spec_entries()[entries0.len() + i];
                        &&& e.diagnostic == total.1[i]
                        &&& e.source_name@ == source0.spec_source_name()
                        &&& e.reporter_name@ == name0
                    },
            decreases remaining(s, self.lpos()),
        {
            let ghost p0 = self.lpos();
            let ghost before_tokens = self.tokens@;
            let ghost before_entries = self.reporter.spec_entries();
            proof {
                lemma_scan_step(s, p0);
            }
            let step = self.scan_token();
            proof {
                let (p1, st) = scan_step(s, p0);
                let (ts, ds, pe) = scan_from(s, p1);
                assert(self.lpos() == p1);
            }
            match step {
                Ok(None) => {},
                Ok(Some(token)) => {
                    self.tokens.push(token);
                    proof {
                        let (p1, st) = scan_step(s, p0);
                        let (ts, ds, pe) = scan_from(s, p1);
                        assert(self.tokens@.map_values(|t: Token| t@) =~= before_tokens.map_values(|t: Token| t@).push(token@));
                        assert(before_tokens.map_values(|t: Token| t@) + (seq![token@] + ts) =~= self.tokens@.map_values(|t: Token| t@) + ts);
                    }
                },
                Err(err) => {
                    proof {
                        let (p1, st) = scan_step(s, p0);
                        let (ts, ds, pe) = scan_from(s, p1);
                        assert(st == ScanStep::Fail(err));
                        assert(scan_from(s, p0).1 == seq![err] + ds);
                        assert(total.1.skip(ndiag as int) == seq![err] + ds);
                        assert(total.1.skip(ndiag as int)[0] == total.1[ndiag as int]);
                        assert(total.1.skip(ndiag as int).drop_first() =~= total.1.skip(ndiag + 1));
                        assert((seq![err] + ds).drop_first() =~= ds);
                    }
                    self.reporter.report(err);
                    proof {
                        let (p1, st) = scan_step(s, p0);
                        let (ts, ds, pe) = scan_from(s, p1);
                        assert(total.1.skip(ndiag + 1) =~= ds);
                        assert(total.1[ndiag as int] == err);
                        assert(self.reporter.spec_entries().take(entries0.len() as int) =~= before_entries.take(entries0.len() as int));
                        assert forall|i: int| 0 <= i < ndiag + 1 implies {
                            let e = #[trigger] self.reporter.spec_entries()[entries0.len() + i];
                            &&& e.diagnostic == total.1[i]
                            &&& e.source_name@ == source0.spec_source_name()
                            &&& e.reporter_name@ == name0
                        } by {
                            if i < ndiag {
                                assert(self.reporter.spec_entries()[entries0.len() + i] == before_entries[entries0.len() + i]);
                            }
                        }
                    }
                    ndiag = ndiag + 1;
                },
            }
        }
        let token = self.token(TokenKind::EndOfFile);
        self.tokens.push(token);
        proof {
            assert(total.1.skip(ndiag as int) =~= Seq::<DiagnosticReport>::empty());
            assert(total.1 =~= total.1.take(ndiag as int));
        }
        let copy = copy_tokens(&self.tokens);
        proof {
            assert(self.tokens@.map_values(|t: Token| t@) =~= total.0.push(token@));
        }
        TokenStream::new(copy)
    }

    /// One scanning step: `None` for whitespace, line breaks and comments.
    fn scan_token(&mut self) -> (r: DiagnosticResult<Option<Token>>)
        requires
            old(self).wf(),
            !at_end(old(self).src(), old(self).lpos()),
        ensures
            final(self).wf(),
            final(self).same_frame(*old(self)),
            final(self).lpos() == scan_step(old(self).src(), old(self).lpos()).0,
            match scan_step(old(self).src(), old(self).lpos()).1 {
                ScanStep::Skip => r == Ok::<Option<Token>, DiagnosticReport>(None),
                ScanStep::Token(t) => r matches Ok(Some(tok)) && tok@ == t,
                ScanStep::Fail(d) => r == Err::<Option<Token>, DiagnosticReport>(d),
            },
    {
        proof {
            lemma_scan_step(self.src(), self.lpos());
        }
        self.start = self.start + self.length;
        self.length = 0;
        let c = match self.advance() {
            Some(c) => c,
            None => '\0',
        };
        if c == '\n' {
            self.newline();
            return Ok(None);
        }
        if c == ' ' || c == '\0' || c == '\t' || c == '\r' {
            return Ok(None);
        }
        if c == '/' && self.current_is('/') {
            self.advance();
            self.comment();
            return Ok(None);
        }
        if c == '\'' || c == '"' {
            return match self.string(c) {
                Ok(t) => Ok(Some(t)),
                Err(e) => Err(e),
            };
        }
        if self.is_digit(c) {
            return match self.number() {
                Ok(t) => Ok(Some(t)),
                Err(e) => Err(e),
            };
        }
        if self.is_alpha(c) || c == '_' {
            return match self.identifier() {
                Ok(t) => Ok(Some(t)),
                Err(e) => Err(e),
            };
        }
        match self.symbol(c) {
            Some(kind) => Ok(Some(self.token(kind))),
            None => Err(self.diagnostic(LexerDiagnostic::UnexpectedCharacter(c))),
        }
    }

    /// A punctuation or operator token whose first character `c` was taken.
    fn symbol(&mut self, c: char) -> (r: Option<TokenKind>)
        requires
            old(self).wf(),
        ensures
            final(self).wf(),
            final(self).same_frame(*old(self)),
            match symbol_token(old(self).src(), old(self).lpos(), c) {
                Some((p1, kind)) => r == Some(kind) && final(self).lpos() == p1,
                None => r is None && final(self).lpos() == old(self).lpos(),
            },
    {
        if c == ',' {
            Some(TokenKind::Punctuation(PunctuationKind::Comma))
        } else if c == ';' {
            Some(TokenKind::Punctuation(PunctuationKind::Semicolon))
        } else if c == ':' {
            Some(TokenKind::Punctuation(PunctuationKind::Colon))
        } else if c == '.' {
            Some(TokenKind::Punctuation(PunctuationKind::Dot))
        } else if c == '?' {
            Some(TokenKind::Punctuation(PunctuationKind::QuestionMark))
        } else if c == '(' {
            Some(TokenKind::Punctuation(PunctuationKind::LeftParen))
        } else if c == ')' {
            Some(TokenKind::Punctuation(PunctuationKind::RightParen))
        } else if c == '{' {
            Some(TokenKind::Punctuation(PunctuationKind::LeftBrace))
        } else if c == '}' {
            Some(TokenKind::Punctuation(PunctuationKind::RightBrace))
        } else if c == '[' {
            Some(TokenKind::Punctuation(PunctuationKind::LeftBracket))
        } else if c == ']' {
            Some(TokenKind::Punctuation(PunctuationKind::RightBracket))
        } else if c == '+' {
            Some(self.with_equals(OperatorKind::Plus, OperatorKind::PlusEquals))
        } else if c == '-' {
            Some(self.with_equals(OperatorKind::Minus, OperatorKind::MinusEquals))
        } else if c == '*' {
            Some(self.with_equals(OperatorKind::Asterisk, OperatorKind::AsteriskEquals))
        } else if c == '/' {
            Some(self.with_equals(OperatorKind::Slash, OperatorKind::SlashEquals))
        } else if c == '%' {
            Some(self.with_equals(OperatorKind::Percent, OperatorKind::PercentEquals))
        } else if c == '=' {
            Some(self.with_equals(OperatorKind::Equals, OperatorKind::EqualsEquals))
        } else if c == '!' {
            Some(self.with_equals(OperatorKind::Not, OperatorKind::NotEquals))
        } else if c == '^' {
            Some(self.with_equals(OperatorKind::BitwiseXor, OperatorKind::BitwiseXorEquals))
        } else if c == '~' {
            Some(TokenKind::Operator(OperatorKind::BitwiseNot))
        } else if c == '>' {
            if self.eat_if('=') {
                Some(TokenKind::Operator(OperatorKind::GreaterThanOrEqual))
            } else if self.eat_if('>') {
                Some(self.with_equals(OperatorKind::ShiftRight, OperatorKind::ShiftRightEquals))
            } else {
                Some(TokenKind::Operator(OperatorKind::GreaterThan))
            }
        } else if c == '<' {
            if self.eat_if('=') {
                Some(TokenKind::Operator(OperatorKind::LessThanOrEqual))
            } else if self.eat_if('<') {
                Some(self.with_equals(OperatorKind::ShiftLeft, OperatorKind::ShiftLeftEquals))
            } else {
                Some(TokenKind::Operator(OperatorKind::LessThan))
            }
        } else if c == '&' {
            if self.eat_if('&') {
                Some(self.with_equals(OperatorKind::And, OperatorKind::AndEquals))
            } else {
                Some(self.with_equals(OperatorKind::BitwiseAnd, OperatorKind::BitwiseAndEquals))
            }
        } else if c == '|' {
            if self.eat_if('|') {
                Some(self.with_equals(OperatorKind::Or, OperatorKind::OrEquals))
            } else {
                Some(self.with_equals(OperatorKind::BitwiseOr, OperatorKind::BitwiseOrEquals))
            }
        } else {
            None
        }
    }

    /// `one`, or `two` when the current character is `=` (which is then taken).
    fn with_equals(&mut self, one: OperatorKind, two: OperatorKind) -> (r: TokenKind)
        requires
            old(self).wf(),
        ensures
            final(self).wf(),
            final(self).same_frame(*old(self)),
            (final(self).lpos(), r) == with_equals(old(self).src(), old(self).lpos(), one, two),
    {
        if self.eat_if('=') {
            TokenKind::Operator(two)
        } else {
            TokenKind::Operator(one)
        }
    }

    /// A number literal whose first digit was taken.
    fn number(&mut self) -> (r: DiagnosticResult<Token>)
        requires
            old(self).wf(),
        ensures
            final(self).wf(),
            final(self).same_frame(*old(self)),
            final(self).lpos() == number_token(old(self).src(), old(self).lpos()).0,
            match number_token(old(self).src(), old(self).lpos()).1 {
                ScanStep::Token(t) => r matches Ok(tok) && tok@ == t,
                ScanStep::Fail(d) => r == Err::<Token, DiagnosticReport>(d),
                ScanStep::Skip => false,
            },
    {
        proof {
            lemma_adv(self.src(), self.lpos());
            lemma_adv(self.src(), adv(self.src(), self.lpos()));
        }
        if self.current_is('0') {
            let next = self.peek();
            if self.is_alpha(next) {
                if NumberRadix::from_letter(next).is_none() {
                    return Err(self.diagnostic(LexerDiagnostic::UnexpectedRadixIdentifier(next)));
                }
                self.advance();
            }
            self.advance();
        }
        self.digits();
        let mut is_decimal = false;
        if self.current_is('.') && self.is_digit(self.peek()) {
            is_decimal = true;
            proof {
                lemma_adv(self.src(), self.lpos());
            }
            self.advance();
            self.digits();
        }
        let kind = if is_decimal {
            TokenKind::Literal(LiteralKind::Decimal)
        } else {
            TokenKind::Literal(LiteralKind::Integer)
        };
        Ok(self.token(kind))
    }

    /// Takes every digit from the current character on.
    fn digits(&mut self)
        requires
            old(self).wf(),
        ensures
            final(self).wf(),
            final(self).same_frame(*old(self)),
            final(self).lpos() == digits(old(self).src(), old(self).lpos()),
    {
        loop
            invariant
                self.wf(),
                self.same_frame(*old(self)),
                digits(self.src(), self.lpos()) == digits(old(self).src(), old(self).lpos()),
            ensures
                self.wf(),
                self.same_frame(*old(self)),
                self.lpos() == digits(old(self).src(), old(self).lpos()),
            decreases remaining(self.src(), self.lpos()),
        {
            match self.current() {
                Some(c) => {
                    if !self.is_digit(c) {
                        break;
                    }
                },
                None => break,
            }
            proof {
                lemma_adv(self.src(), self.lpos());
            }
            self.advance();
        }
    }

    /// An identifier, keyword or boolean literal whose first character was taken.
    fn identifier(&mut self) -> (r: DiagnosticResult<Token>)
        requires
            old(self).wf(),
        ensures
            final(self).wf(),
            final(self).same_frame(*old(self)),
            final(self).lpos() == word_token(old(self).src(), old(self).lpos()).0,
            match word_token(old(self).src(), old(self).lpos()).1 {
                ScanStep::Token(t) => r matches Ok(tok) && tok@ == t,
                _ => false,
            },
    {
        loop
            invariant
                self.wf(),
                self.same_frame(*old(self)),
                ident_chars(self.src(), self.lpos()) == ident_chars(old(self).src(), old(self).lpos()),
            ensures
                self.wf(),
                self.same_frame(*old(self)),
                self.lpos() == ident_chars(old(self).src(), old(self).lpos()),
            decreases remaining(self.src(), self.lpos()),
        {
            let current = match self.current() {
                Some(c) => c,
                None => '\0',
            };
            if !self.is_alphanumeric(current) && current != '_' {
                break;
            }
            proof {
                lemma_adv(self.src(), self.lpos());
            }
            self.advance();
        }
        let lexeme = self.get_lexeme();
        if str_eq(lexeme.as_str(), "true") || str_eq(lexeme.as_str(), "false") {
            return Ok(self.token(TokenKind::Literal(LiteralKind::Boolean)));
        }
        let kind = match KeywordKind::from_keyword(lexeme.as_str()) {
            Some(k) => TokenKind::Keyword(k),
            None => TokenKind::Identifier,
        };
        Ok(self.token_lexeme(kind, lexeme))
    }

    /// A string literal whose opening quote `terminator` was taken.
    fn string(&mut self, terminator: char) -> (r: DiagnosticResult<Token>)
        requires
            old(self).wf(),
        ensures
            final(self).wf(),
            final(self).same_frame(*old(self)),
            final(self).lpos() == string_token(old(self).src(), old(self).lpos(), terminator).0,
            match string_token(old(self).src(), old(self).lpos(), terminator).1 {
                ScanStep::Token(t) => r matches Ok(tok) && tok@ == t,
                ScanStep::Fail(d) => r == Err::<Token, DiagnosticReport>(d),
                ScanStep::Skip => false,
            },
    {
        let mut escaped = false;
        let mut text = String::new();
        let ghost s = self.src();
        let ghost target = string_body(s, self.lpos(), terminator, false, seq![]);
        while !self.is_at_end()
            invariant_except_break
                self.wf(),
                self.same_frame(*old(self)),
                s == self.src(),
                string_body(s, self.lpos(), terminator, escaped, text@) == target,
            ensures
                self.wf(),
                self.same_frame(*old(self)),
                s == self.src(),
                self.lpos() == target.0,
                text@ == target.1,
            decreases remaining(s, self.lpos()),
        {
            let c = match self.current() {
                Some(c) => c,
                None => '\0',
            };
            proof {
                lemma_adv(s, self.lpos());
            }
            if escaped {
                let ch = if c == 'n' {
                    '\n'
                } else if c == 't' {
                    '\t'
                } else if c == 'r' {
                    '\r'
                } else {
                    c
                };
                push_char(&mut text, ch);
                escaped = false;
            } else if c == '\\' {
                escaped = true;
            } else if c == terminator {
                break;
            } else {
                push_char(&mut text, c);
            }
            self.advance();
        }
        if self.is_at_end() {
            return Err(self.diagnostic(LexerDiagnostic::UnterminatedString));
        }
        proof {
            lemma_adv(s, self.lpos());
        }
        self.advance();
        Ok(self.token_lexeme(TokenKind::Literal(LiteralKind::String), text))
    }

    /// Takes everything up to and including the next line break (a comment's `//` was taken).
    fn comment(&mut self)
        requires
            old(self).wf(),
        ensures
            final(self).wf(),
            final(self).same_frame(*old(self)),
            final(self).lpos() == comment(old(self).src(), old(self).lpos()),
    {
        loop
            invariant_except_break
                self.wf(),
                self.same_frame(*old(self)),
                comment(self.src(), self.lpos()) == comment(old(self).src(), old(self).lpos()),
            ensures
                self.wf(),
                self.same_frame(*old(self)),
                self.lpos() == comment(old(self).src(), old(self).lpos()),
            decreases remaining(self.src(), self.lpos()),
        {
            proof {
                lemma_adv(self.src(), self.lpos());
            }
            match self.advance() {
                Some(c) => {
                    if c == '\n' {
                        self.newline();
                        break;
                    }
                },
                None => break,
            }
        }
    }

    /// The token of kind `kind` whose lexeme is the text of the current token.
    fn token(&mut self, kind: TokenKind) -> (r: Token)
        requires
            old(self).wf(),
        ensures
            *final(self) == *old(self),
            r@ == make_token(old(self).lpos(), kind, lexeme(old(self).src(), old(self).lpos())),
    {
        let lexeme = self.get_lexeme();
        self.token_lexeme(kind, lexeme)
    }

    /// The token of kind `kind` with the lexeme `lexeme`, at the current token's place.
    fn token_lexeme(&mut self, kind: TokenKind, lexeme: String) -> (r: Token)
        requires
            old(self).wf(),
        ensures
            *final(self) == *old(self),
            r@ == make_token(old(self).lpos(), kind, lexeme@),
    {
        let width = lexeme.as_str().len();
        let column = if self.column >= width { self.column - width } else { 0 };
        Token {
            kind,
            cursor: Cursor { column, line: self.line },
            span: Span {
                source_id: CodeSourceId::zero(),
                start: self.start as u32,
                end: (self.start + self.length) as u32,
            },
            lexeme,
        }
    }

    /// The diagnostic `message` at the current token.
    fn diagnostic(&self, message: LexerDiagnostic) -> (r: DiagnosticReport)
        requires
            self.wf(),
        ensures
            r == make_diagnostic(self.lpos(), message),
    {
        DiagnosticReport {
            message: DiagnosticMessage::Lexer(message),
            span: Span {
                source_id: CodeSourceId::zero(),
                start: self.start as u32,
                end: (self.start + self.length) as u32,
            },
            cursor: Cursor { line: self.line, column: self.column },
        }
    }

    fn newline(&mut self)
        requires
            old(self).wf(),
            old(self).lpos().line + 1 <= index(old(self).lpos()) + 1,
        ensures
            final(self).wf(),
            final(self).same_frame(*old(self)),
            final(self).lpos() == newline(old(self).lpos()),
    {
        self.line = self.line + 1;
        self.column = 1;
    }

    /// Takes the current character if it is `expected`.
    fn eat_if(&mut self, expected: char) -> (r: bool)
        requires
            old(self).wf(),
        ensures
            final(self).wf(),
            final(self).same_frame(*old(self)),
            (final(self).lpos(), r) == eat(old(self).src(), old(self).lpos(), expected),
    {
        if self.current_is(expected) {
            proof {
                lemma_adv(self.src(), self.lpos());
            }
            self.advance();
            true
        } else {
            false
        }
    }

    /// Takes the current character into the token and gives it (nothing at the end).
    fn advance(&mut self) -> (r: Option<char>)
        requires
            old(self).wf(),
        ensures
            final(self).wf(),
            final(self).same_frame(*old(self)),
            final(self).lpos() == adv(old(self).src(), old(self).lpos()),
            r == cur(old(self).src(), old(self).lpos()),
    {
        let c = match self.current() {
            Some(c) => c,
            None => {
                return None;
            },
        };
        self.length = self.length + 1;
        self.column = self.column + 1;
        Some(c)
    }

    fn current(&self) -> (r: Option<char>)
        requires
            self.wf(),
        ensures
            r == cur(self.src(), self.lpos()),
    {
        self.peek_by(0)
    }

    fn current_is(&self, expected: char) -> (r: bool)
        requires
            self.wf(),
        ensures
            r == (cur(self.src(), self.lpos()) == Some(expected)),
    {
        match self.current() {
            Some(c) => c == expected,
            None => false,
        }
    }

    fn peek(&self) -> (r: char)
        requires
            self.wf(),
        ensures
            r == peek(self.src(), self.lpos()),
    {
        match self.peek_by(1) {
            Some(c) => c,
            None => '\0',
        }
    }

    fn peek_by(&self, offset: usize) -> (r: Option<char>)
        requires
            self.wf(),
            offset <= 1,
        ensures
            r == char_at(self.src(), index(self.lpos()) + offset),
    {
        let index = self.start + self.length + offset;
        if index < self.source.len() {
            Some(self.source[index] as char)
        } else {
            None
        }
    }

    /// The text of the current token, one character per byte.
    fn get_lexeme(&self) -> (r: String)
        requires
            self.wf(),
        ensures
            r@ == lexeme(self.src(), self.lpos()),
    {
        let mut out = String::new();
        let mut i = self.start;
        let end = self.start + self.length;
        while i < end
            invariant
                self.wf(),
                self.start <= i <= end,
                end == index(self.lpos()),
                out@ == self.src().subrange(self.start as int, i as int).map_values(|b: u8| b as char),
            decreases end - i,
        {
            push_char(&mut out, self.source[i] as char);
            proof {
                assert(self.src().subrange(self.start as int, i + 1).map_values(|b: u8| b as char)
                    =~= self.src().subrange(self.start as int, i as int).map_values(|b: u8| b as char).push(self.src()[i as int] as char));
            }
            i = i + 1;
        }
        out
    }

    fn is_at_end(&self) -> (r: bool)
        requires
            self.wf(),
        ensures
            r == at_end(self.src(), self.lpos()),
    {
        self.start + self.length >= self.source.len()
    }

    fn is_digit(&self, c: char) -> (r: bool)
        ensures
            r == is_digit(c),
    {
        '0' <= c && c <= '9'
    }

    fn is_alpha(&self, c: char) -> (r: bool)
        ensures
            r == is_alpha(c),
    {
        ('a' <= c && c <= 'z') || ('A' <= c && c <= 'Z')
    }

    fn is_alphanumeric(&self, c: char) -> (r: bool)
        ensures
            r == (is_alpha(c) || is_digit(c)),
    {
        self.is_alpha(c) || self.is_digit(c)
    }
}

/// A copy of every token.
fn copy_tokens(tokens: &Vec<Token>) -> (r: Vec<Token>)
    ensures
        r@.map_values(|t: Token| t@) == tokens@.map_values(|t: Token| t@),
{
    let mut out: Vec<Token> = Vec::new();
    let mut i: usize = 0;
    while i < tokens.len()
        invariant
            i <= tokens@.len(),
            out@.len() == i,
            forall|j: int| 0 <= j < i ==> (#[trigger] out@[j])@ == tokens@[j]@,
        decreases tokens.len() - i,
    {
        let t = tokens[i].duplicate();
        out.push(t);
        i = i + 1;
    }
    assert(out@.map_values(|t: Token| t@) =~= tokens@.map_values(|t: Token| t@));
    out
}

} // verus!

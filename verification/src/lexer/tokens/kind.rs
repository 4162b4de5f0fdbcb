use vstd::prelude::*;

use crate::text::str_eq;

verus! {

#[derive(Debug, Clone, Copy, PartialEq, Eq, Structural)]
pub enum TokenKind {
    Keyword(KeywordKind),
    Literal(LiteralKind),
    Punctuation(PunctuationKind),
    Operator(OperatorKind),
    Identifier,
    EndOfFile,
}

#[derive(Debug, Clone, Copy, PartialEq, Eq, Structural)]
pub enum KeywordKind {
    If,
    Else,
    While,
    For,
    Function,
    /// `let`
    Var,
    Mut,
    Return,
    Break,
    Continue,
    Import,
    Class,
    This,
    Base,
    /// `pub`
    Public,
}

#[derive(Debug, Clone, Copy, PartialEq, Eq, Structural)]
pub enum LiteralKind {
    Integer,
    Decimal,
    String,
    Boolean,
}

#[derive(Debug, Clone, Copy, PartialEq, Eq, Structural)]
pub enum PunctuationKind {
    /// Value: `,`
    Comma,
    /// Value: `;`
    Semicolon,
    /// Value: `:`
    Colon,
    /// Value: `.`
    Dot,
    /// Value: `?`
    QuestionMark,
    /// Value: `(`
    LeftParen,
    /// Value: `)`
    RightParen,
    /// Value: `{`
    LeftBrace,
    /// Value: `}`
    RightBrace,
    /// Value: `[`
    LeftBracket,
    /// Value: `]`
    RightBracket,
}

#[derive(Debug, Clone, Copy, PartialEq, Eq, Structural)]
pub enum OperatorKind {
    /// Value: `+`
    Plus,
    /// Value: `-`
    Minus,
    /// Value: `*`
    Asterisk,
    /// Value: `/`
    Slash,
    /// Value: `%`
    Percent,
    /// Value: `=`
    Equals,
    /// Value: `==`
    EqualsEquals,
    /// Value: `!=`
    NotEquals,
    /// Value: `>`
    GreaterThan,
    /// Value: `<`
    LessThan,
    /// Value: `>=`
    GreaterThanOrEqual,
    /// Value: `<=`
    LessThanOrEqual,
    /// Value: `&&`
    And,
    /// Value: `||`
    Or,
    /// Value: `!`
    Not,
    /// Value: `~`
    BitwiseNot,
    /// Value: `&`
    BitwiseAnd,
    /// Value: `|`
    BitwiseOr,
    /// Value: `^`
    BitwiseXor,
    /// Value: `<<`
    ShiftLeft,
    /// Value: `>>`
    ShiftRight,
    /// Value: `+=`
    PlusEquals,
    /// Value: `-=`
    MinusEquals,
    /// Value: `*=`
    AsteriskEquals,
    /// Value: `/=`
    SlashEquals,
    /// Value: `%=`
    PercentEquals,
    /// Value: `&&=`
    AndEquals,
    /// Value: `||=`
    OrEquals,
    /// Value: `&=`
    BitwiseAndEquals,
    /// Value: `|=`
    BitwiseOrEquals,
    /// Value: `^=`
    BitwiseXorEquals,
    /// Value: `<<=`
    ShiftLeftEquals,
    /// Value: `>>=`
    ShiftRightEquals,
}

/// The keyword that a word spells, if it is one.
pub open spec fn spec_keyword(w: Seq<char>) -> Option<KeywordKind> {
    if w == "if"@ {
        Some(KeywordKind::If)
    } else if w == "else"@ {
        Some(KeywordKind::Else)
    } else if w == "while"@ {
        Some(KeywordKind::While)
    } else if w == "for"@ {
        Some(KeywordKind::For)
    } else if w == "fn"@ {
        Some(KeywordKind::Function)
    } else if w == "let"@ {
        Some(KeywordKind::Var)
    } else if w == "mut"@ {
        Some(KeywordKind::Mut)
    } else if w == "return"@ {
        Some(KeywordKind::Return)
    } else if w == "break"@ {
        Some(KeywordKind::Break)
    } else if w == "continue"@ {
        Some(KeywordKind::Continue)
    } else if w == "import"@ {
        Some(KeywordKind::Import)
    } else if w == "class"@ {
        Some(KeywordKind::Class)
    } else if w == "this"@ {
        Some(KeywordKind::This)
    } else if w == "base"@ {
        Some(KeywordKind::Base)
    } else if w == "pub"@ {
        Some(KeywordKind::Public)
    } else {
        None
    }
}

impl KeywordKind {
    /// The keyword that `value` spells, if it is one.
    pub fn from_keyword(value: &str) -> (r: Option<KeywordKind>)
        ensures
            r == spec_keyword(value@),
    {
        if str_eq(value, "if") {
            Some(KeywordKind::If)
        } else if str_eq(value, "else") {
            Some(KeywordKind::Else)
        } else if str_eq(value, "while") {
            Some(KeywordKind::While)
        } else if str_eq(value, "for") {
            Some(KeywordKind::For)
        } else if str_eq(value, "fn") {
            Some(KeywordKind::Function)
        } else if str_eq(value, "let") {
            Some(KeywordKind::Var)
        } else if str_eq(value, "mut") {
            Some(KeywordKind::Mut)
        } else if str_eq(value, "return") {
            Some(KeywordKind::Return)
        } else if str_eq(value, "break") {
            Some(KeywordKind::Break)
        } else if str_eq(value, "continue") {
            Some(KeywordKind::Continue)
        } else if str_eq(value, "import") {
            Some(KeywordKind::Import)
        } else if str_eq(value, "class") {
            Some(KeywordKind::Class)
        } else if str_eq(value, "this") {
            Some(KeywordKind::This)
        } else if str_eq(value, "base") {
            Some(KeywordKind::Base)
        } else if str_eq(value, "pub") {
            Some(KeywordKind::Public)
        } else {
            None
        }
    }

    pub open spec fn spec_name(self) -> Seq<char> {
        match self {
            KeywordKind::If => "if"@,
            KeywordKind::Else => "else"@,
            KeywordKind::While => "while"@,
            KeywordKind::For => "for"@,
            KeywordKind::Function => "function"@,
            KeywordKind::Var => "let"@,
            KeywordKind::Mut => "mut"@,
            KeywordKind::Return => "return"@,
            KeywordKind::Break => "break"@,
            KeywordKind::Continue => "continue"@,
            KeywordKind::Import => "import"@,
            KeywordKind::Class => "class"@,
            KeywordKind::This => "this"@,
            KeywordKind::Base => "base"@,
            KeywordKind::Public => "pub"@,
        }
    }

    /// The name of the keyword, as diagnostics print it.
    pub fn name(&self) -> (r: &'static str)
        ensures
            r@ == self.spec_name(),
    {
        match self {
            KeywordKind::If => "if",
            KeywordKind::Else => "else",
            KeywordKind::While => "while",
            KeywordKind::For => "for",
            KeywordKind::Function => "function",
            KeywordKind::Var => "let",
            KeywordKind::Mut => "mut",
            KeywordKind::Return => "return",
            KeywordKind::Break => "break",
            KeywordKind::Continue => "continue",
            KeywordKind::Import => "import",
            KeywordKind::Class => "class",
            KeywordKind::This => "this",
            KeywordKind::Base => "base",
            KeywordKind::Public => "pub",
        }
    }
}

impl std::str::FromStr for KeywordKind {
    type Err = ();

    fn from_str(value: &str) -> Result<Self, Self::Err> {
        match KeywordKind::from_keyword(value) {
            Some(k) => Ok(k),
            None => Err(()),
        }
    }
}

impl LiteralKind {
    pub open spec fn spec_name(self) -> Seq<char> {
        match self {
            LiteralKind::Integer => "integer"@,
            LiteralKind::Decimal => "decimal"@,
            LiteralKind::String => "string"@,
            LiteralKind::Boolean => "boolean"@,
        }
    }

    /// The snake-case name of the kind of literal.
    pub fn name(&self) -> (r: &'static str)
        ensures
            r@ == self.spec_name(),
    {
        match self {
            LiteralKind::Integer => "integer",
            LiteralKind::Decimal => "decimal",
            LiteralKind::String => "string",
            LiteralKind::Boolean => "boolean",
        }
    }
}

impl PunctuationKind {
    pub open spec fn spec_name(self) -> Seq<char> {
        match self {
            PunctuationKind::Comma => "comma"@,
            PunctuationKind::Semicolon => "semicolon"@,
            PunctuationKind::Colon => "colon"@,
            PunctuationKind::Dot => "dot"@,
            PunctuationKind::QuestionMark => "question_mark"@,
            PunctuationKind::LeftParen => "left_paren"@,
            PunctuationKind::RightParen => "right_paren"@,
            PunctuationKind::LeftBrace => "left_brace"@,
            PunctuationKind::RightBrace => "right_brace"@,
            PunctuationKind::LeftBracket => "left_bracket"@,
            PunctuationKind::RightBracket => "right_bracket"@,
        }
    }

    /// The snake-case name of the punctuation.
    pub fn name(&self) -> (r: &'static str)
        ensures
            r@ == self.spec_name(),
    {
        match self {
            PunctuationKind::Comma => "comma",
            PunctuationKind::Semicolon => "semicolon",
            PunctuationKind::Colon => "colon",
            PunctuationKind::Dot => "dot",
            PunctuationKind::QuestionMark => "question_mark",
            PunctuationKind::LeftParen => "left_paren",
            PunctuationKind::RightParen => "right_paren",
            PunctuationKind::LeftBrace => "left_brace",
            PunctuationKind::RightBrace => "right_brace",
            PunctuationKind::LeftBracket => "left_bracket",
            PunctuationKind::RightBracket => "right_bracket",
        }
    }
}

impl OperatorKind {
    pub open spec fn spec_name(self) -> Seq<char> {
        match self {
            OperatorKind::Plus => "plus"@,
            OperatorKind::Minus => "minus"@,
            OperatorKind::Asterisk => "asterisk"@,
            OperatorKind::Slash => "slash"@,
            OperatorKind::Percent => "percent"@,
            OperatorKind::Equals => "equals"@,
            OperatorKind::EqualsEquals => "equals_equals"@,
            OperatorKind::NotEquals => "not_equals"@,
            OperatorKind::GreaterThan => "greater_than"@,
            OperatorKind::LessThan => "less_than"@,
            OperatorKind::GreaterThanOrEqual => "greater_than_or_equal"@,
            OperatorKind::LessThanOrEqual => "less_than_or_equal"@,
            OperatorKind::And => "and"@,
            OperatorKind::Or => "or"@,
            OperatorKind::Not => "not"@,
            OperatorKind::BitwiseNot => "bitwise_not"@,
            OperatorKind::BitwiseAnd => "bitwise_and"@,
            OperatorKind::BitwiseOr => "bitwise_or"@,
            OperatorKind::BitwiseXor => "bitwise_xor"@,
            OperatorKind::ShiftLeft => "shift_left"@,
            OperatorKind::ShiftRight => "shift_right"@,
            OperatorKind::PlusEquals => "plus_equals"@,
            OperatorKind::MinusEquals => "minus_equals"@,
            OperatorKind::AsteriskEquals => "asterisk_equals"@,
            OperatorKind::SlashEquals => "slash_equals"@,
            OperatorKind::PercentEquals => "percent_equals"@,
            OperatorKind::AndEquals => "and_equals"@,
            OperatorKind::OrEquals => "or_equals"@,
            OperatorKind::BitwiseAndEquals => "bitwise_and_equals"@,
            OperatorKind::BitwiseOrEquals => "bitwise_or_equals"@,
            OperatorKind::BitwiseXorEquals => "bitwise_xor_equals"@,
            OperatorKind::ShiftLeftEquals => "shift_left_equals"@,
            OperatorKind::ShiftRightEquals => "shift_right_equals"@,
        }
    }

    /// The snake-case name of the operator.
    pub fn name(&self) -> (r: &'static str)
        ensures
            r@ == self.spec_name(),
    {
        match self {
            OperatorKind::Plus => "plus",
            OperatorKind::Minus => "minus",
            OperatorKind::Asterisk => "asterisk",
            OperatorKind::Slash => "slash",
            OperatorKind::Percent => "percent",
            OperatorKind::Equals => "equals",
            OperatorKind::EqualsEquals => "equals_equals",
            OperatorKind::NotEquals => "not_equals",
            OperatorKind::GreaterThan => "greater_than",
            OperatorKind::LessThan => "less_than",
            OperatorKind::GreaterThanOrEqual => "greater_than_or_equal",
            OperatorKind::LessThanOrEqual => "less_than_or_equal",
            OperatorKind::And => "and",
            OperatorKind::Or => "or",
            OperatorKind::Not => "not",
            OperatorKind::BitwiseNot => "bitwise_not",
            OperatorKind::BitwiseAnd => "bitwise_and",
            OperatorKind::BitwiseOr => "bitwise_or",
            OperatorKind::BitwiseXor => "bitwise_xor",
            OperatorKind::ShiftLeft => "shift_left",
            OperatorKind::ShiftRight => "shift_right",
            OperatorKind::PlusEquals => "plus_equals",
            OperatorKind::MinusEquals => "minus_equals",
            OperatorKind::AsteriskEquals => "asterisk_equals",
            OperatorKind::SlashEquals => "slash_equals",
            OperatorKind::PercentEquals => "percent_equals",
            OperatorKind::AndEquals => "and_equals",
            OperatorKind::OrEquals => "or_equals",
            OperatorKind::BitwiseAndEquals => "bitwise_and_equals",
            OperatorKind::BitwiseOrEquals => "bitwise_or_equals",
            OperatorKind::BitwiseXorEquals => "bitwise_xor_equals",
            OperatorKind::ShiftLeftEquals => "shift_left_equals",
            OperatorKind::ShiftRightEquals => "shift_right_equals",
        }
    }
}

impl TokenKind {
    pub open spec fn spec_name(self) -> Seq<char> {
        match self {
            TokenKind::Keyword(k) => k.spec_name(),
            TokenKind::Literal(k) => k.spec_name(),
            TokenKind::Punctuation(k) => k.spec_name(),
            TokenKind::Operator(k) => k.spec_name(),
            TokenKind::Identifier => "identifier"@,
            TokenKind::EndOfFile => "eof"@,
        }
    }

    /// The name of the kind of token, as diagnostics print it.
    pub fn name(&self) -> (r: &'static str)
        ensures
            r@ == self.spec_name(),
    {
        match self {
            TokenKind::Keyword(k) => k.name(),
            TokenKind::Literal(k) => k.name(),
            TokenKind::Punctuation(k) => k.name(),
            TokenKind::Operator(k) => k.name(),
            TokenKind::Identifier => "identifier",
            TokenKind::EndOfFile => "eof",
        }
    }

    /// The operator of an operator token.
    pub fn as_operator(&self) -> (r: Option<&OperatorKind>)
        ensures
            match *self {
                TokenKind::Operator(k) => r == Some(&k),
                _ => r is None,
            },
    {
        if let TokenKind::Operator(kind) = self {
            Some(kind)
        } else {
            None
        }
    }
}

} // verus!

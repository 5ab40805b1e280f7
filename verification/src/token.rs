//! The tokenized form of the BASIC dialect: keywords, symbols, numbers,
//! quoted strings, variables and line breaks.

use vstd::prelude::*;

use crate::ast::Variable;
use crate::rule::TokenPredicate;

verus! {

/// A token of the language.
#[derive(Debug)]
pub enum Token {
    Keyword(Keyword),
    Variable(Variable),
    Number(usize),
    String(Vec<u8>),
    Symbol(Symbol),
    NewLine,
}

/// The mathematical view of a [`Token`]: the same token with the quoted
/// string's bytes as a sequence.
pub enum TokenView {
    Keyword(Keyword),
    Variable(Variable),
    Number(usize),
    StringLit(Seq<u8>),
    Symbol(Symbol),
    NewLine,
}

impl View for Token {
    type V = TokenView;

    open spec fn view(&self) -> TokenView {
        match self {
            Token::Keyword(k) => TokenView::Keyword(*k),
            Token::Variable(v) => TokenView::Variable(*v),
            Token::Number(n) => TokenView::Number(*n),
            Token::String(s) => TokenView::StringLit(s@),
            Token::Symbol(s) => TokenView::Symbol(*s),
            Token::NewLine => TokenView::NewLine,
        }
    }
}

/// Compares two byte buffers for equal contents.
fn bytes_eq(a: &Vec<u8>, b: &Vec<u8>) -> (r: bool)
    ensures
        r == (a@ == b@),
{
    if a.len() != b.len() {
        return false;
    }
    let n = a.len();
    let mut i: usize = 0;
    while i < n
        invariant
            n == a@.len(),
            n == b@.len(),
            i <= n,
            forall|k: int| 0 <= k < i ==> a@[k] == b@[k],
        decreases n - i,
    {
        if a[i] != b[i] {
            return false;
        }
        i = i + 1;
    }
    proof {
        assert(a@ =~= b@);
    }
    true
}

impl PartialEq for Token {
    /// Two tokens are equal when they have the same view: same variant, and
    /// for quoted strings the same bytes.
    fn eq(&self, other: &Token) -> (r: bool) {
        match (self, other) {
            (Token::Keyword(a), Token::Keyword(b)) => a == b,
            (Token::Variable(a), Token::Variable(b)) => a == b,
            (Token::Number(a), Token::Number(b)) => a == b,
            (Token::String(a), Token::String(b)) => bytes_eq(a, b),
            (Token::Symbol(a), Token::Symbol(b)) => a == b,
            (Token::NewLine, Token::NewLine) => true,
            _ => false,
        }
    }
}

impl vstd::std_specs::cmp::PartialEqSpecImpl for Token {
    open spec fn obeys_eq_spec() -> bool {
        true
    }

    open spec fn eq_spec(&self, other: &Token) -> bool {
        self@ == other@
    }
}

impl Token {
    /// Whether this token is a keyword.
    pub fn is_keyword(&self) -> (r: bool)
        ensures
            r == (self matches Token::Keyword(_)),
    {
        match self {
            Token::Keyword(_) => true,
            _ => false,
        }
    }
}

/// The language's keywords.
#[derive(Debug, PartialEq, Eq, Structural, Clone, Copy)]
pub enum Keyword {
    Print,
    If,
    Then,
    Goto,
    Input,
    Let,
    GoSub,
    Return,
    Clear,
    List,
    Run,
    End,
}

/// ASCII upper-case letters taken to lower case; every other byte is kept.
pub open spec fn to_lower(b: u8) -> u8 {
    if 65 <= b <= 90 {
        (b + 32) as u8
    } else {
        b
    }
}

/// A byte run taken to lower case, bytewise.
pub open spec fn lower_bytes(s: Seq<u8>) -> Seq<u8> {
    s.map_values(|b: u8| to_lower(b))
}

/// The lower-case spelling of a keyword.
pub open spec fn spelling(kw: Keyword) -> Seq<u8> {
    match kw {
        Keyword::Print => seq![112u8, 114u8, 105u8, 110u8, 116u8],
        Keyword::If => seq![105u8, 102u8],
        Keyword::Then => seq![116u8, 104u8, 101u8, 110u8],
        Keyword::Goto => seq![103u8, 111u8, 116u8, 111u8],
        Keyword::Input => seq![105u8, 110u8, 112u8, 117u8, 116u8],
        Keyword::Let => seq![108u8, 101u8, 116u8],
        Keyword::GoSub => seq![103u8, 111u8, 115u8, 117u8, 98u8],
        Keyword::Return => seq![114u8, 101u8, 116u8, 117u8, 114u8, 110u8],
        Keyword::Clear => seq![99u8, 108u8, 101u8, 97u8, 114u8],
        Keyword::List => seq![108u8, 105u8, 115u8, 116u8],
        Keyword::Run => seq![114u8, 117u8, 110u8],
        Keyword::End => seq![101u8, 110u8, 100u8],
    }
}

/// The keyword a word spells, compared without regard to ASCII case, or
/// nothing when it spells none.
pub open spec fn keyword_of(w: Seq<u8>) -> Option<Keyword> {
    if lower_bytes(w) == spelling(Keyword::Print) {
        Some(Keyword::Print)
    } else if lower_bytes(w) == spelling(Keyword::If) {
        Some(Keyword::If)
    } else if lower_bytes(w) == spelling(Keyword::Then) {
        Some(Keyword::Then)
    } else if lower_bytes(w) == spelling(Keyword::Goto) {
        Some(Keyword::Goto)
    } else if lower_bytes(w) == spelling(Keyword::Input) {
        Some(Keyword::Input)
    } else if lower_bytes(w) == spelling(Keyword::Let) {
        Some(Keyword::Let)
    } else if lower_bytes(w) == spelling(Keyword::GoSub) {
        Some(Keyword::GoSub)
    } else if lower_bytes(w) == spelling(Keyword::Return) {
        Some(Keyword::Return)
    } else if lower_bytes(w) == spelling(Keyword::Clear) {
        Some(Keyword::Clear)
    } else if lower_bytes(w) == spelling(Keyword::List) {
        Some(Keyword::List)
    } else if lower_bytes(w) == spelling(Keyword::Run) {
        Some(Keyword::Run)
    } else if lower_bytes(w) == spelling(Keyword::End) {
        Some(Keyword::End)
    } else {
        None
    }
}

/// ASCII upper-case letters taken to lower case; every other byte is kept.
fn to_lower_byte(b: u8) -> (r: u8)
    ensures
        r == to_lower(b),
{
    if b >= 65 && b <= 90 {
        b + 32
    } else {
        b
    }
}

/// Whether `word`, lowered, spells the given keyword.
fn matches_spelling(word: &[u8], kw: &Keyword) -> (r: bool)
    ensures
        r == (lower_bytes(word@) == spelling(*kw)),
{
    let expected: Vec<u8> = match kw {
        Keyword::Print => vec![112u8, 114u8, 105u8, 110u8, 116u8],
        Keyword::If => vec![105u8, 102u8],
        Keyword::Then => vec![116u8, 104u8, 101u8, 110u8],
        Keyword::Goto => vec![103u8, 111u8, 116u8, 111u8],
        Keyword::Input => vec![105u8, 110u8, 112u8, 117u8, 116u8],
        Keyword::Let => vec![108u8, 101u8, 116u8],
        Keyword::GoSub => vec![103u8, 111u8, 115u8, 117u8, 98u8],
        Keyword::Return => vec![114u8, 101u8, 116u8, 117u8, 114u8, 110u8],
        Keyword::Clear => vec![99u8, 108u8, 101u8, 97u8, 114u8],
        Keyword::List => vec![108u8, 105u8, 115u8, 116u8],
        Keyword::Run => vec![114u8, 117u8, 110u8],
        Keyword::End => vec![101u8, 110u8, 100u8],
    };
    proof {
        assert(expected@ =~= spelling(*kw));
    }
    if word.len() != expected.len() {
        return false;
    }
    let n = word.len();
    let mut i: usize = 0;
    while i < n
        invariant
            n == word@.len(),
            n == expected@.len(),
            i <= n,
            expected@ == spelling(*kw),
            forall|k: int| 0 <= k < i ==> to_lower(word@[k]) == expected@[k],
        decreases n - i,
    {
        let b = *vstd::slice::slice_index_get(word, i);
        if to_lower_byte(b) != expected[i] {
            assert(lower_bytes(word@)[i as int] != spelling(*kw)[i as int]);
            return false;
        }
        i = i + 1;
    }
    proof {
        assert(lower_bytes(word@) =~= spelling(*kw));
    }
    true
}

impl Keyword {
    /// The keyword the given word spells, compared without regard to ASCII
    /// case, or nothing when it spells none.
    pub fn from_bytes(word: &[u8]) -> (r: Option<Keyword>)
        ensures
            r == keyword_of(word@),
    {
        if matches_spelling(word, &Keyword::Print) {
            Some(Keyword::Print)
        } else if matches_spelling(word, &Keyword::If) {
            Some(Keyword::If)
        } else if matches_spelling(word, &Keyword::Then) {
            Some(Keyword::Then)
        } else if matches_spelling(word, &Keyword::Goto) {
            Some(Keyword::Goto)
        } else if matches_spelling(word, &Keyword::Input) {
            Some(Keyword::Input)
        } else if matches_spelling(word, &Keyword::Let) {
            Some(Keyword::Let)
        } else if matches_spelling(word, &Keyword::GoSub) {
            Some(Keyword::GoSub)
        } else if matches_spelling(word, &Keyword::Return) {
            Some(Keyword::Return)
        } else if matches_spelling(word, &Keyword::Clear) {
            Some(Keyword::Clear)
        } else if matches_spelling(word, &Keyword::List) {
            Some(Keyword::List)
        } else if matches_spelling(word, &Keyword::Run) {
            Some(Keyword::Run)
        } else if matches_spelling(word, &Keyword::End) {
            Some(Keyword::End)
        } else {
            None
        }
    }
}

/// The symbols the language accepts.
#[derive(Debug, PartialEq, Eq, Structural, Clone, Copy)]
pub enum Symbol {
    LessThanSign,
    GreaterThanSign,
    EqualsSign,
    Plus,
    Minus,
    Times,
    Divide,
    Comma,
}

/// The error reported when a byte is not one of the language's symbols.
#[derive(Debug, PartialEq, Eq, Structural, Clone, Copy)]
pub enum SymbolFromStrError {
    UnrecognizedSymbol,
}

/// The symbol a byte spells, or nothing when it spells none.
pub open spec fn symbol_of_byte(b: u8) -> Option<Symbol> {
    if b == 60u8 {
        Some(Symbol::LessThanSign)
    } else if b == 62u8 {
        Some(Symbol::GreaterThanSign)
    } else if b == 61u8 {
        Some(Symbol::EqualsSign)
    } else if b == 43u8 {
        Some(Symbol::Plus)
    } else if b == 45u8 {
        Some(Symbol::Minus)
    } else if b == 42u8 {
        Some(Symbol::Times)
    } else if b == 47u8 {
        Some(Symbol::Divide)
    } else if b == 44u8 {
        Some(Symbol::Comma)
    } else {
        None
    }
}

impl Symbol {
    /// The symbol the given byte spells, or an error when it spells none.
    pub fn try_from_byte(value: u8) -> (r: Result<Symbol, SymbolFromStrError>)
        ensures
            match symbol_of_byte(value) {
                Some(s) => r == Ok::<Symbol, SymbolFromStrError>(s),
                None => r == Err::<Symbol, SymbolFromStrError>(
                    SymbolFromStrError::UnrecognizedSymbol,
                ),
            },
    {
        match value {
            60u8 => Ok(Symbol::LessThanSign),
            62u8 => Ok(Symbol::GreaterThanSign),
            61u8 => Ok(Symbol::EqualsSign),
            43u8 => Ok(Symbol::Plus),
            45u8 => Ok(Symbol::Minus),
            42u8 => Ok(Symbol::Times),
            47u8 => Ok(Symbol::Divide),
            44u8 => Ok(Symbol::Comma),
            _ => Err(SymbolFromStrError::UnrecognizedSymbol),
        }
    }
}

/// A declarative token classifier: the terminating-symbol predicates the
/// BASIC grammar layer hands to the grammar engine.
pub enum TokenMatcher {
    /// Accepts every token.
    AnyToken,
    /// Accepts exactly the tokens equal to the given one.
    TokenEquals(Token),
    /// Accepts exactly the given symbol token.
    SymbolIs(Symbol),
}

impl TokenPredicate for TokenMatcher {
    type Token = Token;

    open spec fn accepts(&self, token: &Token) -> bool {
        match self {
            TokenMatcher::AnyToken => true,
            TokenMatcher::TokenEquals(w) => w@ == token@,
            TokenMatcher::SymbolIs(s) => token@ matches TokenView::Symbol(x) && x == s,
        }
    }

    fn check(&self, token: &Token) -> (r: bool) {
        match self {
            TokenMatcher::AnyToken => true,
            TokenMatcher::TokenEquals(w) => w == token,
            TokenMatcher::SymbolIs(s) => match token {
                Token::Symbol(x) => x == s,
                _ => false,
            },
        }
    }
}

} // verus!

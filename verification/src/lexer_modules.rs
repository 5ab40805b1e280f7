//! The token recognizers of the BASIC dialect, and the stock lexer built
//! from them. Order matters: the quoted-string recognizer runs before the
//! symbol recognizer so quoted content is not read byte by byte, and the
//! keyword recognizer runs before the variable recognizer so a keyword is
//! not read as a run of one-letter variables.

use vstd::prelude::*;

use crate::ast::lemma_variable_eq;
use crate::ast::spec_variable;
use crate::ast::variable_of_byte;
use crate::ast::Variable;
use crate::lexer::Lexer;
use crate::lexer::LexerBuilder;
use crate::lexer::LexerModule;
use crate::lexer::LexerModuleResult;
use crate::lexer::LexerModuleSuccessResult;
use crate::lexer::LexError;
use crate::lexer::LexOutcome;
use crate::token::keyword_of;
use crate::token::symbol_of_byte;
use crate::token::Keyword;
use crate::token::Symbol;
use crate::token::Token;
use crate::token::TokenView;

verus! {

broadcast use vstd::std_specs::vec::group_vec_axioms, vstd::seq::group_seq_axioms;

/// Whether a byte is ASCII whitespace: space, tab, line feed, vertical
/// tab, form feed or carriage return.
pub open spec fn is_ascii_whitespace_byte(b: u8) -> bool {
    b == 32 || b == 9 || b == 10 || b == 11 || b == 12 || b == 13
}

/// Whether a byte is an ASCII decimal digit.
pub open spec fn is_ascii_digit_byte(b: u8) -> bool {
    48 <= b <= 57
}

/// The first position at or after `i` holding a byte that is not ASCII
/// whitespace, or the length of `s` when only whitespace remains.
pub open spec fn ws_scan(s: Seq<u8>, i: int) -> int
    decreases s.len() - i,
{
    if 0 <= i < s.len() && is_ascii_whitespace_byte(s[i]) {
        ws_scan(s, i + 1)
    } else {
        i
    }
}

/// The first position at or after `i` holding ASCII whitespace, or the
/// length of `s` when no whitespace remains.
pub open spec fn word_scan(s: Seq<u8>, i: int) -> int
    decreases s.len() - i,
{
    if 0 <= i < s.len() && !is_ascii_whitespace_byte(s[i]) {
        word_scan(s, i + 1)
    } else {
        i
    }
}

/// The first position at or after `i` holding a byte that is not a
/// decimal digit, or the length of `s` when only digits remain.
pub open spec fn digit_scan(s: Seq<u8>, i: int) -> int
    decreases s.len() - i,
{
    if 0 <= i < s.len() && is_ascii_digit_byte(s[i]) {
        digit_scan(s, i + 1)
    } else {
        i
    }
}

/// The first position at or after `i` holding a double-quote byte, or the
/// length of `s` when none remains.
pub open spec fn quote_scan(s: Seq<u8>, i: int) -> int
    decreases s.len() - i,
{
    if 0 <= i < s.len() && s[i] != 34 {
        quote_scan(s, i + 1)
    } else {
        i
    }
}

/// The value of the digit run `s[i..j)`, read as a decimal number.
pub open spec fn digits_value(s: Seq<u8>, i: int, j: int) -> int
    decreases j - i,
{
    if i >= j {
        0
    } else {
        digits_value(s, i, j - 1) * 10 + (s[j - 1] - 48)
    }
}

/// Reading more digits never shrinks the value: the value of a digit run
/// bounds the value of each of its prefixes.
pub proof fn lemma_digits_value_monotonic(s: Seq<u8>, i: int, j: int, j2: int)
    requires
        i <= j <= j2,
        forall|k: int| i <= k < j2 ==> is_ascii_digit_byte(#[trigger] s[k]),
    ensures
        0 <= digits_value(s, i, j) <= digits_value(s, i, j2),
    decreases j2 - j,
{
    if j == j2 {
        lemma_digits_value_nonnegative(s, i, j);
    } else {
        lemma_digits_value_monotonic(s, i, j, j2 - 1);
    }
}

/// The value of a digit run is never negative.
pub proof fn lemma_digits_value_nonnegative(s: Seq<u8>, i: int, j: int)
    requires
        forall|k: int| i <= k < j ==> is_ascii_digit_byte(#[trigger] s[k]),
    ensures
        0 <= digits_value(s, i, j),
    decreases j - i,
{
    if i < j {
        lemma_digits_value_nonnegative(s, i, j - 1);
    }
}

/// Whether a byte is an ASCII decimal digit.
fn byte_is_digit(b: u8) -> (r: bool)
    ensures
        r == is_ascii_digit_byte(b),
{
    b >= 48 && b <= 57
}

/// Whether a byte is ASCII whitespace.
fn byte_is_whitespace(b: u8) -> (r: bool)
    ensures
        r == is_ascii_whitespace_byte(b),
{
    b == 32 || b == 9 || b == 10 || b == 11 || b == 12 || b == 13
}

/// Scans past ASCII whitespace: the returned position is the first at or
/// after `from` holding something else, or the end of the input.
fn scan_whitespace(s: &[u8], from: usize) -> (r: usize)
    requires
        from <= s@.len(),
    ensures
        r == ws_scan(s@, from as int),
        from <= r <= s@.len(),
        r < s@.len() ==> !is_ascii_whitespace_byte(s@[r as int]),
    decreases s@.len() - from,
{
    let n = s.len();
    let mut i: usize = from;
    while i < n && byte_is_whitespace(*vstd::slice::slice_index_get(s, i))
        invariant
            n == s@.len(),
            from <= i <= n,
            ws_scan(s@, from as int) == ws_scan(s@, i as int),
        decreases n - i,
    {
        i = i + 1;
    }
    i
}

/// Scans to the end of a word: the returned position is the first at or
/// after `from` holding ASCII whitespace, or the end of the input.
fn scan_word(s: &[u8], from: usize) -> (r: usize)
    requires
        from <= s@.len(),
    ensures
        r == word_scan(s@, from as int),
        from <= r <= s@.len(),
        (from < s@.len() && !is_ascii_whitespace_byte(s@[from as int])) ==> r > from,
{
    let n = s.len();
    let mut i: usize = from;
    while i < n && !byte_is_whitespace(*vstd::slice::slice_index_get(s, i))
        invariant
            n == s@.len(),
            from <= i <= n,
            word_scan(s@, from as int) == word_scan(s@, i as int),
        decreases n - i,
    {
        i = i + 1;
    }
    i
}

/// Scans past decimal digits: the returned position is the first at or
/// after `from` holding a non-digit, or the end of the input. Every byte
/// between `from` and the returned position is a digit.
fn scan_digits(s: &[u8], from: usize) -> (r: usize)
    requires
        from <= s@.len(),
    ensures
        r == digit_scan(s@, from as int),
        from <= r <= s@.len(),
        forall|k: int| from <= k < r ==> is_ascii_digit_byte(#[trigger] s@[k]),
{
    let n = s.len();
    let mut i: usize = from;
    while i < n && byte_is_digit(*vstd::slice::slice_index_get(s, i))
        invariant
            n == s@.len(),
            from <= i <= n,
            digit_scan(s@, from as int) == digit_scan(s@, i as int),
            forall|k: int| from <= k < i ==> is_ascii_digit_byte(#[trigger] s@[k]),
        decreases n - i,
    {
        i = i + 1;
    }
    i
}

/// Scans to the next double quote: the returned position is the first at
/// or after `from` holding one, or the end of the input.
fn scan_quote(s: &[u8], from: usize) -> (r: usize)
    requires
        from <= s@.len(),
    ensures
        r == quote_scan(s@, from as int),
        from <= r <= s@.len(),
        r < s@.len() ==> s@[r as int] == 34,
{
    let n = s.len();
    let mut i: usize = from;
    while i < n && *vstd::slice::slice_index_get(s, i) != 34
        invariant
            n == s@.len(),
            from <= i <= n,
            quote_scan(s@, from as int) == quote_scan(s@, i as int),
        decreases n - i,
    {
        i = i + 1;
    }
    i
}

/// Copies the byte range `[i, j)` of a slice into an owned buffer.
fn copy_range(s: &[u8], i: usize, j: usize) -> (r: Vec<u8>)
    requires
        i <= j <= s@.len(),
    ensures
        r@ == s@.subrange(i as int, j as int),
{
    vstd::slice::slice_to_vec(vstd::slice::slice_subrange(s, i, j))
}

/// The first whitespace-delimited word of a byte stream: the run of
/// non-whitespace bytes that begins at the first non-whitespace position.
/// Nothing when the stream is empty or all whitespace.
pub fn get_first_word(stream: &[u8]) -> (r: Option<Vec<u8>>)
    ensures
        r is None <==> ws_scan(stream@, 0) == stream@.len(),
        r matches Some(w) ==> ws_scan(stream@, 0) < stream@.len() && w@ == stream@.subrange(
            ws_scan(stream@, 0),
            word_scan(stream@, ws_scan(stream@, 0)),
        ),
{
    let ws = scan_whitespace(stream, 0);
    if ws == stream.len() {
        return None;
    }
    let we = scan_word(stream, ws);
    Some(copy_range(stream, ws, we))
}

/// The outcome of the keyword recognizer: the first whitespace-delimited
/// word, when it spells a keyword without regard to ASCII case, becomes a
/// keyword token and everything through the word's end is consumed; any
/// other word, and a stream without a word, is ignored.
pub open spec fn keyword_outcome(s: Seq<u8>) -> LexOutcome<TokenView> {
    let ws = ws_scan(s, 0);
    if ws >= s.len() {
        LexOutcome::Ignored
    } else {
        let we = word_scan(s, ws);
        match keyword_of(s.subrange(ws, we)) {
            Some(kw) => LexOutcome::Success {
                token: TokenView::Keyword(kw),
                remainder: s.skip(we),
            },
            None => LexOutcome::Ignored,
        }
    }
}

/// Recognizes the language's keywords, skipping leading whitespace.
#[derive(Debug, Clone, Copy)]
pub struct KeywordLexerModule();

impl LexerModule for KeywordLexerModule {
    type Language = Token;

    open spec fn spec_parse(&self, stream: Seq<u8>) -> LexOutcome<TokenView> {
        keyword_outcome(stream)
    }

    fn parse_stream(&self, stream: &[u8]) -> (r: LexerModuleResult<Token>) {
        let ws = scan_whitespace(stream, 0);
        if ws == stream.len() {
            return LexerModuleResult::TokenIgnored;
        }
        let we = scan_word(stream, ws);
        let word = vstd::slice::slice_subrange(stream, ws, we);
        match Keyword::from_bytes(word) {
            None => LexerModuleResult::TokenIgnored,
            Some(kw) => {
                let remainder = copy_range(stream, we, stream.len());
                proof {
                    assert(remainder@ =~= stream@.skip(we as int));
                    assert(remainder@ =~= stream@.skip(
                        stream@.len() - remainder@.len(),
                    ));
                }
                LexerModuleResult::TokenSuccess(
                    LexerModuleSuccessResult { remainder, token: Token::Keyword(kw) },
                )
            },
        }
    }
}

/// The outcome of the number recognizer: a leading run of decimal digits
/// whose value fits the machine's word becomes a number token; a stream
/// with no leading digit, or a digit run whose value is too large for the
/// machine's word, is ignored.
pub open spec fn number_outcome(s: Seq<u8>) -> LexOutcome<TokenView> {
    let de = digit_scan(s, 0);
    if de == 0 {
        LexOutcome::Ignored
    } else if digits_value(s, 0, de) > usize::MAX {
        LexOutcome::Ignored
    } else {
        LexOutcome::Success {
            token: TokenView::Number(digits_value(s, 0, de) as usize),
            remainder: s.skip(de),
        }
    }
}

/// Recognizes unsigned decimal numbers.
#[derive(Debug, Clone, Copy)]
pub struct NumberLexerModule();

impl LexerModule for NumberLexerModule {
    type Language = Token;

    open spec fn spec_parse(&self, stream: Seq<u8>) -> LexOutcome<TokenView> {
        number_outcome(stream)
    }

    fn parse_stream(&self, stream: &[u8]) -> (r: LexerModuleResult<Token>) {
        let de = scan_digits(stream, 0);
        if de == 0 {
            return LexerModuleResult::TokenIgnored;
        }
        let mut acc: usize = 0;
        let mut i: usize = 0;
        while i < de
            invariant
                de <= stream@.len(),
                de == digit_scan(stream@, 0),
                forall|k: int| 0 <= k < de ==> is_ascii_digit_byte(#[trigger] stream@[k]),
                i <= de,
                acc == digits_value(stream@, 0, i as int),
            decreases de - i,
        {
            let d = *vstd::slice::slice_index_get(stream, i) - 48;
            if acc > usize::MAX / 10 || (acc == usize::MAX / 10 && d as usize > usize::MAX % 10) {
                proof {
                    assert(acc * 10 + d > usize::MAX) by (nonlinear_arith)
                        requires
                            acc > usize::MAX / 10 || (acc == usize::MAX / 10 && d > usize::MAX
                                % 10),
                            usize::MAX == 10 * (usize::MAX / 10) + usize::MAX % 10,
                            0 <= d,
                    ;
                    lemma_digits_value_monotonic(stream@, 0, i + 1, de as int);
                }
                return LexerModuleResult::TokenIgnored;
            }
            proof {
                assert(acc * 10 + d <= usize::MAX) by (nonlinear_arith)
                    requires
                        acc <= usize::MAX / 10,
                        acc == usize::MAX / 10 ==> d <= usize::MAX % 10,
                        usize::MAX == 10 * (usize::MAX / 10) + usize::MAX % 10,
                        d <= 9,
                ;
            }
            acc = acc * 10 + (d as usize);
            i = i + 1;
        }
        let remainder = copy_range(stream, de, stream.len());
        proof {
            assert(remainder@ =~= stream@.skip(de as int));
            assert(remainder@ =~= stream@.skip(stream@.len() - remainder@.len()));
        }
        LexerModuleResult::TokenSuccess(
            LexerModuleSuccessResult { remainder, token: Token::Number(acc) },
        )
    }
}

/// The outcome of the quoted-string recognizer: a stream that does not
/// open with a double quote is ignored; one that opens with a double quote
/// and closes it becomes a string token holding the bytes between the
/// quotes; one that opens a quote and never closes it is malformed.
pub open spec fn string_outcome(s: Seq<u8>) -> LexOutcome<TokenView> {
    if s.len() == 0 || s[0] != 34 {
        LexOutcome::Ignored
    } else {
        let q = quote_scan(s, 1);
        if q >= s.len() {
            LexOutcome::Failed(LexError::UnterminatedString)
        } else {
            LexOutcome::Success {
                token: TokenView::StringLit(s.subrange(1, q)),
                remainder: s.skip(q + 1),
            }
        }
    }
}

/// Recognizes quoted string literals.
#[derive(Debug, Clone, Copy)]
pub struct StringLexerModule();

impl LexerModule for StringLexerModule {
    type Language = Token;

    open spec fn spec_parse(&self, stream: Seq<u8>) -> LexOutcome<TokenView> {
        string_outcome(stream)
    }

    fn parse_stream(&self, stream: &[u8]) -> (r: LexerModuleResult<Token>) {
        if stream.len() == 0 || *vstd::slice::slice_index_get(stream, 0) != 34 {
            return LexerModuleResult::TokenIgnored;
        }
        let q = scan_quote(stream, 1);
        if q == stream.len() {
            return LexerModuleResult::TokenFailed(LexError::UnterminatedString);
        }
        let contents = copy_range(stream, 1, q);
        let remainder = copy_range(stream, q + 1, stream.len());
        proof {
            assert(remainder@ =~= stream@.skip(q + 1));
            assert(remainder@ =~= stream@.skip(stream@.len() - remainder@.len()));
        }
        LexerModuleResult::TokenSuccess(
            LexerModuleSuccessResult { remainder, token: Token::String(contents) },
        )
    }
}

/// The outcome of the symbol recognizer: a first byte spelling one of the
/// language's symbols becomes a symbol token consuming that byte; any
/// other stream is ignored.
pub open spec fn symbol_outcome(s: Seq<u8>) -> LexOutcome<TokenView> {
    if s.len() == 0 {
        LexOutcome::Ignored
    } else {
        match symbol_of_byte(s[0]) {
            Some(sym) => LexOutcome::Success {
                token: TokenView::Symbol(sym),
                remainder: s.skip(1),
            },
            None => LexOutcome::Ignored,
        }
    }
}

/// Recognizes the language's one-byte symbols.
#[derive(Debug, Clone, Copy)]
pub struct SymbolLexerModule();

impl LexerModule for SymbolLexerModule {
    type Language = Token;

    open spec fn spec_parse(&self, stream: Seq<u8>) -> LexOutcome<TokenView> {
        symbol_outcome(stream)
    }

    fn parse_stream(&self, stream: &[u8]) -> (r: LexerModuleResult<Token>) {
        if stream.len() == 0 {
            return LexerModuleResult::TokenIgnored;
        }
        let first = *vstd::slice::slice_index_get(stream, 0);
        match Symbol::try_from_byte(first) {
            Err(_) => LexerModuleResult::TokenIgnored,
            Ok(symbol) => {
                let remainder = copy_range(stream, 1, stream.len());
                proof {
                    assert(remainder@ =~= stream@.skip(1));
                    assert(remainder@ =~= stream@.skip(stream@.len() - remainder@.len()));
                }
                LexerModuleResult::TokenSuccess(
                    LexerModuleSuccessResult { remainder, token: Token::Symbol(symbol) },
                )
            },
        }
    }
}

/// The outcome of the variable recognizer: a first byte holding an ASCII
/// letter of either case becomes a variable token consuming that byte; any
/// other stream is ignored.
pub open spec fn variable_outcome(s: Seq<u8>) -> LexOutcome<TokenView> {
    if s.len() == 0 {
        LexOutcome::Ignored
    } else {
        match variable_of_byte(s[0]) {
            Some(v) => LexOutcome::Success {
                token: TokenView::Variable(spec_variable(v)),
                remainder: s.skip(1),
            },
            None => LexOutcome::Ignored,
        }
    }
}

/// Recognizes one-letter variables.
#[derive(Debug, Clone, Copy)]
pub struct VariableLexerModule();

impl LexerModule for VariableLexerModule {
    type Language = Token;

    open spec fn spec_parse(&self, stream: Seq<u8>) -> LexOutcome<TokenView> {
        variable_outcome(stream)
    }

    fn parse_stream(&self, stream: &[u8]) -> (r: LexerModuleResult<Token>) {
        if stream.len() == 0 {
            return LexerModuleResult::TokenIgnored;
        }
        let first = *vstd::slice::slice_index_get(stream, 0);
        match Variable::try_from_u8(first) {
            Err(_) => LexerModuleResult::TokenIgnored,
            Ok(variable) => {
                proof {
                    match variable_of_byte(stream@[0]) {
                        Some(v) => {
                            crate::ast::lemma_spec_variable(v);
                            lemma_variable_eq(variable, spec_variable(v));
                        },
                        None => {},
                    }
                }
                let remainder = copy_range(stream, 1, stream.len());
                proof {
                    assert(remainder@ =~= stream@.skip(1));
                    assert(remainder@ =~= stream@.skip(stream@.len() - remainder@.len()));
                }
                LexerModuleResult::TokenSuccess(
                    LexerModuleSuccessResult { remainder, token: Token::Variable(variable) },
                )
            },
        }
    }
}

/// The outcome of the line-break recognizer: a leading line-feed byte
/// becomes a line-break token consuming that byte; any other stream is
/// ignored.
pub open spec fn newline_outcome(s: Seq<u8>) -> LexOutcome<TokenView> {
    if s.len() > 0 && s[0] == 10 {
        LexOutcome::Success { token: TokenView::NewLine, remainder: s.skip(1) }
    } else {
        LexOutcome::Ignored
    }
}

/// Recognizes line breaks.
#[derive(Debug, Clone, Copy)]
pub struct NewlineLexerModule();

impl LexerModule for NewlineLexerModule {
    type Language = Token;

    open spec fn spec_parse(&self, stream: Seq<u8>) -> LexOutcome<TokenView> {
        newline_outcome(stream)
    }

    fn parse_stream(&self, stream: &[u8]) -> (r: LexerModuleResult<Token>) {
        if stream.len() > 0 && *vstd::slice::slice_index_get(stream, 0) == 10 {
            let remainder = copy_range(stream, 1, stream.len());
            proof {
                assert(remainder@ =~= stream@.skip(1));
                assert(remainder@ =~= stream@.skip(stream@.len() - remainder@.len()));
            }
            LexerModuleResult::TokenSuccess(
                LexerModuleSuccessResult { remainder, token: Token::NewLine },
            )
        } else {
            LexerModuleResult::TokenIgnored
        }
    }
}

/// Any one of the language's stock token recognizers, so that one pipeline
/// can chain recognizers of different kinds.
#[derive(Debug, Clone, Copy)]
pub enum BasicLexerModule {
    StringLit(StringLexerModule),
    Keyword(KeywordLexerModule),
    Number(NumberLexerModule),
    Variable(VariableLexerModule),
    Symbol(SymbolLexerModule),
    Newline(NewlineLexerModule),
}

impl LexerModule for BasicLexerModule {
    type Language = Token;

    open spec fn spec_parse(&self, stream: Seq<u8>) -> LexOutcome<TokenView> {
        match self {
            BasicLexerModule::StringLit(m) => m.spec_parse(stream),
            BasicLexerModule::Keyword(m) => m.spec_parse(stream),
            BasicLexerModule::Number(m) => m.spec_parse(stream),
            BasicLexerModule::Variable(m) => m.spec_parse(stream),
            BasicLexerModule::Symbol(m) => m.spec_parse(stream),
            BasicLexerModule::Newline(m) => m.spec_parse(stream),
        }
    }

    fn parse_stream(&self, stream: &[u8]) -> (r: LexerModuleResult<Token>) {
        match self {
            BasicLexerModule::StringLit(m) => m.parse_stream(stream),
            BasicLexerModule::Keyword(m) => m.parse_stream(stream),
            BasicLexerModule::Number(m) => m.parse_stream(stream),
            BasicLexerModule::Variable(m) => m.parse_stream(stream),
            BasicLexerModule::Symbol(m) => m.parse_stream(stream),
            BasicLexerModule::Newline(m) => m.parse_stream(stream),
        }
    }
}

/// The stock recognizer chain of the language, in pipeline order.
pub open spec fn default_modules() -> Seq<BasicLexerModule> {
    seq![
        BasicLexerModule::StringLit(StringLexerModule()),
        BasicLexerModule::Keyword(KeywordLexerModule()),
        BasicLexerModule::Number(NumberLexerModule()),
        BasicLexerModule::Variable(VariableLexerModule()),
        BasicLexerModule::Symbol(SymbolLexerModule()),
        BasicLexerModule::Newline(NewlineLexerModule()),
    ]
}

/// Creates the stock lexer of the language, with the recognizers in their
/// canonical order.
pub fn create_lexer() -> (r: Lexer<BasicLexerModule>)
    ensures
        r.modules_spec() == default_modules(),
{
    let r = LexerBuilder::<BasicLexerModule>::new().add_modules(
        vec![
            BasicLexerModule::StringLit(StringLexerModule()),
            BasicLexerModule::Keyword(KeywordLexerModule()),
            BasicLexerModule::Number(NumberLexerModule()),
            BasicLexerModule::Variable(VariableLexerModule()),
            BasicLexerModule::Symbol(SymbolLexerModule()),
            BasicLexerModule::Newline(NewlineLexerModule()),
        ],
    ).build();
    proof {
        assert(r.modules_spec() =~= default_modules());
    }
    r
}

} // verus!

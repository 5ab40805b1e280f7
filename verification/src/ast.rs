//! The abstract syntax tree of the BASIC dialect, and the program container
//! that collects parsed lines.

use vstd::prelude::*;

use std::collections::HashMap;

use crate::token::Symbol;
use crate::token::Token;

verus! {

broadcast use vstd::std_specs::hash::group_hash_axioms;

/// The errors of the syntax-tree layer: reading a parse tree or a token
/// stream into syntax-tree values.
#[derive(Debug, PartialEq, Eq, Structural, Clone, Copy)]
pub enum ParseError {
    /// An interior parse-tree node was expected, but a leaf stood there.
    ExpectedNode,
    /// A leaf was expected, but an interior parse-tree node stood there.
    ExpectedLeaf,
    /// A run of symbol tokens was expected, but another token stood in it.
    ExpectedSymbolToken,
    /// A run of symbols spells none of the relational operators.
    UnrecognizedRelOp,
    /// The token stream ended where a statement was expected.
    UnexpectedEndOfInput,
    /// A statement began with a token that is not a keyword.
    ExpectedKeyword,
}

/// A sequence of statements and associated metadata: the lines in input
/// order, plus a bookmark from each explicit line number to the position of
/// its line.
pub struct Program {
    /// The list of instructions in order.
    instructions: Vec<Line>,
    /// Numbered lines, as positions into [`Program::instructions`].
    numbered_lines: HashMap<usize, usize>,
}

impl Program {
    /// The lines added so far, in order.
    pub closed spec fn lines_spec(&self) -> Seq<Line> {
        self.instructions@
    }

    /// The bookmarked line numbers, each mapped to the position of its line.
    pub closed spec fn numbered_spec(&self) -> Map<usize, usize> {
        self.numbered_lines@
    }

    /// Every bookmark points at a line that carries its number.
    pub open spec fn wf(&self) -> bool {
        forall|n: usize|
            self.numbered_spec().dom().contains(n) ==> #[trigger] self.numbered_spec()[n]
                < self.lines_spec().len() && self.lines_spec()[self.numbered_spec()[n] as int].line_number_spec()
                == Some(n)
    }

    /// Creates an empty program.
    pub fn new() -> (r: Program)
        ensures
            r.lines_spec() == Seq::<Line>::empty(),
            r.numbered_spec() == Map::<usize, usize>::empty(),
            r.wf(),
    {
        Program { instructions: Vec::new(), numbered_lines: HashMap::new() }
    }

    /// Appends a line. A line that carries a number is also bookmarked
    /// under it, replacing any earlier line with the same number.
    pub fn add_line(&mut self, line: Line) -> (r: Result<(), ParseError>)
        requires
            old(self).wf(),
        ensures
            r is Ok,
            final(self).lines_spec() == old(self).lines_spec().push(line),
            line.line_number_spec() matches Some(n) ==> final(self).numbered_spec() == old(
                self,
            ).numbered_spec().insert(n, old(self).lines_spec().len() as usize),
            line.line_number_spec() is None ==> final(self).numbered_spec() == old(
                self,
            ).numbered_spec(),
            final(self).wf(),
    {
        let num = line.line_number();
        let idx = self.instructions.len();
        self.instructions.push(line);
        if let Some(n) = num {
            self.numbered_lines.insert(n, idx);
        }
        Ok(())
    }
}

/// One line of a program: an optional line number and a statement.
#[derive(Debug)]
pub struct Line {
    line_number: Option<usize>,
    statement: Statement,
}

impl Line {
    /// The line's explicit number, if it carries one.
    pub closed spec fn line_number_spec(&self) -> Option<usize> {
        self.line_number
    }

    /// The line's statement.
    pub closed spec fn statement_spec(&self) -> Statement {
        self.statement
    }

    /// Creates a line from its number, if any, and its statement.
    pub fn new(line_number: Option<usize>, statement: Statement) -> (r: Line)
        ensures
            r.line_number_spec() == line_number,
            r.statement_spec() == statement,
    {
        Line { line_number, statement }
    }

    /// The line's explicit number, if it carries one.
    pub fn line_number(&self) -> (r: Option<usize>)
        ensures
            r == self.line_number_spec(),
    {
        self.line_number
    }
}

/// A single statement: one of the language's keywords plus the arguments it
/// takes.
#[derive(Debug)]
pub enum Statement {
    Print(ExprList),
    If(IfData),
    Goto(Expression),
    Input(VariableList),
    Let(LetData),
    GoSub(Expression),
    Return,
    Clear,
    List,
    Run,
    End,
}

/// One or more variables separated by commas.
#[derive(Debug)]
pub struct VariableList {
    pub variable: Variable,
    pub cons: Vec<Variable>,
}

/// One or more strings or expressions separated by commas.
#[derive(Debug)]
pub struct ExprList {
    pub expression: ExprListItem,
    pub cons: Vec<ExprListItem>,
}

/// One entry of an expression list: a quoted string or an expression.
#[derive(Debug)]
pub enum ExprListItem {
    String(Vec<u8>),
    Expression(Expression),
}

/// The operands of an `IF`: two expressions joined by a relational
/// operator.
#[derive(Debug)]
pub struct IfData {
    pub l_expression: Expression,
    pub relop: RelOpSymbol,
    pub r_expression: Expression,
}

/// The operands of a `LET`: the assigned variable and its new value.
#[derive(Debug)]
pub struct LetData {
    pub variable: Variable,
    pub expression: Expression,
}

/// An expression: an optionally signed term followed by further signed
/// terms.
#[derive(Debug)]
pub struct Expression {
    /// An expression can start with a plus or minus sign.
    pub operator_prefix: Option<ExpressionPrefix>,
    pub term: Term,
    pub cons: Vec<ExpressionElement>,
}

/// One further term of an expression, joined by a plus or minus sign.
#[derive(Debug)]
pub struct ExpressionElement {
    pub operator_prefix: ExpressionPrefix,
    pub term: Term,
}

/// A term: a factor followed by further factors joined by a times or
/// divide sign.
#[derive(Debug)]
pub struct Term {
    pub factor: Factor,
    pub cons: Vec<TermElement>,
}

/// One further factor of a term, joined by a times or divide sign.
#[derive(Debug)]
pub struct TermElement {
    pub prefix: TermPrefix,
    pub factor: Factor,
}

/// A factor: a variable, a number, or a parenthesized expression.
#[derive(Debug)]
pub enum Factor {
    Variable(Variable),
    Number(usize),
    Expression(Box<Expression>),
}

/// A plus or minus sign connecting expression terms.
#[derive(Debug, PartialEq, Eq, Structural, Clone, Copy)]
pub enum ExpressionPrefix {
    Positive,
    Negative,
}

/// A times or divide sign connecting term factors.
#[derive(Debug, PartialEq, Eq, Structural, Clone, Copy)]
pub enum TermPrefix {
    Multiply,
    Divide,
}

/// A variable: any single letter, stored as its position in the alphabet,
/// from zero for `A` through twenty-five for `Z`.
#[derive(Debug, PartialEq, Eq, Structural, Copy, Clone)]
pub struct Variable(u8);

/// The error reported when a byte does not name a variable.
#[derive(Debug, PartialEq, Eq, Structural, Clone, Copy)]
pub enum VariableFromU8Error {
    /// The byte is not an ASCII letter.
    CharacterOutOfRange,
}

/// The alphabet position a byte names: ASCII letters of either case name
/// their position, every other byte names none.
pub open spec fn variable_of_byte(b: u8) -> Option<u8> {
    if 65u8 <= b <= 90u8 {
        Some((b - 65u8) as u8)
    } else if 97u8 <= b <= 122u8 {
        Some((b - 97u8) as u8)
    } else {
        None
    }
}

/// The variable at the given alphabet position.
pub closed spec fn spec_variable(v: u8) -> Variable {
    Variable(v)
}

/// [`spec_variable`] places the variable at the given alphabet position.
pub proof fn lemma_spec_variable(v: u8)
    ensures
        spec_variable(v).value_spec() == v,
{
}

/// Two variables at the same alphabet position are the same variable.
pub proof fn lemma_variable_eq(a: Variable, b: Variable)
    requires
        a.value_spec() == b.value_spec(),
    ensures
        a == b,
{
}

impl Variable {
    /// The variable's position in the alphabet.
    pub closed spec fn value_spec(&self) -> u8 {
        self.0
    }

    /// Reads a variable off a byte holding an ASCII letter of either case;
    /// any other byte is rejected.
    pub fn try_from_u8(value: u8) -> (r: Result<Variable, VariableFromU8Error>)
        ensures
            match variable_of_byte(value) {
                Some(v) => r matches Ok(var) && var.value_spec() == v,
                None => r == Err::<Variable, VariableFromU8Error>(
                    VariableFromU8Error::CharacterOutOfRange,
                ),
            },
    {
        if value >= 65u8 && value <= 90u8 {
            Ok(Variable(value - 65u8))
        } else if value >= 97u8 && value <= 122u8 {
            Ok(Variable(value - 97u8))
        } else {
            Err(VariableFromU8Error::CharacterOutOfRange)
        }
    }

    /// The variable's position in the alphabet.
    pub fn value(&self) -> (r: u8)
        ensures
            r == self.value_spec(),
    {
        self.0
    }
}

/// A relational operator.
#[derive(Debug, PartialEq, Eq, Structural, Clone, Copy)]
pub enum RelOpSymbol {
    LessThan,
    LessThanOrEqual,
    Equal,
    GreaterThan,
    GreaterThanOrEqual,
}

/// The relational operator a run of symbols spells, or nothing when it
/// spells none.
pub open spec fn rel_op_of_symbols(s: Seq<Symbol>) -> Option<RelOpSymbol> {
    if s.len() == 1 {
        match s[0] {
            Symbol::LessThanSign => Some(RelOpSymbol::LessThan),
            Symbol::EqualsSign => Some(RelOpSymbol::Equal),
            Symbol::GreaterThanSign => Some(RelOpSymbol::GreaterThan),
            _ => None,
        }
    } else if s.len() == 2 && s[0] == Symbol::LessThanSign && s[1] == Symbol::EqualsSign {
        Some(RelOpSymbol::LessThanOrEqual)
    } else if s.len() == 2 && s[0] == Symbol::GreaterThanSign && s[1] == Symbol::EqualsSign {
        Some(RelOpSymbol::GreaterThanOrEqual)
    } else {
        None
    }
}

/// Whether every token of the run is a symbol token.
pub open spec fn all_symbol_tokens(s: Seq<Token>) -> bool {
    forall|i: int| 0 <= i < s.len() ==> (#[trigger] s[i]) matches Token::Symbol(_)
}

/// The symbols of a run of symbol tokens, in order.
pub open spec fn symbols_of_tokens(s: Seq<Token>) -> Seq<Symbol> {
    s.map_values(|t: Token| t->Symbol_0)
}

impl RelOpSymbol {
    /// Reads a relational operator off a run of symbols: exactly the runs
    /// `<`, `<=`, `=`, `>` and `>=` are accepted.
    pub fn try_from_symbols(value: &[Symbol]) -> (r: Result<RelOpSymbol, ParseError>)
        ensures
            match rel_op_of_symbols(value@) {
                Some(op) => r == Ok::<RelOpSymbol, ParseError>(op),
                None => r == Err::<RelOpSymbol, ParseError>(ParseError::UnrecognizedRelOp),
            },
    {
        if value.len() == 1 {
            match vstd::slice::slice_index_get(value, 0) {
                Symbol::LessThanSign => Ok(RelOpSymbol::LessThan),
                Symbol::EqualsSign => Ok(RelOpSymbol::Equal),
                Symbol::GreaterThanSign => Ok(RelOpSymbol::GreaterThan),
                _ => Err(ParseError::UnrecognizedRelOp),
            }
        } else if value.len() == 2 {
            let a = *vstd::slice::slice_index_get(value, 0);
            let b = *vstd::slice::slice_index_get(value, 1);
            if a == Symbol::LessThanSign && b == Symbol::EqualsSign {
                Ok(RelOpSymbol::LessThanOrEqual)
            } else if a == Symbol::GreaterThanSign && b == Symbol::EqualsSign {
                Ok(RelOpSymbol::GreaterThanOrEqual)
            } else {
                Err(ParseError::UnrecognizedRelOp)
            }
        } else {
            Err(ParseError::UnrecognizedRelOp)
        }
    }

    /// Reads a relational operator off a run of tokens: every token must be
    /// a symbol token, and together the symbols must spell an operator.
    pub fn try_from_tokens(value: &[Token]) -> (r: Result<RelOpSymbol, ParseError>)
        ensures
            all_symbol_tokens(value@) ==> r == (match rel_op_of_symbols(
                symbols_of_tokens(value@),
            ) {
                Some(op) => Ok::<RelOpSymbol, ParseError>(op),
                None => Err::<RelOpSymbol, ParseError>(ParseError::UnrecognizedRelOp),
            }),
            !all_symbol_tokens(value@) ==> r == Err::<RelOpSymbol, ParseError>(
                ParseError::ExpectedSymbolToken,
            ),
    {
        let n = value.len();
        let mut symbols: Vec<Symbol> = Vec::new();
        let mut i: usize = 0;
        while i < n
            invariant
                n == value@.len(),
                i <= n,
                symbols@.len() == i,
                forall|k: int| 0 <= k < i ==> (#[trigger] value@[k]) matches Token::Symbol(_),
                forall|k: int| 0 <= k < i ==> symbols@[k] == value@[k]->Symbol_0,
            decreases n - i,
        {
            match vstd::slice::slice_index_get(value, i) {
                Token::Symbol(s) => {
                    symbols.push(*s);
                },
                _ => {
                    return Err(ParseError::ExpectedSymbolToken);
                },
            }
            i = i + 1;
        }
        proof {
            assert(symbols@ =~= symbols_of_tokens(value@));
        }
        RelOpSymbol::try_from_symbols(symbols.as_slice())
    }
}

} // verus!

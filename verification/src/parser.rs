//! The statement parser: reads a token stream into a [`Program`] of lines,
//! each an optional line number followed by a statement.

use vstd::prelude::*;

use crate::ast::Line;
use crate::ast::ParseError;
use crate::ast::Program;
use crate::ast::Statement;
use crate::token::Keyword;
use crate::token::Token;

verus! {

broadcast use vstd::std_specs::vec::group_vec_axioms, vstd::seq::group_seq_axioms;

/// The statement a keyword alone forms: only the keywords that take no
/// arguments form one.
pub open spec fn stmt_of_simple_keyword(k: Keyword) -> Option<Statement> {
    match k {
        Keyword::Return => Some(Statement::Return),
        Keyword::Clear => Some(Statement::Clear),
        Keyword::List => Some(Statement::List),
        Keyword::Run => Some(Statement::Run),
        Keyword::End => Some(Statement::End),
        _ => None,
    }
}

/// How reading one statement off the front of a token run goes: a
/// statement, a parse error, or a keyword whose statement form takes
/// arguments, which this parser does not support.
pub enum StatementOutcome {
    Stmt(Statement),
    Fails(ParseError),
    Unsupported,
}

/// Reads one statement off the front of a token run: the run must open
/// with a keyword, and only the keywords that take no arguments are
/// supported.
pub open spec fn statement_spec(rest: Seq<Token>) -> StatementOutcome {
    if rest.len() == 0 {
        StatementOutcome::Fails(ParseError::UnexpectedEndOfInput)
    } else {
        match rest[0] {
            Token::Keyword(k) => match stmt_of_simple_keyword(k) {
                Some(st) => StatementOutcome::Stmt(st),
                None => StatementOutcome::Unsupported,
            },
            _ => StatementOutcome::Fails(ParseError::ExpectedKeyword),
        }
    }
}

/// How parsing a whole token stream goes: the parsed lines, a parse
/// error, or a statement form this parser does not support.
pub enum ParseOutcome {
    Lines(Seq<(Option<usize>, Statement)>),
    Fails(ParseError),
    Unsupported,
}

/// Parses a token stream into lines: each line is an optional leading
/// number token followed by one statement.
pub open spec fn parse_lines_spec(tokens: Seq<Token>) -> ParseOutcome
    decreases tokens.len(), 1int,
{
    if tokens.len() == 0 {
        ParseOutcome::Lines(Seq::empty())
    } else {
        match tokens[0] {
            Token::Number(n) => parse_statement_then_rest(Some(n), tokens.drop_first()),
            _ => parse_statement_then_rest(None, tokens),
        }
    }
}

/// Parses one statement off the front of `rest` into a line numbered
/// `num`, then the remaining lines.
pub open spec fn parse_statement_then_rest(num: Option<usize>, rest: Seq<Token>) -> ParseOutcome
    decreases rest.len(), 0int,
{
    match statement_spec(rest) {
        StatementOutcome::Stmt(st) => match parse_lines_spec(rest.drop_first()) {
            ParseOutcome::Lines(ls) => ParseOutcome::Lines(seq![(num, st)] + ls),
            other => other,
        },
        StatementOutcome::Fails(e) => ParseOutcome::Fails(e),
        StatementOutcome::Unsupported => ParseOutcome::Unsupported,
    }
}

/// The lines of a program as number-statement pairs.
pub open spec fn line_pairs(lines: Seq<Line>) -> Seq<(Option<usize>, Statement)> {
    lines.map_values(|l: Line| (l.line_number_spec(), l.statement_spec()))
}

/// The bookmarks that adding the given lines in order leaves behind: each
/// numbered line maps its number to its position, later lines winning.
pub open spec fn bookmarks(ls: Seq<(Option<usize>, Statement)>) -> Map<usize, usize>
    decreases ls.len(),
{
    if ls.len() == 0 {
        Map::empty()
    } else {
        match ls.last().0 {
            Some(n) => bookmarks(ls.drop_last()).insert(n, (ls.len() - 1) as usize),
            None => bookmarks(ls.drop_last()),
        }
    }
}

/// Prepending remaining lines to the ones already parsed.
pub open spec fn prepend_lines(
    built: Seq<(Option<usize>, Statement)>,
    o: ParseOutcome,
) -> ParseOutcome {
    match o {
        ParseOutcome::Lines(ls) => ParseOutcome::Lines(built + ls),
        other => other,
    }
}

/// The statement parser.
pub struct Parser();

impl Parser {
    /// Parses a token stream into a program: a sequence of lines, each an
    /// optional number token followed by a statement, with the numbered
    /// lines bookmarked by their numbers.
    #[verifier::loop_isolation(false)]
    pub fn parse(token_stream: Vec<Token>) -> (r: Result<Program, ParseError>)
        requires
            !(parse_lines_spec(token_stream@) is Unsupported),
        ensures
            match parse_lines_spec(token_stream@) {
                ParseOutcome::Lines(ls) => r matches Ok(p) && p.wf() && line_pairs(p.lines_spec())
                    == ls && p.numbered_spec() == bookmarks(ls),
                ParseOutcome::Fails(e) => r == Err::<Program, ParseError>(e),
                ParseOutcome::Unsupported => false,
            },
    {
        let mut program = Program::new();
        let tokens = token_stream;
        let mut pos: usize = 0;
        proof {
            assert(tokens@.skip(0) =~= tokens@);
            assert(line_pairs(program.lines_spec()) =~= Seq::<(Option<usize>, Statement)>::empty());
        }
        while pos < tokens.len()
            invariant
                pos <= tokens@.len(),
                program.wf(),
                program.numbered_spec() == bookmarks(line_pairs(program.lines_spec())),
                prepend_lines(
                    line_pairs(program.lines_spec()),
                    parse_lines_spec(tokens@.skip(pos as int)),
                ) == parse_lines_spec(tokens@),
                !(parse_lines_spec(tokens@.skip(pos as int)) is Unsupported),
            decreases tokens@.len() - pos,
        {
            let ghost rest0 = tokens@.skip(pos as int);
            let ghost built0 = line_pairs(program.lines_spec());
            // A leading number token names the line; the statement follows.
            let num: Option<usize> = match &tokens[pos] {
                Token::Number(n) => Some(*n),
                _ => None,
            };
            if num.is_some() {
                pos = pos + 1;
            }
            let ghost rest1 = tokens@.skip(pos as int);
            proof {
                if num is Some {
                    assert(rest0.drop_first() =~= rest1);
                }
                assert(parse_lines_spec(rest0) == parse_statement_then_rest(num, rest1));
            }
            let statement = match Self::parse_statement(&tokens, &mut pos) {
                Ok(st) => st,
                Err(e) => {
                    proof {
                        assert(parse_lines_spec(tokens@) == ParseOutcome::Fails(e));
                    }
                    return Err(e);
                },
            };
            let ghost st_ghost = statement;
            let line = Line::new(num, statement);
            let _ = program.add_line(line);
            proof {
                assert(rest1.drop_first() =~= tokens@.skip(pos as int));
                assert(line_pairs(program.lines_spec()) =~= built0.push((num, st_ghost)));
                assert(built0.push((num, st_ghost)) =~= built0 + seq![(num, st_ghost)]);
                match parse_lines_spec(tokens@.skip(pos as int)) {
                    ParseOutcome::Lines(ls) => {
                        assert((built0 + seq![(num, st_ghost)]) + ls =~= built0 + (seq![
                            (num, st_ghost),
                        ] + ls));
                    },
                    _ => {},
                }
                assert(line_pairs(program.lines_spec()).drop_last() =~= built0);
            }
        }
        proof {
            assert(tokens@.skip(pos as int).len() == 0);
            assert(parse_lines_spec(tokens@.skip(pos as int)) == ParseOutcome::Lines(
                Seq::<(Option<usize>, Statement)>::empty(),
            ));
            match parse_lines_spec(tokens@) {
                ParseOutcome::Lines(_) => {
                    assert(line_pairs(program.lines_spec()) + Seq::<(
                        Option<usize>,
                        Statement,
                    )>::empty() =~= line_pairs(program.lines_spec()));
                },
                _ => {},
            }
        }
        Ok(program)
    }

    /// Reads one statement at the cursor: the token there must be a
    /// keyword, and only the keywords that take no arguments are
    /// supported.
    fn parse_statement(tokens: &Vec<Token>, pos: &mut usize) -> (r: Result<Statement, ParseError>)
        requires
            *old(pos) <= tokens@.len(),
            !(statement_spec(tokens@.skip(*old(pos) as int)) is Unsupported),
        ensures
            match statement_spec(tokens@.skip(*old(pos) as int)) {
                StatementOutcome::Stmt(st) => r == Ok::<Statement, ParseError>(st) && *final(pos)
                    == *old(pos) + 1,
                StatementOutcome::Fails(e) => r == Err::<Statement, ParseError>(e) && *final(pos)
                    == *old(pos),
                StatementOutcome::Unsupported => false,
            },
    {
        if *pos >= tokens.len() {
            return Err(ParseError::UnexpectedEndOfInput);
        }
        match &tokens[*pos] {
            Token::Keyword(keyword) => {
                let statement = match keyword {
                    Keyword::Return => Statement::Return,
                    Keyword::Clear => Statement::Clear,
                    Keyword::List => Statement::List,
                    Keyword::Run => Statement::Run,
                    Keyword::End => Statement::End,
                    _ => {
                        proof {
                            assert(false);
                        }
                        vstd::pervasive::unreached()
                    },
                };
                *pos = *pos + 1;
                Ok(statement)
            },
            _ => Err(ParseError::ExpectedKeyword),
        }
    }
}

} // verus!

//! The lexical pipeline: an ordered chain of token recognizers applied to an
//! input byte stream, yielding a lazy, finite sequence of tokens that ends at
//! the end of input or at the first malformed token.

use vstd::prelude::*;

verus! {

broadcast use vstd::std_specs::vec::group_vec_axioms, vstd::seq::group_seq_axioms;

/// The diagnostic a recognizer reports when it claims an input position but
/// the input violates the expected shape of its token.
#[derive(Debug, PartialEq, Eq, Structural, Clone, Copy)]
pub enum LexError {
    /// A quoted literal began but its closing quote never came.
    UnterminatedString,
}

/// The mathematical outcome of running one recognizer at one input
/// position: it claims a token and leaves a remainder, ignores the position,
/// or claims the position and reports the input malformed. `V` is the
/// mathematical view of the token type.
pub enum LexOutcome<V> {
    Success { token: V, remainder: Seq<u8> },
    Ignored,
    Failed(LexError),
}

/// What a token recognizer hands back on success: the produced token and
/// the unconsumed remainder of the input.
pub struct LexerModuleSuccessResult<L> {
    /// The remainder of the input stream, with the consumed token's bytes
    /// taken off the front.
    pub remainder: Vec<u8>,
    /// The token that was produced.
    pub token: L,
}

/// The result of running one token recognizer at one input position.
pub enum LexerModuleResult<L> {
    /// The input prefix was parsed successfully.
    TokenSuccess(LexerModuleSuccessResult<L>),
    /// The input prefix was not recognized; the pipeline may consult the
    /// next recognizer.
    TokenIgnored,
    /// The input prefix was recognized but malformed; the pipeline halts.
    TokenFailed(LexError),
}

/// The outcome a concrete recognizer result stands for, with the token
/// taken to its mathematical view.
pub open spec fn outcome_of<L: View>(r: LexerModuleResult<L>) -> LexOutcome<L::V> {
    match r {
        LexerModuleResult::TokenSuccess(s) => LexOutcome::Success {
            token: s.token@,
            remainder: s.remainder@,
        },
        LexerModuleResult::TokenIgnored => LexOutcome::Ignored,
        LexerModuleResult::TokenFailed(e) => LexOutcome::Failed(e),
    }
}

impl<L> LexerModuleResult<L> {
    /// Whether a token was parsed successfully.
    pub fn is_success(&self) -> (r: bool)
        ensures
            r == (self matches LexerModuleResult::TokenSuccess(_)),
    {
        match self {
            LexerModuleResult::TokenSuccess(_) => true,
            _ => false,
        }
    }

    /// Whether the recognizer declined to claim the position.
    pub fn is_ignored(&self) -> (r: bool)
        ensures
            r == (self matches LexerModuleResult::TokenIgnored),
    {
        match self {
            LexerModuleResult::TokenIgnored => true,
            _ => false,
        }
    }

    /// Whether the recognizer claimed the position and found the input
    /// malformed.
    pub fn is_failure(&self) -> (r: bool)
        ensures
            r == (self matches LexerModuleResult::TokenFailed(_)),
    {
        match self {
            LexerModuleResult::TokenFailed(_) => true,
            _ => false,
        }
    }

    /// Takes the success data out of a result known to be successful.
    pub fn unwrap(self) -> (r: LexerModuleSuccessResult<L>)
        requires
            self matches LexerModuleResult::TokenSuccess(_),
        ensures
            self matches LexerModuleResult::TokenSuccess(s) && r == s,
    {
        match self {
            LexerModuleResult::TokenSuccess(result) => result,
            _ => vstd::pervasive::unreached(),
        }
    }

    /// Takes the diagnostic out of a result known to be failed.
    pub fn unwrap_err(self) -> (r: LexError)
        requires
            self matches LexerModuleResult::TokenFailed(_),
        ensures
            self matches LexerModuleResult::TokenFailed(e) && r == e,
    {
        match self {
            LexerModuleResult::TokenFailed(err) => err,
            _ => vstd::pervasive::unreached(),
        }
    }
}

/// A token recognizer: one lexical rule that may claim, ignore, or reject a
/// given input position. [`LexerModule::spec_parse`] is the recognizer's
/// meaning — its outcome as a function of the input alone — and
/// [`LexerModule::parse_stream`] computes it.
pub trait LexerModule: Sized {
    type Language: View;

    /// The outcome this recognizer yields on the given input.
    spec fn spec_parse(&self, stream: Seq<u8>) -> LexOutcome<<Self::Language as View>::V>;

    /// Runs the recognizer on the start of `stream`. On success the
    /// remainder is a strict suffix of the input: at least one byte was
    /// consumed, which keeps every pipeline over this recognizer finite.
    fn parse_stream(&self, stream: &[u8]) -> (r: LexerModuleResult<Self::Language>)
        ensures
            outcome_of(r) == self.spec_parse(stream@),
            r matches LexerModuleResult::TokenSuccess(s) ==> s.remainder@.len() < stream@.len()
                && s.remainder@ == stream@.skip(stream@.len() - s.remainder@.len()),
    ;
}

/// The outcome of the first recognizer, in pipeline order, that does not
/// ignore the input; ignored when every recognizer ignores it.
pub open spec fn first_decision<M: LexerModule>(
    modules: Seq<M>,
    stream: Seq<u8>,
) -> LexOutcome<<M::Language as View>::V>
    decreases modules.len(),
{
    if modules.len() == 0 {
        LexOutcome::Ignored
    } else if modules[0].spec_parse(stream) is Ignored {
        first_decision(modules.drop_first(), stream)
    } else {
        modules[0].spec_parse(stream)
    }
}

/// One observable step of the pipeline from byte position `pos`: the end of
/// input, a token together with the byte position after it, or a
/// diagnostic. Positions where every recognizer returns ignored discard
/// exactly one byte and are skipped silently.
pub enum StreamStep<V> {
    Done,
    Tok(V, int),
    Fail(LexError),
}

/// The next observable step of the pipeline over `modules` on `input`,
/// starting at byte position `pos`.
pub open spec fn lex_from<M: LexerModule>(
    modules: Seq<M>,
    input: Seq<u8>,
    pos: int,
) -> StreamStep<<M::Language as View>::V>
    decreases input.len() - pos,
{
    if pos < 0 || pos >= input.len() {
        StreamStep::Done
    } else {
        match first_decision(modules, input.skip(pos)) {
            LexOutcome::Ignored => lex_from(modules, input, pos + 1),
            LexOutcome::Success { token, remainder } => StreamStep::Tok(
                token,
                input.len() - remainder.len(),
            ),
            LexOutcome::Failed(e) => StreamStep::Fail(e),
        }
    }
}

/// If the first `k` recognizers all ignore the input, the pipeline's
/// decision is the decision of the recognizers after them.
pub proof fn lemma_first_decision_after_ignored<M: LexerModule>(
    modules: Seq<M>,
    stream: Seq<u8>,
    k: int,
)
    requires
        0 <= k <= modules.len(),
        forall|j: int| 0 <= j < k ==> (#[trigger] modules[j]).spec_parse(stream) is Ignored,
    ensures
        first_decision(modules, stream) == first_decision(modules.skip(k), stream),
    decreases k,
{
    if k > 0 {
        lemma_first_decision_after_ignored(modules, stream, k - 1);
        assert(modules.skip(k - 1).drop_first() =~= modules.skip(k));
        assert(modules.skip(k - 1)[0] == modules[k - 1]);
    } else {
        assert(modules.skip(0) =~= modules);
    }
}

/// Assembles a [`Lexer`] from an ordered list of token recognizers. Order
/// is semantically significant: earlier recognizers win.
pub struct LexerBuilder<M> {
    lexer_modules: Vec<M>,
}

impl<M: LexerModule> LexerBuilder<M> {
    /// The recognizers added so far, in order.
    pub closed spec fn modules_spec(&self) -> Seq<M> {
        self.lexer_modules@
    }

    /// Creates a builder with no recognizers.
    pub fn new() -> (r: LexerBuilder<M>)
        ensures
            r.modules_spec() == Seq::<M>::empty(),
    {
        LexerBuilder { lexer_modules: Vec::new() }
    }

    /// Builds the lexer from the recognizers added so far.
    pub fn build(self) -> (r: Lexer<M>)
        ensures
            r.modules_spec() == self.modules_spec(),
    {
        Lexer { lexer_modules: self.lexer_modules }
    }

    /// Appends one recognizer to the pipeline.
    pub fn add_module(self, module: M) -> (r: Self)
        ensures
            r.modules_spec() == self.modules_spec().push(module),
    {
        let mut this = self;
        this.lexer_modules.push(module);
        this
    }

    /// Appends several recognizers to the pipeline, keeping the ones
    /// already added.
    pub fn add_modules(self, modules: Vec<M>) -> (r: Self)
        ensures
            r.modules_spec() == self.modules_spec() + modules@,
    {
        let mut this = self;
        let mut modules = modules;
        this.lexer_modules.append(&mut modules);
        this
    }
}

/// An ordered chain of token recognizers. Built once and read-only
/// afterwards, so one lexer can serve many sequential parses.
pub struct Lexer<M> {
    lexer_modules: Vec<M>,
}

impl<M: LexerModule> Lexer<M> {
    /// The recognizers, in consultation order.
    pub closed spec fn modules_spec(&self) -> Seq<M> {
        self.lexer_modules@
    }

    /// How many recognizers the lexer holds.
    pub fn module_count(&self) -> (r: usize)
        ensures
            r == self.modules_spec().len(),
    {
        self.lexer_modules.len()
    }
}

impl<M: LexerModule + Copy> Lexer<M> {
    /// Starts tokenizing an input stream, returning the lazy token
    /// iterator positioned at its beginning.
    pub fn parse_stream(&self, input_stream: &[u8]) -> (r: TokenIterator<M>)
        ensures
            r.modules_spec() == self.modules_spec(),
            r.input_spec() == input_stream@,
            r.pos_spec() == 0,
            !r.halted_spec(),
    {
        let mut modules: Vec<M> = Vec::new();
        let n = self.lexer_modules.len();
        let mut k: usize = 0;
        while k < n
            invariant
                n == self.lexer_modules@.len(),
                k <= n,
                modules@ == self.lexer_modules@.take(k as int),
            decreases n - k,
        {
            modules.push(self.lexer_modules[k]);
            proof {
                assert(modules@ =~= self.lexer_modules@.take(k + 1));
            }
            k = k + 1;
        }
        proof {
            assert(modules@ =~= self.lexer_modules@);
        }
        TokenIterator {
            lexer_modules: modules,
            input: vstd::slice::slice_to_vec(input_stream),
            pos: 0,
            halted: false,
        }
    }
}

/// The lazy token stream of one parse: pulls one token at a time from the
/// input, consulting the recognizers in order at each position. Not
/// restartable; ends permanently at the end of input or at the first
/// diagnostic.
pub struct TokenIterator<M> {
    lexer_modules: Vec<M>,
    input: Vec<u8>,
    pos: usize,
    halted: bool,
}

impl<M: LexerModule> TokenIterator<M> {
    /// The recognizers, in consultation order.
    pub closed spec fn modules_spec(&self) -> Seq<M> {
        self.lexer_modules@
    }

    /// The full input being tokenized.
    pub closed spec fn input_spec(&self) -> Seq<u8> {
        self.input@
    }

    /// The current byte position in the input.
    pub closed spec fn pos_spec(&self) -> usize {
        self.pos
    }

    /// Whether a diagnostic was already yielded; afterwards the stream is
    /// over for good.
    pub closed spec fn halted_spec(&self) -> bool {
        self.halted
    }

    /// Pulls the next token: the next observable step of the pipeline from
    /// the current position. After the end of input or a diagnostic, yields
    /// nothing forever.
    pub fn next(&mut self) -> (r: Option<Result<M::Language, LexError>>)
        ensures
            final(self).modules_spec() == old(self).modules_spec(),
            final(self).input_spec() == old(self).input_spec(),
            old(self).halted_spec() ==> r is None && final(self).halted_spec(),
            !old(self).halted_spec() ==> match lex_from(
                old(self).modules_spec(),
                old(self).input_spec(),
                old(self).pos_spec() as int,
            ) {
                StreamStep::Done => r is None && !final(self).halted_spec(),
                StreamStep::Tok(tv, p) => (r matches Some(res) && res matches Ok(t) && t@ == tv)
                    && final(self).pos_spec() == p && !final(self).halted_spec(),
                StreamStep::Fail(e) => r == Some(Result::<M::Language, LexError>::Err(e))
                    && final(self).halted_spec(),
            },
    {
        self.parse_stream()
    }

    /// Produces the next token and advances the stored position, skipping
    /// positions that every recognizer ignores by discarding exactly one
    /// byte each.
    #[verifier::loop_isolation(false)]
    pub fn parse_stream(&mut self) -> (r: Option<Result<M::Language, LexError>>)
        ensures
            final(self).modules_spec() == old(self).modules_spec(),
            final(self).input_spec() == old(self).input_spec(),
            old(self).halted_spec() ==> r is None && final(self).halted_spec(),
            !old(self).halted_spec() ==> match lex_from(
                old(self).modules_spec(),
                old(self).input_spec(),
                old(self).pos_spec() as int,
            ) {
                StreamStep::Done => r is None && !final(self).halted_spec(),
                StreamStep::Tok(tv, p) => (r matches Some(res) && res matches Ok(t) && t@ == tv)
                    && final(self).pos_spec() == p && !final(self).halted_spec(),
                StreamStep::Fail(e) => r == Some(Result::<M::Language, LexError>::Err(e))
                    && final(self).halted_spec(),
            },
    {
        if self.halted {
            return None;
        }
        while self.pos < self.input.len()
            invariant
                self.modules_spec() == old(self).modules_spec(),
                self.input_spec() == old(self).input_spec(),
                !self.halted,
                lex_from(self.modules_spec(), self.input_spec(), self.pos as int) == lex_from(
                    old(self).modules_spec(),
                    old(self).input_spec(),
                    old(self).pos_spec() as int,
                ),
            decreases self.input@.len() - self.pos,
        {
            let token = self.try_parse_first_token();
            if token.is_some() {
                return token;
            }
        }
        None
    }

    /// Attempts to extract one token at the current position: a diagnostic
    /// halts the stream for good, an ignored position is consumed silently
    /// one byte at a time, and a success advances past the consumed bytes.
    fn try_parse_first_token(&mut self) -> (r: Option<Result<M::Language, LexError>>)
        requires
            !old(self).halted_spec(),
            old(self).pos_spec() < old(self).input_spec().len(),
        ensures
            final(self).modules_spec() == old(self).modules_spec(),
            final(self).input_spec() == old(self).input_spec(),
            match first_decision(
                old(self).modules_spec(),
                old(self).input_spec().skip(old(self).pos_spec() as int),
            ) {
                LexOutcome::Ignored => r is None && final(self).pos_spec() == old(self).pos_spec()
                    + 1 && !final(self).halted_spec(),
                LexOutcome::Success { token, remainder } => (r matches Some(res) && res matches Ok(
                    t,
                ) && t@ == token) && final(self).pos_spec() == old(self).input_spec().len()
                    - remainder.len() && !final(self).halted_spec(),
                LexOutcome::Failed(e) => r == Some(Result::<M::Language, LexError>::Err(e))
                    && final(self).halted_spec(),
            },
    {
        let stream = vstd::slice::slice_subrange(self.input.as_slice(), self.pos, self.input.len());
        let token = self.try_each_lexer(stream);
        match token {
            LexerModuleResult::TokenSuccess(success) => {
                proof {
                    assert(success.remainder@.len() < stream@.len());
                }
                self.pos = self.input.len() - success.remainder.len();
                Some(Ok(success.token))
            },
            LexerModuleResult::TokenIgnored => {
                // Nobody claimed this byte: consume it silently and let the
                // caller retry at the next position.
                self.pos = self.pos + 1;
                None
            },
            LexerModuleResult::TokenFailed(error) => {
                // Unrecoverable: surface the diagnostic and end the stream.
                self.halted = true;
                Some(Err(error))
            },
        }
    }

    /// Consults each recognizer in pipeline order and returns the first
    /// result that is not ignored; ignored when every recognizer declines.
    fn try_each_lexer(&self, stream: &[u8]) -> (r: LexerModuleResult<M::Language>)
        ensures
            outcome_of(r) == first_decision(self.modules_spec(), stream@),
            r matches LexerModuleResult::TokenSuccess(s) ==> s.remainder@.len() < stream@.len(),
    {
        let n = self.lexer_modules.len();
        let mut k: usize = 0;
        while k < n
            invariant
                n == self.modules_spec().len(),
                k <= n,
                forall|j: int|
                    0 <= j < k ==> (#[trigger] self.modules_spec()[j]).spec_parse(
                        stream@,
                    ) is Ignored,
            decreases n - k,
        {
            let result = self.lexer_modules[k].parse_stream(stream);
            if !result.is_ignored() {
                proof {
                    lemma_first_decision_after_ignored(self.modules_spec(), stream@, k as int);
                    assert(self.modules_spec().skip(k as int)[0] == self.modules_spec()[k as int]);
                }
                return result;
            }
            k = k + 1;
        }
        proof {
            lemma_first_decision_after_ignored(self.modules_spec(), stream@, n as int);
        }
        LexerModuleResult::TokenIgnored
    }
}

} // verus!

//! The parser contract: what it means to be a parser over a byte input.
//!
//! A parser reads a prefix of its input and either succeeds, handing back the
//! unconsumed remainder together with a typed output, or signals a failure.
//! The contract is stated twice: once as a mathematical model (a spec function
//! from the input sequence to a [`SpecOutcome`]) and once as an executable
//! method whose postcondition ties its result to that model.

use vstd::prelude::*;

verus! {

/// How much more input an incomplete parse said it would need.
#[derive(Clone, Copy, PartialEq, Eq, Structural, Debug)]
pub enum Needed {
    /// The amount is not known.
    Unknown,
    /// At least this many further bytes are needed.
    Size(usize),
}

/// The failure side of a parse result.
///
/// Sequencing combinators never build one of these themselves: whichever
/// variant a sub-parser produced is relayed to the caller untouched.
#[derive(Debug, PartialEq, Eq)]
pub enum ParseErr<E> {
    /// The input ended before the parser could decide.
    Incomplete(Needed),
    /// A recoverable failure carrying the sub-parser's error value.
    Error(E),
    /// An unrecoverable failure carrying the sub-parser's error value.
    Failure(E),
}

impl<E: View> View for ParseErr<E> {
    type V = ParseErr<E::V>;

    open spec fn view(&self) -> ParseErr<E::V> {
        match self {
            ParseErr::Incomplete(n) => ParseErr::Incomplete(*n),
            ParseErr::Error(e) => ParseErr::Error(e.view()),
            ParseErr::Failure(e) => ParseErr::Failure(e.view()),
        }
    }
}

/// The result of running a parser: the unconsumed remainder of the input and
/// the output on success, a relayed [`ParseErr`] otherwise.
pub type IResult<'a, O, E> = Result<(&'a [u8], O), ParseErr<E>>;

/// The outcome of a parse at the model level: either the number of input
/// bytes consumed together with the output's view, or the view of the
/// failure that ended the attempt.
pub ghost enum SpecOutcome<V, EV> {
    /// Success: `consumed` bytes of the input were read, producing `output`.
    Done { consumed: nat, output: V },
    /// Failure, relayed exactly as the failing sub-parser produced it.
    Fail { err: ParseErr<EV> },
}

/// Relates an executable parse result to the outcome the model prescribes:
/// on success the remainder is the input with the consumed prefix dropped
/// (so it is always a suffix of the input) and the output's view is the
/// model's output; on failure the error's view is the model's error.
pub open spec fn parses_to<O: View, E: View>(
    input: Seq<u8>,
    outcome: SpecOutcome<O::V, E::V>,
    r: IResult<O, E>,
) -> bool {
    match outcome {
        SpecOutcome::Done { consumed, output } => {
            &&& consumed <= input.len()
            &&& r matches Ok(p) && p.0@ == input.skip(consumed as int) && p.1@ == output
        },
        SpecOutcome::Fail { err } => r matches Err(e) && e@ == err,
    }
}

/// The capability every leaf parser and every composed parser satisfies:
/// a callable over an input that consumes a prefix and produces a typed
/// output or a typed failure, exactly as its model [`Parser::spec_parse`]
/// prescribes.
pub trait Parser<E: View>: Sized {
    /// The output type on success.
    type Output: View;

    /// The mathematical model of this parser: what running it on `input`
    /// yields, stated over views.
    spec fn spec_parse(&self, input: Seq<u8>) -> SpecOutcome<<Self::Output as View>::V, E::V>;

    /// The model never claims to consume more input than there is.
    proof fn lemma_consumed_bounded(&self, input: Seq<u8>)
        ensures
            (self.spec_parse(input) matches SpecOutcome::Done { consumed, .. }
                ==> consumed <= input.len()),
    ;

    /// Runs the parser on `input`, returning the unconsumed remainder and
    /// the output, or relaying the failure, exactly as the model says.
    fn parse<'a>(&self, input: &'a [u8]) -> (r: IResult<'a, Self::Output, E>)
        ensures
            parses_to::<Self::Output, E>(input@, self.spec_parse(input@), r),
    ;
}

} // verus!

//! Combinators applying parsers in sequence.
//!
//! Each operation here takes two or more [`Parser`] values and returns a new
//! parser that runs them left to right over a shared input, threading the
//! unconsumed remainder forward.  The binary sequencers differ only in which
//! sub-outputs are kept; [`tuple`] generalizes them to an ordered list of
//! parsers of heterogeneous output types, keeping every output.  All share
//! one failure policy: the first sub-parser to fail ends the composition
//! immediately with that sub-parser's failure, relayed untouched, and no
//! later sub-parser runs.

use vstd::prelude::*;
use crate::parser::IResult;
use crate::parser::Parser;
use crate::parser::SpecOutcome;
use crate::parser::parses_to;

verus! {

/// The model of running `first` then `second` on what `first` left over,
/// keeping both outputs in order.  Every binary sequencer's model is a
/// projection of this one.
pub open spec fn pair_spec<E: View, F: Parser<E>, G: Parser<E>>(
    first: F,
    second: G,
    input: Seq<u8>,
) -> SpecOutcome<(<F::Output as View>::V, <G::Output as View>::V), E::V> {
    match first.spec_parse(input) {
        SpecOutcome::Done { consumed: c1, output: o1 } => match second.spec_parse(
            input.skip(c1 as int),
        ) {
            SpecOutcome::Done { consumed: c2, output: o2 } => SpecOutcome::Done {
                consumed: c1 + c2,
                output: (o1, o2),
            },
            SpecOutcome::Fail { err } => SpecOutcome::Fail { err },
        },
        SpecOutcome::Fail { err } => SpecOutcome::Fail { err },
    }
}

/// The composed parser built by [`pair`].
pub struct Pair<F, G> {
    /// The parser run first.
    pub first: F,
    /// The parser run on what `first` left over.
    pub second: G,
}

impl<E: View, F: Parser<E>, G: Parser<E>> Parser<E> for Pair<F, G> {
    type Output = (F::Output, G::Output);

    open spec fn spec_parse(&self, input: Seq<u8>) -> SpecOutcome<
        <(F::Output, G::Output) as View>::V,
        E::V,
    > {
        pair_spec(self.first, self.second, input)
    }

    proof fn lemma_consumed_bounded(&self, input: Seq<u8>) {
        self.first.lemma_consumed_bounded(input);
        match self.first.spec_parse(input) {
            SpecOutcome::Done { consumed: c1, .. } => {
                self.second.lemma_consumed_bounded(input.skip(c1 as int));
            },
            SpecOutcome::Fail { .. } => {},
        }
    }

    fn parse<'a>(&self, input: &'a [u8]) -> (r: IResult<'a, (F::Output, G::Output), E>) {
        match self.first.parse(input) {
            Ok(p1) => {
                let (rem1, o1) = p1;
                match self.second.parse(rem1) {
                    Ok(p2) => {
                        let (rem2, o2) = p2;
                        proof {
                            let c1 = self.first.spec_parse(input@)->consumed;
                            let c2 = self.second.spec_parse(input@.skip(c1 as int))->consumed;
                            assert(input@.skip(c1 as int).skip(c2 as int) =~= input@.skip(
                                (c1 + c2) as int,
                            ));
                        }
                        Ok((rem2, (o1, o2)))
                    },
                    Err(e) => Err(e),
                }
            },
            Err(e) => Err(e),
        }
    }
}

/// Gets an object from the first parser, then gets another object from the
/// second parser; the composition succeeds with both outputs in order, and
/// fails with whichever failure ended it first.
pub fn pair<E: View, F: Parser<E>, G: Parser<E>>(first: F, second: G) -> (r: Pair<F, G>)
    ensures
        r == (Pair { first, second }),
{
    Pair { first, second }
}

/// Runs `first` then `second` directly on `input`, as the parser built by
/// [`pair`] would.
pub fn pairc<'a, E: View, F: Parser<E>, G: Parser<E>>(
    input: &'a [u8],
    first: F,
    second: G,
) -> (r: IResult<'a, (F::Output, G::Output), E>)
    ensures
        parses_to::<(F::Output, G::Output), E>(input@, pair_spec(first, second, input@), r),
{
    pair(first, second).parse(input)
}

/// The model of [`preceded`]: as [`pair_spec`], but only the second output is
/// kept.
pub open spec fn preceded_spec<E: View, F: Parser<E>, G: Parser<E>>(
    first: F,
    second: G,
    input: Seq<u8>,
) -> SpecOutcome<<G::Output as View>::V, E::V> {
    match pair_spec(first, second, input) {
        SpecOutcome::Done { consumed, output } => SpecOutcome::Done {
            consumed,
            output: output.1,
        },
        SpecOutcome::Fail { err } => SpecOutcome::Fail { err },
    }
}

/// The composed parser built by [`preceded`].
pub struct Preceded<F, G> {
    /// The opening parser, whose output is discarded.
    pub first: F,
    /// The parser whose output the composition yields.
    pub second: G,
}

impl<E: View, F: Parser<E>, G: Parser<E>> Parser<E> for Preceded<F, G> {
    type Output = G::Output;

    open spec fn spec_parse(&self, input: Seq<u8>) -> SpecOutcome<<G::Output as View>::V, E::V> {
        preceded_spec(self.first, self.second, input)
    }

    proof fn lemma_consumed_bounded(&self, input: Seq<u8>) {
        (Pair { first: self.first, second: self.second }).lemma_consumed_bounded(input);
    }

    fn parse<'a>(&self, input: &'a [u8]) -> (r: IResult<'a, G::Output, E>) {
        match self.first.parse(input) {
            Ok(p1) => {
                let (rem1, _o1) = p1;
                let r2 = self.second.parse(rem1);
                proof {
                    let c1 = self.first.spec_parse(input@)->consumed;
                    match self.second.spec_parse(input@.skip(c1 as int)) {
                        SpecOutcome::Done { consumed: c2, .. } => {
                            assert(input@.skip(c1 as int).skip(c2 as int) =~= input@.skip(
                                (c1 + c2) as int,
                            ));
                        },
                        SpecOutcome::Fail { .. } => {},
                    }
                }
                r2
            },
            Err(e) => Err(e),
        }
    }
}

/// Matches an object from the first parser and discards it, then gets an
/// object from the second parser; the composition yields only the second
/// output, and fails with whichever failure ended it first.
pub fn preceded<E: View, F: Parser<E>, G: Parser<E>>(first: F, second: G) -> (r: Preceded<F, G>)
    ensures
        r == (Preceded { first, second }),
{
    Preceded { first, second }
}

/// Runs `first` then `second` directly on `input`, as the parser built by
/// [`preceded`] would.
pub fn precededc<'a, E: View, F: Parser<E>, G: Parser<E>>(
    input: &'a [u8],
    first: F,
    second: G,
) -> (r: IResult<'a, G::Output, E>)
    ensures
        parses_to::<G::Output, E>(input@, preceded_spec(first, second, input@), r),
{
    preceded(first, second).parse(input)
}

/// The model of [`terminated`]: as [`pair_spec`], but only the first output
/// is kept.
pub open spec fn terminated_spec<E: View, F: Parser<E>, G: Parser<E>>(
    first: F,
    second: G,
    input: Seq<u8>,
) -> SpecOutcome<<F::Output as View>::V, E::V> {
    match pair_spec(first, second, input) {
        SpecOutcome::Done { consumed, output } => SpecOutcome::Done {
            consumed,
            output: output.0,
        },
        SpecOutcome::Fail { err } => SpecOutcome::Fail { err },
    }
}

/// The composed parser built by [`terminated`].
pub struct Terminated<F, G> {
    /// The parser whose output the composition yields.
    pub first: F,
    /// The closing parser, whose output is discarded.
    pub second: G,
}

impl<E: View, F: Parser<E>, G: Parser<E>> Parser<E> for Terminated<F, G> {
    type Output = F::Output;

    open spec fn spec_parse(&self, input: Seq<u8>) -> SpecOutcome<<F::Output as View>::V, E::V> {
        terminated_spec(self.first, self.second, input)
    }

    proof fn lemma_consumed_bounded(&self, input: Seq<u8>) {
        (Pair { first: self.first, second: self.second }).lemma_consumed_bounded(input);
    }

    fn parse<'a>(&self, input: &'a [u8]) -> (r: IResult<'a, F::Output, E>) {
        match self.first.parse(input) {
            Ok(p1) => {
                let (rem1, o1) = p1;
                match self.second.parse(rem1) {
                    Ok(p2) => {
                        let (rem2, _o2) = p2;
                        proof {
                            let c1 = self.first.spec_parse(input@)->consumed;
                            let c2 = self.second.spec_parse(input@.skip(c1 as int))->consumed;
                            assert(input@.skip(c1 as int).skip(c2 as int) =~= input@.skip(
                                (c1 + c2) as int,
                            ));
                        }
                        Ok((rem2, o1))
                    },
                    Err(e) => Err(e),
                }
            },
            Err(e) => Err(e),
        }
    }
}

/// Gets an object from the first parser, then matches an object from the
/// second parser and discards it; the composition yields only the first
/// output, and fails with whichever failure ended it first.
pub fn terminated<E: View, F: Parser<E>, G: Parser<E>>(first: F, second: G) -> (r: Terminated<
    F,
    G,
>)
    ensures
        r == (Terminated { first, second }),
{
    Terminated { first, second }
}

/// Runs `first` then `second` directly on `input`, as the parser built by
/// [`terminated`] would.
pub fn terminatedc<'a, E: View, F: Parser<E>, G: Parser<E>>(
    input: &'a [u8],
    first: F,
    second: G,
) -> (r: IResult<'a, F::Output, E>)
    ensures
        parses_to::<F::Output, E>(input@, terminated_spec(first, second, input@), r),
{
    terminated(first, second).parse(input)
}

/// The model of running `first`, `sep` and `second` one after another over
/// the advancing input, keeping all three outputs in order.  The models of
/// [`separated_pair`] and [`delimited`] are projections of this one.
pub open spec fn trio_spec<E: View, F: Parser<E>, G: Parser<E>, H: Parser<E>>(
    first: F,
    sep: G,
    second: H,
    input: Seq<u8>,
) -> SpecOutcome<
    (<F::Output as View>::V, <G::Output as View>::V, <H::Output as View>::V),
    E::V,
> {
    match first.spec_parse(input) {
        SpecOutcome::Done { consumed: c1, output: o1 } => match sep.spec_parse(
            input.skip(c1 as int),
        ) {
            SpecOutcome::Done { consumed: c2, output: o2 } => match second.spec_parse(
                input.skip((c1 + c2) as int),
            ) {
                SpecOutcome::Done { consumed: c3, output: o3 } => SpecOutcome::Done {
                    consumed: c1 + c2 + c3,
                    output: (o1, o2, o3),
                },
                SpecOutcome::Fail { err } => SpecOutcome::Fail { err },
            },
            SpecOutcome::Fail { err } => SpecOutcome::Fail { err },
        },
        SpecOutcome::Fail { err } => SpecOutcome::Fail { err },
    }
}

/// The model of [`separated_pair`]: as [`trio_spec`], keeping the outer two
/// outputs and discarding the separator's.
pub open spec fn separated_pair_spec<E: View, F: Parser<E>, G: Parser<E>, H: Parser<E>>(
    first: F,
    sep: G,
    second: H,
    input: Seq<u8>,
) -> SpecOutcome<(<F::Output as View>::V, <H::Output as View>::V), E::V> {
    match trio_spec(first, sep, second, input) {
        SpecOutcome::Done { consumed, output } => SpecOutcome::Done {
            consumed,
            output: (output.0, output.2),
        },
        SpecOutcome::Fail { err } => SpecOutcome::Fail { err },
    }
}

/// The composed parser built by [`separated_pair`].
pub struct SeparatedPair<F, G, H> {
    /// The parser whose output becomes the first component.
    pub first: F,
    /// The separator parser, whose output is discarded.
    pub sep: G,
    /// The parser whose output becomes the second component.
    pub second: H,
}

impl<E: View, F: Parser<E>, G: Parser<E>, H: Parser<E>> Parser<E> for SeparatedPair<F, G, H> {
    type Output = (F::Output, H::Output);

    open spec fn spec_parse(&self, input: Seq<u8>) -> SpecOutcome<
        <(F::Output, H::Output) as View>::V,
        E::V,
    > {
        separated_pair_spec(self.first, self.sep, self.second, input)
    }

    proof fn lemma_consumed_bounded(&self, input: Seq<u8>) {
        lemma_trio_consumed_bounded(self.first, self.sep, self.second, input);
    }

    fn parse<'a>(&self, input: &'a [u8]) -> (r: IResult<'a, (F::Output, H::Output), E>) {
        match self.first.parse(input) {
            Ok(p1) => {
                let (rem1, o1) = p1;
                match self.sep.parse(rem1) {
                    Ok(p2) => {
                        let (rem2, _o2) = p2;
                        proof {
                            let c1 = self.first.spec_parse(input@)->consumed;
                            let c2 = self.sep.spec_parse(input@.skip(c1 as int))->consumed;
                            assert(input@.skip(c1 as int).skip(c2 as int) =~= input@.skip(
                                (c1 + c2) as int,
                            ));
                        }
                        match self.second.parse(rem2) {
                            Ok(p3) => {
                                let (rem3, o3) = p3;
                                proof {
                                    let c1 = self.first.spec_parse(input@)->consumed;
                                    let c2 = self.sep.spec_parse(
                                        input@.skip(c1 as int),
                                    )->consumed;
                                    let c3 = self.second.spec_parse(
                                        input@.skip((c1 + c2) as int),
                                    )->consumed;
                                    assert(input@.skip((c1 + c2) as int).skip(c3 as int)
                                        =~= input@.skip((c1 + c2 + c3) as int));
                                }
                                Ok((rem3, (o1, o3)))
                            },
                            Err(e) => Err(e),
                        }
                    },
                    Err(e) => Err(e),
                }
            },
            Err(e) => Err(e),
        }
    }
}

/// Gets an object from the first parser, matches an object from the `sep`
/// parser and discards it, then gets another object from the second parser;
/// the composition yields the two outer outputs in order, and fails with
/// whichever failure ended it first.
pub fn separated_pair<E: View, F: Parser<E>, G: Parser<E>, H: Parser<E>>(
    first: F,
    sep: G,
    second: H,
) -> (r: SeparatedPair<F, G, H>)
    ensures
        r == (SeparatedPair { first, sep, second }),
{
    SeparatedPair { first, sep, second }
}

/// Runs `first`, `sep` and `second` directly on `input`, as the parser built
/// by [`separated_pair`] would.
pub fn separated_pairc<'a, E: View, F: Parser<E>, G: Parser<E>, H: Parser<E>>(
    input: &'a [u8],
    first: F,
    sep: G,
    second: H,
) -> (r: IResult<'a, (F::Output, H::Output), E>)
    ensures
        parses_to::<(F::Output, H::Output), E>(
            input@,
            separated_pair_spec(first, sep, second, input@),
            r,
        ),
{
    separated_pair(first, sep, second).parse(input)
}

/// The model of [`delimited`]: as [`trio_spec`], keeping only the middle
/// output and discarding the two delimiters'.
pub open spec fn delimited_spec<E: View, F: Parser<E>, G: Parser<E>, H: Parser<E>>(
    first: F,
    sep: G,
    second: H,
    input: Seq<u8>,
) -> SpecOutcome<<G::Output as View>::V, E::V> {
    match trio_spec(first, sep, second, input) {
        SpecOutcome::Done { consumed, output } => SpecOutcome::Done {
            consumed,
            output: output.1,
        },
        SpecOutcome::Fail { err } => SpecOutcome::Fail { err },
    }
}

/// The composed parser built by [`delimited`].
pub struct Delimited<F, G, H> {
    /// The opening parser, whose output is discarded.
    pub first: F,
    /// The parser whose output the composition yields.
    pub sep: G,
    /// The closing parser, whose output is discarded.
    pub second: H,
}

impl<E: View, F: Parser<E>, G: Parser<E>, H: Parser<E>> Parser<E> for Delimited<F, G, H> {
    type Output = G::Output;

    open spec fn spec_parse(&self, input: Seq<u8>) -> SpecOutcome<<G::Output as View>::V, E::V> {
        delimited_spec(self.first, self.sep, self.second, input)
    }

    proof fn lemma_consumed_bounded(&self, input: Seq<u8>) {
        lemma_trio_consumed_bounded(self.first, self.sep, self.second, input);
    }

    fn parse<'a>(&self, input: &'a [u8]) -> (r: IResult<'a, G::Output, E>) {
        match self.first.parse(input) {
            Ok(p1) => {
                let (rem1, _o1) = p1;
                match self.sep.parse(rem1) {
                    Ok(p2) => {
                        let (rem2, o2) = p2;
                        proof {
                            let c1 = self.first.spec_parse(input@)->consumed;
                            let c2 = self.sep.spec_parse(input@.skip(c1 as int))->consumed;
                            assert(input@.skip(c1 as int).skip(c2 as int) =~= input@.skip(
                                (c1 + c2) as int,
                            ));
                        }
                        match self.second.parse(rem2) {
                            Ok(p3) => {
                                let (rem3, _o3) = p3;
                                proof {
                                    let c1 = self.first.spec_parse(input@)->consumed;
                                    let c2 = self.sep.spec_parse(
                                        input@.skip(c1 as int),
                                    )->consumed;
                                    let c3 = self.second.spec_parse(
                                        input@.skip((c1 + c2) as int),
                                    )->consumed;
                                    assert(input@.skip((c1 + c2) as int).skip(c3 as int)
                                        =~= input@.skip((c1 + c2 + c3) as int));
                                }
                                Ok((rem3, o2))
                            },
                            Err(e) => Err(e),
                        }
                    },
                    Err(e) => Err(e),
                }
            },
            Err(e) => Err(e),
        }
    }
}

/// Matches an object from the first parser and discards it, gets an object
/// from the `sep` parser, then matches an object from the second parser and
/// discards it; the composition yields only the middle output, and fails
/// with whichever failure ended it first.
pub fn delimited<E: View, F: Parser<E>, G: Parser<E>, H: Parser<E>>(
    first: F,
    sep: G,
    second: H,
) -> (r: Delimited<F, G, H>)
    ensures
        r == (Delimited { first, sep, second }),
{
    Delimited { first, sep, second }
}

/// Runs `first`, `sep` and `second` directly on `input`, as the parser built
/// by [`delimited`] would.
pub fn delimitedc<'a, E: View, F: Parser<E>, G: Parser<E>, H: Parser<E>>(
    input: &'a [u8],
    first: F,
    sep: G,
    second: H,
) -> (r: IResult<'a, G::Output, E>)
    ensures
        parses_to::<G::Output, E>(input@, delimited_spec(first, sep, second, input@), r),
{
    delimited(first, sep, second).parse(input)
}

/// A heterogeneous, ordered list of parsers that can be applied in sequence.
///
/// The trait is implemented for tuples of parsers of each arity from two up
/// to twelve, the widest tuple the verifier's standard library gives a view
/// to.  The ceiling is an implementation limit, not part of the contract,
/// and a wider tuple is rejected when the composition is built, never at
/// parse time.  A single parser is applied directly, so arity one is not
/// supported either.
pub trait Tuple<E: View>: Sized {
    /// The ordered product of the sub-parsers' output types.
    type Output: View;

    /// The model: each sub-parser runs in declared order on what the ones
    /// before it left over; the first failure is the outcome, relayed
    /// untouched, and on full success the outcome is the ordered product of
    /// all outputs with the consumed counts summed.
    spec fn spec_parse_tuple(&self, input: Seq<u8>) -> SpecOutcome<
        <Self::Output as View>::V,
        E::V,
    >;

    /// The model never claims to consume more input than there is.
    proof fn lemma_tuple_consumed_bounded(&self, input: Seq<u8>)
        ensures
            (self.spec_parse_tuple(input) matches SpecOutcome::Done { consumed, .. }
                ==> consumed <= input.len()),
    ;

    /// Applies each sub-parser in declared order, exactly as the model says.
    fn parse<'a>(&self, input: &'a [u8]) -> (r: IResult<'a, Self::Output, E>)
        ensures
            parses_to::<Self::Output, E>(input@, self.spec_parse_tuple(input@), r),
    ;
}

impl<E: View, P1: Parser<E>, P2: Parser<E>> Tuple<E> for (P1, P2) {
    type Output = (P1::Output, P2::Output);

    open spec fn spec_parse_tuple(&self, input: Seq<u8>) -> SpecOutcome<
        <(P1::Output, P2::Output) as View>::V,
        E::V,
    > {
        pair_spec(self.0, self.1, input)
    }

    proof fn lemma_tuple_consumed_bounded(&self, input: Seq<u8>) {
        (Pair { first: self.0, second: self.1 }).lemma_consumed_bounded(input);
    }

    fn parse<'a>(&self, input: &'a [u8]) -> (r: IResult<'a, (P1::Output, P2::Output), E>) {
        let (rem1, o1) = match self.0.parse(input) {
            Ok(p) => p,
            Err(e) => {
                return Err(e);
            },
        };
        let (rem2, o2) = match self.1.parse(rem1) {
            Ok(p) => p,
            Err(e) => {
                return Err(e);
            },
        };
        proof {
            let c1 = self.0.spec_parse(input@)->consumed;
            let c2 = self.1.spec_parse(input@.skip(c1 as int))->consumed;
            assert(input@.skip(c1 as int).skip(c2 as int) =~= input@.skip(
                (c1 + c2) as int,
            ));
        }
        Ok((rem2, (o1, o2)))
    }
}

impl<E: View, P1: Parser<E>, P2: Parser<E>, P3: Parser<E>> Tuple<E> for (P1, P2, P3) {
    type Output = (P1::Output, P2::Output, P3::Output);

    open spec fn spec_parse_tuple(&self, input: Seq<u8>) -> SpecOutcome<
        <(P1::Output, P2::Output, P3::Output) as View>::V,
        E::V,
    > {
        trio_spec(self.0, self.1, self.2, input)
    }

    proof fn lemma_tuple_consumed_bounded(&self, input: Seq<u8>) {
        lemma_trio_consumed_bounded(self.0, self.1, self.2, input);
    }

    fn parse<'a>(&self, input: &'a [u8]) -> (r: IResult<'a, (P1::Output, P2::Output, P3::Output), E>) {
        let (rem1, o1) = match self.0.parse(input) {
            Ok(p) => p,
            Err(e) => {
                return Err(e);
            },
        };
        let (rem2, o2) = match self.1.parse(rem1) {
            Ok(p) => p,
            Err(e) => {
                return Err(e);
            },
        };
        proof {
            let c1 = self.0.spec_parse(input@)->consumed;
            let c2 = self.1.spec_parse(input@.skip(c1 as int))->consumed;
            assert(input@.skip(c1 as int).skip(c2 as int) =~= input@.skip(
                (c1 + c2) as int,
            ));
        }
        let (rem3, o3) = match self.2.parse(rem2) {
            Ok(p) => p,
            Err(e) => {
                return Err(e);
            },
        };
        proof {
            let c1 = self.0.spec_parse(input@)->consumed;
            let c2 = self.1.spec_parse(input@.skip(c1 as int))->consumed;
            let c3 = self.2.spec_parse(input@.skip((c1 + c2) as int))->consumed;
            assert(input@.skip((c1 + c2) as int).skip(c3 as int) =~= input@.skip(
                (c1 + c2 + c3) as int,
            ));
        }
        Ok((rem3, (o1, o2, o3)))
    }
}

impl<E: View, P1: Parser<E>, P2: Parser<E>, P3: Parser<E>, P4: Parser<E>> Tuple<E> for (P1, P2, P3, P4) {
    type Output = (P1::Output, P2::Output, P3::Output, P4::Output);

    open spec fn spec_parse_tuple(&self, input: Seq<u8>) -> SpecOutcome<
        <(P1::Output, P2::Output, P3::Output, P4::Output) as View>::V,
        E::V,
    > {
        match (self.0, self.1, self.2).spec_parse_tuple(input) {
            SpecOutcome::Done { consumed: c, output: o } => match self.3.spec_parse(
                input.skip(c as int),
            ) {
                SpecOutcome::Done { consumed: cl, output: ol } => SpecOutcome::Done {
                    consumed: c + cl,
                    output: (o.0, o.1, o.2, ol),
                },
                SpecOutcome::Fail { err } => SpecOutcome::Fail { err },
            },
            SpecOutcome::Fail { err } => SpecOutcome::Fail { err },
        }
    }

    proof fn lemma_tuple_consumed_bounded(&self, input: Seq<u8>) {
        (self.0, self.1, self.2).lemma_tuple_consumed_bounded(input);
        match (self.0, self.1, self.2).spec_parse_tuple(input) {
            SpecOutcome::Done { consumed: c, .. } => {
                self.3.lemma_consumed_bounded(input.skip(c as int));
            },
            SpecOutcome::Fail { .. } => {},
        }
    }

    fn parse<'a>(&self, input: &'a [u8]) -> (r: IResult<
        'a,
        (P1::Output, P2::Output, P3::Output, P4::Output),
        E,
    >) {
        let (rem1, o1) = match self.0.parse(input) {
            Ok(p) => p,
            Err(e) => {
                return Err(e);
            },
        };
        let (rem2, o2) = match self.1.parse(rem1) {
            Ok(p) => p,
            Err(e) => {
                return Err(e);
            },
        };
        proof {
            let c1 = self.0.spec_parse(input@)->consumed;
            let c2 = self.1.spec_parse(input@.skip(c1 as int))->consumed;
            assert(input@.skip(c1 as int).skip(c2 as int) =~= input@.skip(
                (c1 + c2) as int,
            ));
        }
        let (rem3, o3) = match self.2.parse(rem2) {
            Ok(p) => p,
            Err(e) => {
                return Err(e);
            },
        };
        proof {
            let c1 = self.0.spec_parse(input@)->consumed;
            let c2 = self.1.spec_parse(input@.skip(c1 as int))->consumed;
            let c3 = self.2.spec_parse(input@.skip((c1 + c2) as int))->consumed;
            assert(input@.skip((c1 + c2) as int).skip(c3 as int) =~= input@.skip(
                (c1 + c2 + c3) as int,
            ));
        }
        let (rem4, o4) = match self.3.parse(rem3) {
            Ok(p) => p,
            Err(e) => {
                return Err(e);
            },
        };
        proof {
            let c1 = self.0.spec_parse(input@)->consumed;
            let c2 = self.1.spec_parse(input@.skip(c1 as int))->consumed;
            let c3 = self.2.spec_parse(input@.skip((c1 + c2) as int))->consumed;
            let c4 = self.3.spec_parse(input@.skip((c1 + c2 + c3) as int))->consumed;
            assert(input@.skip((c1 + c2 + c3) as int).skip(c4 as int) =~= input@.skip(
                (c1 + c2 + c3 + c4) as int,
            ));
        }
        Ok((rem4, (o1, o2, o3, o4)))
    }
}

impl<
    E: View,
    P1: Parser<E>,
    P2: Parser<E>,
    P3: Parser<E>,
    P4: Parser<E>,
    P5: Parser<E>,
> Tuple<E> for (P1, P2, P3, P4, P5) {
    type Output = (P1::Output, P2::Output, P3::Output, P4::Output, P5::Output);

    open spec fn spec_parse_tuple(&self, input: Seq<u8>) -> SpecOutcome<
        <(P1::Output, P2::Output, P3::Output, P4::Output, P5::Output) as View>::V,
        E::V,
    > {
        match (self.0, self.1, self.2, self.3).spec_parse_tuple(input) {
            SpecOutcome::Done { consumed: c, output: o } => match self.4.spec_parse(
                input.skip(c as int),
            ) {
                SpecOutcome::Done { consumed: cl, output: ol } => SpecOutcome::Done {
                    consumed: c + cl,
                    output: (o.0, o.1, o.2, o.3, ol),
                },
                SpecOutcome::Fail { err } => SpecOutcome::Fail { err },
            },
            SpecOutcome::Fail { err } => SpecOutcome::Fail { err },
        }
    }

    proof fn lemma_tuple_consumed_bounded(&self, input: Seq<u8>) {
        (self.0, self.1, self.2, self.3).lemma_tuple_consumed_bounded(input);
        match (self.0, self.1, self.2, self.3).spec_parse_tuple(input) {
            SpecOutcome::Done { consumed: c, .. } => {
                self.4.lemma_consumed_bounded(input.skip(c as int));
            },
            SpecOutcome::Fail { .. } => {},
        }
    }

    fn parse<'a>(&self, input: &'a [u8]) -> (r: IResult<
        'a,
        (P1::Output, P2::Output, P3::Output, P4::Output, P5::Output),
        E,
    >) {
        let (rem1, o1) = match self.0.parse(input) {
            Ok(p) => p,
            Err(e) => {
                return Err(e);
            },
        };
        let (rem2, o2) = match self.1.parse(rem1) {
            Ok(p) => p,
            Err(e) => {
                return Err(e);
            },
        };
        proof {
            let c1 = self.0.spec_parse(input@)->consumed;
            let c2 = self.1.spec_parse(input@.skip(c1 as int))->consumed;
            assert(input@.skip(c1 as int).skip(c2 as int) =~= input@.skip(
                (c1 + c2) as int,
            ));
        }
        let (rem3, o3) = match self.2.parse(rem2) {
            Ok(p) => p,
            Err(e) => {
                return Err(e);
            },
        };
        proof {
            let c1 = self.0.spec_parse(input@)->consumed;
            let c2 = self.1.spec_parse(input@.skip(c1 as int))->consumed;
            let c3 = self.2.spec_parse(input@.skip((c1 + c2) as int))->consumed;
            assert(input@.skip((c1 + c2) as int).skip(c3 as int) =~= input@.skip(
                (c1 + c2 + c3) as int,
            ));
        }
        let (rem4, o4) = match self.3.parse(rem3) {
            Ok(p) => p,
            Err(e) => {
                return Err(e);
            },
        };
        proof {
            let c1 = self.0.spec_parse(input@)->consumed;
            let c2 = self.1.spec_parse(input@.skip(c1 as int))->consumed;
            let c3 = self.2.spec_parse(input@.skip((c1 + c2) as int))->consumed;
            let c4 = self.3.spec_parse(input@.skip((c1 + c2 + c3) as int))->consumed;
            assert(input@.skip((c1 + c2 + c3) as int).skip(c4 as int) =~= input@.skip(
                (c1 + c2 + c3 + c4) as int,
            ));
        }
        let (rem5, o5) = match self.4.parse(rem4) {
            Ok(p) => p,
            Err(e) => {
                return Err(e);
            },
        };
        proof {
            let c1 = self.0.spec_parse(input@)->consumed;
            let c2 = self.1.spec_parse(input@.skip(c1 as int))->consumed;
            let c3 = self.2.spec_parse(input@.skip((c1 + c2) as int))->consumed;
            let c4 = self.3.spec_parse(input@.skip((c1 + c2 + c3) as int))->consumed;
            let c5 = self.4.spec_parse(input@.skip((c1 + c2 + c3 + c4) as int))->consumed;
            assert(input@.skip((c1 + c2 + c3 + c4) as int).skip(c5 as int) =~= input@.skip(
                (c1 + c2 + c3 + c4 + c5) as int,
            ));
        }
        Ok((rem5, (o1, o2, o3, o4, o5)))
    }
}

impl<
    E: View,
    P1: Parser<E>,
    P2: Parser<E>,
    P3: Parser<E>,
    P4: Parser<E>,
    P5: Parser<E>,
    P6: Parser<E>,
> Tuple<E> for (P1, P2, P3, P4, P5, P6) {
    type Output = (P1::Output, P2::Output, P3::Output, P4::Output, P5::Output, P6::Output);

    open spec fn spec_parse_tuple(&self, input: Seq<u8>) -> SpecOutcome<
        <(P1::Output, P2::Output, P3::Output, P4::Output, P5::Output, P6::Output) as View>::V,
        E::V,
    > {
        match (self.0, self.1, self.2, self.3, self.4).spec_parse_tuple(input) {
            SpecOutcome::Done { consumed: c, output: o } => match self.5.spec_parse(
                input.skip(c as int),
            ) {
                SpecOutcome::Done { consumed: cl, output: ol } => SpecOutcome::Done {
                    consumed: c + cl,
                    output: (o.0, o.1, o.2, o.3, o.4, ol),
                },
                SpecOutcome::Fail { err } => SpecOutcome::Fail { err },
            },
            SpecOutcome::Fail { err } => SpecOutcome::Fail { err },
        }
    }

    proof fn lemma_tuple_consumed_bounded(&self, input: Seq<u8>) {
        (self.0, self.1, self.2, self.3, self.4).lemma_tuple_consumed_bounded(input);
        match (self.0, self.1, self.2, self.3, self.4).spec_parse_tuple(input) {
            SpecOutcome::Done { consumed: c, .. } => {
                self.5.lemma_consumed_bounded(input.skip(c as int));
            },
            SpecOutcome::Fail { .. } => {},
        }
    }

    fn parse<'a>(&self, input: &'a [u8]) -> (r: IResult<
        'a,
        (P1::Output, P2::Output, P3::Output, P4::Output, P5::Output, P6::Output),
        E,
    >) {
        let (rem1, o1) = match self.0.parse(input) {
            Ok(p) => p,
            Err(e) => {
                return Err(e);
            },
        };
        let (rem2, o2) = match self.1.parse(rem1) {
            Ok(p) => p,
            Err(e) => {
                return Err(e);
            },
        };
        proof {
            let c1 = self.0.spec_parse(input@)->consumed;
            let c2 = self.1.spec_parse(input@.skip(c1 as int))->consumed;
            assert(input@.skip(c1 as int).skip(c2 as int) =~= input@.skip(
                (c1 + c2) as int,
            ));
        }
        let (rem3, o3) = match self.2.parse(rem2) {
            Ok(p) => p,
            Err(e) => {
                return Err(e);
            },
        };
        proof {
            let c1 = self.0.spec_parse(input@)->consumed;
            let c2 = self.1.spec_parse(input@.skip(c1 as int))->consumed;
            let c3 = self.2.spec_parse(input@.skip((c1 + c2) as int))->consumed;
            assert(input@.skip((c1 + c2) as int).skip(c3 as int) =~= input@.skip(
                (c1 + c2 + c3) as int,
            ));
        }
        let (rem4, o4) = match self.3.parse(rem3) {
            Ok(p) => p,
            Err(e) => {
                return Err(e);
            },
        };
        proof {
            let c1 = self.0.spec_parse(input@)->consumed;
            let c2 = self.1.spec_parse(input@.skip(c1 as int))->consumed;
            let c3 = self.2.spec_parse(input@.skip((c1 + c2) as int))->consumed;
            let c4 = self.3.spec_parse(input@.skip((c1 + c2 + c3) as int))->consumed;
            assert(input@.skip((c1 + c2 + c3) as int).skip(c4 as int) =~= input@.skip(
                (c1 + c2 + c3 + c4) as int,
            ));
        }
        let (rem5, o5) = match self.4.parse(rem4) {
            Ok(p) => p,
            Err(e) => {
                return Err(e);
            },
        };
        proof {
            let c1 = self.0.spec_parse(input@)->consumed;
            let c2 = self.1.spec_parse(input@.skip(c1 as int))->consumed;
            let c3 = self.2.spec_parse(input@.skip((c1 + c2) as int))->consumed;
            let c4 = self.3.spec_parse(input@.skip((c1 + c2 + c3) as int))->consumed;
            let c5 = self.4.spec_parse(input@.skip((c1 + c2 + c3 + c4) as int))->consumed;
            assert(input@.skip((c1 + c2 + c3 + c4) as int).skip(c5 as int) =~= input@.skip(
                (c1 + c2 + c3 + c4 + c5) as int,
            ));
        }
        let (rem6, o6) = match self.5.parse(rem5) {
            Ok(p) => p,
            Err(e) => {
                return Err(e);
            },
        };
        proof {
            let c1 = self.0.spec_parse(input@)->consumed;
            let c2 = self.1.spec_parse(input@.skip(c1 as int))->consumed;
            let c3 = self.2.spec_parse(input@.skip((c1 + c2) as int))->consumed;
            let c4 = self.3.spec_parse(input@.skip((c1 + c2 + c3) as int))->consumed;
            let c5 = self.4.spec_parse(input@.skip((c1 + c2 + c3 + c4) as int))->consumed;
            let c6 = self.5.spec_parse(input@.skip((c1 + c2 + c3 + c4 + c5) as int))->consumed;
            assert(input@.skip((c1 + c2 + c3 + c4 + c5) as int).skip(c6 as int) =~= input@.skip(
                (c1 + c2 + c3 + c4 + c5 + c6) as int,
            ));
        }
        Ok((rem6, (o1, o2, o3, o4, o5, o6)))
    }
}

impl<
    E: View,
    P1: Parser<E>,
    P2: Parser<E>,
    P3: Parser<E>,
    P4: Parser<E>,
    P5: Parser<E>,
    P6: Parser<E>,
    P7: Parser<E>,
> Tuple<E> for (P1, P2, P3, P4, P5, P6, P7) {
    type Output = (P1::Output, P2::Output, P3::Output, P4::Output, P5::Output, P6::Output, P7::Output);

    open spec fn spec_parse_tuple(&self, input: Seq<u8>) -> SpecOutcome<
        <(P1::Output, P2::Output, P3::Output, P4::Output, P5::Output, P6::Output, P7::Output) as View>::V,
        E::V,
    > {
        match (self.0, self.1, self.2, self.3, self.4, self.5).spec_parse_tuple(input) {
            SpecOutcome::Done { consumed: c, output: o } => match self.6.spec_parse(
                input.skip(c as int),
            ) {
                SpecOutcome::Done { consumed: cl, output: ol } => SpecOutcome::Done {
                    consumed: c + cl,
                    output: (o.0, o.1, o.2, o.3, o.4, o.5, ol),
                },
                SpecOutcome::Fail { err } => SpecOutcome::Fail { err },
            },
            SpecOutcome::Fail { err } => SpecOutcome::Fail { err },
        }
    }

    proof fn lemma_tuple_consumed_bounded(&self, input: Seq<u8>) {
        (self.0, self.1, self.2, self.3, self.4, self.5).lemma_tuple_consumed_bounded(input);
        match (self.0, self.1, self.2, self.3, self.4, self.5).spec_parse_tuple(input) {
            SpecOutcome::Done { consumed: c, .. } => {
                self.6.lemma_consumed_bounded(input.skip(c as int));
            },
            SpecOutcome::Fail { .. } => {},
        }
    }

    fn parse<'a>(&self, input: &'a [u8]) -> (r: IResult<
        'a,
        (P1::Output, P2::Output, P3::Output, P4::Output, P5::Output, P6::Output, P7::Output),
        E,
    >) {
        let (rem1, o1) = match self.0.parse(input) {
            Ok(p) => p,
            Err(e) => {
                return Err(e);
            },
        };
        let (rem2, o2) = match self.1.parse(rem1) {
            Ok(p) => p,
            Err(e) => {
                return Err(e);
            },
        };
        proof {
            let c1 = self.0.spec_parse(input@)->consumed;
            let c2 = self.1.spec_parse(input@.skip(c1 as int))->consumed;
            assert(input@.skip(c1 as int).skip(c2 as int) =~= input@.skip(
                (c1 + c2) as int,
            ));
        }
        let (rem3, o3) = match self.2.parse(rem2) {
            Ok(p) => p,
            Err(e) => {
                return Err(e);
            },
        };
        proof {
            let c1 = self.0.spec_parse(input@)->consumed;
            let c2 = self.1.spec_parse(input@.skip(c1 as int))->consumed;
            let c3 = self.2.spec_parse(input@.skip((c1 + c2) as int))->consumed;
            assert(input@.skip((c1 + c2) as int).skip(c3 as int) =~= input@.skip(
                (c1 + c2 + c3) as int,
            ));
        }
        let (rem4, o4) = match self.3.parse(rem3) {
            Ok(p) => p,
            Err(e) => {
                return Err(e);
            },
        };
        proof {
            let c1 = self.0.spec_parse(input@)->consumed;
            let c2 = self.1.spec_parse(input@.skip(c1 as int))->consumed;
            let c3 = self.2.spec_parse(input@.skip((c1 + c2) as int))->consumed;
            let c4 = self.3.spec_parse(input@.skip((c1 + c2 + c3) as int))->consumed;
            assert(input@.skip((c1 + c2 + c3) as int).skip(c4 as int) =~= input@.skip(
                (c1 + c2 + c3 + c4) as int,
            ));
        }
        let (rem5, o5) = match self.4.parse(rem4) {
            Ok(p) => p,
            Err(e) => {
                return Err(e);
            },
        };
        proof {
            let c1 = self.0.spec_parse(input@)->consumed;
            let c2 = self.1.spec_parse(input@.skip(c1 as int))->consumed;
            let c3 = self.2.spec_parse(input@.skip((c1 + c2) as int))->consumed;
            let c4 = self.3.spec_parse(input@.skip((c1 + c2 + c3) as int))->consumed;
            let c5 = self.4.spec_parse(input@.skip((c1 + c2 + c3 + c4) as int))->consumed;
            assert(input@.skip((c1 + c2 + c3 + c4) as int).skip(c5 as int) =~= input@.skip(
                (c1 + c2 + c3 + c4 + c5) as int,
            ));
        }
        let (rem6, o6) = match self.5.parse(rem5) {
            Ok(p) => p,
            Err(e) => {
                return Err(e);
            },
        };
        proof {
            let c1 = self.0.spec_parse(input@)->consumed;
            let c2 = self.1.spec_parse(input@.skip(c1 as int))->consumed;
            let c3 = self.2.spec_parse(input@.skip((c1 + c2) as int))->consumed;
            let c4 = self.3.spec_parse(input@.skip((c1 + c2 + c3) as int))->consumed;
            let c5 = self.4.spec_parse(input@.skip((c1 + c2 + c3 + c4) as int))->consumed;
            let c6 = self.5.spec_parse(input@.skip((c1 + c2 + c3 + c4 + c5) as int))->consumed;
            assert(input@.skip((c1 + c2 + c3 + c4 + c5) as int).skip(c6 as int) =~= input@.skip(
                (c1 + c2 + c3 + c4 + c5 + c6) as int,
            ));
        }
        let (rem7, o7) = match self.6.parse(rem6) {
            Ok(p) => p,
            Err(e) => {
                return Err(e);
            },
        };
        proof {
            let c1 = self.0.spec_parse(input@)->consumed;
            let c2 = self.1.spec_parse(input@.skip(c1 as int))->consumed;
            let c3 = self.2.spec_parse(input@.skip((c1 + c2) as int))->consumed;
            let c4 = self.3.spec_parse(input@.skip((c1 + c2 + c3) as int))->consumed;
            let c5 = self.4.spec_parse(input@.skip((c1 + c2 + c3 + c4) as int))->consumed;
            let c6 = self.5.spec_parse(input@.skip((c1 + c2 + c3 + c4 + c5) as int))->consumed;
            let c7 = self.6.spec_parse(input@.skip((c1 + c2 + c3 + c4 + c5 + c6) as int))->consumed;
            assert(input@.skip((c1 + c2 + c3 + c4 + c5 + c6) as int).skip(c7 as int) =~= input@.skip(
                (c1 + c2 + c3 + c4 + c5 + c6 + c7) as int,
            ));
        }
        Ok((rem7, (o1, o2, o3, o4, o5, o6, o7)))
    }
}

impl<
    E: View,
    P1: Parser<E>,
    P2: Parser<E>,
    P3: Parser<E>,
    P4: Parser<E>,
    P5: Parser<E>,
    P6: Parser<E>,
    P7: Parser<E>,
    P8: Parser<E>,
> Tuple<E> for (P1, P2, P3, P4, P5, P6, P7, P8) {
    type Output = (P1::Output, P2::Output, P3::Output, P4::Output, P5::Output, P6::Output, P7::Output, P8::Output);

    open spec fn spec_parse_tuple(&self, input: Seq<u8>) -> SpecOutcome<
        <(P1::Output, P2::Output, P3::Output, P4::Output, P5::Output, P6::Output, P7::Output, P8::Output) as View>::V,
        E::V,
    > {
        match (self.0, self.1, self.2, self.3, self.4, self.5, self.6).spec_parse_tuple(input) {
            SpecOutcome::Done { consumed: c, output: o } => match self.7.spec_parse(
                input.skip(c as int),
            ) {
                SpecOutcome::Done { consumed: cl, output: ol } => SpecOutcome::Done {
                    consumed: c + cl,
                    output: (o.0, o.1, o.2, o.3, o.4, o.5, o.6, ol),
                },
                SpecOutcome::Fail { err } => SpecOutcome::Fail { err },
            },
            SpecOutcome::Fail { err } => SpecOutcome::Fail { err },
        }
    }

    proof fn lemma_tuple_consumed_bounded(&self, input: Seq<u8>) {
        (self.0, self.1, self.2, self.3, self.4, self.5, self.6).lemma_tuple_consumed_bounded(input);
        match (self.0, self.1, self.2, self.3, self.4, self.5, self.6).spec_parse_tuple(input) {
            SpecOutcome::Done { consumed: c, .. } => {
                self.7.lemma_consumed_bounded(input.skip(c as int));
            },
            SpecOutcome::Fail { .. } => {},
        }
    }

    fn parse<'a>(&self, input: &'a [u8]) -> (r: IResult<
        'a,
        (P1::Output, P2::Output, P3::Output, P4::Output, P5::Output, P6::Output, P7::Output, P8::Output),
        E,
    >) {
        let (rem1, o1) = match self.0.parse(input) {
            Ok(p) => p,
            Err(e) => {
                return Err(e);
            },
        };
        let (rem2, o2) = match self.1.parse(rem1) {
            Ok(p) => p,
            Err(e) => {
                return Err(e);
            },
        };
        proof {
            let c1 = self.0.spec_parse(input@)->consumed;
            let c2 = self.1.spec_parse(input@.skip(c1 as int))->consumed;
            assert(input@.skip(c1 as int).skip(c2 as int) =~= input@.skip(
                (c1 + c2) as int,
            ));
        }
        let (rem3, o3) = match self.2.parse(rem2) {
            Ok(p) => p,
            Err(e) => {
                return Err(e);
            },
        };
        proof {
            let c1 = self.0.spec_parse(input@)->consumed;
            let c2 = self.1.spec_parse(input@.skip(c1 as int))->consumed;
            let c3 = self.2.spec_parse(input@.skip((c1 + c2) as int))->consumed;
            assert(input@.skip((c1 + c2) as int).skip(c3 as int) =~= input@.skip(
                (c1 + c2 + c3) as int,
            ));
        }
        let (rem4, o4) = match self.3.parse(rem3) {
            Ok(p) => p,
            Err(e) => {
                return Err(e);
            },
        };
        proof {
            let c1 = self.0.spec_parse(input@)->consumed;
            let c2 = self.1.spec_parse(input@.skip(c1 as int))->consumed;
            let c3 = self.2.spec_parse(input@.skip((c1 + c2) as int))->consumed;
            let c4 = self.3.spec_parse(input@.skip((c1 + c2 + c3) as int))->consumed;
            assert(input@.skip((c1 + c2 + c3) as int).skip(c4 as int) =~= input@.skip(
                (c1 + c2 + c3 + c4) as int,
            ));
        }
        let (rem5, o5) = match self.4.parse(rem4) {
            Ok(p) => p,
            Err(e) => {
                return Err(e);
            },
        };
        proof {
            let c1 = self.0.spec_parse(input@)->consumed;
            let c2 = self.1.spec_parse(input@.skip(c1 as int))->consumed;
            let c3 = self.2.spec_parse(input@.skip((c1 + c2) as int))->consumed;
            let c4 = self.3.spec_parse(input@.skip((c1 + c2 + c3) as int))->consumed;
            let c5 = self.4.spec_parse(input@.skip((c1 + c2 + c3 + c4) as int))->consumed;
            assert(input@.skip((c1 + c2 + c3 + c4) as int).skip(c5 as int) =~= input@.skip(
                (c1 + c2 + c3 + c4 + c5) as int,
            ));
        }
        let (rem6, o6) = match self.5.parse(rem5) {
            Ok(p) => p,
            Err(e) => {
                return Err(e);
            },
        };
        proof {
            let c1 = self.0.spec_parse(input@)->consumed;
            let c2 = self.1.spec_parse(input@.skip(c1 as int))->consumed;
            let c3 = self.2.spec_parse(input@.skip((c1 + c2) as int))->consumed;
            let c4 = self.3.spec_parse(input@.skip((c1 + c2 + c3) as int))->consumed;
            let c5 = self.4.spec_parse(input@.skip((c1 + c2 + c3 + c4) as int))->consumed;
            let c6 = self.5.spec_parse(input@.skip((c1 + c2 + c3 + c4 + c5) as int))->consumed;
            assert(input@.skip((c1 + c2 + c3 + c4 + c5) as int).skip(c6 as int) =~= input@.skip(
                (c1 + c2 + c3 + c4 + c5 + c6) as int,
            ));
        }
        let (rem7, o7) = match self.6.parse(rem6) {
            Ok(p) => p,
            Err(e) => {
                return Err(e);
            },
        };
        proof {
            let c1 = self.0.spec_parse(input@)->consumed;
            let c2 = self.1.spec_parse(input@.skip(c1 as int))->consumed;
            let c3 = self.2.spec_parse(input@.skip((c1 + c2) as int))->consumed;
            let c4 = self.3.spec_parse(input@.skip((c1 + c2 + c3) as int))->consumed;
            let c5 = self.4.spec_parse(input@.skip((c1 + c2 + c3 + c4) as int))->consumed;
            let c6 = self.5.spec_parse(input@.skip((c1 + c2 + c3 + c4 + c5) as int))->consumed;
            let c7 = self.6.spec_parse(input@.skip((c1 + c2 + c3 + c4 + c5 + c6) as int))->consumed;
            assert(input@.skip((c1 + c2 + c3 + c4 + c5 + c6) as int).skip(c7 as int) =~= input@.skip(
                (c1 + c2 + c3 + c4 + c5 + c6 + c7) as int,
            ));
        }
        let (rem8, o8) = match self.7.parse(rem7) {
            Ok(p) => p,
            Err(e) => {
                return Err(e);
            },
        };
        proof {
            let c1 = self.0.spec_parse(input@)->consumed;
            let c2 = self.1.spec_parse(input@.skip(c1 as int))->consumed;
            let c3 = self.2.spec_parse(input@.skip((c1 + c2) as int))->consumed;
            let c4 = self.3.spec_parse(input@.skip((c1 + c2 + c3) as int))->consumed;
            let c5 = self.4.spec_parse(input@.skip((c1 + c2 + c3 + c4) as int))->consumed;
            let c6 = self.5.spec_parse(input@.skip((c1 + c2 + c3 + c4 + c5) as int))->consumed;
            let c7 = self.6.spec_parse(input@.skip((c1 + c2 + c3 + c4 + c5 + c6) as int))->consumed;
            let c8 = self.7.spec_parse(input@.skip((c1 + c2 + c3 + c4 + c5 + c6 + c7) as int))->consumed;
            assert(input@.skip((c1 + c2 + c3 + c4 + c5 + c6 + c7) as int).skip(c8 as int) =~= input@.skip(
                (c1 + c2 + c3 + c4 + c5 + c6 + c7 + c8) as int,
            ));
        }
        Ok((rem8, (o1, o2, o3, o4, o5, o6, o7, o8)))
    }
}

impl<
    E: View,
    P1: Parser<E>,
    P2: Parser<E>,
    P3: Parser<E>,
    P4: Parser<E>,
    P5: Parser<E>,
    P6: Parser<E>,
    P7: Parser<E>,
    P8: Parser<E>,
    P9: Parser<E>,
> Tuple<E> for (P1, P2, P3, P4, P5, P6, P7, P8, P9) {
    type Output = (P1::Output, P2::Output, P3::Output, P4::Output, P5::Output, P6::Output, P7::Output, P8::Output, P9::Output);

    open spec fn spec_parse_tuple(&self, input: Seq<u8>) -> SpecOutcome<
        <(P1::Output, P2::Output, P3::Output, P4::Output, P5::Output, P6::Output, P7::Output, P8::Output, P9::Output) as View>::V,
        E::V,
    > {
        match (self.0, self.1, self.2, self.3, self.4, self.5, self.6, self.7).spec_parse_tuple(input) {
            SpecOutcome::Done { consumed: c, output: o } => match self.8.spec_parse(
                input.skip(c as int),
            ) {
                SpecOutcome::Done { consumed: cl, output: ol } => SpecOutcome::Done {
                    consumed: c + cl,
                    output: (o.0, o.1, o.2, o.3, o.4, o.5, o.6, o.7, ol),
                },
                SpecOutcome::Fail { err } => SpecOutcome::Fail { err },
            },
            SpecOutcome::Fail { err } => SpecOutcome::Fail { err },
        }
    }

    proof fn lemma_tuple_consumed_bounded(&self, input: Seq<u8>) {
        (self.0, self.1, self.2, self.3, self.4, self.5, self.6, self.7).lemma_tuple_consumed_bounded(input);
        match (self.0, self.1, self.2, self.3, self.4, self.5, self.6, self.7).spec_parse_tuple(input) {
            SpecOutcome::Done { consumed: c, .. } => {
                self.8.lemma_consumed_bounded(input.skip(c as int));
            },
            SpecOutcome::Fail { .. } => {},
        }
    }

    fn parse<'a>(&self, input: &'a [u8]) -> (r: IResult<
        'a,
        (P1::Output, P2::Output, P3::Output, P4::Output, P5::Output, P6::Output, P7::Output, P8::Output, P9::Output),
        E,
    >) {
        let (rem1, o1) = match self.0.parse(input) {
            Ok(p) => p,
            Err(e) => {
                return Err(e);
            },
        };
        let (rem2, o2) = match self.1.parse(rem1) {
            Ok(p) => p,
            Err(e) => {
                return Err(e);
            },
        };
        proof {
            let c1 = self.0.spec_parse(input@)->consumed;
            let c2 = self.1.spec_parse(input@.skip(c1 as int))->consumed;
            assert(input@.skip(c1 as int).skip(c2 as int) =~= input@.skip(
                (c1 + c2) as int,
            ));
        }
        let (rem3, o3) = match self.2.parse(rem2) {
            Ok(p) => p,
            Err(e) => {
                return Err(e);
            },
        };
        proof {
            let c1 = self.0.spec_parse(input@)->consumed;
            let c2 = self.1.spec_parse(input@.skip(c1 as int))->consumed;
            let c3 = self.2.spec_parse(input@.skip((c1 + c2) as int))->consumed;
            assert(input@.skip((c1 + c2) as int).skip(c3 as int) =~= input@.skip(
                (c1 + c2 + c3) as int,
            ));
        }
        let (rem4, o4) = match self.3.parse(rem3) {
            Ok(p) => p,
            Err(e) => {
                return Err(e);
            },
        };
        proof {
            let c1 = self.0.spec_parse(input@)->consumed;
            let c2 = self.1.spec_parse(input@.skip(c1 as int))->consumed;
            let c3 = self.2.spec_parse(input@.skip((c1 + c2) as int))->consumed;
            let c4 = self.3.spec_parse(input@.skip((c1 + c2 + c3) as int))->consumed;
            assert(input@.skip((c1 + c2 + c3) as int).skip(c4 as int) =~= input@.skip(
                (c1 + c2 + c3 + c4) as int,
            ));
        }
        let (rem5, o5) = match self.4.parse(rem4) {
            Ok(p) => p,
            Err(e) => {
                return Err(e);
            },
        };
        proof {
            let c1 = self.0.spec_parse(input@)->consumed;
            let c2 = self.1.spec_parse(input@.skip(c1 as int))->consumed;
            let c3 = self.2.spec_parse(input@.skip((c1 + c2) as int))->consumed;
            let c4 = self.3.spec_parse(input@.skip((c1 + c2 + c3) as int))->consumed;
            let c5 = self.4.spec_parse(input@.skip((c1 + c2 + c3 + c4) as int))->consumed;
            assert(input@.skip((c1 + c2 + c3 + c4) as int).skip(c5 as int) =~= input@.skip(
                (c1 + c2 + c3 + c4 + c5) as int,
            ));
        }
        let (rem6, o6) = match self.5.parse(rem5) {
            Ok(p) => p,
            Err(e) => {
                return Err(e);
            },
        };
        proof {
            let c1 = self.0.spec_parse(input@)->consumed;
            let c2 = self.1.spec_parse(input@.skip(c1 as int))->consumed;
            let c3 = self.2.spec_parse(input@.skip((c1 + c2) as int))->consumed;
            let c4 = self.3.spec_parse(input@.skip((c1 + c2 + c3) as int))->consumed;
            let c5 = self.4.spec_parse(input@.skip((c1 + c2 + c3 + c4) as int))->consumed;
            let c6 = self.5.spec_parse(input@.skip((c1 + c2 + c3 + c4 + c5) as int))->consumed;
            assert(input@.skip((c1 + c2 + c3 + c4 + c5) as int).skip(c6 as int) =~= input@.skip(
                (c1 + c2 + c3 + c4 + c5 + c6) as int,
            ));
        }
        let (rem7, o7) = match self.6.parse(rem6) {
            Ok(p) => p,
            Err(e) => {
                return Err(e);
            },
        };
        proof {
            let c1 = self.0.spec_parse(input@)->consumed;
            let c2 = self.1.spec_parse(input@.skip(c1 as int))->consumed;
            let c3 = self.2.spec_parse(input@.skip((c1 + c2) as int))->consumed;
            let c4 = self.3.spec_parse(input@.skip((c1 + c2 + c3) as int))->consumed;
            let c5 = self.4.spec_parse(input@.skip((c1 + c2 + c3 + c4) as int))->consumed;
            let c6 = self.5.spec_parse(input@.skip((c1 + c2 + c3 + c4 + c5) as int))->consumed;
            let c7 = self.6.spec_parse(input@.skip((c1 + c2 + c3 + c4 + c5 + c6) as int))->consumed;
            assert(input@.skip((c1 + c2 + c3 + c4 + c5 + c6) as int).skip(c7 as int) =~= input@.skip(
                (c1 + c2 + c3 + c4 + c5 + c6 + c7) as int,
            ));
        }
        let (rem8, o8) = match self.7.parse(rem7) {
            Ok(p) => p,
            Err(e) => {
                return Err(e);
            },
        };
        proof {
            let c1 = self.0.spec_parse(input@)->consumed;
            let c2 = self.1.spec_parse(input@.skip(c1 as int))->consumed;
            let c3 = self.2.spec_parse(input@.skip((c1 + c2) as int))->consumed;
            let c4 = self.3.spec_parse(input@.skip((c1 + c2 + c3) as int))->consumed;
            let c5 = self.4.spec_parse(input@.skip((c1 + c2 + c3 + c4) as int))->consumed;
            let c6 = self.5.spec_parse(input@.skip((c1 + c2 + c3 + c4 + c5) as int))->consumed;
            let c7 = self.6.spec_parse(input@.skip((c1 + c2 + c3 + c4 + c5 + c6) as int))->consumed;
            let c8 = self.7.spec_parse(input@.skip((c1 + c2 + c3 + c4 + c5 + c6 + c7) as int))->consumed;
            assert(input@.skip((c1 + c2 + c3 + c4 + c5 + c6 + c7) as int).skip(c8 as int) =~= input@.skip(
                (c1 + c2 + c3 + c4 + c5 + c6 + c7 + c8) as int,
            ));
        }
        let (rem9, o9) = match self.8.parse(rem8) {
            Ok(p) => p,
            Err(e) => {
                return Err(e);
            },
        };
        proof {
            let c1 = self.0.spec_parse(input@)->consumed;
            let c2 = self.1.spec_parse(input@.skip(c1 as int))->consumed;
            let c3 = self.2.spec_parse(input@.skip((c1 + c2) as int))->consumed;
            let c4 = self.3.spec_parse(input@.skip((c1 + c2 + c3) as int))->consumed;
            let c5 = self.4.spec_parse(input@.skip((c1 + c2 + c3 + c4) as int))->consumed;
            let c6 = self.5.spec_parse(input@.skip((c1 + c2 + c3 + c4 + c5) as int))->consumed;
            let c7 = self.6.spec_parse(input@.skip((c1 + c2 + c3 + c4 + c5 + c6) as int))->consumed;
            let c8 = self.7.spec_parse(input@.skip((c1 + c2 + c3 + c4 + c5 + c6 + c7) as int))->consumed;
            let c9 = self.8.spec_parse(input@.skip((c1 + c2 + c3 + c4 + c5 + c6 + c7 + c8) as int))->consumed;
            assert(input@.skip((c1 + c2 + c3 + c4 + c5 + c6 + c7 + c8) as int).skip(c9 as int) =~= input@.skip(
                (c1 + c2 + c3 + c4 + c5 + c6 + c7 + c8 + c9) as int,
            ));
        }
        Ok((rem9, (o1, o2, o3, o4, o5, o6, o7, o8, o9)))
    }
}

impl<
    E: View,
    P1: Parser<E>,
    P2: Parser<E>,
    P3: Parser<E>,
    P4: Parser<E>,
    P5: Parser<E>,
    P6: Parser<E>,
    P7: Parser<E>,
    P8: Parser<E>,
    P9: Parser<E>,
    P10: Parser<E>,
> Tuple<E> for (P1, P2, P3, P4, P5, P6, P7, P8, P9, P10) {
    type Output = (P1::Output, P2::Output, P3::Output, P4::Output, P5::Output, P6::Output, P7::Output, P8::Output, P9::Output, P10::Output);

    open spec fn spec_parse_tuple(&self, input: Seq<u8>) -> SpecOutcome<
        <(P1::Output, P2::Output, P3::Output, P4::Output, P5::Output, P6::Output, P7::Output, P8::Output, P9::Output, P10::Output) as View>::V,
        E::V,
    > {
        match (self.0, self.1, self.2, self.3, self.4, self.5, self.6, self.7, self.8).spec_parse_tuple(input) {
            SpecOutcome::Done { consumed: c, output: o } => match self.9.spec_parse(
                input.skip(c as int),
            ) {
                SpecOutcome::Done { consumed: cl, output: ol } => SpecOutcome::Done {
                    consumed: c + cl,
                    output: (o.0, o.1, o.2, o.3, o.4, o.5, o.6, o.7, o.8, ol),
                },
                SpecOutcome::Fail { err } => SpecOutcome::Fail { err },
            },
            SpecOutcome::Fail { err } => SpecOutcome::Fail { err },
        }
    }

    proof fn lemma_tuple_consumed_bounded(&self, input: Seq<u8>) {
        (self.0, self.1, self.2, self.3, self.4, self.5, self.6, self.7, self.8).lemma_tuple_consumed_bounded(input);
        match (self.0, self.1, self.2, self.3, self.4, self.5, self.6, self.7, self.8).spec_parse_tuple(input) {
            SpecOutcome::Done { consumed: c, .. } => {
                self.9.lemma_consumed_bounded(input.skip(c as int));
            },
            SpecOutcome::Fail { .. } => {},
        }
    }

    fn parse<'a>(&self, input: &'a [u8]) -> (r: IResult<
        'a,
        (P1::Output, P2::Output, P3::Output, P4::Output, P5::Output, P6::Output, P7::Output, P8::Output, P9::Output, P10::Output),
        E,
    >) {
        let (rem1, o1) = match self.0.parse(input) {
            Ok(p) => p,
            Err(e) => {
                return Err(e);
            },
        };
        let (rem2, o2) = match self.1.parse(rem1) {
            Ok(p) => p,
            Err(e) => {
                return Err(e);
            },
        };
        proof {
            let c1 = self.0.spec_parse(input@)->consumed;
            let c2 = self.1.spec_parse(input@.skip(c1 as int))->consumed;
            assert(input@.skip(c1 as int).skip(c2 as int) =~= input@.skip(
                (c1 + c2) as int,
            ));
        }
        let (rem3, o3) = match self.2.parse(rem2) {
            Ok(p) => p,
            Err(e) => {
                return Err(e);
            },
        };
        proof {
            let c1 = self.0.spec_parse(input@)->consumed;
            let c2 = self.1.spec_parse(input@.skip(c1 as int))->consumed;
            let c3 = self.2.spec_parse(input@.skip((c1 + c2) as int))->consumed;
            assert(input@.skip((c1 + c2) as int).skip(c3 as int) =~= input@.skip(
                (c1 + c2 + c3) as int,
            ));
        }
        let (rem4, o4) = match self.3.parse(rem3) {
            Ok(p) => p,
            Err(e) => {
                return Err(e);
            },
        };
        proof {
            let c1 = self.0.spec_parse(input@)->consumed;
            let c2 = self.1.spec_parse(input@.skip(c1 as int))->consumed;
            let c3 = self.2.spec_parse(input@.skip((c1 + c2) as int))->consumed;
            let c4 = self.3.spec_parse(input@.skip((c1 + c2 + c3) as int))->consumed;
            assert(input@.skip((c1 + c2 + c3) as int).skip(c4 as int) =~= input@.skip(
                (c1 + c2 + c3 + c4) as int,
            ));
        }
        let (rem5, o5) = match self.4.parse(rem4) {
            Ok(p) => p,
            Err(e) => {
                return Err(e);
            },
        };
        proof {
            let c1 = self.0.spec_parse(input@)->consumed;
            let c2 = self.1.spec_parse(input@.skip(c1 as int))->consumed;
            let c3 = self.2.spec_parse(input@.skip((c1 + c2) as int))->consumed;
            let c4 = self.3.spec_parse(input@.skip((c1 + c2 + c3) as int))->consumed;
            let c5 = self.4.spec_parse(input@.skip((c1 + c2 + c3 + c4) as int))->consumed;
            assert(input@.skip((c1 + c2 + c3 + c4) as int).skip(c5 as int) =~= input@.skip(
                (c1 + c2 + c3 + c4 + c5) as int,
            ));
        }
        let (rem6, o6) = match self.5.parse(rem5) {
            Ok(p) => p,
            Err(e) => {
                return Err(e);
            },
        };
        proof {
            let c1 = self.0.spec_parse(input@)->consumed;
            let c2 = self.1.spec_parse(input@.skip(c1 as int))->consumed;
            let c3 = self.2.spec_parse(input@.skip((c1 + c2) as int))->consumed;
            let c4 = self.3.spec_parse(input@.skip((c1 + c2 + c3) as int))->consumed;
            let c5 = self.4.spec_parse(input@.skip((c1 + c2 + c3 + c4) as int))->consumed;
            let c6 = self.5.spec_parse(input@.skip((c1 + c2 + c3 + c4 + c5) as int))->consumed;
            assert(input@.skip((c1 + c2 + c3 + c4 + c5) as int).skip(c6 as int) =~= input@.skip(
                (c1 + c2 + c3 + c4 + c5 + c6) as int,
            ));
        }
        let (rem7, o7) = match self.6.parse(rem6) {
            Ok(p) => p,
            Err(e) => {
                return Err(e);
            },
        };
        proof {
            let c1 = self.0.spec_parse(input@)->consumed;
            let c2 = self.1.spec_parse(input@.skip(c1 as int))->consumed;
            let c3 = self.2.spec_parse(input@.skip((c1 + c2) as int))->consumed;
            let c4 = self.3.spec_parse(input@.skip((c1 + c2 + c3) as int))->consumed;
            let c5 = self.4.spec_parse(input@.skip((c1 + c2 + c3 + c4) as int))->consumed;
            let c6 = self.5.spec_parse(input@.skip((c1 + c2 + c3 + c4 + c5) as int))->consumed;
            let c7 = self.6.spec_parse(input@.skip((c1 + c2 + c3 + c4 + c5 + c6) as int))->consumed;
            assert(input@.skip((c1 + c2 + c3 + c4 + c5 + c6) as int).skip(c7 as int) =~= input@.skip(
                (c1 + c2 + c3 + c4 + c5 + c6 + c7) as int,
            ));
        }
        let (rem8, o8) = match self.7.parse(rem7) {
            Ok(p) => p,
            Err(e) => {
                return Err(e);
            },
        };
        proof {
            let c1 = self.0.spec_parse(input@)->consumed;
            let c2 = self.1.spec_parse(input@.skip(c1 as int))->consumed;
            let c3 = self.2.spec_parse(input@.skip((c1 + c2) as int))->consumed;
            let c4 = self.3.spec_parse(input@.skip((c1 + c2 + c3) as int))->consumed;
            let c5 = self.4.spec_parse(input@.skip((c1 + c2 + c3 + c4) as int))->consumed;
            let c6 = self.5.spec_parse(input@.skip((c1 + c2 + c3 + c4 + c5) as int))->consumed;
            let c7 = self.6.spec_parse(input@.skip((c1 + c2 + c3 + c4 + c5 + c6) as int))->consumed;
            let c8 = self.7.spec_parse(input@.skip((c1 + c2 + c3 + c4 + c5 + c6 + c7) as int))->consumed;
            assert(input@.skip((c1 + c2 + c3 + c4 + c5 + c6 + c7) as int).skip(c8 as int) =~= input@.skip(
                (c1 + c2 + c3 + c4 + c5 + c6 + c7 + c8) as int,
            ));
        }
        let (rem9, o9) = match self.8.parse(rem8) {
            Ok(p) => p,
            Err(e) => {
                return Err(e);
            },
        };
        proof {
            let c1 = self.0.spec_parse(input@)->consumed;
            let c2 = self.1.spec_parse(input@.skip(c1 as int))->consumed;
            let c3 = self.2.spec_parse(input@.skip((c1 + c2) as int))->consumed;
            let c4 = self.3.spec_parse(input@.skip((c1 + c2 + c3) as int))->consumed;
            let c5 = self.4.spec_parse(input@.skip((c1 + c2 + c3 + c4) as int))->consumed;
            let c6 = self.5.spec_parse(input@.skip((c1 + c2 + c3 + c4 + c5) as int))->consumed;
            let c7 = self.6.spec_parse(input@.skip((c1 + c2 + c3 + c4 + c5 + c6) as int))->consumed;
            let c8 = self.7.spec_parse(input@.skip((c1 + c2 + c3 + c4 + c5 + c6 + c7) as int))->consumed;
            let c9 = self.8.spec_parse(input@.skip((c1 + c2 + c3 + c4 + c5 + c6 + c7 + c8) as int))->consumed;
            assert(input@.skip((c1 + c2 + c3 + c4 + c5 + c6 + c7 + c8) as int).skip(c9 as int) =~= input@.skip(
                (c1 + c2 + c3 + c4 + c5 + c6 + c7 + c8 + c9) as int,
            ));
        }
        let (rem10, o10) = match self.9.parse(rem9) {
            Ok(p) => p,
            Err(e) => {
                return Err(e);
            },
        };
        proof {
            let c1 = self.0.spec_parse(input@)->consumed;
            let c2 = self.1.spec_parse(input@.skip(c1 as int))->consumed;
            let c3 = self.2.spec_parse(input@.skip((c1 + c2) as int))->consumed;
            let c4 = self.3.spec_parse(input@.skip((c1 + c2 + c3) as int))->consumed;
            let c5 = self.4.spec_parse(input@.skip((c1 + c2 + c3 + c4) as int))->consumed;
            let c6 = self.5.spec_parse(input@.skip((c1 + c2 + c3 + c4 + c5) as int))->consumed;
            let c7 = self.6.spec_parse(input@.skip((c1 + c2 + c3 + c4 + c5 + c6) as int))->consumed;
            let c8 = self.7.spec_parse(input@.skip((c1 + c2 + c3 + c4 + c5 + c6 + c7) as int))->consumed;
            let c9 = self.8.spec_parse(input@.skip((c1 + c2 + c3 + c4 + c5 + c6 + c7 + c8) as int))->consumed;
            let c10 = self.9.spec_parse(input@.skip((c1 + c2 + c3 + c4 + c5 + c6 + c7 + c8 + c9) as int))->consumed;
            assert(input@.skip((c1 + c2 + c3 + c4 + c5 + c6 + c7 + c8 + c9) as int).skip(c10 as int) =~= input@.skip(
                (c1 + c2 + c3 + c4 + c5 + c6 + c7 + c8 + c9 + c10) as int,
            ));
        }
        Ok((rem10, (o1, o2, o3, o4, o5, o6, o7, o8, o9, o10)))
    }
}

impl<
    E: View,
    P1: Parser<E>,
    P2: Parser<E>,
    P3: Parser<E>,
    P4: Parser<E>,
    P5: Parser<E>,
    P6: Parser<E>,
    P7: Parser<E>,
    P8: Parser<E>,
    P9: Parser<E>,
    P10: Parser<E>,
    P11: Parser<E>,
> Tuple<E> for (P1, P2, P3, P4, P5, P6, P7, P8, P9, P10, P11) {
    type Output = (P1::Output, P2::Output, P3::Output, P4::Output, P5::Output, P6::Output, P7::Output, P8::Output, P9::Output, P10::Output, P11::Output);

    open spec fn spec_parse_tuple(&self, input: Seq<u8>) -> SpecOutcome<
        <(P1::Output, P2::Output, P3::Output, P4::Output, P5::Output, P6::Output, P7::Output, P8::Output, P9::Output, P10::Output, P11::Output) as View>::V,
        E::V,
    > {
        match (self.0, self.1, self.2, self.3, self.4, self.5, self.6, self.7, self.8, self.9).spec_parse_tuple(input) {
            SpecOutcome::Done { consumed: c, output: o } => match self.10.spec_parse(
                input.skip(c as int),
            ) {
                SpecOutcome::Done { consumed: cl, output: ol } => SpecOutcome::Done {
                    consumed: c + cl,
                    output: (o.0, o.1, o.2, o.3, o.4, o.5, o.6, o.7, o.8, o.9, ol),
                },
                SpecOutcome::Fail { err } => SpecOutcome::Fail { err },
            },
            SpecOutcome::Fail { err } => SpecOutcome::Fail { err },
        }
    }

    proof fn lemma_tuple_consumed_bounded(&self, input: Seq<u8>) {
        (self.0, self.1, self.2, self.3, self.4, self.5, self.6, self.7, self.8, self.9).lemma_tuple_consumed_bounded(input);
        match (self.0, self.1, self.2, self.3, self.4, self.5, self.6, self.7, self.8, self.9).spec_parse_tuple(input) {
            SpecOutcome::Done { consumed: c, .. } => {
                self.10.lemma_consumed_bounded(input.skip(c as int));
            },
            SpecOutcome::Fail { .. } => {},
        }
    }

    fn parse<'a>(&self, input: &'a [u8]) -> (r: IResult<
        'a,
        (P1::Output, P2::Output, P3::Output, P4::Output, P5::Output, P6::Output, P7::Output, P8::Output, P9::Output, P10::Output, P11::Output),
        E,
    >) {
        let (rem1, o1) = match self.0.parse(input) {
            Ok(p) => p,
            Err(e) => {
                return Err(e);
            },
        };
        let (rem2, o2) = match self.1.parse(rem1) {
            Ok(p) => p,
            Err(e) => {
                return Err(e);
            },
        };
        proof {
            let c1 = self.0.spec_parse(input@)->consumed;
            let c2 = self.1.spec_parse(input@.skip(c1 as int))->consumed;
            assert(input@.skip(c1 as int).skip(c2 as int) =~= input@.skip(
                (c1 + c2) as int,
            ));
        }
        let (rem3, o3) = match self.2.parse(rem2) {
            Ok(p) => p,
            Err(e) => {
                return Err(e);
            },
        };
        proof {
            let c1 = self.0.spec_parse(input@)->consumed;
            let c2 = self.1.spec_parse(input@.skip(c1 as int))->consumed;
            let c3 = self.2.spec_parse(input@.skip((c1 + c2) as int))->consumed;
            assert(input@.skip((c1 + c2) as int).skip(c3 as int) =~= input@.skip(
                (c1 + c2 + c3) as int,
            ));
        }
        let (rem4, o4) = match self.3.parse(rem3) {
            Ok(p) => p,
            Err(e) => {
                return Err(e);
            },
        };
        proof {
            let c1 = self.0.spec_parse(input@)->consumed;
            let c2 = self.1.spec_parse(input@.skip(c1 as int))->consumed;
            let c3 = self.2.spec_parse(input@.skip((c1 + c2) as int))->consumed;
            let c4 = self.3.spec_parse(input@.skip((c1 + c2 + c3) as int))->consumed;
            assert(input@.skip((c1 + c2 + c3) as int).skip(c4 as int) =~= input@.skip(
                (c1 + c2 + c3 + c4) as int,
            ));
        }
        let (rem5, o5) = match self.4.parse(rem4) {
            Ok(p) => p,
            Err(e) => {
                return Err(e);
            },
        };
        proof {
            let c1 = self.0.spec_parse(input@)->consumed;
            let c2 = self.1.spec_parse(input@.skip(c1 as int))->consumed;
            let c3 = self.2.spec_parse(input@.skip((c1 + c2) as int))->consumed;
            let c4 = self.3.spec_parse(input@.skip((c1 + c2 + c3) as int))->consumed;
            let c5 = self.4.spec_parse(input@.skip((c1 + c2 + c3 + c4) as int))->consumed;
            assert(input@.skip((c1 + c2 + c3 + c4) as int).skip(c5 as int) =~= input@.skip(
                (c1 + c2 + c3 + c4 + c5) as int,
            ));
        }
        let (rem6, o6) = match self.5.parse(rem5) {
            Ok(p) => p,
            Err(e) => {
                return Err(e);
            },
        };
        proof {
            let c1 = self.0.spec_parse(input@)->consumed;
            let c2 = self.1.spec_parse(input@.skip(c1 as int))->consumed;
            let c3 = self.2.spec_parse(input@.skip((c1 + c2) as int))->consumed;
            let c4 = self.3.spec_parse(input@.skip((c1 + c2 + c3) as int))->consumed;
            let c5 = self.4.spec_parse(input@.skip((c1 + c2 + c3 + c4) as int))->consumed;
            let c6 = self.5.spec_parse(input@.skip((c1 + c2 + c3 + c4 + c5) as int))->consumed;
            assert(input@.skip((c1 + c2 + c3 + c4 + c5) as int).skip(c6 as int) =~= input@.skip(
                (c1 + c2 + c3 + c4 + c5 + c6) as int,
            ));
        }
        let (rem7, o7) = match self.6.parse(rem6) {
            Ok(p) => p,
            Err(e) => {
                return Err(e);
            },
        };
        proof {
            let c1 = self.0.spec_parse(input@)->consumed;
            let c2 = self.1.spec_parse(input@.skip(c1 as int))->consumed;
            let c3 = self.2.spec_parse(input@.skip((c1 + c2) as int))->consumed;
            let c4 = self.3.spec_parse(input@.skip((c1 + c2 + c3) as int))->consumed;
            let c5 = self.4.spec_parse(input@.skip((c1 + c2 + c3 + c4) as int))->consumed;
            let c6 = self.5.spec_parse(input@.skip((c1 + c2 + c3 + c4 + c5) as int))->consumed;
            let c7 = self.6.spec_parse(input@.skip((c1 + c2 + c3 + c4 + c5 + c6) as int))->consumed;
            assert(input@.skip((c1 + c2 + c3 + c4 + c5 + c6) as int).skip(c7 as int) =~= input@.skip(
                (c1 + c2 + c3 + c4 + c5 + c6 + c7) as int,
            ));
        }
        let (rem8, o8) = match self.7.parse(rem7) {
            Ok(p) => p,
            Err(e) => {
                return Err(e);
            },
        };
        proof {
            let c1 = self.0.spec_parse(input@)->consumed;
            let c2 = self.1.spec_parse(input@.skip(c1 as int))->consumed;
            let c3 = self.2.spec_parse(input@.skip((c1 + c2) as int))->consumed;
            let c4 = self.3.spec_parse(input@.skip((c1 + c2 + c3) as int))->consumed;
            let c5 = self.4.spec_parse(input@.skip((c1 + c2 + c3 + c4) as int))->consumed;
            let c6 = self.5.spec_parse(input@.skip((c1 + c2 + c3 + c4 + c5) as int))->consumed;
            let c7 = self.6.spec_parse(input@.skip((c1 + c2 + c3 + c4 + c5 + c6) as int))->consumed;
            let c8 = self.7.spec_parse(input@.skip((c1 + c2 + c3 + c4 + c5 + c6 + c7) as int))->consumed;
            assert(input@.skip((c1 + c2 + c3 + c4 + c5 + c6 + c7) as int).skip(c8 as int) =~= input@.skip(
                (c1 + c2 + c3 + c4 + c5 + c6 + c7 + c8) as int,
            ));
        }
        let (rem9, o9) = match self.8.parse(rem8) {
            Ok(p) => p,
            Err(e) => {
                return Err(e);
            },
        };
        proof {
            let c1 = self.0.spec_parse(input@)->consumed;
            let c2 = self.1.spec_parse(input@.skip(c1 as int))->consumed;
            let c3 = self.2.spec_parse(input@.skip((c1 + c2) as int))->consumed;
            let c4 = self.3.spec_parse(input@.skip((c1 + c2 + c3) as int))->consumed;
            let c5 = self.4.spec_parse(input@.skip((c1 + c2 + c3 + c4) as int))->consumed;
            let c6 = self.5.spec_parse(input@.skip((c1 + c2 + c3 + c4 + c5) as int))->consumed;
            let c7 = self.6.spec_parse(input@.skip((c1 + c2 + c3 + c4 + c5 + c6) as int))->consumed;
            let c8 = self.7.spec_parse(input@.skip((c1 + c2 + c3 + c4 + c5 + c6 + c7) as int))->consumed;
            let c9 = self.8.spec_parse(input@.skip((c1 + c2 + c3 + c4 + c5 + c6 + c7 + c8) as int))->consumed;
            assert(input@.skip((c1 + c2 + c3 + c4 + c5 + c6 + c7 + c8) as int).skip(c9 as int) =~= input@.skip(
                (c1 + c2 + c3 + c4 + c5 + c6 + c7 + c8 + c9) as int,
            ));
        }
        let (rem10, o10) = match self.9.parse(rem9) {
            Ok(p) => p,
            Err(e) => {
                return Err(e);
            },
        };
        proof {
            let c1 = self.0.spec_parse(input@)->consumed;
            let c2 = self.1.spec_parse(input@.skip(c1 as int))->consumed;
            let c3 = self.2.spec_parse(input@.skip((c1 + c2) as int))->consumed;
            let c4 = self.3.spec_parse(input@.skip((c1 + c2 + c3) as int))->consumed;
            let c5 = self.4.spec_parse(input@.skip((c1 + c2 + c3 + c4) as int))->consumed;
            let c6 = self.5.spec_parse(input@.skip((c1 + c2 + c3 + c4 + c5) as int))->consumed;
            let c7 = self.6.spec_parse(input@.skip((c1 + c2 + c3 + c4 + c5 + c6) as int))->consumed;
            let c8 = self.7.spec_parse(input@.skip((c1 + c2 + c3 + c4 + c5 + c6 + c7) as int))->consumed;
            let c9 = self.8.spec_parse(input@.skip((c1 + c2 + c3 + c4 + c5 + c6 + c7 + c8) as int))->consumed;
            let c10 = self.9.spec_parse(input@.skip((c1 + c2 + c3 + c4 + c5 + c6 + c7 + c8 + c9) as int))->consumed;
            assert(input@.skip((c1 + c2 + c3 + c4 + c5 + c6 + c7 + c8 + c9) as int).skip(c10 as int) =~= input@.skip(
                (c1 + c2 + c3 + c4 + c5 + c6 + c7 + c8 + c9 + c10) as int,
            ));
        }
        let (rem11, o11) = match self.10.parse(rem10) {
            Ok(p) => p,
            Err(e) => {
                return Err(e);
            },
        };
        proof {
            let c1 = self.0.spec_parse(input@)->consumed;
            let c2 = self.1.spec_parse(input@.skip(c1 as int))->consumed;
            let c3 = self.2.spec_parse(input@.skip((c1 + c2) as int))->consumed;
            let c4 = self.3.spec_parse(input@.skip((c1 + c2 + c3) as int))->consumed;
            let c5 = self.4.spec_parse(input@.skip((c1 + c2 + c3 + c4) as int))->consumed;
            let c6 = self.5.spec_parse(input@.skip((c1 + c2 + c3 + c4 + c5) as int))->consumed;
            let c7 = self.6.spec_parse(input@.skip((c1 + c2 + c3 + c4 + c5 + c6) as int))->consumed;
            let c8 = self.7.spec_parse(input@.skip((c1 + c2 + c3 + c4 + c5 + c6 + c7) as int))->consumed;
            let c9 = self.8.spec_parse(input@.skip((c1 + c2 + c3 + c4 + c5 + c6 + c7 + c8) as int))->consumed;
            let c10 = self.9.spec_parse(input@.skip((c1 + c2 + c3 + c4 + c5 + c6 + c7 + c8 + c9) as int))->consumed;
            let c11 = self.10.spec_parse(input@.skip((c1 + c2 + c3 + c4 + c5 + c6 + c7 + c8 + c9 + c10) as int))->consumed;
            assert(input@.skip((c1 + c2 + c3 + c4 + c5 + c6 + c7 + c8 + c9 + c10) as int).skip(c11 as int) =~= input@.skip(
                (c1 + c2 + c3 + c4 + c5 + c6 + c7 + c8 + c9 + c10 + c11) as int,
            ));
        }
        Ok((rem11, (o1, o2, o3, o4, o5, o6, o7, o8, o9, o10, o11)))
    }
}

impl<
    E: View,
    P1: Parser<E>,
    P2: Parser<E>,
    P3: Parser<E>,
    P4: Parser<E>,
    P5: Parser<E>,
    P6: Parser<E>,
    P7: Parser<E>,
    P8: Parser<E>,
    P9: Parser<E>,
    P10: Parser<E>,
    P11: Parser<E>,
    P12: Parser<E>,
> Tuple<E> for (P1, P2, P3, P4, P5, P6, P7, P8, P9, P10, P11, P12) {
    type Output = (P1::Output, P2::Output, P3::Output, P4::Output, P5::Output, P6::Output, P7::Output, P8::Output, P9::Output, P10::Output, P11::Output, P12::Output);

    open spec fn spec_parse_tuple(&self, input: Seq<u8>) -> SpecOutcome<
        <(P1::Output, P2::Output, P3::Output, P4::Output, P5::Output, P6::Output, P7::Output, P8::Output, P9::Output, P10::Output, P11::Output, P12::Output) as View>::V,
        E::V,
    > {
        match (self.0, self.1, self.2, self.3, self.4, self.5, self.6, self.7, self.8, self.9, self.10).spec_parse_tuple(input) {
            SpecOutcome::Done { consumed: c, output: o } => match self.11.spec_parse(
                input.skip(c as int),
            ) {
                SpecOutcome::Done { consumed: cl, output: ol } => SpecOutcome::Done {
                    consumed: c + cl,
                    output: (o.0, o.1, o.2, o.3, o.4, o.5, o.6, o.7, o.8, o.9, o.10, ol),
                },
                SpecOutcome::Fail { err } => SpecOutcome::Fail { err },
            },
            SpecOutcome::Fail { err } => SpecOutcome::Fail { err },
        }
    }

    proof fn lemma_tuple_consumed_bounded(&self, input: Seq<u8>) {
        (self.0, self.1, self.2, self.3, self.4, self.5, self.6, self.7, self.8, self.9, self.10).lemma_tuple_consumed_bounded(input);
        match (self.0, self.1, self.2, self.3, self.4, self.5, self.6, self.7, self.8, self.9, self.10).spec_parse_tuple(input) {
            SpecOutcome::Done { consumed: c, .. } => {
                self.11.lemma_consumed_bounded(input.skip(c as int));
            },
            SpecOutcome::Fail { .. } => {},
        }
    }

    fn parse<'a>(&self, input: &'a [u8]) -> (r: IResult<
        'a,
        (P1::Output, P2::Output, P3::Output, P4::Output, P5::Output, P6::Output, P7::Output, P8::Output, P9::Output, P10::Output, P11::Output, P12::Output),
        E,
    >) {
        let (rem1, o1) = match self.0.parse(input) {
            Ok(p) => p,
            Err(e) => {
                return Err(e);
            },
        };
        let (rem2, o2) = match self.1.parse(rem1) {
            Ok(p) => p,
            Err(e) => {
                return Err(e);
            },
        };
        proof {
            let c1 = self.0.spec_parse(input@)->consumed;
            let c2 = self.1.spec_parse(input@.skip(c1 as int))->consumed;
            assert(input@.skip(c1 as int).skip(c2 as int) =~= input@.skip(
                (c1 + c2) as int,
            ));
        }
        let (rem3, o3) = match self.2.parse(rem2) {
            Ok(p) => p,
            Err(e) => {
                return Err(e);
            },
        };
        proof {
            let c1 = self.0.spec_parse(input@)->consumed;
            let c2 = self.1.spec_parse(input@.skip(c1 as int))->consumed;
            let c3 = self.2.spec_parse(input@.skip((c1 + c2) as int))->consumed;
            assert(input@.skip((c1 + c2) as int).skip(c3 as int) =~= input@.skip(
                (c1 + c2 + c3) as int,
            ));
        }
        let (rem4, o4) = match self.3.parse(rem3) {
            Ok(p) => p,
            Err(e) => {
                return Err(e);
            },
        };
        proof {
            let c1 = self.0.spec_parse(input@)->consumed;
            let c2 = self.1.spec_parse(input@.skip(c1 as int))->consumed;
            let c3 = self.2.spec_parse(input@.skip((c1 + c2) as int))->consumed;
            let c4 = self.3.spec_parse(input@.skip((c1 + c2 + c3) as int))->consumed;
            assert(input@.skip((c1 + c2 + c3) as int).skip(c4 as int) =~= input@.skip(
                (c1 + c2 + c3 + c4) as int,
            ));
        }
        let (rem5, o5) = match self.4.parse(rem4) {
            Ok(p) => p,
            Err(e) => {
                return Err(e);
            },
        };
        proof {
            let c1 = self.0.spec_parse(input@)->consumed;
            let c2 = self.1.spec_parse(input@.skip(c1 as int))->consumed;
            let c3 = self.2.spec_parse(input@.skip((c1 + c2) as int))->consumed;
            let c4 = self.3.spec_parse(input@.skip((c1 + c2 + c3) as int))->consumed;
            let c5 = self.4.spec_parse(input@.skip((c1 + c2 + c3 + c4) as int))->consumed;
            assert(input@.skip((c1 + c2 + c3 + c4) as int).skip(c5 as int) =~= input@.skip(
                (c1 + c2 + c3 + c4 + c5) as int,
            ));
        }
        let (rem6, o6) = match self.5.parse(rem5) {
            Ok(p) => p,
            Err(e) => {
                return Err(e);
            },
        };
        proof {
            let c1 = self.0.spec_parse(input@)->consumed;
            let c2 = self.1.spec_parse(input@.skip(c1 as int))->consumed;
            let c3 = self.2.spec_parse(input@.skip((c1 + c2) as int))->consumed;
            let c4 = self.3.spec_parse(input@.skip((c1 + c2 + c3) as int))->consumed;
            let c5 = self.4.spec_parse(input@.skip((c1 + c2 + c3 + c4) as int))->consumed;
            let c6 = self.5.spec_parse(input@.skip((c1 + c2 + c3 + c4 + c5) as int))->consumed;
            assert(input@.skip((c1 + c2 + c3 + c4 + c5) as int).skip(c6 as int) =~= input@.skip(
                (c1 + c2 + c3 + c4 + c5 + c6) as int,
            ));
        }
        let (rem7, o7) = match self.6.parse(rem6) {
            Ok(p) => p,
            Err(e) => {
                return Err(e);
            },
        };
        proof {
            let c1 = self.0.spec_parse(input@)->consumed;
            let c2 = self.1.spec_parse(input@.skip(c1 as int))->consumed;
            let c3 = self.2.spec_parse(input@.skip((c1 + c2) as int))->consumed;
            let c4 = self.3.spec_parse(input@.skip((c1 + c2 + c3) as int))->consumed;
            let c5 = self.4.spec_parse(input@.skip((c1 + c2 + c3 + c4) as int))->consumed;
            let c6 = self.5.spec_parse(input@.skip((c1 + c2 + c3 + c4 + c5) as int))->consumed;
            let c7 = self.6.spec_parse(input@.skip((c1 + c2 + c3 + c4 + c5 + c6) as int))->consumed;
            assert(input@.skip((c1 + c2 + c3 + c4 + c5 + c6) as int).skip(c7 as int) =~= input@.skip(
                (c1 + c2 + c3 + c4 + c5 + c6 + c7) as int,
            ));
        }
        let (rem8, o8) = match self.7.parse(rem7) {
            Ok(p) => p,
            Err(e) => {
                return Err(e);
            },
        };
        proof {
            let c1 = self.0.spec_parse(input@)->consumed;
            let c2 = self.1.spec_parse(input@.skip(c1 as int))->consumed;
            let c3 = self.2.spec_parse(input@.skip((c1 + c2) as int))->consumed;
            let c4 = self.3.spec_parse(input@.skip((c1 + c2 + c3) as int))->consumed;
            let c5 = self.4.spec_parse(input@.skip((c1 + c2 + c3 + c4) as int))->consumed;
            let c6 = self.5.spec_parse(input@.skip((c1 + c2 + c3 + c4 + c5) as int))->consumed;
            let c7 = self.6.spec_parse(input@.skip((c1 + c2 + c3 + c4 + c5 + c6) as int))->consumed;
            let c8 = self.7.spec_parse(input@.skip((c1 + c2 + c3 + c4 + c5 + c6 + c7) as int))->consumed;
            assert(input@.skip((c1 + c2 + c3 + c4 + c5 + c6 + c7) as int).skip(c8 as int) =~= input@.skip(
                (c1 + c2 + c3 + c4 + c5 + c6 + c7 + c8) as int,
            ));
        }
        let (rem9, o9) = match self.8.parse(rem8) {
            Ok(p) => p,
            Err(e) => {
                return Err(e);
            },
        };
        proof {
            let c1 = self.0.spec_parse(input@)->consumed;
            let c2 = self.1.spec_parse(input@.skip(c1 as int))->consumed;
            let c3 = self.2.spec_parse(input@.skip((c1 + c2) as int))->consumed;
            let c4 = self.3.spec_parse(input@.skip((c1 + c2 + c3) as int))->consumed;
            let c5 = self.4.spec_parse(input@.skip((c1 + c2 + c3 + c4) as int))->consumed;
            let c6 = self.5.spec_parse(input@.skip((c1 + c2 + c3 + c4 + c5) as int))->consumed;
            let c7 = self.6.spec_parse(input@.skip((c1 + c2 + c3 + c4 + c5 + c6) as int))->consumed;
            let c8 = self.7.spec_parse(input@.skip((c1 + c2 + c3 + c4 + c5 + c6 + c7) as int))->consumed;
            let c9 = self.8.spec_parse(input@.skip((c1 + c2 + c3 + c4 + c5 + c6 + c7 + c8) as int))->consumed;
            assert(input@.skip((c1 + c2 + c3 + c4 + c5 + c6 + c7 + c8) as int).skip(c9 as int) =~= input@.skip(
                (c1 + c2 + c3 + c4 + c5 + c6 + c7 + c8 + c9) as int,
            ));
        }
        let (rem10, o10) = match self.9.parse(rem9) {
            Ok(p) => p,
            Err(e) => {
                return Err(e);
            },
        };
        proof {
            let c1 = self.0.spec_parse(input@)->consumed;
            let c2 = self.1.spec_parse(input@.skip(c1 as int))->consumed;
            let c3 = self.2.spec_parse(input@.skip((c1 + c2) as int))->consumed;
            let c4 = self.3.spec_parse(input@.skip((c1 + c2 + c3) as int))->consumed;
            let c5 = self.4.spec_parse(input@.skip((c1 + c2 + c3 + c4) as int))->consumed;
            let c6 = self.5.spec_parse(input@.skip((c1 + c2 + c3 + c4 + c5) as int))->consumed;
            let c7 = self.6.spec_parse(input@.skip((c1 + c2 + c3 + c4 + c5 + c6) as int))->consumed;
            let c8 = self.7.spec_parse(input@.skip((c1 + c2 + c3 + c4 + c5 + c6 + c7) as int))->consumed;
            let c9 = self.8.spec_parse(input@.skip((c1 + c2 + c3 + c4 + c5 + c6 + c7 + c8) as int))->consumed;
            let c10 = self.9.spec_parse(input@.skip((c1 + c2 + c3 + c4 + c5 + c6 + c7 + c8 + c9) as int))->consumed;
            assert(input@.skip((c1 + c2 + c3 + c4 + c5 + c6 + c7 + c8 + c9) as int).skip(c10 as int) =~= input@.skip(
                (c1 + c2 + c3 + c4 + c5 + c6 + c7 + c8 + c9 + c10) as int,
            ));
        }
        let (rem11, o11) = match self.10.parse(rem10) {
            Ok(p) => p,
            Err(e) => {
                return Err(e);
            },
        };
        proof {
            let c1 = self.0.spec_parse(input@)->consumed;
            let c2 = self.1.spec_parse(input@.skip(c1 as int))->consumed;
            let c3 = self.2.spec_parse(input@.skip((c1 + c2) as int))->consumed;
            let c4 = self.3.spec_parse(input@.skip((c1 + c2 + c3) as int))->consumed;
            let c5 = self.4.spec_parse(input@.skip((c1 + c2 + c3 + c4) as int))->consumed;
            let c6 = self.5.spec_parse(input@.skip((c1 + c2 + c3 + c4 + c5) as int))->consumed;
            let c7 = self.6.spec_parse(input@.skip((c1 + c2 + c3 + c4 + c5 + c6) as int))->consumed;
            let c8 = self.7.spec_parse(input@.skip((c1 + c2 + c3 + c4 + c5 + c6 + c7) as int))->consumed;
            let c9 = self.8.spec_parse(input@.skip((c1 + c2 + c3 + c4 + c5 + c6 + c7 + c8) as int))->consumed;
            let c10 = self.9.spec_parse(input@.skip((c1 + c2 + c3 + c4 + c5 + c6 + c7 + c8 + c9) as int))->consumed;
            let c11 = self.10.spec_parse(input@.skip((c1 + c2 + c3 + c4 + c5 + c6 + c7 + c8 + c9 + c10) as int))->consumed;
            assert(input@.skip((c1 + c2 + c3 + c4 + c5 + c6 + c7 + c8 + c9 + c10) as int).skip(c11 as int) =~= input@.skip(
                (c1 + c2 + c3 + c4 + c5 + c6 + c7 + c8 + c9 + c10 + c11) as int,
            ));
        }
        let (rem12, o12) = match self.11.parse(rem11) {
            Ok(p) => p,
            Err(e) => {
                return Err(e);
            },
        };
        proof {
            let c1 = self.0.spec_parse(input@)->consumed;
            let c2 = self.1.spec_parse(input@.skip(c1 as int))->consumed;
            let c3 = self.2.spec_parse(input@.skip((c1 + c2) as int))->consumed;
            let c4 = self.3.spec_parse(input@.skip((c1 + c2 + c3) as int))->consumed;
            let c5 = self.4.spec_parse(input@.skip((c1 + c2 + c3 + c4) as int))->consumed;
            let c6 = self.5.spec_parse(input@.skip((c1 + c2 + c3 + c4 + c5) as int))->consumed;
            let c7 = self.6.spec_parse(input@.skip((c1 + c2 + c3 + c4 + c5 + c6) as int))->consumed;
            let c8 = self.7.spec_parse(input@.skip((c1 + c2 + c3 + c4 + c5 + c6 + c7) as int))->consumed;
            let c9 = self.8.spec_parse(input@.skip((c1 + c2 + c3 + c4 + c5 + c6 + c7 + c8) as int))->consumed;
            let c10 = self.9.spec_parse(input@.skip((c1 + c2 + c3 + c4 + c5 + c6 + c7 + c8 + c9) as int))->consumed;
            let c11 = self.10.spec_parse(input@.skip((c1 + c2 + c3 + c4 + c5 + c6 + c7 + c8 + c9 + c10) as int))->consumed;
            let c12 = self.11.spec_parse(input@.skip((c1 + c2 + c3 + c4 + c5 + c6 + c7 + c8 + c9 + c10 + c11) as int))->consumed;
            assert(input@.skip((c1 + c2 + c3 + c4 + c5 + c6 + c7 + c8 + c9 + c10 + c11) as int).skip(c12 as int) =~= input@.skip(
                (c1 + c2 + c3 + c4 + c5 + c6 + c7 + c8 + c9 + c10 + c11 + c12) as int,
            ));
        }
        Ok((rem12, (o1, o2, o3, o4, o5, o6, o7, o8, o9, o10, o11, o12)))
    }
}

/// The composed parser built by [`tuple`].
pub struct TupleParser<L> {
    /// The ordered list of sub-parsers.
    pub parsers: L,
}

impl<E: View, L: Tuple<E>> Parser<E> for TupleParser<L> {
    type Output = L::Output;

    open spec fn spec_parse(&self, input: Seq<u8>) -> SpecOutcome<<L::Output as View>::V, E::V> {
        self.parsers.spec_parse_tuple(input)
    }

    proof fn lemma_consumed_bounded(&self, input: Seq<u8>) {
        self.parsers.lemma_tuple_consumed_bounded(input);
    }

    fn parse<'a>(&self, input: &'a [u8]) -> (r: IResult<'a, L::Output, E>) {
        self.parsers.parse(input)
    }
}

/// Applies a tuple of parsers one by one, left to right, each on what the
/// ones before it left over; the composition succeeds with the ordered
/// product of all outputs, and fails with whichever failure ended it first.
pub fn tuple<E: View, L: Tuple<E>>(l: L) -> (r: TupleParser<L>)
    ensures
        r == (TupleParser { parsers: l }),
{
    TupleParser { parsers: l }
}

/// The three-step model never claims to consume more input than there is.
pub proof fn lemma_trio_consumed_bounded<E: View, F: Parser<E>, G: Parser<E>, H: Parser<E>>(
    first: F,
    sep: G,
    second: H,
    input: Seq<u8>,
)
    ensures
        (trio_spec(first, sep, second, input) matches SpecOutcome::Done { consumed, .. }
            ==> consumed <= input.len()),
{
    first.lemma_consumed_bounded(input);
    match first.spec_parse(input) {
        SpecOutcome::Done { consumed: c1, .. } => {
            sep.lemma_consumed_bounded(input.skip(c1 as int));
            match sep.spec_parse(input.skip(c1 as int)) {
                SpecOutcome::Done { consumed: c2, .. } => {
                    second.lemma_consumed_bounded(input.skip((c1 + c2) as int));
                },
                SpecOutcome::Fail { .. } => {},
            }
        },
        SpecOutcome::Fail { .. } => {},
    }
}

} // verus!

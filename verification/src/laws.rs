//! Laws relating the sequencing combinators to one another.
//!
//! Each law is stated over the combinators' models, the same spec functions
//! that the executable parsers are verified against, so everything proved
//! here carries over to every run of the composed parsers.  One half of
//! cursor monotonicity — that the remainder a successful parse hands back is
//! a suffix of its input — is not restated here: it is the parse contract
//! itself ([`crate::parser::parses_to`] equates the remainder with the input
//! minus its consumed prefix).  The other half, that the consumed length of
//! a composition is the sum of the consumed lengths of the sub-parsers that
//! ran, is proved below.

use vstd::prelude::*;
use crate::parser::Parser;
use crate::parser::SpecOutcome;
use crate::sequence::Pair;
use crate::sequence::Tuple;
use crate::sequence::TupleParser;
use crate::sequence::delimited_spec;
use crate::sequence::pair_spec;
use crate::sequence::preceded_spec;
use crate::sequence::separated_pair_spec;
use crate::sequence::terminated_spec;
use crate::sequence::trio_spec;

verus! {

/// Law: the two-parser tuple is `pair`.  For every pair of parsers and every
/// input, the parser [`crate::sequence::tuple`] builds from `(a, b)` has
/// exactly the outcome of the parser [`crate::sequence::pair`] builds from
/// `a` and `b`: the same output pair and remainder on success, the same
/// relayed failure otherwise.
pub proof fn lemma_tuple2_equals_pair<E: View, A: Parser<E>, B: Parser<E>>(
    a: A,
    b: B,
    input: Seq<u8>,
)
    ensures
        (TupleParser { parsers: (a, b) }).spec_parse(input) == (Pair {
            first: a,
            second: b,
        }).spec_parse(input),
{
}

/// Law: the three-parser tuple is a right-nested `pair` up to reassociation
/// of the output.  `tuple((a, b, c))` succeeds exactly when
/// `pair(a, pair(b, c))` does, consuming the same amount and producing the
/// same three outputs, reassociated; and both fail with the same relayed
/// failure otherwise.
pub proof fn lemma_tuple3_right_nesting<E: View, A: Parser<E>, B: Parser<E>, C: Parser<E>>(
    a: A,
    b: B,
    c: C,
    input: Seq<u8>,
)
    ensures
        ({
            let nested = (Pair { first: a, second: Pair { first: b, second: c } }).spec_parse(
                input,
            );
            &&& ((a, b, c).spec_parse_tuple(input) matches SpecOutcome::Done { consumed, output }
                ==> nested matches SpecOutcome::Done { consumed: cn, output: on } && cn == consumed
                    && on == (output.0, (output.1, output.2)))
            &&& ((a, b, c).spec_parse_tuple(input) matches SpecOutcome::Fail { err }
                ==> nested matches SpecOutcome::Fail { err: en } && en == err)
        }),
{
    a.lemma_consumed_bounded(input);
    match a.spec_parse(input) {
        SpecOutcome::Done { consumed: c1, .. } => {
            b.lemma_consumed_bounded(input.skip(c1 as int));
            match b.spec_parse(input.skip(c1 as int)) {
                SpecOutcome::Done { consumed: c2, .. } => {
                    assert(input.skip(c1 as int).skip(c2 as int) =~= input.skip(
                        (c1 + c2) as int,
                    ));
                },
                SpecOutcome::Fail { .. } => {},
            }
        },
        SpecOutcome::Fail { .. } => {},
    }
}

/// Law: `preceded` is the second projection of `pair`.  Wherever
/// `pair(a, b)` succeeds, `preceded(a, b)` succeeds too, with the same
/// consumed length (hence the same remainder) and with the second component
/// of the pair's output; and wherever `pair(a, b)` fails, `preceded(a, b)`
/// fails with the same relayed failure.
pub proof fn lemma_preceded_projects_pair<E: View, A: Parser<E>, B: Parser<E>>(
    a: A,
    b: B,
    input: Seq<u8>,
)
    ensures
        (pair_spec(a, b, input) matches SpecOutcome::Done { consumed, output }
            ==> preceded_spec(a, b, input) matches SpecOutcome::Done { consumed: cp, output: op }
                && cp == consumed && op == output.1),
        (pair_spec(a, b, input) matches SpecOutcome::Fail { err }
            ==> preceded_spec(a, b, input) matches SpecOutcome::Fail { err: ep } && ep == err),
{
}

/// Law: `terminated` is the first projection of `pair`, symmetrically to
/// [`lemma_preceded_projects_pair`].
pub proof fn lemma_terminated_projects_pair<E: View, A: Parser<E>, B: Parser<E>>(
    a: A,
    b: B,
    input: Seq<u8>,
)
    ensures
        (pair_spec(a, b, input) matches SpecOutcome::Done { consumed, output }
            ==> terminated_spec(a, b, input) matches SpecOutcome::Done { consumed: ct, output: ot }
                && ct == consumed && ot == output.0),
        (pair_spec(a, b, input) matches SpecOutcome::Fail { err }
            ==> terminated_spec(a, b, input) matches SpecOutcome::Fail { err: et } && et == err),
{
}

/// Law: `separated_pair` keeps the outer two of the three outputs of its
/// sub-parsers run in sequence, and `delimited` keeps the middle one; both
/// relay the three-step sequence's failure unchanged.
pub proof fn lemma_trio_projections<E: View, A: Parser<E>, S: Parser<E>, B: Parser<E>>(
    a: A,
    s: S,
    b: B,
    input: Seq<u8>,
)
    ensures
        (trio_spec(a, s, b, input) matches SpecOutcome::Done { consumed, output } ==> ({
            &&& separated_pair_spec(a, s, b, input) matches SpecOutcome::Done {
                consumed: cs,
                output: os,
            } && cs == consumed && os == (output.0, output.2)
            &&& delimited_spec(a, s, b, input) matches SpecOutcome::Done {
                consumed: cd,
                output: od,
            } && cd == consumed && od == output.1
        })),
        (trio_spec(a, s, b, input) matches SpecOutcome::Fail { err } ==> ({
            &&& separated_pair_spec(a, s, b, input) matches SpecOutcome::Fail { err: es }
                && es == err
            &&& delimited_spec(a, s, b, input) matches SpecOutcome::Fail { err: ed } && ed == err
        })),
{
}

/// Law (short circuit, two parsers): if the first sub-parser fails on its
/// cursor, the composition's outcome is that failure verbatim; if the first
/// succeeds and the second fails on the remainder the first left, the
/// composition's outcome is the second's failure verbatim.
pub proof fn lemma_pair_short_circuit<E: View, A: Parser<E>, B: Parser<E>>(
    a: A,
    b: B,
    input: Seq<u8>,
)
    ensures
        (a.spec_parse(input) matches SpecOutcome::Fail { err }
            ==> pair_spec(a, b, input) matches SpecOutcome::Fail { err: e } && e == err),
        (a.spec_parse(input) matches SpecOutcome::Done { consumed, .. }
            ==> (b.spec_parse(input.skip(consumed as int)) matches SpecOutcome::Fail { err }
                ==> pair_spec(a, b, input) matches SpecOutcome::Fail { err: e } && e == err)),
{
}

/// Law (short circuit, three parsers): the first sub-parser to fail, at
/// whichever of the three positions, decides the whole three-step sequence's
/// outcome with its failure verbatim.  Through [`lemma_trio_projections`]
/// and the tuple models this covers `separated_pair`, `delimited` and the
/// three-parser tuple.
pub proof fn lemma_trio_short_circuit<E: View, A: Parser<E>, S: Parser<E>, B: Parser<E>>(
    a: A,
    s: S,
    b: B,
    input: Seq<u8>,
)
    ensures
        (a.spec_parse(input) matches SpecOutcome::Fail { err }
            ==> trio_spec(a, s, b, input) matches SpecOutcome::Fail { err: e } && e == err),
        (a.spec_parse(input) matches SpecOutcome::Done { consumed, .. }
            ==> (s.spec_parse(input.skip(consumed as int)) matches SpecOutcome::Fail { err }
                ==> trio_spec(a, s, b, input) matches SpecOutcome::Fail { err: e } && e == err)),
        (a.spec_parse(input) matches SpecOutcome::Done { consumed: c1, .. }
            ==> (s.spec_parse(input.skip(c1 as int)) matches SpecOutcome::Done {
                consumed: c2,
                ..
            } ==> (b.spec_parse(input.skip((c1 + c2) as int)) matches SpecOutcome::Fail { err }
                ==> trio_spec(a, s, b, input) matches SpecOutcome::Fail { err: e } && e == err))),
{
}

/// Law (consumed lengths add up, two parsers): when `pair(a, b)` succeeds,
/// both sub-parsers succeeded and the composition's consumed length is the
/// sum of theirs, never more than the input's length.  With the parse
/// contract this makes the final remainder the suffix of the input obtained
/// by dropping both sub-parsers' consumed prefixes in turn.
pub proof fn lemma_pair_consumed_sum<E: View, A: Parser<E>, B: Parser<E>>(
    a: A,
    b: B,
    input: Seq<u8>,
)
    ensures
        (pair_spec(a, b, input) matches SpecOutcome::Done { consumed, .. }
            ==> a.spec_parse(input) matches SpecOutcome::Done { consumed: c1, .. }
                && b.spec_parse(input.skip(c1 as int)) matches SpecOutcome::Done {
                consumed: c2,
                ..
            } && consumed == c1 + c2 && consumed <= input.len()),
{
    (Pair { first: a, second: b }).lemma_consumed_bounded(input);
}

/// Law (consumed lengths add up, three parsers): when the three-step
/// sequence succeeds, all three sub-parsers succeeded and the composition's
/// consumed length is the sum of theirs, never more than the input's length.
pub proof fn lemma_trio_consumed_sum<E: View, A: Parser<E>, S: Parser<E>, B: Parser<E>>(
    a: A,
    s: S,
    b: B,
    input: Seq<u8>,
)
    ensures
        (trio_spec(a, s, b, input) matches SpecOutcome::Done { consumed, .. }
            ==> a.spec_parse(input) matches SpecOutcome::Done { consumed: c1, .. }
                && s.spec_parse(input.skip(c1 as int)) matches SpecOutcome::Done {
                consumed: c2,
                ..
            } && b.spec_parse(input.skip((c1 + c2) as int)) matches SpecOutcome::Done {
                consumed: c3,
                ..
            } && consumed == c1 + c2 + c3 && consumed <= input.len()),
{
    crate::sequence::lemma_trio_consumed_bounded(a, s, b, input);
}

} // verus!

//! A minimal leaf parser: literal byte-string matching.
//!
//! The sequencing combinators are generic over any [`Parser`]; this module
//! supplies the one leaf needed to build concrete grammars and to exercise
//! the combinators end to end.

use vstd::prelude::*;
use vstd::slice::slice_index_get;
use vstd::slice::slice_subrange;
use vstd::slice::slice_to_vec;
use crate::parser::IResult;
use crate::parser::ParseErr;
use crate::parser::Parser;
use crate::parser::SpecOutcome;

verus! {

/// The error a [`Tag`] produces: the input it attempted, and failed, to match.
#[derive(Debug, PartialEq, Eq)]
pub struct TagError {
    /// The remaining input at the point of the failed match.
    pub at: Vec<u8>,
}

impl View for TagError {
    type V = Seq<u8>;

    open spec fn view(&self) -> Seq<u8> {
        self.at@
    }
}

/// A parser that succeeds exactly when its literal is a prefix of the input,
/// consuming and returning the matched bytes.
pub struct Tag {
    /// The literal to match.
    pub tag: Vec<u8>,
}

impl Parser<TagError> for Tag {
    type Output = Vec<u8>;

    open spec fn spec_parse(&self, input: Seq<u8>) -> SpecOutcome<Seq<u8>, Seq<u8>> {
        if self.tag@.len() <= input.len() && input.take(self.tag@.len() as int) == self.tag@ {
            SpecOutcome::Done { consumed: self.tag@.len(), output: self.tag@ }
        } else {
            SpecOutcome::Fail { err: ParseErr::Error(input) }
        }
    }

    proof fn lemma_consumed_bounded(&self, input: Seq<u8>) {
    }

    fn parse<'a>(&self, input: &'a [u8]) -> (r: IResult<'a, Vec<u8>, TagError>) {
        let n = self.tag.len();
        if n <= input.len() {
            let mut i: usize = 0;
            while i < n
                invariant
                    i <= n,
                    n == self.tag@.len(),
                    n <= input@.len(),
                    forall|j: int| 0 <= j < i ==> input@[j] == self.tag@[j],
                decreases n - i,
            {
                if *slice_index_get(input, i) != self.tag[i] {
                    proof {
                        assert(input@.take(n as int)[i as int] != self.tag@[i as int]);
                    }
                    return Err(ParseErr::Error(TagError { at: slice_to_vec(input) }));
                }
                i += 1;
            }
            proof {
                assert(input@.take(n as int) =~= self.tag@);
            }
            let rem = slice_subrange(input, n, input.len());
            let out = slice_to_vec(slice_subrange(input, 0, n));
            proof {
                assert(out@ =~= self.tag@);
                assert(rem@ =~= input@.skip(n as int));
            }
            Ok((rem, out))
        } else {
            Err(ParseErr::Error(TagError { at: slice_to_vec(input) }))
        }
    }
}

} // verus!

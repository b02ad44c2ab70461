//! Newlines: the end of a line of the source.
use vstd::prelude::*;

use crate::node::{Node, UnmatchedPatternError};
use crate::pattern::{lemma_fixed_texts_match, NEWLINE_KIND, NEWLINE};

verus! {

impl<'a> Node<'a> {
    /// Declares that a newline node, followed by what `chain` builds from it, may follow this node.
    pub fn branch_to_newline<F: Fn(Node<'a>) -> Result<Node<'a>, UnmatchedPatternError>>(
        self,
        chain: F,
    ) -> (r: Result<Self, UnmatchedPatternError>)
        requires
            forall|n: Node<'a>| #[trigger]
                self.follows(NEWLINE_KIND@, NEWLINE@, n) ==> call_requires(chain, (n,)),
        ensures
            exists|n: Node<'a>| #[trigger]
                self.follows(NEWLINE_KIND@, NEWLINE@, n) && self.attached(chain, n, r),
    {
        proof {
            lemma_fixed_texts_match();
            reveal_strlit("\n");
        }
        self.expect(NEWLINE_KIND, NEWLINE, chain)
    }
}

} // verus!

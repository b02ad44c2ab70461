//! Spacing: the single space between two tokens.
use vstd::prelude::*;

use crate::node::{Node, UnmatchedPatternError};
use crate::pattern::{lemma_fixed_texts_match, SPACING, SPACE};

verus! {

impl<'a> Node<'a> {
    /// Declares that a spacing node, followed by what `chain` builds from it, may follow this node.
    pub fn branch_to_space<F: Fn(Node<'a>) -> Result<Node<'a>, UnmatchedPatternError>>(
        self,
        chain: F,
    ) -> (r: Result<Self, UnmatchedPatternError>)
        requires
            forall|n: Node<'a>| #[trigger]
                self.follows(SPACING@, SPACE@, n) ==> call_requires(chain, (n,)),
        ensures
            exists|n: Node<'a>| #[trigger]
                self.follows(SPACING@, SPACE@, n) && self.attached(chain, n, r),
    {
        proof {
            lemma_fixed_texts_match();
            reveal_strlit(" ");
        }
        self.expect(SPACING, SPACE, chain)
    }
}

} // verus!

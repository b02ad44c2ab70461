//! List separators: what stands between two items of a list.
use vstd::prelude::*;

use crate::node::{Node, UnmatchedPatternError};
use crate::pattern::{lemma_fixed_texts_match, LIST_SEPARATOR, SEPARATOR};

verus! {

impl<'a> Node<'a> {
    /// Declares that a list separator node, followed by what `chain` builds from it, may follow this node.
    pub fn branch_to_list_separator<F: Fn(Node<'a>) -> Result<Node<'a>, UnmatchedPatternError>>(
        self,
        chain: F,
    ) -> (r: Result<Self, UnmatchedPatternError>)
        requires
            forall|n: Node<'a>| #[trigger]
                self.follows(LIST_SEPARATOR@, SEPARATOR@, n) ==> call_requires(chain, (n,)),
        ensures
            exists|n: Node<'a>| #[trigger]
                self.follows(LIST_SEPARATOR@, SEPARATOR@, n) && self.attached(chain, n, r),
    {
        proof {
            lemma_fixed_texts_match();
            reveal_strlit(", ");
        }
        self.expect(LIST_SEPARATOR, SEPARATOR, chain)
    }
}

} // verus!

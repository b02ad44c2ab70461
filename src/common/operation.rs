//! Operations: the statements and expressions, of which only the text is known yet.
use vstd::prelude::*;

use crate::node::{Node, UnmatchedPatternError};
use crate::pattern::{matches_kind, mismatch_message, IDENTIFIER, OPERATION, OPERATION_PATTERN};
use crate::position::next_column_of;

verus! {

impl<'a> Node<'a> {
    /// Declares that an operation of `text`, followed by what `chain` builds from it, may follow
    /// this node.
    pub fn branch_to_operation<F: Fn(Node<'a>) -> Result<Node<'a>, UnmatchedPatternError>>(
        self,
        text: &'a str,
        chain: F,
    ) -> (r: Result<Self, UnmatchedPatternError>)
        requires
            matches_kind(OPERATION@, text@) ==> next_column_of(
                self.column as int,
                self.row as int,
                text@.len() as int,
            ) <= u32::MAX,
            forall|n: Node<'a>| #[trigger]
                self.follows(OPERATION@, text@, n) ==> call_requires(chain, (n,)),
        ensures
            !matches_kind(OPERATION@, text@) ==> (r matches Err(e) && e.message@
                == mismatch_message(text@, OPERATION_PATTERN@)),
            matches_kind(OPERATION@, text@) ==> exists|n: Node<'a>| #[trigger]
                self.follows(OPERATION@, text@, n) && self.attached(chain, n, r),
    {
        proof {
            reveal_strlit("Identifier");
            reveal_strlit("Operation");
            assert(OPERATION@.len() == 9 && IDENTIFIER@.len() == 10);
        }
        self.expect(OPERATION, text, chain)
    }
}

} // verus!

//! Identifiers: the names of functions, of parameters and of types.
use vstd::prelude::*;

use crate::node::{Node, UnmatchedPatternError};
use crate::pattern::{identifier_message, matches_kind, IDENTIFIER};
use crate::position::next_column_of;

verus! {

impl<'a> Node<'a> {
    /// Declares that an identifier of `text`, followed by what `chain` builds from it, may follow
    /// this node.
    pub fn branch_to_identifier<F: Fn(Node<'a>) -> Result<Node<'a>, UnmatchedPatternError>>(
        self,
        text: &'a str,
        chain: F,
    ) -> (r: Result<Self, UnmatchedPatternError>)
        requires
            matches_kind(IDENTIFIER@, text@) ==> next_column_of(
                self.column as int,
                self.row as int,
                text@.len() as int,
            ) <= u32::MAX,
            forall|n: Node<'a>| #[trigger]
                self.follows(IDENTIFIER@, text@, n) ==> call_requires(chain, (n,)),
        ensures
            !matches_kind(IDENTIFIER@, text@) ==> (r matches Err(e) && e.message@
                == identifier_message(text@)),
            matches_kind(IDENTIFIER@, text@) ==> exists|n: Node<'a>| #[trigger]
                self.follows(IDENTIFIER@, text@, n) && self.attached(chain, n, r),
    {
        self.expect(IDENTIFIER, text, chain)
    }
}

} // verus!

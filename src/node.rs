//! Nodes of the tree and the protocol by which a node declares what may follow it.
use vstd::prelude::*;

use crate::pattern::{kind_error_message, matches_kind, validate};
use crate::pattern::{find_pattern, invalid_pattern_message, regex_search};
use crate::position::{next_column, next_column_of, next_row, next_row_of, ROW_CAP};

verus! {

/// Error on the text of a node that does not match the pattern of its kind.
#[derive(Debug, PartialEq, Eq)]
pub struct UnmatchedPatternError {
    /// What went wrong, for a reader.
    pub message: String,
}

impl UnmatchedPatternError {
    /// The message that describes the error.
    pub fn message(&self) -> (r: &str)
        ensures
            r@ == self.message@,
    {
        self.message.as_str()
    }
}

/// A node (token) of the tree.
#[derive(Debug, Default, PartialEq)]
pub struct Node<'a> {
    /// Kind of the node: the name of the rule that produced it.
    pub name: &'a str,
    /// Text of the source that the node covers.
    pub text: &'a str,
    /// Number of the line of the source on which the node stands.
    pub column: u32,
    /// Offset of the node in its line, capped at `ROW_CAP`.
    pub row: u32,
    /// What may follow the node: `None` where the node may end the production, `Some` with each
    /// node by which it may go on.
    pub children: Vec<Option<Node<'a>>>,
}

/// The continuations of a node once it has been marked as a possible end of its production.
pub open spec fn leafed<'a>(children: Seq<Option<Node<'a>>>) -> Seq<Option<Node<'a>>> {
    if children.contains(None) {
        children
    } else {
        children.push(None)
    }
}

/// Whether the text of every node of the tree rooted at `n` matches the pattern of its kind.
pub open spec fn valid_tree<'a>(n: Node<'a>) -> bool
    decreases n,
{
    &&& matches_kind(n.name@, n.text@)
    &&& forall|i: int|
        0 <= i < n.children@.len() ==> match #[trigger] n.children@[i] {
            Some(c) => valid_tree(c),
            None => true,
        }
}

/// Whether every node of the tree rooted at `n` can either end its production or go on: no node
/// is left with no continuation at all.
pub open spec fn terminable_tree<'a>(n: Node<'a>) -> bool
    decreases n,
{
    &&& n.children@.len() > 0
    &&& forall|i: int|
        0 <= i < n.children@.len() ==> match #[trigger] n.children@[i] {
            Some(c) => terminable_tree(c),
            None => true,
        }
}

/// Continuations that all go on to a node hold no end of the production.
pub proof fn lemma_no_end_among_successors<'a>(children: Seq<Option<Node<'a>>>)
    requires
        forall|j: int| 0 <= j < children.len() ==> children[j] is Some,
    ensures
        !children.contains(None),
{
    if children.contains(None) {
        let j = choose|j: int| 0 <= j < children.len() && children[j] == None::<Node<'a>>;
        assert(children[j] is Some);
    }
}

/// Number of the continuations in `children` that end the production.
pub open spec fn ends_count<'a>(children: Seq<Option<Node<'a>>>) -> nat
    decreases children.len(),
{
    if children.len() == 0 {
        0
    } else {
        ends_count(children.drop_last()) + if children.last() is None {
            1nat
        } else {
            0nat
        }
    }
}

/// The continuations hold an end of the production exactly where they count one.
pub proof fn lemma_ends_count_positive<'a>(children: Seq<Option<Node<'a>>>)
    ensures
        children.contains(None) <==> ends_count(children) > 0,
    decreases children.len(),
{
    if children.len() > 0 {
        let init = children.drop_last();
        lemma_ends_count_positive(init);
        if init.contains(None) {
            let j = choose|j: int| 0 <= j < init.len() && init[j] == None::<Node<'a>>;
            assert(children[j] == init[j]);
        }
        if children.contains(None) && children.last() is Some {
            let j = choose|j: int| 0 <= j < children.len() && children[j] == None::<Node<'a>>;
            assert(init[j] == children[j]);
        }
        if children.last() is None {
            assert(children[children.len() - 1] == None::<Node<'a>>);
        }
    }
}

/// Marking a node as a possible end of its production twice leaves the same continuations as
/// marking it once; where the node held at most one end, it then holds exactly one.
pub proof fn lemma_leaf_is_idempotent<'a>(n: Node<'a>)
    requires
        ends_count(n.children@) <= 1,
    ensures
        leafed(leafed(n.children@)) == leafed(n.children@),
        ends_count(leafed(leafed(n.children@))) == 1,
{
    let children = n.children@;
    lemma_ends_count_positive(children);
    if !children.contains(None) {
        let pushed = children.push(None);
        assert(pushed.drop_last() =~= children);
        assert(pushed[pushed.len() - 1] == None::<Node<'a>>);
        assert(pushed.contains(None));
    }
}

impl<'a> Node<'a> {
    /// Whether `n` is a node of `kind` and `text`, with no continuations yet, at the position
    /// that follows this node once `text` is consumed.
    pub open spec fn follows(self, kind: Seq<char>, text: Seq<char>, n: Node<'a>) -> bool {
        &&& n.name@ == kind
        &&& n.text@ == text
        &&& n.column == next_column_of(self.column as int, self.row as int, text.len() as int)
        &&& n.row == next_row_of(self.row as int, text.len() as int)
        &&& n.children@.len() == 0
    }

    /// Whether `m` is this node with `c` appended to its continuations.
    pub open spec fn extended_by(self, m: Node<'a>, c: Node<'a>) -> bool {
        &&& m.name == self.name
        &&& m.text == self.text
        &&& m.column == self.column
        &&& m.row == self.row
        &&& m.children@ == self.children@.push(Some(c))
    }

    /// Whether `r` is what this node becomes once the subtree that `chain` builds from `n` is
    /// attached to it, or the failure of `chain`.
    pub open spec fn attached<F: Fn(Node<'a>) -> Result<Node<'a>, UnmatchedPatternError>>(
        self,
        chain: F,
        n: Node<'a>,
        r: Result<Node<'a>, UnmatchedPatternError>,
    ) -> bool {
        match r {
            Ok(m) => exists|c: Node<'a>| #[trigger]
                call_ensures(chain, (n,), Ok(c)) && self.extended_by(m, c),
            Err(e) => call_ensures(chain, (n,), Err(e)),
        }
    }

    /// Instantiates a node whose kind is its text.
    pub fn of(text: &'a str, column: u32, row: u32) -> (r: Self)
        ensures
            r.name == text,
            r.text == text,
            r.column == column,
            r.row == row,
            r.children@.len() == 0,
    {
        Node::new(text, text, column, row)
    }

    /// Instantiates a node with no continuations.
    pub fn new(name: &'a str, text: &'a str, column: u32, row: u32) -> (r: Self)
        ensures
            r.name == name,
            r.text == text,
            r.column == column,
            r.row == row,
            r.children@.len() == 0,
    {
        Node { name, text, column, row, children: Vec::new() }
    }

    /// Line on which the node that follows this one stands, once `text` is consumed.
    pub fn next_column(&self, text: &str) -> (r: u32)
        requires
            next_column_of(self.column as int, self.row as int, text@.len() as int) <= u32::MAX,
        ensures
            r == next_column_of(self.column as int, self.row as int, text@.len() as int),
    {
        next_column(self.column, self.row, text.unicode_len())
    }

    /// Offset at which the node that follows this one stands, once `text` is consumed.
    pub fn next_row(&self, text: &str) -> (r: u32)
        ensures
            r == next_row_of(self.row as int, text@.len() as int),
    {
        next_row(self.row, text.unicode_len())
    }

    /// Marks this node as a possible end of its production; a node already marked is kept as it
    /// is.
    pub fn leaf(self) -> (r: Result<Self, UnmatchedPatternError>)
        ensures
            r matches Ok(m) && m.name == self.name && m.text == self.text && m.column
                == self.column && m.row == self.row && m.children@ == leafed(self.children@),
    {
        let mut node = self;
        let mut i: usize = 0;
        while i < node.children.len()
            invariant
                node == self,
                0 <= i <= node.children@.len(),
                forall|j: int| 0 <= j < i ==> node.children@[j] is Some,
            decreases node.children@.len() - i,
        {
            if node.children[i].is_none() {
                assert(node.children@[i as int] == None::<Node<'a>>);
                assert(node.children@.contains(None));
                return Ok(node);
            }
            i += 1;
        }
        proof {
            lemma_no_end_among_successors(node.children@);
        }
        node.children.push(None);
        Ok(node)
    }

    /// Attaches to this node the subtree that `chain` builds from a new node of `name` and `text`,
    /// with no check of the text; on a failure of `chain` this node is kept as it was.
    fn attach<F: Fn(Node<'a>) -> Result<Node<'a>, UnmatchedPatternError>>(
        &mut self,
        name: &'a str,
        text: &'a str,
        chain: F,
    ) -> (r: Result<(), UnmatchedPatternError>)
        requires
            next_column_of(old(self).column as int, old(self).row as int, text@.len() as int)
                <= u32::MAX,
            forall|n: Node<'a>| #[trigger]
                old(self).follows(name@, text@, n) ==> call_requires(chain, (n,)),
        ensures
            exists|n: Node<'a>| #[trigger]
                old(self).follows(name@, text@, n) && match r {
                    Ok(_) => exists|c: Node<'a>| #[trigger]
                        call_ensures(chain, (n,), Ok(c)) && old(self).extended_by(*final(self), c),
                    Err(e) => call_ensures(chain, (n,), Err(e)),
                },
            r is Err ==> *final(self) == *old(self),
    {
        let next = Node::new(name, text, self.next_column(text), self.next_row(text));
        assert(old(self).follows(name@, text@, next));
        match chain(next) {
            Ok(c) => {
                self.children.push(Some(c));
                Ok(())
            },
            Err(e) => Err(e),
        }
    }

    /// Attaches to this node the subtree that `chain` builds from a new node of `kind` and
    /// `text`, once `text` is checked against the pattern of `kind`. Where the check or `chain`
    /// fails, this node is kept as it was.
    pub fn expect_in_place<F: Fn(Node<'a>) -> Result<Node<'a>, UnmatchedPatternError>>(
        &mut self,
        kind: &'a str,
        text: &'a str,
        chain: F,
    ) -> (r: Result<(), UnmatchedPatternError>)
        requires
            matches_kind(kind@, text@) ==> next_column_of(
                old(self).column as int,
                old(self).row as int,
                text@.len() as int,
            ) <= u32::MAX,
            forall|n: Node<'a>| #[trigger]
                old(self).follows(kind@, text@, n) ==> call_requires(chain, (n,)),
        ensures
            !matches_kind(kind@, text@) ==> (r matches Err(e) && e.message@
                == kind_error_message(kind@, text@)),
            matches_kind(kind@, text@) ==> exists|n: Node<'a>| #[trigger]
                old(self).follows(kind@, text@, n) && match r {
                    Ok(_) => exists|c: Node<'a>| #[trigger]
                        call_ensures(chain, (n,), Ok(c)) && old(self).extended_by(*final(self), c),
                    Err(e) => call_ensures(chain, (n,), Err(e)),
                },
            r is Err ==> *final(self) == *old(self),
    {
        match validate(kind, text) {
            Ok(_) => self.attach(kind, text, chain),
            Err(e) => Err(e),
        }
    }

    /// Declares that a node of `kind` and `text`, followed by what `chain` builds from it, may
    /// follow this node; fails where `text` does not match the pattern of `kind` or `chain`
    /// fails.
    pub fn expect<F: Fn(Node<'a>) -> Result<Node<'a>, UnmatchedPatternError>>(
        self,
        kind: &'a str,
        text: &'a str,
        chain: F,
    ) -> (r: Result<Self, UnmatchedPatternError>)
        requires
            matches_kind(kind@, text@) ==> next_column_of(
                self.column as int,
                self.row as int,
                text@.len() as int,
            ) <= u32::MAX,
            forall|n: Node<'a>| #[trigger]
                self.follows(kind@, text@, n) ==> call_requires(chain, (n,)),
        ensures
            !matches_kind(kind@, text@) ==> (r matches Err(e) && e.message@
                == kind_error_message(kind@, text@)),
            matches_kind(kind@, text@) ==> exists|n: Node<'a>| #[trigger]
                self.follows(kind@, text@, n) && self.attached(chain, n, r),
    {
        let mut node = self;
        match node.expect_in_place(kind, text, chain) {
            Ok(()) => Ok(node),
            Err(e) => Err(e),
        }
    }

    /// Declares that a node whose kind is its `text` may follow this node.
    pub fn branch_to<F: Fn(Node<'a>) -> Result<Node<'a>, UnmatchedPatternError>>(
        self,
        text: &'a str,
        chain: F,
    ) -> (r: Result<Self, UnmatchedPatternError>)
        requires
            matches_kind(text@, text@) ==> next_column_of(
                self.column as int,
                self.row as int,
                text@.len() as int,
            ) <= u32::MAX,
            forall|n: Node<'a>| #[trigger]
                self.follows(text@, text@, n) ==> call_requires(chain, (n,)),
        ensures
            !matches_kind(text@, text@) ==> (r matches Err(e) && e.message@
                == kind_error_message(text@, text@)),
            matches_kind(text@, text@) ==> exists|n: Node<'a>| #[trigger]
                self.follows(text@, text@, n) && self.attached(chain, n, r),
    {
        self.expect(text, text, chain)
    }

    /// Declares that a node of `name` and `text` may follow this node, with no check of the
    /// text.
    pub fn branch_to_named<F: Fn(Node<'a>) -> Result<Node<'a>, UnmatchedPatternError>>(
        self,
        name: &'a str,
        text: &'a str,
        chain: F,
    ) -> (r: Result<Self, UnmatchedPatternError>)
        requires
            next_column_of(self.column as int, self.row as int, text@.len() as int) <= u32::MAX,
            forall|n: Node<'a>| #[trigger]
                self.follows(name@, text@, n) ==> call_requires(chain, (n,)),
        ensures
            exists|n: Node<'a>| #[trigger]
                self.follows(name@, text@, n) && self.attached(chain, n, r),
    {
        let mut node = self;
        match node.attach(name, text, chain) {
            Ok(()) => Ok(node),
            Err(e) => Err(e),
        }
    }

    /// Declares that a node of `name` and `text` may follow this node, where `text` holds a match
    /// of `pattern`; otherwise fails with the message that `error_message` gives.
    pub fn branch_to_named_and_patterned<
        M: Fn() -> String,
        F: Fn(Node<'a>) -> Result<Node<'a>, UnmatchedPatternError>,
    >(
        self,
        name: &'a str,
        pattern: &str,
        error_message: M,
        text: &'a str,
        chain: F,
    ) -> (r: Result<Self, UnmatchedPatternError>)
        requires
            call_requires(error_message, ()),
            next_column_of(self.column as int, self.row as int, text@.len() as int) <= u32::MAX,
            forall|n: Node<'a>| #[trigger]
                self.follows(name@, text@, n) ==> call_requires(chain, (n,)),
        ensures
            regex_search(pattern@, text@) is None ==> (r matches Err(e) && e.message@
                == invalid_pattern_message(pattern@)),
            regex_search(pattern@, text@) == Some(false) ==> (r matches Err(e) && call_ensures(
                error_message,
                (),
                e.message,
            )),
            regex_search(pattern@, text@) == Some(true) ==> exists|n: Node<'a>| #[trigger]
                self.follows(name@, text@, n) && self.attached(chain, n, r),
    {
        match find_pattern(pattern, text) {
            Ok(true) => self.branch_to_named(name, text, chain),
            Ok(false) => Err(UnmatchedPatternError { message: error_message() }),
            Err(e) => Err(e),
        }
    }
}

/// The node that follows another one through `expect` stands no earlier in its line: its row is
/// that of its predecessor moved by the length of the consumed text, capped at `ROW_CAP`.
pub proof fn lemma_row_is_monotonic<'a>(
    a: Node<'a>,
    kind: Seq<char>,
    text: Seq<char>,
    b: Node<'a>,
)
    requires
        a.follows(kind, text, b),
        a.row <= ROW_CAP,
    ensures
        b.row >= a.row,
        b.row == vstd::math::min(a.row + text.len(), ROW_CAP as int),
{
}

/// Attaching through `expect` keeps a tree sound: where this node roots a valid tree whose nodes
/// can each end or go on, and the attached subtree is such a tree too, so is the tree of the
/// extended node.
pub proof fn lemma_attaching_keeps_trees_sound<'a>(node: Node<'a>, c: Node<'a>, m: Node<'a>)
    requires
        valid_tree(node),
        terminable_tree(node),
        valid_tree(c),
        terminable_tree(c),
        node.extended_by(m, c),
    ensures
        valid_tree(m),
        terminable_tree(m),
{
    assert forall|i: int| 0 <= i < m.children@.len() implies match #[trigger] m.children@[i] {
        Some(d) => valid_tree(d) && terminable_tree(d),
        None => true,
    } by {
        if i < node.children@.len() {
            assert(m.children@[i] == node.children@[i]);
        }
    }
}

} // verus!

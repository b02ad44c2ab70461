//! Rendering of a tree as indented lines of text, one for each node.
use vstd::prelude::*;

use crate::node::Node;
use crate::pattern::{same_text, NEWLINE};

verus! {

/// What stands before the label of each node.
pub const BRANCH: &'static str = "\u{251c}\u{2500} ";

/// What a continuation that ends the production renders as.
pub const BRANCH_END: &'static str = "\u{251c}\u{2500}";

/// Indentation of each level of depth.
pub const INDENT: &'static str = "   ";

/// Whether `c` is an ASCII whitespace character.
pub open spec fn is_ascii_blank(c: char) -> bool {
    c == ' ' || c == '\t' || c == '\n' || c == '\x0C' || c == '\r'
}

/// Whether `text` holds only ASCII whitespace.
pub open spec fn is_blank(text: Seq<char>) -> bool {
    forall|i: int| 0 <= i < text.len() ==> is_ascii_blank(#[trigger] text[i])
}

/// Label of a node: its kind where its text is the same or blank, else its kind and its quoted
/// text.
pub open spec fn label(name: Seq<char>, text: Seq<char>) -> Seq<char> {
    if name == text || is_blank(text) {
        name
    } else {
        name + " \""@ + text + "\""@
    }
}

/// Indentation of a node at `depth`.
pub open spec fn indentation(depth: nat) -> Seq<char>
    decreases depth,
{
    if depth == 0 {
        seq![]
    } else {
        indentation((depth - 1) as nat) + INDENT@
    }
}

/// Rendering of the tree rooted at `n`, at `depth`: the line of `n`, then its continuations one
/// level deeper.
pub open spec fn rendered<'a>(n: Node<'a>, depth: nat) -> Seq<char>
    decreases n,
{
    indentation(depth) + BRANCH@ + label(n.name@, n.text@) + NEWLINE@ + rendered_continuations(
        n.children@,
        depth + 1,
    )
}

/// Rendering of `children` at `depth`, in order; a continuation that ends the production renders
/// as `BRANCH_END` and stops the rendering of those after it.
pub open spec fn rendered_continuations<'a>(children: Seq<Option<Node<'a>>>, depth: nat) -> Seq<
    char,
>
    decreases children,
{
    if children.len() == 0 {
        seq![]
    } else {
        match children[0] {
            None => BRANCH_END@,
            Some(c) => rendered(c, depth) + rendered_continuations(children.drop_first(), depth),
        }
    }
}

/// Whether `text` holds only ASCII whitespace.
fn blank(text: &str) -> (r: bool)
    ensures
        r == is_blank(text@),
{
    let n = text.unicode_len();
    let mut i: usize = 0;
    while i < n
        invariant
            n == text@.len(),
            0 <= i <= n,
            forall|j: int| 0 <= j < i ==> is_ascii_blank(#[trigger] text@[j]),
        decreases n - i,
    {
        let c = text.get_char(i);
        if !(c == ' ' || c == '\t' || c == '\n' || c == '\x0C' || c == '\r') {
            return false;
        }
        i += 1;
    }
    true
}

impl<'a> Node<'a> {
    /// Label of this node in a rendering.
    pub fn display_name(&self) -> (r: String)
        ensures
            r@ == label(self.name@, self.text@),
    {
        let mut name = String::from_str(self.name);
        if same_text(self.name, self.text) || blank(self.text) {
            name
        } else {
            name.append(" \"");
            name.append(self.text);
            name.append("\"");
            name
        }
    }

    /// Renders the tree rooted at this node at `depth`, each line indented by `indent`.
    fn render_at(&self, indent: &str, Ghost(depth): Ghost<nat>) -> (r: String)
        requires
            indent@ == indentation(depth),
        ensures
            r@ == rendered(*self, depth),
        decreases self,
    {
        let mut out = String::from_str(indent);
        out.append(BRANCH);
        let name = self.display_name();
        out.append(name.as_str());
        out.append(NEWLINE);
        let mut deeper = String::from_str(indent);
        deeper.append(INDENT);
        assert(deeper@ == indentation(depth + 1));
        let ghost head = out@;
        let ghost children = self.children@;
        let mut i: usize = 0;
        assert(children.subrange(0, children.len() as int) =~= children);
        while i < self.children.len()
            invariant
                children == self.children@,
                deeper@ == indentation(depth + 1),
                0 <= i <= children.len(),
                head + rendered_continuations(children, depth + 1) == rendered(*self, depth),
                out@ + rendered_continuations(children.subrange(i as int, children.len() as int), depth + 1)
                    == rendered(*self, depth),
            decreases children.len() - i,
        {
            let ghost rest = children.subrange(i as int, children.len() as int);
            assert(rest[0] == children[i as int]);
            match &self.children[i] {
                None => {
                    out.append(BRANCH_END);
                    return out;
                },
                Some(child) => {
                    assert(decreases_to!(*self => self.children));
                    let below = child.render_at(deeper.as_str(), Ghost(depth + 1));
                    out.append(below.as_str());
                    assert(rest.drop_first() =~= children.subrange(i + 1, children.len() as int));
                },
            }
            i += 1;
        }
        assert(children.subrange(i as int, children.len() as int).len() == 0);
        out
    }

    /// Renders the tree rooted at this node: one line for each node, indented by three spaces for
    /// each level of depth, with a marker before its label.
    pub fn render(&self) -> (r: String)
        ensures
            r@ == rendered(*self, 0),
    {
        let root = "";
        proof {
            reveal_strlit("");
            assert(root@ =~= indentation(0));
        }
        self.render_at(root, Ghost(0))
    }
}

} // verus!

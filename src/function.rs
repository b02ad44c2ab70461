//! Declarations of functions: `func`, a name, a parenthesised list of typed parameters, and the
//! delimiter of the scope.
use vstd::prelude::*;

use crate::node::{lemma_no_end_among_successors, terminable_tree, valid_tree, Node, UnmatchedPatternError};
use crate::pattern::{
    kind_error_message,
    lemma_literal_kind_matches,
    matches_kind,
    IDENTIFIER,
    LIST_SEPARATOR,
    SEPARATOR,
    SPACE,
    SPACING,
};
use crate::position::{next_column_of, next_row_of};

verus! {

/// Keyword that starts a declaration of a function.
pub const FUNC: &'static str = "func";

/// Start of a list of parameters.
pub const OPENING_PARENTHESIS: &'static str = "(";

/// End of a list of parameters.
pub const CLOSING_PARENTHESIS: &'static str = ")";

/// Start of the scope of a function declared on a single line.
pub const SCOPE_DELIMITER: &'static str = ":";

/// Declaration of a parameter passed into a function as a value.
#[derive(Clone, Copy, Debug, PartialEq, Eq)]
pub struct ValueParameterDeclaration<'a> {
    /// Name of the type of the value as it was written: it may or may not be qualified.
    pub value_type: &'a str,
    /// Name given to the parameter.
    pub identifier: &'a str,
}

/// The kinds and texts of a sequence of steps.
pub open spec fn step_views<'a>(steps: Seq<(&'a str, &'a str)>) -> Seq<(Seq<char>, Seq<char>)> {
    steps.map_values(|step: (&'a str, &'a str)| (step.0@, step.1@))
}

/// The type and the name of each of `params`.
pub open spec fn parameter_views<'a>(params: Seq<ValueParameterDeclaration<'a>>) -> Seq<
    (Seq<char>, Seq<char>),
> {
    params.map_values(|p: ValueParameterDeclaration<'a>| (p.value_type@, p.identifier@))
}

/// Kinds and texts of the nodes that a list of parameters, each a type and a name, chains: for
/// each, its type, a space and its name, with a list separator between two parameters.
pub open spec fn parameter_steps(params: Seq<(Seq<char>, Seq<char>)>) -> Seq<
    (Seq<char>, Seq<char>),
>
    decreases params.len(),
{
    if params.len() == 0 {
        seq![]
    } else {
        let last = params.last();
        let separator = if params.len() > 1 {
            seq![(LIST_SEPARATOR@, SEPARATOR@)]
        } else {
            seq![]
        };
        parameter_steps(params.drop_last()) + separator + seq![
            (IDENTIFIER@, last.0),
            (SPACING@, SPACE@),
            (IDENTIFIER@, last.1),
        ]
    }
}

/// Kinds and texts of the nodes that the declaration of a function named `name` with `params`
/// chains, from `func` to the closing parenthesis.
pub open spec fn declaration_steps(
    name: Seq<char>,
    params: Seq<(Seq<char>, Seq<char>)>,
) -> Seq<(Seq<char>, Seq<char>)> {
    seq![
        (FUNC@, FUNC@),
        (SPACING@, SPACE@),
        (IDENTIFIER@, name),
        (OPENING_PARENTHESIS@, OPENING_PARENTHESIS@),
    ] + parameter_steps(params) + seq![(CLOSING_PARENTHESIS@, CLOSING_PARENTHESIS@)]
}

/// Whether the text of every step matches the pattern of its kind.
pub open spec fn all_match(steps: Seq<(Seq<char>, Seq<char>)>) -> bool {
    forall|k: int| 0 <= k < steps.len() ==> matches_kind(#[trigger] steps[k].0, steps[k].1)
}

/// Message of the error on the first step whose text does not match the pattern of its kind.
pub open spec fn first_mismatch(steps: Seq<(Seq<char>, Seq<char>)>) -> Seq<char>
    decreases steps.len(),
{
    if steps.len() == 0 {
        seq![]
    } else if !matches_kind(steps[0].0, steps[0].1) {
        kind_error_message(steps[0].0, steps[0].1)
    } else {
        first_mismatch(steps.drop_first())
    }
}

/// Whether `n` ends a declaration: its only continuation is the delimiter of the scope, which
/// ends the production.
pub open spec fn closes_declaration<'a>(n: Node<'a>) -> bool {
    &&& n.children@.len() == 1
    &&& match n.children@[0] {
        Some(c) => {
            &&& c.name@ == SCOPE_DELIMITER@
            &&& c.text@ == SCOPE_DELIMITER@
            &&& c.column == next_column_of(n.column as int, n.row as int, 1)
            &&& c.row == next_row_of(n.row as int, 1)
            &&& c.children@ == seq![None::<Node<'a>>]
        },
        None => false,
    }
}

/// Whether `n` spells `steps`: it has the kind and text of the first step; unless that step is
/// the last, its only continuation is the node that spells the rest, at the position that
/// follows it; the node of the last step closes a declaration.
pub open spec fn spells<'a>(n: Node<'a>, steps: Seq<(Seq<char>, Seq<char>)>) -> bool
    decreases steps.len(),
{
    &&& steps.len() > 0
    &&& n.name@ == steps[0].0
    &&& n.text@ == steps[0].1
    &&& if steps.len() == 1 {
        closes_declaration(n)
    } else {
        match n.children@[0] {
            Some(c) => {
                &&& n.children@.len() == 1
                &&& c.column == next_column_of(n.column as int, n.row as int, steps[1].1.len() as int)
                &&& c.row == next_row_of(n.row as int, steps[1].1.len() as int)
                &&& spells(c, steps.drop_first())
            },
            None => false,
        }
    }
}

/// A node that spells steps whose texts all match their kinds roots a tree that is valid and in
/// which every node can end its production or go on.
pub proof fn lemma_spelled_tree_is_sound<'a>(n: Node<'a>, steps: Seq<(Seq<char>, Seq<char>)>)
    requires
        spells(n, steps),
        all_match(steps),
    ensures
        valid_tree(n),
        terminable_tree(n),
    decreases steps.len(),
{
    assert(matches_kind(steps[0].0, steps[0].1));
    if steps.len() == 1 {
        let c = n.children@[0]->0;
        reveal_strlit(":");
        lemma_literal_kind_matches(SCOPE_DELIMITER@);
        assert(valid_tree(c));
        assert(terminable_tree(c));
    } else {
        let c = n.children@[0]->0;
        let rest = steps.drop_first();
        assert forall|k: int| 0 <= k < rest.len() implies matches_kind(
            #[trigger] rest[k].0,
            rest[k].1,
        ) by {
            assert(rest[k] == steps[k + 1]);
        }
        lemma_spelled_tree_is_sound(c, rest);
    }
}

impl<'a> Node<'a> {
    /// Closes a declaration at this node, its closing parenthesis: its only continuation is the
    /// delimiter of the scope, which ends the production.
    fn close_declaration(self) -> (r: Result<Node<'a>, UnmatchedPatternError>)
        requires
            self.row > 0,
            self.children@.len() == 0,
        ensures
            r matches Ok(m) && m.name == self.name && m.text == self.text && m.column
                == self.column && m.row == self.row && closes_declaration(m),
    {
        proof {
            reveal_strlit(":");
            lemma_literal_kind_matches(SCOPE_DELIMITER@);
            lemma_no_end_among_successors(Seq::<Option<Node<'a>>>::empty());
        }
        let r = self.branch_to(SCOPE_DELIMITER, Node::leaf);
        proof {
            if r is Ok {
                let c = r->Ok_0.children@[0]->0;
                assert(c.children@ =~= seq![None::<Node<'a>>]);
            }
        }
        r
    }

    /// Expects the steps from `i` on, one after the other, from this node: the node of each
    /// step is the only continuation of the one before, and the node of the last step closes a
    /// declaration.
    fn expect_steps(self, steps: &Vec<(&'a str, &'a str)>, i: usize) -> (r: Result<
        Node<'a>,
        UnmatchedPatternError,
    >)
        requires
            i < steps@.len(),
            self.row > 0 || steps@[i as int].1@.len() > 0,
        ensures
            all_match(step_views(steps@).subrange(i as int, steps@.len() as int)) ==> (
            r matches Ok(m) && exists|c: Node<'a>|
                {
                    &&& self.extended_by(m, c)
                    &&& c.column == next_column_of(
                        self.column as int,
                        self.row as int,
                        steps@[i as int].1@.len() as int,
                    )
                    &&& c.row == next_row_of(self.row as int, steps@[i as int].1@.len() as int)
                    &&& #[trigger] spells(
                        c,
                        step_views(steps@).subrange(i as int, steps@.len() as int),
                    )
                }),
            !all_match(step_views(steps@).subrange(i as int, steps@.len() as int)) ==> (
            r matches Err(e) && e.message@ == first_mismatch(
                step_views(steps@).subrange(i as int, steps@.len() as int),
            )),
        decreases steps@.len() - i,
    {
        let ghost views = step_views(steps@);
        let ghost tail = views.subrange(i as int, steps@.len() as int);
        let ghost rest = views.subrange(i + 1, steps@.len() as int);
        let kind = steps[i].0;
        let text = steps[i].1;
        let last = i == steps.len() - 1;
        let chain = |n: Node<'a>| -> (r: Result<Node<'a>, UnmatchedPatternError>)
            requires
                i < steps@.len(),
                last == (i + 1 == steps@.len()),
                n.row > 0,
                n.children@.len() == 0,
            ensures
                last ==> (r matches Ok(m) && m.name == n.name && m.text == n.text && m.column
                    == n.column && m.row == n.row && closes_declaration(m)),
                !last && all_match(step_views(steps@).subrange(i + 1, steps@.len() as int))
                    ==> (r matches Ok(m) && exists|c: Node<'a>|
                    {
                        &&& n.extended_by(m, c)
                        &&& c.column == next_column_of(
                            n.column as int,
                            n.row as int,
                            steps@[i + 1].1@.len() as int,
                        )
                        &&& c.row == next_row_of(n.row as int, steps@[i + 1].1@.len() as int)
                        &&& #[trigger] spells(
                            c,
                            step_views(steps@).subrange(i + 1, steps@.len() as int),
                        )
                    }),
                !last && !all_match(step_views(steps@).subrange(i + 1, steps@.len() as int))
                    ==> (r matches Err(e) && e.message@ == first_mismatch(
                    step_views(steps@).subrange(i + 1, steps@.len() as int),
                )),
            {
                if last {
                    n.close_declaration()
                } else {
                    n.expect_steps(steps, i + 1)
                }
            };
        let r = self.expect(kind, text, chain);
        proof {
            assert(tail[0] == (kind@, text@));
            assert(tail.drop_first() =~= rest);
            if all_match(tail) {
                assert(matches_kind(tail[0].0, tail[0].1));
                assert forall|k: int| 0 <= k < rest.len() implies matches_kind(
                    #[trigger] rest[k].0,
                    rest[k].1,
                ) by {
                    assert(rest[k] == tail[k + 1]);
                }
            }
            if matches_kind(kind@, text@) && all_match(rest) {
                assert forall|k: int| 0 <= k < tail.len() implies matches_kind(
                    #[trigger] tail[k].0,
                    tail[k].1,
                ) by {
                    if k > 0 {
                        assert(tail[k] == rest[k - 1]);
                    }
                }
            }
            if all_match(tail) {
                let n = choose|n: Node<'a>| #[trigger]
                    self.follows(kind@, text@, n) && self.attached(chain, n, r);
                let m = r->Ok_0;
                let c = choose|c: Node<'a>| #[trigger]
                    call_ensures(chain, (n,), Ok(c)) && self.extended_by(m, c);
                if last {
                    assert(tail.len() == 1);
                    assert(spells(c, tail));
                } else {
                    let c2 = choose|c2: Node<'a>|
                        {
                            &&& n.extended_by(c, c2)
                            &&& c2.column == next_column_of(
                                n.column as int,
                                n.row as int,
                                steps@[i + 1].1@.len() as int,
                            )
                            &&& c2.row == next_row_of(n.row as int, steps@[i + 1].1@.len() as int)
                            &&& #[trigger] spells(c2, rest)
                        };
                    assert(c.children@[0] == Some(c2));
                    assert(views[i + 1] == (steps@[i + 1].0@, steps@[i + 1].1@));
                    assert(tail[1] == views[i + 1]);
                    assert(spells(c, tail));
                }
            }
        }
        r
    }
    /// Declares that the declaration of a function named `identifier`, with `value_parameters`,
    /// may follow this node: `func`, a space, the name, an opening parenthesis, for each parameter
    /// its type, a space and its name with a list separator between two parameters, a closing
    /// parenthesis, and the delimiter of the scope, which ends it.
    /// Fails on the first identifier that is not valid.
    pub fn branch_to_function_declaration(
        self,
        identifier: &'a str,
        value_parameters: &[ValueParameterDeclaration<'a>],
    ) -> (r: Result<Node<'a>, UnmatchedPatternError>)
        ensures
            all_match(declaration_steps(identifier@, parameter_views(value_parameters@))) ==> (r matches Ok(m)
                && exists|f: Node<'a>|
                {
                    &&& self.extended_by(m, f)
                    &&& f.column == next_column_of(
                        self.column as int,
                        self.row as int,
                        FUNC@.len() as int,
                    )
                    &&& f.row == next_row_of(self.row as int, FUNC@.len() as int)
                    &&& #[trigger] spells(f, declaration_steps(identifier@, parameter_views(value_parameters@)))
                    &&& valid_tree(f)
                    &&& terminable_tree(f)
                }),
            !all_match(declaration_steps(identifier@, parameter_views(value_parameters@))) ==> (r matches Err(e)
                && e.message@ == first_mismatch(
                declaration_steps(identifier@, parameter_views(value_parameters@)),
            )),
    {
        let ghost head = seq![
            (FUNC@, FUNC@),
            (SPACING@, SPACE@),
            (IDENTIFIER@, identifier@),
            (OPENING_PARENTHESIS@, OPENING_PARENTHESIS@),
        ];
        let mut steps: Vec<(&'a str, &'a str)> = Vec::new();
        steps.push((FUNC, FUNC));
        steps.push((SPACING, SPACE));
        steps.push((IDENTIFIER, identifier));
        steps.push((OPENING_PARENTHESIS, OPENING_PARENTHESIS));
        assert(step_views(steps@) =~= head);
        let mut i: usize = 0;
        while i < value_parameters.len()
            invariant
                0 <= i <= value_parameters@.len(),
                step_views(steps@) == head + parameter_steps(
                    parameter_views(value_parameters@.subrange(0, i as int)),
                ),
            decreases value_parameters@.len() - i,
        {
            let parameter = value_parameters[i];
            let ghost before = step_views(steps@);
            let ghost separator = if i > 0 {
                seq![(LIST_SEPARATOR@, SEPARATOR@)]
            } else {
                seq![]
            };
            if i > 0 {
                steps.push((LIST_SEPARATOR, SEPARATOR));
            }
            assert(step_views(steps@) =~= before + separator);
            steps.push((IDENTIFIER, parameter.value_type));
            steps.push((SPACING, SPACE));
            steps.push((IDENTIFIER, parameter.identifier));
            proof {
                assert(step_views(steps@) =~= before + separator + seq![
                    (IDENTIFIER@, parameter.value_type@),
                    (SPACING@, SPACE@),
                    (IDENTIFIER@, parameter.identifier@),
                ]);
                let done = parameter_views(value_parameters@.subrange(0, i + 1));
                assert(done.drop_last() =~= parameter_views(
                    value_parameters@.subrange(0, i as int),
                ));
                assert(done.last() == (parameter.value_type@, parameter.identifier@));
                assert(step_views(steps@) =~= head + parameter_steps(done));
            }
            i += 1;
        }
        steps.push((CLOSING_PARENTHESIS, CLOSING_PARENTHESIS));
        proof {
            assert(value_parameters@.subrange(0, value_parameters@.len() as int)
                =~= value_parameters@);
            assert(step_views(steps@) =~= head + parameter_steps(
                parameter_views(value_parameters@),
            ) + seq![(CLOSING_PARENTHESIS@, CLOSING_PARENTHESIS@)]);
            assert(step_views(steps@) =~= declaration_steps(identifier@, parameter_views(value_parameters@)));
            assert(step_views(steps@).subrange(0, steps@.len() as int) =~= step_views(steps@));
            reveal_strlit("func");
            assert(step_views(steps@)[0] == (steps@[0].0@, steps@[0].1@));
            assert(steps@[0].1@.len() == 4);
        }
        let r = self.expect_steps(&steps, 0);
        proof {
            let steps_view = declaration_steps(identifier@, parameter_views(value_parameters@));
            if all_match(steps_view) {
                let m = r->Ok_0;
                let f = choose|f: Node<'a>|
                    {
                        &&& self.extended_by(m, f)
                        &&& f.column == next_column_of(
                            self.column as int,
                            self.row as int,
                            steps@[0].1@.len() as int,
                        )
                        &&& f.row == next_row_of(self.row as int, steps@[0].1@.len() as int)
                        &&& #[trigger] spells(f, step_views(steps@).subrange(0, steps@.len() as int))
                    };
                lemma_spelled_tree_is_sound(f, steps_view);
            }
        }
        r
    }
}

} // verus!

//! Generation of the trees of a whole source: one root for each item at its top level.
use vstd::prelude::*;

use crate::function::{
    all_match,
    declaration_steps,
    first_mismatch,
    parameter_views,
    spells,
    ValueParameterDeclaration,
    FUNC,
};
use crate::node::{terminable_tree, valid_tree, Node, UnmatchedPatternError};
use crate::pattern::{lemma_fixed_texts_match, matches_kind, same_text, NEWLINE, NEWLINE_KIND, SPACE};
use crate::position::{next_row, next_row_of, ROW_CAP};

verus! {

/// Name of the rule of function declarations, as messages give it.
pub const FUNCTION_DECLARATION: &'static str = "FunctionDeclaration";

/// Greatest number of times each top-level rule may stand on its own at the top level of a
/// source; 0 for a rule that may only stand inside another one.
#[derive(Clone, Copy, Debug, PartialEq, Eq)]
pub struct MaxLeafing {
    /// Cap of the declarations of functions.
    pub function_declaration: usize,
    /// Cap of the newlines.
    pub newline: usize,
}

/// The caps under which sources are generated by default: each top-level rule may stand at the
/// top level as often as a source can hold it.
pub fn max_leafing() -> (r: MaxLeafing)
    ensures
        r.function_declaration == usize::MAX,
        r.newline == usize::MAX,
{
    MaxLeafing { function_declaration: usize::MAX, newline: usize::MAX }
}

/// An item at the top level of a source, with the position of what precedes it.
pub enum TopLevelItem {
    /// The end of a line.
    Newline { column: int, row: int },
    /// The declaration of a function named `name`, with the types and names of `params`.
    FunctionDeclaration {
        name: Seq<char>,
        params: Seq<(Seq<char>, Seq<char>)>,
        column: int,
        row: int,
    },
}

/// Whether `c` ends the text of an identifier in a source.
pub open spec fn is_delimiter(c: char) -> bool {
    c == ' ' || c == '(' || c == ')' || c == ',' || c == ':' || c == '\n'
}

/// Index of the first delimiter of `s` from `p` on, or the length of `s` where there is none.
pub open spec fn word_end(s: Seq<char>, p: int) -> int
    decreases s.len() - p,
{
    if p >= s.len() || is_delimiter(s[p]) {
        p
    } else {
        word_end(s, p + 1)
    }
}

/// A word ends no earlier than it starts, and within the source.
pub proof fn lemma_word_end_bounds(s: Seq<char>, p: int)
    ensures
        word_end(s, p) >= p,
        p <= s.len() ==> word_end(s, p) <= s.len(),
    decreases s.len() - p,
{
    if !(p >= s.len() || is_delimiter(s[p])) {
        lemma_word_end_bounds(s, p + 1);
    }
}

/// The types and names of the parameters of a list whose first parameter starts at `p`, and the
/// index just after its closing parenthesis; `None` where no such list starts there.
pub open spec fn scan_parameters(s: Seq<char>, p: int) -> Option<
    (Seq<(Seq<char>, Seq<char>)>, int),
>
    decreases s.len() - p,
{
    let a = word_end(s, p);
    let b = word_end(s, a + 1);
    if 0 <= p && a < s.len() && s[a] == ' ' && b < s.len() {
        let param = (s.subrange(p, a), s.subrange(a + 1, b));
        if s[b] == ')' {
            Some((seq![param], b + 1))
        } else if s[b] == ',' && b + 1 < s.len() && s[b + 1] == ' ' {
            proof {
                lemma_word_end_bounds(s, p);
                lemma_word_end_bounds(s, a + 1);
            }
            match scan_parameters(s, b + 2) {
                Some((rest, end)) => Some((seq![param] + rest, end)),
                None => None,
            }
        } else {
            None
        }
    } else {
        None
    }
}

/// The name and the parameters of the declaration of a function that starts at `p`, and the
/// index just after its scope delimiter; `None` where no declaration starts there.
pub open spec fn scan_declaration(s: Seq<char>, p: int) -> Option<
    (Seq<char>, Seq<(Seq<char>, Seq<char>)>, int),
> {
    let q = word_end(s, p + 5);
    if 0 <= p && p + 5 <= s.len() && s.subrange(p, p + 5) == FUNC@ + SPACE@ && q < s.len() && s[q]
        == '(' {
        let list = if q + 1 < s.len() && s[q + 1] == ')' {
            Some((seq![], q + 2))
        } else {
            scan_parameters(s, q + 1)
        };
        match list {
            Some((params, e)) => if e < s.len() && s[e] == ':' {
                Some((s.subrange(p + 5, q), params, e + 1))
            } else {
                None
            },
            None => None,
        }
    } else {
        None
    }
}

/// A list of parameters ends after it starts, within the source.
pub proof fn lemma_scan_parameters_bounds(s: Seq<char>, p: int)
    requires
        0 <= p <= s.len(),
    ensures
        scan_parameters(s, p) matches Some((_, e)) ==> p < e <= s.len(),
    decreases s.len() - p,
{
    let a = word_end(s, p);
    lemma_word_end_bounds(s, p);
    if a < s.len() {
        lemma_word_end_bounds(s, a + 1);
        let b = word_end(s, a + 1);
        if b < s.len() && s[a] == ' ' && s[b] == ',' && b + 1 < s.len() && s[b + 1] == ' ' {
            lemma_scan_parameters_bounds(s, b + 2);
        }
    }
}

/// A declaration ends after it starts, within the source.
pub proof fn lemma_scan_declaration_bounds(s: Seq<char>, p: int)
    requires
        0 <= p < s.len(),
    ensures
        scan_declaration(s, p) matches Some((_, _, e)) ==> p < e <= s.len(),
{
    let q = word_end(s, p + 5);
    if p + 5 <= s.len() {
        lemma_word_end_bounds(s, p + 5);
        if q + 1 <= s.len() {
            lemma_scan_parameters_bounds(s, q + 1);
        }
    }
}

/// Message of the error on a top-level rule that stands at the top level more often than it may.
pub open spec fn cap_message(rule: Seq<char>) -> Seq<char> {
    rule + " stands at the top level more often than it may."@
}

/// Message of the error on a rest of a source that no top-level rule matches.
pub open spec fn unmatched_message(rest: Seq<char>) -> Seq<char> {
    "\""@ + rest + "\" matches no top-level rule."@
}

/// `items` followed by the items of `rest`, or the error of `rest`.
pub open spec fn prepend_items(
    items: Seq<TopLevelItem>,
    rest: Result<Seq<TopLevelItem>, Seq<char>>,
) -> Result<Seq<TopLevelItem>, Seq<char>> {
    match rest {
        Ok(more) => Ok(items + more),
        Err(message) => Err(message),
    }
}

/// The items at the top level of `s` from `p` on, where what precedes `p` stands at (`column`,
/// `row`) and holds `newlines` newlines and `functions` declarations of functions; or the message
/// of the first failure: a rule over its cap, an identifier that is not valid, or a rest that no
/// rule matches.
pub open spec fn generation(
    s: Seq<char>,
    caps: MaxLeafing,
    p: int,
    column: int,
    row: int,
    newlines: int,
    functions: int,
) -> Result<Seq<TopLevelItem>, Seq<char>>
    decreases s.len() - p,
{
    if p < 0 || p >= s.len() {
        Ok(seq![])
    } else if s[p] == '\n' {
        if newlines >= caps.newline {
            Err(cap_message(NEWLINE_KIND@))
        } else {
            prepend_items(
                seq![TopLevelItem::Newline { column, row }],
                generation(s, caps, p + 1, column + 1, 0, newlines + 1, functions),
            )
        }
    } else {
        match scan_declaration(s, p) {
            None => Err(unmatched_message(s.subrange(p, s.len() as int))),
            Some((name, params, end)) => {
                if functions >= caps.function_declaration {
                    Err(cap_message(FUNCTION_DECLARATION@))
                } else if !all_match(declaration_steps(name, params)) {
                    Err(first_mismatch(declaration_steps(name, params)))
                } else {
                    proof {
                        lemma_scan_declaration_bounds(s, p);
                    }
                    prepend_items(
                        seq![TopLevelItem::FunctionDeclaration { name, params, column, row }],
                        generation(
                            s,
                            caps,
                            end,
                            column,
                            next_row_of(row, end - p),
                            newlines,
                            functions + 1,
                        ),
                    )
                }
            },
        }
    }
}

/// Whether `root` is the tree of `item`.
pub open spec fn root_of<'a>(root: Node<'a>, item: TopLevelItem) -> bool {
    match item {
        TopLevelItem::Newline { column, row } => {
            &&& root.name@ == NEWLINE_KIND@
            &&& root.text@ == NEWLINE@
            &&& root.column == column
            &&& root.row == next_row_of(row, 1)
            &&& root.children@ == seq![None::<Node<'a>>]
        },
        TopLevelItem::FunctionDeclaration { name, params, column, row } => {
            &&& root.column == column
            &&& root.row == next_row_of(row, FUNC@.len() as int)
            &&& spells(root, declaration_steps(name, params))
        },
    }
}

/// `done` followed by the parameters of `rest`, or `None` where `rest` is `None`.
pub open spec fn prepend_parameters(
    done: Seq<(Seq<char>, Seq<char>)>,
    rest: Option<(Seq<(Seq<char>, Seq<char>)>, int)>,
) -> Option<(Seq<(Seq<char>, Seq<char>)>, int)> {
    match rest {
        Some((more, end)) => Some((done + more, end)),
        None => None,
    }
}

/// Index of the first delimiter of `source` from `p` on, or its length where there is none.
fn word_end_at(source: &str, p: usize) -> (r: usize)
    requires
        p <= source@.len(),
    ensures
        r == word_end(source@, p as int),
        p <= r <= source@.len(),
{
    let n = source.unicode_len();
    let mut q = p;
    while q < n && !is_delimiter_char(source.get_char(q))
        invariant
            n == source@.len(),
            p <= q <= n,
            word_end(source@, p as int) == word_end(source@, q as int),
        decreases n - q,
    {
        q += 1;
    }
    q
}

/// Whether `c` ends the text of an identifier in a source.
fn is_delimiter_char(c: char) -> (r: bool)
    ensures
        r == is_delimiter(c),
{
    c == ' ' || c == '(' || c == ')' || c == ',' || c == ':' || c == '\n'
}

/// Reads the parameters of a list whose first parameter starts at `p`.
fn scan_parameters_at<'a>(source: &'a str, p: usize) -> (r: Option<
    (Vec<ValueParameterDeclaration<'a>>, usize),
>)
    requires
        p <= source@.len(),
    ensures
        match scan_parameters(source@, p as int) {
            Some((params, end)) => r matches Some((found, e)) && parameter_views(found@) == params
                && e == end,
            None => r is None,
        },
{
    let n = source.unicode_len();
    let mut params: Vec<ValueParameterDeclaration<'a>> = Vec::new();
    let mut i = p;
    loop
        invariant
            n == source@.len(),
            p <= i <= n,
            scan_parameters(source@, p as int) == prepend_parameters(
                parameter_views(params@),
                scan_parameters(source@, i as int),
            ),
        decreases n - i,
    {
        let ghost done = parameter_views(params@);
        let a = word_end_at(source, i);
        if !(a < n && source.get_char(a) == ' ') {
            return None;
        }
        let b = word_end_at(source, a + 1);
        if b >= n {
            return None;
        }
        let parameter = ValueParameterDeclaration {
            value_type: source.substring_char(i, a),
            identifier: source.substring_char(a + 1, b),
        };
        let c = source.get_char(b);
        if c == ')' {
            params.push(parameter);
            assert(parameter_views(params@) =~= done + seq![
                (parameter.value_type@, parameter.identifier@),
            ]);
            return Some((params, b + 1));
        }
        if !(c == ',' && b + 1 < n && source.get_char(b + 1) == ' ') {
            return None;
        }
        params.push(parameter);
        proof {
            let param = (parameter.value_type@, parameter.identifier@);
            assert(parameter_views(params@) =~= done + seq![param]);
            match scan_parameters(source@, b + 2) {
                Some((more, end)) => {
                    assert(done + (seq![param] + more) =~= done + seq![param] + more);
                },
                None => {},
            }
        }
        i = b + 2;
    }
}

/// Reads the declaration of a function that starts at `p`.
fn scan_declaration_at<'a>(source: &'a str, p: usize) -> (r: Option<
    (&'a str, Vec<ValueParameterDeclaration<'a>>, usize),
>)
    requires
        p < source@.len(),
    ensures
        match scan_declaration(source@, p as int) {
            Some((name, params, end)) => r matches Some((found, list, e)) && found@ == name
                && parameter_views(list@) == params && e == end,
            None => r is None,
        },
{
    let n = source.unicode_len();
    if n - p < 5 {
        return None;
    }
    let start = "func ";
    proof {
        reveal_strlit("func ");
        reveal_strlit("func");
        reveal_strlit(" ");
        assert(start@ =~= FUNC@ + SPACE@);
    }
    if !same_text(source.substring_char(p, p + 5), start) {
        return None;
    }
    let q = word_end_at(source, p + 5);
    if !(q < n && source.get_char(q) == '(') {
        return None;
    }
    let name = source.substring_char(p + 5, q);
    let (params, e) = if q + 1 < n && source.get_char(q + 1) == ')' {
        let empty: Vec<ValueParameterDeclaration<'a>> = Vec::new();
        assert(parameter_views(empty@) =~= seq![]);
        (empty, q + 2)
    } else {
        match scan_parameters_at(source, q + 1) {
            Some(list) => list,
            None => {
                return None;
            },
        }
    };
    if !(e < n && source.get_char(e) == ':') {
        return None;
    }
    Some((name, params, e + 1))
}

/// Error on a top-level rule that stands at the top level more often than it may.
fn over_cap(rule: &str) -> (e: UnmatchedPatternError)
    ensures
        e.message@ == cap_message(rule@),
{
    let mut message = String::from_str(rule);
    message.append(" stands at the top level more often than it may.");
    UnmatchedPatternError { message }
}

/// Generates the trees of `source`, one root for each item at its top level, in order: a newline,
/// or the declaration of a function. Each top-level rule may stand at the top level at most as
/// often as `caps` gives. Fails on the first item over its cap, on the first identifier that is
/// not valid, or on a rest of the source that no rule matches.
pub fn generate_ast_with<'a>(source: &'a str, caps: &MaxLeafing) -> (r: Result<
    Vec<Node<'a>>,
    UnmatchedPatternError,
>)
    requires
        source@.len() < u32::MAX,
    ensures
        match generation(source@, *caps, 0, 1, 0, 0, 0) {
            Ok(items) => r matches Ok(roots) && roots@.len() == items.len() && forall|k: int|
                0 <= k < items.len() ==> root_of(#[trigger] roots@[k], items[k]),
            Err(message) => r matches Err(e) && e.message@ == message,
        },
        r matches Ok(roots) ==> forall|k: int|
            0 <= k < roots@.len() ==> valid_tree(#[trigger] roots@[k]) && terminable_tree(
                roots@[k],
            ),
{
    let ghost s = source@;
    let ghost outcome = generation(s, *caps, 0, 1, 0, 0, 0);
    let n = source.unicode_len();
    let mut roots: Vec<Node<'a>> = Vec::new();
    let ghost mut items: Seq<TopLevelItem> = seq![];
    let mut p: usize = 0;
    let mut column: u32 = 1;
    let mut row: u32 = 0;
    let mut newlines: usize = 0;
    let mut functions: usize = 0;
    assert(outcome == prepend_items(items, outcome)) by {
        match outcome {
            Ok(all) => assert(items + all =~= all),
            Err(_) => {},
        }
    }
    proof {
        lemma_fixed_texts_match();
        reveal_strlit("\n");
    }
    while p < n
        invariant
            n == s.len(),
            s == source@,
            n < u32::MAX,
            0 <= p <= n,
            1 <= column <= p + 1,
            row <= ROW_CAP,
            newlines <= p,
            functions <= p,
            matches_kind(NEWLINE_KIND@, NEWLINE@),
            NEWLINE@.len() == 1,
            outcome == generation(s, *caps, 0, 1, 0, 0, 0),
            outcome == prepend_items(
                items,
                generation(
                    s,
                    *caps,
                    p as int,
                    column as int,
                    row as int,
                    newlines as int,
                    functions as int,
                ),
            ),
            roots@.len() == items.len(),
            forall|k: int|
                0 <= k < items.len() ==> root_of(#[trigger] roots@[k], items[k]) && valid_tree(
                    roots@[k],
                ) && terminable_tree(roots@[k]),
        decreases n - p,
    {
        let anchor = Node::of("", column, row);
        if source.get_char(p) == '\n' {
            if newlines >= caps.newline {
                return Err(over_cap(NEWLINE_KIND));
            }
            let mut extended = match anchor.branch_to_newline(Node::leaf) {
                Ok(node) => node,
                Err(e) => {
                    return Err(e);
                },
            };
            let root = extended.children.pop().unwrap().unwrap();
            let ghost item = TopLevelItem::Newline { column: column as int, row: row as int };
            proof {
                assert(!Seq::<Option<Node<'a>>>::empty().contains(None));
                assert(root.children@ =~= seq![None::<Node<'a>>]);
                assert(root_of(root, item));
                assert(valid_tree(root));
                assert(terminable_tree(root));
                let rest = generation(
                    s,
                    *caps,
                    p + 1,
                    column + 1,
                    0,
                    newlines + 1,
                    functions as int,
                );
                match rest {
                    Ok(more) => assert(items + (seq![item] + more) =~= items.push(item) + more),
                    Err(_) => {},
                }
                items = items.push(item);
            }
            roots.push(root);
            newlines += 1;
            column += 1;
            row = 0;
            p += 1;
        } else {
            let declaration = scan_declaration_at(source, p);
            match declaration {
                None => {
                    let mut message = String::from_str("\"");
                    message.append(source.substring_char(p, n));
                    message.append("\" matches no top-level rule.");
                    return Err(UnmatchedPatternError { message });
                },
                Some((name, params, end)) => {
                    if functions >= caps.function_declaration {
                        return Err(over_cap(FUNCTION_DECLARATION));
                    }
                    let mut extended = match anchor.branch_to_function_declaration(
                        name,
                        params.as_slice(),
                    ) {
                        Ok(node) => node,
                        Err(e) => {
                            return Err(e);
                        },
                    };
                    let root = extended.children.pop().unwrap().unwrap();
                    proof {
                        lemma_scan_declaration_bounds(s, p as int);
                        reveal_strlit("func");
                    }
                    let ghost item = TopLevelItem::FunctionDeclaration {
                        name: name@,
                        params: parameter_views(params@),
                        column: column as int,
                        row: row as int,
                    };
                    proof {
                        assert(root_of(root, item));
                        let rest = generation(
                            s,
                            *caps,
                            end as int,
                            column as int,
                            next_row_of(row as int, end - p),
                            newlines as int,
                            functions + 1,
                        );
                        match rest {
                            Ok(more) => assert(items + (seq![item] + more) =~= items.push(item)
                                + more),
                            Err(_) => {},
                        }
                        items = items.push(item);
                    }
                    roots.push(root);
                    functions += 1;
                    row = next_row(row, end - p);
                    p = end;
                },
            }
        }
    }
    proof {
        assert(items + seq![] =~= items);
    }
    Ok(roots)
}

/// Generates the trees of `source` under the default caps, `max_leafing`.
pub fn generate_ast<'a>(source: &'a str) -> (r: Result<Vec<Node<'a>>, UnmatchedPatternError>)
    requires
        source@.len() < u32::MAX,
    ensures
        match generation(source@, max_leafing_caps(), 0, 1, 0, 0, 0) {
            Ok(items) => r matches Ok(roots) && roots@.len() == items.len() && forall|k: int|
                0 <= k < items.len() ==> root_of(#[trigger] roots@[k], items[k]),
            Err(message) => r matches Err(e) && e.message@ == message,
        },
        r matches Ok(roots) ==> forall|k: int|
            0 <= k < roots@.len() ==> valid_tree(#[trigger] roots@[k]) && terminable_tree(
                roots@[k],
            ),
{
    let caps = max_leafing();
    generate_ast_with(source, &caps)
}

/// The default caps, `max_leafing`.
pub open spec fn max_leafing_caps() -> MaxLeafing {
    MaxLeafing { function_declaration: usize::MAX, newline: usize::MAX }
}

} // verus!

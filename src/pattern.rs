//! The patterns that the text of each kind of node must match.
use vstd::prelude::*;

use crate::node::UnmatchedPatternError;

verus! {

/// Kind of the nodes that name something.
pub const IDENTIFIER: &'static str = "Identifier";

/// Kind of the nodes that separate two others by one space.
pub const SPACING: &'static str = "Spacing";

/// Kind of the nodes that end a line.
pub const NEWLINE_KIND: &'static str = "Newline";

/// Kind of the nodes that separate the items of a list.
pub const LIST_SEPARATOR: &'static str = "ListSeparator";

/// Kind of the nodes that stand for a statement or an expression.
pub const OPERATION: &'static str = "Operation";

/// Text of a spacing node.
pub const SPACE: &'static str = " ";

/// Line terminator of the sources.
pub const NEWLINE: &'static str = "\n";

/// Text of a list separator node.
pub const SEPARATOR: &'static str = ", ";

/// Pattern that an identifier must hold a match of.
pub const IDENTIFIER_PATTERN: &'static str = "[a-zA-Z0-9]+";

/// Pattern that an operation must hold a match of.
pub const OPERATION_PATTERN: &'static str = "\\w+";

/// Message of the error on an empty identifier.
pub const EMPTY_IDENTIFIER_MESSAGE: &'static str = "Expected an identifier.";

/// Whether `pattern` holds a match anywhere in `haystack` (`Some`), or is refused as a pattern
/// (`None`), as the regex crate decides.
pub uninterp spec fn regex_search(pattern: Seq<char>, haystack: Seq<char>) -> Option<bool>;

#[verifier::external_type_specification]
#[verifier::external_body]
pub struct ExRegexError(regex::Error);

/// Relies on `regex::Regex::new`, which compiles `pattern` or refuses it, and on
/// `regex::Regex::is_match`, which tells whether the compiled pattern matches anywhere in
/// `haystack`. Both depend on their arguments alone.
#[verifier::external_body]
fn regex_is_match(pattern: &str, haystack: &str) -> (r: Result<bool, regex::Error>)
    ensures
        match r {
            Ok(found) => regex_search(pattern@, haystack@) == Some(found),
            Err(_) => regex_search(pattern@, haystack@) is None,
        },
{
    match regex::Regex::new(pattern) {
        Ok(compiled) => Ok(compiled.is_match(haystack)),
        Err(error) => Err(error),
    }
}

/// Text that a node of `kind` must have, for the kinds that admit a single text: a keyword or a
/// literal is its own kind.
pub open spec fn expected_text(kind: Seq<char>) -> Seq<char> {
    if kind == SPACING@ {
        SPACE@
    } else if kind == NEWLINE_KIND@ {
        NEWLINE@
    } else if kind == LIST_SEPARATOR@ {
        SEPARATOR@
    } else {
        kind
    }
}

/// Whether `kind` is recognised by a pattern rather than by a single text.
pub open spec fn is_patterned(kind: Seq<char>) -> bool {
    kind == IDENTIFIER@ || kind == OPERATION@
}

/// Pattern that a node of `kind` is held to, as a message names it.
pub open spec fn expected_pattern(kind: Seq<char>) -> Seq<char> {
    if kind == IDENTIFIER@ {
        IDENTIFIER_PATTERN@
    } else if kind == OPERATION@ {
        OPERATION_PATTERN@
    } else {
        expected_text(kind)
    }
}

/// Whether `text` is a valid text for a node of `kind`, where `found` tells whether the pattern
/// of `kind` holds a match in `text` (`None` where the pattern is refused); a kind that admits a
/// single text does not look at `found`.
pub open spec fn accepts(kind: Seq<char>, text: Seq<char>, found: Option<bool>) -> bool {
    if kind == IDENTIFIER@ {
        text.len() > 0 && found == Some(true)
    } else if kind == OPERATION@ {
        found == Some(true)
    } else {
        text == expected_text(kind)
    }
}

/// Whether `text` is a valid text for a node of `kind`.
pub open spec fn matches_kind(kind: Seq<char>, text: Seq<char>) -> bool {
    accepts(kind, text, regex_search(expected_pattern(kind), text))
}

/// Message of the error on an identifier whose text is not valid.
pub open spec fn identifier_message(text: Seq<char>) -> Seq<char> {
    if text.len() == 0 {
        EMPTY_IDENTIFIER_MESSAGE@
    } else {
        text + " is invalid. An identifier can only contain letters A\u{2013}Z and digits."@
    }
}

/// Message of the error on a text that does not match `pattern`.
pub open spec fn mismatch_message(text: Seq<char>, pattern: Seq<char>) -> Seq<char> {
    "\""@ + text + "\" does not match \""@ + pattern + "\"."@
}

/// Message of the error on a pattern that the regex crate refuses.
pub open spec fn invalid_pattern_message(pattern: Seq<char>) -> Seq<char> {
    "\""@ + pattern + "\" is not a valid pattern."@
}

/// Message of the error on a text that is not valid for a node of `kind`.
pub open spec fn kind_error_message(kind: Seq<char>, text: Seq<char>) -> Seq<char> {
    if kind == IDENTIFIER@ {
        identifier_message(text)
    } else {
        mismatch_message(text, expected_pattern(kind))
    }
}

/// Whether two texts hold the same characters.
pub fn same_text(a: &str, b: &str) -> (r: bool)
    ensures
        r == (a@ == b@),
{
    let n = a.unicode_len();
    if n != b.unicode_len() {
        return false;
    }
    let mut i: usize = 0;
    while i < n
        invariant
            n == a@.len(),
            n == b@.len(),
            0 <= i <= n,
            forall|j: int| 0 <= j < i ==> a@[j] == b@[j],
        decreases n - i,
    {
        if a.get_char(i) != b.get_char(i) {
            return false;
        }
        i += 1;
    }
    assert(a@ =~= b@);
    true
}

/// Whether `pattern` holds a match anywhere in `text`; an error where the pattern is refused.
pub fn find_pattern(pattern: &str, text: &str) -> (r: Result<bool, UnmatchedPatternError>)
    ensures
        match r {
            Ok(found) => regex_search(pattern@, text@) == Some(found),
            Err(e) => regex_search(pattern@, text@) is None && e.message@
                == invalid_pattern_message(pattern@),
        },
{
    match regex_is_match(pattern, text) {
        Ok(found) => Ok(found),
        Err(_) => {
            let mut message = String::from_str("\"");
            message.append(pattern);
            message.append("\" is not a valid pattern.");
            Err(UnmatchedPatternError { message })
        },
    }
}

/// Error on a text that does not match `pattern`.
fn mismatch(text: &str, pattern: &str) -> (e: UnmatchedPatternError)
    ensures
        e.message@ == mismatch_message(text@, pattern@),
{
    let mut message = String::from_str("\"");
    message.append(text);
    message.append("\" does not match \"");
    message.append(pattern);
    message.append("\".");
    UnmatchedPatternError { message }
}

/// Whether `pattern` holds a match anywhere in `text`; `None` where the pattern is refused.
fn search(pattern: &str, text: &str) -> (r: Option<bool>)
    ensures
        r == regex_search(pattern@, text@),
{
    match regex_is_match(pattern, text) {
        Ok(found) => Some(found),
        Err(_) => None,
    }
}

/// Checks that `text` is a valid text for a node of `kind`, where `found` tells whether the
/// pattern of `kind` holds a match in `text`.
pub fn validate_with<'a>(kind: &str, text: &'a str, found: Option<bool>) -> (r: Result<
    &'a str,
    UnmatchedPatternError,
>)
    ensures
        r is Ok <==> accepts(kind@, text@, found),
        r matches Ok(t) ==> t == text,
        r matches Err(e) ==> e.message@ == kind_error_message(kind@, text@),
{
    if same_text(kind, IDENTIFIER) {
        if text.is_empty() {
            return Err(UnmatchedPatternError { message: String::from_str(EMPTY_IDENTIFIER_MESSAGE) });
        }
        return match found {
            Some(true) => Ok(text),
            _ => {
                let mut message = String::from_str(text);
                message.append(
                    " is invalid. An identifier can only contain letters A\u{2013}Z and digits.",
                );
                Err(UnmatchedPatternError { message })
            },
        };
    }
    if same_text(kind, OPERATION) {
        return match found {
            Some(true) => Ok(text),
            _ => Err(mismatch(text, OPERATION_PATTERN)),
        };
    }
    let expected = if same_text(kind, SPACING) {
        SPACE
    } else if same_text(kind, NEWLINE_KIND) {
        NEWLINE
    } else if same_text(kind, LIST_SEPARATOR) {
        SEPARATOR
    } else {
        kind
    };
    if same_text(text, expected) {
        Ok(text)
    } else {
        Err(mismatch(text, expected))
    }
}

/// Checks that `text` is a valid text for a node of `kind`.
pub fn validate<'a>(kind: &str, text: &'a str) -> (r: Result<&'a str, UnmatchedPatternError>)
    ensures
        r is Ok <==> matches_kind(kind@, text@),
        r matches Ok(t) ==> t == text,
        r matches Err(e) ==> e.message@ == kind_error_message(kind@, text@),
{
    let found = if same_text(kind, IDENTIFIER) {
        search(IDENTIFIER_PATTERN, text)
    } else if same_text(kind, OPERATION) {
        search(OPERATION_PATTERN, text)
    } else {
        None
    };
    validate_with(kind, text, found)
}

/// Checks that `text` is a valid identifier: not empty, and holding a match of
/// `IDENTIFIER_PATTERN`.
pub fn validate_identifier<'a>(text: &'a str) -> (r: Result<&'a str, UnmatchedPatternError>)
    ensures
        r is Ok <==> matches_kind(IDENTIFIER@, text@),
        r matches Ok(t) ==> t == text,
        r matches Err(e) ==> e.message@ == identifier_message(text@),
{
    validate(IDENTIFIER, text)
}

/// Each kind that admits a single text accepts that text.
pub proof fn lemma_fixed_texts_match()
    ensures
        matches_kind(SPACING@, SPACE@),
        matches_kind(NEWLINE_KIND@, NEWLINE@),
        matches_kind(LIST_SEPARATOR@, SEPARATOR@),
{
    reveal_strlit("Identifier");
    reveal_strlit("Spacing");
    reveal_strlit("Newline");
    reveal_strlit("ListSeparator");
    reveal_strlit("Operation");
    reveal_strlit(" ");
    reveal_strlit("\n");
    reveal_strlit(", ");
    assert(SPACING@.len() == 7 && IDENTIFIER@.len() == 10 && OPERATION@.len() == 9);
    assert(NEWLINE_KIND@.len() == 7 && LIST_SEPARATOR@.len() == 13);
    assert(NEWLINE_KIND@[0] != SPACING@[0]);
    assert(NEWLINE_KIND@ != SPACING@);
}

/// A kind shorter than every kind with a pattern of its own is a keyword or a literal: its own
/// text matches it.
pub proof fn lemma_literal_kind_matches(kind: Seq<char>)
    requires
        kind.len() < 7,
    ensures
        matches_kind(kind, kind),
{
    reveal_strlit("Identifier");
    reveal_strlit("Spacing");
    reveal_strlit("Newline");
    reveal_strlit("ListSeparator");
    reveal_strlit("Operation");
    assert(SPACING@.len() == 7 && IDENTIFIER@.len() == 10 && OPERATION@.len() == 9);
    assert(NEWLINE_KIND@.len() == 7 && LIST_SEPARATOR@.len() == 13);
}

} // verus!

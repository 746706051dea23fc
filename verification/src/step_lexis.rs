//! The lexical side of a Part 21 text: its strings, its comments, and what may
//! stand between two of its tokens.

use crate::text;
use vstd::prelude::*;

verus! {

/// The place behind the first apostrophe from `from` on.
pub open spec fn string_end(text: Seq<char>, from: int) -> Option<int>
    decreases text.len() - from,
{
    if from >= text.len() {
        None
    } else if text[from] == '\'' {
        Some(from + 1)
    } else {
        string_end(text, from + 1)
    }
}

/// The place behind the first `*/` from `from` on.
pub open spec fn comment_end(text: Seq<char>, from: int) -> Option<int>
    decreases text.len() - from,
{
    if from + 1 >= text.len() {
        None
    } else if text[from] == '*' && text[from + 1] == '/' {
        Some(from + 2)
    } else {
        comment_end(text, from + 1)
    }
}

/// A comment opens at `at`.
pub open spec fn opens_comment(text: Seq<char>, at: int) -> bool {
    0 <= at && at + 1 < text.len() && text[at] == '/' && text[at + 1] == '*'
}

/// The place behind what begins at `at`: a string, a comment or one character.
/// A string or a comment that does not end has none.
pub open spec fn lexeme_end(text: Seq<char>, at: int) -> Option<int> {
    if text[at] == '\'' {
        string_end(text, at + 1)
    } else if opens_comment(text, at) {
        comment_end(text, at + 2)
    } else {
        Some(at + 1)
    }
}

pub(crate) proof fn lemma_ends_ahead(text: Seq<char>, from: int)
    ensures
        string_end(text, from) matches Some(end) ==> from < end <= text.len(),
        comment_end(text, from) matches Some(end) ==> from < end <= text.len(),
    decreases text.len() - from,
{
    if from < text.len() {
        lemma_ends_ahead(text, from + 1);
    }
}

/// Reading on from `from`, outside strings and comments, comes to `at` outside
/// them too.
pub open spec fn reads_to(text: Seq<char>, from: int, at: int) -> bool
    decreases text.len() - from,
{
    if from == at {
        true
    } else if from < 0 || from > at || from >= text.len() {
        false
    } else {
        match lexeme_end(text, from) {
            Some(end) => from < end <= text.len() && reads_to(text, end, at),
            None => false,
        }
    }
}

/// A character of a keyword.
pub open spec fn is_word_char(c: char) -> bool {
    ('A' <= c && c <= 'Z') || ('a' <= c && c <= 'z') || ('0' <= c && c <= '9') || c == '_'
}

/// A keyword may begin at `at`: outside strings and comments, and not inside
/// another word.
pub open spec fn begins_word(text: Seq<char>, at: int) -> bool {
    reads_to(text, 0, at) && (at > 0 ==> !is_word_char(text[at - 1]))
}

/// From `from` on, white space and comments come before a bracket.
pub open spec fn bracket_follows(text: Seq<char>, from: int) -> bool
    decreases text.len() - from,
{
    if from < 0 || from >= text.len() {
        false
    } else if text[from] == '(' {
        true
    } else if text::is_ascii_white_space(text[from]) {
        bracket_follows(text, from + 1)
    } else if opens_comment(text, from) {
        match comment_end(text, from + 2) {
            Some(end) => from < end <= text.len() && bracket_follows(text, end),
            None => false,
        }
    } else {
        false
    }
}

/// An entity of the kind `keyword` is opened at `at`.
pub open spec fn opens_entity(text: Seq<char>, keyword: Seq<char>, at: int) -> bool {
    begins_word(text, at) && text::occurs_at(text, keyword, at) && bracket_follows(
        text,
        at + keyword.len(),
    )
}

/// The text opens an entity of the kind `keyword`, whatever white space and
/// comments stand before its bracket.
pub open spec fn has_entity(text: Seq<char>, keyword: Seq<char>) -> bool {
    exists|at: int| opens_entity(text, keyword, at)
}

fn find_string_end(text: &[char], from: usize) -> (r: Option<usize>)
    requires
        from <= text@.len(),
    ensures
        r matches Some(end) ==> string_end(text@, from as int) == Some(end as int) && from < end
            <= text@.len(),
        r is None ==> string_end(text@, from as int) is None,
{
    let mut at: usize = from;
    while at < text.len()
        invariant
            from <= at <= text@.len(),
            string_end(text@, at as int) == string_end(text@, from as int),
        decreases text@.len() - at,
    {
        if text[at] == '\'' {
            return Some(at + 1);
        }
        at += 1;
    }
    None
}

fn find_comment_end(text: &[char], from: usize) -> (r: Option<usize>)
    requires
        from <= text@.len(),
    ensures
        r matches Some(end) ==> comment_end(text@, from as int) == Some(end as int) && from < end
            <= text@.len(),
        r is None ==> comment_end(text@, from as int) is None,
{
    let size: usize = text.len();
    let mut at: usize = from;
    while size - at > 1
        invariant
            size == text@.len(),
            from <= at <= size,
            comment_end(text@, at as int) == comment_end(text@, from as int),
        decreases size - at,
    {
        if text[at] == '*' && text[at + 1] == '/' {
            return Some(at + 2);
        }
        at += 1;
    }
    None
}

fn comment_opens(text: &[char], at: usize) -> (r: bool)
    requires
        at < text@.len(),
    ensures
        r == opens_comment(text@, at as int),
{
    text.len() - at > 1 && text[at] == '/' && text[at + 1] == '*'
}

fn find_lexeme_end(text: &[char], at: usize) -> (r: Option<usize>)
    requires
        at < text@.len(),
    ensures
        r matches Some(end) ==> lexeme_end(text@, at as int) == Some(end as int) && at < end
            <= text@.len(),
        r is None ==> lexeme_end(text@, at as int) is None,
{
    if text[at] == '\'' {
        find_string_end(text, at + 1)
    } else if comment_opens(text, at) {
        find_comment_end(text, at + 2)
    } else {
        Some(at + 1)
    }
}

fn finds_bracket(text: &[char], from: usize) -> (r: bool)
    requires
        from <= text@.len(),
    ensures
        r == bracket_follows(text@, from as int),
{
    let mut at: usize = from;
    while at < text.len()
        invariant
            from <= at <= text@.len(),
            bracket_follows(text@, at as int) == bracket_follows(text@, from as int),
        decreases text@.len() - at,
    {
        let c: char = text[at];
        if c == '(' {
            return true;
        }
        if c == '\t' || c == '\n' || c == '\x0c' || c == '\r' || c == ' ' {
            at += 1;
        } else if comment_opens(text, at) {
            match find_comment_end(text, at + 2) {
                Some(end) => at = end,
                None => return false,
            }
        } else {
            return false;
        }
    }
    false
}

fn word_char(c: char) -> (r: bool)
    ensures
        r == is_word_char(c),
{
    ('A' <= c && c <= 'Z') || ('a' <= c && c <= 'z') || ('0' <= c && c <= '9') || c == '_'
}

/// What is read up to `at` and beyond it passes `at`.
pub(crate) proof fn lemma_reads_on(text: Seq<char>, from: int, at: int, other: int)
    requires
        reads_to(text, from, at),
        0 <= from,
        at < text.len(),
    ensures
        other > at ==> (reads_to(text, from, other) <==> match lexeme_end(text, at) {
            Some(end) => reads_to(text, end, other),
            None => false,
        }),
    decreases at - from,
{
    lemma_lexeme_ends_ahead(text, from);
    lemma_lexeme_ends_ahead(text, at);
    reveal_with_fuel(reads_to, 2);
    if from < at {
        lemma_reads_on(text, lexeme_end(text, from)->Some_0, at, other);
    }
}

pub(crate) proof fn lemma_lexeme_ends_ahead(text: Seq<char>, at: int)
    requires
        0 <= at < text.len(),
    ensures
        lexeme_end(text, at) matches Some(end) ==> at < end <= text.len(),
{
    lemma_ends_ahead(text, at + 1);
    lemma_ends_ahead(text, at + 2);
}

/// Nothing is read to between `at` and the end of what begins there.
pub(crate) proof fn lemma_nothing_between(text: Seq<char>, at: int, other: int)
    requires
        reads_to(text, 0, at),
        0 <= at < other,
        at < text.len(),
        reads_to(text, 0, other),
    ensures
        lexeme_end(text, at) is Some,
        lexeme_end(text, at)->Some_0 <= other,
{
    lemma_reads_on(text, 0, at, other);
}

/// Whether the text opens an entity of the kind `keyword`.
pub fn finds_entity(text: &[char], keyword: &str) -> (r: bool)
    ensures
        r == has_entity(text@, keyword@),
{
    let wanted = text::chars_of(keyword);
    let size: usize = text.len();
    let mut at: usize = 0;
    while at < size
        invariant
            size == text@.len(),
            wanted@ == keyword@,
            at <= size,
            reads_to(text@, 0, at as int),
            forall|k: int| 0 <= k < at ==> !opens_entity(text@, keyword@, k),
        decreases size - at,
    {
        if (at == 0 || !word_char(text[at - 1])) && wanted.len() <= size - at && text::stands_at(
            text,
            wanted.as_slice(),
            at,
        ) && finds_bracket(text, at + wanted.len()) {
            proof {
                assert(opens_entity(text@, keyword@, at as int));
            }
            return true;
        }
        let end = find_lexeme_end(text, at);
        proof {
            assert(!opens_entity(text@, keyword@, at as int));
            assert forall|k: int| at < k && opens_entity(text@, keyword@, k) implies (end matches Some(
                end,
            ) && end <= k) by {
                lemma_nothing_between(text@, at as int, k);
            }
        }
        match end {
            None => {
                proof {
                    assert forall|k: int| !opens_entity(text@, keyword@, k) by {
                        assert(k < 0 ==> !reads_to(text@, 0, k));
                    }
                }
                return false;
            },
            Some(end) => {
                proof {
                    lemma_reads_on(text@, 0, at as int, end as int);
                }
                at = end;
            },
        }
    }
    proof {
        assert forall|k: int| !opens_entity(text@, keyword@, k) by {
            assert(k >= size ==> !bracket_follows(text@, k + keyword@.len()));
            assert(k < 0 ==> !reads_to(text@, 0, k));
        }
    }
    false
}

/// White space and whole comments, and nothing else.
pub open spec fn is_gap(gap: Seq<char>) -> bool
    decreases gap.len(),
{
    if gap.len() == 0 {
        true
    } else if text::is_ascii_white_space(gap[0]) {
        is_gap(gap.skip(1))
    } else if opens_comment(gap, 0) {
        match comment_end(gap, 2) {
            Some(end) => 0 < end <= gap.len() && is_gap(gap.skip(end)),
            None => false,
        }
    } else {
        false
    }
}

/// A comment ends in a longer text where it ends in a part of it.
proof fn lemma_comment_ends_alike(text: Seq<char>, gap: Seq<char>, shift: int, from: int)
    requires
        0 <= shift,
        0 <= from,
        shift + gap.len() <= text.len(),
        forall|i: int| 0 <= i < gap.len() ==> text[shift + i] == #[trigger] gap[i],
        comment_end(gap, from) is Some,
    ensures
        comment_end(text, shift + from) == Some(shift + comment_end(gap, from)->Some_0),
    decreases gap.len() - from,
{
    assert(text[shift + from] == gap[from]);
    assert(text[shift + (from + 1)] == gap[from + 1]);
    if !(gap[from] == '*' && gap[from + 1] == '/') {
        lemma_comment_ends_alike(text, gap, shift, from + 1);
    }
}

/// A bracket behind a gap follows.
pub(crate) proof fn lemma_bracket_behind_gap(text: Seq<char>, gap: Seq<char>, from: int)
    requires
        0 <= from,
        from + gap.len() < text.len(),
        forall|i: int| 0 <= i < gap.len() ==> text[from + i] == #[trigger] gap[i],
        text[from + gap.len()] == '(',
        is_gap(gap),
    ensures
        bracket_follows(text, from),
    decreases gap.len(),
{
    if gap.len() > 0 {
        assert(text[from + 0] == gap[0]);
        if text::is_ascii_white_space(gap[0]) {
            let rest = gap.skip(1);
            assert forall|i: int| 0 <= i < rest.len() implies text[from + 1 + i]
                == #[trigger] rest[i] by {
                assert(text[from + (i + 1)] == gap[i + 1]);
            }
            lemma_bracket_behind_gap(text, rest, from + 1);
        } else {
            assert(text[from + 1] == gap[1]);
            let end = comment_end(gap, 2)->Some_0;
            lemma_comment_ends_alike(text, gap, from, 2);
            let rest = gap.skip(end);
            assert forall|i: int| 0 <= i < rest.len() implies text[from + end + i]
                == #[trigger] rest[i] by {
                assert(text[from + (i + end)] == gap[i + end]);
            }
            lemma_bracket_behind_gap(text, rest, from + end);
        }
    }
}

proof fn lemma_plain_text_reads(text: Seq<char>, from: int, at: int)
    requires
        0 <= from <= at <= text.len(),
        forall|i: int| 0 <= i < at ==> text[i] != '\'' && !opens_comment(text, i),
    ensures
        reads_to(text, from, at),
    decreases at - from,
{
    if from < at {
        lemma_plain_text_reads(text, from + 1, at);
    }
}

/// Whatever stands behind text without strings and comments stands outside them.
pub proof fn plain_text_is_read_over(text: Seq<char>, at: int)
    requires
        0 <= at <= text.len(),
        forall|i: int| 0 <= i < at ==> text[i] != '\'' && !opens_comment(text, i),
    ensures
        reads_to(text, 0, at),
{
    lemma_plain_text_reads(text, 0, at);
}

} // verus!

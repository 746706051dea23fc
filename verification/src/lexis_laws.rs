//! What holds of the tokens of a Part 21 text: where strings and comments end, what
//! stands outside them, and what may stand before a bracket.

use crate::step_lexis;
use crate::text;
use vstd::prelude::*;

verus! {

/// The characters of words are letters, digits and the underscore.
pub proof fn words_are_letters_digits_and_underscores(c: char)
    ensures
        step_lexis::is_word_char(c) <==> {
            let n = c as u32;
            65 <= n <= 90 || 97 <= n <= 122 || 48 <= n <= 57 || n == 95
        },
{
}

/// A string ends behind the first apostrophe, and not at all without one.
pub proof fn strings_end_at_the_first_apostrophe(text: Seq<char>, from: int, end: int)
    requires
        0 <= from,
    ensures
        step_lexis::string_end(text, from) == Some(end) <==> {
            &&& from < end <= text.len()
            &&& text[end - 1] == '\''
            &&& forall|i: int| from <= i < end - 1 ==> #[trigger] text[i] != '\''
        },
        step_lexis::string_end(text, from) is None <==> forall|i: int|
            from <= i < text.len() ==> #[trigger] text[i] != '\'',
    decreases text.len() - from,
{
    step_lexis::lemma_ends_ahead(text, from);
    if from < text.len() && text[from] != '\'' {
        strings_end_at_the_first_apostrophe(text, from + 1, end);
        if end == from + 1 {
            assert(text[end - 1] != '\'');
        }
    }
}

/// The mark `*/` stands at `at`.
pub open spec fn closes_comment(text: Seq<char>, at: int) -> bool {
    0 <= at && at + 1 < text.len() && text[at] == '*' && text[at + 1] == '/'
}

/// A comment ends behind the first `*/`, and not at all without one.
pub proof fn comments_end_at_the_first_mark(text: Seq<char>, from: int, end: int)
    requires
        0 <= from,
    ensures
        step_lexis::comment_end(text, from) == Some(end) <==> {
            &&& from <= end - 2
            &&& closes_comment(text, end - 2)
            &&& forall|i: int| from <= i < end - 2 ==> !#[trigger] closes_comment(text, i)
        },
        step_lexis::comment_end(text, from) is None <==> forall|i: int|
            from <= i ==> !#[trigger] closes_comment(text, i),
    decreases text.len() - from,
{
    if from + 1 < text.len() && !closes_comment(text, from) {
        comments_end_at_the_first_mark(text, from + 1, end);
        if from <= end - 2 && (forall|i: int| from + 1 <= i < end - 2 ==> !closes_comment(text, i)) {
            assert forall|i: int| from <= i < end - 2 implies !#[trigger] closes_comment(
                text,
                i,
            ) by {}
        }
    } else if from + 1 < text.len() {
        assert(closes_comment(text, from));
    } else {
        assert forall|i: int| from <= i implies !#[trigger] closes_comment(text, i) by {}
        if from <= end - 2 {
            assert(!closes_comment(text, end - 2));
        }
    }
}

/// The mark `/*` stands at `at`.
pub open spec fn begins_comment(text: Seq<char>, at: int) -> bool {
    0 <= at && at + 1 < text.len() && text[at] == '/' && text[at + 1] == '*'
}

/// What stands outside strings and comments, read from the beginning. The
/// beginning does. Where a place does, the next one does behind an ordinary
/// character; a string is passed up to behind its closing apostrophe, and a
/// comment up to behind its closing mark, and nothing in them stands outside;
/// behind a string or a comment that does not close nothing does.
pub proof fn strings_and_comments_are_passed_over(text: Seq<char>, at: int, end: int, other: int)
    requires
        step_lexis::reads_to(text, 0, at),
        0 <= at < text.len(),
    ensures
        step_lexis::reads_to(text, 0, 0),
        text[at] != '\'' && !begins_comment(text, at) ==> step_lexis::reads_to(text, 0, at + 1),
        text[at] == '\'' && at + 1 < end <= text.len() && text[end - 1] == '\'' && (forall|i: int|
            at + 1 <= i < end - 1 ==> #[trigger] text[i] != '\'') ==> {
            &&& step_lexis::reads_to(text, 0, end)
            &&& at < other < end ==> !step_lexis::reads_to(text, 0, other)
        },
        text[at] == '\'' && at < other && (forall|i: int|
            at + 1 <= i < text.len() ==> #[trigger] text[i] != '\'') ==> !step_lexis::reads_to(
            text,
            0,
            other,
        ),
        begins_comment(text, at) && at + 2 <= end - 2 && closes_comment(text, end - 2) && (forall|
            i: int,
        |
            at + 2 <= i < end - 2 ==> !#[trigger] closes_comment(text, i)) ==> {
            &&& step_lexis::reads_to(text, 0, end)
            &&& at < other < end ==> !step_lexis::reads_to(text, 0, other)
        },
        begins_comment(text, at) && at < other && (forall|i: int|
            at + 2 <= i ==> !#[trigger] closes_comment(text, i)) ==> !step_lexis::reads_to(
            text,
            0,
            other,
        ),
{
    step_lexis::lemma_lexeme_ends_ahead(text, at);
    strings_end_at_the_first_apostrophe(text, at + 1, end);
    comments_end_at_the_first_mark(text, at + 2, end);
    if step_lexis::lexeme_end(text, at) is Some {
        let behind = step_lexis::lexeme_end(text, at)->Some_0;
        step_lexis::lemma_reads_on(text, 0, at, behind);
    }
    if at < other && step_lexis::reads_to(text, 0, other) {
        step_lexis::lemma_nothing_between(text, at, other);
    }
}

/// What stands before the beginning or behind the end is never read to.
pub proof fn reading_stays_inside(text: Seq<char>, at: int)
    requires
        step_lexis::reads_to(text, 0, at),
    ensures
        0 <= at <= text.len(),
{
    lemma_reading_stays_inside(text, 0, at);
}

proof fn lemma_reading_stays_inside(text: Seq<char>, from: int, at: int)
    requires
        step_lexis::reads_to(text, from, at),
        0 <= from <= text.len(),
    ensures
        0 <= at <= text.len(),
    decreases text.len() - from,
{
    if from != at {
        step_lexis::lemma_lexeme_ends_ahead(text, from);
        lemma_reading_stays_inside(text, step_lexis::lexeme_end(text, from)->Some_0, at);
    }
}

/// A comment: `/*`, a body without the closing mark, and that mark.
pub open spec fn is_comment(comment: Seq<char>) -> bool {
    &&& comment.len() >= 4
    &&& begins_comment(comment, 0)
    &&& closes_comment(comment, comment.len() - 2)
    &&& forall|i: int| 2 <= i < comment.len() - 2 ==> !#[trigger] closes_comment(comment, i)
}

/// A gap is made of white space and whole comments: nothing is one; so is a
/// character of white space before a gap, and a comment before a gap; and a gap
/// begins with nothing else.
pub proof fn gaps_are_white_space_and_comments(c: char, comment: Seq<char>, rest: Seq<char>)
    ensures
        step_lexis::is_gap(Seq::empty()),
        c == ' ' || c == '\t' || c == '\n' || c == '\r' || c == '\x0c' ==> (step_lexis::is_gap(
            seq![c] + rest,
        ) <==> step_lexis::is_gap(rest)),
        c != ' ' && c != '\t' && c != '\n' && c != '\r' && c != '\x0c' && c != '/'
            ==> !step_lexis::is_gap(seq![c] + rest),
        c == '/' && !begins_comment(seq![c] + rest, 0) ==> !step_lexis::is_gap(seq![c] + rest),
        c == '/' && (forall|i: int| 2 <= i ==> !#[trigger] closes_comment(seq![c] + rest, i))
            ==> !step_lexis::is_gap(seq![c] + rest),
        is_comment(comment) ==> (step_lexis::is_gap(comment + rest) <==> step_lexis::is_gap(rest)),
{
    let spaced = seq![c] + rest;
    assert(spaced[0] == c);
    assert(spaced.skip(1) =~= rest);
    if c == '/' {
        comments_end_at_the_first_mark(spaced, 2, 0);
    }
    if is_comment(comment) {
        let all = comment + rest;
        let end = comment.len() as int;
        assert(all[0] == comment[0] && all[1] == comment[1]);
        assert(closes_comment(all, end - 2)) by {
            assert(all[end - 2] == comment[end - 2]);
            assert(all[end - 1] == comment[end - 1]);
        }
        assert forall|i: int| 2 <= i < end - 2 implies !#[trigger] closes_comment(all, i) by {
            assert(!closes_comment(comment, i));
            assert(all[i] == comment[i] && all[i + 1] == comment[i + 1]);
        }
        comments_end_at_the_first_mark(all, 2, end);
        assert(all.skip(end) =~= rest);
    }
}

proof fn lemma_gap_before_bracket(text: Seq<char>, from: int) -> (gap: Seq<char>)
    requires
        step_lexis::bracket_follows(text, from),
    ensures
        0 <= from,
        from + gap.len() < text.len(),
        text.subrange(from, from + gap.len()) == gap,
        step_lexis::is_gap(gap),
        text[from + gap.len()] == '(',
    decreases text.len() - from,
{
    if text[from] == '(' {
        assert(text.subrange(from, from) =~= Seq::<char>::empty());
        Seq::empty()
    } else if text::is_ascii_white_space(text[from]) {
        let rest = lemma_gap_before_bracket(text, from + 1);
        let gap = seq![text[from]] + rest;
        assert(text.subrange(from, from + gap.len()) =~= gap) by {
            assert forall|i: int| 0 <= i < gap.len() implies text[from + i] == #[trigger] gap[i] by {
                if i > 0 {
                    assert(text.subrange(from + 1, from + 1 + rest.len())[i - 1] == rest[i - 1]);
                }
            }
        }
        gaps_are_white_space_and_comments(text[from], Seq::empty(), rest);
        gap
    } else {
        let end = step_lexis::comment_end(text, from + 2)->Some_0;
        comments_end_at_the_first_mark(text, from + 2, end);
        let rest = lemma_gap_before_bracket(text, end);
        let comment = text.subrange(from, end);
        let gap = comment + rest;
        assert(is_comment(comment)) by {
            assert(comment[0] == text[from] && comment[1] == text[from + 1]);
            assert(closes_comment(comment, comment.len() - 2));
            assert forall|i: int|
                2 <= i < comment.len() - 2 implies !#[trigger] closes_comment(comment, i) by {
                assert(!closes_comment(text, from + i));
            }
        }
        assert(text.subrange(from, from + gap.len()) =~= gap) by {
            assert forall|i: int| 0 <= i < gap.len() implies text[from + i] == #[trigger] gap[i] by {
                if i >= comment.len() {
                    let j = i - comment.len();
                    assert(text.subrange(end, end + rest.len())[j] == rest[j]);
                }
            }
        }
        gaps_are_white_space_and_comments(' ', comment, rest);
        gap
    }
}

/// A bracket follows exactly where the text goes on with a gap and then a bracket.
pub proof fn brackets_follow_gaps(text: Seq<char>, from: int)
    requires
        0 <= from,
    ensures
        step_lexis::bracket_follows(text, from) <==> exists|to: int|
            from <= to < text.len() && #[trigger] text[to] == '(' && step_lexis::is_gap(
                text.subrange(from, to),
            ),
{
    if step_lexis::bracket_follows(text, from) {
        let gap = lemma_gap_before_bracket(text, from);
        let to = from + gap.len();
        assert(text[to] == '(' && step_lexis::is_gap(text.subrange(from, to)));
    }
    if exists|to: int|
        from <= to < text.len() && #[trigger] text[to] == '(' && step_lexis::is_gap(
            text.subrange(from, to),
        ) {
        let to = choose|to: int|
            from <= to < text.len() && #[trigger] text[to] == '(' && step_lexis::is_gap(
                text.subrange(from, to),
            );
        step_lexis::lemma_bracket_behind_gap(text, text.subrange(from, to), from);
    }
}

/// An entity is opened exactly where its keyword stands outside strings and
/// comments, not inside a longer word, with a bracket to follow.
pub proof fn entities_are_opened_by_their_keyword(text: Seq<char>, keyword: Seq<char>, at: int)
    ensures
        step_lexis::opens_entity(text, keyword, at) <==> {
            &&& step_lexis::reads_to(text, 0, at)
            &&& at > 0 ==> !step_lexis::is_word_char(text[at - 1])
            &&& text::occurs_at(text, keyword, at)
            &&& step_lexis::bracket_follows(text, at + keyword.len())
        },
        step_lexis::begins_word(text, at) <==> step_lexis::reads_to(text, 0, at) && (at > 0
            ==> !step_lexis::is_word_char(text[at - 1])),
        step_lexis::opens_entity(text, keyword, at) ==> step_lexis::has_entity(text, keyword),
{
}

} // verus!

//! What holds of text operations, whatever the text is.

use crate::text;
use vstd::prelude::*;

verus! {

/// A pattern stands in a text at a place where each of its characters does, and
/// it stands somewhere exactly where the text can be cut into something before
/// it, the pattern, and something after it.
pub proof fn infixes_are_what_can_be_cut_out(
    text: Seq<char>,
    before: Seq<char>,
    pattern: Seq<char>,
    after: Seq<char>,
    at: int,
)
    ensures
        text::occurs_at(text, pattern, at) <==> {
            &&& 0 <= at
            &&& at + pattern.len() <= text.len()
            &&& forall|i: int| 0 <= i < pattern.len() ==> text[at + i] == #[trigger] pattern[i]
        },
        text::has_infix(before + pattern + after, pattern),
        text::has_infix(text, pattern) <==> exists|at: int|
            0 <= at <= text.len() && at + pattern.len() <= text.len() && text == #[trigger] text.take(
                at,
            ) + pattern + text.skip(at + pattern.len()),
{
    if 0 <= at && at + pattern.len() <= text.len() {
        let cut = text.subrange(at, at + pattern.len());
        if cut == pattern {
            assert forall|i: int| 0 <= i < pattern.len() implies text[at + i] == #[trigger] pattern[i] by {
                assert(cut[i] == pattern[i]);
            }
        } else if forall|i: int| 0 <= i < pattern.len() ==> text[at + i] == #[trigger] pattern[i] {
            assert(cut =~= pattern);
        }
    }
    let whole = before + pattern + after;
    let here = before.len() as int;
    assert(whole.subrange(here, here + pattern.len()) =~= pattern);
    assert(text::occurs_at(whole, pattern, here));
    if text::has_infix(text, pattern) {
        let at = choose|at: int| text::occurs_at(text, pattern, at);
        assert(text =~= text.take(at) + pattern + text.skip(at + pattern.len()));
    }
    if exists|at: int|
        0 <= at <= text.len() && at + pattern.len() <= text.len() && text == #[trigger] text.take(at)
            + pattern + text.skip(at + pattern.len()) {
        let at = choose|at: int|
            0 <= at <= text.len() && at + pattern.len() <= text.len() && text == #[trigger] text.take(
                at,
            ) + pattern + text.skip(at + pattern.len());
        let cut = text.take(at) + pattern + text.skip(at + pattern.len());
        assert(cut.subrange(at, at + pattern.len()) =~= pattern);
        assert(text::occurs_at(text, pattern, at));
    }
}

/// The twenty-five characters that are white space.
pub proof fn white_space_is_known(c: char)
    ensures
        text::is_white_space(c) <==> {
            ||| c == '\u{9}'
            ||| c == '\u{a}'
            ||| c == '\u{b}'
            ||| c == '\u{c}'
            ||| c == '\u{d}'
            ||| c == '\u{20}'
            ||| c == '\u{85}'
            ||| c == '\u{a0}'
            ||| c == '\u{1680}'
            ||| c == '\u{2000}'
            ||| c == '\u{2001}'
            ||| c == '\u{2002}'
            ||| c == '\u{2003}'
            ||| c == '\u{2004}'
            ||| c == '\u{2005}'
            ||| c == '\u{2006}'
            ||| c == '\u{2007}'
            ||| c == '\u{2008}'
            ||| c == '\u{2009}'
            ||| c == '\u{200a}'
            ||| c == '\u{2028}'
            ||| c == '\u{2029}'
            ||| c == '\u{202f}'
            ||| c == '\u{205f}'
            ||| c == '\u{3000}'
        },
{
}

/// Nothing but white space.
pub open spec fn is_space(text: Seq<char>) -> bool {
    forall|i: int| 0 <= i < text.len() ==> text::is_white_space(#[trigger] text[i])
}

/// Text that neither begins nor ends with white space.
pub open spec fn has_firm_ends(text: Seq<char>) -> bool {
    text.len() > 0 ==> !text::is_white_space(text[0]) && !text::is_white_space(
        text[text.len() - 1],
    )
}

proof fn lemma_trim_start_firm(lead: Seq<char>, rest: Seq<char>)
    requires
        is_space(lead),
        rest.len() > 0 ==> !text::is_white_space(rest[0]),
    ensures
        text::trim_start(lead + rest) == rest,
    decreases lead.len(),
{
    if lead.len() > 0 {
        assert((lead + rest).first() == lead[0]);
        assert((lead + rest).drop_first() =~= lead.drop_first() + rest);
        assert forall|i: int| 0 <= i < lead.drop_first().len() implies text::is_white_space(
            #[trigger] lead.drop_first()[i],
        ) by {
            assert(lead.drop_first()[i] == lead[i + 1]);
        }
        lemma_trim_start_firm(lead.drop_first(), rest);
    } else {
        assert(lead + rest =~= rest);
    }
}

proof fn lemma_trim_end_firm(rest: Seq<char>, tail: Seq<char>)
    requires
        is_space(tail),
        rest.len() > 0 ==> !text::is_white_space(rest[rest.len() - 1]),
    ensures
        text::trim_end(rest + tail) == rest,
    decreases tail.len(),
{
    if tail.len() > 0 {
        assert((rest + tail).last() == tail[tail.len() - 1]);
        assert((rest + tail).drop_last() =~= rest + tail.drop_last());
        assert forall|i: int| 0 <= i < tail.drop_last().len() implies text::is_white_space(
            #[trigger] tail.drop_last()[i],
        ) by {
            assert(tail.drop_last()[i] == tail[i]);
        }
        lemma_trim_end_firm(rest, tail.drop_last());
    } else {
        assert(rest + tail =~= rest);
    }
}

/// Trimming takes away exactly the white space at both ends: what stands between
/// them, with firm ends, is left.
pub proof fn trimming_leaves_the_core(lead: Seq<char>, core: Seq<char>, tail: Seq<char>)
    requires
        is_space(lead),
        is_space(tail),
        has_firm_ends(core),
    ensures
        text::trim(lead + core + tail) == core,
        text::trim_start(lead + core) == core,
{
    lemma_trim_start_firm(lead, core);
    if core.len() > 0 {
        assert(lead + core + tail =~= lead + (core + tail));
        assert((core + tail)[0] == core[0]);
        lemma_trim_start_firm(lead, core + tail);
        lemma_trim_end_firm(core, tail);
    } else {
        let all = lead + tail;
        assert(lead + core + tail =~= all);
        assert forall|i: int| 0 <= i < all.len() implies text::is_white_space(#[trigger] all[i]) by {
            if i < lead.len() {
                assert(all[i] == lead[i]);
            } else {
                assert(all[i] == tail[i - lead.len()]);
            }
        }
        assert(text::is_blank(all));
        text::blank_text_trims_to_nothing(all);
        assert(text::trim(all) =~= core);
    }
}

/// A text is blank exactly where every one of its characters is white space.
pub proof fn blank_text_is_all_white_space(text: Seq<char>)
    ensures
        text::is_blank(text) <==> is_space(text),
        !text::is_blank(text) <==> exists|i: int|
            0 <= i < text.len() && !text::is_white_space(#[trigger] text[i]),
{
}

/// Upper case moves the 26 small ASCII letters to the capitals, 32 places down,
/// and leaves every other character alone.
pub proof fn upper_case_moves_small_letters(c: char)
    ensures
        97 <= c as u32 <= 122 ==> text::ascii_upper(c) as u32 == c as u32 - 32,
        !(97 <= c as u32 <= 122) ==> text::ascii_upper(c) == c,
        text::ascii_upper(text::ascii_upper(c)) == text::ascii_upper(c),
{
}

/// The ASCII white space is tab, line feed, form feed, carriage return and
/// space; the decimal digits are the ten from `0` to `9`.
pub proof fn ascii_classes(c: char)
    ensures
        text::is_ascii_white_space(c) <==> {
            let n = c as u32;
            n == 9 || n == 10 || n == 12 || n == 13 || n == 32
        },
        text::is_digit(c) <==> 48 <= c as u32 <= 57,
{
}

/// A numeral is built digit by digit: ten times a number plus a digit is written
/// as the number, then the digit; and it is read in the same way.
pub proof fn numerals_are_positional(n: nat, d: nat, digits: Seq<char>, c: char)
    requires
        d < 10,
        text::is_digit(c),
    ensures
        text::decimal(d) == seq![(48 + d) as char],
        n > 0 ==> text::decimal(10 * n + d) == text::decimal(n).push((48 + d) as char),
        text::decimal_value(Seq::<char>::empty()) == 0,
        text::decimal_value(digits.push(c)) == 10 * text::decimal_value(digits) + (c as u32 - 48),
{
    if n > 0 {
        assert((10 * n + d) / 10 == n);
        assert((10 * n + d) % 10 == d);
    }
    assert(digits.push(c).drop_last() =~= digits);
}

/// An unsigned number is read from digits, after a plus sign or without one,
/// wherever there is a digit and the value fits 64 bits; and from nothing else.
pub proof fn unsigned_numbers_are_digits(text: Seq<char>, digits: Seq<char>)
    requires
        forall|i: int| 0 <= i < digits.len() ==> '0' <= #[trigger] digits[i] <= '9',
    ensures
        digits.len() > 0 && text::decimal_value(digits) <= u64::MAX ==> {
            &&& text::unsigned_value(digits) == Some(text::decimal_value(digits) as u64)
            &&& text::unsigned_value(seq!['+'] + digits) == Some(
                text::decimal_value(digits) as u64,
            )
        },
        digits.len() == 0 || text::decimal_value(digits) > u64::MAX ==> text::unsigned_value(
            digits,
        ) is None && text::unsigned_value(seq!['+'] + digits) is None,
        (exists|i: int|
            0 <= i < text.len() && !('0' <= #[trigger] text[i] <= '9') && !(i == 0 && text[i]
                == '+')) ==> text::unsigned_value(text) is None,
{
    let signed = seq!['+'] + digits;
    assert(signed.drop_first() =~= digits);
    assert(text::all_digits(digits));
    if digits.len() > 0 {
        assert(text::is_digit(digits[0]));
    }
    if exists|i: int|
        0 <= i < text.len() && !('0' <= #[trigger] text[i] <= '9') && !(i == 0 && text[i]
            == '+') {
        let i = choose|i: int|
            0 <= i < text.len() && !('0' <= #[trigger] text[i] <= '9') && !(i == 0 && text[i]
                == '+');
        if text[0] == '+' {
            assert(text.drop_first()[i - 1] == text[i]);
            assert(!text::is_digit(text.drop_first()[i - 1]));
        } else {
            assert(!text::is_digit(text[i]));
        }
    }
}

/// Joining puts the separator between neighbours and nowhere else.
pub proof fn joins_are_built_part_by_part(
    parts: Seq<Seq<char>>,
    part: Seq<char>,
    separator: Seq<char>,
)
    ensures
        text::join(Seq::<Seq<char>>::empty(), separator) == Seq::<char>::empty(),
        text::join(seq![part], separator) == part,
        parts.len() > 0 ==> text::join(parts.push(part), separator) == text::join(parts, separator)
            + separator + part,
{
    assert(parts.push(part).drop_last() =~= parts);
}

/// A negative number is written as its opposite, after a minus sign.
pub proof fn negative_numbers_have_a_minus_sign(n: nat)
    ensures
        text::signed_decimal(n as int) == text::decimal(n),
        n > 0 ==> text::signed_decimal(-(n as int)) == seq!['-'] + text::decimal(n),
{
}

/// The characters of a list of strings, string by string.
pub proof fn texts_are_taken_one_by_one(parts: Seq<String>, i: int)
    requires
        0 <= i < parts.len(),
    ensures
        text::texts(parts).len() == parts.len(),
        text::texts(parts)[i] == parts[i]@,
{
}

} // verus!

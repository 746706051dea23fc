//! What holds of the length unit of a Part 21 text, from its characters up to
//! the unit that is found.

use crate::step_laws;
use crate::step_units;
use crate::step_units::LengthUnit;
use crate::text;
use vstd::prelude::*;

verus! {

proof fn lemma_records_not_empty(text: Seq<char>)
    ensures
        step_units::records(text).len() > 0,
    decreases text.len(),
{
    if text.len() > 0 {
        lemma_records_not_empty(text.drop_last());
    }
}

/// A text is cut into records at its semicolons and nowhere else: text without
/// one is a single record, and what stands on the two sides of one is cut on its
/// own.
pub proof fn records_are_cut_at_semicolons(plain: Seq<char>, left: Seq<char>, right: Seq<char>)
    requires
        !plain.contains(';'),
    ensures
        step_units::records(plain) == seq![plain],
        step_units::records(left + seq![';'] + right) == step_units::records(left)
            + step_units::records(right),
    decreases plain.len() + right.len(),
{
    if plain.len() > 0 {
        let rest = plain.drop_last();
        assert(!rest.contains(';')) by {
            if rest.contains(';') {
                let i = choose|i: int| 0 <= i < rest.len() && rest[i] == ';';
                assert(plain[i] == ';');
            }
        }
        assert(plain[plain.len() - 1] != ';');
        records_are_cut_at_semicolons(rest, left, right.take(0));
        let before = step_units::records(rest);
        assert(rest.push(plain.last()) =~= plain);
        assert(before.drop_last().push(before.last().push(plain.last())) =~= seq![plain]);
    } else {
        assert(plain =~= Seq::<char>::empty());
    }
    let whole = left + seq![';'] + right;
    let head = step_units::records(left);
    if right.len() > 0 {
        let rest = right.drop_last();
        records_are_cut_at_semicolons(plain.take(0), left, rest);
        assert(whole.drop_last() =~= left + seq![';'] + rest);
        let before = step_units::records(whole.drop_last());
        let tail = step_units::records(rest);
        lemma_records_not_empty(rest);
        assert(before.drop_last() =~= head + tail.drop_last());
        assert(before.last() == tail.last());
        assert(step_units::records(whole) =~= head + step_units::records(right));
    } else {
        assert(whole.drop_last() =~= left);
        assert(right =~= Seq::<char>::empty());
        assert(step_units::records(whole) =~= head + step_units::records(right));
    }
}

/// Only ASCII white space is dropped: what stands on two sides is treated on its
/// own, and a single character goes or stays.
pub proof fn only_white_space_is_dropped(left: Seq<char>, right: Seq<char>, c: char)
    ensures
        step_units::compacted(left + right) == step_units::compacted(left) + step_units::compacted(
            right,
        ),
        c == ' ' || c == '\t' || c == '\n' || c == '\r' || c == '\x0c' ==> step_units::compacted(
            seq![c],
        ) == Seq::<char>::empty(),
        !(c == ' ' || c == '\t' || c == '\n' || c == '\r' || c == '\x0c')
            ==> step_units::compacted(seq![c]) == seq![c],
        step_units::compacted(Seq::<char>::empty()) == Seq::<char>::empty(),
{
    Seq::filter_distributes_over_add(left, right, |c: char| !text::is_ascii_white_space(c));
    reveal(Seq::filter);
    assert(seq![c].drop_last() =~= Seq::<char>::empty());
    assert(step_units::compacted(Seq::<char>::empty()) =~= Seq::<char>::empty());
    assert(step_units::compacted(seq![c].drop_last()) =~= Seq::<char>::empty());
    assert(Seq::<char>::empty().push(c) =~= seq![c]);
}

/// Text without ASCII white space is kept as it is.
proof fn lemma_solid_stays(text: Seq<char>)
    requires
        forall|i: int| 0 <= i < text.len() ==> !text::is_ascii_white_space(#[trigger] text[i]),
    ensures
        step_units::compacted(text) == text,
    decreases text.len(),
{
    reveal(Seq::filter);
    if text.len() > 0 {
        lemma_solid_stays(text.drop_last());
        assert(text.drop_last().push(text.last()) =~= text);
    }
}

/// Text without a dot.
pub open spec fn is_dotless(text: Seq<char>) -> bool {
    forall|i: int| 0 <= i < text.len() ==> #[trigger] text[i] != '.'
}

proof fn lemma_compacted_dotless(text: Seq<char>)
    requires
        is_dotless(text),
    ensures
        is_dotless(step_units::compacted(text)),
    decreases text.len(),
{
    reveal(Seq::filter);
    if text.len() > 0 {
        assert forall|i: int| 0 <= i < text.drop_last().len() implies #[trigger] text.drop_last()[i]
            != '.' by {
            assert(text.drop_last()[i] == text[i]);
        }
        lemma_compacted_dotless(text.drop_last());
        assert(text[text.len() - 1] != '.');
    }
}

/// What a compacted length-unit record declares, unit by unit. An SI unit of
/// length goes by its prefix, of which the smallest counts; the metre has none.
/// Otherwise a conversion-based unit goes by the name that it begins with.
pub proof fn records_declare_their_unit(compact: Seq<char>)
    ensures
        ({
            let declared = step_units::declared_unit(compact);
            let si = text::has_infix(compact, "SI_UNIT"@) && text::has_infix(compact, ".METRE."@);
            let milli = text::has_infix(compact, ".MILLI."@);
            let centi = text::has_infix(compact, ".CENTI."@);
            let bare = text::has_infix(compact, "SI_UNIT($,.METRE.)"@);
            let inch = text::has_infix(compact, "CONVERSION_BASED_UNIT('INCH"@);
            let foot = text::has_infix(compact, "CONVERSION_BASED_UNIT('FOOT"@) || text::has_infix(
                compact,
                "CONVERSION_BASED_UNIT('FEET"@,
            );
            &&& declared == Some(LengthUnit::Millimetre) <==> si && milli
            &&& declared == Some(LengthUnit::Centimetre) <==> si && centi && !milli
            &&& declared == Some(LengthUnit::Metre) <==> si && bare && !milli && !centi
            &&& declared == Some(LengthUnit::Inch) <==> !si && inch
            &&& declared == Some(LengthUnit::Foot) <==> !si && foot && !inch
            &&& declared is None <==> (if si {
                !milli && !centi && !bare
            } else {
                !inch && !foot
            })
        }),
{
}

/// How long a unit is, in tenths of a millimetre.
pub open spec fn tenths_of_millimetre(unit: LengthUnit) -> nat {
    match unit {
        LengthUnit::Millimetre => 10,
        LengthUnit::Centimetre => 100,
        LengthUnit::Metre => 10_000,
        LengthUnit::Inch => 254,
        LengthUnit::Foot => 3_048,
    }
}

/// What an SI prefix makes of the metre, in tenths of a millimetre: a thousandth,
/// a hundredth, or, without one (`$`), the metre itself.
pub open spec fn prefixed_metre(prefix: Seq<char>) -> Option<nat> {
    if prefix == ".MILLI."@ {
        Some(10_000nat / 1_000nat)
    } else if prefix == ".CENTI."@ {
        Some(10_000nat / 100nat)
    } else if prefix == "$"@ {
        Some(10_000)
    } else {
        None
    }
}

/// A word between two dots.
pub open spec fn is_dotted_word(prefix: Seq<char>) -> bool {
    &&& prefix.len() >= 3
    &&& prefix[0] == '.' && prefix[prefix.len() - 1] == '.'
    &&& forall|i: int|
        0 < i < prefix.len() - 1 ==> ('A' <= #[trigger] prefix[i] <= 'Z')
}

/// What stands in a compacted record for an SI unit of length.
pub open spec fn si_form(head: Seq<char>, prefix: Seq<char>, tail: Seq<char>) -> Seq<char> {
    head + "SI_UNIT("@ + prefix + ",.METRE.)"@ + tail
}

/// The dots of a dotted form: those of the prefix, then those round the metre.
proof fn lemma_si_form_dots(head: Seq<char>, prefix: Seq<char>, tail: Seq<char>, at: int)
    requires
        is_dotless(head),
        is_dotless(tail),
        is_dotted_word(prefix) || prefix == "$"@,
        0 <= at < si_form(head, prefix, tail).len(),
    ensures
        ({
            let form = si_form(head, prefix, tail);
            let p: int = head.len() + 8int;
            let q: int = p + prefix.len();
            &&& form.len() == q + 9 + tail.len()
            &&& form[at] == '.' ==> ((prefix != "$"@ && (at == p || at == q - 1)) || at == q + 1
                || at == q + 7)
            &&& form[q] == ',' && form[q + 1] == '.' && form[q + 2] == 'M' && form[q + 3] == 'E'
            &&& form[q + 4] == 'T' && form[q + 5] == 'R' && form[q + 6] == 'E' && form[q + 7] == '.'
            &&& form[q + 8] == ')'
            &&& form[p - 1] == '('
            &&& forall|i: int| 0 <= i < prefix.len() ==> form[p + i] == #[trigger] prefix[i]
        }),
{
    reveal_strlit("SI_UNIT(");
    reveal_strlit(",.METRE.)");
    reveal_strlit("$");
    reveal_strlit("SI_UNIT(");
    reveal_strlit(",.METRE.)");
    let form = si_form(head, prefix, tail);
    let p: int = head.len() + 8int;
    let q: int = p + prefix.len();
    if at < head.len() {
        assert(form[at] == head[at]);
    } else if at < p {
        assert(form[at] == "SI_UNIT("@[at - head.len()]);
    } else if at < q {
        assert(form[at] == prefix[at - p]);
    } else if at < q + 9 {
        assert(form[at] == ",.METRE.)"@[at - q]);
    } else {
        assert(form[at] == tail[at - q - 9]);
    }
    assert(form[q] == ",.METRE.)"@[0]);
    assert(form[q + 1] == ",.METRE.)"@[1]);
    assert(form[q + 2] == ",.METRE.)"@[2]);
    assert(form[q + 3] == ",.METRE.)"@[3]);
    assert(form[q + 4] == ",.METRE.)"@[4]);
    assert(form[q + 5] == ",.METRE.)"@[5]);
    assert(form[q + 6] == ",.METRE.)"@[6]);
    assert(form[q + 7] == ",.METRE.)"@[7]);
    assert(form[q + 8] == ",.METRE.)"@[8]);
    assert(form[p - 1] == "SI_UNIT("@[7]);
}

/// A dotted word of five letters, other than the metre's, stands in a dotted form
/// only as its prefix.
proof fn lemma_only_the_prefix(
    head: Seq<char>,
    prefix: Seq<char>,
    tail: Seq<char>,
    word: Seq<char>,
)
    requires
        is_dotless(head),
        is_dotless(tail),
        is_dotted_word(prefix) || prefix == "$"@,
        is_dotted_word(word),
        word.len() == 7,
        word[1] != 'M' || word[2] != 'E',
    ensures
        text::has_infix(si_form(head, prefix, tail), word) <==> prefix == word,
{
    reveal_strlit("$");
    reveal_strlit("SI_UNIT(");
    reveal_strlit(",.METRE.)");
    let form = si_form(head, prefix, tail);
    let p: int = head.len() + 8int;
    let q: int = p + prefix.len();
    if prefix == word {
        assert(form.subrange(p, q) =~= word);
        assert(text::occurs_at(form, word, p));
    }
    if text::has_infix(form, word) {
        let at = choose|at: int| text::occurs_at(form, word, at);
        assert forall|i: int| 0 <= i < 7 implies form[at + i] == #[trigger] word[i] by {
            assert(form.subrange(at, at + 7)[i] == form[at + i]);
        }
        assert(form[at + 0] == word[0]);
        assert(form[at + 1] == word[1]);
        assert(form[at + 2] == word[2]);
        assert(form[at + 6] == word[6]);
        lemma_si_form_dots(head, prefix, tail, at);
        lemma_si_form_dots(head, prefix, tail, at + 6);
        if at == q - 1 {
            assert(form[at + 1] == ',');
        } else if at == q + 1 {
            assert(form[at + 1] == 'M' && form[at + 2] == 'E');
        } else if at == q + 7 {
            assert(form[at + 1] == ')');
        } else {
            assert(at == p);
            if prefix.len() > 7 {
                assert(form[p + 6] == prefix[6]);
            } else if prefix.len() < 7 {
                let i = prefix.len() - 1;
                assert(form[p + i] == prefix[i]);
                assert(form[at + i] == word[i]);
            }
            assert forall|i: int| 0 <= i < 7 implies prefix[i] == word[i] by {
                assert(form[p + i] == prefix[i]);
                assert(form[at + i] == word[i]);
            }
            assert(prefix =~= word);
        }
    }
}

/// The bare metre stands in a dotted form only without a prefix.
proof fn lemma_only_the_bare_metre(head: Seq<char>, prefix: Seq<char>, tail: Seq<char>)
    requires
        is_dotless(head),
        is_dotless(tail),
        is_dotted_word(prefix) || prefix == "$"@,
    ensures
        text::has_infix(si_form(head, prefix, tail), "SI_UNIT($,.METRE.)"@) <==> prefix == "$"@,
{
    reveal_strlit("$");
    reveal_strlit("SI_UNIT(");
    reveal_strlit(",.METRE.)");
    reveal_strlit("SI_UNIT($,.METRE.)");
    let word = "SI_UNIT($,.METRE.)"@;
    let form = si_form(head, prefix, tail);
    let q: int = head.len() + 8int + prefix.len();
    let h = head.len() as int;
    if prefix == "$"@ {
        assert(form.subrange(h, h + 18) =~= word);
        assert(text::occurs_at(form, word, h));
    }
    if text::has_infix(form, word) {
        let at = choose|at: int| text::occurs_at(form, word, at);
        assert forall|i: int| 0 <= i < 18 implies form[at + i] == #[trigger] word[i] by {
            assert(form.subrange(at, at + 18)[i] == form[at + i]);
        }
        assert(form[at + 8] == word[8]);
        assert(form[at + 9] == word[9]);
        assert(form[at + 10] == word[10]);
        assert(form[at + 11] == word[11]);
        lemma_si_form_dots(head, prefix, tail, at + 10);
        if prefix != "$"@ {
            let p: int = head.len() + 8int;
            if at + 10 == p {
                assert(form[p - 1] == '(');
            } else if at + 10 == q - 1 {
                assert(form[q] == ',');
            } else if at + 10 == q + 1 {
                assert(form[q - 1] == prefix[prefix.len() - 1]) by {
                    assert(form[p + (prefix.len() - 1)] == prefix[prefix.len() - 1]);
                }
            } else {
                assert(form[q + 8] == ')');
            }
        }
    }
}

/// A compacted record `…SI_UNIT(prefix,.METRE.)…`, with no dot elsewhere,
/// declares the unit that is as long as its prefix says. With any other prefix it declares none that is known.
pub proof fn si_units_scale_by_their_prefix(head: Seq<char>, prefix: Seq<char>, tail: Seq<char>)
    requires
        is_dotless(head),
        is_dotless(tail),
        is_dotted_word(prefix) || prefix == "$"@,
    ensures
        match (step_units::declared_unit(si_form(head, prefix, tail)), prefixed_metre(prefix)) {
            (Some(unit), Some(scale)) => tenths_of_millimetre(unit) == scale,
            (None, None) => true,
            _ => false,
        },
        prefix == ".CENTI."@ ==> step_units::declared_unit(si_form(head, prefix, tail)) == Some(
            LengthUnit::Centimetre,
        ),
        prefix == ".MILLI."@ ==> step_units::declared_unit(si_form(head, prefix, tail)) == Some(
            LengthUnit::Millimetre,
        ),
        prefix == "$"@ ==> step_units::declared_unit(si_form(head, prefix, tail)) == Some(
            LengthUnit::Metre,
        ),
{
    reveal_strlit("$");
    reveal_strlit("SI_UNIT");
    reveal_strlit("SI_UNIT(");
    reveal_strlit(".METRE.");
    reveal_strlit(",.METRE.)");
    reveal_strlit(".MILLI.");
    reveal_strlit(".CENTI.");
    let form = si_form(head, prefix, tail);
    let h = head.len() as int;
    let q: int = h + 8 + prefix.len();
    assert(form.subrange(h, h + 7) =~= "SI_UNIT"@);
    assert(text::occurs_at(form, "SI_UNIT"@, h));
    assert(form.subrange(q + 1, q + 8) =~= ".METRE."@);
    assert(text::occurs_at(form, ".METRE."@, q + 1));
    assert(".MILLI."@[2] == 'I' && ".MILLI."@.len() == 7);
    assert(".CENTI."@[1] == 'C' && ".CENTI."@.len() == 7);
    lemma_only_the_prefix(head, prefix, tail, ".MILLI."@);
    lemma_only_the_prefix(head, prefix, tail, ".CENTI."@);
    lemma_only_the_bare_metre(head, prefix, tail);
    assert(".MILLI."@[1] == 'M');
    assert(".CENTI."@ != ".MILLI."@);
    assert("$"@.len() == 1);
    if prefix == ".MILLI."@ {
        assert(step_units::declared_unit(form) == Some(LengthUnit::Millimetre));
    } else if prefix == ".CENTI."@ {
        assert(step_units::declared_unit(form) == Some(LengthUnit::Centimetre));
    } else if prefix == "$"@ {
        assert(step_units::declared_unit(form) == Some(LengthUnit::Metre));
    }
}

/// A record as exporters write it, `(LENGTH_UNIT() NAMED_UNIT(*)
/// SI_UNIT(prefix,.METRE.))` behind its entity id, declares the unit of its
/// prefix; so does one with anything else without a dot in the place of
/// `NAMED_UNIT(*)`, and with white space anywhere round the SI unit.
pub proof fn exported_records_declare_their_prefix(
    before: Seq<char>,
    prefix: Seq<char>,
    after: Seq<char>,
)
    requires
        is_dotless(before),
        is_dotless(after),
        is_dotted_word(prefix) || prefix == "$"@,
    ensures
        ({
            let record = before + "SI_UNIT("@ + prefix + ",.METRE.)"@ + after;
            match (step_units::declared_unit(step_units::compacted(record)), prefixed_metre(prefix)) {
                (Some(unit), Some(scale)) => tenths_of_millimetre(unit) == scale,
                (None, None) => true,
                _ => false,
            }
        }),
        ({
            let record = before + "(LENGTH_UNIT() NAMED_UNIT(*) "@ + "SI_UNIT("@ + prefix
                + ",.METRE.)"@ + after;
            match (step_units::declared_unit(step_units::compacted(record)), prefixed_metre(prefix)) {
                (Some(unit), Some(scale)) => tenths_of_millimetre(unit) == scale,
                (None, None) => true,
                _ => false,
            }
        }),
{
    lemma_exported(before, prefix, after);
    reveal_strlit("(LENGTH_UNIT() NAMED_UNIT(*) ");
    let named = before + "(LENGTH_UNIT() NAMED_UNIT(*) "@;
    assert forall|i: int| 0 <= i < named.len() implies #[trigger] named[i] != '.' by {
        if i < before.len() {
            assert(named[i] == before[i]);
        } else {
            assert(named[i] == "(LENGTH_UNIT() NAMED_UNIT(*) "@[i - before.len()]);
        }
    }
    lemma_exported(named, prefix, after);
}

proof fn lemma_exported(before: Seq<char>, prefix: Seq<char>, after: Seq<char>)
    requires
        is_dotless(before),
        is_dotless(after),
        is_dotted_word(prefix) || prefix == "$"@,
    ensures
        ({
            let record = before + "SI_UNIT("@ + prefix + ",.METRE.)"@ + after;
            match (step_units::declared_unit(step_units::compacted(record)), prefixed_metre(prefix)) {
                (Some(unit), Some(scale)) => tenths_of_millimetre(unit) == scale,
                (None, None) => true,
                _ => false,
            }
        }),
{
    reveal_strlit("$");
    reveal_strlit("SI_UNIT(");
    reveal_strlit(",.METRE.)");
    let record = before + "SI_UNIT("@ + prefix + ",.METRE.)"@ + after;
    let head = step_units::compacted(before);
    let tail = step_units::compacted(after);
    lemma_compacted_dotless(before);
    lemma_compacted_dotless(after);
    lemma_solid_stays("SI_UNIT("@);
    lemma_solid_stays(",.METRE.)"@);
    lemma_solid_stays(prefix);
    only_white_space_is_dropped(before, "SI_UNIT("@, ' ');
    only_white_space_is_dropped(before + "SI_UNIT("@, prefix, ' ');
    only_white_space_is_dropped(before + "SI_UNIT("@ + prefix, ",.METRE.)"@, ' ');
    only_white_space_is_dropped(before + "SI_UNIT("@ + prefix + ",.METRE.)"@, after, ' ');
    assert(step_units::compacted(record) =~= si_form(head, prefix, tail));
    si_units_scale_by_their_prefix(head, prefix, tail);
}

/// A record of a conversion-based unit goes by the name in its quotes: 25.4
/// millimetres for one that begins with `INCH`, 304.8 for `FOOT` and `FEET`,
/// whatever stands round it, as long as the record itself is no SI unit.
pub proof fn conversions_scale_by_their_name(head: Seq<char>, name: Seq<char>, tail: Seq<char>)
    requires
        name == "INCH"@ || name == "FOOT"@ || name == "FEET"@,
        ({
            let compact = head + "CONVERSION_BASED_UNIT('"@ + name + tail;
            &&& !text::has_infix(compact, ".METRE."@)
            &&& name != "INCH"@ ==> !text::has_infix(compact, "CONVERSION_BASED_UNIT('INCH"@)
        }),
    ensures
        step_units::declared_unit(head + "CONVERSION_BASED_UNIT('"@ + name + tail) matches Some(
            unit,
        ) && tenths_of_millimetre(unit) == (if name == "INCH"@ {
            254nat
        } else {
            3_048nat
        }),
{
    reveal_strlit("CONVERSION_BASED_UNIT('");
    reveal_strlit("INCH");
    reveal_strlit("FOOT");
    reveal_strlit("FEET");
    reveal_strlit("CONVERSION_BASED_UNIT('INCH");
    reveal_strlit("CONVERSION_BASED_UNIT('FOOT");
    reveal_strlit("CONVERSION_BASED_UNIT('FEET");
    let compact = head + "CONVERSION_BASED_UNIT('"@ + name + tail;
    let h = head.len() as int;
    let full = "CONVERSION_BASED_UNIT('"@ + name;
    assert(compact.subrange(h, h + 27) =~= full);
    if name == "INCH"@ {
        assert(full =~= "CONVERSION_BASED_UNIT('INCH"@);
        assert(text::occurs_at(compact, "CONVERSION_BASED_UNIT('INCH"@, h));
    } else if name == "FOOT"@ {
        assert(full =~= "CONVERSION_BASED_UNIT('FOOT"@);
        assert(text::occurs_at(compact, "CONVERSION_BASED_UNIT('FOOT"@, h));
    } else {
        assert(full =~= "CONVERSION_BASED_UNIT('FEET"@);
        assert(text::occurs_at(compact, "CONVERSION_BASED_UNIT('FEET"@, h));
    }
}

/// Each unit has the symbol that engineers write.
pub proof fn units_have_their_symbols()
    ensures
        step_units::unit_symbol(LengthUnit::Millimetre) == "mm"@,
        step_units::unit_symbol(LengthUnit::Centimetre) == "cm"@,
        step_units::unit_symbol(LengthUnit::Metre) == "m"@,
        step_units::unit_symbol(LengthUnit::Inch) == "in"@,
        step_units::unit_symbol(LengthUnit::Foot) == "ft"@,
        step_units::by_symbol(Ok(Some(LengthUnit::Metre))) == Ok::<Option<Seq<char>>, Seq<char>>(
            Some("m"@),
        ),
        forall|unit: LengthUnit|
            step_units::by_symbol(Ok(Some(unit))) == Ok::<Option<Seq<char>>, Seq<char>>(
                Some(#[trigger] step_units::unit_symbol(unit)),
            ),
        step_units::by_symbol(Ok(None)) == Ok::<Option<Seq<char>>, Seq<char>>(None),
        forall|message: Seq<char>| #[trigger]
            step_units::by_symbol(Err(message)) == Err::<Option<Seq<char>>, Seq<char>>(message),
{
}

/// What is said of a verdict on the unit is what it holds, and of records what
/// they hold, in order.
pub proof fn unit_verdicts_are_faithful(symbol: String, rows: Seq<Vec<char>>, i: int)
    ensures
        step_units::unit_verdict(Ok(Some(symbol))) == Ok::<Option<Seq<char>>, Seq<char>>(
            Some(symbol@),
        ),
        step_units::unit_verdict(Ok(None)) == Ok::<Option<Seq<char>>, Seq<char>>(None),
        step_units::unit_verdict(Err(symbol)) == Err::<Option<Seq<char>>, Seq<char>>(symbol@),
        step_units::rows_of(rows).len() == rows.len(),
        0 <= i < rows.len() ==> step_units::rows_of(rows)[i] == rows[i]@,
{
}

/// A record defines the number between its `#` and its first `=`, white space
/// round either side aside; what stands behind the equals sign does not matter.
pub proof fn definitions_are_numbered(
    lead: Seq<char>,
    inner: Seq<char>,
    rest: Seq<char>,
    body: Seq<char>,
)
    requires
        forall|i: int| 0 <= i < lead.len() ==> text::is_white_space(#[trigger] lead[i]),
        !inner.contains('='),
        body.len() > 0 ==> !text::is_white_space(body[0]) && body[0] != '#',
    ensures
        step_units::entity_id(lead + seq!['#'] + inner + seq!['='] + rest) == text::unsigned_value(
            text::trim(inner),
        ),
        step_units::entity_id(lead + seq!['#'] + inner) is None,
        step_units::entity_id(lead + body) is None,
{
    let whole = seq!['#'] + inner + seq!['='] + rest;
    assert(lead + seq!['#'] + inner + seq!['='] + rest =~= lead + whole);
    lemma_trim_start_of(lead, whole);
    let after = whole.drop_first();
    assert(after =~= inner + seq!['='] + rest);
    let at = inner.len() as int;
    assert(after[at] == '=');
    assert(after.contains('='));
    after.index_of_first_ensures('=');
    let first = after.index_of_first('=')->Some_0;
    if first < at {
        assert(inner[first] == after[first]);
    }
    assert(after.take(at) =~= inner);

    let open = seq!['#'] + inner;
    assert(lead + seq!['#'] + inner =~= lead + open);
    lemma_trim_start_of(lead, open);
    assert(open.drop_first() =~= inner);
    inner.index_of_first_ensures('=');

    lemma_trim_start_of(lead, body);
}

proof fn lemma_trim_start_of(lead: Seq<char>, rest: Seq<char>)
    requires
        forall|i: int| 0 <= i < lead.len() ==> text::is_white_space(#[trigger] lead[i]),
        rest.len() > 0 ==> !text::is_white_space(rest[0]),
    ensures
        text::trim_start(lead + rest) == rest,
    decreases lead.len(),
{
    if lead.len() > 0 {
        assert((lead + rest).first() == lead[0]);
        assert((lead + rest).drop_first() =~= lead.drop_first() + rest);
        assert forall|i: int| 0 <= i < lead.drop_first().len() implies text::is_white_space(
            #[trigger] lead.drop_first()[i],
        ) by {
            assert(lead.drop_first()[i] == lead[i + 1]);
        }
        lemma_trim_start_of(lead.drop_first(), rest);
    } else {
        assert(lead + rest =~= rest);
    }
}

proof fn lemma_digit_run(digits: Seq<char>, rest: Seq<char>)
    requires
        forall|i: int| 0 <= i < digits.len() ==> '0' <= #[trigger] digits[i] <= '9',
        rest.len() > 0 ==> !('0' <= rest[0] <= '9'),
    ensures
        step_units::digit_run(digits + rest) == digits,
    decreases digits.len(),
{
    let all = digits + rest;
    if digits.len() > 0 {
        assert(all.first() == digits[0]);
        assert(all.drop_first() =~= digits.drop_first() + rest);
        assert forall|i: int| 0 <= i < digits.drop_first().len() implies '0'
            <= #[trigger] digits.drop_first()[i] <= '9' by {
            assert(digits.drop_first()[i] == digits[i + 1]);
        }
        lemma_digit_run(digits.drop_first(), rest);
        assert(seq![digits[0]] + digits.drop_first() =~= digits);
    } else {
        assert(all =~= rest);
        assert(digits =~= Seq::<char>::empty());
    }
}

proof fn lemma_references_behind(front: Seq<char>, rest: Seq<char>, k: int)
    requires
        0 <= k <= rest.len(),
    ensures
        step_units::references(front + rest, front.len() + k) == step_units::references(
            front + rest,
            front.len() as int,
        ) + step_units::references(rest, k),
    decreases k,
{
    let all = front + rest;
    let head = step_units::references(all, front.len() as int);
    if k > 0 {
        lemma_references_behind(front, rest, k - 1);
        assert(all[front.len() + k - 1] == rest[k - 1]);
        assert(all.skip(front.len() + k) =~= rest.skip(k));
        assert(step_units::reference_at(all, front.len() + k - 1) == step_units::reference_at(
            rest,
            k - 1,
        ));
        assert(step_units::references(all, front.len() + k) =~= head + step_units::references(
            rest,
            k,
        ));
    } else {
        assert(step_units::references(all, front.len() + k) =~= head + step_units::references(
            rest,
            k,
        ));
    }
}

proof fn lemma_no_references(record: Seq<char>, lo: int, hi: int)
    requires
        0 <= lo <= hi <= record.len(),
        forall|i: int| lo <= i < hi ==> #[trigger] record[i] != '#',
    ensures
        step_units::references(record, hi) == step_units::references(record, lo),
    decreases hi - lo,
{
    if lo < hi {
        lemma_no_references(record, lo, hi - 1);
        assert(record[hi - 1] != '#');
    }
}

/// A record refers to the number behind each of its `#` signs, in order: plain
/// text refers to nothing, and a `#` with its digits refers to their value where
/// there is a digit and 64 bits hold it, before what the rest refers to.
pub proof fn references_are_read_in_order(plain: Seq<char>, digits: Seq<char>, rest: Seq<char>)
    requires
        !plain.contains('#'),
        forall|i: int| 0 <= i < digits.len() ==> '0' <= #[trigger] digits[i] <= '9',
        rest.len() > 0 ==> !('0' <= rest[0] <= '9'),
    ensures
        step_units::references(plain, plain.len() as int) == Seq::<u64>::empty(),
        ({
            let record = plain + seq!['#'] + digits + rest;
            step_units::references(record, record.len() as int) == (if digits.len() > 0
                && text::decimal_value(digits) <= u64::MAX {
                seq![text::decimal_value(digits) as u64]
            } else {
                Seq::<u64>::empty()
            }) + step_units::references(rest, rest.len() as int)
        }),
{
    assert forall|i: int| 0 <= i < plain.len() implies #[trigger] plain[i] != '#' by {
        if plain[i] == '#' {
            assert(plain.contains('#'));
        }
    }
    lemma_no_references(plain, 0, plain.len() as int);
    let front = plain + seq!['#'] + digits;
    let record = front + rest;
    let p = plain.len() as int;
    assert forall|i: int| 0 <= i < p implies #[trigger] record[i] != '#' by {
        assert(record[i] == plain[i]);
    }
    lemma_no_references(record, 0, p);
    assert(record[p] == '#');
    assert(record.skip(p + 1) =~= digits + rest);
    lemma_digit_run(digits, rest);
    assert(text::all_digits(digits));
    if digits.len() > 0 {
        assert('0' <= digits[0] <= '9');
    }
    assert forall|i: int| p + 1 <= i < front.len() implies #[trigger] record[i] != '#' by {
        assert(record[i] == digits[i - p - 1]);
    }
    lemma_no_references(record, p + 1, front.len() as int);
    lemma_references_behind(front, rest, rest.len() as int);
    assert(step_units::references(record, p) =~= Seq::<u64>::empty());
    let found = step_units::reference_at(record, p);
    if found is Some {
        assert(step_units::references(record, p + 1) =~= seq![found->Some_0]);
    }
}

/// The record defines the length unit `id`.
pub open spec fn defines(row: Seq<char>, id: u64) -> bool {
    text::has_infix(row, "LENGTH_UNIT"@) && step_units::entity_id(row) == Some(id)
}

/// The last record that defines the length unit `id` is the one at `i`.
pub open spec fn defined_at(rows: Seq<Seq<char>>, i: int, id: u64) -> bool {
    &&& 0 <= i < rows.len()
    &&& defines(rows[i], id)
    &&& forall|j: int| i < j < rows.len() ==> !defines(#[trigger] rows[j], id)
}

/// A representation context refers to `id`.
pub open spec fn is_used(rows: Seq<Seq<char>>, id: u64) -> bool {
    exists|j: int|
        0 <= j < rows.len() && text::has_infix(#[trigger] rows[j], "GLOBAL_UNIT_ASSIGNED_CONTEXT"@)
            && step_units::references(rows[j], rows[j].len() as int).contains(id)
}

/// A length unit with this meaning is used by a representation context.
pub open spec fn uses(rows: Seq<Seq<char>>, unit: Option<LengthUnit>) -> bool {
    exists|i: int, id: u64| #[trigger]
        defined_at(rows, i, id) && is_used(rows, id) && step_units::declared_unit(
            step_units::compacted(rows[i]),
        ) == unit
}

proof fn lemma_unit_entities(rows: Seq<Seq<char>>, n: int, id: u64)
    requires
        0 <= n <= rows.len(),
    ensures
        ({
            let units = step_units::unit_entities(rows, n);
            let head = rows.take(n);
            &&& units.contains_key(id) <==> exists|i: int| defined_at(head, i, id)
            &&& forall|i: int| #[trigger]
                defined_at(head, i, id) ==> units[id] == step_units::declared_unit(
                    step_units::compacted(rows[i]),
                )
        }),
    decreases n,
{
    if n > 0 {
        lemma_unit_entities(rows, n - 1, id);
        let head = rows.take(n);
        let before = rows.take(n - 1);
        assert(head[n - 1] == rows[n - 1]);
        if defines(rows[n - 1], id) {
            assert(defined_at(head, n - 1, id));
            assert forall|i: int| #[trigger] defined_at(head, i, id) implies i == n - 1 by {
                if i < n - 1 {
                    assert(!defines(head[n - 1], id));
                }
            }
        } else {
            assert forall|i: int| #[trigger] defined_at(head, i, id) <==> defined_at(before, i, id) by {
                if defined_at(head, i, id) {
                    assert(i < n - 1);
                    assert(before[i] == head[i]);
                    assert forall|j: int| i < j < before.len() implies !defines(
                        #[trigger] before[j],
                        id,
                    ) by {
                        assert(before[j] == head[j]);
                    }
                }
                if defined_at(before, i, id) {
                    assert(before[i] == head[i]);
                    assert forall|j: int| i < j < head.len() implies !defines(
                        #[trigger] head[j],
                        id,
                    ) by {
                        if j < n - 1 {
                            assert(before[j] == head[j]);
                        }
                    }
                }
            }
            if exists|i: int| defined_at(head, i, id) {
                let i = choose|i: int| defined_at(head, i, id);
                assert(defined_at(before, i, id));
            }
            if exists|i: int| defined_at(before, i, id) {
                let i = choose|i: int| defined_at(before, i, id);
                assert(defined_at(head, i, id));
            }
        }
    }
}

/// A length unit goes by the last record that defines it.
pub proof fn later_definitions_replace_earlier_ones(rows: Seq<Seq<char>>, i: int, id: u64)
    ensures
        ({
            let units = step_units::unit_entities(rows, rows.len() as int);
            &&& defined_at(rows, i, id) ==> units.contains_key(id) && units[id]
                == step_units::declared_unit(step_units::compacted(rows[i]))
            &&& units.contains_key(id) <==> exists|k: int| defined_at(rows, k, id)
        }),
{
    lemma_unit_entities(rows, rows.len() as int, id);
    assert(rows.take(rows.len() as int) =~= rows);
}

proof fn lemma_uses_is_active(rows: Seq<Seq<char>>, unit: Option<LengthUnit>)
    ensures
        ({
            let n = rows.len() as int;
            uses(rows, unit) <==> step_units::is_active(
                step_units::unit_entities(rows, n),
                rows,
                n,
                unit,
            )
        }),
{
    let n = rows.len() as int;
    let units = step_units::unit_entities(rows, n);
    if uses(rows, unit) {
        let (i, id) = choose|i: int, id: u64| #[trigger]
            defined_at(rows, i, id) && is_used(rows, id) && step_units::declared_unit(
                step_units::compacted(rows[i]),
            ) == unit;
        later_definitions_replace_earlier_ones(rows, i, id);
        assert(step_units::is_assigned(rows, n, id));
    }
    if step_units::is_active(units, rows, n, unit) {
        let id = choose|id: u64| #[trigger]
            step_units::is_assigned(rows, n, id) && units.contains_key(id) && units[id] == unit;
        later_definitions_replace_earlier_ones(rows, 0, id);
        let i = choose|i: int| defined_at(rows, i, id);
        later_definitions_replace_earlier_ones(rows, i, id);
        assert(is_used(rows, id));
    }
}

/// `unit`'s symbol where the text uses it, and nothing otherwise.
pub open spec fn symbol_if_used(
    rows: Seq<Seq<char>>,
    unit: LengthUnit,
    symbol: Seq<char>,
) -> Seq<Seq<char>> {
    if uses(rows, Some(unit)) {
        seq![symbol]
    } else {
        Seq::empty()
    }
}

/// The symbols of the units that the text uses, in alphabetical order.
pub open spec fn used_symbols(rows: Seq<Seq<char>>) -> Seq<Seq<char>> {
    symbol_if_used(rows, LengthUnit::Centimetre, "cm"@) + symbol_if_used(
        rows,
        LengthUnit::Foot,
        "ft"@,
    ) + symbol_if_used(rows, LengthUnit::Inch, "in"@) + symbol_if_used(
        rows,
        LengthUnit::Metre,
        "m"@,
    ) + symbol_if_used(rows, LengthUnit::Millimetre, "mm"@)
}

/// The symbols of a list of units.
spec fn symbols(units: Seq<LengthUnit>) -> Seq<Seq<char>> {
    units.map_values(|unit: LengthUnit| step_units::unit_symbol(unit))
}

proof fn lemma_symbols_add(left: Seq<LengthUnit>, right: Seq<LengthUnit>)
    ensures
        symbols(left + right) == symbols(left) + symbols(right),
{
    assert(symbols(left + right) =~= symbols(left) + symbols(right));
}

/// What a single unit adds to the list.
proof fn lemma_one_symbol(text: Seq<char>, unit: LengthUnit)
    ensures
        ({
            let rows = step_units::records(text);
            let n = rows.len() as int;
            let units = step_units::unit_entities(rows, n);
            symbols(
                seq![unit].filter(
                    |unit: LengthUnit| step_units::is_active(units, rows, n, Some(unit)),
                ),
            ) == symbol_if_used(rows, unit, step_units::unit_symbol(unit))
        }),
{
    let rows = step_units::records(text);
    let n = rows.len() as int;
    let units = step_units::unit_entities(rows, n);
    let active = |unit: LengthUnit| step_units::is_active(units, rows, n, Some(unit));
    lemma_uses_is_active(rows, Some(unit));
    lemma_filter_one(unit, active);
    assert(symbols(seq![unit]) =~= seq![step_units::unit_symbol(unit)]);
    assert(symbols(Seq::<LengthUnit>::empty()) =~= Seq::<Seq<char>>::empty());
}

proof fn lemma_used_symbols(text: Seq<char>)
    ensures
        symbols(step_laws::assigned_units(text)) == used_symbols(step_units::records(text)),
{
    let rows = step_units::records(text);
    let n = rows.len() as int;
    let units = step_units::unit_entities(rows, n);
    let active = |unit: LengthUnit| step_units::is_active(units, rows, n, Some(unit));
    let a = seq![LengthUnit::Centimetre];
    let b = seq![LengthUnit::Foot];
    let c = seq![LengthUnit::Inch];
    let d = seq![LengthUnit::Metre];
    let e = seq![LengthUnit::Millimetre];
    assert(step_units::every_unit() =~= a + b + c + d + e);
    Seq::filter_distributes_over_add(a + b + c + d, e, active);
    Seq::filter_distributes_over_add(a + b + c, d, active);
    Seq::filter_distributes_over_add(a + b, c, active);
    Seq::filter_distributes_over_add(a, b, active);
    let (fa, fb, fc, fd, fe) = (
        a.filter(active),
        b.filter(active),
        c.filter(active),
        d.filter(active),
        e.filter(active),
    );
    lemma_symbols_add(fa + fb + fc + fd, fe);
    lemma_symbols_add(fa + fb + fc, fd);
    lemma_symbols_add(fa + fb, fc);
    lemma_symbols_add(fa, fb);
    lemma_one_symbol(text, LengthUnit::Centimetre);
    lemma_one_symbol(text, LengthUnit::Foot);
    lemma_one_symbol(text, LengthUnit::Inch);
    lemma_one_symbol(text, LengthUnit::Metre);
    lemma_one_symbol(text, LengthUnit::Millimetre);
}

proof fn lemma_filter_one(unit: LengthUnit, pred: spec_fn(LengthUnit) -> bool)
    ensures
        seq![unit].filter(pred) == if pred(unit) {
            seq![unit]
        } else {
            Seq::<LengthUnit>::empty()
        },
{
    reveal(Seq::filter);
    assert(seq![unit].drop_last() =~= Seq::<LengthUnit>::empty());
    assert(Seq::<LengthUnit>::empty().push(unit) =~= seq![unit]);
    assert(seq![unit].drop_last().filter(pred) =~= Seq::<LengthUnit>::empty());
}

/// The unit of a text, case by case. A used unit that is not known refuses it;
/// one known unit in use is the unit, however many other length units are
/// defined; two or more refuse it, and are listed.
pub proof fn used_units_decide(text: Seq<char>, unit: LengthUnit, other: LengthUnit)
    ensures
        ({
            let rows = step_units::records(text);
            let found = step_units::length_unit(text);
            &&& uses(rows, None) ==> found == Err::<Option<LengthUnit>, Seq<char>>(
                "the active STEP representation declares a length unit Reyn cannot identify safely; re-export it in mm, cm, m, in, or ft"@,
            )
            &&& !uses(rows, None) && uses(rows, Some(unit)) && (forall|more: LengthUnit|
                #[trigger] uses(rows, Some(more)) ==> more == unit) ==> found == Ok::<
                Option<LengthUnit>,
                Seq<char>,
            >(Some(unit))
            &&& !uses(rows, None) && unit != other && uses(rows, Some(unit)) && uses(
                rows,
                Some(other),
            ) ==> found == Err::<Option<LengthUnit>, Seq<char>>(
                "the STEP file uses multiple length units ("@ + text::join(
                    used_symbols(rows),
                    ", "@,
                ) + "); resolve the representation contexts in CAD before import"@,
            )
        }),
{
    let rows = step_units::records(text);
    lemma_uses_is_active(rows, None);
    lemma_uses_is_active(rows, Some(unit));
    lemma_uses_is_active(rows, Some(other));
    step_laws::lemma_assigned_units(text);
    lemma_used_symbols(text);
    let active = step_laws::assigned_units(text);
    if !uses(rows, None) && uses(rows, Some(unit)) {
        assert(step_laws::assigns(text, Some(unit)));
        assert(active.contains(unit));
        if forall|more: LengthUnit| #[trigger] uses(rows, Some(more)) ==> more == unit {
            assert forall|i: int| 0 <= i < active.len() implies active[i] == unit by {
                assert(active.contains(active[i]));
                lemma_uses_is_active(rows, Some(active[i]));
                assert(step_laws::assigns(text, Some(active[i])));
                assert(uses(rows, Some(active[i])));
            }
            if active.len() > 1 {
                assert(active[0] == active[1]);
            }
        }
        if unit != other && uses(rows, Some(other)) {
            assert(step_laws::assigns(text, Some(other)));
            assert(active.contains(other));
            if active.len() <= 1 {
                assert(active[0] == unit && active[0] == other);
            }
        }
    }
}

/// Where no length unit is in use, a text that defines exactly one has that unit,
/// or is refused where it is not known; a text that defines none, or two, has no
/// unit.
pub proof fn unused_units_count_only_alone(text: Seq<char>, i: int, id: u64, j: int, more: u64)
    requires
        forall|unit: Option<LengthUnit>| !#[trigger] uses(step_units::records(text), unit),
    ensures
        ({
            let rows = step_units::records(text);
            let found = step_units::length_unit(text);
            &&& defined_at(rows, i, id) && (forall|k: int, other: u64| #[trigger]
                defined_at(rows, k, other) ==> other == id) ==> found == (
            match step_units::declared_unit(step_units::compacted(rows[i])) {
                Some(unit) => Ok::<Option<LengthUnit>, Seq<char>>(Some(unit)),
                None => Err(
                    "the STEP file declares an unsupported SI length prefix; convert the part to millimetres, centimetres, or metres before import"@,
                ),
            })
            &&& (forall|k: int, other: u64| !#[trigger] defined_at(rows, k, other)) ==> found
                == Ok::<Option<LengthUnit>, Seq<char>>(None)
            &&& id != more && defined_at(rows, i, id) && defined_at(rows, j, more) ==> found
                == Ok::<Option<LengthUnit>, Seq<char>>(None)
        }),
{
    let rows = step_units::records(text);
    let n = rows.len() as int;
    let units = step_units::unit_entities(rows, n);
    step_laws::lemma_assigned_units(text);
    step_laws::lemma_units_are_finite(rows, n);
    let active = step_laws::assigned_units(text);
    lemma_uses_is_active(rows, None);
    assert(!uses(rows, None));
    if active.len() > 0 {
        assert(active.contains(active[0]));
        assert(step_laws::assigns(text, Some(active[0])));
        lemma_uses_is_active(rows, Some(active[0]));
        assert(!uses(rows, Some(active[0])));
    }
    later_definitions_replace_earlier_ones(rows, i, id);
    later_definitions_replace_earlier_ones(rows, j, more);
    if defined_at(rows, i, id) && (forall|k: int, other: u64| #[trigger]
        defined_at(rows, k, other) ==> other == id) {
        assert forall|key: u64| #[trigger] units.dom().contains(key) <==> key == id by {
            later_definitions_replace_earlier_ones(rows, 0, key);
        }
        assert(units.dom() =~= Set::<u64>::empty().insert(id));
        assert(units.dom().len() == 1);
        assert(units.dom().choose() == id) by {
            assert(units.dom().contains(units.dom().choose()));
        }
    }
    if forall|k: int, other: u64| !#[trigger] defined_at(rows, k, other) {
        assert forall|key: u64| !#[trigger] units.dom().contains(key) by {
            later_definitions_replace_earlier_ones(rows, 0, key);
        }
        assert(units.dom() =~= Set::<u64>::empty());
    }
    if id != more && defined_at(rows, i, id) && defined_at(rows, j, more) {
        let pair = Set::<u64>::empty().insert(id).insert(more);
        assert(pair.subset_of(units.dom()));
        vstd::set_lib::lemma_len_subset(pair, units.dom());
        assert(pair.len() == 2);
    }
}

} // verus!

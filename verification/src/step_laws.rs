//! What holds of STEP import as a whole.

use crate::cad_step;
use crate::cad_step::{
    ShellChoiceView, ShellFacets, StepErrorView, StepImportView, Tessellation, TranslatorFault,
    MAX_SHELLS, MAX_TRIANGLES,
};
use crate::step_lexis;
use crate::step_units;
use crate::step_units::LengthUnit;
use crate::text;
use vstd::prelude::*;

verus! {

/// A keyword of an assembly occurrence graph.
pub open spec fn is_assembly_keyword(keyword: Seq<char>) -> bool {
    keyword == "NEXT_ASSEMBLY_USAGE_OCCURRENCE"@ || keyword
        == "CONTEXT_DEPENDENT_SHAPE_REPRESENTATION"@
}

/// `upper` opens an entity of an assembly occurrence graph behind `before`: a
/// keyword, a gap of white space and comments, then a bracket, whatever comes
/// `after`.
pub open spec fn opens_assembly(
    upper: Seq<char>,
    before: Seq<char>,
    keyword: Seq<char>,
    gap: Seq<char>,
    after: Seq<char>,
) -> bool {
    &&& upper == before + keyword + gap + seq!['('] + after
    &&& is_assembly_keyword(keyword)
    &&& step_lexis::is_gap(gap)
    &&& step_lexis::begins_word(upper, before.len() as int)
}

/// An entity of an assembly is found, whatever gap stands before its bracket.
proof fn lemma_assembly_is_found(
    upper: Seq<char>,
    before: Seq<char>,
    keyword: Seq<char>,
    gap: Seq<char>,
    after: Seq<char>,
)
    requires
        opens_assembly(upper, before, keyword, gap, after),
    ensures
        cad_step::holds_assembly(upper),
{
    let at = before.len() as int;
    let from = at + keyword.len();
    assert(upper.subrange(at, from) =~= keyword);
    assert forall|i: int| 0 <= i < gap.len() implies upper[from + i] == #[trigger] gap[i] by {}
    step_lexis::lemma_bracket_behind_gap(upper, gap, from);
    assert(step_lexis::opens_entity(upper, keyword, at));
}

/// An entity of an assembly occurrence graph is never imported, whatever else the
/// file holds, whatever case its keyword is in and whatever white space and
/// comments stand before its bracket. A file with a header is told so.
pub proof fn assemblies_are_refused(
    source: Seq<char>,
    before: Seq<char>,
    keyword: Seq<char>,
    gap: Seq<char>,
    after: Seq<char>,
)
    requires
        opens_assembly(
            source.map_values(|c: char| text::ascii_upper(c)),
            before,
            keyword,
            gap,
            after,
        ),
    ensures
        cad_step::text_verdict(source) is Err,
        text::has_infix(source.map_values(|c: char| text::ascii_upper(c)), "ISO-10303-21"@)
            ==> cad_step::text_verdict(source) == Err::<Seq<char>, Seq<char>>(
            cad_step::assembly_text(),
        ),
        text::has_infix(cad_step::assembly_text(), "assemblies"@),
{
    let upper = source.map_values(|c: char| text::ascii_upper(c));
    lemma_assembly_is_found(upper, before, keyword, gap, after);
    let message = cad_step::assembly_text();
    reveal_strlit("assemblies");
    reveal_strlit(
        "assemblies are not supported yet; export one resolved part/body as STEP (or pick a single solid in CAD) and import that file — multi-body occurrence transforms are not preserved",
    );
    assert(message.subrange(0, 10) =~= "assemblies"@);
    assert(text::occurs_at(message, "assemblies"@, 0));
}

/// The bytes of an assembly are never imported, and never lead to a choice,
/// whatever their size, whatever shell is picked and whatever the translator
/// would make of them.
pub proof fn assembly_bytes_are_refused<M, T>(
    bytes: Seq<u8>,
    before: Seq<char>,
    keyword: Seq<char>,
    gap: Seq<char>,
    after: Seq<char>,
    shells: Option<Seq<u64>>,
    selected: Option<u64>,
    tessellation: Tessellation<M, T>,
)
    requires
        opens_assembly(
            cad_step::lossy_text(bytes).map_values(|c: char| text::ascii_upper(c)),
            before,
            keyword,
            gap,
            after,
        ),
    ensures
        cad_step::imported_from(bytes, shells, selected, tessellation) matches Err(error) && error
            is Message,
        cad_step::size_fault(bytes.len()) is None && text::has_infix(
            cad_step::lossy_text(bytes).map_values(|c: char| text::ascii_upper(c)),
            "ISO-10303-21"@,
        ) ==> cad_step::imported_from(bytes, shells, selected, tessellation) == cad_step::refusal::<
            StepImportView<M, T>,
        >(cad_step::assembly_text()),
{
    assemblies_are_refused(cad_step::lossy_text(bytes), before, keyword, gap, after);
}

/// A keyword of an assembly directly before a bracket is refused wherever it
/// stands, in a string or a comment too.
pub proof fn direct_assemblies_are_refused(source: Seq<char>)
    requires
        ({
            let upper = source.map_values(|c: char| text::ascii_upper(c));
            text::has_infix(upper, "NEXT_ASSEMBLY_USAGE_OCCURRENCE("@) || text::has_infix(
                upper,
                "CONTEXT_DEPENDENT_SHAPE_REPRESENTATION("@,
            )
        }),
    ensures
        cad_step::text_verdict(source) is Err,
{
}

/// Only assemblies are refused as such: without a keyword directly before a
/// bracket, the text opens an entity of an assembly outside its strings and
/// comments.
pub proof fn only_assemblies_are_refused_as_such(source: Seq<char>)
    requires
        cad_step::holds_assembly(source.map_values(|c: char| text::ascii_upper(c))),
    ensures
        ({
            let upper = source.map_values(|c: char| text::ascii_upper(c));
            ||| text::has_infix(upper, "NEXT_ASSEMBLY_USAGE_OCCURRENCE("@)
            ||| text::has_infix(upper, "CONTEXT_DEPENDENT_SHAPE_REPRESENTATION("@)
            ||| exists|keyword: Seq<char>, at: int|
                is_assembly_keyword(keyword) && step_lexis::begins_word(upper, at)
                    && #[trigger] text::occurs_at(upper, keyword, at)
                    && step_lexis::bracket_follows(upper, at + keyword.len())
        }),
{
    let upper = source.map_values(|c: char| text::ascii_upper(c));
    let next = "NEXT_ASSEMBLY_USAGE_OCCURRENCE"@;
    let context = "CONTEXT_DEPENDENT_SHAPE_REPRESENTATION"@;
    if step_lexis::has_entity(upper, next) {
        let at = choose|at: int| step_lexis::opens_entity(upper, next, at);
        assert(text::occurs_at(upper, next, at));
    }
    if step_lexis::has_entity(upper, context) {
        let at = choose|at: int| step_lexis::opens_entity(upper, context, at);
        assert(text::occurs_at(upper, context, at));
    }
}

/// The case of ASCII letters does not matter.
pub proof fn letter_case_does_not_matter(left: Seq<char>, right: Seq<char>)
    requires
        left.map_values(|c: char| text::ascii_upper(c)) == right.map_values(
            |c: char| text::ascii_upper(c),
        ),
    ensures
        cad_step::text_verdict(left) == cad_step::text_verdict(right),
{
}

/// The units that `text` assigns to its representation contexts.
pub open spec fn assigns(text: Seq<char>, unit: Option<LengthUnit>) -> bool {
    let rows = step_units::records(text);
    let n = rows.len() as int;
    step_units::is_active(step_units::unit_entities(rows, n), rows, n, unit)
}

/// `text` holds a length-unit entity with this meaning.
pub open spec fn declares(text: Seq<char>, unit: LengthUnit) -> bool {
    let rows = step_units::records(text);
    let units = step_units::unit_entities(rows, rows.len() as int);
    exists|id: u64| #[trigger] units.contains_key(id) && units[id] == Some(unit)
}

proof fn lemma_every_unit(unit: LengthUnit)
    ensures
        step_units::every_unit().contains(unit),
{
    let all = step_units::every_unit();
    match unit {
        LengthUnit::Centimetre => assert(all[0] == unit),
        LengthUnit::Foot => assert(all[1] == unit),
        LengthUnit::Inch => assert(all[2] == unit),
        LengthUnit::Metre => assert(all[3] == unit),
        LengthUnit::Millimetre => assert(all[4] == unit),
    }
}

/// A filter keeps what passes it, once each where the items are distinct.
proof fn lemma_filter<A>(items: Seq<A>, pred: spec_fn(A) -> bool)
    ensures
        forall|item: A|
            items.filter(pred).contains(item) <==> items.contains(item) && pred(item),
        items.no_duplicates() ==> items.filter(pred).no_duplicates(),
    decreases items.len(),
{
    reveal(Seq::filter);
    if items.len() > 0 {
        let rest = items.drop_last();
        lemma_filter(rest, pred);
        let kept = rest.filter(pred);
        assert(items =~= rest.push(items.last()));
        assert forall|item: A|
            items.filter(pred).contains(item) <==> items.contains(item) && pred(item) by {
            if items.contains(item) && pred(item) {
                if item == items.last() {
                    assert(items.filter(pred)[kept.len() as int] == item);
                } else {
                    let at = choose|at: int| 0 <= at < items.len() && items[at] == item;
                    assert(rest[at] == item);
                    assert(kept.contains(item));
                    let to = choose|to: int| 0 <= to < kept.len() && kept[to] == item;
                    assert(items.filter(pred)[to] == item);
                }
            }
            if items.filter(pred).contains(item) {
                let to = choose|to: int|
                    0 <= to < items.filter(pred).len() && items.filter(pred)[to] == item;
                if to < kept.len() {
                    assert(kept[to] == item);
                    assert(rest.contains(item));
                    let at = choose|at: int| 0 <= at < rest.len() && rest[at] == item;
                    assert(items[at] == item);
                } else {
                    assert(items[items.len() - 1] == item);
                }
            }
        }
        if items.no_duplicates() {
            assert(!rest.contains(items.last()));
            assert(!kept.contains(items.last()));
        }
    }
}

/// The assigned units, in the order of their symbols.
pub open spec fn assigned_units(text: Seq<char>) -> Seq<LengthUnit> {
    let rows = step_units::records(text);
    let n = rows.len() as int;
    let units = step_units::unit_entities(rows, n);
    step_units::every_unit().filter(
        |unit: LengthUnit| step_units::is_active(units, rows, n, Some(unit)),
    )
}

pub(crate) proof fn lemma_assigned_units(text: Seq<char>)
    ensures
        forall|unit: LengthUnit| assigned_units(text).contains(unit) <==> assigns(text, Some(unit)),
        assigned_units(text).no_duplicates(),
{
    let rows = step_units::records(text);
    let n = rows.len() as int;
    let units = step_units::unit_entities(rows, n);
    let active = |unit: LengthUnit| step_units::is_active(units, rows, n, Some(unit));
    lemma_filter(step_units::every_unit(), active);
    assert forall|unit: LengthUnit|
        assigned_units(text).contains(unit) <==> assigns(text, Some(unit)) by {
        lemma_every_unit(unit);
    }
}

/// Where exactly one unit is assigned, and it is known, it decides: the other
/// length-unit entities of the file do not matter.
pub proof fn the_assigned_unit_decides(text: Seq<char>, unit: LengthUnit)
    requires
        assigns(text, Some(unit)),
        !assigns(text, None),
        forall|other: LengthUnit| assigns(text, Some(other)) ==> other == unit,
    ensures
        step_units::length_unit(text) == Ok::<Option<LengthUnit>, Seq<char>>(Some(unit)),
{
    lemma_assigned_units(text);
    let active = assigned_units(text);
    assert(active.contains(unit));
    assert forall|i: int| 0 <= i < active.len() implies active[i] == unit by {
        assert(active.contains(active[i]));
    }
    if active.len() > 1 {
        assert(active[0] == active[1]);
    }
}

/// A file that assigns two units, or one that is not known, is refused.
pub proof fn conflicting_units_are_refused(text: Seq<char>, left: LengthUnit, right: LengthUnit)
    requires
        assigns(text, None) || (left != right && assigns(text, Some(left)) && assigns(
            text,
            Some(right),
        )),
    ensures
        step_units::length_unit(text) is Err,
{
    lemma_assigned_units(text);
    let active = assigned_units(text);
    if !assigns(text, None) {
        assert(active.contains(left) && active.contains(right));
        if active.len() <= 1 {
            assert(active[0] == left && active[0] == right);
        }
    }
}

/// A unit is never made up: where the file is given one, an entity of the file
/// declares it, and where any unit is assigned, that one is.
pub proof fn units_are_declared(text: Seq<char>, unit: LengthUnit, other: LengthUnit)
    requires
        step_units::length_unit(text) == Ok::<Option<LengthUnit>, Seq<char>>(Some(unit)),
    ensures
        declares(text, unit),
        assigns(text, Some(other)) ==> other == unit,
        !assigns(text, None),
{
    let rows = step_units::records(text);
    let n = rows.len() as int;
    let units = step_units::unit_entities(rows, n);
    lemma_assigned_units(text);
    let active = assigned_units(text);
    if active.len() == 1 {
        assert(active.contains(active[0]));
        assert(assigns(text, Some(unit)));
        let id = choose|id: u64| #[trigger]
            step_units::is_assigned(rows, n, id) && units.contains_key(id) && units[id] == Some(
                unit,
            );
        assert(units.contains_key(id));
        if assigns(text, Some(other)) {
            assert(active.contains(other));
        }
    } else {
        lemma_units_are_finite(rows, n);
        let id = units.dom().choose();
        assert(units.dom().contains(id));
        if assigns(text, Some(other)) {
            assert(active.contains(other));
        }
    }
}

pub(crate) proof fn lemma_units_are_finite(rows: Seq<Seq<char>>, n: int)
    ensures
        step_units::unit_entities(rows, n).dom().finite(),
    decreases n,
{
    if n > 0 {
        lemma_units_are_finite(rows, n - 1);
    }
}

/// A source with one shell is imported without asking.
pub proof fn single_shells_need_no_choice(unit: Seq<char>, id: u64)
    ensures
        cad_step::selection_verdict(unit, Some(seq![id]), None) == Ok::<
            (Seq<u64>, nat),
            StepErrorView,
        >((seq![id], 1)),
{
    assert(seq![id].drop_last() =~= Seq::<u64>::empty());
    assert(cad_step::ascending(seq![id].drop_last()) =~= Seq::<u64>::empty());
    assert(cad_step::ascending(seq![id]) =~= seq![id]);
}

/// Picking a shell never leads to another choice.
pub proof fn picking_never_asks_again(unit: Seq<char>, shells: Option<Seq<u64>>, id: u64)
    ensures
        cad_step::selection_verdict(unit, shells, Some(id)) matches Err(error)
            ==> error is Message,
{
}

/// Every shell that is offered can be picked, and only it is then translated.
pub proof fn offered_shells_can_be_picked(unit: Seq<char>, ids: Seq<u64>, i: int)
    requires
        cad_step::selection_verdict(unit, Some(ids), None) matches Err(
            StepErrorView::ChooseShell(choice),
        ) && 0 <= i < choice.shells.len(),
    ensures
        ({
            let choice = cad_step::selection_verdict(
                unit,
                Some(ids),
                None,
            )->Err_0->ChooseShell_0;
            let id = choice.shells[i].entity_id;
            &&& ids.contains(id)
            &&& cad_step::selection_verdict(unit, Some(ids), Some(id)) == Ok::<
                (Seq<u64>, nat),
                StepErrorView,
            >((seq![id], choice.shells.len()))
        }),
{
    cad_step::ascending_sorts(ids);
    let id = cad_step::ascending(ids)[i];
    assert(cad_step::ascending(ids).contains(id));
}

/// Every shell of a source that asks for a choice is offered.
pub proof fn every_shell_is_offered(unit: Seq<char>, ids: Seq<u64>, id: u64)
    requires
        cad_step::selection_verdict(unit, Some(ids), None) matches Err(
            StepErrorView::ChooseShell(_),
        ),
        ids.contains(id),
    ensures
        ({
            let choice = cad_step::selection_verdict(
                unit,
                Some(ids),
                None,
            )->Err_0->ChooseShell_0;
            &&& choice.declared_unit == unit
            &&& exists|i: int|
                0 <= i < choice.shells.len() && (#[trigger] choice.shells[i]).entity_id == id
        }),
{
    cad_step::ascending_sorts(ids);
    let sorted = cad_step::ascending(ids);
    assert(sorted.contains(id));
    let i = choose|i: int| 0 <= i < sorted.len() && sorted[i] == id;
    let choice = cad_step::selection_verdict(unit, Some(ids), None)->Err_0->ChooseShell_0;
    assert(choice.shells[i].entity_id == id);
}

/// `id` is among the shells that are offered.
pub open spec fn is_offered(choice: ShellChoiceView, id: u64) -> bool {
    exists|i: int| 0 <= i < choice.shells.len() && (#[trigger] choice.shells[i]).entity_id == id
}

/// The offered shells are between two and as many as are safe. Their ids ascend
/// strictly, and each is labelled with its number and its id.
pub open spec fn is_orderly(choice: ShellChoiceView) -> bool {
    &&& 2 <= choice.shells.len() <= MAX_SHELLS
    &&& forall|i: int, j: int|
        0 <= i < j < choice.shells.len() ==> (#[trigger] choice.shells[i]).entity_id < (
        #[trigger] choice.shells[j]).entity_id
    &&& forall|i: int|
        0 <= i < choice.shells.len() ==> (#[trigger] choice.shells[i]).label
            == cad_step::shell_label(i, choice.shells[i].entity_id)
}

/// Every choice is orderly, however often the translator names a shell.
pub proof fn offered_shells_ascend(unit: Seq<char>, ids: Seq<u64>)
    requires
        cad_step::selection_verdict(unit, Some(ids), None) matches Err(
            StepErrorView::ChooseShell(_),
        ),
    ensures
        is_orderly(
            cad_step::selection_verdict(unit, Some(ids), None)->Err_0->ChooseShell_0,
        ),
{
    cad_step::ascending_sorts(ids);
}

/// A message about a shell: its number, then what is the matter.
spec fn shell_message(id: nat, matter: Seq<char>) -> Seq<char> {
    "B-rep shell #"@ + text::decimal(id) + matter
}

/// Messages about shells that agree say the same.
proof fn lemma_shell_messages_agree(a: nat, b: nat, left: Seq<char>, right: Seq<char>)
    requires
        shell_message(a, left) == shell_message(b, right),
        left.len() > 0 && left[0] == ' ',
        right.len() > 0 && right[0] == ' ',
    ensures
        left == right,
{
    let start = "B-rep shell #"@.len() as int;
    let message = shell_message(a, left);
    let (m, n) = (text::decimal(a).len() as int, text::decimal(b).len() as int);
    text::lemma_decimal_digits(a);
    text::lemma_decimal_digits(b);
    assert(message[start + m] == left[0]);
    assert(message[start + n] == right[0]);
    if m < n {
        assert(message[start + m] == text::decimal(b)[m]);
        assert(text::is_digit(text::decimal(b)[m]));
    } else if n < m {
        assert(message[start + n] == text::decimal(a)[n]);
        assert(text::is_digit(text::decimal(a)[n]));
    }
    assert(left =~= message.subrange(start + m, message.len() as int));
    assert(right =~= message.subrange(start + n, message.len() as int));
}

/// Nothing that is said of facets is said of a missing shell.
proof fn lemma_facets_are_not_missing(facets: Seq<ShellFacets>, n: int, id: u64)
    requires
        0 <= n <= facets.len(),
    ensures
        cad_step::first_facets_fault(facets, n) != Some(cad_step::missing_shell_text(id)),
    decreases n,
{
    if n > 0 {
        lemma_facets_are_not_missing(facets, n - 1, id);
        let shell = facets[n - 1];
        let earlier = cad_step::triangle_count(facets, n - 1);
        lemma_triangles_are_not_missing(shell, earlier, shell.triangles@.len() as int, id);
        lemma_said_of_facets(shell, id);
    }
}

proof fn lemma_triangles_are_not_missing(shell: ShellFacets, earlier: nat, n: int, id: u64)
    requires
        0 <= n,
    ensures
        cad_step::triangles_fault(shell, earlier, n) != Some(cad_step::missing_shell_text(id)),
    decreases n,
{
    if n > 0 {
        lemma_triangles_are_not_missing(shell, earlier, n - 1, id);
        lemma_said_of_facets(shell, id);
    }
}

proof fn lemma_said_of_facets(shell: ShellFacets, id: u64)
    ensures
        ({
            let missing = cad_step::missing_shell_text(id);
            let number = shell.entity_id as nat;
            &&& shell_message(number, " produced an invalid vertex index"@) != missing
            &&& shell_message(number, " produced non-triangular facets"@) != missing
            &&& "STEP tessellation produced a non-finite coordinate"@ != missing
            &&& "STEP tessellation produced a coordinate outside the supported range"@ != missing
            &&& "STEP tessellation exceeds the safe limit of 250000 triangles; export a coarser tessellation or a simpler body"@
                != missing
        }),
{
    reveal_strlit("B-rep shell #");
    reveal_strlit(" was not found in this STEP file");
    reveal_strlit(" produced an invalid vertex index");
    reveal_strlit(" produced non-triangular facets");
    reveal_strlit("STEP tessellation produced a non-finite coordinate");
    reveal_strlit("STEP tessellation produced a coordinate outside the supported range");
    reveal_strlit(
        "STEP tessellation exceeds the safe limit of 250000 triangles; export a coarser tessellation or a simpler body",
    );
    let missing = cad_step::missing_shell_text(id);
    assert(missing[0] == 'B');
    let absent = " was not found in this STEP file"@;
    let number = shell.entity_id as nat;
    assert(absent[1] == 'w');
    if shell_message(number, " produced an invalid vertex index"@) == missing {
        lemma_shell_messages_agree(
            number,
            id as nat,
            " produced an invalid vertex index"@,
            absent,
        );
        assert(" produced an invalid vertex index"@[1] == 'p');
    }
    if shell_message(number, " produced non-triangular facets"@) == missing {
        lemma_shell_messages_agree(number, id as nat, " produced non-triangular facets"@, absent);
        assert(" produced non-triangular facets"@[1] == 'p');
    }
}

proof fn lemma_faults_are_not_missing(fault: TranslatorFault, id: u64)
    ensures
        cad_step::translator_fault_text(fault) != cad_step::missing_shell_text(id),
{
    reveal_strlit("B-rep shell #");
    reveal_strlit(" was not found in this STEP file");
    reveal_strlit(" is unsupported: ");
    reveal_strlit("STEP geometry has no finite, positive 3D extent");
    reveal_strlit("could not derive a finite STEP tessellation tolerance");
    reveal_strlit(
        "the STEP translator stopped unexpectedly; the source was not imported or modified",
    );
    let missing = cad_step::missing_shell_text(id);
    assert(missing[0] == 'B');
    match fault {
        TranslatorFault::UnsupportedShell { entity_id, reason } => {
            let matter = " is unsupported: "@ + reason@;
            let said = cad_step::translator_fault_text(fault);
            assert(said =~= shell_message(entity_id as nat, matter));
            assert(matter[1] == 'i');
            if said == missing {
                lemma_shell_messages_agree(
                    entity_id as nat,
                    id as nat,
                    matter,
                    " was not found in this STEP file"@,
                );
            }
        },
        _ => {},
    }
}

/// Where bytes lead to a choice, the choice is orderly and
/// is made once: with a shell picked, the same bytes are refused as missing it
/// exactly where it was not offered, and never lead to another choice, whatever
/// the translator makes of it.
pub proof fn only_missing_shells_are_not_found<M, T>(
    bytes: Seq<u8>,
    ids: Seq<u64>,
    whole: Tessellation<M, T>,
    id: u64,
    picked: Tessellation<M, T>,
)
    requires
        cad_step::imported_from(bytes, Some(ids), None, whole) matches Err(
            StepErrorView::ChooseShell(_),
        ),
    ensures
        ({
            let choice = cad_step::imported_from(
                bytes,
                Some(ids),
                None,
                whole,
            )->Err_0->ChooseShell_0;
            let outcome = cad_step::imported_from(bytes, Some(ids), Some(id), picked);
            &&& is_orderly(choice)
            &&& !(outcome matches Err(StepErrorView::ChooseShell(_)))
            &&& outcome == cad_step::refusal::<StepImportView<M, T>>(
                cad_step::missing_shell_text(id),
            ) <==> !is_offered(choice, id)
        }),
{
    let unit = cad_step::source_verdict(bytes)->Ok_0.1;
    let choice = cad_step::selection_verdict(unit, Some(ids), None)->Err_0->ChooseShell_0;
    offered_shells_ascend(unit, ids);
    lemma_faults_are_not_missing(TranslatorFault::Stopped, id);
    if ids.contains(id) {
        every_shell_is_offered(unit, ids, id);
        let facets = picked.facets@;
        lemma_facets_are_not_missing(facets, facets.len() as int, id);
        if let Some(fault) = picked.fault {
            lemma_faults_are_not_missing(fault, id);
        }
        lemma_no_triangles_is_not_missing(id);
    } else if is_offered(choice, id) {
        let i = choose|i: int|
            0 <= i < choice.shells.len() && (#[trigger] choice.shells[i]).entity_id == id;
        cad_step::ascending_sorts(ids);
        assert(cad_step::ascending(ids)[i] == id);
        assert(cad_step::ascending(ids).contains(id));
    }
}

proof fn lemma_no_triangles_is_not_missing(id: u64)
    ensures
        "STEP tessellation produced no triangles"@ != cad_step::missing_shell_text(id),
{
    reveal_strlit("B-rep shell #");
    reveal_strlit("STEP tessellation produced no triangles");
    assert(cad_step::missing_shell_text(id)[0] == 'B');
}

/// Listing the shells of bytes agrees with importing them without a pick: it
/// gives the choice, which is orderly, exactly where the import asks for one, the
/// message of a refusal, and says that there
/// is nothing to choose where the bytes are imported. No bytes at all are
/// refused as empty.
pub proof fn listing_agrees_with_importing<M, T>(
    bytes: Seq<u8>,
    ids: Option<Seq<u64>>,
    tessellation: Tessellation<M, T>,
)
    ensures
        ({
            let import = cad_step::imported_from(bytes, ids, None, tessellation);
            let listing = cad_step::listed(import);
            &&& listing is Ok <==> (import matches Err(StepErrorView::ChooseShell(_)))
            &&& import matches Err(StepErrorView::ChooseShell(choice)) ==> listing == Ok::<
                ShellChoiceView,
                Seq<char>,
            >(choice) && is_orderly(choice)
            &&& import matches Err(StepErrorView::Message(message)) ==> listing == Err::<
                ShellChoiceView,
                Seq<char>,
            >(message) && cad_step::parsed(import) == Err::<StepImportView<M, T>, Seq<char>>(
                message,
            )
            &&& import is Ok ==> listing == Err::<ShellChoiceView, Seq<char>>(
                "this STEP file has a single shell; no chooser is required"@,
            ) && cad_step::parsed(import) is Ok
            &&& bytes.len() == 0 ==> listing == Err::<ShellChoiceView, Seq<char>>(
                "STEP source is empty"@,
            )
        }),
{
    let import = cad_step::imported_from(bytes, ids, None, tessellation);
    if import matches Err(StepErrorView::ChooseShell(_)) {
        offered_shells_ascend(cad_step::source_verdict(bytes)->Ok_0.1, ids->Some_0);
    }
}

/// Two translators found the same wrong.
pub open spec fn same_fault(left: Option<TranslatorFault>, right: Option<TranslatorFault>) -> bool {
    match (left, right) {
        (None, None) => true,
        (
            Some(TranslatorFault::UnsupportedShell { entity_id: i, reason: a }),
            Some(TranslatorFault::UnsupportedShell { entity_id: j, reason: b }),
        ) => i == j && a@ == b@,
        (Some(left), Some(right)) => left == right,
        _ => false,
    }
}

/// Two translators made the same facets of a shell.
pub open spec fn same_facets(left: ShellFacets, right: ShellFacets) -> bool {
    &&& left.entity_id == right.entity_id
    &&& left.quad_faces == right.quad_faces
    &&& left.other_faces == right.other_faces
    &&& left.positions@ == right.positions@
    &&& left.triangles@ == right.triangles@
}

/// Two translators made the same of the selected shells.
pub open spec fn same_tessellation<M, T>(
    left: Tessellation<M, T>,
    right: Tessellation<M, T>,
) -> bool {
    &&& left.facets@.len() == right.facets@.len()
    &&& forall|i: int|
        #![trigger left.facets@[i]]
        #![trigger right.facets@[i]]
        0 <= i < left.facets@.len() ==> same_facets(left.facets@[i], right.facets@[i])
    &&& same_fault(left.fault, right.fault)
    &&& left.mesh == right.mesh
    &&& left.tolerance == right.tolerance
    &&& left.weld_tolerance == right.weld_tolerance
}

proof fn lemma_same_triangles(left: ShellFacets, right: ShellFacets, earlier: nat, n: int)
    requires
        same_facets(left, right),
    ensures
        cad_step::triangles_fault(left, earlier, n) == cad_step::triangles_fault(right, earlier, n),
    decreases n,
{
    if n > 0 {
        lemma_same_triangles(left, right, earlier, n - 1);
    }
}

proof fn lemma_same_shells<M, T>(left: Tessellation<M, T>, right: Tessellation<M, T>, n: int)
    requires
        same_tessellation(left, right),
        0 <= n <= left.facets@.len(),
    ensures
        cad_step::triangle_count(left.facets@, n) == cad_step::triangle_count(right.facets@, n),
        cad_step::first_facets_fault(left.facets@, n) == cad_step::first_facets_fault(
            right.facets@,
            n,
        ),
    decreases n,
{
    if n > 0 {
        lemma_same_shells(left, right, n - 1);
        let (a, b) = (left.facets@[n - 1], right.facets@[n - 1]);
        let earlier = cad_step::triangle_count(left.facets@, n - 1);
        lemma_same_triangles(a, b, earlier, a.triangles@.len() as int);
    }
}

/// Import is deterministic: the same bytes, of which the translator finds the
/// same shells in whatever order and makes the same, are imported alike, with
/// the same mesh, tolerances, unit, shell count and warnings, or are refused
/// alike.
pub proof fn equal_sources_import_alike<M, T>(
    first: Seq<u8>,
    second: Seq<u8>,
    left: Seq<u64>,
    right: Seq<u64>,
    selected: Option<u64>,
    once: Tessellation<M, T>,
    again: Tessellation<M, T>,
)
    requires
        first == second,
        left.to_multiset() == right.to_multiset(),
        same_tessellation(once, again),
    ensures
        cad_step::imported_from(first, Some(left), selected, once) == cad_step::imported_from(
            second,
            Some(right),
            selected,
            again,
        ),
{
    if cad_step::source_verdict(first) is Ok {
        let unit = cad_step::source_verdict(first)->Ok_0.1;
        shell_order_does_not_matter(unit, left, right, selected);
        lemma_same_shells(once, again, once.facets@.len() as int);
    }
}

/// Strictly ascending ids are told by what they hold.
pub(crate) proof fn lemma_ascending_unique(left: Seq<u64>, right: Seq<u64>)
    requires
        cad_step::is_ascending(left),
        cad_step::is_ascending(right),
        forall|id: u64| #[trigger] left.contains(id) <==> right.contains(id),
    ensures
        left == right,
    decreases left.len(),
{
    if left.len() == 0 {
        if right.len() > 0 {
            assert(right.contains(right[0]));
            assert(left.contains(right[0]));
        }
        assert(left =~= right);
    } else {
        let last = left.last();
        assert(left.contains(left[left.len() - 1]));
        assert(right.contains(last));
        let at = choose|at: int| 0 <= at < right.len() && right[at] == last;
        if at < right.len() - 1 {
            let more = right[right.len() - 1];
            assert(right.contains(more));
            assert(left.contains(more));
            assert(right[at] < more);
        }
        let (a, b) = (left.drop_last(), right.drop_last());
        assert forall|id: u64| #[trigger] a.contains(id) <==> b.contains(id) by {
            if a.contains(id) {
                let i = choose|i: int| 0 <= i < a.len() && a[i] == id;
                assert(left[i] == id && id < last);
                assert(left.contains(id));
                let j = choose|j: int| 0 <= j < right.len() && right[j] == id;
                assert(b[j] == id);
            }
            if b.contains(id) {
                let i = choose|i: int| 0 <= i < b.len() && b[i] == id;
                assert(right[i] == id && id < last);
                assert(right.contains(id));
                assert(left.contains(id));
                let j = choose|j: int| 0 <= j < left.len() && left[j] == id;
                assert(a[j] == id);
            }
        }
        lemma_ascending_unique(a, b);
        assert(left =~= a.push(last));
        assert(right =~= b.push(last));
    }
}

/// The order in which the translator lists the shells does not matter.
pub proof fn shell_order_does_not_matter(
    unit: Seq<char>,
    left: Seq<u64>,
    right: Seq<u64>,
    selected: Option<u64>,
)
    requires
        left.to_multiset() == right.to_multiset(),
    ensures
        cad_step::selection_verdict(unit, Some(left), selected) == cad_step::selection_verdict(
            unit,
            Some(right),
            selected,
        ),
{
    broadcast use vstd::seq_lib::group_to_multiset_ensures;

    cad_step::ascending_sorts(left);
    cad_step::ascending_sorts(right);
    assert(left.len() == left.to_multiset().len());
    assert(right.len() == right.to_multiset().len());
    assert forall|id: u64| left.contains(id) <==> right.contains(id) by {
        assert(left.contains(id) <==> left.to_multiset().count(id) > 0);
        assert(right.contains(id) <==> right.to_multiset().count(id) > 0);
    }
    lemma_ascending_unique(cad_step::ascending(left), cad_step::ascending(right));
}

/// The corner of a triangle is a usable position of its shell.
pub open spec fn is_sound_corner(facets: ShellFacets, position: usize) -> bool {
    position < facets.positions@.len() && facets.positions@[position as int] is Usable
}

/// Every facet of a shell is a triangle with usable corners.
pub open spec fn is_sound_shell(facets: ShellFacets) -> bool {
    &&& facets.quad_faces == 0 && facets.other_faces == 0
    &&& forall|m: int|
        0 <= m < facets.triangles@.len() ==> {
            let triangle = #[trigger] facets.triangles@[m];
            is_sound_corner(facets, triangle[0]) && is_sound_corner(facets, triangle[1])
                && is_sound_corner(facets, triangle[2])
        }
}

proof fn lemma_sound_triangles(facets: ShellFacets, earlier: nat, n: int, m: int)
    requires
        0 <= m < n,
        cad_step::triangles_fault(facets, earlier, n) is None,
    ensures
        cad_step::triangle_fault(facets, (earlier + m) as nat, facets.triangles@[m]) is None,
        earlier + m < MAX_TRIANGLES,
    decreases n,
{
    if m < n - 1 {
        lemma_sound_triangles(facets, earlier, n - 1, m);
    }
}

proof fn lemma_sound_shells(facets: Seq<ShellFacets>, n: int)
    requires
        0 <= n <= facets.len(),
        cad_step::first_facets_fault(facets, n) is None,
    ensures
        cad_step::triangle_count(facets, n) <= MAX_TRIANGLES,
        forall|i: int| 0 <= i < n ==> is_sound_shell(#[trigger] facets[i]),
    decreases n,
{
    if n > 0 {
        lemma_sound_shells(facets, n - 1);
        let shell = facets[n - 1];
        let earlier = cad_step::triangle_count(facets, n - 1);
        let count = shell.triangles@.len() as int;
        assert forall|m: int| 0 <= m < count implies {
            let triangle = #[trigger] shell.triangles@[m];
            is_sound_corner(shell, triangle[0]) && is_sound_corner(shell, triangle[1])
                && is_sound_corner(shell, triangle[2])
        } by {
            lemma_sound_triangles(shell, earlier, count, m);
        }
        if count > 0 {
            lemma_sound_triangles(shell, earlier, count, count - 1);
        }
    }
}

/// Whatever the translator did, what is imported is one body: it has between
/// one triangle and as many as are safe, all of them with usable corners, under
/// the unit that the source declares. It is the one shell of the source, or the
/// picked one, which is recorded with a warning about the others.
pub proof fn imports_are_one_sound_body<M, T>(
    unit: Seq<char>,
    shells: Option<Seq<u64>>,
    selected: Option<u64>,
    tessellation: Tessellation<M, T>,
)
    requires
        cad_step::import_verdict(unit, shells, selected, tessellation) is Ok,
    ensures
        ({
            let import = cad_step::import_verdict(unit, shells, selected, tessellation)->Ok_0;
            let facets = tessellation.facets@;
            &&& import.shell_count == 1
            &&& facets.len() == 1 && shells->Some_0.contains(facets[0].entity_id)
            &&& selected matches Some(id) ==> facets[0].entity_id == id
            &&& import.declared_unit == Some(unit)
            &&& import.selected_shell_entity_id == selected
            &&& selected is Some <==> import.warnings.len() > 0
            &&& 1 <= cad_step::triangle_count(facets, facets.len() as int) <= MAX_TRIANGLES
            &&& forall|i: int| 0 <= i < facets.len() ==> is_sound_shell(#[trigger] facets[i])
        }),
{
    lemma_sound_shells(tessellation.facets@, tessellation.facets@.len() as int);
    let ids = shells->Some_0;
    cad_step::ascending_sorts(ids);
    if selected is None {
        let sorted = cad_step::ascending(ids);
        assert(ids.contains(ids[0]));
        assert(sorted.contains(ids[0]));
        assert(sorted.contains(sorted[0]));
    }
}

/// A translator that stopped is never the source of an import.
pub proof fn stopped_translations_import_nothing<M, T>(
    unit: Seq<char>,
    shells: Option<Seq<u64>>,
    selected: Option<u64>,
    tessellation: Tessellation<M, T>,
)
    requires
        tessellation.fault is Some,
    ensures
        cad_step::import_verdict(unit, shells, selected, tessellation) is Err,
{
}

} // verus!

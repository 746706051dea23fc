//! What becomes of a STEP source, stage by stage, told from its size, its text,
//! its shells and their facets.

use crate::cad_step;
use crate::cad_step::{
    PositionClass, ShellCandidate, ShellCandidateView, ShellChoiceRequired, ShellChoiceView,
    ShellFacets, ShellSelection, StepErrorView, StepImport, StepImportView, StepParseError,
    StepSource, Tessellation, TranslatorFault,
};
use crate::step_laws;
use crate::step_lexis;
use crate::step_units;
use crate::step_units::LengthUnit;
use crate::text;
use vstd::prelude::*;

verus! {

/// `tenths` tenths of a mebibyte are nearest to `bytes`; of two that are equally
/// near, the even one.
pub open spec fn is_nearest(tenths: nat, bytes: nat) -> bool {
    let over = 10 * bytes - 1_048_576 * tenths;
    ||| -524_288 < over < 524_288
    ||| (over == 524_288 || over == -524_288) && tenths % 2 == 0
}

/// Which sizes are accepted: from one byte to 128 MiB. An empty source and one
/// that is larger are refused, the latter with its size to a tenth of a mebibyte.
pub proof fn sizes_are_bounded(bytes: nat, tenths: nat)
    ensures
        cad_step::size_fault(bytes) is None <==> 1 <= bytes <= 128 * 1_024 * 1_024,
        bytes == 0 ==> cad_step::size_fault(bytes) == Some("STEP source is empty"@),
        bytes > 128 * 1_024 * 1_024 && is_nearest(tenths, bytes) ==> cad_step::size_fault(bytes)
            == Some(
            "STEP source is "@ + text::decimal(tenths / 10) + "."@ + text::decimal(tenths % 10)
                + " MB; the safe import limit is 128 MB"@,
        ),
        is_nearest(cad_step::tenths_of_mebibyte(bytes), bytes),
{
    if is_nearest(tenths, bytes) {
        assert(tenths == cad_step::tenths_of_mebibyte(bytes));
    }
}

/// A small ASCII letter has its capital, and any other character is its own.
pub open spec fn is_capital_of(capital: char, c: char) -> bool {
    if 'a' <= c && c <= 'z' {
        capital as u32 == c as u32 - 32
    } else {
        capital == c
    }
}

/// Text in capitals, character by character.
pub open spec fn is_capitals(upper: Seq<char>, source: Seq<char>) -> bool {
    &&& upper.len() == source.len()
    &&& forall|i: int|
        0 <= i < source.len() ==> is_capital_of(#[trigger] upper[i], source[i])
}

proof fn lemma_capital(capital: char, c: char)
    requires
        is_capital_of(capital, c),
    ensures
        capital == text::ascii_upper(c),
{
}

proof fn lemma_capitals(upper: Seq<char>, source: Seq<char>)
    requires
        is_capitals(upper, source),
    ensures
        upper == source.map_values(|c: char| text::ascii_upper(c)),
{
    let mapped = source.map_values(|c: char| text::ascii_upper(c));
    assert forall|i: int| 0 <= i < source.len() implies upper[i] == #[trigger] mapped[i] by {
        assert(mapped[i] == text::ascii_upper(source[i]));
        assert(is_capital_of(upper[i], source[i]));
        lemma_capital(upper[i], source[i]);
    }
    assert(upper =~= mapped);
}

/// An entity of this kind is opened somewhere in the text.
pub open spec fn opens_one(upper: Seq<char>, keyword: Seq<char>) -> bool {
    exists|at: int|
        {
            &&& step_lexis::reads_to(upper, 0, at)
            &&& at > 0 ==> !step_lexis::is_word_char(upper[at - 1])
            &&& #[trigger] text::occurs_at(upper, keyword, at)
            &&& step_lexis::bracket_follows(upper, at + keyword.len())
        }
}

proof fn lemma_opens_one(upper: Seq<char>, keyword: Seq<char>)
    ensures
        step_lexis::has_entity(upper, keyword) <==> opens_one(upper, keyword),
{
    if step_lexis::has_entity(upper, keyword) {
        let at = choose|at: int| step_lexis::opens_entity(upper, keyword, at);
        assert(text::occurs_at(upper, keyword, at));
    }
    if opens_one(upper, keyword) {
        let at = choose|at: int|
            {
                &&& step_lexis::reads_to(upper, 0, at)
                &&& at > 0 ==> !step_lexis::is_word_char(upper[at - 1])
                &&& #[trigger] text::occurs_at(upper, keyword, at)
                &&& step_lexis::bracket_follows(upper, at + keyword.len())
            };
        assert(step_lexis::opens_entity(upper, keyword, at));
    }
}

/// A text that opens an entity of an assembly, or has its keyword directly before
/// a bracket.
pub open spec fn is_assembly(upper: Seq<char>) -> bool {
    ||| text::has_infix(upper, "NEXT_ASSEMBLY_USAGE_OCCURRENCE("@)
    ||| text::has_infix(upper, "CONTEXT_DEPENDENT_SHAPE_REPRESENTATION("@)
    ||| opens_one(upper, "NEXT_ASSEMBLY_USAGE_OCCURRENCE"@)
    ||| opens_one(upper, "CONTEXT_DEPENDENT_SHAPE_REPRESENTATION"@)
}

/// What a text is worth. With the header, without an assembly and with one known
/// unit it is accepted under the symbol of that unit. Otherwise it is refused: for
/// want of the header, then as an assembly, then for want of a unit or for what is
/// the matter with its units.
pub proof fn texts_are_checked(source: Seq<char>, upper: Seq<char>)
    requires
        is_capitals(upper, source),
    ensures
        ({
            let verdict = cad_step::text_verdict(source);
            let headed = text::has_infix(upper, "ISO-10303-21"@);
            let unit = step_units::length_unit(upper);
            &&& !headed ==> verdict == Err::<Seq<char>, Seq<char>>(
                "missing ISO-10303-21 exchange-file header"@,
            )
            &&& headed && is_assembly(upper) ==> verdict == Err::<Seq<char>, Seq<char>>(
                "assemblies are not supported yet; export one resolved part/body as STEP (or pick a single solid in CAD) and import that file — multi-body occurrence transforms are not preserved"@,
            )
            &&& headed && !is_assembly(upper) ==> {
                &&& unit == Ok::<Option<LengthUnit>, Seq<char>>(Some(LengthUnit::Millimetre))
                    ==> verdict == Ok::<Seq<char>, Seq<char>>("mm"@)
                &&& unit == Ok::<Option<LengthUnit>, Seq<char>>(Some(LengthUnit::Centimetre))
                    ==> verdict == Ok::<Seq<char>, Seq<char>>("cm"@)
                &&& unit == Ok::<Option<LengthUnit>, Seq<char>>(Some(LengthUnit::Metre))
                    ==> verdict == Ok::<Seq<char>, Seq<char>>("m"@)
                &&& unit == Ok::<Option<LengthUnit>, Seq<char>>(Some(LengthUnit::Inch)) ==> verdict
                    == Ok::<Seq<char>, Seq<char>>("in"@)
                &&& unit == Ok::<Option<LengthUnit>, Seq<char>>(Some(LengthUnit::Foot)) ==> verdict
                    == Ok::<Seq<char>, Seq<char>>("ft"@)
                &&& unit == Ok::<Option<LengthUnit>, Seq<char>>(None) ==> verdict == Err::<
                    Seq<char>,
                    Seq<char>,
                >(
                    "the STEP file has no unambiguous length-unit declaration; re-export it with explicit units"@,
                )
                &&& unit is Err ==> verdict == Err::<Seq<char>, Seq<char>>(unit->Err_0)
            }
        }),
{
    lemma_capitals(upper, source);
    lemma_opens_one(upper, "NEXT_ASSEMBLY_USAGE_OCCURRENCE"@);
    lemma_opens_one(upper, "CONTEXT_DEPENDENT_SHAPE_REPRESENTATION"@);
}

/// What bytes are worth: their size is looked at first, then the text that they
/// decode to, which is handed on as it is.
pub proof fn sources_are_checked(bytes: Seq<u8>)
    ensures
        ({
            let size = cad_step::size_fault(bytes.len());
            let text = cad_step::text_verdict(cad_step::lossy_text(bytes));
            let verdict = cad_step::source_verdict(bytes);
            &&& size is Some ==> verdict == Err::<(Seq<char>, Seq<char>), Seq<char>>(size->Some_0)
            &&& size is None && text is Err ==> verdict == Err::<
                (Seq<char>, Seq<char>),
                Seq<char>,
            >(text->Err_0)
            &&& size is None && text is Ok ==> verdict == Ok::<(Seq<char>, Seq<char>), Seq<char>>(
                (cad_step::lossy_text(bytes), text->Ok_0),
            )
        }),
{
}

/// `sorted` are the ids of `ids`, each once, in ascending order.
pub open spec fn sorts(sorted: Seq<u64>, ids: Seq<u64>) -> bool {
    &&& forall|i: int, j: int| 0 <= i < j < sorted.len() ==> sorted[i] < sorted[j]
    &&& forall|id: u64| #[trigger] sorted.contains(id) <==> ids.contains(id)
}

proof fn lemma_sorts(sorted: Seq<u64>, ids: Seq<u64>)
    requires
        sorts(sorted, ids),
    ensures
        cad_step::ascending(ids) == sorted,
{
    cad_step::ascending_sorts(ids);
    step_laws::lemma_ascending_unique(cad_step::ascending(ids), sorted);
}

/// Which shells are taken. Without a shell table, without shells and with more
/// than 256 the source is refused. A picked shell is taken alone, if the source
/// has it, and is refused by its number if not. Without a pick the only shell is
/// taken; where there are several, all of them are offered, by ascending id, each
/// labelled by its place and its id.
pub proof fn shells_are_selected(unit: Seq<char>, ids: Seq<u64>, sorted: Seq<u64>, id: u64, i: int)
    requires
        sorts(sorted, ids),
    ensures
        ({
            let none = cad_step::selection_verdict(unit, Some(ids), None);
            let picked = cad_step::selection_verdict(unit, Some(ids), Some(id));
            &&& cad_step::selection_verdict(unit, None, None) == Err::<
                (Seq<u64>, nat),
                StepErrorView,
            >(StepErrorView::Message("the STEP Part 21 data section could not be parsed"@))
            &&& cad_step::selection_verdict(unit, None, Some(id)) == cad_step::selection_verdict(
                unit,
                None,
                None,
            )
            &&& ids.len() == 0 ==> none == Err::<(Seq<u64>, nat), StepErrorView>(
                StepErrorView::Message(
                    "no B-rep shell was found; point clouds, wireframes, and surface-only STEP files are unsupported"@,
                ),
            ) && picked == none
            &&& ids.len() > 256 ==> none == Err::<(Seq<u64>, nat), StepErrorView>(
                StepErrorView::Message(
                    "the STEP file contains "@ + text::decimal(ids.len())
                        + " shells; the safe import limit is 256"@,
                ),
            ) && picked == none
            &&& 0 < ids.len() <= 256 ==> {
                &&& ids.contains(id) ==> picked == Ok::<(Seq<u64>, nat), StepErrorView>(
                    (seq![id], sorted.len()),
                )
                &&& !ids.contains(id) ==> picked == Err::<(Seq<u64>, nat), StepErrorView>(
                    StepErrorView::Message(
                        "B-rep shell #"@ + text::decimal(id as nat)
                            + " was not found in this STEP file"@,
                    ),
                )
                &&& sorted.len() == 1 ==> none == Ok::<(Seq<u64>, nat), StepErrorView>(
                    (sorted, 1),
                )
                &&& sorted.len() > 1 ==> {
                    &&& none matches Err(StepErrorView::ChooseShell(choice))
                    &&& choice.declared_unit == unit
                    &&& choice.shells.len() == sorted.len()
                    &&& 0 <= i < sorted.len() ==> choice.shells[i].entity_id == sorted[i]
                        && choice.shells[i].label == "Solid "@ + text::decimal((i + 1) as nat)
                        + " · shell #"@ + text::decimal(sorted[i] as nat)
                }
            }
        }),
{
    lemma_sorts(sorted, ids);
}

/// A source that has shells has at least one to take.
pub proof fn shells_are_never_lost(ids: Seq<u64>, sorted: Seq<u64>)
    requires
        sorts(sorted, ids),
    ensures
        sorted.len() == 0 <==> ids.len() == 0,
        sorted.len() <= ids.len(),
{
    lemma_sorts(sorted, ids);
    cad_step::ascending_sorts(ids);
    if ids.len() > 0 {
        assert(ids.contains(ids[0]));
        assert(sorted.contains(ids[0]));
    }
}

/// The one-line form of an error: a message as it is, a choice by its number of
/// shells and their labels.
pub proof fn errors_are_told(message: Seq<char>, choice: ShellChoiceView, labels: Seq<Seq<char>>)
    requires
        labels.len() == choice.shells.len(),
        forall|i: int| 0 <= i < labels.len() ==> #[trigger] labels[i] == choice.shells[i].label,
    ensures
        cad_step::error_text(StepErrorView::Message(message)) == message,
        cad_step::error_text(StepErrorView::ChooseShell(choice)) == "this STEP file contains "@
            + text::decimal(choice.shells.len())
            + " B-rep shells; choose one solid to analyze ("@ + text::join(labels, ", "@) + ")"@,
{
    assert(choice.shells.map_values(|shell: ShellCandidateView| shell.label) =~= labels);
}

/// What is said of each fault of the translator.
pub proof fn translator_faults_are_told(entity_id: u64, reason: String)
    ensures
        cad_step::translator_fault_text(TranslatorFault::Stopped)
            == "the STEP translator stopped unexpectedly; the source was not imported or modified"@,
        cad_step::translator_fault_text(TranslatorFault::NoExtent)
            == "STEP geometry has no finite, positive 3D extent"@,
        cad_step::translator_fault_text(TranslatorFault::NoTolerance)
            == "could not derive a finite STEP tessellation tolerance"@,
        cad_step::translator_fault_text((TranslatorFault::UnsupportedShell { entity_id, reason }))
            == "B-rep shell #"@ + text::decimal(entity_id as nat) + " is unsupported: "@ + reason@,
{
}

/// What is the matter with a corner that cannot be used.
pub open spec fn corner_complaint(facets: ShellFacets, position: usize) -> Seq<char> {
    if position >= facets.positions@.len() {
        "B-rep shell #"@ + text::decimal(facets.entity_id as nat)
            + " produced an invalid vertex index"@
    } else if facets.positions@[position as int] == PositionClass::NonFinite {
        "STEP tessellation produced a non-finite coordinate"@
    } else {
        "STEP tessellation produced a coordinate outside the supported range"@
    }
}

/// The triangle has three usable corners.
pub open spec fn is_sound_triangle(facets: ShellFacets, m: int) -> bool {
    forall|corner: int|
        0 <= corner < 3 ==> step_laws::is_sound_corner(
            facets,
            #[trigger] facets.triangles@[m]@[corner],
        )
}

proof fn lemma_corners(facets: ShellFacets, position: usize)
    ensures
        step_laws::is_sound_corner(facets, position) ==> cad_step::corner_fault(facets, position)
            is None,
        !step_laws::is_sound_corner(facets, position) ==> cad_step::corner_fault(facets, position)
            == Some(corner_complaint(facets, position)),
{
}

proof fn lemma_sound_triangle(facets: ShellFacets, earlier: nat, m: int)
    requires
        is_sound_triangle(facets, m),
        earlier < 250_000,
    ensures
        cad_step::triangle_fault(facets, earlier, facets.triangles@[m]) is None,
{
    let triangle = facets.triangles@[m];
    assert(step_laws::is_sound_corner(facets, triangle@[0]));
    assert(step_laws::is_sound_corner(facets, triangle@[1]));
    assert(step_laws::is_sound_corner(facets, triangle@[2]));
    lemma_corners(facets, triangle[0]);
    lemma_corners(facets, triangle[1]);
    lemma_corners(facets, triangle[2]);
}

proof fn lemma_sound_triangles(facets: ShellFacets, earlier: nat, n: int)
    requires
        0 <= n <= facets.triangles@.len(),
        n > 0 ==> earlier + n <= 250_000,
        forall|m: int| 0 <= m < n ==> #[trigger] is_sound_triangle(facets, m),
    ensures
        cad_step::triangles_fault(facets, earlier, n) is None,
    decreases n,
{
    if n > 0 {
        lemma_sound_triangles(facets, earlier, n - 1);
        assert(is_sound_triangle(facets, n - 1));
        lemma_sound_triangle(facets, (earlier + n - 1) as nat, n - 1);
    }
}

proof fn lemma_fault_lasts(facets: ShellFacets, earlier: nat, n: int, m: int)
    requires
        0 <= n <= m,
        cad_step::triangles_fault(facets, earlier, n) is Some,
    ensures
        cad_step::triangles_fault(facets, earlier, m) == cad_step::triangles_fault(
            facets,
            earlier,
            n,
        ),
    decreases m - n,
{
    if n < m {
        lemma_fault_lasts(facets, earlier, n, m - 1);
    }
}

/// What the facets of a shell are refused for. Facets that are not triangles come
/// first. Then, of the triangles in order, the first one beyond 250000 in all, or
/// the first corner that cannot be used. Nothing else is refused.
pub proof fn the_first_fault_is_told(facets: ShellFacets, earlier: nat, n: int, corner: int)
    requires
        0 <= n <= facets.triangles@.len(),
        forall|m: int| 0 <= m < n ==> #[trigger] is_sound_triangle(facets, m),
        n > 0 ==> earlier + n <= 250_000,
    ensures
        ({
            let fault = cad_step::facets_fault(facets, earlier);
            let plain = facets.quad_faces == 0 && facets.other_faces == 0;
            let last = n == facets.triangles@.len();
            &&& !plain ==> fault == Some(
                "B-rep shell #"@ + text::decimal(facets.entity_id as nat)
                    + " produced non-triangular facets"@,
            )
            &&& plain && last ==> fault is None
            &&& plain && !last && earlier + n >= 250_000 ==> fault == Some(
                "STEP tessellation exceeds the safe limit of 250000 triangles; export a coarser tessellation or a simpler body"@,
            )
            &&& plain && !last && earlier + n < 250_000 && 0 <= corner < 3
                && !step_laws::is_sound_corner(facets, facets.triangles@[n]@[corner]) && (forall|
                c: int,
            |
                0 <= c < corner ==> step_laws::is_sound_corner(
                    facets,
                    #[trigger] facets.triangles@[n]@[c],
                )) ==> fault == Some(corner_complaint(facets, facets.triangles@[n]@[corner]))
        }),
{
    lemma_sound_triangles(facets, earlier, n);
    if n < facets.triangles@.len() {
        let triangle = facets.triangles@[n];
        lemma_corners(facets, triangle[0]);
        lemma_corners(facets, triangle[1]);
        lemma_corners(facets, triangle[2]);
        let next = cad_step::triangles_fault(facets, earlier, n + 1);
        assert(next == cad_step::triangle_fault(facets, (earlier + n) as nat, triangle));
        if next is Some {
            lemma_fault_lasts(facets, earlier, n + 1, facets.triangles@.len() as int);
        }
        if 0 <= corner < 3 && (forall|c: int|
            0 <= c < corner ==> step_laws::is_sound_corner(
                facets,
                #[trigger] facets.triangles@[n]@[c],
            )) {
            if corner > 0 {
                assert(step_laws::is_sound_corner(facets, triangle@[0]));
            }
            if corner > 1 {
                assert(step_laws::is_sound_corner(facets, triangle@[1]));
            }
        }
    }
}

proof fn lemma_first_fault_lasts(facets: Seq<ShellFacets>, n: int, m: int)
    requires
        0 <= n <= m,
        cad_step::first_facets_fault(facets, n) is Some,
    ensures
        cad_step::first_facets_fault(facets, m) == cad_step::first_facets_fault(facets, n),
    decreases m - n,
{
    if n < m {
        lemma_first_fault_lasts(facets, n, m - 1);
    }
}

proof fn lemma_no_fault(facets: Seq<ShellFacets>, n: int)
    requires
        0 <= n <= facets.len(),
        forall|i: int|
            0 <= i < n ==> cad_step::facets_fault(
                #[trigger] facets[i],
                cad_step::triangle_count(facets, i),
            ) is None,
    ensures
        cad_step::first_facets_fault(facets, n) is None,
    decreases n,
{
    if n > 0 {
        lemma_no_fault(facets, n - 1);
        assert(cad_step::facets_fault(
            facets[n - 1],
            cad_step::triangle_count(facets, n - 1),
        ) is None);
    }
}

/// Shells are checked in order, and each with the triangles of those before it
/// counted; the first shell with a fault is told of.
pub proof fn shells_are_checked_in_order(facets: Seq<ShellFacets>, n: int)
    requires
        0 <= n <= facets.len(),
        forall|i: int|
            0 <= i < n ==> cad_step::facets_fault(
                #[trigger] facets[i],
                cad_step::triangle_count(facets, i),
            ) is None,
    ensures
        n == facets.len() ==> cad_step::first_facets_fault(facets, facets.len() as int) is None,
        n < facets.len() && cad_step::facets_fault(
            facets[n],
            cad_step::triangle_count(facets, n),
        ) is Some ==> cad_step::first_facets_fault(facets, facets.len() as int)
            == cad_step::facets_fault(facets[n], cad_step::triangle_count(facets, n)),
        cad_step::triangle_count(facets, 0) == 0,
        n < facets.len() ==> cad_step::triangle_count(facets, n + 1) == cad_step::triangle_count(
            facets,
            n,
        ) + facets[n].triangles@.len(),
{
    lemma_no_fault(facets, n);
    if n < facets.len() {
        let next = cad_step::first_facets_fault(facets, n + 1);
        if next is Some {
            lemma_first_fault_lasts(facets, n + 1, facets.len() as int);
        }
    }
}

/// What an opened source is imported as. What its shells are refused for comes
/// first, then the first fault of their facets, then what stopped the translator,
/// then an answer for other shells than the selected ones, then a mesh without
/// triangles. Otherwise it is imported: the mesh and its tolerances as the
/// translator made them, under the declared unit; a picked shell counts as one and
/// is recorded, with a warning that names it and the number of shells.
pub proof fn imports_hold_what_was_made<M, T>(
    unit: Seq<char>,
    shells: Option<Seq<u64>>,
    selected: Option<u64>,
    tessellation: Tessellation<M, T>,
)
    ensures
        ({
            let verdict = cad_step::import_verdict(unit, shells, selected, tessellation);
            let selection = cad_step::selection_verdict(unit, shells, selected);
            let facets = tessellation.facets@;
            let fault = cad_step::first_facets_fault(facets, facets.len() as int);
            let triangles = cad_step::triangle_count(facets, facets.len() as int);
            let answered = facets.len() == selection->Ok_0.0.len() && forall|i: int|
                0 <= i < facets.len() ==> (#[trigger] facets[i]).entity_id
                    == selection->Ok_0.0[i];
            &&& selection is Err ==> verdict == Err::<StepImportView<M, T>, StepErrorView>(
                selection->Err_0,
            )
            &&& selection is Ok && fault is Some ==> verdict == Err::<
                StepImportView<M, T>,
                StepErrorView,
            >(StepErrorView::Message(fault->Some_0))
            &&& selection is Ok && fault is None && tessellation.fault is Some ==> verdict == Err::<
                StepImportView<M, T>,
                StepErrorView,
            >(
                StepErrorView::Message(
                    cad_step::translator_fault_text(tessellation.fault->Some_0),
                ),
            )
            &&& selection is Ok && fault is None && tessellation.fault is None ==> {
                &&& !answered ==> verdict == Err::<StepImportView<M, T>, StepErrorView>(
                    StepErrorView::Message(
                        "the STEP translator stopped unexpectedly; the source was not imported or modified"@,
                    ),
                )
                &&& answered && triangles == 0 ==> verdict == Err::<
                    StepImportView<M, T>,
                    StepErrorView,
                >(StepErrorView::Message("STEP tessellation produced no triangles"@))
                &&& answered && triangles > 0 ==> {
                    &&& verdict matches Ok(import)
                    &&& import.mesh == tessellation.mesh
                    &&& import.declared_unit == Some(unit)
                    &&& import.tessellation_tolerance_source_units == tessellation.tolerance
                    &&& import.vertex_weld_relative_tolerance == tessellation.weld_tolerance
                    &&& import.selected_shell_entity_id == selected
                    &&& selected is None ==> import.shell_count == selection->Ok_0.1
                        && import.warnings.len() == 0
                    &&& selected is Some ==> import.shell_count == 1 && import.warnings == seq![
                        "Operator selected B-rep shell #"@ + text::decimal(
                            selected->Some_0 as nat,
                        ) + " from "@ + text::decimal(selection->Ok_0.1)
                            + " shells in the source; other shells were not analyzed."@,
                    ]
                }
            }
        }),
{
}

/// Bytes are imported as the source that they open, or refused as it is.
pub proof fn bytes_are_imported_as_their_source<M, T>(
    bytes: Seq<u8>,
    shells: Option<Seq<u64>>,
    selected: Option<u64>,
    tessellation: Tessellation<M, T>,
)
    ensures
        ({
            let source = cad_step::source_verdict(bytes);
            let import = cad_step::imported_from(bytes, shells, selected, tessellation);
            &&& source is Err ==> import == Err::<StepImportView<M, T>, StepErrorView>(
                StepErrorView::Message(source->Err_0),
            )
            &&& source is Ok ==> import == cad_step::import_verdict(
                source->Ok_0.1,
                shells,
                selected,
                tessellation,
            )
        }),
{
}

/// The one-line outcome of an import, and the shells that it offers.
pub proof fn outcomes_are_told<M, T>(
    import: StepImportView<M, T>,
    message: Seq<char>,
    choice: ShellChoiceView,
    error: StepErrorView,
)
    ensures
        cad_step::parsed(Ok::<StepImportView<M, T>, StepErrorView>(import)) == Ok::<
            StepImportView<M, T>,
            Seq<char>,
        >(import),
        cad_step::parsed(Err::<StepImportView<M, T>, StepErrorView>(error)) == Err::<
            StepImportView<M, T>,
            Seq<char>,
        >(cad_step::error_text(error)),
        cad_step::listed(Ok::<StepImportView<M, T>, StepErrorView>(import)) == Err::<
            ShellChoiceView,
            Seq<char>,
        >("this STEP file has a single shell; no chooser is required"@),
        cad_step::listed(
            Err::<StepImportView<M, T>, StepErrorView>(StepErrorView::Message(message)),
        ) == Err::<ShellChoiceView, Seq<char>>(message),
        cad_step::listed(
            Err::<StepImportView<M, T>, StepErrorView>(StepErrorView::ChooseShell(choice)),
        ) == Ok::<ShellChoiceView, Seq<char>>(choice),
{
}

/// What is said of candidates, choices, errors and imports is what they hold.
pub proof fn step_views_are_faithful<M, T>(
    candidate: ShellCandidate,
    choice: ShellChoiceRequired,
    import: StepImport<M, T>,
    message: String,
    i: int,
)
    ensures
        candidate@.entity_id == candidate.entity_id && candidate@.label == candidate.label@,
        choice@.declared_unit == choice.declared_unit@,
        choice@.shells.len() == choice.shells@.len(),
        0 <= i < choice.shells@.len() ==> choice@.shells[i] == choice.shells@[i]@,
        StepParseError::Message(message)@ == StepErrorView::Message(message@),
        StepParseError::ChooseShell(choice)@ == StepErrorView::ChooseShell(choice@),
        import@.mesh == import.mesh,
        import@.declared_unit is Some <==> import.declared_unit is Some,
        import.declared_unit matches Some(unit) ==> import@.declared_unit == Some(unit@),
        import@.tessellation_tolerance_source_units == import.tessellation_tolerance_source_units,
        import@.vertex_weld_relative_tolerance == import.vertex_weld_relative_tolerance,
        import@.shell_count == import.shell_count,
        import@.selected_shell_entity_id == import.selected_shell_entity_id,
        import@.warnings.len() == import.warnings@.len(),
        0 <= i < import.warnings@.len() ==> import@.warnings[i] == import.warnings@[i]@,
{
}

/// What is said of the outcome of a stage is what it holds.
pub proof fn stage_outcomes_are_faithful<M, T>(
    error: StepParseError,
    symbol: String,
    source: StepSource,
    selection: ShellSelection,
    import: StepImport<M, T>,
    choice: ShellChoiceRequired,
    ids: Vec<u64>,
    total: usize,
    message: Seq<char>,
)
    ensures
        cad_step::stage_outcome(Ok::<usize, StepParseError>(total)) == Ok::<usize, StepErrorView>(
            total,
        ),
        cad_step::stage_outcome(Err::<usize, StepParseError>(error)) == Err::<usize, StepErrorView>(
            error@,
        ),
        cad_step::refusal::<usize>(message) == Err::<usize, StepErrorView>(
            StepErrorView::Message(message),
        ),
        cad_step::symbol_outcome(Ok(symbol)) == Ok::<Seq<char>, StepErrorView>(symbol@),
        cad_step::symbol_outcome(Err(error)) == Err::<Seq<char>, StepErrorView>(error@),
        cad_step::as_error(Ok::<Seq<char>, Seq<char>>(message)) == Ok::<Seq<char>, StepErrorView>(
            message,
        ),
        cad_step::as_error(Err::<Seq<char>, Seq<char>>(message)) == Err::<
            Seq<char>,
            StepErrorView,
        >(StepErrorView::Message(message)),
        cad_step::source_outcome(Ok(source)) == Ok::<(Seq<char>, Seq<char>), StepErrorView>(
            (source.text@, source.declared_unit@),
        ),
        cad_step::source_outcome(Err(error)) == Err::<(Seq<char>, Seq<char>), StepErrorView>(
            error@,
        ),
        cad_step::selection_outcome(Ok(selection)) == Ok::<(Seq<u64>, nat), StepErrorView>(
            (selection.entity_ids@, selection.total_shells as nat),
        ),
        cad_step::selection_outcome(Err(error)) == Err::<(Seq<u64>, nat), StepErrorView>(error@),
        cad_step::import_outcome(Ok::<StepImport<M, T>, StepParseError>(import)) == Ok::<
            StepImportView<M, T>,
            StepErrorView,
        >(import@),
        cad_step::import_outcome(Err::<StepImport<M, T>, StepParseError>(error)) == Err::<
            StepImportView<M, T>,
            StepErrorView,
        >(error@),
        cad_step::parse_outcome(Ok::<StepImport<M, T>, String>(import)) == Ok::<
            StepImportView<M, T>,
            Seq<char>,
        >(import@),
        cad_step::parse_outcome(Err::<StepImport<M, T>, String>(symbol)) == Err::<
            StepImportView<M, T>,
            Seq<char>,
        >(symbol@),
        cad_step::listing_outcome(Ok(choice)) == Ok::<ShellChoiceView, Seq<char>>(choice@),
        cad_step::listing_outcome(Err(symbol)) == Err::<ShellChoiceView, Seq<char>>(symbol@),
        cad_step::optional_ids(Some(ids)) == Some(ids@),
        cad_step::optional_ids(None) is None,
        cad_step::optional_message(Some(symbol)) == Some(symbol@),
        cad_step::optional_message(None) is None,
{
}

} // verus!

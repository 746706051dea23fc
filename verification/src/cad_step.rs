//! STEP Part 21 import rules.
//!
//! Only single-part solids are supported. Assemblies are rejected, because
//! applying occurrence transforms incorrectly is worse than refusing the
//! import. The STEP bytes remain the authoritative project source; a triangle
//! mesh is a deterministic derived representation.
//!
//! The B-rep translator stops unexpectedly on some sources and works in
//! floating point, so it runs in the application. Each stage between two of
//! its steps is decided here: what is handed to it, and what becomes of its
//! answer.

use crate::step_lexis;
use crate::step_units;
use crate::text;
use vstd::prelude::*;
use vstd::slice::*;
use vstd::string::*;
use vstd::utf8::*;

verus! {

pub const TRANSLATOR: &'static str = "truck-stepio";

pub const TRANSLATOR_VERSION: &'static str = "0.3.0";

pub const MAX_STEP_BYTES: usize = 134_217_728;

pub const MAX_SHELLS: usize = 256;

pub const MAX_TRIANGLES: usize = 250_000;

/// One B-rep shell that can be chosen when a STEP file contains several
/// resolved solids without assembly occurrence transforms.
#[derive(Clone, Debug)]
pub struct ShellCandidate {
    pub entity_id: u64,
    pub label: String,
}

/// What a [`ShellCandidate`] says.
pub struct ShellCandidateView {
    pub entity_id: u64,
    pub label: Seq<char>,
}

impl View for ShellCandidate {
    type V = ShellCandidateView;

    open spec fn view(&self) -> ShellCandidateView {
        ShellCandidateView { entity_id: self.entity_id, label: self.label@ }
    }
}

/// Multi-shell STEP sources that are safe to pick from (no assembly graph).
#[derive(Clone, Debug)]
pub struct ShellChoiceRequired {
    pub declared_unit: String,
    pub shells: Vec<ShellCandidate>,
}

/// What a [`ShellChoiceRequired`] says.
pub struct ShellChoiceView {
    pub declared_unit: Seq<char>,
    pub shells: Seq<ShellCandidateView>,
}

impl View for ShellChoiceRequired {
    type V = ShellChoiceView;

    open spec fn view(&self) -> ShellChoiceView {
        ShellChoiceView {
            declared_unit: self.declared_unit@,
            shells: self.shells@.map_values(|shell: ShellCandidate| shell@),
        }
    }
}

#[derive(Clone, Debug)]
pub enum StepParseError {
    Message(String),
    ChooseShell(ShellChoiceRequired),
}

/// What a [`StepParseError`] says.
pub enum StepErrorView {
    Message(Seq<char>),
    ChooseShell(ShellChoiceView),
}

impl View for StepParseError {
    type V = StepErrorView;

    open spec fn view(&self) -> StepErrorView {
        match *self {
            StepParseError::Message(message) => StepErrorView::Message(message@),
            StepParseError::ChooseShell(choice) => StepErrorView::ChooseShell(choice@),
        }
    }
}

/// The one-line form of an import error.
pub open spec fn error_text(error: StepErrorView) -> Seq<char> {
    match error {
        StepErrorView::Message(message) => message,
        StepErrorView::ChooseShell(choice) => "this STEP file contains "@ + text::decimal(
            choice.shells.len(),
        ) + " B-rep shells; choose one solid to analyze ("@ + text::join(
            choice.shells.map_values(|shell: ShellCandidateView| shell.label),
            ", "@,
        ) + ")"@,
    }
}

fn join_labels(shells: &Vec<ShellCandidate>) -> (r: String)
    ensures
        r@ == text::join(
            shells@.map_values(|shell: ShellCandidate| shell@).map_values(
                |shell: ShellCandidateView| shell.label,
            ),
            ", "@,
        ),
{
    let mut out = String::new();
    let ghost labels = shells@.map_values(|shell: ShellCandidate| shell@).map_values(
        |shell: ShellCandidateView| shell.label,
    );
    let mut i: usize = 0;
    proof {
        assert(labels.take(0) =~= Seq::<Seq<char>>::empty());
    }
    while i < shells.len()
        invariant
            i <= shells@.len(),
            labels == shells@.map_values(|shell: ShellCandidate| shell@).map_values(
                |shell: ShellCandidateView| shell.label,
            ),
            out@ == text::join(labels.take(i as int), ", "@),
        decreases shells@.len() - i,
    {
        text::push_joined(
            &mut out,
            shells[i].label.as_str(),
            ", ",
            i == 0,
            Ghost(labels.take(i as int)),
        );
        proof {
            assert(labels.take(i + 1) =~= labels.take(i as int).push(labels[i as int]));
        }
        i += 1;
    }
    proof {
        assert(labels.take(i as int) =~= labels);
    }
    out
}

impl From<StepParseError> for String {
    fn from(value: StepParseError) -> (r: String)
        ensures
            r@ == error_text(value@),
    {
        match value {
            StepParseError::Message(message) => message,
            StepParseError::ChooseShell(choice) => {
                let mut out = "this STEP file contains ".to_owned();
                text::push_decimal(&mut out, choice.shells.len() as u64);
                out.append(" B-rep shells; choose one solid to analyze (");
                out.append(join_labels(&choice.shells).as_str());
                out.append(")");
                out
            },
        }
    }
}

impl vstd::std_specs::convert::FromSpecImpl<StepParseError> for String {
    open spec fn obeys_from_spec() -> bool {
        false
    }

    open spec fn from_spec(value: StepParseError) -> String {
        arbitrary()
    }
}

impl From<String> for StepParseError {
    fn from(message: String) -> (r: StepParseError)
        ensures
            r == StepParseError::Message(message),
    {
        Self::Message(message)
    }
}

impl vstd::std_specs::convert::FromSpecImpl<String> for StepParseError {
    open spec fn obeys_from_spec() -> bool {
        true
    }

    open spec fn from_spec(message: String) -> StepParseError {
        StepParseError::Message(message)
    }
}

impl From<&str> for StepParseError {
    fn from(message: &str) -> (r: StepParseError)
        ensures
            r@ == StepErrorView::Message(message@),
    {
        Self::Message(message.to_owned())
    }
}

impl vstd::std_specs::convert::FromSpecImpl<&str> for StepParseError {
    open spec fn obeys_from_spec() -> bool {
        false
    }

    open spec fn from_spec(message: &str) -> StepParseError {
        arbitrary()
    }
}

/// The outcome of an import stage, with its error by what it says.
pub open spec fn stage_outcome<T>(outcome: Result<T, StepParseError>) -> Result<T, StepErrorView> {
    match outcome {
        Ok(value) => Ok(value),
        Err(error) => Err(error@),
    }
}

/// The refusal that carries `message`.
pub open spec fn refusal<T>(message: Seq<char>) -> Result<T, StepErrorView> {
    Err(StepErrorView::Message(message))
}

fn refuse<T>(message: &str) -> (r: Result<T, StepParseError>)
    ensures
        stage_outcome(r) == refusal::<T>(message@),
{
    Err(StepParseError::Message(message.to_owned()))
}

/// A source that passed every check that its bytes allow.
pub struct StepSource {
    /// The decoded exchange file, for the translator.
    pub text: String,
    /// The symbol of the length unit that it declares.
    pub declared_unit: String,
}

/// The number of tenths of a mebibyte nearest to `bytes`, ties to even.
pub open spec fn tenths_of_mebibyte(bytes: nat) -> nat {
    let whole = bytes * 10 / 1_048_576;
    let rest = bytes * 10 % 1_048_576;
    if rest > 524_288 || (rest == 524_288 && whole % 2 == 1) {
        whole + 1
    } else {
        whole
    }
}

pub open spec fn oversize_text(bytes: nat) -> Seq<char> {
    "STEP source is "@ + text::decimal(tenths_of_mebibyte(bytes) / 10) + "."@ + text::decimal(
        tenths_of_mebibyte(bytes) % 10,
    ) + " MB; the safe import limit is 128 MB"@
}

/// Why a source of this size is refused, if it is.
pub open spec fn size_fault(bytes: nat) -> Option<Seq<char>> {
    if bytes == 0 {
        Some("STEP source is empty"@)
    } else if bytes > MAX_STEP_BYTES {
        Some(oversize_text(bytes))
    } else {
        None
    }
}

/// The file holds an assembly occurrence graph: a keyword of one directly before
/// a bracket, wherever it stands, or an entity of its kind, whatever white space
/// and comments stand between its keyword and its bracket.
pub open spec fn holds_assembly(upper: Seq<char>) -> bool {
    ||| text::has_infix(upper, "NEXT_ASSEMBLY_USAGE_OCCURRENCE("@)
    ||| text::has_infix(upper, "CONTEXT_DEPENDENT_SHAPE_REPRESENTATION("@)
    ||| step_lexis::has_entity(upper, "NEXT_ASSEMBLY_USAGE_OCCURRENCE"@)
    ||| step_lexis::has_entity(upper, "CONTEXT_DEPENDENT_SHAPE_REPRESENTATION"@)
}

pub open spec fn assembly_text() -> Seq<char> {
    "assemblies are not supported yet; export one resolved part/body as STEP (or pick a single solid in CAD) and import that file — multi-body occurrence transforms are not preserved"@
}

/// The symbol of the unit of an exchange file, or why the file is refused
/// before it is translated. Keywords are recognized in either case.
pub open spec fn text_verdict(source: Seq<char>) -> Result<Seq<char>, Seq<char>> {
    let upper = source.map_values(|c: char| text::ascii_upper(c));
    if !text::has_infix(upper, "ISO-10303-21"@) {
        Err("missing ISO-10303-21 exchange-file header"@)
    } else if holds_assembly(upper) {
        Err(assembly_text())
    } else {
        match step_units::by_symbol(step_units::length_unit(upper)) {
            Ok(Some(symbol)) => Ok(symbol),
            Ok(None) => Err(
                "the STEP file has no unambiguous length-unit declaration; re-export it with explicit units"@,
            ),
            Err(message) => Err(message),
        }
    }
}

fn oversize_message(bytes: usize) -> (r: String)
    ensures
        r@ == oversize_text(bytes as nat),
{
    let scaled: u128 = bytes as u128 * 10;
    let whole: u128 = scaled / 1_048_576;
    let rest: u128 = scaled % 1_048_576;
    let tenths: u128 = if rest > 524_288 || (rest == 524_288 && whole % 2 == 1) {
        whole + 1
    } else {
        whole
    };
    proof {
        assert(bytes as nat * 10 / 1_048_576 == whole);
        assert(bytes as nat * 10 % 1_048_576 == rest);
        assert(tenths / 10 <= u64::MAX);
    }
    let mut out = "STEP source is ".to_owned();
    text::push_decimal(&mut out, (tenths / 10) as u64);
    out.append(".");
    text::push_decimal(&mut out, (tenths % 10) as u64);
    out.append(" MB; the safe import limit is 128 MB");
    out
}

/// The outcome of reading an exchange file, with symbols and errors by what
/// they say.
pub open spec fn symbol_outcome(
    outcome: Result<String, StepParseError>,
) -> Result<Seq<char>, StepErrorView> {
    match outcome {
        Ok(symbol) => Ok(symbol@),
        Err(error) => Err(error@),
    }
}

pub open spec fn as_error<T>(verdict: Result<T, Seq<char>>) -> Result<T, StepErrorView> {
    match verdict {
        Ok(value) => Ok(value),
        Err(message) => Err(StepErrorView::Message(message)),
    }
}

/// Checks a decoded exchange file before translation: its header, that it holds
/// one resolved part, and its length unit, whose symbol it gives.
pub fn check_step_text(source: &str) -> (r: Result<String, StepParseError>)
    ensures
        symbol_outcome(r) == as_error(text_verdict(source@)),
{
    let chars = text::chars_of(source);
    let upper = text::to_upper(chars.as_slice());
    if !text::contains(upper.as_slice(), "ISO-10303-21") {
        return refuse("missing ISO-10303-21 exchange-file header");
    }
    if text::contains(upper.as_slice(), "NEXT_ASSEMBLY_USAGE_OCCURRENCE(") || text::contains(
        upper.as_slice(),
        "CONTEXT_DEPENDENT_SHAPE_REPRESENTATION(",
    ) || step_lexis::finds_entity(upper.as_slice(), "NEXT_ASSEMBLY_USAGE_OCCURRENCE")
        || step_lexis::finds_entity(upper.as_slice(), "CONTEXT_DEPENDENT_SHAPE_REPRESENTATION") {
        return refuse(
            "assemblies are not supported yet; export one resolved part/body as STEP (or pick a single solid in CAD) and import that file — multi-body occurrence transforms are not preserved",
        );
    }
    let upper = text::string_of(upper.as_slice());
    match step_units::detect_length_unit(upper.as_str()) {
        Ok(Some(symbol)) => Ok(symbol),
        Ok(None) => refuse(
            "the STEP file has no unambiguous length-unit declaration; re-export it with explicit units",
        ),
        Err(message) => Err(StepParseError::Message(message)),
    }
}

/// The text that bytes decode to when whatever is not UTF-8 is replaced.
pub uninterp spec fn lossy_text(bytes: Seq<u8>) -> Seq<char>;

/// `String::from_utf8_lossy`: valid UTF-8 decodes to exactly what it encodes.
/// Of other bytes it is only said that the text depends on nothing else.
#[verifier::external_body]
fn decode_lossy(bytes: &[u8]) -> (r: String)
    ensures
        r@ == lossy_text(bytes@),
        valid_utf8(bytes@) ==> r@ == decode_utf8(bytes@),
{
    String::from_utf8_lossy(bytes).into_owned()
}

/// The text and the unit symbol of a source, or why it is refused before it is
/// translated.
pub open spec fn source_verdict(bytes: Seq<u8>) -> Result<(Seq<char>, Seq<char>), Seq<char>> {
    match size_fault(bytes.len()) {
        Some(message) => Err(message),
        None => match text_verdict(lossy_text(bytes)) {
            Ok(symbol) => Ok((lossy_text(bytes), symbol)),
            Err(message) => Err(message),
        },
    }
}

/// The outcome of opening a source, with strings and errors by what they say.
pub open spec fn source_outcome(
    outcome: Result<StepSource, StepParseError>,
) -> Result<(Seq<char>, Seq<char>), StepErrorView> {
    match outcome {
        Ok(source) => Ok((source.text@, source.declared_unit@)),
        Err(error) => Err(error@),
    }
}

/// Decodes a source and checks everything that does not need the translator.
///
/// ISO 10303-21 control syntax is ASCII. Lossy decoding preserves that syntax
/// while tolerating legacy vendor comments or names in local encodings.
pub fn open_step_source(bytes: &[u8]) -> (r: Result<StepSource, StepParseError>)
    ensures
        source_outcome(r) == as_error(source_verdict(bytes@)),
        size_fault(bytes@.len()) is None && valid_utf8(bytes@) ==> lossy_text(bytes@)
            == decode_utf8(bytes@),
{
    if bytes.len() == 0 {
        return refuse("STEP source is empty");
    }
    if bytes.len() > MAX_STEP_BYTES {
        return Err(StepParseError::Message(oversize_message(bytes.len())));
    }
    let text = decode_lossy(bytes);
    match check_step_text(text.as_str()) {
        Ok(declared_unit) => Ok(StepSource { text, declared_unit }),
        Err(error) => Err(error),
    }
}

/// `sorted` with `id` at its place, once.
pub open spec fn insert_ascending(sorted: Seq<u64>, id: u64) -> Seq<u64>
    decreases sorted.len(),
{
    if sorted.len() == 0 || sorted.last() < id {
        sorted.push(id)
    } else if sorted.last() == id {
        sorted
    } else {
        insert_ascending(sorted.drop_last(), id).push(sorted.last())
    }
}

/// `ids` in ascending order, each once.
pub open spec fn ascending(ids: Seq<u64>) -> Seq<u64>
    decreases ids.len(),
{
    if ids.len() == 0 {
        Seq::empty()
    } else {
        insert_ascending(ascending(ids.drop_last()), ids.last())
    }
}

pub open spec fn is_ascending(ids: Seq<u64>) -> bool {
    forall|i: int, j: int| 0 <= i < j < ids.len() ==> ids[i] < ids[j]
}

proof fn lemma_push_contains(ids: Seq<u64>, id: u64, other: u64)
    ensures
        ids.push(id).contains(other) <==> ids.contains(other) || other == id,
{
    let all = ids.push(id);
    if ids.contains(other) {
        let i = choose|i: int| 0 <= i < ids.len() && ids[i] == other;
        assert(all[i] == other);
    }
    if other == id {
        assert(all[ids.len() as int] == other);
    }
    if all.contains(other) {
        let i = choose|i: int| 0 <= i < all.len() && all[i] == other;
        if i < ids.len() {
            assert(ids[i] == other);
        }
    }
}

proof fn lemma_insert_ascending(sorted: Seq<u64>, id: u64)
    requires
        is_ascending(sorted),
    ensures
        is_ascending(insert_ascending(sorted, id)),
        insert_ascending(sorted, id).len() <= sorted.len() + 1,
        forall|other: u64| #[trigger]
            insert_ascending(sorted, id).contains(other) <==> sorted.contains(other) || other == id,
    decreases sorted.len(),
{
    let all = insert_ascending(sorted, id);
    if sorted.len() == 0 || sorted.last() < id {
        assert forall|other: u64| #[trigger]
            all.contains(other) <==> sorted.contains(other) || other == id by {
            lemma_push_contains(sorted, id, other);
        }
    } else if sorted.last() == id {
        assert(sorted[sorted.len() - 1] == id);
    } else {
        let rest = sorted.drop_last();
        let last = sorted.last();
        lemma_insert_ascending(rest, id);
        let inner = insert_ascending(rest, id);
        assert(sorted =~= rest.push(last));
        assert forall|other: u64| #[trigger]
            all.contains(other) <==> sorted.contains(other) || other == id by {
            lemma_push_contains(inner, last, other);
            lemma_push_contains(rest, last, other);
        }
        assert forall|i: int| 0 <= i < inner.len() implies inner[i] < last by {
            assert(inner.contains(inner[i]));
            if inner[i] != id {
                let j = choose|j: int| 0 <= j < rest.len() && rest[j] == inner[i];
                assert(sorted[j] < sorted[sorted.len() - 1]);
            }
        }
    }
}

/// `ascending` gives the same ids, each once, in strictly ascending order.
pub proof fn ascending_sorts(ids: Seq<u64>)
    ensures
        is_ascending(ascending(ids)),
        ascending(ids).len() <= ids.len(),
        forall|id: u64| #[trigger] ascending(ids).contains(id) <==> ids.contains(id),
    decreases ids.len(),
{
    if ids.len() > 0 {
        let rest = ids.drop_last();
        ascending_sorts(rest);
        lemma_insert_ascending(ascending(rest), ids.last());
        assert(ids =~= rest.push(ids.last()));
        assert forall|id: u64| #[trigger] ascending(ids).contains(id) <==> ids.contains(id) by {
            lemma_push_contains(rest, ids.last(), id);
        }
    }
}

proof fn lemma_insert_at(sorted: Seq<u64>, id: u64, at: int)
    requires
        0 <= at <= sorted.len(),
        at > 0 ==> sorted[at - 1] <= id,
        forall|j: int| at <= j < sorted.len() ==> sorted[j] > id,
    ensures
        insert_ascending(sorted, id) == if at > 0 && sorted[at - 1] == id {
            sorted
        } else {
            sorted.insert(at, id)
        },
    decreases sorted.len(),
{
    if at < sorted.len() {
        let rest = sorted.drop_last();
        lemma_insert_at(rest, id, at);
        assert(rest.push(sorted.last()) =~= sorted);
        assert(rest.insert(at, id).push(sorted.last()) =~= sorted.insert(at, id));
    } else {
        assert(sorted.insert(at, id) =~= sorted.push(id));
    }
}

/// `ids` in ascending order, each once.
fn sort_ascending(ids: &Vec<u64>) -> (r: Vec<u64>)
    ensures
        r@ == ascending(ids@),
{
    let mut out: Vec<u64> = Vec::new();
    let mut i: usize = 0;
    proof {
        assert(ids@.take(0) =~= Seq::<u64>::empty());
    }
    while i < ids.len()
        invariant
            i <= ids@.len(),
            out@ == ascending(ids@.take(i as int)),
        decreases ids@.len() - i,
    {
        let id: u64 = ids[i];
        let mut at: usize = out.len();
        while at > 0 && out[at - 1] > id
            invariant
                at <= out@.len(),
                forall|j: int| at <= j < out@.len() ==> out@[j] > id,
            decreases at,
        {
            at -= 1;
        }
        proof {
            lemma_insert_at(out@, id, at as int);
            assert(ids@.take(i + 1).drop_last() =~= ids@.take(i as int));
            assert(ids@.take(i + 1).last() == id);
        }
        if at == 0 || out[at - 1] != id {
            out.insert(at, id);
        }
        i += 1;
    }
    proof {
        assert(ids@.take(i as int) =~= ids@);
    }
    out
}

/// The shells of a source that are to be translated.
pub struct ShellSelection {
    /// Their entity ids, in ascending order.
    pub entity_ids: Vec<u64>,
    /// How many shells the source holds.
    pub total_shells: usize,
}

pub open spec fn shell_label(index: int, entity_id: u64) -> Seq<char> {
    "Solid "@ + text::decimal((index + 1) as nat) + " · shell #"@ + text::decimal(entity_id as nat)
}

/// The shells to pick from, in ascending order of their ids.
pub open spec fn shell_candidates(ids: Seq<u64>) -> Seq<ShellCandidateView> {
    Seq::new(
        ids.len(),
        |i: int| ShellCandidateView { entity_id: ids[i], label: shell_label(i, ids[i]) },
    )
}

pub open spec fn missing_shell_text(id: u64) -> Seq<char> {
    "B-rep shell #"@ + text::decimal(id as nat) + " was not found in this STEP file"@
}

/// Which shells of a translated source are taken, and of how many, or why the
/// source is refused. `shells` is `None` where its data section could not be
/// parsed, and names each shell at least once otherwise; `selected` is the shell that the operator picked, if any.
pub open spec fn selection_verdict(
    declared_unit: Seq<char>,
    shells: Option<Seq<u64>>,
    selected: Option<u64>,
) -> Result<(Seq<u64>, nat), StepErrorView> {
    match shells {
        None => refusal("the STEP Part 21 data section could not be parsed"@),
        Some(ids) => {
            let sorted = ascending(ids);
            if ids.len() == 0 {
                refusal(
                    "no B-rep shell was found; point clouds, wireframes, and surface-only STEP files are unsupported"@,
                )
            } else if ids.len() > MAX_SHELLS {
                refusal(
                    "the STEP file contains "@ + text::decimal(ids.len())
                        + " shells; the safe import limit is 256"@,
                )
            } else {
                match selected {
                    None => if sorted.len() > 1 {
                        Err(
                            StepErrorView::ChooseShell(
                                ShellChoiceView { declared_unit, shells: shell_candidates(sorted) },
                            ),
                        )
                    } else {
                        Ok((sorted, sorted.len()))
                    },
                    Some(id) => if ids.contains(id) {
                        Ok((seq![id], sorted.len()))
                    } else {
                        refusal(missing_shell_text(id))
                    },
                }
            }
        },
    }
}

/// The ids of a shell table, if there is one.
pub open spec fn optional_ids(shells: Option<Vec<u64>>) -> Option<Seq<u64>> {
    match shells {
        Some(ids) => Some(ids@),
        None => None,
    }
}

/// The outcome of a selection, with its errors by what they say.
pub open spec fn selection_outcome(
    outcome: Result<ShellSelection, StepParseError>,
) -> Result<(Seq<u64>, nat), StepErrorView> {
    match outcome {
        Ok(selection) => Ok((selection.entity_ids@, selection.total_shells as nat)),
        Err(error) => Err(error@),
    }
}

fn list_candidates(sorted: &Vec<u64>) -> (r: Vec<ShellCandidate>)
    ensures
        r@.map_values(|shell: ShellCandidate| shell@) == shell_candidates(sorted@),
{
    let mut out: Vec<ShellCandidate> = Vec::new();
    let mut i: usize = 0;
    while i < sorted.len()
        invariant
            i <= sorted@.len(),
            out@.len() == i,
            forall|j: int|
                0 <= j < i ==> (#[trigger] out@[j])@ == (ShellCandidateView {
                    entity_id: sorted@[j],
                    label: shell_label(j, sorted@[j]),
                }),
        decreases sorted@.len() - i,
    {
        let mut label = "Solid ".to_owned();
        text::push_decimal(&mut label, i as u64 + 1);
        label.append(" · shell #");
        text::push_decimal(&mut label, sorted[i]);
        out.push(ShellCandidate { entity_id: sorted[i], label });
        i += 1;
    }
    proof {
        assert(out@.map_values(|shell: ShellCandidate| shell@) =~= shell_candidates(sorted@));
    }
    out
}

fn holds_id(ids: &Vec<u64>, id: u64) -> (r: bool)
    ensures
        r == ids@.contains(id),
{
    let mut i: usize = 0;
    while i < ids.len()
        invariant
            i <= ids@.len(),
            forall|j: int| 0 <= j < i ==> ids@[j] != id,
        decreases ids@.len() - i,
    {
        if ids[i] == id {
            return true;
        }
        i += 1;
    }
    false
}

/// Decides which shells are translated, given the entity ids of the shells that
/// the translator found, in any order.
pub fn select_shells(
    declared_unit: &str,
    shells: Option<Vec<u64>>,
    selected_shell_entity_id: Option<u64>,
) -> (r: Result<ShellSelection, StepParseError>)
    ensures
        selection_outcome(r) == selection_verdict(
            declared_unit@,
            optional_ids(shells),
            selected_shell_entity_id,
        ),
{
    let ids = match shells {
        Some(ids) => ids,
        None => return refuse("the STEP Part 21 data section could not be parsed"),
    };
    if ids.len() == 0 {
        return refuse(
            "no B-rep shell was found; point clouds, wireframes, and surface-only STEP files are unsupported",
        );
    }
    if ids.len() > MAX_SHELLS {
        let mut message = "the STEP file contains ".to_owned();
        text::push_decimal(&mut message, ids.len() as u64);
        message.append(" shells; the safe import limit is 256");
        return Err(StepParseError::Message(message));
    }
    let sorted = sort_ascending(&ids);
    let total_shells: usize = sorted.len();
    match selected_shell_entity_id {
        None => {
            if total_shells > 1 {
                return Err(
                    StepParseError::ChooseShell(
                        ShellChoiceRequired {
                            declared_unit: declared_unit.to_owned(),
                            shells: list_candidates(&sorted),
                        },
                    ),
                );
            }
            Ok(ShellSelection { entity_ids: sorted, total_shells })
        },
        Some(selected) => {
            if !holds_id(&ids, selected) {
                let mut message = "B-rep shell #".to_owned();
                text::push_decimal(&mut message, selected);
                message.append(" was not found in this STEP file");
                return Err(StepParseError::Message(message));
            }
            let mut entity_ids: Vec<u64> = Vec::new();
            entity_ids.push(selected);
            proof {
                assert(entity_ids@ =~= seq![selected]);
            }
            Ok(ShellSelection { entity_ids, total_shells })
        },
    }
}

/// What the translator could not do.
pub enum TranslatorFault {
    /// It stopped unexpectedly.
    Stopped,
    /// It refused a shell, with this reason.
    UnsupportedShell { entity_id: u64, reason: String },
    /// The vertices of the shells span nothing, or nothing finite.
    NoExtent,
    /// The chord tolerance that follows from the extent is not positive and
    /// finite.
    NoTolerance,
}

pub open spec fn translator_fault_text(fault: TranslatorFault) -> Seq<char> {
    match fault {
        TranslatorFault::Stopped => "the STEP translator stopped unexpectedly; the source was not imported or modified"@,
        TranslatorFault::UnsupportedShell { entity_id, reason } => "B-rep shell #"@ + text::decimal(
            entity_id as nat,
        ) + " is unsupported: "@ + reason@,
        TranslatorFault::NoExtent => "STEP geometry has no finite, positive 3D extent"@,
        TranslatorFault::NoTolerance => "could not derive a finite STEP tessellation tolerance"@,
    }
}

/// The import error for a fault of the translator.
pub fn translator_error(fault: TranslatorFault) -> (r: StepParseError)
    ensures
        r@ == StepErrorView::Message(translator_fault_text(fault)),
{
    let message = match fault {
        TranslatorFault::Stopped => "the STEP translator stopped unexpectedly; the source was not imported or modified".to_owned(),
        TranslatorFault::UnsupportedShell { entity_id, reason } => {
            let mut out = "B-rep shell #".to_owned();
            text::push_decimal(&mut out, entity_id);
            out.append(" is unsupported: ");
            out.append(reason.as_str());
            out
        },
        TranslatorFault::NoExtent => "STEP geometry has no finite, positive 3D extent".to_owned(),
        TranslatorFault::NoTolerance => "could not derive a finite STEP tessellation tolerance".to_owned(),
    };
    StepParseError::Message(message)
}

/// What a tessellated position is worth as a mesh vertex.
#[derive(Clone, Copy, Debug, PartialEq, Eq, Structural)]
pub enum PositionClass {
    Usable,
    /// A coordinate is not finite.
    NonFinite,
    /// A coordinate is outside the range of the mesh.
    OutOfRange,
}

/// The facets that the translator made of one shell.
pub struct ShellFacets {
    pub entity_id: u64,
    pub quad_faces: usize,
    pub other_faces: usize,
    /// What each position is worth.
    pub positions: Vec<PositionClass>,
    /// The triangles, each by the positions of its corners.
    pub triangles: Vec<[usize; 3]>,
}

pub open spec fn corner_fault(facets: ShellFacets, position: usize) -> Option<Seq<char>> {
    if position >= facets.positions@.len() {
        Some(
            "B-rep shell #"@ + text::decimal(facets.entity_id as nat)
                + " produced an invalid vertex index"@,
        )
    } else {
        match facets.positions@[position as int] {
            PositionClass::Usable => None,
            PositionClass::NonFinite => Some("STEP tessellation produced a non-finite coordinate"@),
            PositionClass::OutOfRange => Some(
                "STEP tessellation produced a coordinate outside the supported range"@,
            ),
        }
    }
}

/// What is wrong with a triangle, `earlier` others having been accepted.
pub open spec fn triangle_fault(
    facets: ShellFacets,
    earlier: nat,
    triangle: [usize; 3],
) -> Option<Seq<char>> {
    if earlier >= MAX_TRIANGLES {
        Some(
            "STEP tessellation exceeds the safe limit of 250000 triangles; export a coarser tessellation or a simpler body"@,
        )
    } else if corner_fault(facets, triangle[0]) is Some {
        corner_fault(facets, triangle[0])
    } else if corner_fault(facets, triangle[1]) is Some {
        corner_fault(facets, triangle[1])
    } else {
        corner_fault(facets, triangle[2])
    }
}

/// The first thing wrong with the first `n` triangles.
pub open spec fn triangles_fault(facets: ShellFacets, earlier: nat, n: int) -> Option<Seq<char>>
    decreases n,
{
    if n <= 0 {
        None
    } else if triangles_fault(facets, earlier, n - 1) is Some {
        triangles_fault(facets, earlier, n - 1)
    } else {
        triangle_fault(facets, (earlier + n - 1) as nat, facets.triangles@[n - 1])
    }
}

/// Why the facets of a shell are refused, if they are.
pub open spec fn facets_fault(facets: ShellFacets, earlier: nat) -> Option<Seq<char>> {
    if facets.quad_faces > 0 || facets.other_faces > 0 {
        Some(
            "B-rep shell #"@ + text::decimal(facets.entity_id as nat)
                + " produced non-triangular facets"@,
        )
    } else {
        triangles_fault(facets, earlier, facets.triangles@.len() as int)
    }
}

fn numbered(before: &str, number: u64, after: &str) -> (r: String)
    ensures
        r@ == before@ + text::decimal(number as nat) + after@,
{
    let mut out = before.to_owned();
    text::push_decimal(&mut out, number);
    out.append(after);
    out
}

fn check_corner(facets: &ShellFacets, position: usize) -> (r: Option<String>)
    ensures
        optional_message(r) == corner_fault(*facets, position),
{
    if position >= facets.positions.len() {
        return Some(
            numbered("B-rep shell #", facets.entity_id, " produced an invalid vertex index"),
        );
    }
    match facets.positions[position] {
        PositionClass::Usable => None,
        PositionClass::NonFinite => Some(
            "STEP tessellation produced a non-finite coordinate".to_owned(),
        ),
        PositionClass::OutOfRange => Some(
            "STEP tessellation produced a coordinate outside the supported range".to_owned(),
        ),
    }
}

pub open spec fn optional_message(message: Option<String>) -> Option<Seq<char>> {
    match message {
        Some(message) => Some(message@),
        None => None,
    }
}

/// Checks the facets of one shell, `earlier` triangles of other shells having
/// been accepted, and gives the number of triangles accepted so far.
pub fn check_shell_facets(facets: &ShellFacets, earlier: usize) -> (r: Result<
    usize,
    StepParseError,
>)
    ensures
        stage_outcome(r) == (match facets_fault(*facets, earlier as nat) {
            Some(message) => refusal::<usize>(message),
            None => Ok((earlier + facets.triangles@.len()) as usize),
        }),
        r matches Ok(total) ==> total == earlier + facets.triangles@.len(),
        facets.triangles@.len() > 0 ==> (r matches Ok(total) ==> total <= MAX_TRIANGLES),
{
    if facets.quad_faces > 0 || facets.other_faces > 0 {
        return Err(
            StepParseError::Message(
                numbered("B-rep shell #", facets.entity_id, " produced non-triangular facets"),
            ),
        );
    }
    let mut n: usize = 0;
    while n < facets.triangles.len()
        invariant
            n <= facets.triangles@.len(),
            facets.quad_faces == 0 && facets.other_faces == 0,
            triangles_fault(*facets, earlier as nat, n as int) is None,
            n > 0 ==> earlier + n <= MAX_TRIANGLES,
        decreases facets.triangles@.len() - n,
    {
        let ghost fault = triangle_fault(
            *facets,
            (earlier + n) as nat,
            facets.triangles@[n as int],
        );
        proof {
            assert(triangles_fault(*facets, earlier as nat, n + 1) == fault);
            if fault is Some {
                lemma_fault_stays(
                    *facets,
                    earlier as nat,
                    n + 1,
                    facets.triangles@.len() as int,
                );
            }
        }
        if earlier + n >= MAX_TRIANGLES {
            return refuse(
                "STEP tessellation exceeds the safe limit of 250000 triangles; export a coarser tessellation or a simpler body",
            );
        }
        let triangle: [usize; 3] = facets.triangles[n];
        let mut message = check_corner(facets, triangle[0]);
        if message.is_none() {
            message = check_corner(facets, triangle[1]);
        }
        if message.is_none() {
            message = check_corner(facets, triangle[2]);
        }
        if let Some(message) = message {
            return Err(StepParseError::Message(message));
        }
        n += 1;
    }
    Ok(earlier + facets.triangles.len())
}

proof fn lemma_fault_stays(facets: ShellFacets, earlier: nat, n: int, m: int)
    requires
        0 <= n <= m,
        triangles_fault(facets, earlier, n) is Some,
    ensures
        triangles_fault(facets, earlier, m) == triangles_fault(facets, earlier, n),
    decreases m - n,
{
    if n < m {
        lemma_fault_stays(facets, earlier, n, m - 1);
    }
}

/// An imported part. `M` is its triangle mesh and `T` a tessellation tolerance.
#[derive(Clone, Debug)]
pub struct StepImport<M, T> {
    pub mesh: M,
    pub declared_unit: Option<String>,
    pub tessellation_tolerance_source_units: T,
    pub vertex_weld_relative_tolerance: T,
    pub shell_count: usize,
    pub selected_shell_entity_id: Option<u64>,
    pub warnings: Vec<String>,
}

/// What a [`StepImport`] holds.
pub struct StepImportView<M, T> {
    pub mesh: M,
    pub declared_unit: Option<Seq<char>>,
    pub tessellation_tolerance_source_units: T,
    pub vertex_weld_relative_tolerance: T,
    pub shell_count: nat,
    pub selected_shell_entity_id: Option<u64>,
    pub warnings: Seq<Seq<char>>,
}

impl<M, T> View for StepImport<M, T> {
    type V = StepImportView<M, T>;

    open spec fn view(&self) -> StepImportView<M, T> {
        StepImportView {
            mesh: self.mesh,
            declared_unit: match self.declared_unit {
                Some(unit) => Some(unit@),
                None => None,
            },
            tessellation_tolerance_source_units: self.tessellation_tolerance_source_units,
            vertex_weld_relative_tolerance: self.vertex_weld_relative_tolerance,
            shell_count: self.shell_count as nat,
            selected_shell_entity_id: self.selected_shell_entity_id,
            warnings: text::texts(self.warnings@),
        }
    }
}

/// The outcome of an import, by what it holds.
pub open spec fn import_outcome<M, T>(outcome: Result<StepImport<M, T>, StepParseError>) -> Result<
    StepImportView<M, T>,
    StepErrorView,
> {
    match outcome {
        Ok(import) => Ok(import@),
        Err(error) => Err(error@),
    }
}

pub open spec fn selection_warning(selected: u64, total_shells: nat) -> Seq<char> {
    "Operator selected B-rep shell #"@ + text::decimal(selected as nat) + " from "@ + text::decimal(
        total_shells,
    ) + " shells in the source; other shells were not analyzed."@
}

/// A mesh of `triangles` triangles as an import. A picked shell counts as one,
/// with a warning about the others.
pub open spec fn finished<M, T>(
    mesh: M,
    triangles: nat,
    declared_unit: Seq<char>,
    tolerance: T,
    weld_tolerance: T,
    total_shells: nat,
    selected: Option<u64>,
) -> Result<StepImportView<M, T>, StepErrorView> {
    if triangles == 0 {
        refusal("STEP tessellation produced no triangles"@)
    } else {
        Ok(
            StepImportView {
                mesh,
                declared_unit: Some(declared_unit),
                tessellation_tolerance_source_units: tolerance,
                vertex_weld_relative_tolerance: weld_tolerance,
                shell_count: match selected {
                    Some(_) => 1,
                    None => total_shells,
                },
                selected_shell_entity_id: selected,
                warnings: match selected {
                    Some(selected) => seq![selection_warning(selected, total_shells)],
                    None => Seq::empty(),
                },
            },
        )
    }
}

/// Closes an import of `triangles` triangles: a part without any is refused,
/// and a picked shell is recorded with a warning about the others.
fn finish_import<M, T>(
    mesh: M,
    triangles: usize,
    declared_unit: String,
    tolerance: T,
    weld_tolerance: T,
    total_shells: usize,
    selected_shell_entity_id: Option<u64>,
) -> (r: Result<StepImport<M, T>, StepParseError>)
    ensures
        import_outcome(r) == finished(
            mesh,
            triangles as nat,
            declared_unit@,
            tolerance,
            weld_tolerance,
            total_shells as nat,
            selected_shell_entity_id,
        ),
{
    if triangles == 0 {
        return Err(StepParseError::Message("STEP tessellation produced no triangles".to_owned()));
    }
    let mut warnings: Vec<String> = Vec::new();
    let mut shell_count: usize = total_shells;
    if let Some(selected) = selected_shell_entity_id {
        let mut warning = "Operator selected B-rep shell #".to_owned();
        text::push_decimal(&mut warning, selected);
        warning.append(" from ");
        text::push_decimal(&mut warning, total_shells as u64);
        warning.append(" shells in the source; other shells were not analyzed.");
        warnings.push(warning);
        shell_count = 1;
        proof {
            assert(text::texts(warnings@) =~= seq![
                selection_warning(selected, total_shells as nat),
            ]);
        }
    } else {
        proof {
            assert(text::texts(warnings@) =~= Seq::<Seq<char>>::empty());
        }
    }
    Ok(
        StepImport {
            mesh,
            declared_unit: Some(declared_unit),
            tessellation_tolerance_source_units: tolerance,
            vertex_weld_relative_tolerance: weld_tolerance,
            shell_count,
            selected_shell_entity_id,
            warnings,
        },
    )
}

/// What the translator made of the selected shells. `M` is the triangle mesh of
/// their facets and `T` a tessellation tolerance.
pub struct Tessellation<M, T> {
    /// The facets of the shells, in ascending order of their ids, as far as the
    /// translator came.
    pub facets: Vec<ShellFacets>,
    /// What kept it from coming further.
    pub fault: Option<TranslatorFault>,
    pub mesh: M,
    pub tolerance: T,
    pub weld_tolerance: T,
}

/// How many triangles the first `n` shells have.
pub open spec fn triangle_count(facets: Seq<ShellFacets>, n: int) -> nat
    decreases n,
{
    if n <= 0 {
        0
    } else {
        triangle_count(facets, n - 1) + facets[n - 1].triangles@.len()
    }
}

/// The first thing wrong with the facets of the first `n` shells.
pub open spec fn first_facets_fault(facets: Seq<ShellFacets>, n: int) -> Option<Seq<char>>
    decreases n,
{
    if n <= 0 {
        None
    } else if first_facets_fault(facets, n - 1) is Some {
        first_facets_fault(facets, n - 1)
    } else {
        facets_fault(facets[n - 1], triangle_count(facets, n - 1))
    }
}

/// The facets are those of the selected shells, in order, and of no others.
pub open spec fn answers_for(entity_ids: Seq<u64>, facets: Seq<ShellFacets>) -> bool {
    &&& facets.len() == entity_ids.len()
    &&& forall|i: int| 0 <= i < facets.len() ==> (#[trigger] facets[i]).entity_id == entity_ids[i]
}

/// What an opened source is imported as. Its shells are selected first, then
/// what the translator made of them is checked shell by shell, up to what
/// stopped it. A translator that leaves out a selected shell, or answers for
/// another one, has stopped.
pub open spec fn import_verdict<M, T>(
    declared_unit: Seq<char>,
    shells: Option<Seq<u64>>,
    selected: Option<u64>,
    tessellation: Tessellation<M, T>,
) -> Result<StepImportView<M, T>, StepErrorView> {
    let facets = tessellation.facets@;
    match selection_verdict(declared_unit, shells, selected) {
        Err(error) => Err(error),
        Ok((entity_ids, total_shells)) => match first_facets_fault(facets, facets.len() as int) {
            Some(message) => refusal(message),
            None => match tessellation.fault {
                Some(fault) => refusal(translator_fault_text(fault)),
                None => if !answers_for(entity_ids, facets) {
                    refusal(translator_fault_text(TranslatorFault::Stopped))
                } else {
                    finished(
                        tessellation.mesh,
                        triangle_count(facets, facets.len() as int),
                        declared_unit,
                        tessellation.tolerance,
                        tessellation.weld_tolerance,
                        total_shells,
                        selected,
                    )
                },
            },
        },
    }
}

proof fn lemma_first_fault_stays(facets: Seq<ShellFacets>, n: int, m: int)
    requires
        0 <= n <= m,
        first_facets_fault(facets, n) is Some,
    ensures
        first_facets_fault(facets, m) == first_facets_fault(facets, n),
    decreases m - n,
{
    if n < m {
        lemma_first_fault_stays(facets, n, m - 1);
    }
}

/// Checks the facets of every shell in turn and counts their triangles.
fn check_facets(facets: &Vec<ShellFacets>) -> (r: Result<usize, StepParseError>)
    ensures
        stage_outcome(r) == (match first_facets_fault(facets@, facets@.len() as int) {
            Some(message) => refusal::<usize>(message),
            None => Ok(triangle_count(facets@, facets@.len() as int) as usize),
        }),
        r matches Ok(total) ==> total == triangle_count(facets@, facets@.len() as int),
{
    let mut total: usize = 0;
    let mut n: usize = 0;
    while n < facets.len()
        invariant
            n <= facets@.len(),
            total == triangle_count(facets@, n as int),
            first_facets_fault(facets@, n as int) is None,
        decreases facets@.len() - n,
    {
        match check_shell_facets(&facets[n], total) {
            Ok(accepted) => total = accepted,
            Err(error) => {
                proof {
                    lemma_first_fault_stays(facets@, n + 1, facets@.len() as int);
                }
                return Err(error);
            },
        }
        n += 1;
    }
    Ok(total)
}

/// Whether the facets are those of the selected shells.
fn facets_answer(entity_ids: &Vec<u64>, facets: &Vec<ShellFacets>) -> (r: bool)
    ensures
        r == answers_for(entity_ids@, facets@),
{
    if facets.len() != entity_ids.len() {
        return false;
    }
    let mut i: usize = 0;
    while i < facets.len()
        invariant
            i <= facets@.len() == entity_ids@.len(),
            forall|j: int| 0 <= j < i ==> (#[trigger] facets@[j]).entity_id == entity_ids@[j],
        decreases facets@.len() - i,
    {
        if facets[i].entity_id != entity_ids[i] {
            return false;
        }
        i += 1;
    }
    true
}

/// Imports an opened source, given the entity ids of the shells that the
/// translator found, in any order, and what it made of those that
/// [`select_shells`] selects.
pub fn parse_step_selecting<M, T>(
    source: StepSource,
    shells: Option<Vec<u64>>,
    selected_shell_entity_id: Option<u64>,
    tessellation: Tessellation<M, T>,
) -> (r: Result<StepImport<M, T>, StepParseError>)
    ensures
        import_outcome(r) == import_verdict(
            source.declared_unit@,
            optional_ids(shells),
            selected_shell_entity_id,
            tessellation,
        ),
{
    let selection = match select_shells(
        source.declared_unit.as_str(),
        shells,
        selected_shell_entity_id,
    ) {
        Ok(selection) => selection,
        Err(error) => return Err(error),
    };
    let triangles: usize = match check_facets(&tessellation.facets) {
        Ok(triangles) => triangles,
        Err(error) => return Err(error),
    };
    match tessellation.fault {
        Some(fault) => Err(translator_error(fault)),
        None if !facets_answer(&selection.entity_ids, &tessellation.facets) => Err(
            translator_error(TranslatorFault::Stopped),
        ),
        None => finish_import(
            tessellation.mesh,
            triangles,
            source.declared_unit,
            tessellation.tolerance,
            tessellation.weld_tolerance,
            selection.total_shells,
            selected_shell_entity_id,
        ),
    }
}

/// What bytes are imported as, given what the translator makes of them.
pub open spec fn imported_from<M, T>(
    bytes: Seq<u8>,
    shells: Option<Seq<u64>>,
    selected: Option<u64>,
    tessellation: Tessellation<M, T>,
) -> Result<StepImportView<M, T>, StepErrorView> {
    match source_verdict(bytes) {
        Err(message) => refusal(message),
        Ok((_, declared_unit)) => import_verdict(declared_unit, shells, selected, tessellation),
    }
}

/// The outcome of an import, with a one-line error.
pub open spec fn parsed<M, T>(outcome: Result<StepImportView<M, T>, StepErrorView>) -> Result<
    StepImportView<M, T>,
    Seq<char>,
> {
    match outcome {
        Ok(import) => Ok(import),
        Err(error) => Err(error_text(error)),
    }
}

/// The pickable shells of a source that is imported as `outcome` where none is
/// picked.
pub open spec fn listed<M, T>(outcome: Result<StepImportView<M, T>, StepErrorView>) -> Result<
    ShellChoiceView,
    Seq<char>,
> {
    match outcome {
        Err(StepErrorView::ChooseShell(choice)) => Ok(choice),
        Err(StepErrorView::Message(message)) => Err(message),
        Ok(_) => Err("this STEP file has a single shell; no chooser is required"@),
    }
}

/// The outcome of [`parse_step`], by what it holds.
pub open spec fn parse_outcome<M, T>(outcome: Result<StepImport<M, T>, String>) -> Result<
    StepImportView<M, T>,
    Seq<char>,
> {
    match outcome {
        Ok(import) => Ok(import@),
        Err(message) => Err(message@),
    }
}

/// The outcome of [`list_shell_candidates`], by what it holds.
pub open spec fn listing_outcome(outcome: Result<ShellChoiceRequired, String>) -> Result<
    ShellChoiceView,
    Seq<char>,
> {
    match outcome {
        Ok(choice) => Ok(choice@),
        Err(message) => Err(message@),
    }
}

/// The outcome of an import, with a one-line error.
pub fn parse_step<M, T>(outcome: Result<StepImport<M, T>, StepParseError>) -> (r: Result<
    StepImport<M, T>,
    String,
>)
    ensures
        parse_outcome(r) == parsed(import_outcome(outcome)),
        match outcome {
            Ok(import) => r == Ok::<StepImport<M, T>, String>(import),
            Err(error) => r matches Err(message) && message@ == error_text(error@),
        },
{
    match outcome {
        Ok(import) => Ok(import),
        Err(error) => Err(String::from(error)),
    }
}

/// The pickable shells of a source whose import without a selection came out as
/// `outcome`.
pub fn list_shell_candidates<M, T>(outcome: Result<StepImport<M, T>, StepParseError>) -> (r: Result<
    ShellChoiceRequired,
    String,
>)
    ensures
        listing_outcome(r) == listed(import_outcome(outcome)),
        match outcome {
            Ok(_) => r matches Err(message) && message@
                == "this STEP file has a single shell; no chooser is required"@,
            Err(StepParseError::Message(message)) => r == Err::<ShellChoiceRequired, String>(
                message,
            ),
            Err(StepParseError::ChooseShell(choice)) => r == Ok::<ShellChoiceRequired, String>(
                choice,
            ),
        },
{
    match outcome {
        Err(StepParseError::ChooseShell(choice)) => Ok(choice),
        Err(StepParseError::Message(message)) => Err(message),
        Ok(_) => Err("this STEP file has a single shell; no chooser is required".to_owned()),
    }
}

} // verus!

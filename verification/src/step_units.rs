//! The length unit that a STEP Part 21 file declares for its geometry.
//!
//! A file may hold many `LENGTH_UNIT` entities. Conversion-based units refer to
//! an SI base unit, so only the units that a `GLOBAL_UNIT_ASSIGNED_CONTEXT`
//! refers to are authoritative: counting every entity would read an inch
//! context as both inch and millimetre.

use crate::text;
use std::collections::BTreeMap;
use vstd::prelude::*;
use vstd::slice::*;
use vstd::string::*;

verus! {

/// The length units that can be imported.
#[derive(Clone, Copy, Debug, PartialEq, Eq, Structural)]
pub enum LengthUnit {
    Centimetre,
    Foot,
    Inch,
    Metre,
    Millimetre,
}

/// The symbol of a unit.
pub open spec fn unit_symbol(unit: LengthUnit) -> Seq<char> {
    match unit {
        LengthUnit::Centimetre => "cm"@,
        LengthUnit::Foot => "ft"@,
        LengthUnit::Inch => "in"@,
        LengthUnit::Metre => "m"@,
        LengthUnit::Millimetre => "mm"@,
    }
}

impl LengthUnit {
    pub fn symbol(self) -> (r: &'static str)
        ensures
            r@ == unit_symbol(self),
    {
        match self {
            LengthUnit::Centimetre => "cm",
            LengthUnit::Foot => "ft",
            LengthUnit::Inch => "in",
            LengthUnit::Metre => "m",
            LengthUnit::Millimetre => "mm",
        }
    }
}

/// The records of a Part 21 text: what stands between its semicolons.
pub open spec fn records(text: Seq<char>) -> Seq<Seq<char>>
    decreases text.len(),
{
    if text.len() == 0 {
        seq![Seq::empty()]
    } else {
        let before = records(text.drop_last());
        if text.last() == ';' {
            before.push(Seq::empty())
        } else {
            before.drop_last().push(before.last().push(text.last()))
        }
    }
}

/// `text` without its ASCII white space.
pub open spec fn compacted(text: Seq<char>) -> Seq<char> {
    text.filter(|c: char| !text::is_ascii_white_space(c))
}

/// The unit that a compacted `LENGTH_UNIT` record declares, if it is one that
/// can be imported.
pub open spec fn declared_unit(compact: Seq<char>) -> Option<LengthUnit> {
    if text::has_infix(compact, "SI_UNIT"@) && text::has_infix(compact, ".METRE."@) {
        if text::has_infix(compact, ".MILLI."@) {
            Some(LengthUnit::Millimetre)
        } else if text::has_infix(compact, ".CENTI."@) {
            Some(LengthUnit::Centimetre)
        } else if text::has_infix(compact, "SI_UNIT($,.METRE.)"@) {
            Some(LengthUnit::Metre)
        } else {
            None
        }
    } else if text::has_infix(compact, "CONVERSION_BASED_UNIT('INCH"@) {
        Some(LengthUnit::Inch)
    } else if text::has_infix(compact, "CONVERSION_BASED_UNIT('FOOT"@) || text::has_infix(
        compact,
        "CONVERSION_BASED_UNIT('FEET"@,
    ) {
        Some(LengthUnit::Foot)
    } else {
        None
    }
}

/// The entity id that a record defines: `#`, a number and an equals sign at its
/// start.
pub open spec fn entity_id(record: Seq<char>) -> Option<u64> {
    let body = text::trim_start(record);
    if body.len() > 0 && body.first() == '#' {
        match body.drop_first().index_of_first('=') {
            Some(at) => text::unsigned_value(text::trim(body.drop_first().take(at))),
            None => None,
        }
    } else {
        None
    }
}

/// The digits at the start of `text`.
pub open spec fn digit_run(text: Seq<char>) -> Seq<char>
    decreases text.len(),
{
    if text.len() > 0 && text::is_digit(text.first()) {
        seq![text.first()] + digit_run(text.drop_first())
    } else {
        Seq::empty()
    }
}

/// The entity that a record refers to at position `at`.
pub open spec fn reference_at(record: Seq<char>, at: int) -> Option<u64> {
    if record[at] == '#' {
        text::unsigned_value(digit_run(record.skip(at + 1)))
    } else {
        None
    }
}

/// The entities that a record refers to before position `upto`, in order.
pub open spec fn references(record: Seq<char>, upto: int) -> Seq<u64>
    decreases upto,
{
    if upto <= 0 {
        Seq::empty()
    } else {
        match reference_at(record, upto - 1) {
            Some(id) => references(record, upto - 1).push(id),
            None => references(record, upto - 1),
        }
    }
}

/// The length-unit entities that the first `n` records define; a later
/// definition of an id replaces an earlier one.
pub open spec fn unit_entities(rows: Seq<Seq<char>>, n: int) -> Map<u64, Option<LengthUnit>>
    decreases n,
{
    if n <= 0 {
        Map::empty()
    } else {
        let before = unit_entities(rows, n - 1);
        let row = rows[n - 1];
        match entity_id(row) {
            Some(id) if text::has_infix(row, "LENGTH_UNIT"@) => before.insert(
                id,
                declared_unit(compacted(row)),
            ),
            _ => before,
        }
    }
}

/// One of the first `n` records assigns the unit `id` to a representation
/// context.
pub open spec fn is_assigned(rows: Seq<Seq<char>>, n: int, id: u64) -> bool {
    exists|i: int|
        0 <= i < n && text::has_infix(#[trigger] rows[i], "GLOBAL_UNIT_ASSIGNED_CONTEXT"@)
            && references(rows[i], rows[i].len() as int).contains(id)
}

/// Some assigned entity is a length unit with this meaning.
pub open spec fn is_active(
    units: Map<u64, Option<LengthUnit>>,
    rows: Seq<Seq<char>>,
    n: int,
    unit: Option<LengthUnit>,
) -> bool {
    exists|id: u64| #[trigger]
        is_assigned(rows, n, id) && units.contains_key(id) && units[id] == unit
}

/// Every unit, in the order of their symbols.
pub open spec fn every_unit() -> Seq<LengthUnit> {
    seq![
        LengthUnit::Centimetre,
        LengthUnit::Foot,
        LengthUnit::Inch,
        LengthUnit::Metre,
        LengthUnit::Millimetre,
    ]
}

pub open spec fn unidentified_unit_text() -> Seq<char> {
    "the active STEP representation declares a length unit Reyn cannot identify safely; re-export it in mm, cm, m, in, or ft"@
}

pub open spec fn unsupported_prefix_text() -> Seq<char> {
    "the STEP file declares an unsupported SI length prefix; convert the part to millimetres, centimetres, or metres before import"@
}

pub open spec fn several_units_text(units: Seq<LengthUnit>) -> Seq<char> {
    "the STEP file uses multiple length units ("@ + text::join(
        units.map_values(|unit: LengthUnit| unit_symbol(unit)),
        ", "@,
    ) + "); resolve the representation contexts in CAD before import"@
}

/// The length unit of a file, `None` where it declares none, or why it cannot
/// be told.
///
/// The assigned units decide. Without any, a sole length-unit entity does.
pub open spec fn length_unit(text: Seq<char>) -> Result<Option<LengthUnit>, Seq<char>> {
    let rows = records(text);
    let n = rows.len() as int;
    let units = unit_entities(rows, n);
    let active = every_unit().filter(
        |unit: LengthUnit| is_active(units, rows, n, Some(unit)),
    );
    if is_active(units, rows, n, None) {
        Err(unidentified_unit_text())
    } else if active.len() == 0 && units.dom().len() == 1 {
        match units[units.dom().choose()] {
            Some(unit) => Ok(Some(unit)),
            None => Err(unsupported_prefix_text()),
        }
    } else if active.len() == 0 {
        Ok(None)
    } else if active.len() == 1 {
        Ok(Some(active[0]))
    } else {
        Err(several_units_text(active))
    }
}

/// A verdict on the unit, with symbols and messages as characters.
pub open spec fn unit_verdict(
    verdict: Result<Option<String>, String>,
) -> Result<Option<Seq<char>>, Seq<char>> {
    match verdict {
        Ok(Some(symbol)) => Ok(Some(symbol@)),
        Ok(None) => Ok(None),
        Err(message) => Err(message@),
    }
}

/// A verdict on the unit, with the unit by its symbol.
pub open spec fn by_symbol(
    verdict: Result<Option<LengthUnit>, Seq<char>>,
) -> Result<Option<Seq<char>>, Seq<char>> {
    match verdict {
        Ok(Some(unit)) => Ok(Some(unit_symbol(unit))),
        Ok(None) => Ok(None),
        Err(message) => Err(message),
    }
}

/// What each record of a list holds.
pub open spec fn rows_of(rows: Seq<Vec<char>>) -> Seq<Seq<char>> {
    rows.map_values(|row: Vec<char>| row@)
}

/// Splits `text` at its semicolons.
pub fn split_records(text: &[char]) -> (r: Vec<Vec<char>>)
    ensures
        rows_of(r@) == records(text@),
{
    let mut done: Vec<Vec<char>> = Vec::new();
    let mut current: Vec<char> = Vec::new();
    let mut i: usize = 0;
    proof {
        assert(text@.take(0) =~= Seq::<char>::empty());
        assert(rows_of(done@).push(current@) =~= records(text@.take(0)));
    }
    while i < text.len()
        invariant
            i <= text@.len(),
            rows_of(done@).push(current@) == records(text@.take(i as int)),
        decreases text@.len() - i,
    {
        let ghost before = records(text@.take(i as int));
        proof {
            assert(text@.take(i + 1).drop_last() =~= text@.take(i as int));
            assert(text@.take(i + 1).last() == text@[i as int]);
            assert(before.drop_last() =~= rows_of(done@));
            assert(before.last() == current@);
        }
        if text[i] == ';' {
            done.push(current);
            current = Vec::new();
            proof {
                assert(rows_of(done@) =~= before);
                assert(current@ =~= Seq::<char>::empty());
            }
        } else {
            current.push(text[i]);
        }
        i += 1;
    }
    proof {
        assert(text@.take(i as int) =~= text@);
    }
    let ghost finished = done@;
    done.push(current);
    proof {
        assert(rows_of(done@) =~= rows_of(finished).push(current@));
    }
    done
}

/// `text` without its ASCII white space.
fn compact(text: &[char]) -> (r: Vec<char>)
    ensures
        r@ == compacted(text@),
{
    let mut out: Vec<char> = Vec::new();
    let mut i: usize = 0;
    proof {
        reveal(Seq::filter);
        assert(text@.take(0) =~= Seq::<char>::empty());
        assert(compacted(text@.take(0)) =~= Seq::<char>::empty());
    }
    while i < text.len()
        invariant
            i <= text@.len(),
            out@ == compacted(text@.take(i as int)),
        decreases text@.len() - i,
    {
        let c: char = text[i];
        proof {
            reveal(Seq::filter);
            assert(text@.take(i + 1).drop_last() =~= text@.take(i as int));
            assert(text@.take(i + 1).last() == c);
        }
        if !(c == '\t' || c == '\n' || c == '\x0c' || c == '\r' || c == ' ') {
            out.push(c);
        }
        i += 1;
    }
    proof {
        assert(text@.take(i as int) =~= text@);
    }
    out
}

/// The unit that a `LENGTH_UNIT` record declares.
fn unit_of_record(record: &[char]) -> (r: Option<LengthUnit>)
    ensures
        r == declared_unit(compacted(record@)),
{
    let compact = compact(record);
    let compact = compact.as_slice();
    if text::contains(compact, "SI_UNIT") && text::contains(compact, ".METRE.") {
        if text::contains(compact, ".MILLI.") {
            Some(LengthUnit::Millimetre)
        } else if text::contains(compact, ".CENTI.") {
            Some(LengthUnit::Centimetre)
        } else if text::contains(compact, "SI_UNIT($,.METRE.)") {
            Some(LengthUnit::Metre)
        } else {
            None
        }
    } else if text::contains(compact, "CONVERSION_BASED_UNIT('INCH") {
        Some(LengthUnit::Inch)
    } else if text::contains(compact, "CONVERSION_BASED_UNIT('FOOT") || text::contains(
        compact,
        "CONVERSION_BASED_UNIT('FEET",
    ) {
        Some(LengthUnit::Foot)
    } else {
        None
    }
}

/// The entity id that a record defines.
fn defined_id(record: &[char]) -> (r: Option<u64>)
    ensures
        r == entity_id(record@),
{
    let start = text::leading_white_space(record);
    let size: usize = record.len();
    let ghost body = text::trim_start(record@);
    if start >= size || record[start] != '#' {
        return None;
    }
    let rest = slice_subrange(record, start + 1, size);
    proof {
        assert(rest@ =~= body.drop_first());
    }
    let mut at: usize = 0;
    while at < rest.len() && rest[at] != '='
        invariant
            at <= rest@.len(),
            forall|j: int| 0 <= j < at ==> rest@[j] != '=',
        decreases rest@.len() - at,
    {
        at += 1;
    }
    if at == rest.len() {
        proof {
            rest@.index_of_first_ensures('=');
        }
        return None;
    }
    proof {
        rest@.index_of_first_ensures('=');
        assert(rest@.contains('=')) by {
            assert(rest@[at as int] == '=');
        }
    }
    let head = slice_subrange(rest, 0, at);
    proof {
        assert(head@ =~= rest@.take(at as int));
    }
    text::parse_unsigned(text::trimmed(head).as_slice())
}

/// The digits of `record` from position `from` on.
fn digits_from(record: &[char], from: usize) -> (r: Vec<char>)
    requires
        from <= record@.len(),
    ensures
        r@ == digit_run(record@.skip(from as int)),
{
    let mut out: Vec<char> = Vec::new();
    let mut i: usize = from;
    while i < record.len() && '0' <= record[i] && record[i] <= '9'
        invariant
            from <= i <= record@.len(),
            out@ + digit_run(record@.skip(i as int)) == digit_run(record@.skip(from as int)),
        decreases record@.len() - i,
    {
        let c: char = record[i];
        let ghost before = out@;
        out.push(c);
        proof {
            let rest = record@.skip(i as int);
            assert(rest.first() == c);
            assert(rest.drop_first() =~= record@.skip(i + 1));
            assert(out@ + digit_run(record@.skip(i + 1)) =~= before + digit_run(rest));
        }
        i += 1;
    }
    proof {
        let rest = record@.skip(i as int);
        if rest.len() > 0 {
            assert(rest.first() == record@[i as int]);
        }
        assert(digit_run(rest) =~= Seq::<char>::empty());
        assert(out@ + digit_run(rest) =~= out@);
    }
    out
}

/// The entities that a record refers to, in order.
fn referred_ids(record: &[char]) -> (r: Vec<u64>)
    ensures
        r@ == references(record@, record@.len() as int),
{
    let mut out: Vec<u64> = Vec::new();
    let mut index: usize = 0;
    while index < record.len()
        invariant
            index <= record@.len(),
            out@ == references(record@, index as int),
        decreases record@.len() - index,
    {
        if record[index] == '#' {
            let digits = digits_from(record, index + 1);
            if let Some(id) = text::parse_unsigned(digits.as_slice()) {
                out.push(id);
            }
        }
        index += 1;
    }
    out
}

/// The length-unit entities of a file.
struct UnitTable {
    units: BTreeMap<u64, Option<LengthUnit>>,
    /// What the entity that was read last declares.
    last: Option<LengthUnit>,
}

/// Collects the length-unit entities that `rows` define.
fn collect_units(rows: &Vec<Vec<char>>) -> (r: UnitTable)
    ensures
        r.units@ == unit_entities(rows_of(rows@), rows@.len() as int),
        r.units@.dom().len() == 1 ==> r.last == r.units@[r.units@.dom().choose()],
{
    broadcast use vstd::std_specs::btree::group_btree_axioms;

    let mut units: BTreeMap<u64, Option<LengthUnit>> = BTreeMap::new();
    let mut last: Option<LengthUnit> = None;
    let ghost mut last_id: u64 = 0;
    let ghost all = rows_of(rows@);
    let mut i: usize = 0;
    proof {
        assert(units@ =~= Map::<u64, Option<LengthUnit>>::empty());
    }
    while i < rows.len()
        invariant
            i <= rows@.len(),
            all == rows_of(rows@),
            units@ == unit_entities(all, i as int),
            units@.dom().len() > 0 ==> units@.contains_key(last_id) && units@[last_id] == last,
            units@.dom().finite(),
        decreases rows@.len() - i,
    {
        let row = rows[i].as_slice();
        proof {
            assert(all[i as int] == row@);
        }
        if text::contains(row, "LENGTH_UNIT") {
            if let Some(id) = defined_id(row) {
                let unit = unit_of_record(row);
                units.insert(id, unit);
                last = unit;
                proof {
                    last_id = id;
                }
            }
        }
        i += 1;
    }
    proof {
        if units@.dom().len() == 1 {
            let chosen = units@.dom().choose();
            assert(units@.dom().contains(chosen));
            vstd::set_lib::lemma_set_subset_finite(units@.dom(), set![chosen, last_id]);
            if chosen != last_id {
                assert(set![chosen, last_id].len() == 2);
                vstd::set_lib::lemma_len_subset(set![chosen, last_id], units@.dom());
            }
        }
    }
    UnitTable { units, last }
}

/// The units that are assigned, and whether one of them cannot be identified.
#[derive(Clone, Copy)]
struct ActiveUnits {
    centimetre: bool,
    foot: bool,
    inch: bool,
    metre: bool,
    millimetre: bool,
    unidentified: bool,
}

impl ActiveUnits {
    spec fn holds(self, unit: Option<LengthUnit>) -> bool {
        match unit {
            Some(LengthUnit::Centimetre) => self.centimetre,
            Some(LengthUnit::Foot) => self.foot,
            Some(LengthUnit::Inch) => self.inch,
            Some(LengthUnit::Metre) => self.metre,
            Some(LengthUnit::Millimetre) => self.millimetre,
            None => self.unidentified,
        }
    }

    fn add_unit(&mut self, unit: Option<LengthUnit>)
        ensures
            forall|other: Option<LengthUnit>| #[trigger]
                final(self).holds(other) == (old(self).holds(other) || other == unit),
    {
        match unit {
            Some(LengthUnit::Centimetre) => {
                self.centimetre = true;
            },
            Some(LengthUnit::Foot) => {
                self.foot = true;
            },
            Some(LengthUnit::Inch) => {
                self.inch = true;
            },
            Some(LengthUnit::Metre) => {
                self.metre = true;
            },
            Some(LengthUnit::Millimetre) => {
                self.millimetre = true;
            },
            None => {
                self.unidentified = true;
            },
        }
    }
}

/// Some entity in `ids` is a length unit with this meaning.
spec fn names_unit(
    units: Map<u64, Option<LengthUnit>>,
    ids: Seq<u64>,
    unit: Option<LengthUnit>,
) -> bool {
    exists|j: int| 0 <= j < ids.len() && units.contains_key(#[trigger] ids[j]) && units[ids[j]] == unit
}

/// Adds the units of the entities `ids`.
fn add_references(
    active: &mut ActiveUnits,
    units: &BTreeMap<u64, Option<LengthUnit>>,
    ids: &Vec<u64>,
)
    ensures
        forall|unit: Option<LengthUnit>| #[trigger]
            final(active).holds(unit) == (old(active).holds(unit) || names_unit(
                units@,
                ids@,
                unit,
            )),
{
    broadcast use vstd::std_specs::btree::group_btree_axioms;

    let ghost before = *active;
    let mut i: usize = 0;
    while i < ids.len()
        invariant
            i <= ids@.len(),
            before == *old(active),
            forall|unit: Option<LengthUnit>| #[trigger]
                active.holds(unit) == (before.holds(unit) || names_unit(
                    units@,
                    ids@.take(i as int),
                    unit,
                )),
        decreases ids@.len() - i,
    {
        let id: u64 = ids[i];
        let ghost held = *active;
        let found = units.get(&id);
        if let Some(unit) = found {
            active.add_unit(*unit);
        }
        proof {
            assert forall|unit: Option<LengthUnit>| names_unit(units@, ids@.take(i + 1), unit) == (
            names_unit(units@, ids@.take(i as int), unit) || (units@.contains_key(id) && units@[id]
                == unit)) by {
                let short = ids@.take(i as int);
                let long = ids@.take(i + 1);
                if names_unit(units@, short, unit) {
                    let j = choose|j: int|
                        0 <= j < short.len() && units@.contains_key(#[trigger] short[j])
                            && units@[short[j]] == unit;
                    assert(long[j] == short[j]);
                }
                if units@.contains_key(id) && units@[id] == unit {
                    assert(long[i as int] == id);
                }
                if names_unit(units@, long, unit) {
                    let j = choose|j: int|
                        0 <= j < long.len() && units@.contains_key(#[trigger] long[j])
                            && units@[long[j]] == unit;
                    if j < i {
                        assert(short[j] == long[j]);
                    }
                }
            }
            assert forall|unit: Option<LengthUnit>| #[trigger]
                active.holds(unit) == (before.holds(unit) || names_unit(
                    units@,
                    ids@.take(i + 1),
                    unit,
                )) by {
                assert(held.holds(unit) == (before.holds(unit) || names_unit(
                    units@,
                    ids@.take(i as int),
                    unit,
                )));
            }
        }
        i += 1;
    }
    proof {
        assert(ids@.take(i as int) =~= ids@);
    }
}

/// Collects the units that the contexts in `rows` assign.
fn collect_active(rows: &Vec<Vec<char>>, units: &BTreeMap<u64, Option<LengthUnit>>) -> (r:
    ActiveUnits)
    ensures
        forall|unit: Option<LengthUnit>| #[trigger]
            r.holds(unit) == is_active(units@, rows_of(rows@), rows@.len() as int, unit),
{
    let mut active = ActiveUnits {
        centimetre: false,
        foot: false,
        inch: false,
        metre: false,
        millimetre: false,
        unidentified: false,
    };
    let ghost all = rows_of(rows@);
    let mut i: usize = 0;
    while i < rows.len()
        invariant
            i <= rows@.len(),
            all == rows_of(rows@),
            forall|unit: Option<LengthUnit>| #[trigger]
                active.holds(unit) == is_active(units@, all, i as int, unit),
        decreases rows@.len() - i,
    {
        let row = rows[i].as_slice();
        let ghost held = active;
        proof {
            assert(all[i as int] == row@);
        }
        let assigns: bool = text::contains(row, "GLOBAL_UNIT_ASSIGNED_CONTEXT");
        let ghost ids = references(row@, row@.len() as int);
        if assigns {
            let found = referred_ids(row);
            add_references(&mut active, units, &found);
        }
        proof {
            assert forall|unit: Option<LengthUnit>| #[trigger]
                active.holds(unit) == is_active(units@, all, i + 1, unit) by {
                assert(held.holds(unit) == is_active(units@, all, i as int, unit));
                lemma_is_active_step(units@, all, i as int, unit);
            }
        }
        i += 1;
    }
    active
}

proof fn lemma_is_active_step(
    units: Map<u64, Option<LengthUnit>>,
    rows: Seq<Seq<char>>,
    i: int,
    unit: Option<LengthUnit>,
)
    requires
        0 <= i < rows.len(),
    ensures
        is_active(units, rows, i + 1, unit) == (is_active(units, rows, i, unit) || (text::has_infix(
            rows[i],
            "GLOBAL_UNIT_ASSIGNED_CONTEXT"@,
        ) && names_unit(units, references(rows[i], rows[i].len() as int), unit))),
{
    let ids = references(rows[i], rows[i].len() as int);
    let assigns = text::has_infix(rows[i], "GLOBAL_UNIT_ASSIGNED_CONTEXT"@);
    if is_active(units, rows, i, unit) {
        let id = choose|id: u64| #[trigger]
            is_assigned(rows, i, id) && units.contains_key(id) && units[id] == unit;
        assert(is_assigned(rows, i + 1, id));
    }
    if assigns && names_unit(units, ids, unit) {
        let j = choose|j: int|
            0 <= j < ids.len() && units.contains_key(#[trigger] ids[j]) && units[ids[j]] == unit;
        assert(ids.contains(ids[j]));
        assert(is_assigned(rows, i + 1, ids[j]));
    }
    if is_active(units, rows, i + 1, unit) {
        let id = choose|id: u64| #[trigger]
            is_assigned(rows, i + 1, id) && units.contains_key(id) && units[id] == unit;
        let k = choose|k: int|
            0 <= k < i + 1 && text::has_infix(#[trigger] rows[k], "GLOBAL_UNIT_ASSIGNED_CONTEXT"@)
                && references(rows[k], rows[k].len() as int).contains(id);
        if k < i {
            assert(is_assigned(rows, i, id));
        } else {
            let j = choose|j: int| 0 <= j < ids.len() && ids[j] == id;
            assert(units.contains_key(ids[j]));
        }
    }
}

/// The assigned units, in the order of their symbols.
fn list_active(active: ActiveUnits, Ghost(is): Ghost<spec_fn(LengthUnit) -> bool>) -> (r: Vec<
    LengthUnit,
>)
    requires
        forall|unit: LengthUnit| #[trigger] is(unit) == active.holds(Some(unit)),
    ensures
        r@ == every_unit().filter(is),
{
    let mut out: Vec<LengthUnit> = Vec::new();
    if active.centimetre {
        out.push(LengthUnit::Centimetre);
    }
    if active.foot {
        out.push(LengthUnit::Foot);
    }
    if active.inch {
        out.push(LengthUnit::Inch);
    }
    if active.metre {
        out.push(LengthUnit::Metre);
    }
    if active.millimetre {
        out.push(LengthUnit::Millimetre);
    }
    proof {
        let all = every_unit();
        reveal_with_fuel(Seq::filter, 6);
        assert(all.drop_last() =~= all.take(4));
        assert(all.take(4).drop_last() =~= all.take(3));
        assert(all.take(3).drop_last() =~= all.take(2));
        assert(all.take(2).drop_last() =~= all.take(1));
        assert(all.take(1).drop_last() =~= all.take(0));
        assert(out@ =~= all.filter(is));
    }
    out
}

fn join_symbols(units: &Vec<LengthUnit>) -> (r: String)
    ensures
        r@ == text::join(units@.map_values(|unit: LengthUnit| unit_symbol(unit)), ", "@),
{
    let mut out = String::new();
    let mut i: usize = 0;
    let ghost symbols = units@.map_values(|unit: LengthUnit| unit_symbol(unit));
    proof {
        assert(symbols.take(0) =~= Seq::<Seq<char>>::empty());
    }
    while i < units.len()
        invariant
            i <= units@.len(),
            symbols == units@.map_values(|unit: LengthUnit| unit_symbol(unit)),
            out@ == text::join(symbols.take(i as int), ", "@),
        decreases units@.len() - i,
    {
        text::push_joined(&mut out, units[i].symbol(), ", ", i == 0, Ghost(symbols.take(i as int)));
        proof {
            assert(symbols.take(i + 1) =~= symbols.take(i as int).push(symbols[i as int]));
        }
        i += 1;
    }
    proof {
        assert(symbols.take(i as int) =~= symbols);
    }
    out
}

/// The entity id that a record defines: `#`, a number and an equals sign at its
/// start.
pub fn record_entity_id(record: &str) -> (r: Option<u64>)
    ensures
        r == entity_id(record@),
{
    defined_id(text::chars_of(record).as_slice())
}

/// The entities that a record refers to, in order.
pub fn record_entity_references(record: &str) -> (r: Vec<u64>)
    ensures
        r@ == references(record@, record@.len() as int),
{
    referred_ids(text::chars_of(record).as_slice())
}

/// The symbol of the length unit that an upper-case Part 21 text declares.
pub fn detect_length_unit(upper: &str) -> (r: Result<Option<String>, String>)
    ensures
        unit_verdict(r) == by_symbol(length_unit(upper@)),
{
    let chars = text::chars_of(upper);
    let rows = split_records(chars.as_slice());
    let table = collect_units(&rows);
    let active = collect_active(&rows, &table.units);
    let ghost all = rows_of(rows@);
    let ghost is = |unit: LengthUnit| is_active(table.units@, all, all.len() as int, Some(unit));
    let units = list_active(active, Ghost(is));
    if active.unidentified {
        proof {
            assert(active.holds(None));
        }
        return Err(
            "the active STEP representation declares a length unit Reyn cannot identify safely; re-export it in mm, cm, m, in, or ft".to_owned(),
        );
    }
    proof {
        assert(!active.holds(None));
    }
    if units.len() == 0 {
        if table.units.len() == 1 {
            return match table.last {
                Some(unit) => Ok(Some(unit.symbol().to_owned())),
                None => Err(
                    "the STEP file declares an unsupported SI length prefix; convert the part to millimetres, centimetres, or metres before import".to_owned(),
                ),
            };
        }
        return Ok(None);
    }
    if units.len() == 1 {
        return Ok(Some(units[0].symbol().to_owned()));
    }
    let mut message = "the STEP file uses multiple length units (".to_owned();
    message.append(join_symbols(&units).as_str());
    message.append("); resolve the representation contexts in CAD before import");
    Err(message)
}

} // verus!

//! Combining unit identifications: what the operator entered over what was
//! known, and what phases reported over the slot's starting identification.

use vstd::prelude::*;
use crate::string_map::{changed_entries, StringMap};
use crate::text::copy_opt_text;
use crate::unit::{copy_opt_map, opt_map, opt_unit, UnitInfo, UnitInfoView};

verus! {

/// A field entered by the operator replaces the known one.
pub open spec fn override_field(ui: Option<Seq<char>>, base: Option<Seq<char>>) -> Option<Seq<char>> {
    if ui is Some {
        ui
    } else {
        base
    }
}

/// The identification after the operator's entry: entered fields replace
/// known ones, entered sub-units are added over known ones; status and
/// metadata stay. Without a known identification, the entry as it is.
pub open spec fn ui_merged(existing: Option<UnitInfoView>, ui: UnitInfoView) -> UnitInfoView {
    match existing {
        None => ui,
        Some(b) => UnitInfoView {
            serial_number: override_field(ui.serial_number, b.serial_number),
            part_number: override_field(ui.part_number, b.part_number),
            revision_number: override_field(ui.revision_number, b.revision_number),
            batch_number: override_field(ui.batch_number, b.batch_number),
            sub_units: match ui.sub_units {
                Some(u) => Some(
                    match b.sub_units {
                        Some(bs) => bs,
                        None => Map::empty(),
                    }.union_prefer_right(u),
                ),
                None => b.sub_units,
            },
            status: b.status,
            metadata: b.metadata,
        },
    }
}

/// Merges what the operator entered into the known identification.
pub fn merge_unit_info(existing: Option<UnitInfo>, ui_unit: UnitInfo) -> (r: UnitInfo)
    ensures
        r@ == ui_merged(opt_unit(existing), ui_unit@),
{
    match existing {
        Some(mut base) => {
            if let Some(ui_sub_units) = &ui_unit.sub_units {
                let mut merged = match &base.sub_units {
                    Some(m) => m.duplicate(),
                    None => StringMap::new(),
                };
                merged.insert_all(ui_sub_units);
                base.sub_units = Some(merged);
            }
            if ui_unit.serial_number.is_some() {
                base.serial_number = ui_unit.serial_number;
            }
            if ui_unit.part_number.is_some() {
                base.part_number = ui_unit.part_number;
            }
            if ui_unit.revision_number.is_some() {
                base.revision_number = ui_unit.revision_number;
            }
            if ui_unit.batch_number.is_some() {
                base.batch_number = ui_unit.batch_number;
            }
            base
        },
        None => ui_unit,
    }
}

/// A field a phase reported counts when it differs from what the phase was
/// given; otherwise the accumulated value stays.
pub open spec fn reported_field(phase: Option<Seq<char>>, base: Option<Seq<char>>, input: Option<Seq<char>>) -> Option<Seq<char>> {
    if phase is Some && phase != input {
        phase
    } else {
        base
    }
}

/// The sub-units a phase was given (none: empty).
pub open spec fn input_sub_units(input: Option<UnitInfoView>) -> Map<Seq<char>, Seq<char>> {
    match input {
        Some(u) => match u.sub_units {
            Some(m) => m,
            None => Map::empty(),
        },
        None => Map::empty(),
    }
}

/// The identification after a phase's report: each reported field that
/// differs from what the phase was given replaces the accumulated one;
/// changed sub-units are added; the status is the phase's; metadata is the
/// phase's if it has some. Without an accumulated identification, the
/// phase's report as it is.
pub open spec fn phase_merged(base: Option<UnitInfoView>, phase: UnitInfoView, input: Option<UnitInfoView>) -> UnitInfoView {
    match base {
        None => phase,
        Some(b) => {
            let inp = match input {
                Some(u) => u,
                None => UnitInfoView {
                    serial_number: None,
                    part_number: None,
                    revision_number: None,
                    batch_number: None,
                    sub_units: None,
                    status: Seq::empty(),
                    metadata: None,
                },
            };
            let changed = match phase.sub_units {
                Some(p) => Some(changed_entries(p, input_sub_units(input))),
                None => None,
            };
            UnitInfoView {
                serial_number: reported_field(phase.serial_number, b.serial_number, if input is Some { inp.serial_number } else { None }),
                part_number: reported_field(phase.part_number, b.part_number, if input is Some { inp.part_number } else { None }),
                revision_number: reported_field(phase.revision_number, b.revision_number, if input is Some { inp.revision_number } else { None }),
                batch_number: reported_field(phase.batch_number, b.batch_number, if input is Some { inp.batch_number } else { None }),
                sub_units: match (b.sub_units, changed) {
                    (Some(bs), Some(c)) => Some(bs.union_prefer_right(c)),
                    (Some(bs), None) => Some(bs),
                    (None, Some(c)) => if c.len() == 0 {
                        None
                    } else {
                        Some(c)
                    },
                    (None, None) => None,
                },
                status: phase.status,
                metadata: if phase.metadata is Some {
                    phase.metadata
                } else {
                    b.metadata
                },
            }
        },
    }
}

fn opt_text_eq(a: &Option<String>, b: &Option<String>) -> (r: bool)
    ensures
        r == (crate::unit::opt_text(*a) == crate::unit::opt_text(*b)),
{
    match (a, b) {
        (Some(x), Some(y)) => crate::string_map::str_eq(x.as_str(), y.as_str()),
        (None, None) => true,
        _ => false,
    }
}

fn take_reported(phase: &Option<String>, base: Option<String>, input: &Option<String>) -> (r: Option<String>)
    ensures
        crate::unit::opt_text(r) == reported_field(crate::unit::opt_text(*phase), crate::unit::opt_text(base), crate::unit::opt_text(*input)),
{
    if phase.is_some() && !opt_text_eq(phase, input) {
        copy_opt_text(phase)
    } else {
        base
    }
}

/// Applies a phase's reported identification to the accumulated one,
/// against what the phase was given.
pub fn merge_phase_unit(base: Option<UnitInfo>, phase_unit: &UnitInfo, input: Option<&UnitInfo>) -> (r: UnitInfo)
    ensures
        r@ == phase_merged(opt_unit(base), phase_unit@, match input {
            Some(u) => Some(u@),
            None => None,
        }),
{
    match base {
        None => phase_unit.duplicate(),
        Some(b) => {
            let (in_serial, in_part, in_revision, in_batch) = match input {
                Some(u) => (copy_opt_text(&u.serial_number), copy_opt_text(&u.part_number), copy_opt_text(&u.revision_number), copy_opt_text(&u.batch_number)),
                None => (None, None, None, None),
            };
            let input_subs = match input {
                Some(u) => match &u.sub_units {
                    Some(m) => m.duplicate(),
                    None => StringMap::new(),
                },
                None => StringMap::new(),
            };
            let changed = match &phase_unit.sub_units {
                Some(p) => Some(p.changed_from(&input_subs)),
                None => None,
            };
            let sub_units = match (b.sub_units, changed) {
                (Some(mut bs), Some(c)) => {
                    bs.insert_all(&c);
                    Some(bs)
                },
                (Some(bs), None) => Some(bs),
                (None, Some(c)) => if c.is_empty() {
                    None
                } else {
                    Some(c)
                },
                (None, None) => None,
            };
            UnitInfo {
                serial_number: take_reported(&phase_unit.serial_number, b.serial_number, &in_serial),
                part_number: take_reported(&phase_unit.part_number, b.part_number, &in_part),
                revision_number: take_reported(&phase_unit.revision_number, b.revision_number, &in_revision),
                batch_number: take_reported(&phase_unit.batch_number, b.batch_number, &in_batch),
                sub_units,
                status: phase_unit.status.clone(),
                metadata: match &phase_unit.metadata {
                    Some(m) => Some(m.duplicate()),
                    None => b.metadata,
                },
            }
        },
    }
}

/// A sub-unit that a phase reports with a value other than the one it was
/// given is in the identification afterwards, with the reported value,
/// whatever the accumulated identification held: sub-units, none, or no
/// identification at all.
pub proof fn lemma_reported_sub_unit_kept(
    base: Option<UnitInfoView>,
    phase: UnitInfoView,
    input: Option<UnitInfoView>,
    k: Seq<char>,
)
    requires
        phase.sub_units matches Some(p) && p.dom().finite() && p.contains_key(k),
        !(input matches Some(u) && u.sub_units matches Some(g) && g.contains_key(k) && g[k]
            == phase.sub_units->0[k]),
    ensures
        phase_merged(base, phase, input).sub_units matches Some(r) && r.contains_key(k) && r[k]
            == phase.sub_units->0[k],
{
    let p = phase.sub_units->0;
    let c = changed_entries(p, input_sub_units(input));
    assert(c.contains_key(k));
    assert(c.dom().subset_of(p.dom()));
    vstd::set_lib::lemma_len_subset(c.dom(), p.dom());
    vstd::set_lib::lemma_set_empty_equivalency_len(c.dom());
    assert(c.dom().len() != 0) by {
        if c.dom().len() == 0 {
            assert(c.dom() == Set::<Seq<char>>::empty());
            assert(c.dom().contains(k));
        }
    }
}

/// A phase's report of the unit, with what the phase was given.
pub struct UnitReport {
    pub unit: UnitInfo,
    pub input: Option<UnitInfo>,
}

/// The identification after applying reports in order.
pub open spec fn merged_reports(initial: Option<UnitInfoView>, reports: Seq<UnitReport>) -> Option<UnitInfoView>
    decreases reports.len(),
{
    if reports.len() == 0 {
        initial
    } else {
        let last = reports.last();
        Some(phase_merged(merged_reports(initial, reports.drop_last()), last.unit@, opt_unit(last.input)))
    }
}

/// Applies phase reports in order to a slot's starting identification.
pub fn merge_unit_reports(initial: Option<UnitInfo>, reports: &Vec<UnitReport>) -> (r: Option<UnitInfo>)
    ensures
        opt_unit(r) == merged_reports(opt_unit(initial), reports@),
{
    let mut merged = initial;
    let mut i: usize = 0;
    while i < reports.len()
        invariant
            i <= reports@.len(),
            opt_unit(merged) == merged_reports(opt_unit(initial), reports@.subrange(0, i as int)),
        decreases reports@.len() - i,
    {
        proof {
            assert(reports@.subrange(0, i + 1).drop_last() =~= reports@.subrange(0, i as int));
        }
        let report = &reports[i];
        let input = match &report.input {
            Some(u) => Some(u),
            None => None,
        };
        merged = Some(merge_phase_unit(merged, &report.unit, input));
        i = i + 1;
    }
    assert(reports@.subrange(0, i as int) =~= reports@);
    merged
}

/// A phase that reports back what it was given changes no identification
/// field and no sub-unit of the accumulated identification.
pub proof fn lemma_unchanged_report_keeps_fields(b: UnitInfoView, p: UnitInfoView)
    requires
        b.sub_units is Some,
    ensures
        ({
            let r = phase_merged(Some(b), p, Some(p));
            &&& r.serial_number == b.serial_number
            &&& r.part_number == b.part_number
            &&& r.revision_number == b.revision_number
            &&& r.batch_number == b.batch_number
            &&& r.sub_units == b.sub_units
        }),
{
    let r = phase_merged(Some(b), p, Some(p));
    match p.sub_units {
        Some(ps) => {
            assert(changed_entries(ps, input_sub_units(Some(p))) =~= Map::empty());
            assert(b.sub_units->0.union_prefer_right(Map::empty()) =~= b.sub_units->0);
        },
        None => {},
    }
}

/// What the operator entered always wins: each entered field is the
/// field of the result, and each entered sub-unit is in it.
pub proof fn lemma_entered_fields_win(existing: Option<UnitInfoView>, ui: UnitInfoView)
    ensures
        ({
            let r = ui_merged(existing, ui);
            &&& ui.serial_number is Some ==> r.serial_number == ui.serial_number
            &&& ui.part_number is Some ==> r.part_number == ui.part_number
            &&& ui.revision_number is Some ==> r.revision_number == ui.revision_number
            &&& ui.batch_number is Some ==> r.batch_number == ui.batch_number
            &&& ui.sub_units matches Some(u) ==> (r.sub_units matches Some(rs) && forall|k: Seq<char>| #[trigger] u.contains_key(k) ==> rs.contains_key(k) && rs[k] == u[k])
        }),
{
}

} // verus!

//! Unit identification (serial number, part number, sub-units) and its
//! validation against the procedure's unit configuration.

use vstd::prelude::*;
use crate::pattern::{compile_pattern, pattern_is_match, regex_compiles, regex_error_text, regex_finds_match};
use crate::schema::{item_key, SubUnitItemConfig, SubUnitsConfig, UnitConfig, UnitFieldConfig};
use crate::string_map::{str_eq, StringMap};
use crate::text::{byte_len, copy_opt_text, decimal, push_decimal, push_str, text_of, trim, trim_spec, utf8_len};

verus! {

/// Identification of the unit under test.
#[derive(Debug)]
pub struct UnitInfo {
    pub serial_number: Option<String>,
    pub part_number: Option<String>,
    pub revision_number: Option<String>,
    pub batch_number: Option<String>,
    /// Sub-units: key -> serial number.
    pub sub_units: Option<StringMap>,
    pub status: String,
    /// Operator-entered metadata: key -> value.
    pub metadata: Option<StringMap>,
}

/// What a unit identification holds, as text.
pub ghost struct UnitInfoView {
    pub serial_number: Option<Seq<char>>,
    pub part_number: Option<Seq<char>>,
    pub revision_number: Option<Seq<char>>,
    pub batch_number: Option<Seq<char>>,
    pub sub_units: Option<Map<Seq<char>, Seq<char>>>,
    pub status: Seq<char>,
    pub metadata: Option<Map<Seq<char>, Seq<char>>>,
}

impl View for UnitInfo {
    type V = UnitInfoView;

    open spec fn view(&self) -> UnitInfoView {
        UnitInfoView {
            serial_number: opt_text(self.serial_number),
            part_number: opt_text(self.part_number),
            revision_number: opt_text(self.revision_number),
            batch_number: opt_text(self.batch_number),
            sub_units: opt_map(self.sub_units),
            status: self.status@,
            metadata: opt_map(self.metadata),
        }
    }
}

/// The view of an optional unit identification.
pub open spec fn opt_unit(o: Option<UnitInfo>) -> Option<UnitInfoView> {
    match o {
        Some(u) => Some(u@),
        None => None,
    }
}

/// A copy of an optional string map.
pub fn copy_opt_map(o: &Option<StringMap>) -> (r: Option<StringMap>)
    ensures
        opt_map(r) == opt_map(*o),
{
    match o {
        Some(m) => Some(m.duplicate()),
        None => None,
    }
}

impl UnitInfo {
    /// A copy of this identification.
    pub fn duplicate(&self) -> (r: UnitInfo)
        ensures
            r@ == self@,
    {
        UnitInfo {
            serial_number: copy_opt_text(&self.serial_number),
            part_number: copy_opt_text(&self.part_number),
            revision_number: copy_opt_text(&self.revision_number),
            batch_number: copy_opt_text(&self.batch_number),
            sub_units: copy_opt_map(&self.sub_units),
            status: self.status.clone(),
            metadata: copy_opt_map(&self.metadata),
        }
    }
}

/// A copy of an optional unit identification.
pub fn copy_opt_unit(o: &Option<UnitInfo>) -> (r: Option<UnitInfo>)
    ensures
        opt_unit(r) == opt_unit(*o),
{
    match o {
        Some(u) => Some(u.duplicate()),
        None => None,
    }
}

/// The text of an optional string.
pub open spec fn opt_text(o: Option<String>) -> Option<Seq<char>> {
    match o {
        Some(s) => Some(s@),
        None => None,
    }
}

/// The map of an optional string map.
pub open spec fn opt_map(o: Option<StringMap>) -> Option<Map<Seq<char>, Seq<char>>> {
    match o {
        Some(m) => Some(m@),
        None => None,
    }
}

/// Length and pattern constraints applied to an already trimmed value.
pub open spec fn constraints_check(label: Seq<char>, t: Seq<char>, cfg: UnitFieldConfig) -> Result<(), Seq<char>> {
    if cfg.min_length is Some && byte_len(t) < cfg.min_length->0 {
        Err(label + " must be at least "@ + decimal(cfg.min_length->0 as nat) + " characters (got "@
            + decimal(byte_len(t)) + ")"@)
    } else if cfg.max_length is Some && byte_len(t) > cfg.max_length->0 {
        Err(label + " must be at most "@ + decimal(cfg.max_length->0 as nat) + " characters (got "@
            + decimal(byte_len(t)) + ")"@)
    } else if cfg.pattern is Some {
        let p = cfg.pattern->0@;
        if !regex_compiles(p) {
            Err("Invalid validation pattern for "@ + label + ": "@ + regex_error_text(p))
        } else if !regex_finds_match(p, t) {
            Err(label + " does not match required format: "@ + p)
        } else {
            Ok(())
        }
    } else {
        Ok(())
    }
}

/// Fields that must always be present: the serial number and the part
/// number, named either by their internal or by their display names.
pub open spec fn is_required_field(name: Seq<char>) -> bool {
    name == "serial_number"@ || name == "part_number"@ || name == "Serial Number"@ || name
        == "Part Number"@
}

/// The verdict on one unit field.
pub open spec fn unit_field_check(name: Seq<char>, value: Option<Seq<char>>, cfg: UnitFieldConfig) -> Result<(), Seq<char>> {
    if is_required_field(name) && value is None {
        Err(name + " is required"@)
    } else if is_required_field(name) && trim_spec(value->0).len() == 0 {
        Err(name + " cannot be empty"@)
    } else {
        match value {
            None => Ok(()),
            Some(v) => {
                let t = trim_spec(v);
                if t.len() == 0 {
                    Err(name + " cannot be empty or contain only whitespace"@)
                } else {
                    constraints_check(name, t, cfg)
                }
            },
        }
    }
}

/// The verdict on one sub-unit serial number.
pub open spec fn sub_unit_field_check(label: Seq<char>, value: Seq<char>, cfg: Option<UnitFieldConfig>) -> Result<(), Seq<char>> {
    let t = trim_spec(value);
    if t.len() == 0 {
        Err(label + " serial number is required"@)
    } else {
        match cfg {
            None => Ok(()),
            Some(c) => constraints_check(label, t, c),
        }
    }
}

/// The verdict on one configured sub-unit.
pub open spec fn sub_unit_item_check(m: Map<Seq<char>, Seq<char>>, item: SubUnitItemConfig) -> Result<(), Seq<char>> {
    let key = item_key(item);
    if !m.contains_key(key) {
        Err("Missing sub-unit '"@ + item.label@ + "' (key: "@ + key + ")"@)
    } else {
        sub_unit_field_check(item.label@, m[key], item.serial_number)
    }
}

/// The verdict on the configured sub-units, in order: the first failure wins.
pub open spec fn sub_unit_items_check(m: Map<Seq<char>, Seq<char>>, items: Seq<SubUnitItemConfig>) -> Result<(), Seq<char>>
    decreases items.len(),
{
    if items.len() == 0 {
        Ok(())
    } else {
        match sub_unit_items_check(m, items.drop_last()) {
            Err(e) => Err(e),
            Ok(_) => sub_unit_item_check(m, items.last()),
        }
    }
}

/// The verdict on a unit's sub-units against the configured list.
pub open spec fn sub_units_check(sub_units: Option<Map<Seq<char>, Seq<char>>>, items: Seq<SubUnitItemConfig>) -> Result<(), Seq<char>> {
    let n = items.len();
    match sub_units {
        None => Err("Expected "@ + decimal(n) + " sub-units but got none"@),
        Some(m) => if m.len() != n {
            Err("Expected "@ + decimal(n) + " sub-units but got "@ + decimal(m.len()))
        } else {
            sub_unit_items_check(m, items)
        },
    }
}

/// Runs a check only when the previous one passed.
pub open spec fn then_check(first: Result<(), Seq<char>>, next: Result<(), Seq<char>>) -> Result<(), Seq<char>> {
    match first {
        Err(e) => Err(e),
        Ok(_) => next,
    }
}

/// A field check that applies only when the field is configured.
pub open spec fn configured_field_check(name: Seq<char>, value: Option<Seq<char>>, cfg: Option<UnitFieldConfig>) -> Result<(), Seq<char>> {
    match cfg {
        None => Ok(()),
        Some(c) => unit_field_check(name, value, c),
    }
}

/// The verdict on a whole unit identification.
pub open spec fn unit_info_check(u: UnitInfo, config: Option<UnitConfig>) -> Result<(), Seq<char>> {
    match config {
        None => Ok(()),
        Some(c) => then_check(
            configured_field_check("Serial Number"@, opt_text(u.serial_number), c.serial_number),
            then_check(
                configured_field_check("Part Number"@, opt_text(u.part_number), c.part_number),
                then_check(
                    configured_field_check("Revision Number"@, opt_text(u.revision_number), c.revision_number),
                    then_check(
                        configured_field_check("Batch Number"@, opt_text(u.batch_number), c.batch_number),
                        match c.sub_units {
                            None => Ok(()),
                            Some(s) => sub_units_check(opt_map(u.sub_units), s.0@),
                        },
                    ),
                ),
            ),
        ),
    }
}

/// Matches an error's text to its expected text.
pub open spec fn same_verdict(r: Result<(), String>, s: Result<(), Seq<char>>) -> bool {
    match (r, s) {
        (Ok(_), Ok(_)) => true,
        (Err(e), Err(m)) => e@ == m,
        _ => false,
    }
}


/// Checks the length and pattern constraints on a trimmed value.
fn check_constraints(label: &str, t: &String, cfg: &UnitFieldConfig) -> (r: Result<(), String>)
    ensures
        same_verdict(r, constraints_check(label@, t@, *cfg)),
{
    let len = utf8_len(t);
    if let Some(min) = cfg.min_length {
        if len < min as u128 {
            let mut msg = text_of(label);
            push_str(&mut msg, " must be at least ");
            push_decimal(&mut msg, min as u128);
            push_str(&mut msg, " characters (got ");
            push_decimal(&mut msg, len);
            push_str(&mut msg, ")");
            return Err(msg);
        }
    }
    if let Some(max) = cfg.max_length {
        if len > max as u128 {
            let mut msg = text_of(label);
            push_str(&mut msg, " must be at most ");
            push_decimal(&mut msg, max as u128);
            push_str(&mut msg, " characters (got ");
            push_decimal(&mut msg, len);
            push_str(&mut msg, ")");
            return Err(msg);
        }
    }
    if let Some(pattern) = &cfg.pattern {
        match compile_pattern(pattern.as_str()) {
            Err(e) => {
                let mut msg = text_of("Invalid validation pattern for ");
                push_str(&mut msg, label);
                push_str(&mut msg, ": ");
                push_str(&mut msg, e.as_str());
                return Err(msg);
            },
            Ok(re) => {
                if !pattern_is_match(&re, t.as_str()) {
                    let mut msg = text_of(label);
                    push_str(&mut msg, " does not match required format: ");
                    push_str(&mut msg, pattern.as_str());
                    return Err(msg);
                }
            },
        }
    }
    Ok(())
}

/// Validates one unit field against its configuration. The serial number and
/// the part number (`serial_number`, `part_number`, or their display names
/// `Serial Number`, `Part Number`) are always required.
pub fn validate_unit_field(field_name: &str, value: &Option<String>, config: &UnitFieldConfig) -> (r: Result<(), String>)
    ensures
        same_verdict(r, unit_field_check(field_name@, opt_text(*value), *config)),
{
    let is_required = str_eq(field_name, "serial_number") || str_eq(field_name, "part_number")
        || str_eq(field_name, "Serial Number") || str_eq(field_name, "Part Number");
    if is_required {
        match value {
            None => {
                let mut msg = text_of(field_name);
                push_str(&mut msg, " is required");
                return Err(msg);
            },
            Some(v) => {
                let t = trim(v.as_str());
                if t.unicode_len() == 0 {
                    let mut msg = text_of(field_name);
                    push_str(&mut msg, " cannot be empty");
                    return Err(msg);
                }
            },
        }
    }
    match value {
        None => Ok(()),
        Some(v) => {
            let t = trim(v.as_str());
            if t.unicode_len() == 0 {
                let mut msg = text_of(field_name);
                push_str(&mut msg, " cannot be empty or contain only whitespace");
                return Err(msg);
            }
            check_constraints(field_name, &t, config)
        },
    }
}

/// Validates one sub-unit serial number: it must not be blank, and must meet
/// the configured constraints, if any.
pub fn validate_sub_unit_field(label: &str, value: &str, config: &Option<UnitFieldConfig>) -> (r: Result<(), String>)
    ensures
        same_verdict(r, sub_unit_field_check(label@, value@, *config)),
{
    let t = trim(value);
    if t.unicode_len() == 0 {
        let mut msg = text_of(label);
        push_str(&mut msg, " serial number is required");
        return Err(msg);
    }
    match config {
        None => Ok(()),
        Some(c) => check_constraints(label, &t, c),
    }
}

/// Validates a unit's sub-units against the configured list: the count must
/// match, and each configured sub-unit must be present and valid.
pub fn validate_sub_units(sub_units: &Option<StringMap>, sub_units_config: &SubUnitsConfig) -> (r: Result<(), String>)
    ensures
        same_verdict(r, sub_units_check(opt_map(*sub_units), sub_units_config.0@)),
{
    let items = &sub_units_config.0;
    let expected_count = items.len();
    let m = match sub_units {
        None => {
            let mut msg = text_of("Expected ");
            push_decimal(&mut msg, expected_count as u128);
            push_str(&mut msg, " sub-units but got none");
            return Err(msg);
        },
        Some(m) => m,
    };
    let got = m.len();
    if got != expected_count {
        let mut msg = text_of("Expected ");
        push_decimal(&mut msg, expected_count as u128);
        push_str(&mut msg, " sub-units but got ");
        push_decimal(&mut msg, got as u128);
        return Err(msg);
    }
    let mut i: usize = 0;
    while i < items.len()
        invariant
            i <= items@.len(),
            items@ == sub_units_config.0@,
            opt_map(*sub_units) == Some(m@),
            m@.len() == items@.len(),
            sub_unit_items_check(m@, items@.subrange(0, i as int)) is Ok,
        decreases items@.len() - i,
    {
        let item = &items[i];
        let key = item.get_key();
        proof {
            assert(items@.subrange(0, i + 1).drop_last() =~= items@.subrange(0, i as int));
            assert(items@.subrange(0, i + 1).last() == items@[i as int]);
        }
        match m.get(key.as_str()) {
            None => {
                let mut msg = text_of("Missing sub-unit '");
                push_str(&mut msg, item.label.as_str());
                push_str(&mut msg, "' (key: ");
                push_str(&mut msg, key.as_str());
                push_str(&mut msg, ")");
                proof { lemma_items_check_prefix_error(m@, items@, i as int); }
                return Err(msg);
            },
            Some(serial) => {
                let r = validate_sub_unit_field(item.label.as_str(), serial.as_str(), &item.serial_number);
                if r.is_err() {
                    proof { lemma_items_check_prefix_error(m@, items@, i as int); }
                    return r;
                }
            },
        }
        i = i + 1;
    }
    assert(items@.subrange(0, items@.len() as int) =~= items@);
    Ok(())
}

/// Once a prefix of the items fails, the whole list fails with that error.
proof fn lemma_items_check_prefix_error(m: Map<Seq<char>, Seq<char>>, items: Seq<SubUnitItemConfig>, i: int)
    requires
        0 <= i < items.len(),
        sub_unit_items_check(m, items.subrange(0, i)) is Ok,
        sub_unit_item_check(m, items[i]) is Err,
    ensures
        sub_unit_items_check(m, items) == sub_unit_item_check(m, items[i]),
    decreases items.len() - i,
{
    let p = items.subrange(0, i + 1);
    assert(p.drop_last() =~= items.subrange(0, i));
    assert(p.last() == items[i]);
    lemma_items_check_extend_error(m, items, i + 1);
}

/// A failing prefix decides the verdict of every longer list.
proof fn lemma_items_check_extend_error(m: Map<Seq<char>, Seq<char>>, items: Seq<SubUnitItemConfig>, k: int)
    requires
        0 < k <= items.len(),
        sub_unit_items_check(m, items.subrange(0, k)) is Err,
    ensures
        sub_unit_items_check(m, items) == sub_unit_items_check(m, items.subrange(0, k)),
    decreases items.len() - k,
{
    if k == items.len() {
        assert(items.subrange(0, k) =~= items);
    } else {
        let p = items.subrange(0, k + 1);
        assert(p.drop_last() =~= items.subrange(0, k));
        lemma_items_check_extend_error(m, items, k + 1);
    }
}

/// Validates all unit fields against the unit configuration; with no
/// configuration everything is accepted. Fields are checked in the order
/// serial, part, revision and batch number, then sub-units.
pub fn validate_unit_info(unit_info: &UnitInfo, unit_config: &Option<UnitConfig>) -> (r: Result<(), String>)
    ensures
        same_verdict(r, unit_info_check(*unit_info, *unit_config)),
{
    let config = match unit_config {
        Some(c) => c,
        None => return Ok(()),
    };
    if let Some(sn) = &config.serial_number {
        let r = validate_unit_field("Serial Number", &unit_info.serial_number, sn);
        if r.is_err() {
            return r;
        }
    }
    if let Some(pn) = &config.part_number {
        let r = validate_unit_field("Part Number", &unit_info.part_number, pn);
        if r.is_err() {
            return r;
        }
    }
    if let Some(rv) = &config.revision_number {
        let r = validate_unit_field("Revision Number", &unit_info.revision_number, rv);
        if r.is_err() {
            return r;
        }
    }
    if let Some(bn) = &config.batch_number {
        let r = validate_unit_field("Batch Number", &unit_info.batch_number, bn);
        if r.is_err() {
            return r;
        }
    }
    if let Some(sc) = &config.sub_units {
        return validate_sub_units(&unit_info.sub_units, sc);
    }
    Ok(())
}

} // verus!

//! Setting up a run: the unit identification of each slot (prefilled from a
//! previous run, or from the procedure's defaults), the number of workers,
//! the execution strategy, and collecting the operator's entries.

use vstd::prelude::*;
use crate::schema::{ExecutionStrategy, ProcedureDefinition, SubUnitItemConfig, UnitConfig, UnitFieldConfig};
use crate::string_map::{entries_map, entry_keys, lemma_entries_map_push, str_eq, StringMap};
use crate::text::{copy_opt_text, copy_texts, push_str, text_of, trim, trim_spec};
use crate::schema::item_key;
use crate::unit::{opt_text, unit_info_check, validate_unit_info, UnitInfo};

verus! {

/// The rest of `s` after `prefix`, when `s` starts with it.
pub open spec fn after_prefix(s: Seq<char>, prefix: Seq<char>) -> Option<Seq<char>> {
    if prefix.len() <= s.len() && s.subrange(0, prefix.len() as int) == prefix {
        Some(s.subrange(prefix.len() as int, s.len() as int))
    } else {
        None
    }
}

/// Removes a prefix, as `str::strip_prefix` does.
pub fn strip_prefix(s: &str, prefix: &str) -> (r: Option<String>)
    ensures
        opt_text(r) == after_prefix(s@, prefix@),
{
    let n = s.unicode_len();
    let m = prefix.unicode_len();
    if m > n {
        return None;
    }
    let mut i: usize = 0;
    while i < m
        invariant
            m <= n,
            n == s@.len(),
            m == prefix@.len(),
            i <= m,
            forall|k: int| 0 <= k < i ==> s@[k] == prefix@[k],
        decreases m - i,
    {
        if s.get_char(i) != prefix.get_char(i) {
            assert(s@.subrange(0, m as int)[i as int] != prefix@[i as int]);
            return None;
        }
        i = i + 1;
    }
    assert(s@.subrange(0, m as int) =~= prefix@);
    Some(text_of(s.substring_char(m, n)))
}

/// The entries of `m` whose key starts with `prefix`, keyed by the rest.
pub open spec fn with_prefix(m: Map<Seq<char>, Seq<char>>, prefix: Seq<char>) -> Map<Seq<char>, Seq<char>> {
    Map::new(|l: Seq<char>| m.contains_key(prefix + l), |l: Seq<char>| m[prefix + l])
}

proof fn lemma_prefix_key(k: Seq<char>, prefix: Seq<char>, l: Seq<char>)
    ensures
        (prefix + l == k) <==> (after_prefix(k, prefix) == Some(l)),
{
    if prefix + l == k {
        assert(k.subrange(0, prefix.len() as int) =~= prefix);
        assert(k.subrange(prefix.len() as int, k.len() as int) =~= l);
    }
    if after_prefix(k, prefix) == Some(l) {
        assert(prefix + l =~= k);
    }
}

/// The entries of a map whose key starts with `prefix`, keyed by the rest.
pub fn entries_with_prefix(m: &StringMap, prefix: &str) -> (r: StringMap)
    ensures
        r@ == with_prefix(m@, prefix@),
{
    let pairs = m.to_pairs();
    let mut r = StringMap::new();
    let mut i: usize = 0;
    while i < pairs.len()
        invariant
            i <= pairs@.len(),
            entries_map(pairs@) == m@,
            r@ == with_prefix(entries_map(pairs@.subrange(0, i as int)), prefix@),
        decreases pairs@.len() - i,
    {
        let ghost pre = pairs@.subrange(0, i as int);
        let ghost e = pairs@[i as int];
        proof {
            lemma_entries_map_push(pre, e);
            assert(pairs@.subrange(0, i + 1) =~= pre.push(e));
        }
        let rest = strip_prefix(pairs[i].0.as_str(), prefix);
        match rest {
            Some(l) => {
                r.insert(l, pairs[i].1.clone());
            },
            None => {},
        }
        proof {
            let before = entries_map(pre);
            let after = entries_map(pairs@.subrange(0, i + 1));
            assert forall|l: Seq<char>| #[trigger] with_prefix(after, prefix@).contains_key(l) == r@.contains_key(l)
                && (r@.contains_key(l) ==> with_prefix(after, prefix@)[l] == r@[l]) by {
                lemma_prefix_key(e.0@, prefix@, l);
            }
            assert(r@ =~= with_prefix(after, prefix@));
        }
        i = i + 1;
    }
    assert(pairs@.subrange(0, i as int) =~= pairs@);
    r
}

/// The keys of the declared metadata fields, in order.
pub open spec fn declared_keys(md: Seq<(String, UnitFieldConfig)>) -> Seq<Seq<char>> {
    md.map_values(|e: (String, UnitFieldConfig)| e.0@)
}

/// The metadata a prefilled run carries: the `metadata:` entries whose key
/// the unit configuration declares, trimmed, when not blank.
pub open spec fn prefill_metadata(m: Map<Seq<char>, Seq<char>>, declared: Seq<Seq<char>>) -> Map<Seq<char>, Seq<char>> {
    let md = with_prefix(m, "metadata:"@);
    Map::new(|k: Seq<char>| md.contains_key(k) && declared.contains(k) && trim_spec(md[k]).len() > 0, |k: Seq<char>| trim_spec(md[k]))
}

fn is_declared(declared: &Vec<(String, UnitFieldConfig)>, key: &str) -> (b: bool)
    ensures
        b == declared_keys(declared@).contains(key@),
{
    let mut i: usize = 0;
    while i < declared.len()
        invariant
            i <= declared@.len(),
            forall|j: int| 0 <= j < i ==> declared_keys(declared@)[j] != key@,
        decreases declared@.len() - i,
    {
        if str_eq(declared[i].0.as_str(), key) {
            assert(declared_keys(declared@)[i as int] == key@);
            return true;
        }
        i = i + 1;
    }
    false
}

/// The metadata entries of a prefill that the configuration declares,
/// trimmed, when not blank.
fn declared_metadata(m: &StringMap, declared: &Option<Vec<(String, UnitFieldConfig)>>) -> (r: StringMap)
    ensures
        r@ == prefill_metadata(m@, match declared {
            Some(d) => declared_keys(d@),
            None => Seq::empty(),
        }),
{
    let ghost dk = match declared {
        Some(d) => declared_keys(d@),
        None => Seq::<Seq<char>>::empty(),
    };
    let md = entries_with_prefix(m, "metadata:");
    let pairs = md.to_pairs();
    let mut r = StringMap::new();
    let mut i: usize = 0;
    while i < pairs.len()
        invariant
            i <= pairs@.len(),
            entries_map(pairs@) == md@,
            entry_keys(pairs@).no_duplicates(),
            dk == match declared {
                Some(d) => declared_keys(d@),
                None => Seq::<Seq<char>>::empty(),
            },
            r@ == prefill_metadata_of(entries_map(pairs@.subrange(0, i as int)), dk),
        decreases pairs@.len() - i,
    {
        let ghost pre = pairs@.subrange(0, i as int);
        let ghost e = pairs@[i as int];
        proof {
            lemma_entries_map_push(pre, e);
            assert(pairs@.subrange(0, i + 1) =~= pre.push(e));
            assert forall|j: int| 0 <= j < pre.len() implies #[trigger] pre[j].0@ != e.0@ by {
                assert(entry_keys(pairs@)[j] == pre[j].0@);
                assert(entry_keys(pairs@)[i as int] == e.0@);
            }
            crate::string_map::lemma_lookup_absent(pre, e.0@);
        }
        let key = pairs[i].0.as_str();
        let known = match declared {
            Some(d) => is_declared(d, key),
            None => false,
        };
        let value = trim(pairs[i].1.as_str());
        if known && value.unicode_len() > 0 {
            r.insert(pairs[i].0.clone(), value);
        }
        proof {
            assert(r@ =~= prefill_metadata_of(entries_map(pairs@.subrange(0, i + 1)), dk));
        }
        i = i + 1;
    }
    assert(pairs@.subrange(0, i as int) =~= pairs@);
    assert(r@ =~= prefill_metadata(m@, dk));
    r
}

/// The declared, non-blank entries of already stripped metadata, trimmed.
pub open spec fn prefill_metadata_of(md: Map<Seq<char>, Seq<char>>, declared: Seq<Seq<char>>) -> Map<Seq<char>, Seq<char>> {
    Map::new(|k: Seq<char>| md.contains_key(k) && declared.contains(k) && trim_spec(md[k]).len() > 0, |k: Seq<char>| trim_spec(md[k]))
}

/// A map, or none when it is empty.
pub open spec fn non_empty(m: Map<Seq<char>, Seq<char>>) -> Option<Map<Seq<char>, Seq<char>>> {
    if m.len() == 0 {
        None
    } else {
        Some(m)
    }
}

/// A text entry of a map, if present.
pub open spec fn entry(m: Map<Seq<char>, Seq<char>>, k: Seq<char>) -> Option<Seq<char>> {
    if m.contains_key(k) {
        Some(m[k])
    } else {
        None
    }
}

fn lookup_text(m: &StringMap, key: &str) -> (r: Option<String>)
    ensures
        opt_text(r) == entry(m@, key@),
{
    match m.get(key) {
        Some(v) => Some(v.clone()),
        None => None,
    }
}

fn some_or_empty(m: StringMap) -> (r: Option<StringMap>)
    ensures
        crate::unit::opt_map(r) == non_empty(m@),
{
    if m.is_empty() {
        None
    } else {
        Some(m)
    }
}

/// The identification of a slot in a repeated run: serial and part numbers
/// (empty when missing), revision and batch numbers when present, the
/// `sub_unit:` entries as sub-units, the declared `metadata:` entries as
/// metadata; complete.
pub fn prefill_unit_info(slot_data: &StringMap, unit: &Option<UnitConfig>) -> (u: UnitInfo)
    ensures
        u@.serial_number == Some(match entry(slot_data@, "serial_number"@) { Some(v) => v, None => Seq::empty() }),
        u@.part_number == Some(match entry(slot_data@, "part_number"@) { Some(v) => v, None => Seq::empty() }),
        u@.revision_number == entry(slot_data@, "revision_number"@),
        u@.batch_number == entry(slot_data@, "batch_number"@),
        u@.sub_units == non_empty(with_prefix(slot_data@, "sub_unit:"@)),
        u@.metadata == non_empty(prefill_metadata(slot_data@, match unit {
            Some(c) => match c.metadata {
                Some(d) => declared_keys(d@),
                None => Seq::empty(),
            },
            None => Seq::empty(),
        })),
        u@.status == "complete"@,
{
    let serial = match lookup_text(slot_data, "serial_number") {
        Some(v) => v,
        None => String::new(),
    };
    let part = match lookup_text(slot_data, "part_number") {
        Some(v) => v,
        None => String::new(),
    };
    let none_declared: Option<Vec<(String, UnitFieldConfig)>> = None;
    let metadata = match unit {
        Some(c) => declared_metadata(slot_data, &c.metadata),
        None => declared_metadata(slot_data, &none_declared),
    };
    UnitInfo {
        serial_number: Some(serial),
        part_number: Some(part),
        revision_number: lookup_text(slot_data, "revision_number"),
        batch_number: lookup_text(slot_data, "batch_number"),
        sub_units: some_or_empty(entries_with_prefix(slot_data, "sub_unit:")),
        status: text_of("complete"),
        metadata: some_or_empty(metadata),
    }
}

/// The declared metadata keys of an optional unit configuration.
pub open spec fn config_metadata_keys(unit: Option<UnitConfig>) -> Seq<Seq<char>> {
    match unit {
        Some(c) => match c.metadata {
            Some(d) => declared_keys(d@),
            None => Seq::empty(),
        },
        None => Seq::empty(),
    }
}

/// The identification an operator submitted for a slot: the four fields
/// when present, the `sub_unit:` entries as sub-units, the declared
/// `metadata:` entries (trimmed, when not blank) as metadata; active.
pub fn unit_info_from_submission(unit_data: &StringMap, unit_config: &Option<UnitConfig>) -> (u: UnitInfo)
    ensures
        u@.serial_number == entry(unit_data@, "serial_number"@),
        u@.part_number == entry(unit_data@, "part_number"@),
        u@.revision_number == entry(unit_data@, "revision_number"@),
        u@.batch_number == entry(unit_data@, "batch_number"@),
        u@.sub_units == non_empty(with_prefix(unit_data@, "sub_unit:"@)),
        u@.metadata == non_empty(prefill_metadata(unit_data@, config_metadata_keys(*unit_config))),
        u@.status == "active"@,
{
    let none_declared: Option<Vec<(String, UnitFieldConfig)>> = None;
    let metadata = match unit_config {
        Some(c) => declared_metadata(unit_data, &c.metadata),
        None => declared_metadata(unit_data, &none_declared),
    };
    UnitInfo {
        serial_number: lookup_text(unit_data, "serial_number"),
        part_number: lookup_text(unit_data, "part_number"),
        revision_number: lookup_text(unit_data, "revision_number"),
        batch_number: lookup_text(unit_data, "batch_number"),
        sub_units: some_or_empty(entries_with_prefix(unit_data, "sub_unit:")),
        status: text_of("active"),
        metadata: some_or_empty(metadata),
    }
}

/// Checks an operator's submission: the identification it stands for
/// (see `unit_info_from_submission`) when it meets the unit configuration,
/// the validation error otherwise.
pub fn check_unit_submission(unit_data: &StringMap, unit_config: &Option<UnitConfig>) -> (r: Result<UnitInfo, String>)
    ensures
        match r {
            Ok(u) => u@.serial_number == entry(unit_data@, "serial_number"@)
                && u@.part_number == entry(unit_data@, "part_number"@)
                && u@.revision_number == entry(unit_data@, "revision_number"@)
                && u@.batch_number == entry(unit_data@, "batch_number"@)
                && u@.sub_units == non_empty(with_prefix(unit_data@, "sub_unit:"@))
                && u@.metadata == non_empty(prefill_metadata(unit_data@, config_metadata_keys(*unit_config)))
                && u@.status == "active"@
                && unit_info_check(u, *unit_config) is Ok,
            Err(e) => exists|u: UnitInfo|
                u@.serial_number == entry(unit_data@, "serial_number"@)
                && u@.part_number == entry(unit_data@, "part_number"@)
                && u@.revision_number == entry(unit_data@, "revision_number"@)
                && u@.batch_number == entry(unit_data@, "batch_number"@)
                && u@.sub_units == non_empty(with_prefix(unit_data@, "sub_unit:"@))
                && u@.metadata == non_empty(prefill_metadata(unit_data@, config_metadata_keys(*unit_config)))
                && u@.status == "active"@
                && #[trigger] unit_info_check(u, *unit_config) == Err::<(), Seq<char>>(e@),
        },
{
    let u = unit_info_from_submission(unit_data, unit_config);
    match validate_unit_info(&u, unit_config) {
        Ok(()) => Ok(u),
        Err(e) => Err(e),
    }
}

/// The default value of an optional field configuration.
pub open spec fn default_of(f: Option<UnitFieldConfig>) -> Option<Seq<char>> {
    match f {
        Some(c) => opt_text(c.default_value),
        None => None,
    }
}

fn default_text(f: &Option<UnitFieldConfig>) -> (r: Option<String>)
    ensures
        opt_text(r) == default_of(*f),
{
    match f {
        Some(c) => copy_opt_text(&c.default_value),
        None => None,
    }
}

/// The sub-units that have a default serial number, by key (the last item
/// wins on a shared key).
pub open spec fn default_sub_units(items: Seq<SubUnitItemConfig>) -> Map<Seq<char>, Seq<char>>
    decreases items.len(),
{
    if items.len() == 0 {
        Map::empty()
    } else {
        let rest = default_sub_units(items.drop_last());
        match default_of(items.last().serial_number) {
            Some(v) => rest.insert(item_key(items.last()), v),
            None => rest,
        }
    }
}

/// The metadata fields that have a default value, by key.
pub open spec fn default_metadata(md: Seq<(String, UnitFieldConfig)>) -> Map<Seq<char>, Seq<char>>
    decreases md.len(),
{
    if md.len() == 0 {
        Map::empty()
    } else {
        let rest = default_metadata(md.drop_last());
        match opt_text(md.last().1.default_value) {
            Some(v) => rest.insert(md.last().0@, v),
            None => rest,
        }
    }
}

/// The identification that auto-identification gives every slot: each
/// field's default value (serial and part numbers empty without one), the
/// sub-units and metadata with defaults (none when there are none);
/// complete.
pub fn auto_identify_unit_info(unit: &UnitConfig) -> (u: UnitInfo)
    ensures
        u@.serial_number == Some(match default_of(unit.serial_number) { Some(v) => v, None => Seq::empty() }),
        u@.part_number == Some(match default_of(unit.part_number) { Some(v) => v, None => Seq::empty() }),
        u@.revision_number == default_of(unit.revision_number),
        u@.batch_number == default_of(unit.batch_number),
        u@.sub_units == (match unit.sub_units {
            Some(items) => non_empty(default_sub_units(items.0@)),
            None => None,
        }),
        u@.metadata == (match unit.metadata {
            Some(md) => non_empty(default_metadata(md@)),
            None => None,
        }),
        u@.status == "complete"@,
{
    let serial = match default_text(&unit.serial_number) {
        Some(v) => v,
        None => String::new(),
    };
    let part = match default_text(&unit.part_number) {
        Some(v) => v,
        None => String::new(),
    };
    let sub_units = match &unit.sub_units {
        Some(items) => {
            let mut m = StringMap::new();
            let mut i: usize = 0;
            while i < items.0.len()
                invariant
                    i <= items.0@.len(),
                    m@ == default_sub_units(items.0@.subrange(0, i as int)),
                decreases items.0@.len() - i,
            {
                proof {
                    assert(items.0@.subrange(0, i + 1).drop_last() =~= items.0@.subrange(0, i as int));
                }
                let item = &items.0[i];
                match default_text(&item.serial_number) {
                    Some(v) => {
                        m.insert(item.get_key(), v);
                    },
                    None => {},
                }
                i = i + 1;
            }
            assert(items.0@.subrange(0, i as int) =~= items.0@);
            some_or_empty(m)
        },
        None => None,
    };
    let metadata = match &unit.metadata {
        Some(md) => {
            let mut m = StringMap::new();
            let mut i: usize = 0;
            while i < md.len()
                invariant
                    i <= md@.len(),
                    m@ == default_metadata(md@.subrange(0, i as int)),
                decreases md@.len() - i,
            {
                proof {
                    assert(md@.subrange(0, i + 1).drop_last() =~= md@.subrange(0, i as int));
                }
                match copy_opt_text(&md[i].1.default_value) {
                    Some(v) => {
                        m.insert(md[i].0.clone(), v);
                    },
                    None => {},
                }
                i = i + 1;
            }
            assert(md@.subrange(0, i as int) =~= md@);
            some_or_empty(m)
        },
        None => None,
    };
    UnitInfo {
        serial_number: Some(serial),
        part_number: Some(part),
        revision_number: default_text(&unit.revision_number),
        batch_number: default_text(&unit.batch_number),
        sub_units,
        status: text_of("complete"),
        metadata,
    }
}

/// The execution strategy: the UI's choice when given (`slot_first`, or
/// phase-first for anything else), else the procedure's, else phase-first.
pub fn resolve_strategy(ui_choice: Option<&str>, configured: Option<ExecutionStrategy>) -> (s: ExecutionStrategy)
    ensures
        s == (match ui_choice {
            Some(c) => if c@ == "slot_first"@ {
                ExecutionStrategy::SlotFirst
            } else {
                ExecutionStrategy::PhaseFirst
            },
            None => match configured {
                Some(x) => x,
                None => ExecutionStrategy::PhaseFirst,
            },
        }),
{
    match ui_choice {
        Some(c) => if str_eq(c, "slot_first") {
            ExecutionStrategy::SlotFirst
        } else {
            ExecutionStrategy::PhaseFirst
        },
        None => match configured {
            Some(x) => x,
            None => ExecutionStrategy::PhaseFirst,
        },
    }
}

/// The number of workers: the UI's override, else the procedure's, else
/// the machine's processor count.
pub fn resolve_worker_count(worker_count_override: Option<u32>, configured: Option<usize>, cpus: usize) -> (n: usize)
    ensures
        n == (match worker_count_override {
            Some(c) => c as usize,
            None => match configured {
                Some(w) => w,
                None => cpus,
            },
        }),
{
    match worker_count_override {
        Some(c) => c as usize,
        None => match configured {
            Some(w) => w,
            None => cpus,
        },
    }
}

/// The slots a command-line run uses: the configured ones, or `SLOT_1`
/// when none are configured.
pub open spec fn configured_slots(p: ProcedureDefinition) -> Seq<Seq<char>> {
    match p.execution {
        Some(e) => if e.slots@.len() > 0 {
            e.slots@.map_values(|s: String| s@)
        } else {
            seq!["SLOT_1"@]
        },
        None => seq!["SLOT_1"@],
    }
}

/// The slots of a command-line run; a slot name that is empty or only white
/// space is refused.
pub fn run_slots(procedure: &ProcedureDefinition) -> (r: Result<Vec<String>, String>)
    ensures
        r is Ok <==> forall|i: int| 0 <= i < configured_slots(*procedure).len() ==> trim_spec(#[trigger] configured_slots(*procedure)[i]).len() > 0,
        r matches Ok(v) ==> v@.map_values(|s: String| s@) == configured_slots(*procedure),
        r matches Err(e) ==> e@ == "Slot names cannot be empty"@,
{
    let mut slots: Vec<String> = Vec::new();
    match &procedure.execution {
        Some(e) => {
            if e.slots.len() > 0 {
                slots = copy_texts(&e.slots);
            } else {
                slots.push(text_of("SLOT_1"));
            }
        },
        None => {
            slots.push(text_of("SLOT_1"));
        },
    }
    proof {
        reveal_strlit("SLOT_1");
    }
    assert(slots@.map_values(|s: String| s@) =~= configured_slots(*procedure));
    let ghost sv = configured_slots(*procedure);
    let mut i: usize = 0;
    while i < slots.len()
        invariant
            sv == configured_slots(*procedure),
            sv == slots@.map_values(|s: String| s@),
            i <= slots@.len(),
            forall|k: int| 0 <= k < i ==> trim_spec(#[trigger] sv[k]).len() > 0,
        decreases slots@.len() - i,
    {
        let t = trim(slots[i].as_str());
        if t.unicode_len() == 0 {
            assert(sv[i as int] == slots@[i as int]@);
            assert(trim_spec(configured_slots(*procedure)[i as int]).len() == 0);
            return Err(text_of("Slot names cannot be empty"));
        }
        i = i + 1;
    }
    Ok(slots)
}

/// The message for invalid slot names: a heading, then one bulleted line
/// per problem.
pub open spec fn slot_errors_text(messages: Seq<String>) -> Seq<char>
    decreases messages.len(),
{
    if messages.len() == 0 {
        "Slot validation failed:"@
    } else if messages.len() == 1 {
        "Slot validation failed:\n• "@ + messages[0]@
    } else {
        slot_errors_text(messages.drop_last()) + "\n• "@ + messages.last()@
    }
}

/// Builds the message for invalid slot names (none when there is no
/// problem).
pub fn slot_validation_error(messages: &Vec<String>) -> (r: Option<String>)
    ensures
        messages@.len() == 0 ==> r is None,
        messages@.len() > 0 ==> (r matches Some(e) && e@ == slot_errors_text(messages@)),
{
    if messages.len() == 0 {
        return None;
    }
    let mut e = text_of("Slot validation failed:\n• ");
    push_str(&mut e, messages[0].as_str());
    let mut i: usize = 1;
    proof {
        assert(messages@.subrange(0, 1) =~= seq![messages@[0]]);
    }
    while i < messages.len()
        invariant
            1 <= i <= messages@.len(),
            e@ == slot_errors_text(messages@.subrange(0, i as int)),
        decreases messages@.len() - i,
    {
        proof {
            assert(messages@.subrange(0, i + 1).drop_last() =~= messages@.subrange(0, i as int));
        }
        push_str(&mut e, "\n• ");
        push_str(&mut e, messages[i].as_str());
        proof {
            assert(e@ =~= slot_errors_text(messages@.subrange(0, i + 1)));
        }
        i = i + 1;
    }
    assert(messages@.subrange(0, i as int) =~= messages@);
    Some(e)
}

/// How the wait for a slot's identification ended.
pub enum UnitInput {
    Received(UnitInfo),
    /// The channel closed: the run was cancelled.
    Closed,
}

/// Collects each slot's identification. Prefilled entries must all be
/// there; entered ones fail on a timeout, then on a cancelled slot.
pub fn collect_unit_inputs(inputs: Vec<(String, UnitInput)>, prefilled: bool, timed_out: bool) -> (r: Result<
    Vec<(String, UnitInfo)>,
    String,
>)
    ensures
        !prefilled && timed_out ==> (r matches Err(e) && e@ == "Unit input timeout: no serial number received within 5 minutes"@),
        (prefilled || !timed_out) && (exists|i: int| 0 <= i < inputs@.len() && #[trigger] inputs@[i].1 is Closed) ==> (r matches Err(e) && e@ == (if prefilled {
            "Unit input channel closed before receiving unit info"@
        } else {
            "Execution cancelled during unit identification"@
        })),
        (prefilled || !timed_out) && (forall|i: int| 0 <= i < inputs@.len() ==> #[trigger] inputs@[i].1 is Received) ==> (r matches Ok(v) && v@.len() == inputs@.len()
            && forall|i: int| 0 <= i < inputs@.len() ==> (#[trigger] v@[i]).0 == inputs@[i].0 && inputs@[i].1 == UnitInput::Received(v@[i].1)),
{
    if !prefilled && timed_out {
        return Err(text_of("Unit input timeout: no serial number received within 5 minutes"));
    }
    let ghost all = inputs@;
    let total = inputs.len();
    let mut rest = inputs;
    let mut out: Vec<(String, UnitInfo)> = Vec::new();
    let mut cancelled = false;
    let mut i: usize = 0;
    while rest.len() > 0
        invariant
            all.len() == total,
            i + rest@.len() == total,
            rest@ == all.subrange(i as int, total as int),
            cancelled == exists|j: int| 0 <= j < i && #[trigger] all[j].1 is Closed,
            !cancelled ==> out@.len() == i && forall|j: int| 0 <= j < i ==> (#[trigger] out@[j]).0 == all[j].0 && all[j].1 == UnitInput::Received(out@[j].1),
        decreases rest@.len(),
    {
        let (slot, input) = rest.remove(0);
        assert((slot, input) == all[i as int]);
        match input {
            UnitInput::Received(u) => {
                if !cancelled {
                    out.push((slot, u));
                }
            },
            UnitInput::Closed => {
                cancelled = true;
            },
        }
        proof {
            assert(rest@ =~= all.subrange(i + 1, total as int));
        }
        i = i + 1;
    }
    if cancelled {
        if prefilled {
            Err(text_of("Unit input channel closed before receiving unit info"))
        } else {
            Err(text_of("Execution cancelled during unit identification"))
        }
    } else {
        Ok(out)
    }
}

} // verus!

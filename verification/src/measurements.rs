//! Measurements recorded by phases and their validator verdicts.
//!
//! The measured value itself (numbers, arrays, objects) is carried outside
//! this crate; what execution decides on is the validators' outcomes.

use vstd::prelude::*;
use crate::schema::ValidatorOutcome;
use crate::text::copy_opt_text;
use crate::unit::opt_text;

verus! {

/// A validator attached to a measurement, with the outcome it recorded.
#[derive(Clone, Debug)]
pub struct ValidatorSpec {
    pub outcome: Option<ValidatorOutcome>,
    pub operator: Option<String>,
    pub expression: Option<String>,
}

/// One recorded measurement.
#[derive(Clone, Debug)]
pub struct Measurement {
    pub name: String,
    pub unit: Option<String>,
    pub timestamp: String,
    pub validators: Option<Vec<ValidatorSpec>>,
    pub description: Option<String>,
}

/// A measurement declared by a phase in the procedure.
#[derive(Clone, Debug)]
pub struct MeasurementSpec {
    pub name: String,
    pub unit: Option<String>,
    pub description: Option<String>,
}

/// Two measurement declarations with the same name, unit and description.
pub open spec fn same_measurement_spec(a: MeasurementSpec, b: MeasurementSpec) -> bool {
    a.name@ == b.name@ && opt_text(a.unit) == opt_text(b.unit) && opt_text(a.description) == opt_text(
        b.description,
    )
}

/// Two lists of measurement declarations that agree, in order.
pub open spec fn same_measurement_specs(a: Seq<MeasurementSpec>, b: Seq<MeasurementSpec>) -> bool {
    a.len() == b.len() && forall|i: int| 0 <= i < a.len() ==> same_measurement_spec(#[trigger] a[i], b[i])
}

/// A copy of a list of measurement declarations.
pub fn copy_measurement_specs(v: &Vec<MeasurementSpec>) -> (r: Vec<MeasurementSpec>)
    ensures
        same_measurement_specs(r@, v@),
{
    let mut r: Vec<MeasurementSpec> = Vec::new();
    let mut i: usize = 0;
    while i < v.len()
        invariant
            i <= v@.len(),
            r@.len() == i,
            forall|j: int| 0 <= j < i ==> same_measurement_spec(#[trigger] r@[j], v@[j]),
        decreases v@.len() - i,
    {
        let m = &v[i];
        r.push(MeasurementSpec { name: m.name.clone(), unit: copy_opt_text(&m.unit), description: copy_opt_text(&m.description) });
        i = i + 1;
    }
    r
}

/// Two validators with the same outcome and texts.
pub open spec fn same_validator(a: ValidatorSpec, b: ValidatorSpec) -> bool {
    a.outcome == b.outcome && opt_text(a.operator) == opt_text(b.operator) && opt_text(a.expression)
        == opt_text(b.expression)
}

/// Two recorded measurements with the same name, unit, time, validators and
/// description.
pub open spec fn same_measurement(a: Measurement, b: Measurement) -> bool {
    &&& a.name@ == b.name@
    &&& opt_text(a.unit) == opt_text(b.unit)
    &&& a.timestamp@ == b.timestamp@
    &&& opt_text(a.description) == opt_text(b.description)
    &&& match (a.validators, b.validators) {
        (None, None) => true,
        (Some(x), Some(y)) => x@.len() == y@.len() && forall|i: int|
            0 <= i < x@.len() ==> same_validator(#[trigger] x@[i], y@[i]),
        _ => false,
    }
}

/// Two lists of recorded measurements that agree, in order.
pub open spec fn same_measurements(a: Seq<Measurement>, b: Seq<Measurement>) -> bool {
    a.len() == b.len() && forall|i: int| 0 <= i < a.len() ==> same_measurement(#[trigger] a[i], b[i])
}

impl Measurement {
    /// A copy of this measurement.
    pub fn duplicate(&self) -> (r: Measurement)
        ensures
            same_measurement(r, *self),
    {
        let validators = match &self.validators {
            None => None,
            Some(vs) => {
                let mut out: Vec<ValidatorSpec> = Vec::new();
                let mut i: usize = 0;
                while i < vs.len()
                    invariant
                        i <= vs@.len(),
                        out@.len() == i,
                        forall|j: int| 0 <= j < i ==> same_validator(#[trigger] out@[j], vs@[j]),
                    decreases vs@.len() - i,
                {
                    out.push(ValidatorSpec {
                        outcome: vs[i].outcome,
                        operator: copy_opt_text(&vs[i].operator),
                        expression: copy_opt_text(&vs[i].expression),
                    });
                    i = i + 1;
                }
                Some(out)
            },
        };
        Measurement {
            name: self.name.clone(),
            unit: copy_opt_text(&self.unit),
            timestamp: self.timestamp.clone(),
            validators,
            description: copy_opt_text(&self.description),
        }
    }
}

/// A copy of a list of recorded measurements.
pub fn copy_measurements(v: &Vec<Measurement>) -> (r: Vec<Measurement>)
    ensures
        same_measurements(r@, v@),
{
    let mut r: Vec<Measurement> = Vec::new();
    let mut i: usize = 0;
    while i < v.len()
        invariant
            i <= v@.len(),
            r@.len() == i,
            forall|j: int| 0 <= j < i ==> same_measurement(#[trigger] r@[j], v@[j]),
        decreases v@.len() - i,
    {
        r.push(v[i].duplicate());
        i = i + 1;
    }
    r
}

impl Measurement {
    /// The key of a measurement: its name.
    pub fn get_key(&self) -> (k: &String)
        ensures
            k@ == self.name@,
    {
        &self.name
    }
}

/// A measurement passes unless one of its validators recorded a failure.
pub open spec fn measurement_passes(m: Measurement) -> bool {
    match m.validators {
        None => true,
        Some(vs) => forall|i: int| 0 <= i < vs@.len() ==> #[trigger] vs@[i].outcome != Some(ValidatorOutcome::Fail),
    }
}

/// All measurements pass.
pub open spec fn all_measurements_pass(ms: Seq<Measurement>) -> bool {
    forall|i: int| 0 <= i < ms.len() ==> measurement_passes(#[trigger] ms[i])
}

fn check_measurement_passes(m: &Measurement) -> (b: bool)
    ensures
        b == measurement_passes(*m),
{
    match &m.validators {
        None => true,
        Some(vs) => {
            let mut i: usize = 0;
            while i < vs.len()
                invariant
                    i <= vs@.len(),
                    m.validators == Some(*vs),
                    forall|j: int| 0 <= j < i ==> #[trigger] vs@[j].outcome != Some(ValidatorOutcome::Fail),
                decreases vs@.len() - i,
            {
                if matches!(vs[i].outcome, Some(ValidatorOutcome::Fail)) {
                    assert(vs@[i as int].outcome == Some(ValidatorOutcome::Fail));
                    return false;
                }
                i = i + 1;
            }
            true
        },
    }
}

/// Whether every measurement passes its validators.
pub fn check_all_measurements_pass(ms: &Vec<Measurement>) -> (b: bool)
    ensures
        b == all_measurements_pass(ms@),
{
    let mut i: usize = 0;
    while i < ms.len()
        invariant
            i <= ms@.len(),
            forall|j: int| 0 <= j < i ==> measurement_passes(#[trigger] ms@[j]),
        decreases ms@.len() - i,
    {
        if !check_measurement_passes(&ms[i]) {
            return false;
        }
        i = i + 1;
    }
    true
}

} // verus!

//! The parts of a test procedure definition that execution reads.

use vstd::prelude::*;
use crate::measurements::MeasurementSpec;
use crate::text::push_char;

verus! {

/// Stage and scope of a phase: set-up / main / tear-down, for all slots at
/// once or for each slot.
#[derive(Clone, Copy, Debug, PartialEq, Eq, Structural)]
pub enum StageScope {
    SetupAll,
    SetupEach,
    Main,
    TeardownEach,
    TeardownAll,
}

impl StageScope {
    /// Whether this is a tear-down stage (those always run, even after a stop).
    pub open spec fn is_teardown(self) -> bool {
        self == StageScope::TeardownEach || self == StageScope::TeardownAll
    }

    /// Whether the stage runs once, shared by all slots.
    pub open spec fn is_all_slots(self) -> bool {
        self == StageScope::SetupAll || self == StageScope::TeardownAll
    }
}

/// Whether a stage is a tear-down stage.
pub fn is_teardown_stage(s: StageScope) -> (b: bool)
    ensures
        b == s.is_teardown(),
{
    matches!(s, StageScope::TeardownEach | StageScope::TeardownAll)
}

/// The default of settings that are on unless written otherwise.
pub fn default_true() -> (b: bool)
    ensures
        b,
{
    true
}

/// What execution does after a phase.
#[derive(Clone, Copy, Debug, PartialEq, Eq, Structural)]
pub enum PhaseNextAction {
    Continue,
    Skip,
    Stop,
    Retry,
    Fail,
}

/// Per-phase overrides of the next action, by outcome (`then:` in YAML).
#[derive(Clone, Copy, Debug, PartialEq, Eq, Structural)]
pub struct ThenConfig {
    pub pass: Option<PhaseNextAction>,
    pub fail: Option<PhaseNextAction>,
    pub error: Option<PhaseNextAction>,
    pub timeout: Option<PhaseNextAction>,
}

/// Plug scope: one instance for all slots, or one per slot.
#[derive(Clone, Copy, Debug, PartialEq, Eq, Structural)]
pub enum Scope {
    All,
    Each,
}

/// What to do when a phase fails (`on_first_failure:`).
#[derive(Clone, Copy, Debug, PartialEq, Eq, Structural)]
pub enum FirstFailureAction {
    Continue,
    Stop,
}

/// Order in which phases of several slots are run.
#[derive(Clone, Copy, Debug, PartialEq, Eq, Structural)]
pub enum ExecutionStrategy {
    /// Run each phase across all slots before the next phase.
    PhaseFirst,
    /// Run all phases of a slot before the next slot.
    SlotFirst,
}

/// Retry settings of a phase.
#[derive(Clone, Copy, Debug, PartialEq, Eq, Structural)]
pub struct RetryConfig {
    pub limit: usize,
    pub delay: Option<u64>,
}

/// Outcome recorded by a measurement validator.
#[derive(Clone, Copy, Debug, PartialEq, Eq, Structural)]
pub enum ValidatorOutcome {
    Pass,
    Fail,
}

/// Constraints on one unit identification field.
#[derive(Debug)]
pub struct UnitFieldConfig {
    pub min_length: Option<usize>,
    pub max_length: Option<usize>,
    pub pattern: Option<String>,
    pub default_value: Option<String>,
    pub placeholder: Option<String>,
}

impl Default for UnitFieldConfig {
    fn default() -> (c: UnitFieldConfig)
        ensures
            c.min_length is None,
            c.max_length is None,
            c.pattern is None,
            c.default_value is None,
            c.placeholder is None,
    {
        UnitFieldConfig {
            min_length: None,
            max_length: None,
            pattern: None,
            default_value: None,
            placeholder: None,
        }
    }
}

/// One configured sub-unit: its label, optional lookup key and serial-number
/// constraints.
#[derive(Debug)]
pub struct SubUnitItemConfig {
    pub label: String,
    pub key: Option<String>,
    pub serial_number: Option<UnitFieldConfig>,
}

/// The lookup-key character for a label character: ASCII letters and digits
/// are kept (letters lower-cased), anything else becomes `_`.
pub open spec fn key_char(c: char) -> char {
    if 'A' <= c && c <= 'Z' {
        ((c as u32) + 32) as char
    } else if ('a' <= c && c <= 'z') || ('0' <= c && c <= '9') {
        c
    } else {
        '_'
    }
}

/// The lookup key derived from a label.
pub open spec fn label_key(label: Seq<char>) -> Seq<char> {
    label.map_values(|c: char| key_char(c))
}

/// The key under which a sub-unit's serial number is stored.
pub open spec fn item_key(item: SubUnitItemConfig) -> Seq<char> {
    match item.key {
        Some(k) => k@,
        None => label_key(item.label@),
    }
}

fn to_key_char(c: char) -> (r: char)
    ensures
        r == key_char(c),
{
    if 'A' <= c && c <= 'Z' {
        let code: u32 = (c as u32) + 32;
        assert(('a' as u32) <= code <= ('z' as u32));
        char_from_ascii(code)
    } else if ('a' <= c && c <= 'z') || ('0' <= c && c <= '9') {
        c
    } else {
        '_'
    }
}

/// The character of a lower-case ASCII letter code.
fn char_from_ascii(code: u32) -> (c: char)
    requires
        ('a' as u32) <= code <= ('z' as u32),
    ensures
        c == code as char,
{
    let b: u8 = code as u8;
    b as char
}

impl SubUnitItemConfig {
    /// The key under which this sub-unit's serial number is looked up: the
    /// configured key, else one derived from the label.
    pub fn get_key(&self) -> (k: String)
        ensures
            k@ == item_key(*self),
    {
        match &self.key {
            Some(k) => k.clone(),
            None => {
                let label = self.label.as_str();
                let n = label.unicode_len();
                let mut out = String::new();
                let mut i: usize = 0;
                while i < n
                    invariant
                        n == label@.len(),
                        label@ == self.label@,
                        i <= n,
                        out@ == label_key(label@.subrange(0, i as int)),
                    decreases n - i,
                {
                    let c = label.get_char(i);
                    push_char(&mut out, to_key_char(c));
                    proof {
                        assert(label_key(label@.subrange(0, i + 1)) =~= label_key(
                            label@.subrange(0, i as int),
                        ).push(key_char(c)));
                    }
                    i = i + 1;
                }
                assert(label@.subrange(0, n as int) =~= label@);
                out
            },
        }
    }
}

/// The configured sub-units, in order.
#[derive(Debug)]
pub struct SubUnitsConfig(pub Vec<SubUnitItemConfig>);

/// Unit identification settings of a procedure.
#[derive(Debug)]
pub struct UnitConfig {
    pub serial_number: Option<UnitFieldConfig>,
    pub part_number: Option<UnitFieldConfig>,
    pub revision_number: Option<UnitFieldConfig>,
    pub batch_number: Option<UnitFieldConfig>,
    pub sub_units: Option<SubUnitsConfig>,
    /// Identify the unit from default values, without asking the operator.
    pub auto_identify: bool,
    /// Declared operator metadata fields, by key.
    pub metadata: Option<Vec<(String, UnitFieldConfig)>>,
}

/// How a Python phase is called.
#[derive(Debug)]
pub struct PythonSpec {
    pub module: String,
    pub function: String,
}

impl PythonSpec {
    /// The module path.
    pub fn get_module(&self) -> (m: String)
        ensures
            m@ == self.module@,
    {
        self.module.clone()
    }

    /// The function name.
    pub fn get_callable_name(&self) -> (f: String)
        ensures
            f@ == self.function@,
    {
        self.function.clone()
    }
}

/// How a shell phase is run.
#[derive(Debug)]
pub struct ExecutableSpec {
    pub command: String,
    pub shell: Option<String>,
    pub working_directory: Option<String>,
}

/// Kind of a UI component as written in the procedure.
#[derive(Clone, Copy, Debug, PartialEq, Eq, Structural)]
pub enum UIComponentType {
    TextInput,
    NumberInput,
    Switch,
    Textarea,
    Radio,
    Select,
    Multiselect,
    Checklist,
    Slider,
    Text,
    Image,
    Progress,
}

/// An option of a choice component, as written in the procedure.
#[derive(Debug)]
pub struct ProcedureUiOption {
    pub label: String,
    pub value: String,
    pub image: Option<String>,
}

/// A component value as written in the procedure (numbers are kept outside
/// this crate).
#[derive(Debug)]
pub enum ProcedureComponentValue {
    Boolean(bool),
    String(String),
    Array(Vec<String>),
}

/// A UI component as written in the procedure.
#[derive(Debug)]
pub struct ProcedureUiComponent {
    pub key: String,
    pub label: Option<String>,
    pub component_type: UIComponentType,
    pub description: Option<String>,
    pub required: bool,
    pub placeholder: Option<String>,
    pub options: Option<Vec<ProcedureUiOption>>,
    pub columns: Option<u32>,
    pub default_value: Option<ProcedureComponentValue>,
    pub width: Option<String>,
    pub height: Option<String>,
    pub aspect: Option<String>,
    pub fit: Option<String>,
    pub bind: Option<String>,
    pub min_length: Option<u32>,
    pub max_length: Option<u32>,
    pub pattern: Option<String>,
    pub prefix: Option<String>,
    pub suffix: Option<String>,
    pub trim: bool,
    pub rows: Option<u32>,
    pub size: Option<String>,
    pub color: Option<String>,
    pub font: Option<String>,
}

/// A phase's UI as written in the procedure.
#[derive(Debug)]
pub struct ProcedureUiConfig {
    pub components: Option<Vec<ProcedureUiComponent>>,
    pub requires_input: Option<bool>,
}

/// A phase of the procedure.
#[derive(Debug)]
pub struct PhaseDefinition {
    pub key: String,
    pub name: String,
    pub python: Option<PythonSpec>,
    pub executable: Option<ExecutableSpec>,
    pub description: Option<String>,
    pub measurements: Vec<MeasurementSpec>,
    pub ui: Option<ProcedureUiConfig>,
    /// Disabled phases are left out of the run.
    pub enabled: bool,
    /// Keys of phases this one waits for.
    pub depends_on: Vec<String>,
    /// Timeout in milliseconds.
    pub timeout: Option<u64>,
    pub retry: Option<RetryConfig>,
    /// Next-action overrides by outcome (`then:` in YAML).
    pub then_config: Option<ThenConfig>,
}

impl PhaseDefinition {
    /// Whether the phase is left out of the run.
    pub fn should_skip(&self) -> (b: bool)
        ensures
            b == !self.enabled,
    {
        !self.enabled
    }

    /// The phase timeout in milliseconds, if any.
    pub fn get_timeout_ms(&self) -> (t: Option<u64>)
        ensures
            t == self.timeout,
    {
        self.timeout
    }
}

/// A plug (instrument driver) of the procedure.
#[derive(Debug)]
pub struct PlugDefinition {
    pub key: String,
    pub name: String,
    pub scope: Option<Scope>,
}

/// Execution settings of the procedure.
#[derive(Clone, Debug)]
pub struct ExecutionConfig {
    pub workers: usize,
    pub strategy: ExecutionStrategy,
    /// The keys of the configured slots, in order.
    pub slots: Vec<String>,
}

/// A test procedure: its phases by stage and scope, plugs and settings.
#[derive(Debug)]
pub struct ProcedureDefinition {
    pub name: String,
    pub version: String,
    pub description: String,
    pub setup_all: Vec<PhaseDefinition>,
    pub setup_each: Vec<PhaseDefinition>,
    pub main: Vec<PhaseDefinition>,
    pub teardown_each: Vec<PhaseDefinition>,
    pub teardown_all: Vec<PhaseDefinition>,
    pub plugs: Vec<PlugDefinition>,
    pub on_first_failure: FirstFailureAction,
    pub unit: Option<UnitConfig>,
    pub execution: Option<ExecutionConfig>,
}

} // verus!

//! Operator UI configuration of a phase: components, their kinds, and whether
//! the phase waits for operator input.

use vstd::prelude::*;
use crate::string_map::str_eq;
use crate::text::{copy_opt_text, copy_texts};
use crate::unit::opt_text;

verus! {

/// Kind of a UI component.
#[derive(Clone, Copy, Debug, PartialEq, Eq, Structural)]
pub enum ComponentType {
    TextInput,
    NumberInput,
    Switch,
    Textarea,
    Radio,
    Select,
    Multiselect,
    Checklist,
    Slider,
    ImageChoice,
    ImageChecklist,
    Text,
    Image,
    Progress,
    ArtificialHorizon,
}

/// The wire name of a component kind.
pub open spec fn wire_name(t: ComponentType) -> Seq<char> {
    match t {
        ComponentType::TextInput => "text_input"@,
        ComponentType::NumberInput => "number_input"@,
        ComponentType::Switch => "switch"@,
        ComponentType::Textarea => "textarea"@,
        ComponentType::Radio => "radio"@,
        ComponentType::Select => "select"@,
        ComponentType::Multiselect => "multiselect"@,
        ComponentType::Checklist => "checklist"@,
        ComponentType::Slider => "slider"@,
        ComponentType::ImageChoice => "image_choice"@,
        ComponentType::ImageChecklist => "image_checklist"@,
        ComponentType::Text => "text"@,
        ComponentType::Image => "image"@,
        ComponentType::Progress => "progress"@,
        ComponentType::ArtificialHorizon => "artificial_horizon"@,
    }
}

/// The component kind a wire name stands for.
pub open spec fn kind_of_wire_name(s: Seq<char>) -> Option<ComponentType> {
    if s == "text_input"@ { Some(ComponentType::TextInput) }
    else if s == "number_input"@ { Some(ComponentType::NumberInput) }
    else if s == "textarea"@ { Some(ComponentType::Textarea) }
    else if s == "radio"@ { Some(ComponentType::Radio) }
    else if s == "select"@ { Some(ComponentType::Select) }
    else if s == "multiselect"@ { Some(ComponentType::Multiselect) }
    else if s == "checklist"@ { Some(ComponentType::Checklist) }
    else if s == "switch"@ { Some(ComponentType::Switch) }
    else if s == "slider"@ { Some(ComponentType::Slider) }
    else if s == "image_choice"@ { Some(ComponentType::ImageChoice) }
    else if s == "image_checklist"@ { Some(ComponentType::ImageChecklist) }
    else if s == "text"@ { Some(ComponentType::Text) }
    else if s == "image"@ { Some(ComponentType::Image) }
    else if s == "progress"@ { Some(ComponentType::Progress) }
    else if s == "artificial_horizon"@ { Some(ComponentType::ArtificialHorizon) }
    else { None }
}

/// The wire names of all component kinds: input kinds first, then display kinds.
pub open spec fn all_type_names() -> Seq<Seq<char>> {
    seq![
        "text_input"@, "number_input"@, "switch"@, "textarea"@, "radio"@, "select"@,
        "multiselect"@, "checklist"@, "slider"@, "image_choice"@, "image_checklist"@,
        "text"@, "image"@, "progress"@, "artificial_horizon"@,
    ]
}

/// Whether a component kind takes operator input.
pub open spec fn takes_input(t: ComponentType) -> bool {
    match t {
        ComponentType::Text | ComponentType::Image | ComponentType::Progress | ComponentType::ArtificialHorizon => false,
        _ => true,
    }
}

/// Whether a component kind only displays.
pub open spec fn display_only(t: ComponentType) -> bool {
    match t {
        ComponentType::Text | ComponentType::Image | ComponentType::Progress | ComponentType::ArtificialHorizon => true,
        _ => false,
    }
}

impl ComponentType {
    /// The wire names of all component kinds.
    pub fn all_valid_types() -> (v: Vec<&'static str>)
        ensures
            v@.map_values(|s: &str| s@) == all_type_names(),
    {
        let v = vec![
            "text_input", "number_input", "switch", "textarea", "radio", "select",
            "multiselect", "checklist", "slider", "image_choice", "image_checklist",
            "text", "image", "progress", "artificial_horizon",
        ];
        assert(v@.map_values(|s: &str| s@) =~= all_type_names());
        v
    }

    /// Parses a wire name.
    pub fn from_str(s: &str) -> (r: Option<ComponentType>)
        ensures
            r == kind_of_wire_name(s@),
    {
        if str_eq(s, "text_input") { Some(ComponentType::TextInput) }
        else if str_eq(s, "number_input") { Some(ComponentType::NumberInput) }
        else if str_eq(s, "textarea") { Some(ComponentType::Textarea) }
        else if str_eq(s, "radio") { Some(ComponentType::Radio) }
        else if str_eq(s, "select") { Some(ComponentType::Select) }
        else if str_eq(s, "multiselect") { Some(ComponentType::Multiselect) }
        else if str_eq(s, "checklist") { Some(ComponentType::Checklist) }
        else if str_eq(s, "switch") { Some(ComponentType::Switch) }
        else if str_eq(s, "slider") { Some(ComponentType::Slider) }
        else if str_eq(s, "image_choice") { Some(ComponentType::ImageChoice) }
        else if str_eq(s, "image_checklist") { Some(ComponentType::ImageChecklist) }
        else if str_eq(s, "text") { Some(ComponentType::Text) }
        else if str_eq(s, "image") { Some(ComponentType::Image) }
        else if str_eq(s, "progress") { Some(ComponentType::Progress) }
        else if str_eq(s, "artificial_horizon") { Some(ComponentType::ArtificialHorizon) }
        else { None }
    }

    /// The wire name of this kind.
    pub fn as_str(&self) -> (s: &'static str)
        ensures
            s@ == wire_name(*self),
    {
        match self {
            ComponentType::TextInput => "text_input",
            ComponentType::NumberInput => "number_input",
            ComponentType::Switch => "switch",
            ComponentType::Textarea => "textarea",
            ComponentType::Radio => "radio",
            ComponentType::Select => "select",
            ComponentType::Multiselect => "multiselect",
            ComponentType::Checklist => "checklist",
            ComponentType::Slider => "slider",
            ComponentType::ImageChoice => "image_choice",
            ComponentType::ImageChecklist => "image_checklist",
            ComponentType::Text => "text",
            ComponentType::Image => "image",
            ComponentType::Progress => "progress",
            ComponentType::ArtificialHorizon => "artificial_horizon",
        }
    }

    /// Whether this kind takes operator input.
    pub fn is_input(&self) -> (b: bool)
        ensures
            b == takes_input(*self),
    {
        !matches!(
            self,
            ComponentType::Text | ComponentType::Image | ComponentType::Progress | ComponentType::ArtificialHorizon
        )
    }
}

/// Parsing the wire name of a kind gives the kind back.
pub proof fn lemma_wire_name_round_trip(t: ComponentType)
    ensures
        kind_of_wire_name(wire_name(t)) == Some(t),
{
    reveal_strlit("text_input");
    reveal_strlit("number_input");
    reveal_strlit("switch");
    reveal_strlit("textarea");
    reveal_strlit("radio");
    reveal_strlit("select");
    reveal_strlit("multiselect");
    reveal_strlit("checklist");
    reveal_strlit("slider");
    reveal_strlit("image_choice");
    reveal_strlit("image_checklist");
    reveal_strlit("text");
    reveal_strlit("image");
    reveal_strlit("progress");
    reveal_strlit("artificial_horizon");
    match t {
        ComponentType::TextInput => {
        },
        ComponentType::NumberInput => {
            assert("number_input"@.len() != "text_input"@.len());
        },
        ComponentType::Textarea => {
            assert("textarea"@.len() != "text_input"@.len());
            assert("textarea"@.len() != "number_input"@.len());
        },
        ComponentType::Radio => {
            assert("radio"@.len() != "text_input"@.len());
            assert("radio"@.len() != "number_input"@.len());
            assert("radio"@.len() != "textarea"@.len());
        },
        ComponentType::Select => {
            assert("select"@.len() != "text_input"@.len());
            assert("select"@.len() != "number_input"@.len());
            assert("select"@.len() != "textarea"@.len());
            assert("select"@.len() != "radio"@.len());
        },
        ComponentType::Multiselect => {
            assert("multiselect"@.len() != "text_input"@.len());
            assert("multiselect"@.len() != "number_input"@.len());
            assert("multiselect"@.len() != "textarea"@.len());
            assert("multiselect"@.len() != "radio"@.len());
            assert("multiselect"@.len() != "select"@.len());
        },
        ComponentType::Checklist => {
            assert("checklist"@.len() != "text_input"@.len());
            assert("checklist"@.len() != "number_input"@.len());
            assert("checklist"@.len() != "textarea"@.len());
            assert("checklist"@.len() != "radio"@.len());
            assert("checklist"@.len() != "select"@.len());
            assert("checklist"@.len() != "multiselect"@.len());
        },
        ComponentType::Switch => {
            assert("switch"@.len() != "text_input"@.len());
            assert("switch"@.len() != "number_input"@.len());
            assert("switch"@.len() != "textarea"@.len());
            assert("switch"@.len() != "radio"@.len());
            assert("switch"@[1] != "select"@[1]);
            assert("switch"@.len() != "multiselect"@.len());
            assert("switch"@.len() != "checklist"@.len());
        },
        ComponentType::Slider => {
            assert("slider"@.len() != "text_input"@.len());
            assert("slider"@.len() != "number_input"@.len());
            assert("slider"@.len() != "textarea"@.len());
            assert("slider"@.len() != "radio"@.len());
            assert("slider"@[1] != "select"@[1]);
            assert("slider"@.len() != "multiselect"@.len());
            assert("slider"@.len() != "checklist"@.len());
            assert("slider"@[1] != "switch"@[1]);
        },
        ComponentType::ImageChoice => {
            assert("image_choice"@.len() != "text_input"@.len());
            assert("image_choice"@[0] != "number_input"@[0]);
            assert("image_choice"@.len() != "textarea"@.len());
            assert("image_choice"@.len() != "radio"@.len());
            assert("image_choice"@.len() != "select"@.len());
            assert("image_choice"@.len() != "multiselect"@.len());
            assert("image_choice"@.len() != "checklist"@.len());
            assert("image_choice"@.len() != "switch"@.len());
            assert("image_choice"@.len() != "slider"@.len());
        },
        ComponentType::ImageChecklist => {
            assert("image_checklist"@.len() != "text_input"@.len());
            assert("image_checklist"@.len() != "number_input"@.len());
            assert("image_checklist"@.len() != "textarea"@.len());
            assert("image_checklist"@.len() != "radio"@.len());
            assert("image_checklist"@.len() != "select"@.len());
            assert("image_checklist"@.len() != "multiselect"@.len());
            assert("image_checklist"@.len() != "checklist"@.len());
            assert("image_checklist"@.len() != "switch"@.len());
            assert("image_checklist"@.len() != "slider"@.len());
            assert("image_checklist"@.len() != "image_choice"@.len());
        },
        ComponentType::Text => {
            assert("text"@.len() != "text_input"@.len());
            assert("text"@.len() != "number_input"@.len());
            assert("text"@.len() != "textarea"@.len());
            assert("text"@.len() != "radio"@.len());
            assert("text"@.len() != "select"@.len());
            assert("text"@.len() != "multiselect"@.len());
            assert("text"@.len() != "checklist"@.len());
            assert("text"@.len() != "switch"@.len());
            assert("text"@.len() != "slider"@.len());
            assert("text"@.len() != "image_choice"@.len());
            assert("text"@.len() != "image_checklist"@.len());
        },
        ComponentType::Image => {
            assert("image"@.len() != "text_input"@.len());
            assert("image"@.len() != "number_input"@.len());
            assert("image"@.len() != "textarea"@.len());
            assert("image"@[0] != "radio"@[0]);
            assert("image"@.len() != "select"@.len());
            assert("image"@.len() != "multiselect"@.len());
            assert("image"@.len() != "checklist"@.len());
            assert("image"@.len() != "switch"@.len());
            assert("image"@.len() != "slider"@.len());
            assert("image"@.len() != "image_choice"@.len());
            assert("image"@.len() != "image_checklist"@.len());
            assert("image"@.len() != "text"@.len());
        },
        ComponentType::Progress => {
            assert("progress"@.len() != "text_input"@.len());
            assert("progress"@.len() != "number_input"@.len());
            assert("progress"@[0] != "textarea"@[0]);
            assert("progress"@.len() != "radio"@.len());
            assert("progress"@.len() != "select"@.len());
            assert("progress"@.len() != "multiselect"@.len());
            assert("progress"@.len() != "checklist"@.len());
            assert("progress"@.len() != "switch"@.len());
            assert("progress"@.len() != "slider"@.len());
            assert("progress"@.len() != "image_choice"@.len());
            assert("progress"@.len() != "image_checklist"@.len());
            assert("progress"@.len() != "text"@.len());
            assert("progress"@.len() != "image"@.len());
        },
        ComponentType::ArtificialHorizon => {
            assert("artificial_horizon"@.len() != "text_input"@.len());
            assert("artificial_horizon"@.len() != "number_input"@.len());
            assert("artificial_horizon"@.len() != "textarea"@.len());
            assert("artificial_horizon"@.len() != "radio"@.len());
            assert("artificial_horizon"@.len() != "select"@.len());
            assert("artificial_horizon"@.len() != "multiselect"@.len());
            assert("artificial_horizon"@.len() != "checklist"@.len());
            assert("artificial_horizon"@.len() != "switch"@.len());
            assert("artificial_horizon"@.len() != "slider"@.len());
            assert("artificial_horizon"@.len() != "image_choice"@.len());
            assert("artificial_horizon"@.len() != "image_checklist"@.len());
            assert("artificial_horizon"@.len() != "text"@.len());
            assert("artificial_horizon"@.len() != "image"@.len());
            assert("artificial_horizon"@.len() != "progress"@.len());
        },
    }
}

/// The position of a kind among all kinds: input kinds first (0 to 10), then
/// display kinds (11 to 14), in the order `all_type_names` lists them.
pub open spec fn kind_index(t: ComponentType) -> int {
    match t {
        ComponentType::TextInput => 0,
        ComponentType::NumberInput => 1,
        ComponentType::Switch => 2,
        ComponentType::Textarea => 3,
        ComponentType::Radio => 4,
        ComponentType::Select => 5,
        ComponentType::Multiselect => 6,
        ComponentType::Checklist => 7,
        ComponentType::Slider => 8,
        ComponentType::ImageChoice => 9,
        ComponentType::ImageChecklist => 10,
        ComponentType::Text => 11,
        ComponentType::Image => 12,
        ComponentType::Progress => 13,
        ComponentType::ArtificialHorizon => 14,
    }
}

/// The kind at a position among all kinds.
spec fn kind_at(i: int) -> ComponentType {
    if i == 0 { ComponentType::TextInput }
    else if i == 1 { ComponentType::NumberInput }
    else if i == 2 { ComponentType::Switch }
    else if i == 3 { ComponentType::Textarea }
    else if i == 4 { ComponentType::Radio }
    else if i == 5 { ComponentType::Select }
    else if i == 6 { ComponentType::Multiselect }
    else if i == 7 { ComponentType::Checklist }
    else if i == 8 { ComponentType::Slider }
    else if i == 9 { ComponentType::ImageChoice }
    else if i == 10 { ComponentType::ImageChecklist }
    else if i == 11 { ComponentType::Text }
    else if i == 12 { ComponentType::Image }
    else if i == 13 { ComponentType::Progress }
    else { ComponentType::ArtificialHorizon }
}

proof fn lemma_name_at_index(t: ComponentType)
    ensures
        0 <= kind_index(t) < 15,
        all_type_names()[kind_index(t)] == wire_name(t),
        kind_at(kind_index(t)) == t,
        takes_input(t) <==> kind_index(t) < 11,
{
}

proof fn lemma_kind_at(i: int)
    requires
        0 <= i < 15,
    ensures
        kind_index(kind_at(i)) == i,
{
}

/// A wire name that parses names the kind it parses to.
proof fn lemma_parsed_name(s: Seq<char>)
    ensures
        kind_of_wire_name(s) matches Some(t) ==> s == wire_name(t),
{
}

/// The list of wire names has one entry for each of the 15 kinds, with no
/// repeats; a text is in it exactly when it parses as a kind; and the first
/// 11 entries are exactly the names of the kinds that take input.
pub proof fn lemma_all_type_names()
    ensures
        all_type_names().len() == 15,
        all_type_names().no_duplicates(),
        forall|s: Seq<char>| all_type_names().contains(s) <==> (#[trigger] kind_of_wire_name(s)) is Some,
        forall|t: ComponentType| all_type_names().contains(#[trigger] wire_name(t)),
        forall|t: ComponentType| takes_input(t) <==> all_type_names().take(11).contains(#[trigger] wire_name(t)),
{
    let names = all_type_names();
    assert forall|t: ComponentType| names.contains(#[trigger] wire_name(t)) by {
        lemma_name_at_index(t);
    }
    assert forall|i: int| 0 <= i < 15 implies #[trigger] names[i] == wire_name(kind_at(i)) by {
        lemma_kind_at(i);
        lemma_name_at_index(kind_at(i));
    }
    assert forall|i: int, j: int| 0 <= i < names.len() && 0 <= j < names.len() && i != j implies names[i] != names[j] by {
        if names[i] == names[j] {
            lemma_wire_name_round_trip(kind_at(i));
            lemma_wire_name_round_trip(kind_at(j));
            lemma_kind_at(i);
            lemma_kind_at(j);
        }
    }
    assert forall|s: Seq<char>| names.contains(s) <==> (#[trigger] kind_of_wire_name(s)) is Some by {
        if names.contains(s) {
            let i = choose|i: int| 0 <= i < names.len() && names[i] == s;
            lemma_wire_name_round_trip(kind_at(i));
        }
        lemma_parsed_name(s);
        if kind_of_wire_name(s) is Some {
            lemma_name_at_index(kind_of_wire_name(s)->0);
        }
    }
    assert forall|t: ComponentType| takes_input(t) <==> names.take(11).contains(#[trigger] wire_name(t)) by {
        lemma_name_at_index(t);
        if takes_input(t) {
            assert(names.take(11)[kind_index(t)] == wire_name(t));
        }
        if names.take(11).contains(wire_name(t)) {
            let i = choose|i: int| 0 <= i < 11 && names.take(11)[i] == wire_name(t);
            assert(names[i] == wire_name(kind_at(i)));
            lemma_wire_name_round_trip(kind_at(i));
            lemma_wire_name_round_trip(t);
            lemma_kind_at(i);
        }
    }
}

/// Each kind is exactly one of input or display.
pub proof fn lemma_input_xor_display(t: ComponentType)
    ensures
        takes_input(t) != display_only(t),
{
}

/// An option of a select, radio or choice component.
#[derive(Clone, Debug)]
pub struct UiOption {
    pub label: String,
    pub value: String,
    pub image: Option<String>,
}

/// A value of a component (default or runtime); numeric values live outside
/// this crate.
#[derive(Clone, Debug)]
pub enum ComponentValue {
    Boolean(bool),
    String(String),
    Array(Vec<String>),
}

/// One UI component of a phase.
#[derive(Clone, Debug)]
pub struct UiComponent {
    pub key: String,
    pub label: Option<String>,
    pub component_type: ComponentType,
    pub is_input: bool,
    pub description: Option<String>,
    pub required: bool,
    pub placeholder: Option<String>,
    pub options: Option<Vec<UiOption>>,
    pub columns: Option<u32>,
    pub width: Option<String>,
    pub height: Option<String>,
    pub aspect: Option<String>,
    pub fit: Option<String>,
    pub default_value: Option<ComponentValue>,
    pub value: Option<ComponentValue>,
    pub bind: Option<String>,
    pub min_length: Option<u32>,
    pub max_length: Option<u32>,
    pub pattern: Option<String>,
    pub rows: Option<u32>,
    pub prefix: Option<String>,
    pub suffix: Option<String>,
    pub trim: bool,
    pub size: Option<String>,
    pub color: Option<String>,
    pub font: Option<String>,
}

impl UiComponent {
    /// Whether this component takes operator input.
    pub fn is_input_component(&self) -> (b: bool)
        ensures
            b == takes_input(self.component_type),
    {
        self.component_type.is_input()
    }

    /// Whether this component only displays.
    pub fn is_display_component(&self) -> (b: bool)
        ensures
            b == display_only(self.component_type),
    {
        matches!(
            self.component_type,
            ComponentType::Text | ComponentType::Progress | ComponentType::Image | ComponentType::ArtificialHorizon
        )
    }
}

/// UI configuration of a phase.
#[derive(Clone, Debug)]
pub struct UiConfig {
    pub components: Vec<UiComponent>,
    /// Whether the phase waits for the operator even without input
    /// components (the Continue button); unset means no.
    pub requires_input: Option<bool>,
}

/// Whether some component takes input.
pub open spec fn has_input(cs: Seq<UiComponent>) -> bool {
    exists|i: int| 0 <= i < cs.len() && takes_input(#[trigger] cs[i].component_type)
}

/// Whether a UI configuration waits for the operator: always with an input
/// component, otherwise as `requires_input` says (default no).
pub open spec fn needs_user_input(c: UiConfig) -> bool {
    has_input(c.components@) || c.requires_input == Some(true)
}


/// Two options with the same texts.
pub open spec fn same_ui_option(a: UiOption, b: UiOption) -> bool {
    a.label@ == b.label@ && a.value@ == b.value@ && opt_text(a.image) == opt_text(b.image)
}

/// Two option lists with the same options, in order.
pub open spec fn same_ui_options(a: Option<Vec<UiOption>>, b: Option<Vec<UiOption>>) -> bool {
    match (a, b) {
        (None, None) => true,
        (Some(x), Some(y)) => x@.len() == y@.len() && forall|i: int|
            0 <= i < x@.len() ==> same_ui_option(#[trigger] x@[i], y@[i]),
        _ => false,
    }
}

/// Two component values of the same kind with the same content.
pub open spec fn same_component_value(a: ComponentValue, b: ComponentValue) -> bool {
    match (a, b) {
        (ComponentValue::Boolean(x), ComponentValue::Boolean(y)) => x == y,
        (ComponentValue::String(x), ComponentValue::String(y)) => x@ == y@,
        (ComponentValue::Array(x), ComponentValue::Array(y)) => x@.len() == y@.len() && forall|i: int|
            0 <= i < x@.len() ==> (#[trigger] x@[i])@ == y@[i]@,
        _ => false,
    }
}

/// Two optional component values that agree.
pub open spec fn same_opt_value(a: Option<ComponentValue>, b: Option<ComponentValue>) -> bool {
    match (a, b) {
        (None, None) => true,
        (Some(x), Some(y)) => same_component_value(x, y),
        _ => false,
    }
}

/// Two components with the same settings, texts and values.
pub open spec fn same_component(a: UiComponent, b: UiComponent) -> bool {
    &&& a.key@ == b.key@
    &&& opt_text(a.label) == opt_text(b.label)
    &&& a.component_type == b.component_type
    &&& a.is_input == b.is_input
    &&& opt_text(a.description) == opt_text(b.description)
    &&& a.required == b.required
    &&& opt_text(a.placeholder) == opt_text(b.placeholder)
    &&& same_ui_options(a.options, b.options)
    &&& a.columns == b.columns
    &&& opt_text(a.width) == opt_text(b.width)
    &&& opt_text(a.height) == opt_text(b.height)
    &&& opt_text(a.aspect) == opt_text(b.aspect)
    &&& opt_text(a.fit) == opt_text(b.fit)
    &&& same_opt_value(a.default_value, b.default_value)
    &&& same_opt_value(a.value, b.value)
    &&& opt_text(a.bind) == opt_text(b.bind)
    &&& a.min_length == b.min_length
    &&& a.max_length == b.max_length
    &&& opt_text(a.pattern) == opt_text(b.pattern)
    &&& a.rows == b.rows
    &&& opt_text(a.prefix) == opt_text(b.prefix)
    &&& opt_text(a.suffix) == opt_text(b.suffix)
    &&& a.trim == b.trim
    &&& opt_text(a.size) == opt_text(b.size)
    &&& opt_text(a.color) == opt_text(b.color)
    &&& opt_text(a.font) == opt_text(b.font)
}

/// Two UI configurations with the same components, in order, and the same
/// `requires_input`.
pub open spec fn same_ui(a: UiConfig, b: UiConfig) -> bool {
    &&& a.requires_input == b.requires_input
    &&& a.components@.len() == b.components@.len()
    &&& forall|i: int| 0 <= i < a.components@.len() ==> same_component(#[trigger] a.components@[i], b.components@[i])
}

fn copy_ui_options(o: &Option<Vec<UiOption>>) -> (r: Option<Vec<UiOption>>)
    ensures
        same_ui_options(r, *o),
{
    match o {
        None => None,
        Some(v) => {
            let mut out: Vec<UiOption> = Vec::new();
            let mut i: usize = 0;
            while i < v.len()
                invariant
                    i <= v@.len(),
                    out@.len() == i,
                    forall|j: int| 0 <= j < i ==> same_ui_option(#[trigger] out@[j], v@[j]),
                decreases v@.len() - i,
            {
                out.push(UiOption {
                    label: v[i].label.clone(),
                    value: v[i].value.clone(),
                    image: copy_opt_text(&v[i].image),
                });
                i = i + 1;
            }
            Some(out)
        },
    }
}

fn copy_opt_value(o: &Option<ComponentValue>) -> (r: Option<ComponentValue>)
    ensures
        same_opt_value(r, *o),
{
    match o {
        None => None,
        Some(ComponentValue::Boolean(b)) => Some(ComponentValue::Boolean(*b)),
        Some(ComponentValue::String(s)) => Some(ComponentValue::String(s.clone())),
        Some(ComponentValue::Array(v)) => Some(ComponentValue::Array(copy_texts(v))),
    }
}

impl UiComponent {
    /// A copy of this component.
    pub fn duplicate(&self) -> (r: UiComponent)
        ensures
            same_component(r, *self),
    {
        UiComponent {
            key: self.key.clone(),
            label: copy_opt_text(&self.label),
            component_type: self.component_type,
            is_input: self.is_input,
            description: copy_opt_text(&self.description),
            required: self.required,
            placeholder: copy_opt_text(&self.placeholder),
            options: copy_ui_options(&self.options),
            columns: self.columns,
            width: copy_opt_text(&self.width),
            height: copy_opt_text(&self.height),
            aspect: copy_opt_text(&self.aspect),
            fit: copy_opt_text(&self.fit),
            default_value: copy_opt_value(&self.default_value),
            value: copy_opt_value(&self.value),
            bind: copy_opt_text(&self.bind),
            min_length: self.min_length,
            max_length: self.max_length,
            pattern: copy_opt_text(&self.pattern),
            rows: self.rows,
            prefix: copy_opt_text(&self.prefix),
            suffix: copy_opt_text(&self.suffix),
            trim: self.trim,
            size: copy_opt_text(&self.size),
            color: copy_opt_text(&self.color),
            font: copy_opt_text(&self.font),
        }
    }
}

impl UiConfig {
    /// An empty configuration.
    pub fn empty() -> (c: UiConfig)
        ensures
            c.components@.len() == 0,
            c.requires_input is None,
    {
        UiConfig { components: Vec::new(), requires_input: None }
    }

    /// A copy of this configuration.
    pub fn duplicate(&self) -> (r: UiConfig)
        ensures
            same_ui(r, *self),
    {
        let mut components: Vec<UiComponent> = Vec::new();
        let mut i: usize = 0;
        while i < self.components.len()
            invariant
                i <= self.components@.len(),
                components@.len() == i,
                forall|j: int| 0 <= j < i ==> same_component(#[trigger] components@[j], self.components@[j]),
            decreases self.components@.len() - i,
        {
            components.push(self.components[i].duplicate());
            i = i + 1;
        }
        UiConfig { components, requires_input: self.requires_input }
    }

    /// Whether some component takes operator input.
    pub fn has_input_components(&self) -> (b: bool)
        ensures
            b == has_input(self.components@),
    {
        let mut i: usize = 0;
        while i < self.components.len()
            invariant
                i <= self.components@.len(),
                forall|j: int| 0 <= j < i ==> !takes_input(#[trigger] self.components@[j].component_type),
            decreases self.components@.len() - i,
        {
            if self.components[i].is_input_component() {
                return true;
            }
            i = i + 1;
        }
        false
    }

    /// Whether the phase waits for the operator. Input components always
    /// require input; otherwise `requires_input` decides (default false).
    pub fn requires_user_input(&self) -> (b: bool)
        ensures
            b == needs_user_input(*self),
    {
        if self.has_input_components() {
            return true;
        }
        match self.requires_input {
            Some(v) => v,
            None => false,
        }
    }

    /// Whether the phase continues on its own (the opposite of
    /// `requires_user_input`).
    pub fn should_auto_continue(&self) -> (b: bool)
        ensures
            b == !needs_user_input(*self),
    {
        !self.requires_user_input()
    }
}

} // verus!

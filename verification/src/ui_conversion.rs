//! Turning a phase's UI as written in the procedure into the configuration
//! that execution shows the operator.

use vstd::prelude::*;
use crate::schema::{ProcedureComponentValue, ProcedureUiComponent, ProcedureUiConfig, ProcedureUiOption, UIComponentType};
use crate::text::{copy_opt_text, copy_texts};
use crate::ui::{takes_input, ComponentType, ComponentValue, UiComponent, UiConfig, UiOption};
use crate::unit::opt_text;

verus! {

/// The execution kind of a procedure component kind.
pub open spec fn component_kind(t: UIComponentType) -> ComponentType {
    match t {
        UIComponentType::TextInput => ComponentType::TextInput,
        UIComponentType::NumberInput => ComponentType::NumberInput,
        UIComponentType::Switch => ComponentType::Switch,
        UIComponentType::Textarea => ComponentType::Textarea,
        UIComponentType::Radio => ComponentType::Radio,
        UIComponentType::Select => ComponentType::Select,
        UIComponentType::Multiselect => ComponentType::Multiselect,
        UIComponentType::Checklist => ComponentType::Checklist,
        UIComponentType::Slider => ComponentType::Slider,
        UIComponentType::Text => ComponentType::Text,
        UIComponentType::Image => ComponentType::Image,
        UIComponentType::Progress => ComponentType::Progress,
    }
}

/// Maps a procedure component kind to its execution kind.
pub fn convert_component_type(t: &UIComponentType) -> (k: ComponentType)
    ensures
        k == component_kind(*t),
{
    match t {
        UIComponentType::TextInput => ComponentType::TextInput,
        UIComponentType::NumberInput => ComponentType::NumberInput,
        UIComponentType::Switch => ComponentType::Switch,
        UIComponentType::Textarea => ComponentType::Textarea,
        UIComponentType::Radio => ComponentType::Radio,
        UIComponentType::Select => ComponentType::Select,
        UIComponentType::Multiselect => ComponentType::Multiselect,
        UIComponentType::Checklist => ComponentType::Checklist,
        UIComponentType::Slider => ComponentType::Slider,
        UIComponentType::Text => ComponentType::Text,
        UIComponentType::Image => ComponentType::Image,
        UIComponentType::Progress => ComponentType::Progress,
    }
}

/// Whether an execution value carries what a procedure value says.
pub open spec fn value_converted(v: ComponentValue, p: ProcedureComponentValue) -> bool {
    match (v, p) {
        (ComponentValue::Boolean(a), ProcedureComponentValue::Boolean(b)) => a == b,
        (ComponentValue::String(a), ProcedureComponentValue::String(b)) => a@ == b@,
        (ComponentValue::Array(a), ProcedureComponentValue::Array(b)) => a@.map_values(|s: String| s@)
            == b@.map_values(|s: String| s@),
        _ => false,
    }
}

/// Converts a component value.
pub fn convert_component_value(p: &ProcedureComponentValue) -> (v: ComponentValue)
    ensures
        value_converted(v, *p),
{
    match p {
        ProcedureComponentValue::Boolean(b) => ComponentValue::Boolean(*b),
        ProcedureComponentValue::String(s) => ComponentValue::String(s.clone()),
        ProcedureComponentValue::Array(a) => {
            let c = copy_texts(a);
            assert(c@.map_values(|s: String| s@) =~= a@.map_values(|s: String| s@));
            ComponentValue::Array(c)
        },
    }
}

/// Whether an execution option carries a procedure option.
pub open spec fn option_converted(o: UiOption, p: ProcedureUiOption) -> bool {
    o.label@ == p.label@ && o.value@ == p.value@ && opt_text(o.image) == opt_text(p.image)
}

/// Whether a list of execution options carries a list of procedure options.
pub open spec fn options_converted(o: Option<Vec<UiOption>>, p: Option<Vec<ProcedureUiOption>>) -> bool {
    match (o, p) {
        (None, None) => true,
        (Some(a), Some(b)) => a@.len() == b@.len() && forall|i: int| 0 <= i < a@.len() ==> option_converted(
            #[trigger] a@[i],
            b@[i],
        ),
        _ => false,
    }
}

/// Whether an execution component carries what a procedure component says:
/// same key, texts and settings, the mapped kind, no runtime value yet.
pub open spec fn component_converted(c: UiComponent, p: ProcedureUiComponent) -> bool {
    &&& c.key@ == p.key@
    &&& opt_text(c.label) == opt_text(p.label)
    &&& c.component_type == component_kind(p.component_type)
    &&& c.is_input == takes_input(component_kind(p.component_type))
    &&& opt_text(c.description) == opt_text(p.description)
    &&& c.required == p.required
    &&& opt_text(c.placeholder) == opt_text(p.placeholder)
    &&& options_converted(c.options, p.options)
    &&& c.columns == p.columns
    &&& opt_text(c.width) == opt_text(p.width)
    &&& opt_text(c.height) == opt_text(p.height)
    &&& opt_text(c.aspect) == opt_text(p.aspect)
    &&& opt_text(c.fit) == opt_text(p.fit)
    &&& (c.default_value is Some) == (p.default_value is Some)
    &&& c.default_value is Some ==> value_converted(c.default_value->0, p.default_value->0)
    &&& c.value is None
    &&& opt_text(c.bind) == opt_text(p.bind)
    &&& c.min_length == p.min_length
    &&& c.max_length == p.max_length
    &&& opt_text(c.pattern) == opt_text(p.pattern)
    &&& c.rows == p.rows
    &&& opt_text(c.prefix) == opt_text(p.prefix)
    &&& opt_text(c.suffix) == opt_text(p.suffix)
    &&& c.trim == p.trim
    &&& opt_text(c.size) == opt_text(p.size)
    &&& opt_text(c.color) == opt_text(p.color)
    &&& opt_text(c.font) == opt_text(p.font)
}

fn convert_options(opts: &Option<Vec<ProcedureUiOption>>) -> (r: Option<Vec<UiOption>>)
    ensures
        options_converted(r, *opts),
{
    match opts {
        None => None,
        Some(v) => {
            let mut out: Vec<UiOption> = Vec::new();
            let mut i: usize = 0;
            while i < v.len()
                invariant
                    i <= v@.len(),
                    out@.len() == i,
                    forall|j: int| 0 <= j < i ==> option_converted(#[trigger] out@[j], v@[j]),
                decreases v@.len() - i,
            {
                let o = &v[i];
                out.push(UiOption { label: o.label.clone(), value: o.value.clone(), image: copy_opt_text(&o.image) });
                i = i + 1;
            }
            Some(out)
        },
    }
}

/// Converts one procedure component.
pub fn convert_ui_component(p: &ProcedureUiComponent) -> (c: UiComponent)
    ensures
        component_converted(c, *p),
{
    let component_type = convert_component_type(&p.component_type);
    let default_value = match &p.default_value {
        Some(v) => Some(convert_component_value(v)),
        None => None,
    };
    UiComponent {
        key: p.key.clone(),
        label: copy_opt_text(&p.label),
        component_type,
        is_input: component_type.is_input(),
        description: copy_opt_text(&p.description),
        required: p.required,
        placeholder: copy_opt_text(&p.placeholder),
        options: convert_options(&p.options),
        columns: p.columns,
        width: copy_opt_text(&p.width),
        height: copy_opt_text(&p.height),
        aspect: copy_opt_text(&p.aspect),
        fit: copy_opt_text(&p.fit),
        default_value,
        value: None,
        bind: copy_opt_text(&p.bind),
        min_length: p.min_length,
        max_length: p.max_length,
        pattern: copy_opt_text(&p.pattern),
        rows: p.rows,
        prefix: copy_opt_text(&p.prefix),
        suffix: copy_opt_text(&p.suffix),
        trim: p.trim,
        size: copy_opt_text(&p.size),
        color: copy_opt_text(&p.color),
        font: copy_opt_text(&p.font),
    }
}

/// Whether an execution UI configuration carries a procedure's: each
/// component converted in order (none when the procedure lists none), and the
/// same `requires_input`.
pub open spec fn ui_config_converted(c: UiConfig, p: ProcedureUiConfig) -> bool {
    &&& c.requires_input == p.requires_input
    &&& match p.components {
        None => c.components@.len() == 0,
        Some(v) => c.components@.len() == v@.len() && forall|i: int| 0 <= i < v@.len() ==> component_converted(
            #[trigger] c.components@[i],
            v@[i],
        ),
    }
}

/// The UI configuration of a phase's job: the phase's UI converted, or an
/// empty one when the phase has none.
pub open spec fn phase_ui_config(c: UiConfig, ui: Option<ProcedureUiConfig>) -> bool {
    match ui {
        None => c.components@.len() == 0 && c.requires_input is None,
        Some(p) => ui_config_converted(c, p),
    }
}

/// Converts a phase's UI: each component in order (none when the procedure
/// lists none), and the same `requires_input`.
pub fn convert_ui_config(p: &ProcedureUiConfig) -> (c: UiConfig)
    ensures
        ui_config_converted(c, *p),
{
    let mut components: Vec<UiComponent> = Vec::new();
    match &p.components {
        None => {},
        Some(v) => {
            let mut i: usize = 0;
            while i < v.len()
                invariant
                    i <= v@.len(),
                    components@.len() == i,
                    forall|j: int| 0 <= j < i ==> component_converted(#[trigger] components@[j], v@[j]),
                decreases v@.len() - i,
            {
                components.push(convert_ui_component(&v[i]));
                i = i + 1;
            }
        },
    }
    UiConfig { components, requires_input: p.requires_input }
}

} // verus!

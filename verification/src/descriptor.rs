//! The template descriptor: the declarative description of a template.
//!
//! A descriptor is a TOML document at the template's root.  It declares
//! exclusion patterns, templating exceptions, closing notes, the template's
//! parameters, and lifecycle hooks.  Parsing is exact: the contracts mirror,
//! field by field, what the document's contents must hold, and every
//! unknown field is ignored.

use vstd::prelude::*;
use vstd::string::StrSliceExecFns;

use crate::error::ScaffoldError;
use crate::text::str_eq;
use crate::tomlval::parse_toml;
use crate::tomlval::toml_as_array;
use crate::tomlval::toml_as_boolean;
use crate::tomlval::toml_as_integer;
use crate::tomlval::toml_as_text;
use crate::tomlval::toml_float_text;
use crate::tomlval::toml_parsed;
use crate::tomlval::toml_table_entries;
use crate::tomlval::toml_view;
use crate::value::ParamSet;
use crate::value::ParamValue;
use crate::value::ValueModel;

verus! {

/// The name of the descriptor file at the template root.
pub open spec fn descriptor_filename_spec() -> Seq<char> {
    ".scaffold.toml"@
}

/// The name of the descriptor file at the template root.
pub fn descriptor_filename() -> (r: &'static str)
    ensures
        r@ == descriptor_filename_spec(),
{
    ".scaffold.toml"
}

/// The kind of value a parameter takes.
#[derive(Clone, Copy, Debug, PartialEq, Eq, Structural)]
pub enum ParameterType {
    /// A line of text.
    String,
    Integer,
    Float,
    Boolean,
    /// One value chosen from the declared list.
    Select,
    /// Any number of values chosen from the declared list.
    MultiSelect,
}

/// One declared parameter of the template.
#[derive(Debug, PartialEq, Eq)]
pub struct Parameter {
    /// The prompt shown when the value is asked for.
    pub message: String,
    pub required: bool,
    /// The parameter's kind; the descriptor names it `type`.
    pub kind: ParameterType,
    pub default: Option<ParamValue>,
    /// The values a selection is made from.
    pub values: Option<Vec<ParamValue>>,
    pub tags: Option<Vec<String>>,
}

/// The template-wide settings of the descriptor.
#[derive(Debug, PartialEq, Eq)]
pub struct TemplateDescription {
    /// Glob patterns for entries left out of the target tree.
    pub exclude: Option<Vec<String>>,
    /// Glob patterns for files copied byte for byte.
    pub disable_templating: Option<Vec<String>>,
    /// Text rendered and shown after a successful run.
    pub notes: Option<String>,
}

/// The lifecycle hook command lines.
#[derive(Debug, PartialEq, Eq)]
pub struct Hooks {
    pub pre: Option<Vec<String>>,
    pub post: Option<Vec<String>>,
}

/// The mathematical form of a parsed parameter.
pub struct ParamModel {
    pub message: Seq<char>,
    pub required: bool,
    pub kind: ParameterType,
    pub default: Option<ValueModel>,
    pub values: Option<Seq<ValueModel>>,
    pub tags: Option<Seq<Seq<char>>>,
}

/// The mathematical form of a parsed descriptor.
pub struct DescModel {
    pub exclude: Option<Seq<Seq<char>>>,
    pub disable_templating: Option<Seq<Seq<char>>>,
    pub notes: Option<Seq<char>>,
    pub parameters: Map<Seq<char>, ParamModel>,
    pub hooks_pre: Option<Seq<Seq<char>>>,
    pub hooks_post: Option<Seq<Seq<char>>>,
}

/// The fields of a parameter, as mathematical values.
pub open spec fn param_view(p: Parameter) -> ParamModel {
    ParamModel {
        message: p.message@,
        required: p.required,
        kind: p.kind,
        default: match p.default {
            Some(d) => Some(d@),
            None => None,
        },
        values: match p.values {
            Some(vs) => Some(crate::value::models_of(vs@)),
            None => None,
        },
        tags: match p.tags {
            Some(ts) => Some(ts@.map_values(|t: String| t@)),
            None => None,
        },
    }
}

/// Looks a key up in a table model.
pub open spec fn table_get(t: Map<Seq<char>, ValueModel>, k: Seq<char>) -> Option<ValueModel> {
    if t.contains_key(k) {
        Some(t[k])
    } else {
        None
    }
}

/// A descriptor value as a parameter value: scalars and arrays of such keep
/// their shape; tables and datetimes have no parameter form.
pub open spec fn plain_of(m: ValueModel) -> Option<ValueModel>
    decreases m,
{
    match m {
        ValueModel::String(_) => Some(m),
        ValueModel::Integer(_) => Some(m),
        ValueModel::Float(_) => Some(m),
        ValueModel::Boolean(_) => Some(m),
        ValueModel::Array(s) => match plains_of(s) {
            Some(ps) => Some(ValueModel::Array(ps)),
            None => None,
        },
        ValueModel::Table(_) => None,
        ValueModel::Datetime => None,
    }
}

/// `plain_of`, element by element; one shapeless element spoils the list.
pub open spec fn plains_of(s: Seq<ValueModel>) -> Option<Seq<ValueModel>>
    decreases s,
{
    if s.len() == 0 {
        Some(Seq::empty())
    } else {
        match plains_of(s.drop_last()) {
            Some(ps) => match plain_of(s.last()) {
                Some(p) => Some(ps.push(p)),
                None => None,
            },
            None => None,
        }
    }
}

/// A list model as a list of texts; one non-text element spoils the list.
pub open spec fn texts_of(s: Seq<ValueModel>) -> Option<Seq<Seq<char>>>
    decreases s,
{
    if s.len() == 0 {
        Some(Seq::empty())
    } else {
        match texts_of(s.drop_last()) {
            Some(ts) => match s.last() {
                ValueModel::String(t) => Some(ts.push(t)),
                _ => None,
            },
            None => None,
        }
    }
}

/// The parameter kind a descriptor text names.
pub open spec fn kind_of(s: Seq<char>) -> Option<ParameterType> {
    if s == "string"@ {
        Some(ParameterType::String)
    } else if s == "integer"@ {
        Some(ParameterType::Integer)
    } else if s == "float"@ {
        Some(ParameterType::Float)
    } else if s == "boolean"@ {
        Some(ParameterType::Boolean)
    } else if s == "select"@ {
        Some(ParameterType::Select)
    } else if s == "multiselect"@ {
        Some(ParameterType::MultiSelect)
    } else {
        None
    }
}

/// How one parameter's table parses.
pub enum ParamOutcome {
    /// Every field has the right shape.
    Parsed(ParamModel),
    /// `message` or `type` is missing.
    MissingField,
    /// A field has the wrong shape.
    Invalid,
}

/// What one parameter's descriptor entry must parse to.
pub open spec fn param_of(m: ValueModel) -> ParamOutcome {
    if !(m is Table) {
        ParamOutcome::Invalid
    } else {
        let t = m->Table_0;
        if table_get(t, "message"@) is None || table_get(t, "type"@) is None {
            ParamOutcome::MissingField
        } else {
            let message = table_get(t, "message"@)->0;
            let kind_text = table_get(t, "type"@)->0;
            if !(message is String) || !(kind_text is String) || kind_of(kind_text->String_0) is None {
                ParamOutcome::Invalid
            } else if !(match table_get(t, "required"@) {
                Some(v) => v is Boolean,
                None => true,
            }) {
                ParamOutcome::Invalid
            } else if !(match table_get(t, "default"@) {
                Some(v) => plain_of(v) is Some,
                None => true,
            }) {
                ParamOutcome::Invalid
            } else if !(match table_get(t, "values"@) {
                Some(v) => v is Array && plains_of(v->Array_0) is Some,
                None => true,
            }) {
                ParamOutcome::Invalid
            } else if !(match table_get(t, "tags"@) {
                Some(v) => v is Array && texts_of(v->Array_0) is Some,
                None => true,
            }) {
                ParamOutcome::Invalid
            } else {
                ParamOutcome::Parsed(
                    ParamModel {
                        message: message->String_0,
                        required: match table_get(t, "required"@) {
                            Some(v) => v->Boolean_0,
                            None => false,
                        },
                        kind: kind_of(kind_text->String_0)->0,
                        default: match table_get(t, "default"@) {
                            Some(v) => Some(plain_of(v)->0),
                            None => None,
                        },
                        values: match table_get(t, "values"@) {
                            Some(v) => Some(plains_of(v->Array_0)->0),
                            None => None,
                        },
                        tags: match table_get(t, "tags"@) {
                            Some(v) => Some(texts_of(v->Array_0)->0),
                            None => None,
                        },
                    },
                )
            }
        }
    }
}

/// A list of strings, when the field is there and has that shape.
pub open spec fn string_list_field(t: Map<Seq<char>, ValueModel>, k: Seq<char>) -> Option<
    Option<Seq<Seq<char>>>,
> {
    match table_get(t, k) {
        None => Some(None),
        Some(v) => {
            if v is Array && texts_of(v->Array_0) is Some {
                Some(Some(texts_of(v->Array_0)->0))
            } else {
                None
            }
        },
    }
}

/// A text, when the field is there and is text.
pub open spec fn text_field(t: Map<Seq<char>, ValueModel>, k: Seq<char>) -> Option<
    Option<Seq<char>>,
> {
    match table_get(t, k) {
        None => Some(None),
        Some(v) => {
            if v is String {
                Some(Some(v->String_0))
            } else {
                None
            }
        },
    }
}

/// Whether every parameter entry of the table parses.
pub open spec fn params_all_parsed(t: Map<Seq<char>, ValueModel>) -> bool {
    forall|k: Seq<char>| t.contains_key(k) ==> param_of(t[k]) is Parsed
}

/// What a whole descriptor document must parse to, or nothing when some
/// field has the wrong shape.  The `template` table must be there; all of
/// its fields, the parameters and the hooks are optional.
pub open spec fn desc_of(t: Map<Seq<char>, ValueModel>) -> Option<DescModel> {
    if !(table_get(t, "template"@) matches Some(tv) && tv is Table) {
        None
    } else {
        let tt = table_get(t, "template"@)->0->Table_0;
        if string_list_field(tt, "exclude"@) is None || string_list_field(
            tt,
            "disable_templating"@,
        ) is None || text_field(tt, "notes"@) is None {
            None
        } else if !(match table_get(t, "parameters"@) {
            Some(pv) => pv is Table && params_all_parsed(pv->Table_0),
            None => true,
        }) {
            None
        } else if !(match table_get(t, "hooks"@) {
            Some(hv) => hv is Table && string_list_field(hv->Table_0, "pre"@) is Some
                && string_list_field(hv->Table_0, "post"@) is Some,
            None => true,
        }) {
            None
        } else {
            Some(
                DescModel {
                    exclude: string_list_field(tt, "exclude"@)->0,
                    disable_templating: string_list_field(tt, "disable_templating"@)->0,
                    notes: text_field(tt, "notes"@)->0,
                    parameters: match table_get(t, "parameters"@) {
                        Some(pv) => Map::new(
                            |k: Seq<char>| pv->Table_0.contains_key(k),
                            |k: Seq<char>| param_of(pv->Table_0[k])->Parsed_0,
                        ),
                        None => Map::empty(),
                    },
                    hooks_pre: match table_get(t, "hooks"@) {
                        Some(hv) => string_list_field(hv->Table_0, "pre"@)->0,
                        None => None,
                    },
                    hooks_post: match table_get(t, "hooks"@) {
                        Some(hv) => string_list_field(hv->Table_0, "post"@)->0,
                        None => None,
                    },
                },
            )
        }
    }
}

/// `plains_of` succeeds exactly when every element has a parameter form,
/// and then maps the sequence element by element.
pub proof fn lemma_plains_of(s: Seq<ValueModel>)
    ensures
        plains_of(s) is Some <==> (forall|i: int|
            0 <= i < s.len() ==> plain_of(#[trigger] s[i]) is Some),
        plains_of(s) is Some ==> plains_of(s)->0.len() == s.len() && (forall|i: int|
            0 <= i < s.len() ==> plains_of(s)->0[i] == plain_of(#[trigger] s[i])->0),
    decreases s,
{
    if s.len() > 0 {
        lemma_plains_of(s.drop_last());
        assert(forall|i: int| 0 <= i < s.len() - 1 ==> s.drop_last()[i] == #[trigger] s[i]);
        if forall|i: int| 0 <= i < s.len() ==> plain_of(#[trigger] s[i]) is Some {
            assert(plain_of(s.last()) is Some);
        }
        if plains_of(s) is Some {
            assert forall|i: int| 0 <= i < s.len() implies plains_of(s)->0[i] == plain_of(
                #[trigger] s[i],
            )->0 by {
                if i < s.len() - 1 {
                    assert(plains_of(s)->0[i] == plains_of(s.drop_last())->0[i]);
                }
            }
        }
    }
}

/// `texts_of` succeeds exactly when every element is text, and then maps
/// the sequence element by element.
pub proof fn lemma_texts_of(s: Seq<ValueModel>)
    ensures
        texts_of(s) is Some <==> (forall|i: int| 0 <= i < s.len() ==> #[trigger] s[i] is String),
        texts_of(s) is Some ==> texts_of(s)->0.len() == s.len() && (forall|i: int|
            0 <= i < s.len() ==> texts_of(s)->0[i] == #[trigger] s[i]->String_0),
    decreases s,
{
    if s.len() > 0 {
        lemma_texts_of(s.drop_last());
        assert(forall|i: int| 0 <= i < s.len() - 1 ==> s.drop_last()[i] == #[trigger] s[i]);
        if texts_of(s) is Some {
            assert forall|i: int| 0 <= i < s.len() implies texts_of(s)->0[i] == #[trigger] s[i]->String_0 by {
                if i < s.len() - 1 {
                    assert(texts_of(s)->0[i] == texts_of(s.drop_last())->0[i]);
                }
            }
        }
    }
}

/// Looks a key up among a table's entries.
#[verifier::loop_isolation(false)]
fn find_entry<'a>(
    entries: &'a Vec<(String, toml::Value)>,
    key: &str,
    Ghost(t): Ghost<Map<Seq<char>, ValueModel>>,
) -> (r: Option<&'a toml::Value>)
    requires
        forall|i: int|
            0 <= i < entries@.len() ==> t.contains_key(#[trigger] entries@[i].0@) && t[entries@[
                i
            ].0@] == toml_view(entries@[i].1),
        forall|k: Seq<char>|
            t.contains_key(k) ==> exists|i: int|
                0 <= i < entries@.len() && #[trigger] entries@[i].0@ == k,
    ensures
        match r {
            Some(v) => table_get(t, key@) == Some(toml_view(*v)),
            None => table_get(t, key@) is None,
        },
{
    let n = entries.len();
    let mut i: usize = 0;
    while i < n
        invariant
            i <= n,
            forall|j: int| 0 <= j < i ==> #[trigger] entries@[j].0@ != key@,
        decreases n - i,
    {
        if str_eq(entries[i].0.as_str(), key) {
            return Some(&entries[i].1);
        }
        i += 1;
    }
    proof {
        if t.contains_key(key@) {
            let w = choose|w: int| 0 <= w < entries@.len() && #[trigger] entries@[w].0@ == key@;
            assert(false);
        }
    }
    None
}

/// A descriptor value as a parameter value, when it has one.
#[verifier::loop_isolation(false)]
pub fn plain_value(v: &toml::Value) -> (r: Option<ParamValue>)
    ensures
        match r {
            Some(pv) => plain_of(toml_view(*v)) == Some(pv@),
            None => plain_of(toml_view(*v)) is None,
        },
    decreases toml_view(*v),
{
    if let Some(s) = toml_as_text(v) {
        return Some(ParamValue::String(s.to_owned()));
    }
    if let Some(i) = toml_as_integer(v) {
        return Some(ParamValue::Integer(i));
    }
    if let Some(b) = toml_as_boolean(v) {
        return Some(ParamValue::Boolean(b));
    }
    if let Some(f) = toml_float_text(v) {
        return Some(ParamValue::Float(f));
    }
    if let Some(xs) = toml_as_array(v) {
        let ghost s = toml_view(*v)->Array_0;
        let n = xs.len();
        let mut out: Vec<ParamValue> = Vec::new();
        let mut i: usize = 0;
        while i < n
            invariant
                i <= n,
                out@.len() == i,
                forall|j: int| 0 <= j < i ==> plain_of(#[trigger] s[j]) == Some(out@[j]@),
            decreases n - i,
        {
            proof {
                assert(decreases_to!(toml_view(*v) => s));
                assert(decreases_to!(s => s[i as int]));
            }
            match plain_value(&xs[i]) {
                Some(pv) => {
                    out.push(pv);
                },
                None => {
                    proof {
                        assert(plain_of(s[i as int]) is None);
                        lemma_plains_of(s);
                    }
                    return None;
                },
            }
            i += 1;
        }
        proof {
            lemma_plains_of(s);
            crate::value::lemma_models_of(out@);
            assert(plains_of(s) is Some);
            assert forall|k: int| 0 <= k < n implies crate::value::models_of(out@)[k]
                == plains_of(s)->0[k] by {
                assert(plain_of(s[k]) == Some(out@[k]@));
            }
            assert(crate::value::models_of(out@) =~= plains_of(s)->0);
        }
        return Some(ParamValue::Array(out));
    }
    proof {
        lemma_plains_of(toml_view(*v)->Array_0);
    }
    None
}

/// The texts of an array value, when the value is an array of texts.
#[verifier::loop_isolation(false)]
fn texts_from_value(v: &toml::Value) -> (r: Option<Vec<String>>)
    ensures
        match r {
            Some(xs) => toml_view(*v) is Array && texts_of(toml_view(*v)->Array_0) == Some(
                xs@.map_values(|s: String| s@),
            ),
            None => !(toml_view(*v) is Array && texts_of(toml_view(*v)->Array_0) is Some),
        },
{
    let xs = match toml_as_array(v) {
        Some(xs) => xs,
        None => {
            return None;
        },
    };
    let ghost s = toml_view(*v)->Array_0;
    let n = xs.len();
    let mut out: Vec<String> = Vec::new();
    let mut i: usize = 0;
    while i < n
        invariant
            i <= n,
            out@.len() == i,
            forall|j: int| 0 <= j < i ==> #[trigger] s[j] is String && out@[j]@ == s[j]->String_0,
        decreases n - i,
    {
        match toml_as_text(&xs[i]) {
            Some(t) => {
                out.push(t.to_owned());
            },
            None => {
                proof {
                    assert(!(s[i as int] is String));
                    lemma_texts_of(s);
                }
                return None;
            },
        }
        i += 1;
    }
    proof {
        lemma_texts_of(s);
        assert(texts_of(s) is Some);
        assert(out@.map_values(|st: String| st@) =~= texts_of(s)->0);
    }
    Some(out)
}

/// The parameter values of an array value, when every element has one.
#[verifier::loop_isolation(false)]
fn plain_values_from_value(v: &toml::Value) -> (r: Option<Vec<ParamValue>>)
    ensures
        match r {
            Some(xs) => toml_view(*v) is Array && plains_of(toml_view(*v)->Array_0) == Some(
                crate::value::models_of(xs@),
            ),
            None => !(toml_view(*v) is Array && plains_of(toml_view(*v)->Array_0) is Some),
        },
{
    let xs = match toml_as_array(v) {
        Some(xs) => xs,
        None => {
            return None;
        },
    };
    let ghost s = toml_view(*v)->Array_0;
    let n = xs.len();
    let mut out: Vec<ParamValue> = Vec::new();
    let mut i: usize = 0;
    while i < n
        invariant
            i <= n,
            out@.len() == i,
            forall|j: int| 0 <= j < i ==> plain_of(#[trigger] s[j]) == Some(out@[j]@),
        decreases n - i,
    {
        match plain_value(&xs[i]) {
            Some(pv) => {
                out.push(pv);
            },
            None => {
                proof {
                    assert(plain_of(s[i as int]) is None);
                    lemma_plains_of(s);
                }
                return None;
            },
        }
        i += 1;
    }
    proof {
        lemma_plains_of(s);
        crate::value::lemma_models_of(out@);
        assert(plains_of(s) is Some);
        assert forall|k: int| 0 <= k < n implies crate::value::models_of(out@)[k]
            == plains_of(s)->0[k] by {
            assert(plain_of(s[k]) == Some(out@[k]@));
        }
        assert(crate::value::models_of(out@) =~= plains_of(s)->0);
    }
    Some(out)
}

/// The parameter kind a descriptor text names.
fn kind_from_text(s: &str) -> (r: Option<ParameterType>)
    ensures
        r == kind_of(s@),
{
    if str_eq(s, "string") {
        Some(ParameterType::String)
    } else if str_eq(s, "integer") {
        Some(ParameterType::Integer)
    } else if str_eq(s, "float") {
        Some(ParameterType::Float)
    } else if str_eq(s, "boolean") {
        Some(ParameterType::Boolean)
    } else if str_eq(s, "select") {
        Some(ParameterType::Select)
    } else if str_eq(s, "multiselect") {
        Some(ParameterType::MultiSelect)
    } else {
        None
    }
}

/// How a parameter's table failed to parse.
enum ParamErr {
    MissingField,
    Invalid,
}

/// Parses one parameter's table, field by field.
fn parse_parameter(v: &toml::Value) -> (r: Result<Parameter, ParamErr>)
    ensures
        match r {
            Ok(p) => param_of(toml_view(*v)) == ParamOutcome::Parsed(param_view(p)),
            Err(e) => match e {
                ParamErr::MissingField => param_of(toml_view(*v)) is MissingField,
                ParamErr::Invalid => param_of(toml_view(*v)) is Invalid,
            },
        },
{
    let entries = match toml_table_entries(v) {
        Some(es) => es,
        None => {
            return Err(ParamErr::Invalid);
        },
    };
    let ghost t = toml_view(*v)->Table_0;
    let message_v = find_entry(&entries, "message", Ghost(t));
    let kind_v = find_entry(&entries, "type", Ghost(t));
    let (message_v, kind_v) = match (message_v, kind_v) {
        (Some(m), Some(k)) => (m, k),
        _ => {
            return Err(ParamErr::MissingField);
        },
    };
    let message = match toml_as_text(message_v) {
        Some(s) => s.to_owned(),
        None => {
            return Err(ParamErr::Invalid);
        },
    };
    let kind = match toml_as_text(kind_v) {
        Some(s) => match kind_from_text(s) {
            Some(k) => k,
            None => {
                return Err(ParamErr::Invalid);
            },
        },
        None => {
            return Err(ParamErr::Invalid);
        },
    };
    let required = match find_entry(&entries, "required", Ghost(t)) {
        Some(rv) => match toml_as_boolean(rv) {
            Some(b) => b,
            None => {
                return Err(ParamErr::Invalid);
            },
        },
        None => false,
    };
    let default = match find_entry(&entries, "default", Ghost(t)) {
        Some(dv) => match plain_value(dv) {
            Some(pv) => Some(pv),
            None => {
                return Err(ParamErr::Invalid);
            },
        },
        None => None,
    };
    let values = match find_entry(&entries, "values", Ghost(t)) {
        Some(vv) => match plain_values_from_value(vv) {
            Some(xs) => Some(xs),
            None => {
                return Err(ParamErr::Invalid);
            },
        },
        None => None,
    };
    let tags = match find_entry(&entries, "tags", Ghost(t)) {
        Some(tv) => match texts_from_value(tv) {
            Some(ts) => Some(ts),
            None => {
                return Err(ParamErr::Invalid);
            },
        },
        None => None,
    };
    Ok(Parameter { message, required, kind, default, values, tags })
}

/// A parsed template descriptor together with one run's settings.
///
/// The descriptor fields come from [`parse_descriptor`]; the run's settings
/// (target directory, conflict flags, the project's name, command-line
/// parameter overrides) are filled in afterwards.
#[derive(Debug)]
pub struct ScaffoldDescription {
    pub template: TemplateDescription,
    /// The declared parameters, each with its name, in the order the
    /// parser yields them.
    pub parameters: Vec<(String, Parameter)>,
    pub hooks: Option<Hooks>,
    /// Where the target tree is created; unset means the working directory
    /// joined with the project's name.
    pub target_dir: Option<String>,
    /// Where the template tree lies.
    pub template_path: String,
    /// Replace an existing target directory.
    pub force: bool,
    /// Add missing entries to an existing target directory.
    pub append: bool,
    pub project_name: Option<String>,
    /// Parameter values seeded ahead of prompting.
    pub default_parameters: ParamSet,
}

/// The descriptor fields of `d` hold exactly the parsed model `m`.
pub open spec fn desc_matches(d: ScaffoldDescription, m: DescModel) -> bool {
    &&& (match d.template.exclude {
        Some(v) => m.exclude == Some(v@.map_values(|s: String| s@)),
        None => m.exclude is None,
    })
    &&& (match d.template.disable_templating {
        Some(v) => m.disable_templating == Some(v@.map_values(|s: String| s@)),
        None => m.disable_templating is None,
    })
    &&& (match d.template.notes {
        Some(v) => m.notes == Some(v@),
        None => m.notes is None,
    })
    &&& (forall|i: int, j: int|
        0 <= i < j < d.parameters@.len() ==> d.parameters@[i].0@ != d.parameters@[j].0@)
    &&& (forall|i: int|
        0 <= i < d.parameters@.len() ==> m.parameters.contains_key(
            #[trigger] d.parameters@[i].0@,
        ) && m.parameters[d.parameters@[i].0@] == param_view(d.parameters@[i].1))
    &&& (forall|k: Seq<char>|
        m.parameters.contains_key(k) ==> exists|i: int|
            0 <= i < d.parameters@.len() && #[trigger] d.parameters@[i].0@ == k)
    &&& (match d.hooks {
        Some(h) => {
            &&& (match h.pre {
                Some(v) => m.hooks_pre == Some(v@.map_values(|s: String| s@)),
                None => m.hooks_pre is None,
            })
            &&& (match h.post {
                Some(v) => m.hooks_post == Some(v@.map_values(|s: String| s@)),
                None => m.hooks_post is None,
            })
        },
        None => m.hooks_pre is None && m.hooks_post is None,
    })
}

/// The parameter list `ps` holds exactly the parameters of the table model
/// `pt`: names unique, every entry parsed, every key covered.
pub open spec fn params_match(pt: Map<Seq<char>, ValueModel>, ps: Seq<(String, Parameter)>) -> bool {
    &&& (forall|i: int, j: int| 0 <= i < j < ps.len() ==> ps[i].0@ != ps[j].0@)
    &&& (forall|i: int|
        0 <= i < ps.len() ==> pt.contains_key(#[trigger] ps[i].0@) && param_of(pt[ps[i].0@])
            == ParamOutcome::Parsed(param_view(ps[i].1)))
    &&& (forall|k: Seq<char>|
        pt.contains_key(k) ==> exists|i: int| 0 <= i < ps.len() && #[trigger] ps[i].0@ == k)
}

/// The parameters stage of parsing succeeded with the list `ps`.
pub open spec fn params_stage_ok(top: Map<Seq<char>, ValueModel>, ps: Seq<(String, Parameter)>) -> bool {
    match table_get(top, "parameters"@) {
        None => ps.len() == 0,
        Some(x) => x is Table && params_all_parsed(x->Table_0) && params_match(x->Table_0, ps),
    }
}

/// The hooks stage of parsing succeeded with the value `hk`.
pub open spec fn hooks_stage_ok(top: Map<Seq<char>, ValueModel>, hk: Option<Hooks>) -> bool {
    match table_get(top, "hooks"@) {
        None => hk is None,
        Some(x) => {
            &&& x is Table
            &&& hk matches Some(h) && string_list_field(x->Table_0, "pre"@) == Some(
                match h.pre {
                    Some(v) => Some(v@.map_values(|s: String| s@)),
                    None => None::<Seq<Seq<char>>>,
                },
            ) && string_list_field(x->Table_0, "post"@) == Some(
                match h.post {
                    Some(v) => Some(v@.map_values(|s: String| s@)),
                    None => None::<Seq<Seq<char>>>,
                },
            )
        },
    }
}

/// Parses a descriptor document.

///
/// Success yields exactly the parsed model, with every run setting at its
/// default.  Failure comes exactly when the model refuses the text:
/// `MissingRequiredField` names a parameter whose `message` or `type` is
/// missing, and every other refusal is `Malformed`.
#[verifier::loop_isolation(false)]
pub fn parse_descriptor(text: &str) -> (r: Result<ScaffoldDescription, ScaffoldError>)
    ensures
        match r {
            Ok(d) => {
                &&& toml_parsed(text@) is Some
                &&& desc_of(toml_parsed(text@)->0->Table_0) matches Some(dm) && desc_matches(
                    d,
                    dm,
                )
                &&& d.target_dir is None
                &&& d.template_path@ == Seq::<char>::empty()
                &&& !d.force
                &&& !d.append
                &&& d.project_name is None
                &&& d.default_parameters@ == Map::<Seq<char>, ValueModel>::empty()
                &&& d.default_parameters.wf()
            },
            Err(e) => {
                &&& !(toml_parsed(text@) matches Some(m) && desc_of(m->Table_0) is Some)
                &&& (e is Malformed || e is MissingRequiredField)
                &&& (e matches ScaffoldError::MissingRequiredField(name) ==> {
                    &&& toml_parsed(text@) is Some
                    &&& table_get(toml_parsed(text@)->0->Table_0, "parameters"@) matches Some(pv)
                        && pv is Table && pv->Table_0.contains_key(name@) && param_of(
                        pv->Table_0[name@],
                    ) is MissingField
                })
            },
        },
{
    let doc = match parse_toml(text) {
        Ok(d) => d,
        Err(msg) => {
            return Err(ScaffoldError::Malformed(msg));
        },
    };
    let top_entries = match toml_table_entries(&doc) {
        Some(es) => es,
        None => {
            proof {
                assert(false);
            }
            return Err(ScaffoldError::Malformed(String::new()));
        },
    };
    let ghost top = toml_view(doc)->Table_0;

    let template_v = match find_entry(&top_entries, "template", Ghost(top)) {
        Some(v) => v,
        None => {
            return Err(ScaffoldError::Malformed("template".to_owned()));
        },
    };
    let template_entries = match toml_table_entries(template_v) {
        Some(es) => es,
        None => {
            return Err(ScaffoldError::Malformed("template".to_owned()));
        },
    };
    let ghost tt = toml_view(*template_v)->Table_0;
    proof {
        assert(table_get(top, "template"@) matches Some(tv) && tv is Table && tv->Table_0 == tt);
    }

    let exclude = match find_entry(&template_entries, "exclude", Ghost(tt)) {
        Some(v) => match texts_from_value(v) {
            Some(xs) => Some(xs),
            None => {
                return Err(ScaffoldError::Malformed("template.exclude".to_owned()));
            },
        },
        None => None,
    };
    proof {
        assert(string_list_field(tt, "exclude"@) == Some(
            match exclude {
                Some(v) => Some(v@.map_values(|s: String| s@)),
                None => None::<Seq<Seq<char>>>,
            },
        ));
    }
    let disable_templating = match find_entry(&template_entries, "disable_templating", Ghost(tt)) {
        Some(v) => match texts_from_value(v) {
            Some(xs) => Some(xs),
            None => {
                return Err(ScaffoldError::Malformed("template.disable_templating".to_owned()));
            },
        },
        None => None,
    };
    proof {
        assert(string_list_field(tt, "disable_templating"@) == Some(
            match disable_templating {
                Some(v) => Some(v@.map_values(|s: String| s@)),
                None => None::<Seq<Seq<char>>>,
            },
        ));
    }
    let notes = match find_entry(&template_entries, "notes", Ghost(tt)) {
        Some(v) => match toml_as_text(v) {
            Some(s) => Some(s.to_owned()),
            None => {
                return Err(ScaffoldError::Malformed("template.notes".to_owned()));
            },
        },
        None => None,
    };
    proof {
        assert(text_field(tt, "notes"@) == Some(
            match notes {
                Some(v) => Some(v@),
                None => None::<Seq<char>>,
            },
        ));
    }

    let mut parameters: Vec<(String, Parameter)> = Vec::new();
    match find_entry(&top_entries, "parameters", Ghost(top)) {
        None => {
            proof {
                assert(params_stage_ok(top, parameters@));
            }
        },
        Some(pv) => {
            let p_entries = match toml_table_entries(pv) {
                Some(es) => es,
                None => {
                    return Err(ScaffoldError::Malformed("parameters".to_owned()));
                },
            };
            let ghost pt = toml_view(*pv)->Table_0;
            let n = p_entries.len();
            let mut i: usize = 0;
            while i < n
                invariant
                    i <= n,
                    parameters@.len() == i,
                    forall|j: int| 0 <= j < i ==> #[trigger] parameters@[j].0@ == p_entries@[j].0@,
                    forall|j: int|
                        0 <= j < i ==> pt.contains_key(#[trigger] parameters@[j].0@) && param_of(
                            pt[parameters@[j].0@],
                        ) == ParamOutcome::Parsed(param_view(parameters@[j].1)),
                decreases n - i,
            {
                match parse_parameter(&p_entries[i].1) {
                    Ok(param) => {
                        parameters.push((p_entries[i].0.clone(), param));
                    },
                    Err(ParamErr::MissingField) => {
                        proof {
                            assert(pt.contains_key(p_entries@[i as int].0@) && param_of(
                                pt[p_entries@[i as int].0@],
                            ) is MissingField);
                            assert(!params_all_parsed(pt));
                        }
                        return Err(ScaffoldError::MissingRequiredField(p_entries[i].0.clone()));
                    },
                    Err(ParamErr::Invalid) => {
                        proof {
                            assert(pt.contains_key(p_entries@[i as int].0@) && param_of(
                                pt[p_entries@[i as int].0@],
                            ) is Invalid);
                            assert(!params_all_parsed(pt));
                        }
                        return Err(ScaffoldError::Malformed(p_entries[i].0.clone()));
                    },
                }
                i += 1;
            }
            proof {
                assert forall|k: Seq<char>| pt.contains_key(k) implies param_of(
                    #[trigger] pt[k],
                ) is Parsed by {
                    let w = choose|w: int|
                        0 <= w < p_entries@.len() && #[trigger] p_entries@[w].0@ == k;
                    assert(parameters@[w].0@ == k);
                    assert(param_of(pt[parameters@[w].0@]) is Parsed);
                };
                assert(params_all_parsed(pt));
                assert forall|k: Seq<char>| pt.contains_key(k) implies exists|j: int|
                    0 <= j < parameters@.len() && #[trigger] parameters@[j].0@ == k by {
                    let w = choose|w: int|
                        0 <= w < p_entries@.len() && #[trigger] p_entries@[w].0@ == k;
                    assert(parameters@[w].0@ == k);
                };
                assert(params_match(pt, parameters@));
                assert(params_stage_ok(top, parameters@));
            }
        },
    }

    let hooks: Option<Hooks> = match find_entry(&top_entries, "hooks", Ghost(top)) {
        None => {
            proof {
                assert(hooks_stage_ok(top, None::<Hooks>));
            }
            None
        },
        Some(hv) => {
            let h_entries = match toml_table_entries(hv) {
                Some(es) => es,
                None => {
                    return Err(ScaffoldError::Malformed("hooks".to_owned()));
                },
            };
            let ghost ht = toml_view(*hv)->Table_0;
            let pre = match find_entry(&h_entries, "pre", Ghost(ht)) {
                Some(v) => match texts_from_value(v) {
                    Some(xs) => Some(xs),
                    None => {
                        return Err(ScaffoldError::Malformed("hooks.pre".to_owned()));
                    },
                },
                None => None,
            };
            let post = match find_entry(&h_entries, "post", Ghost(ht)) {
                Some(v) => match texts_from_value(v) {
                    Some(xs) => Some(xs),
                    None => {
                        return Err(ScaffoldError::Malformed("hooks.post".to_owned()));
                    },
                },
                None => None,
            };
            let h = Hooks { pre, post };
            proof {
                assert(hooks_stage_ok(top, Some(h)));
            }
            Some(h)
        },
    };

    let d = ScaffoldDescription {
        template: TemplateDescription { exclude, disable_templating, notes },
        parameters,
        hooks,
        target_dir: None,
        template_path: String::new(),
        force: false,
        append: false,
        project_name: None,
        default_parameters: ParamSet::new(),
    };
    proof {
        assert(desc_of(top) is Some);
        let dm = desc_of(top)->0;
        assert(desc_matches(d, dm));
    }
    Ok(d)
}

impl ScaffoldDescription {
    /// The configured project name, when one was given.
    pub fn name(&self) -> (r: Option<String>)
        ensures
            match r {
                Some(s) => self.project_name matches Some(p) && s@ == p@,
                None => self.project_name is None,
            },
    {
        match &self.project_name {
            Some(s) => Some(s.clone()),
            None => None,
        }
    }
}

impl Parameter {
    /// A copy of the parameter, field for field.
    #[verifier::loop_isolation(false)]
    pub fn duplicate(&self) -> (r: Parameter)
        ensures
            param_view(r) == param_view(*self),
    {
        let default = match &self.default {
            Some(d) => Some(d.duplicate()),
            None => None,
        };
        let values = match &self.values {
            Some(vs) => {
                let n = vs.len();
                let mut out: Vec<ParamValue> = Vec::new();
                let mut i: usize = 0;
                while i < n
                    invariant
                        i <= n,
                        out@.len() == i,
                        forall|j: int| 0 <= j < i ==> #[trigger] out@[j]@ == vs@[j]@,
                    decreases n - i,
                {
                    let v = vs[i].duplicate();
                    out.push(v);
                    i += 1;
                }
                proof {
                    crate::value::lemma_models_of(out@);
                    crate::value::lemma_models_of(vs@);
                    assert(crate::value::models_of(out@) =~= crate::value::models_of(vs@));
                }
                Some(out)
            },
            None => None,
        };
        let tags = match &self.tags {
            Some(ts) => {
                let n = ts.len();
                let mut out: Vec<String> = Vec::new();
                let mut i: usize = 0;
                while i < n
                    invariant
                        i <= n,
                        out@.len() == i,
                        forall|j: int| 0 <= j < i ==> #[trigger] out@[j]@ == ts@[j]@,
                    decreases n - i,
                {
                    let s = ts[i].clone();
                    out.push(s);
                    i += 1;
                }
                proof {
                    assert(out@.map_values(|s: String| s@) =~= ts@.map_values(|s: String| s@));
                }
                Some(out)
            },
            None => None,
        };
        Parameter {
            message: self.message.clone(),
            required: self.required,
            kind: self.kind,
            default,
            values,
            tags,
        }
    }
}

} // verus!

//! Resolving the final parameter set.
//!
//! Values come from three places: `name=value` overrides given on the
//! command line, a project name given ahead of time, and answers to the
//! prompts an interactive collaborator asks.  Everything decided here is
//! verified; only the asking itself is the collaborator's.

use vstd::prelude::*;
use vstd::string::StrSliceExecFns;
use vstd::string::StringExecFns;

use crate::descriptor::param_view;
use crate::descriptor::Parameter;
use crate::descriptor::ParameterType;
use crate::descriptor::ScaffoldDescription;
use crate::error::ScaffoldError;
use crate::opts::Opts;
use crate::text::first_index_of;
use crate::text::lemma_first_index_at;
use crate::text::lemma_first_index_of;
use crate::value::assoc_map;
use crate::value::ParamSet;
use crate::value::ParamValue;
use crate::value::ValueModel;

verus! {

/// The key and value of a `name=value` override, split at the first `=`;
/// nothing when the text holds no `=`.
pub open spec fn cli_pair(s: Seq<char>) -> Option<(Seq<char>, Seq<char>)> {
    let i = first_index_of(s, '=');
    if i < s.len() {
        Some((s.subrange(0, i as int), s.subrange(i as int + 1, s.len() as int)))
    } else {
        None
    }
}

/// Splits a `name=value` override at its first `=`.
fn split_cli(s: &str) -> (r: Option<(String, String)>)
    ensures
        match r {
            Some(kv) => cli_pair(s@) == Some((kv.0@, kv.1@)),
            None => cli_pair(s@) is None,
        },
{
    let n = s.unicode_len();
    let mut i: usize = 0;
    while i < n
        invariant
            n == s@.len(),
            i <= n,
            forall|j: int| 0 <= j < i ==> s@[j] != '=',
        decreases n - i,
    {
        if s.get_char(i) == '=' {
            proof {
                lemma_first_index_at(s@, '=', i as int);
            }
            return Some((s.substring_char(0, i).to_owned(), s.substring_char(i + 1, n).to_owned()));
        }
        i += 1;
    }
    proof {
        lemma_first_index_of(s@, '=');
        if first_index_of(s@, '=') < s@.len() {
            assert(s@[first_index_of(s@, '=') as int] == '=');
        }
    }
    None
}

/// The parameter set described by a list of `name=value` overrides, each
/// value as text, later duplicates winning; nothing when one override
/// holds no `=`.
pub open spec fn cli_map(ss: Seq<Seq<char>>) -> Option<Map<Seq<char>, ValueModel>>
    decreases ss,
{
    if ss.len() == 0 {
        Some(Map::empty())
    } else {
        match cli_map(ss.drop_last()) {
            Some(m) => match cli_pair(ss.last()) {
                Some(kv) => Some(m.insert(kv.0, ValueModel::String(kv.1))),
                None => None,
            },
            None => None,
        }
    }
}

/// One override without `=` spoils the whole list.
proof fn lemma_cli_map_bad(ss: Seq<Seq<char>>, i: int)
    requires
        0 <= i < ss.len(),
        cli_pair(ss[i]) is None,
    ensures
        cli_map(ss) is None,
    decreases ss,
{
    if i < ss.len() - 1 {
        assert(ss.drop_last()[i] == ss[i]);
        lemma_cli_map_bad(ss.drop_last(), i);
    }
}

/// Parses the command line's `name=value` overrides into a parameter set,
/// every value as text.
#[verifier::loop_isolation(false)]
pub fn parse_cli_params(params: &Vec<String>) -> (r: Result<ParamSet, ScaffoldError>)
    ensures
        match r {
            Ok(ps) => ps.wf() && cli_map(params@.map_values(|s: String| s@)) == Some(ps@),
            Err(e) => {
                &&& cli_map(params@.map_values(|s: String| s@)) is None
                &&& e matches ScaffoldError::InvalidCliParam(p) && cli_pair(p@) is None && (
                exists|i: int| 0 <= i < params@.len() && #[trigger] params@[i]@ == p@)
            },
        },
{
    let ghost ss = params@.map_values(|s: String| s@);
    let mut ps = ParamSet::new();
    let n = params.len();
    let mut i: usize = 0;
    proof {
        assert(ss.subrange(0, 0) =~= Seq::<Seq<char>>::empty());
    }
    while i < n
        invariant
            i <= n,
            ps.wf(),
            cli_map(ss.subrange(0, i as int)) == Some(ps@),
        decreases n - i,
    {
        match split_cli(params[i].as_str()) {
            Some((k, v)) => {
                ps.insert(k, ParamValue::String(v));
            },
            None => {
                proof {
                    lemma_cli_map_bad(ss, i as int);
                }
                return Err(ScaffoldError::InvalidCliParam(params[i].clone()));
            },
        }
        proof {
            assert(ss.subrange(0, i + 1).drop_last() =~= ss.subrange(0, i as int));
        }
        i += 1;
    }
    proof {
        assert(ss.subrange(0, n as int) =~= ss);
    }
    Ok(ps)
}

impl ScaffoldDescription {
    /// Applies one run's options: the command-line overrides become the
    /// seeded parameters, a given project name is seeded as `name`, and the
    /// run's locations and flags are taken over.
    pub fn configure(self, opts: Opts) -> (r: Result<ScaffoldDescription, ScaffoldError>)
        ensures
            match r {
                Ok(d) => {
                    &&& cli_map(opts.parameters@.map_values(|s: String| s@)) matches Some(m)
                        && d.default_parameters@ == (match opts.project_name {
                        Some(n) => m.insert("name"@, ValueModel::String(n@)),
                        None => m,
                    })
                    &&& d.default_parameters.wf()
                    &&& d.template == self.template
                    &&& d.parameters == self.parameters
                    &&& d.hooks == self.hooks
                    &&& d.target_dir == opts.target_dir
                    &&& d.template_path == opts.template_path
                    &&& d.force == opts.force
                    &&& d.append == opts.append
                    &&& d.project_name == opts.project_name
                },
                Err(e) => {
                    &&& cli_map(opts.parameters@.map_values(|s: String| s@)) is None
                    &&& e is InvalidCliParam
                },
            },
    {
        let mut dp = match parse_cli_params(&opts.parameters) {
            Ok(ps) => ps,
            Err(e) => {
                return Err(e);
            },
        };
        let pn = opts.project_name;
        if let Some(name) = &pn {
            dp.insert("name".to_owned(), ParamValue::String(name.clone()));
        }
        Ok(
            ScaffoldDescription {
                template: self.template,
                parameters: self.parameters,
                hooks: self.hooks,
                target_dir: opts.target_dir,
                template_path: opts.template_path,
                force: opts.force,
                append: opts.append,
                project_name: pn,
                default_parameters: dp,
            },
        )
    }
}

/// The prompt text for a project name nothing else supplies.
pub open spec fn name_prompt_message() -> Seq<char> {
    "What is the name of your generated project ?"@
}

/// The parameter model of the synthesized project-name prompt.
pub open spec fn name_prompt_model() -> crate::descriptor::ParamModel {
    crate::descriptor::ParamModel {
        message: name_prompt_message(),
        required: true,
        kind: ParameterType::String,
        default: None,
        values: None,
        tags: None,
    }
}

/// The prompt synthesized for the project's name when nothing declares or
/// seeds it.
pub fn name_prompt() -> (r: Parameter)
    ensures
        param_view(r) == name_prompt_model(),
{
    Parameter {
        message: "What is the name of your generated project ?".to_owned(),
        required: true,
        kind: ParameterType::String,
        default: None,
        values: None,
        tags: None,
    }
}

/// The declared parameters not yet seeded, in declared order.
pub open spec fn pending_of(
    ps: Seq<(String, Parameter)>,
    seeded: Map<Seq<char>, ValueModel>,
) -> Seq<(String, Parameter)>
    decreases ps,
{
    if ps.len() == 0 {
        Seq::empty()
    } else {
        let rest = pending_of(ps.drop_last(), seeded);
        if seeded.contains_key(ps.last().0@) {
            rest
        } else {
            rest.push(ps.last())
        }
    }
}

/// Some declared parameter is named `name`.
pub open spec fn declares_name(ps: Seq<(String, Parameter)>) -> bool {
    exists|i: int| 0 <= i < ps.len() && #[trigger] ps[i].0@ == "name"@
}

/// The lists agree name for name and parameter for parameter.
pub open spec fn prompts_agree(a: Seq<(String, Parameter)>, b: Seq<(String, Parameter)>) -> bool {
    &&& a.len() == b.len()
    &&& forall|i: int|
        0 <= i < a.len() ==> (#[trigger] a[i].0@) == b[i].0@ && param_view(a[i].1) == param_view(
            b[i].1,
        )
}

impl ScaffoldDescription {
    /// The prompts a run still has to ask, in declared order: every declared
    /// parameter the seeded set lacks, and — when nothing seeds or declares
    /// `name` — the synthesized project-name prompt, last.
    #[verifier::loop_isolation(false)]
    pub fn pending_prompts(&self, seeded: &ParamSet) -> (r: Vec<(String, Parameter)>)
        requires
            seeded.wf(),
        ensures
            ({
                let base = pending_of(self.parameters@, seeded@);
                if seeded@.contains_key("name"@) || declares_name(self.parameters@) {
                    prompts_agree(r@, base)
                } else {
                    &&& r@.len() == base.len() + 1
                    &&& prompts_agree(r@.drop_last(), base)
                    &&& r@.last().0@ == "name"@
                    &&& param_view(r@.last().1) == name_prompt_model()
                }
            }),
    {
        let n = self.parameters.len();
        let mut out: Vec<(String, Parameter)> = Vec::new();
        let mut i: usize = 0;
        let mut found_name = false;
        proof {
            assert(self.parameters@.subrange(0, 0) =~= Seq::<(String, Parameter)>::empty());
        }
        while i < n
            invariant
                i <= n,
                prompts_agree(out@, pending_of(self.parameters@.subrange(0, i as int), seeded@)),
                found_name == declares_name(self.parameters@.subrange(0, i as int)),
            decreases n - i,
        {
            let key = &self.parameters[i].0;
            if crate::text::str_eq(key.as_str(), "name") {
                found_name = true;
                proof {
                    assert(self.parameters@.subrange(0, i + 1)[i as int].0@ == "name"@);
                }
            } else {
                proof {
                    if declares_name(self.parameters@.subrange(0, i + 1)) {
                        let w = choose|w: int|
                            0 <= w < i + 1 && #[trigger] self.parameters@.subrange(0, i + 1)[w].0@
                                == "name"@;
                        assert(w < i ==> self.parameters@.subrange(0, i as int)[w].0@ == "name"@);
                    }
                }
            }
            if !seeded.contains_key(key.as_str()) {
                let pair = (key.clone(), self.parameters[i].1.duplicate());
                out.push(pair);
            }
            proof {
                assert(self.parameters@.subrange(0, i + 1).drop_last() =~= self.parameters@
                    .subrange(0, i as int));
                if !found_name && declares_name(self.parameters@.subrange(0, i + 1)) {
                    let w = choose|w: int|
                        0 <= w < i + 1 && #[trigger] self.parameters@.subrange(0, i + 1)[w].0@
                            == "name"@;
                    if w < i {
                        assert(self.parameters@.subrange(0, i as int)[w].0@ == "name"@);
                    }
                }
            }
            i += 1;
        }
        proof {
            assert(self.parameters@.subrange(0, n as int) =~= self.parameters@);
        }
        if !found_name && !seeded.contains_key("name") {
            let pair = ("name".to_owned(), name_prompt());
            proof {
                assert(out@.push(pair).drop_last() =~= out@);
            }
            out.push(pair);
        }
        out
    }
}

/// One answer obtained from the prompting collaborator.
pub enum PromptAnswer {
    String(String),
    Integer(i64),
    /// A floating-point answer, carried as its decimal text.
    Float(String),
    Boolean(bool),
    /// The chosen position for a single selection.
    Index(usize),
    /// The chosen positions for a multiple selection.
    Indices(Vec<usize>),
}

/// The answer has the shape the parameter's kind calls for, and selection
/// positions point into the declared values.
pub open spec fn answer_fits(p: Parameter, a: PromptAnswer) -> bool {
    match p.kind {
        ParameterType::String => a is String,
        ParameterType::Integer => a is Integer,
        ParameterType::Float => a is Float,
        ParameterType::Boolean => a is Boolean,
        ParameterType::Select => a is Index && (match p.values {
            Some(vs) => vs@.len() > 0 ==> (a->Index_0 as int) < vs@.len(),
            None => true,
        }),
        ParameterType::MultiSelect => a is Indices && (match p.values {
            Some(vs) => forall|j: int|
                0 <= j < a->Indices_0@.len() ==> (#[trigger] a->Indices_0@[j] as int) < vs@.len(),
            None => true,
        }),
    }
}

/// Turns one prompt's answer into the parameter's value.
///
/// Scalars keep their value.  A single selection yields the chosen declared
/// value, a multiple selection the array of chosen values; a selection
/// declared without values — for a single selection, with an empty list
/// too — yields `MissingValues` naming the parameter.
#[verifier::loop_isolation(false)]
pub fn answer_to_value(name: &str, p: &Parameter, a: &PromptAnswer) -> (r: Result<
    ParamValue,
    ScaffoldError,
>)
    requires
        answer_fits(*p, *a),
    ensures
        match p.kind {
            ParameterType::String => r matches Ok(v) && v@ == ValueModel::String(a->String_0@),
            ParameterType::Integer => r matches Ok(v) && v@ == ValueModel::Integer(
                a->Integer_0 as int,
            ),
            ParameterType::Float => r matches Ok(v) && v@ == ValueModel::Float(a->Float_0@),
            ParameterType::Boolean => r matches Ok(v) && v@ == ValueModel::Boolean(a->Boolean_0),
            ParameterType::Select => match p.values {
                Some(vs) => {
                    if vs@.len() == 0 {
                        r matches Err(e) && e matches ScaffoldError::MissingValues(nm) && nm@
                            == name@
                    } else {
                        r matches Ok(v) && v@ == vs@[a->Index_0 as int]@
                    }
                },
                None => r matches Err(e) && e matches ScaffoldError::MissingValues(nm) && nm@
                    == name@,
            },
            ParameterType::MultiSelect => match p.values {
                Some(vs) => r matches Ok(v) && v@ == ValueModel::Array(
                    Seq::new(
                        a->Indices_0@.len(),
                        |j: int| vs@[a->Indices_0@[j] as int]@,
                    ),
                ),
                None => r matches Err(e) && e matches ScaffoldError::MissingValues(nm) && nm@
                    == name@,
            },
        },
{
    match p.kind {
        ParameterType::String => {
            if let PromptAnswer::String(s) = a {
                Ok(ParamValue::String(s.clone()))
            } else {
                proof {
                    assert(false);
                }
                Err(ScaffoldError::MissingProjectName)
            }
        },
        ParameterType::Integer => {
            if let PromptAnswer::Integer(i) = a {
                Ok(ParamValue::Integer(*i))
            } else {
                proof {
                    assert(false);
                }
                Err(ScaffoldError::MissingProjectName)
            }
        },
        ParameterType::Float => {
            if let PromptAnswer::Float(s) = a {
                Ok(ParamValue::Float(s.clone()))
            } else {
                proof {
                    assert(false);
                }
                Err(ScaffoldError::MissingProjectName)
            }
        },
        ParameterType::Boolean => {
            if let PromptAnswer::Boolean(b) = a {
                Ok(ParamValue::Boolean(*b))
            } else {
                proof {
                    assert(false);
                }
                Err(ScaffoldError::MissingProjectName)
            }
        },
        ParameterType::Select => {
            let vs = match &p.values {
                Some(vs) => vs,
                None => {
                    return Err(ScaffoldError::MissingValues(name.to_owned()));
                },
            };
            if vs.len() == 0 {
                return Err(ScaffoldError::MissingValues(name.to_owned()));
            }
            if let PromptAnswer::Index(i) = a {
                Ok(vs[*i].duplicate())
            } else {
                proof {
                    assert(false);
                }
                Err(ScaffoldError::MissingProjectName)
            }
        },
        ParameterType::MultiSelect => {
            let vs = match &p.values {
                Some(vs) => vs,
                None => {
                    return Err(ScaffoldError::MissingValues(name.to_owned()));
                },
            };
            if let PromptAnswer::Indices(is) = a {
                let k = is.len();
                let mut out: Vec<ParamValue> = Vec::new();
                let mut j: usize = 0;
                while j < k
                    invariant
                        j <= k,
                        out@.len() == j,
                        forall|q: int| 0 <= q < j ==> #[trigger] out@[q]@ == vs@[is@[q] as int]@,
                    decreases k - j,
                {
                    let v = vs[is[j]].duplicate();
                    out.push(v);
                    j += 1;
                }
                proof {
                    crate::value::lemma_models_of(out@);
                    assert(crate::value::models_of(out@) =~= Seq::new(
                        is@.len(),
                        |q: int| vs@[is@[q] as int]@,
                    ));
                }
                Ok(ParamValue::Array(out))
            } else {
                proof {
                    assert(false);
                }
                Err(ScaffoldError::MissingProjectName)
            }
        },
    }
}

/// The resolved project name.  Resolution always binds `name` to text
/// before materialization begins.
pub fn get_name(params: &ParamSet) -> (r: String)
    requires
        params.wf(),
        params@.contains_key("name"@),
        params@["name"@] is String,
    ensures
        r@ == params@["name"@]->String_0,
{
    match params.get("name") {
        Some(v) => match v {
            ParamValue::String(s) => s.clone(),
            _ => {
                proof {
                    assert(false);
                }
                String::new()
            },
        },
        None => {
            proof {
                assert(false);
            }
            String::new()
        },
    }
}

impl ScaffoldDescription {
    /// The parameter set of a non-interactive run: the seeded defaults,
    /// overridden by the given parameters, with `name` bound to the
    /// configured project name — which such a run must have.
    #[verifier::loop_isolation(false)]
    pub fn merged_parameters(&self, parameters: &ParamSet) -> (r: Result<ParamSet, ScaffoldError>)
        requires
            self.default_parameters.wf(),
            parameters.wf(),
        ensures
            match r {
                Ok(m) => {
                    &&& self.project_name matches Some(n) && m@
                        == self.default_parameters@.union_prefer_right(
                        parameters@.insert("name"@, ValueModel::String(n@)),
                    )
                    &&& m.wf()
                },
                Err(e) => self.project_name is None && e is MissingProjectName,
            },
    {
        let name = match &self.project_name {
            Some(n) => n.clone(),
            None => {
                return Err(ScaffoldError::MissingProjectName);
            },
        };
        let mut withname = parameters.duplicate();
        withname.insert("name".to_owned(), ParamValue::String(name));
        let mut acc = self.default_parameters.duplicate();
        let k = withname.len();
        let mut i: usize = 0;
        proof {
            assert(withname.entry_models().subrange(0, 0) =~= Seq::<
                (Seq<char>, ValueModel),
            >::empty());
            assert(self.default_parameters@.union_prefer_right(
                assoc_map(withname.entry_models().subrange(0, 0)),
            ) =~= self.default_parameters@);
        }
        while i < k
            invariant
                i <= k,
                acc.wf(),
                withname.wf(),
                k == withname.entry_models().len(),
                acc@ == self.default_parameters@.union_prefer_right(
                    assoc_map(withname.entry_models().subrange(0, i as int)),
                ),
            decreases k - i,
        {
            let key = withname.key_at(i).clone();
            let val = withname.value_at(i).duplicate();
            acc.insert(key, val);
            proof {
                let pre = withname.entry_models().subrange(0, i as int);
                let post = withname.entry_models().subrange(0, i + 1);
                assert(post.drop_last() =~= pre);
                assert(self.default_parameters@.union_prefer_right(assoc_map(post))
                    =~= self.default_parameters@.union_prefer_right(assoc_map(pre)).insert(
                    withname.entry_models()[i as int].0,
                    withname.entry_models()[i as int].1,
                ));
            }
            i += 1;
        }
        proof {
            assert(withname.entry_models().subrange(0, k as int) =~= withname.entry_models());
        }
        Ok(acc)
    }
}

} // verus!

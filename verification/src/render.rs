//! Rendering text and destination paths through the templating engine.
//!
//! The engine itself is opaque: `rendered` names what it produces for a
//! template and a set of bindings.  Everything around the engine is
//! verified: the render context built from a parameter set (floats enter as
//! their text), and the path-rendering rule that renders each path component
//! separately — path separators are escape-significant to the template
//! syntax, so a joined path must never reach the engine in one piece.

use vstd::prelude::*;
use vstd::string::StrSliceExecFns;

use crate::error::RenderStage;
use crate::error::ScaffoldError;
use crate::text::has_no_char;
use crate::text::join_spec;
use crate::text::join_str;
use crate::text::split_spec;
use crate::text::split_str;
use crate::text::str_eq;
use crate::tomlval::toml_array;
use crate::tomlval::toml_boolean;
use crate::tomlval::toml_integer;
use crate::tomlval::toml_table;
use crate::tomlval::toml_text;
use crate::tomlval::toml_view;
use crate::value::assoc_map;
use crate::value::lemma_models_of;
use crate::value::models_of;
use crate::value::ParamSet;
use crate::value::ParamValue;
use crate::value::ValueModel;

verus! {

/// What the templating engine produces for a template and a set of named
/// bindings, or nothing when the engine refuses the template.
pub uninterp spec fn rendered(tpl: Seq<char>, bindings: Map<Seq<char>, ValueModel>) -> Option<
    Seq<char>,
>;

/// A model whose rendering is determined by the model alone: scalars and
/// arrays of such.  Datetimes and nested tables are left out; the engine
/// never builds them into a render context.
pub open spec fn definite(m: ValueModel) -> bool
    decreases m,
{
    match m {
        ValueModel::String(_) => true,
        ValueModel::Integer(_) => true,
        ValueModel::Float(_) => true,
        ValueModel::Boolean(_) => true,
        ValueModel::Array(s) => all_definite(s),
        ValueModel::Table(_) => false,
        ValueModel::Datetime => false,
    }
}

/// Every element of the sequence is definite.
pub open spec fn all_definite(s: Seq<ValueModel>) -> bool
    decreases s,
{
    if s.len() == 0 {
        true
    } else {
        all_definite(s.drop_last()) && definite(s.last())
    }
}

/// The bindings of a render context are all definite.
pub open spec fn context_definite(t: Map<Seq<char>, ValueModel>) -> bool {
    forall|k: Seq<char>| t.contains_key(k) ==> definite(t[k])
}

/// Relies on handlebars::Handlebars::render_template, called on a fresh
/// engine with strict mode off: the output is a function of the template
/// text and the bindings alone, and text holding neither `{` nor `\` — no
/// expression and no escape can start in it — is returned unchanged.
#[verifier::external_body]
fn hb_render(tpl: &str, ctx: &toml::Value) -> (r: Result<String, String>)
    requires
        toml_view(*ctx) is Table,
        context_definite(toml_view(*ctx)->Table_0),
    ensures
        r is Ok <==> rendered(tpl@, toml_view(*ctx)->Table_0) is Some,
        r is Ok ==> r->Ok_0@ == rendered(tpl@, toml_view(*ctx)->Table_0)->0,
        has_no_char(tpl@, '{') && has_no_char(tpl@, '\\') ==> r is Ok && r->Ok_0@ == tpl@,
{
    let mut hb = handlebars::Handlebars::new();
    hb.set_strict_mode(false);
    hb.render_template(tpl, ctx).map_err(|e| format!("{}", e))
}

/// The form a parameter value takes in the render context: floats become
/// their decimal text, everything else keeps its shape.
pub open spec fn ctx_model(m: ValueModel) -> ValueModel
    decreases m,
{
    match m {
        ValueModel::Float(t) => ValueModel::String(t),
        ValueModel::Array(s) => ValueModel::Array(ctx_models(s)),
        _ => m,
    }
}

/// `ctx_model`, element by element.
pub open spec fn ctx_models(s: Seq<ValueModel>) -> Seq<ValueModel>
    decreases s,
{
    if s.len() == 0 {
        Seq::empty()
    } else {
        ctx_models(s.drop_last()).push(ctx_model(s.last()))
    }
}

/// `ctx_models` maps the sequence element by element.
pub proof fn lemma_ctx_models(s: Seq<ValueModel>)
    ensures
        ctx_models(s).len() == s.len(),
        forall|i: int| 0 <= i < s.len() ==> ctx_models(s)[i] == ctx_model(s[i]),
    decreases s,
{
    if s.len() > 0 {
        lemma_ctx_models(s.drop_last());
        assert forall|i: int| 0 <= i < s.len() implies ctx_models(s)[i] == ctx_model(s[i]) by {
            if i < s.len() - 1 {
                assert(ctx_models(s)[i] == ctx_models(s.drop_last())[i]);
                assert(s.drop_last()[i] == s[i]);
            }
        }
    }
}

/// The context form of a parameter value is definite.
proof fn lemma_value_ctx_definite(v: ParamValue)
    ensures
        definite(ctx_model(v@)),
    decreases v,
{
    match v {
        ParamValue::Array(xs) => {
            lemma_values_ctx_definite(xs@);
        },
        _ => {},
    }
}

/// The context forms of parameter values are all definite.
proof fn lemma_values_ctx_definite(s: Seq<ParamValue>)
    ensures
        all_definite(ctx_models(models_of(s))),
    decreases s,
{
    if s.len() > 0 {
        let sub = s.subrange(0, s.len() - 1);
        lemma_values_ctx_definite(sub);
        lemma_value_ctx_definite(s[s.len() - 1]);
        assert(models_of(s) == models_of(sub).push(s[s.len() - 1]@));
        assert(models_of(s).drop_last() =~= models_of(sub));
        assert(ctx_models(models_of(s)) == ctx_models(models_of(sub)).push(
            ctx_model(s[s.len() - 1]@),
        ));
        assert(ctx_models(models_of(s)).drop_last() =~= ctx_models(models_of(sub)));
    }
}

/// Builds the engine's form of one parameter value.
#[verifier::loop_isolation(false)]
pub fn to_ctx_value(v: &ParamValue) -> (r: toml::Value)
    ensures
        toml_view(r) == ctx_model(v@),
        definite(toml_view(r)),
    decreases v,
{
    proof {
        lemma_value_ctx_definite(*v);
    }
    match v {
        ParamValue::String(s) => toml_text(s.as_str()),
        ParamValue::Integer(i) => toml_integer(*i),
        ParamValue::Float(t) => toml_text(t.as_str()),
        ParamValue::Boolean(b) => toml_boolean(*b),
        ParamValue::Array(xs) => {
            let n = xs.len();
            let mut out: Vec<toml::Value> = Vec::new();
            let mut i: usize = 0;
            while i < n
                invariant
                    n == xs@.len(),
                    i <= n,
                    out@.len() == i,
                    forall|j: int| 0 <= j < i ==> toml_view(out@[j]) == ctx_model(xs@[j]@),
                decreases n - i,
            {
                proof {
                    lemma_models_of(xs@);
                    assert(decreases_to!(*v => (*v)->Array_0));
                    assert(decreases_to!((*v)->Array_0 => xs@));
                    assert(decreases_to!(xs@ => xs@[i as int]));
                }
                let cv = to_ctx_value(&xs[i]);
                out.push(cv);
                i += 1;
            }
            let r = toml_array(out);
            proof {
                lemma_models_of(xs@);
                lemma_ctx_models(models_of(xs@));
                assert(toml_view(r)->Array_0 =~= ctx_models(models_of(xs@)));
                assert(toml_view(r) == ctx_model(v@)) by {
                    assert(toml_view(r) is Array && ctx_model(v@) is Array);
                }
            }
            r
        },
    }
}

/// The render context of a parameter set: the same mapping, each value in
/// its context form.
pub open spec fn ctx_of_map(m: Map<Seq<char>, ValueModel>) -> Map<Seq<char>, ValueModel> {
    Map::new(|k: Seq<char>| m.contains_key(k), |k: Seq<char>| ctx_model(m[k]))
}

/// A key of the map is carried by some entry, with the map's value.
proof fn lemma_assoc_in(s: Seq<(Seq<char>, ValueModel)>, k: Seq<char>)
    requires
        assoc_map(s).contains_key(k),
    ensures
        exists|i: int| 0 <= i < s.len() && s[i] == (k, assoc_map(s)[k]),
    decreases s.len(),
{
    if s.len() > 0 {
        if s.last().0 == k {
            assert(s[s.len() - 1] == (k, assoc_map(s)[k]));
        } else {
            lemma_assoc_in(s.drop_last(), k);
            let i = choose|i: int|
                0 <= i < s.drop_last().len() && s.drop_last()[i] == (k, assoc_map(s.drop_last())[k]);
            assert(s[i] == (k, assoc_map(s)[k]));
        }
    }
}

/// Mapping the entries to their context forms turns the described map into
/// the context map.
proof fn lemma_assoc_ctx(s: Seq<(Seq<char>, ValueModel)>)
    ensures
        assoc_map(s.map_values(|e: (Seq<char>, ValueModel)| (e.0, ctx_model(e.1)))) == ctx_of_map(
            assoc_map(s),
        ),
    decreases s.len(),
{
    let mapped = s.map_values(|e: (Seq<char>, ValueModel)| (e.0, ctx_model(e.1)));
    if s.len() == 0 {
        assert(assoc_map(mapped) =~= ctx_of_map(assoc_map(s)));
    } else {
        let sub = s.drop_last();
        assert(mapped.drop_last() =~= sub.map_values(
            |e: (Seq<char>, ValueModel)| (e.0, ctx_model(e.1)),
        ));
        lemma_assoc_ctx(sub);
        assert(mapped.last() == (s.last().0, ctx_model(s.last().1)));
        assert(ctx_of_map(assoc_map(sub)).insert(s.last().0, ctx_model(s.last().1)) =~= ctx_of_map(
            assoc_map(sub).insert(s.last().0, s.last().1),
        ));
    }
}

/// Builds the render context of a parameter set.
pub fn render_context(params: &ParamSet) -> (r: toml::Value)
    requires
        params.wf(),
    ensures
        toml_view(r) == ValueModel::Table(ctx_of_map(params@)),
        context_definite(ctx_of_map(params@)),
{
    let n = params.len();
    let mut pairs: Vec<(String, toml::Value)> = Vec::new();
    let mut i: usize = 0;
    while i < n
        invariant
            params.wf(),
            n == params.entry_models().len(),
            i <= n,
            pairs@.len() == i,
            forall|j: int|
                0 <= j < i ==> (pairs@[j].0@, toml_view(pairs@[j].1)) == (
                    params.entry_models()[j].0,
                    ctx_model(params.entry_models()[j].1),
                ),
            forall|j: int| 0 <= j < i ==> definite(toml_view(#[trigger] pairs@[j].1)),
        decreases n - i,
    {
        let key = params.key_at(i).clone();
        let cv = to_ctx_value(params.value_at(i));
        pairs.push((key, cv));
        i += 1;
    }
    let r = toml_table(pairs);
    proof {
        assert(pairs@.map_values(|p: (String, toml::Value)| (p.0@, toml_view(p.1)))
            =~= params.entry_models().map_values(
            |e: (Seq<char>, ValueModel)| (e.0, ctx_model(e.1)),
        ));
        lemma_assoc_ctx(params.entry_models());
        assert forall|k: Seq<char>|
            ctx_of_map(params@).contains_key(k) implies definite(ctx_of_map(params@)[k]) by {
            lemma_assoc_in(params.entry_models(), k);
            let i = choose|i: int|
                0 <= i < params.entry_models().len() && params.entry_models()[i] == (
                    k,
                    assoc_map(params.entry_models())[k],
                );
            assert(toml_view(pairs@[i].1) == ctx_model(params.entry_models()[i].1));
            assert(definite(toml_view(pairs@[i].1)));
        };
    }
    r
}

/// Renders a text span against a render context.
///
/// Success yields exactly what the engine produces; failure names the stage
/// and the location handed in.
pub fn render_text(tpl: &str, ctx: &toml::Value, stage: RenderStage, location: &str) -> (r: Result<
    String,
    ScaffoldError,
>)
    requires
        toml_view(*ctx) is Table,
        context_definite(toml_view(*ctx)->Table_0),
    ensures
        match r {
            Ok(s) => rendered(tpl@, toml_view(*ctx)->Table_0) == Some(s@),
            Err(e) => {
                &&& rendered(tpl@, toml_view(*ctx)->Table_0) is None
                &&& e matches ScaffoldError::RenderError { stage: st, location: l, message: _ }
                    && st == stage && l@ == location@
            },
        },
        has_no_char(tpl@, '{') && has_no_char(tpl@, '\\') ==> r is Ok && r->Ok_0@ == tpl@,
{
    match hb_render(tpl, ctx) {
        Ok(s) => Ok(s),
        Err(message) => Err(
            ScaffoldError::RenderError { stage, location: location.to_owned(), message },
        ),
    }
}

/// A path component that passes through unrendered: the empty piece beside
/// a leading or doubled separator, and the current- and parent-directory
/// components.
pub open spec fn special_piece(p: Seq<char>) -> bool {
    p.len() == 0 || p == seq!['.'] || p == seq!['.', '.']
}

/// What rendering one path component yields.
pub open spec fn piece_rendered(p: Seq<char>, bindings: Map<Seq<char>, ValueModel>) -> Option<
    Seq<char>,
> {
    if special_piece(p) {
        Some(p)
    } else {
        rendered(p, bindings)
    }
}

/// What rendering a whole path yields: every `/`-separated component is
/// rendered on its own and the results are rejoined; one refused component
/// refuses the path.
pub open spec fn path_rendered(path: Seq<char>, bindings: Map<Seq<char>, ValueModel>) -> Option<
    Seq<char>,
> {
    let pieces = split_spec(path, '/');
    if forall|i: int| 0 <= i < pieces.len() ==> piece_rendered(#[trigger] pieces[i], bindings) is Some {
        Some(
            join_spec(
                Seq::new(pieces.len(), |i: int| piece_rendered(pieces[i], bindings)->0),
                seq!['/'],
            ),
        )
    } else {
        None
    }
}

/// Whether this component passes through unrendered.
fn is_special_piece(p: &str) -> (r: bool)
    ensures
        r == special_piece(p@),
{
    proof {
        reveal_strlit(".");
        reveal_strlit("..");
    }
    if p.unicode_len() == 0 {
        return true;
    }
    if str_eq(p, ".") {
        proof {
            assert(p@ =~= seq!['.']);
        }
        return true;
    }
    if str_eq(p, "..") {
        proof {
            assert(p@ =~= seq!['.', '.']);
        }
        return true;
    }
    proof {
        assert(("."@) =~= seq!['.']);
        assert((".."@) =~= seq!['.', '.']);
    }
    false
}

/// Renders a destination path, component by component.
///
/// A path none of whose components holds templating syntax — no `{` and no
/// `\` in any `/`-piece — is returned unchanged.
pub fn render_path(path: &str, ctx: &toml::Value, location: &str) -> (r: Result<
    String,
    ScaffoldError,
>)
    requires
        toml_view(*ctx) is Table,
        context_definite(toml_view(*ctx)->Table_0),
    ensures
        match r {
            Ok(s) => path_rendered(path@, toml_view(*ctx)->Table_0) == Some(s@),
            Err(e) => {
                &&& path_rendered(path@, toml_view(*ctx)->Table_0) is None
                &&& e matches ScaffoldError::RenderError { stage: st, location: l, message: _ }
                    && st == RenderStage::Path && l@ == location@
            },
        },
        (forall|i: int|
            0 <= i < split_spec(path@, '/').len() ==> has_no_char(
                #[trigger] split_spec(path@, '/')[i],
                '{',
            ) && has_no_char(split_spec(path@, '/')[i], '\\')) ==> r is Ok && r->Ok_0@ == path@,
{
    let ghost bindings = toml_view(*ctx)->Table_0;
    let pieces = split_str(path, '/');
    let ghost piece_models = split_spec(path@, '/');
    proof {
        assert(pieces@.map_values(|p: String| p@) == piece_models);
        assert(pieces@.len() == piece_models.len());
    }
    let n = pieces.len();
    let mut outs: Vec<String> = Vec::new();
    let mut i: usize = 0;
    while i < n
        invariant
            toml_view(*ctx) is Table,
            bindings == toml_view(*ctx)->Table_0,
            context_definite(bindings),
            n == pieces@.len(),
            pieces@.map_values(|p: String| p@) == piece_models,
            piece_models == split_spec(path@, '/'),
            i <= n,
            outs@.len() == i,
            forall|j: int|
                0 <= j < i ==> piece_rendered(#[trigger] piece_models[j], bindings) == Some(
                    outs@[j]@,
                ),
            forall|j: int|
                0 <= j < i && has_no_char(#[trigger] piece_models[j], '{') && has_no_char(
                    piece_models[j],
                    '\\',
                ) ==> outs@[j]@ == piece_models[j],
        decreases n - i,
    {
        proof {
            assert(piece_models[i as int] == pieces@[i as int]@);
        }
        if is_special_piece(pieces[i].as_str()) {
            outs.push(pieces[i].clone());
        } else {
            match render_text(pieces[i].as_str(), ctx, RenderStage::Path, location) {
                Ok(s) => {
                    outs.push(s);
                },
                Err(e) => {
                    proof {
                        assert(piece_rendered(piece_models[i as int], bindings) is None);
                        assert(!(has_no_char(split_spec(path@, '/')[i as int], '{')
                            && has_no_char(split_spec(path@, '/')[i as int], '\\')));
                    }
                    return Err(e);
                },
            }
        }
        i += 1;
    }
    let out = join_str(&outs, "/");
    proof {
        reveal_strlit("/");
        assert(("/"@) =~= seq!['/']);
        assert(outs@.map_values(|p: String| p@) =~= Seq::new(
            piece_models.len(),
            |i: int| piece_rendered(piece_models[i], bindings)->0,
        ));
        if forall|k: int|
            0 <= k < piece_models.len() ==> has_no_char(#[trigger] piece_models[k], '{')
                && has_no_char(piece_models[k], '\\') {
            assert(outs@.map_values(|p: String| p@) =~= piece_models);
            crate::text::lemma_join_split(path@, '/');
        }
    }
    Ok(out)
}

} // verus!

//! Parameter schemas and the renderer that turns a parameter map into an
//! argument vector.

use vstd::prelude::*;
use crate::keyed::{StrMap, lookup, has_key, put, mapv, lemma_mapv};
use crate::text::{push_char, push_str, views};
use crate::value::SpecValue;

verus! {

/// The shape of value that a schema entry accepts.
#[derive(PartialEq, Eq, Structural, Clone, Copy, Debug)]
pub enum ParameterType {
    Boolean,
    String,
    Array,
    /// A map of `key=value` pairs, rendered behind the entry's prefix.
    Dict,
}

/// One schema entry.
#[derive(Debug)]
pub struct ParameterDefinition {
    pub param_type: ParameterType,
    /// The CLI flag; may be empty where a prefix drives matching.
    pub flag: String,
    pub multiple: Option<bool>,
    pub prefix: Option<String>,
    pub description: Option<String>,
}

/// A provider's catalogue of parameters, by name.
#[derive(Debug)]
pub struct ParameterSchema {
    pub parameters: StrMap<ParameterDefinition>,
}

/// Renderer output: the arguments, without the program name.
#[derive(Debug)]
pub struct RenderedCommand {
    pub args: Vec<String>,
    pub env: Vec<(String, String)>,
}

/// Why rendering failed.
#[derive(Debug)]
pub enum RenderError {
    UnknownParameter(String),
    InvalidType { parameter: String, expected: String },
    InvalidArrayTypeItem { parameter: String, item: String },
    MissingPrefix(String),
    InvalidMapValue { parameter: String, key: String, value: String },
}

/// A render failure as contracts see it: the kind and the parameter name
/// (and, for a bad map value, the inner key).
pub enum RenderFault {
    UnknownParameter(Seq<char>),
    InvalidType(Seq<char>),
    InvalidArrayTypeItem(Seq<char>),
    MissingPrefix(Seq<char>),
    InvalidMapValue(Seq<char>, Seq<char>),
}

impl RenderError {
    pub open spec fn fault(self) -> RenderFault {
        match self {
            RenderError::UnknownParameter(p) => RenderFault::UnknownParameter(p@),
            RenderError::InvalidType { parameter, .. } => RenderFault::InvalidType(parameter@),
            RenderError::InvalidArrayTypeItem { parameter, .. } => RenderFault::InvalidArrayTypeItem(
                parameter@,
            ),
            RenderError::MissingPrefix(p) => RenderFault::MissingPrefix(p@),
            RenderError::InvalidMapValue { parameter, key, .. } => RenderFault::InvalidMapValue(
                parameter@,
                key@,
            ),
        }
    }

    /// A one-line description of the failure.
    pub fn message(&self) -> (r: String)
        ensures
            r@ == match *self {
                RenderError::UnknownParameter(p) => "unknown parameter: "@ + p@,
                RenderError::InvalidType { parameter, expected } => "invalid type for parameter '"@ + parameter@
                    + "': expected '"@ + expected@ + "'"@,
                RenderError::InvalidArrayTypeItem { parameter, item } => "invalid array item for parameter '"@
                    + parameter@ + "': "@ + item@,
                RenderError::MissingPrefix(p) => "missing prefix for map parameter '"@ + p@ + "'"@,
                RenderError::InvalidMapValue { parameter, key, value } => "invalid map value for '"@
                    + parameter@ + "' key '"@ + key@ + "': "@ + value@,
            },
    {
        let mut s = String::new();
        match self {
            RenderError::UnknownParameter(p) => {
                push_str(&mut s, "unknown parameter: ");
                push_str(&mut s, p.as_str());
            },
            RenderError::InvalidType { parameter, expected } => {
                push_str(&mut s, "invalid type for parameter '");
                push_str(&mut s, parameter.as_str());
                push_str(&mut s, "': expected '");
                push_str(&mut s, expected.as_str());
                push_str(&mut s, "'");
            },
            RenderError::InvalidArrayTypeItem { parameter, item } => {
                push_str(&mut s, "invalid array item for parameter '");
                push_str(&mut s, parameter.as_str());
                push_str(&mut s, "': ");
                push_str(&mut s, item.as_str());
            },
            RenderError::MissingPrefix(p) => {
                push_str(&mut s, "missing prefix for map parameter '");
                push_str(&mut s, p.as_str());
                push_str(&mut s, "'");
            },
            RenderError::InvalidMapValue { parameter, key, value } => {
                push_str(&mut s, "invalid map value for '");
                push_str(&mut s, parameter.as_str());
                push_str(&mut s, "' key '");
                push_str(&mut s, key.as_str());
                push_str(&mut s, "': ");
                push_str(&mut s, value.as_str());
            },
        }
        s
    }
}

pub open spec fn true_text() -> Seq<char> {
    seq!['t', 'r', 'u', 'e']
}

pub open spec fn false_text() -> Seq<char> {
    seq!['f', 'a', 'l', 's', 'e']
}

/// The prefix of a map entry; an empty one counts as missing.
pub open spec fn map_prefix(def: ParameterDefinition) -> Option<Seq<char>> {
    match def.prefix {
        Some(p) => if p@.len() > 0 {
            Some(p@)
        } else {
            None
        },
        None => None,
    }
}

/// What rendering and parsing read of a definition: its type, its flag,
/// and its prefix (an empty prefix counts as none).
pub struct DefView {
    pub ty: ParameterType,
    pub flag: Seq<char>,
    pub prefix: Option<Seq<char>>,
}

pub open spec fn def_view(d: ParameterDefinition) -> DefView {
    DefView { ty: d.param_type, flag: d.flag@, prefix: map_prefix(d) }
}

/// A schema's entries as rendering and parsing read them.
pub open spec fn schema_view(s: Seq<(Seq<char>, ParameterDefinition)>) -> Seq<(Seq<char>, DefView)> {
    s.map_values(|e: (Seq<char>, ParameterDefinition)| (e.0, def_view(e.1)))
}

/// Storing a definition commutes with taking the schema's view.
pub proof fn lemma_schema_put(s: Seq<(Seq<char>, ParameterDefinition)>, k: Seq<char>, d: ParameterDefinition)
    ensures
        schema_view(put(s, k, d)) == put(schema_view(s), k, def_view(d)),
{
    let f = |x: ParameterDefinition| def_view(x);
    lemma_mapv(s, k, d, f);
    assert(schema_view(s) =~= mapv(s, f));
    assert(schema_view(put(s, k, d)) =~= mapv(put(s, k, d), f));
}

/// Looking a name up in the schema's view is looking at the view of its
/// definition.
pub proof fn lemma_schema_lookup(s: Seq<(Seq<char>, ParameterDefinition)>, k: Seq<char>)
    ensures
        lookup(schema_view(s), k) == (match lookup(s, k) {
            Some(d) => Some(def_view(d)),
            None => None::<DefView>,
        }),
        has_key(schema_view(s), k) == has_key(s, k),
{
    let f = |d: ParameterDefinition| def_view(d);
    let any = arbitrary::<ParameterDefinition>();
    lemma_mapv(s, k, any, f);
    assert(schema_view(s) =~= mapv(s, f));
}

/// The text of a scalar: a string or a number.
pub open spec fn scalar_text(v: SpecValue) -> Option<Seq<char>> {
    match v {
        SpecValue::String(s) => Some(s@),
        SpecValue::Number(n) => Some(n@),
        _ => None,
    }
}

/// The text of a map value: a string, a number or a boolean.
pub open spec fn map_value_text(v: SpecValue) -> Option<Seq<char>> {
    match v {
        SpecValue::Bool(b) => Some(if b { true_text() } else { false_text() }),
        _ => scalar_text(v),
    }
}

/// `{prefix}{key}={value}`.
pub open spec fn pair_token(prefix: Seq<char>, k: Seq<char>, text: Seq<char>) -> Seq<char> {
    prefix + k + seq!['='] + text
}

/// The arguments of a list: `flag, item` for each item, in order.
pub open spec fn render_items(flag: Seq<char>, name: Seq<char>, items: Seq<SpecValue>) -> Result<
    Seq<Seq<char>>,
    RenderFault,
>
    decreases items.len(),
{
    if items.len() == 0 {
        Ok(Seq::empty())
    } else {
        match render_items(flag, name, items.drop_last()) {
            Err(e) => Err(e),
            Ok(a) => match scalar_text(items.last()) {
                Some(t) => Ok(a + seq![flag, t]),
                None => Err(RenderFault::InvalidArrayTypeItem(name)),
            },
        }
    }
}

/// The arguments of a map: one `{prefix}{key}={value}` token per entry.
pub open spec fn render_pairs(
    prefix: Seq<char>,
    name: Seq<char>,
    m: Seq<(Seq<char>, SpecValue)>,
) -> Result<Seq<Seq<char>>, RenderFault>
    decreases m.len(),
{
    if m.len() == 0 {
        Ok(Seq::empty())
    } else {
        match render_pairs(prefix, name, m.drop_last()) {
            Err(e) => Err(e),
            Ok(a) => match map_value_text(m.last().1) {
                Some(t) => Ok(a.push(pair_token(prefix, m.last().0, t))),
                None => Err(RenderFault::InvalidMapValue(name, m.last().0)),
            },
        }
    }
}

/// The arguments for one parameter `name` with definition `def`.
pub open spec fn render_value(def: DefView, name: Seq<char>, v: SpecValue) -> Result<
    Seq<Seq<char>>,
    RenderFault,
> {
    let flag = def.flag;
    match def.ty {
        ParameterType::Boolean => match v {
            SpecValue::Bool(true) => Ok(seq![flag]),
            SpecValue::Bool(false) => Ok(Seq::empty()),
            SpecValue::Null => Ok(Seq::empty()),
            _ => Err(RenderFault::InvalidType(name)),
        },
        ParameterType::String => match v {
            SpecValue::Null => Ok(Seq::empty()),
            _ => match scalar_text(v) {
                Some(t) => Ok(seq![flag, t]),
                None => Err(RenderFault::InvalidType(name)),
            },
        },
        ParameterType::Array => match v {
            SpecValue::List(items) => render_items(flag, name, items@),
            _ => Err(RenderFault::InvalidType(name)),
        },
        ParameterType::Dict => match def.prefix {
            None => Err(RenderFault::MissingPrefix(name)),
            Some(p) => match v {
                SpecValue::Dict(m) => render_pairs(p, name, m@),
                _ => Err(RenderFault::InvalidType(name)),
            },
        },
    }
}

/// The argument vector for a parameter map, entry by entry in map order;
/// the first failing entry decides the error.
pub open spec fn render_params(
    schema: Seq<(Seq<char>, DefView)>,
    params: Seq<(Seq<char>, SpecValue)>,
) -> Result<Seq<Seq<char>>, RenderFault>
    decreases params.len(),
{
    if params.len() == 0 {
        Ok(Seq::empty())
    } else {
        match render_params(schema, params.drop_last()) {
            Err(e) => Err(e),
            Ok(a) => {
                let (name, v) = params.last();
                match lookup(schema, name) {
                    None => Err(RenderFault::UnknownParameter(name)),
                    Some(def) => match render_value(def, name, v) {
                        Err(e) => Err(e),
                        Ok(b) => Ok(a + b),
                    },
                }
            },
        }
    }
}

/// Rendering is a function of the schema and the parameters: two renders
/// of the same pair give the same arguments.
pub proof fn lemma_render_idempotent(
    schema: Seq<(Seq<char>, DefView)>,
    params: Seq<(Seq<char>, SpecValue)>,
    first: Seq<Seq<char>>,
    second: Seq<Seq<char>>,
)
    requires
        render_params(schema, params) == Ok::<Seq<Seq<char>>, RenderFault>(first),
        render_params(schema, params) == Ok::<Seq<Seq<char>>, RenderFault>(second),
    ensures
        first == second,
{
}

/// Rendering a single parameter is rendering its value.
pub proof fn lemma_render_single(schema: Seq<(Seq<char>, DefView)>, name: Seq<char>, v: SpecValue)
    ensures
        render_params(schema, seq![(name, v)]) == (match lookup(schema, name) {
            None => Err(RenderFault::UnknownParameter(name)),
            Some(d) => render_value(d, name, v),
        }),
{
    let one = seq![(name, v)];
    assert(one.drop_last() =~= Seq::<(Seq<char>, SpecValue)>::empty());
    assert(render_params(schema, Seq::<(Seq<char>, SpecValue)>::empty()) == Ok::<Seq<Seq<char>>, RenderFault>(Seq::empty()));
    assert(one.last() == (name, v));
    if let Some(d) = lookup(schema, name) {
        if let Ok(b) = render_value(d, name, v) {
            assert(Seq::<Seq<char>>::empty() + b =~= b);
        }
    }
}

/// A boolean parameter renders as its flag when true, and as nothing when
/// false or null.
pub proof fn lemma_boolean_omission(schema: Seq<(Seq<char>, DefView)>, name: Seq<char>)
    requires
        lookup(schema, name) matches Some(d) && d.ty == ParameterType::Boolean,
    ensures
        render_params(schema, seq![(name, SpecValue::Bool(false))]) == Ok::<Seq<Seq<char>>, RenderFault>(
            Seq::empty(),
        ),
        render_params(schema, seq![(name, SpecValue::Null)]) == Ok::<Seq<Seq<char>>, RenderFault>(
            Seq::empty(),
        ),
        render_params(schema, seq![(name, SpecValue::Bool(true))]) == Ok::<Seq<Seq<char>>, RenderFault>(
            seq![lookup(schema, name)->0.flag],
        ),
{
    lemma_render_single(schema, name, SpecValue::Bool(false));
    lemma_render_single(schema, name, SpecValue::Null);
    lemma_render_single(schema, name, SpecValue::Bool(true));
}

/// An array parameter repeats its flag before each item.
pub proof fn lemma_array_expansion(schema: Seq<(Seq<char>, DefView)>, name: Seq<char>, items: Vec<SpecValue>, a: String, b: String)
    requires
        lookup(schema, name) matches Some(d) && d.ty == ParameterType::Array,
        items@ == seq![SpecValue::String(a), SpecValue::String(b)],
    ensures
        render_params(schema, seq![(name, SpecValue::List(items))]) == Ok::<Seq<Seq<char>>, RenderFault>(
            seq![lookup(schema, name)->0.flag, a@, lookup(schema, name)->0.flag, b@],
        ),
{
    let f = lookup(schema, name)->0.flag;
    lemma_render_single(schema, name, SpecValue::List(items));
    let s0 = Seq::<SpecValue>::empty();
    let s1 = seq![SpecValue::String(a)];
    let s2 = items@;
    assert(s2.drop_last() =~= s1);
    assert(s1.drop_last() =~= s0);
    assert(render_items(f, name, s0) == Ok::<Seq<Seq<char>>, RenderFault>(Seq::empty()));
    assert(render_items(f, name, s1) == Ok::<Seq<Seq<char>>, RenderFault>(Seq::empty() + seq![f, a@]));
    assert(render_items(f, name, s2) == Ok::<Seq<Seq<char>>, RenderFault>(Seq::empty() + seq![f, a@] + seq![f, b@]));
    assert(Seq::<Seq<char>>::empty() + seq![f, a@] + seq![f, b@] =~= seq![f, a@, f, b@]);
}

/// A map parameter renders each entry as one `{prefix}{key}={value}`
/// token, whatever the flag.
pub proof fn lemma_map_prefixing(
    schema: Seq<(Seq<char>, DefView)>,
    name: Seq<char>,
    m: StrMap<SpecValue>,
    k1: Seq<char>,
    v1: bool,
    k2: Seq<char>,
    v2: String,
)
    requires
        lookup(schema, name) matches Some(d) && d.ty == ParameterType::Dict && d.prefix is Some,
        m@ == seq![(k1, SpecValue::Bool(v1)), (k2, SpecValue::String(v2))],
    ensures
        ({
            let p = lookup(schema, name)->0.prefix->0;
            render_params(schema, seq![(name, SpecValue::Dict(m))]) == Ok::<Seq<Seq<char>>, RenderFault>(
                seq![pair_token(p, k1, if v1 { true_text() } else { false_text() }), pair_token(p, k2, v2@)],
            )
        }),
{
    let p = lookup(schema, name)->0.prefix->0;
    lemma_render_single(schema, name, SpecValue::Dict(m));
    let s0 = Seq::<(Seq<char>, SpecValue)>::empty();
    let s1 = seq![(k1, SpecValue::Bool(v1))];
    let s2 = m@;
    assert(s2.drop_last() =~= s1);
    assert(s1.drop_last() =~= s0);
    let t1 = pair_token(p, k1, if v1 { true_text() } else { false_text() });
    let t2 = pair_token(p, k2, v2@);
    assert(render_pairs(p, name, s0) == Ok::<Seq<Seq<char>>, RenderFault>(Seq::empty()));
    assert(render_pairs(p, name, s1) == Ok::<Seq<Seq<char>>, RenderFault>(Seq::empty().push(t1)));
    assert(render_pairs(p, name, s2) == Ok::<Seq<Seq<char>>, RenderFault>(Seq::empty().push(t1).push(t2)));
    assert(Seq::<Seq<char>>::empty().push(t1).push(t2) =~= seq![t1, t2]);
}

/// A parameter the schema lacks is never dropped: rendering fails, and on
/// its own it fails with `UnknownParameter`.
pub proof fn lemma_unknown_parameter_fails(
    schema: Seq<(Seq<char>, DefView)>,
    params: Seq<(Seq<char>, SpecValue)>,
    name: Seq<char>,
    v: SpecValue,
)
    requires
        !has_key(schema, name),
    ensures
        has_key(params, name) ==> render_params(schema, params) is Err,
        render_params(schema, seq![(name, v)]) == Err::<Seq<Seq<char>>, RenderFault>(
            RenderFault::UnknownParameter(name),
        ),
{
    lemma_render_single(schema, name, v);
    if has_key(params, name) {
        let i = choose|i: int| 0 <= i < params.len() && #[trigger] params[i].0 == name;
        let pre = params.subrange(0, i + 1);
        assert(pre.drop_last() =~= params.subrange(0, i));
        assert(pre.last() == params[i]);
        assert(render_params(schema, pre) is Err);
        lemma_params_err(schema, params, i + 1);
    }
}

/// `"true"` or `"false"`.
fn bool_text(b: bool) -> (r: String)
    ensures
        r@ == (if b { true_text() } else { false_text() }),
{
    proof {
        reveal_strlit("true");
        reveal_strlit("false");
    }
    if b {
        "true".to_owned()
    } else {
        "false".to_owned()
    }
}

/// A short name for the kind of a value, for error messages.
fn value_kind(v: &SpecValue) -> (r: String) {
    match v {
        SpecValue::Null => "null".to_owned(),
        SpecValue::Bool(_) => "boolean".to_owned(),
        SpecValue::Number(_) => "number".to_owned(),
        SpecValue::String(_) => "string".to_owned(),
        SpecValue::List(_) => "list".to_owned(),
        SpecValue::Dict(_) => "map".to_owned(),
    }
}

proof fn lemma_items_err(flag: Seq<char>, name: Seq<char>, s: Seq<SpecValue>, i: int)
    requires
        0 <= i <= s.len(),
        render_items(flag, name, s.subrange(0, i)) is Err,
    ensures
        render_items(flag, name, s) == render_items(flag, name, s.subrange(0, i)),
    decreases s.len(),
{
    if i < s.len() {
        assert(s.drop_last().subrange(0, i) =~= s.subrange(0, i));
        lemma_items_err(flag, name, s.drop_last(), i);
    } else {
        assert(s.subrange(0, i) =~= s);
    }
}

proof fn lemma_pairs_err(prefix: Seq<char>, name: Seq<char>, s: Seq<(Seq<char>, SpecValue)>, i: int)
    requires
        0 <= i <= s.len(),
        render_pairs(prefix, name, s.subrange(0, i)) is Err,
    ensures
        render_pairs(prefix, name, s) == render_pairs(prefix, name, s.subrange(0, i)),
    decreases s.len(),
{
    if i < s.len() {
        assert(s.drop_last().subrange(0, i) =~= s.subrange(0, i));
        lemma_pairs_err(prefix, name, s.drop_last(), i);
    } else {
        assert(s.subrange(0, i) =~= s);
    }
}

proof fn lemma_params_err(
    schema: Seq<(Seq<char>, DefView)>,
    s: Seq<(Seq<char>, SpecValue)>,
    i: int,
)
    requires
        0 <= i <= s.len(),
        render_params(schema, s.subrange(0, i)) is Err,
    ensures
        render_params(schema, s) == render_params(schema, s.subrange(0, i)),
    decreases s.len(),
{
    if i < s.len() {
        assert(s.drop_last().subrange(0, i) =~= s.subrange(0, i));
        lemma_params_err(schema, s.drop_last(), i);
    } else {
        assert(s.subrange(0, i) =~= s);
    }
}

proof fn lemma_texts_append(a: Seq<String>, b: Seq<String>)
    ensures
        views(a + b) == views(a) + views(b),
{
    assert(views(a + b) =~= views(a) + views(b));
}

/// Renders the items of a list parameter.
fn render_list_items(flag: &String, name: &String, items: &Vec<SpecValue>) -> (r: Result<
    Vec<String>,
    RenderError,
>)
    ensures
        match r {
            Ok(out) => render_items(flag@, name@, items@) == Ok::<Seq<Seq<char>>, RenderFault>(
                views(out@),
            ),
            Err(e) => render_items(flag@, name@, items@) == Err::<Seq<Seq<char>>, RenderFault>(
                e.fault(),
            ),
        },
{
    let mut out: Vec<String> = Vec::new();
    assert(views(out@) =~= Seq::<Seq<char>>::empty());
    let mut j: usize = 0;
    while j < items.len()
        invariant
            j <= items@.len(),
            render_items(flag@, name@, items@.subrange(0, j as int)) == Ok::<
                Seq<Seq<char>>,
                RenderFault,
            >(views(out@)),
        decreases items.len() - j,
    {
        let ghost prev = out@;
        assert(items@.subrange(0, j + 1).drop_last() =~= items@.subrange(0, j as int));
        match &items[j] {
            SpecValue::String(s) => {
                out.push(flag.clone());
                out.push(s.clone());
            },
            SpecValue::Number(n) => {
                out.push(flag.clone());
                out.push(n.clone());
            },
            other => {
                proof {
                    lemma_items_err(flag@, name@, items@, j + 1);
                }
                return Err(
                    RenderError::InvalidArrayTypeItem { parameter: name.clone(), item: value_kind(other) },
                );
            },
        }
        assert(views(out@) =~= views(prev) + seq![flag@, scalar_text(items@[j as int])->0]);
        j = j + 1;
    }
    assert(items@.subrange(0, items@.len() as int) =~= items@);
    Ok(out)
}

/// Renders the entries of a map parameter.
fn render_map_pairs(prefix: &String, name: &String, m: &StrMap<SpecValue>) -> (r: Result<
    Vec<String>,
    RenderError,
>)
    ensures
        match r {
            Ok(out) => render_pairs(prefix@, name@, m@) == Ok::<Seq<Seq<char>>, RenderFault>(
                views(out@),
            ),
            Err(e) => render_pairs(prefix@, name@, m@) == Err::<Seq<Seq<char>>, RenderFault>(
                e.fault(),
            ),
        },
{
    let mut out: Vec<String> = Vec::new();
    assert(views(out@) =~= Seq::<Seq<char>>::empty());
    let mut j: usize = 0;
    while j < m.len()
        invariant
            j <= m@.len(),
            render_pairs(prefix@, name@, m@.subrange(0, j as int)) == Ok::<
                Seq<Seq<char>>,
                RenderFault,
            >(views(out@)),
        decreases m@.len() - j,
    {
        let ghost prev = out@;
        assert(m@.subrange(0, j + 1).drop_last() =~= m@.subrange(0, j as int));
        let k = m.key_at(j);
        let v = m.value_at(j);
        let text = match v {
            SpecValue::String(s) => s.clone(),
            SpecValue::Number(n) => n.clone(),
            SpecValue::Bool(b) => bool_text(*b),
            other => {
                proof {
                    lemma_pairs_err(prefix@, name@, m@, j + 1);
                }
                return Err(
                    RenderError::InvalidMapValue {
                        parameter: name.clone(),
                        key: k.clone(),
                        value: value_kind(other),
                    },
                );
            },
        };
        let mut token = prefix.clone();
        push_str(&mut token, k.as_str());
        push_char(&mut token, '=');
        push_str(&mut token, text.as_str());
        assert(text@ == map_value_text(m@[j as int].1)->0);
        assert(token@ =~= pair_token(prefix@, k@, text@));
        out.push(token);
        assert(views(out@) =~= views(prev).push(
            pair_token(prefix@, m@[j as int].0, map_value_text(m@[j as int].1)->0),
        ));
        j = j + 1;
    }
    assert(m@.subrange(0, m@.len() as int) =~= m@);
    Ok(out)
}

/// Renders one parameter.
fn render_one(def: &ParameterDefinition, name: &String, value: &SpecValue) -> (r: Result<
    Vec<String>,
    RenderError,
>)
    ensures
        match r {
            Ok(out) => render_value(def_view(*def), name@, *value) == Ok::<Seq<Seq<char>>, RenderFault>(
                views(out@),
            ),
            Err(e) => render_value(def_view(*def), name@, *value) == Err::<Seq<Seq<char>>, RenderFault>(
                e.fault(),
            ),
        },
{
    let mut out: Vec<String> = Vec::new();
    match def.param_type {
        ParameterType::Boolean => match value {
            SpecValue::Bool(true) => {
                out.push(def.flag.clone());
                assert(views(out@) =~= seq![def.flag@]);
            },
            SpecValue::Bool(false) => {
                assert(views(out@) =~= Seq::<Seq<char>>::empty());
            },
            SpecValue::Null => {
                assert(views(out@) =~= Seq::<Seq<char>>::empty());
            },
            _ => {
                return Err(
                    RenderError::InvalidType { parameter: name.clone(), expected: "boolean".to_owned() },
                );
            },
        },
        ParameterType::String => match value {
            SpecValue::String(s) => {
                out.push(def.flag.clone());
                out.push(s.clone());
                assert(views(out@) =~= seq![def.flag@, s@]);
            },
            SpecValue::Number(n) => {
                out.push(def.flag.clone());
                out.push(n.clone());
                assert(views(out@) =~= seq![def.flag@, n@]);
            },
            SpecValue::Null => {
                assert(views(out@) =~= Seq::<Seq<char>>::empty());
            },
            _ => {
                return Err(
                    RenderError::InvalidType {
                        parameter: name.clone(),
                        expected: "string or number".to_owned(),
                    },
                );
            },
        },
        ParameterType::Array => match value {
            SpecValue::List(items) => {
                return render_list_items(&def.flag, name, items);
            },
            _ => {
                return Err(
                    RenderError::InvalidType { parameter: name.clone(), expected: "array".to_owned() },
                );
            },
        },
        ParameterType::Dict => {
            let prefix = match &def.prefix {
                Some(p) => {
                    if p.as_str().unicode_len() == 0 {
                        return Err(RenderError::MissingPrefix(name.clone()));
                    }
                    p
                },
                None => {
                    return Err(RenderError::MissingPrefix(name.clone()));
                },
            };
            match value {
                SpecValue::Dict(m) => {
                    return render_map_pairs(prefix, name, m);
                },
                _ => {
                    return Err(
                        RenderError::InvalidType { parameter: name.clone(), expected: "map".to_owned() },
                    );
                },
            }
        },
    }
    Ok(out)
}

/// Renders parameter maps against one schema.
#[derive(Debug)]
pub struct ParameterRenderer {
    schema: ParameterSchema,
}

impl ParameterRenderer {
    /// The schema's entries.
    pub closed spec fn schema_entries(&self) -> Seq<(Seq<char>, DefView)> {
        schema_view(self.schema.parameters@)
    }

    pub fn new(schema: ParameterSchema) -> (r: Self)
        ensures
            r.schema_entries() == schema_view(schema.parameters@),
    {
        ParameterRenderer { schema }
    }

    /// Renders `params`, entry by entry in map order: a key the schema lacks
    /// is `UnknownParameter`; each value is checked against its entry's type.
    pub fn render(&self, params: &StrMap<SpecValue>) -> (r: Result<RenderedCommand, RenderError>)
        ensures
            match r {
                Ok(c) => render_params(self.schema_entries(), params@) == Ok::<
                    Seq<Seq<char>>,
                    RenderFault,
                >(views(c.args@)) && c.env@.len() == 0,
                Err(e) => render_params(self.schema_entries(), params@) == Err::<
                    Seq<Seq<char>>,
                    RenderFault,
                >(e.fault()),
            },
    {
        let mut args: Vec<String> = Vec::new();
        assert(views(args@) =~= Seq::<Seq<char>>::empty());
        let mut i: usize = 0;
        while i < params.len()
            invariant
                i <= params@.len(),
                render_params(self.schema_entries(), params@.subrange(0, i as int)) == Ok::<
                    Seq<Seq<char>>,
                    RenderFault,
                >(views(args@)),
            decreases params@.len() - i,
        {
            assert(params@.subrange(0, i + 1).drop_last() =~= params@.subrange(0, i as int));
            let name = params.key_at(i);
            let value = params.value_at(i);
            proof {
                lemma_schema_lookup(self.schema.parameters@, name@);
            }
            let def = match self.schema.parameters.get(name.as_str()) {
                Some(d) => d,
                None => {
                    proof {
                        lemma_params_err(self.schema_entries(), params@, i + 1);
                    }
                    return Err(RenderError::UnknownParameter(name.clone()));
                },
            };
            let mut piece = match render_one(def, name, value) {
                Ok(p) => p,
                Err(e) => {
                    proof {
                        lemma_params_err(self.schema_entries(), params@, i + 1);
                    }
                    return Err(e);
                },
            };
            let ghost before = args@;
            let ghost added = piece@;
            args.append(&mut piece);
            proof {
                lemma_texts_append(before, added);
            }
            i = i + 1;
        }
        assert(params@.subrange(0, params@.len() as int) =~= params@);
        Ok(RenderedCommand { args, env: Vec::new() })
    }
}

} // verus!

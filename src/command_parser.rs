//! Turns a shell-like command line back into a publish specification,
//! using a provider's schema and its table of flag spellings.

use vstd::prelude::*;
use crate::keyed::{StrMap, lookup, put, mapv, lemma_mapv, lemma_put_put};
use crate::parameter::{ParameterSchema, ParameterDefinition, ParameterType, DefView, def_view, schema_view, lemma_schema_lookup};
use vstd::string::StrSliceExecFns;
use crate::text::{
    views, opt_view,
    push_char, same_text, to_chars, string_of, has_prefix_at, find_char, trim_bounds, trim,
    split_first,
};
use crate::value::{
    SpecValue, PublishSpec, Val, Leaf, SPEC_VERSION, params_model, val_of, leaf_of,
    leaf_entries,
};

verus! {

/// Why a command could not be parsed.
#[derive(Debug)]
pub enum ParseError {
    UnknownCommand(String),
    InvalidFlag(String),
    MissingValue(String),
    ProviderNotFound(String),
}

// ----- tokens -----

/// One character of tokenizing: the tokens so far, the token being built,
/// and whether a double quote is open.
pub open spec fn tok_step(st: (Seq<Seq<char>>, Seq<char>, bool), c: char) -> (
    Seq<Seq<char>>,
    Seq<char>,
    bool,
) {
    let (toks, cur, quoted) = st;
    if c == '"' {
        (toks, cur, !quoted)
    } else if (c == ' ' || c == '\t') && !quoted {
        if cur.len() > 0 {
            (toks.push(cur), Seq::empty(), quoted)
        } else {
            st
        }
    } else {
        (toks, cur.push(c), quoted)
    }
}

pub open spec fn tok_run(cs: Seq<char>) -> (Seq<Seq<char>>, Seq<char>, bool)
    decreases cs.len(),
{
    if cs.len() == 0 {
        (Seq::empty(), Seq::empty(), false)
    } else {
        tok_step(tok_run(cs.drop_last()), cs.last())
    }
}

/// The tokens of a command line: split on unquoted spaces and tabs, quote
/// characters dropped, empty tokens skipped.
pub open spec fn tokens_of(cs: Seq<char>) -> Seq<Seq<char>> {
    let (toks, cur, _) = tok_run(cs);
    if cur.len() > 0 {
        toks.push(cur)
    } else {
        toks
    }
}

/// Splits a command line into words; a double quote toggles a mode in which
/// white space is kept, and is itself dropped.
pub fn tokenize(command: &str) -> (r: Vec<String>)
    ensures
        views(r@) == tokens_of(command@),
{
    let cs = to_chars(command);
    let mut tokens: Vec<String> = Vec::new();
    let mut current = String::new();
    let mut quoted = false;
    let mut i: usize = 0;
    while i < cs.len()
        invariant
            i <= cs@.len(),
            cs@ == command@,
            tok_run(cs@.subrange(0, i as int)) == (views(tokens@), current@, quoted),
        decreases cs.len() - i,
    {
        let c = cs[i];
        assert(cs@.subrange(0, i + 1).drop_last() =~= cs@.subrange(0, i as int));
        let ghost before = tokens@;
        if c == '"' {
            quoted = !quoted;
        } else if (c == ' ' || c == '\t') && !quoted {
            if current.as_str().unicode_len() > 0 {
                let ghost cur = current@;
                tokens.push(current);
                current = String::new();
                assert(views(tokens@) =~= views(before).push(cur));
            }
        } else {
            push_char(&mut current, c);
        }
        i = i + 1;
    }
    assert(cs@.subrange(0, cs@.len() as int) =~= cs@);
    if current.as_str().unicode_len() > 0 {
        let ghost before = tokens@;
        let ghost cur = current@;
        tokens.push(current);
        assert(views(tokens@) =~= views(before).push(cur));
    }
    tokens
}

// ----- flag tables -----

/// dotnet's flag spellings.
pub open spec fn dotnet_key(f: Seq<char>) -> Option<Seq<char>> {
    if f == "-c"@ || f == "--configuration"@ {
        Some("configuration"@)
    } else if f == "-r"@ || f == "--runtime"@ {
        Some("runtime"@)
    } else if f == "-f"@ || f == "--framework"@ {
        Some("framework"@)
    } else if f == "-o"@ || f == "--output"@ {
        Some("output"@)
    } else if f == "--self-contained"@ {
        Some("self_contained"@)
    } else if f == "--no-build"@ {
        Some("no_build"@)
    } else if f == "--no-restore"@ {
        Some("no_restore"@)
    } else if f == "--verbosity"@ {
        Some("verbosity"@)
    } else if f == "--no-logo"@ {
        Some("no_logo"@)
    } else if f == "-d"@ || f == "--define"@ {
        Some("define"@)
    } else {
        None
    }
}

/// cargo's flag spellings.
pub open spec fn cargo_key(f: Seq<char>) -> Option<Seq<char>> {
    if f == "--release"@ {
        Some("release"@)
    } else if f == "--target"@ {
        Some("target"@)
    } else if f == "--features"@ {
        Some("features"@)
    } else if f == "--all-features"@ {
        Some("all_features"@)
    } else if f == "--no-default-features"@ {
        Some("no_default_features"@)
    } else if f == "--target-dir"@ {
        Some("target_dir"@)
    } else if f == "--message-format"@ {
        Some("message_format"@)
    } else if f == "--verbose"@ || f == "-v"@ {
        Some("verbose"@)
    } else if f == "--quiet"@ {
        Some("quiet"@)
    } else {
        None
    }
}

/// go's flag spellings.
pub open spec fn go_key(f: Seq<char>) -> Option<Seq<char>> {
    if f == "-o"@ {
        Some("output"@)
    } else if f == "-tags"@ {
        Some("tags"@)
    } else if f == "-race"@ {
        Some("race"@)
    } else if f == "-v"@ {
        Some("v"@)
    } else if f == "-work"@ {
        Some("work"@)
    } else if f == "-trimpath"@ {
        Some("trimpath"@)
    } else {
        None
    }
}

/// Gradle's flag spellings.
pub open spec fn java_key(f: Seq<char>) -> Option<Seq<char>> {
    if f == "-D"@ {
        Some("properties"@)
    } else if f == "--offline"@ {
        Some("offline"@)
    } else if f == "--quiet"@ {
        Some("quiet"@)
    } else if f == "--info"@ {
        Some("info"@)
    } else if f == "--debug"@ {
        Some("debug"@)
    } else if f == "--stacktrace"@ {
        Some("stacktrace"@)
    } else if f == "--rerun-tasks"@ {
        Some("rerun_tasks"@)
    } else if f == "--exclude-task"@ {
        Some("exclude_task"@)
    } else {
        None
    }
}

/// The parameter that flag `f` names for provider `provider`.
pub open spec fn flag_key(provider: Seq<char>, f: Seq<char>) -> Option<Seq<char>> {
    if provider == "dotnet"@ {
        dotnet_key(f)
    } else if provider == "cargo"@ {
        cargo_key(f)
    } else if provider == "go"@ {
        go_key(f)
    } else if provider == "java"@ {
        java_key(f)
    } else {
        None
    }
}

/// Maps a dotnet CLI flag to its parameter key.
pub fn map_dotnet_flag(flag: &str) -> (r: Option<String>)
    ensures
        opt_view(r) == dotnet_key(flag@),
{
    if same_text(flag, "-c") || same_text(flag, "--configuration") {
        Some("configuration".to_owned())
    } else if same_text(flag, "-r") || same_text(flag, "--runtime") {
        Some("runtime".to_owned())
    } else if same_text(flag, "-f") || same_text(flag, "--framework") {
        Some("framework".to_owned())
    } else if same_text(flag, "-o") || same_text(flag, "--output") {
        Some("output".to_owned())
    } else if same_text(flag, "--self-contained") {
        Some("self_contained".to_owned())
    } else if same_text(flag, "--no-build") {
        Some("no_build".to_owned())
    } else if same_text(flag, "--no-restore") {
        Some("no_restore".to_owned())
    } else if same_text(flag, "--verbosity") {
        Some("verbosity".to_owned())
    } else if same_text(flag, "--no-logo") {
        Some("no_logo".to_owned())
    } else if same_text(flag, "-d") || same_text(flag, "--define") {
        Some("define".to_owned())
    } else {
        None
    }
}

/// Maps a cargo CLI flag to its parameter key.
pub fn map_cargo_flag(flag: &str) -> (r: Option<String>)
    ensures
        opt_view(r) == cargo_key(flag@),
{
    if same_text(flag, "--release") {
        Some("release".to_owned())
    } else if same_text(flag, "--target") {
        Some("target".to_owned())
    } else if same_text(flag, "--features") {
        Some("features".to_owned())
    } else if same_text(flag, "--all-features") {
        Some("all_features".to_owned())
    } else if same_text(flag, "--no-default-features") {
        Some("no_default_features".to_owned())
    } else if same_text(flag, "--target-dir") {
        Some("target_dir".to_owned())
    } else if same_text(flag, "--message-format") {
        Some("message_format".to_owned())
    } else if same_text(flag, "--verbose") || same_text(flag, "-v") {
        Some("verbose".to_owned())
    } else if same_text(flag, "--quiet") {
        Some("quiet".to_owned())
    } else {
        None
    }
}

/// Maps a go CLI flag to its parameter key.
pub fn map_go_flag(flag: &str) -> (r: Option<String>)
    ensures
        opt_view(r) == go_key(flag@),
{
    if same_text(flag, "-o") {
        Some("output".to_owned())
    } else if same_text(flag, "-tags") {
        Some("tags".to_owned())
    } else if same_text(flag, "-race") {
        Some("race".to_owned())
    } else if same_text(flag, "-v") {
        Some("v".to_owned())
    } else if same_text(flag, "-work") {
        Some("work".to_owned())
    } else if same_text(flag, "-trimpath") {
        Some("trimpath".to_owned())
    } else {
        None
    }
}

/// Maps a Gradle CLI flag to its parameter key.
pub fn map_java_flag(flag: &str) -> (r: Option<String>)
    ensures
        opt_view(r) == java_key(flag@),
{
    if same_text(flag, "-D") {
        Some("properties".to_owned())
    } else if same_text(flag, "--offline") {
        Some("offline".to_owned())
    } else if same_text(flag, "--quiet") {
        Some("quiet".to_owned())
    } else if same_text(flag, "--info") {
        Some("info".to_owned())
    } else if same_text(flag, "--debug") {
        Some("debug".to_owned())
    } else if same_text(flag, "--stacktrace") {
        Some("stacktrace".to_owned())
    } else if same_text(flag, "--rerun-tasks") {
        Some("rerun_tasks".to_owned())
    } else if same_text(flag, "--exclude-task") {
        Some("exclude_task".to_owned())
    } else {
        None
    }
}

// ----- matching tokens against the schema -----

pub open spec fn starts_dash(t: Seq<char>) -> bool {
    t.len() > 0 && t[0] == '-'
}

/// `key=value`, split at the first `=`; the key may not be empty.
pub open spec fn assignment(raw: Seq<char>) -> Option<(Seq<char>, Seq<char>)> {
    match split_first(raw, '=') {
        Some((k, v)) => if k.len() > 0 {
            Some((k, v))
        } else {
            None
        },
        None => None,
    }
}

/// What follows prefix `p` in `t`, where `t` is longer and starts with `p`.
pub open spec fn prefix_rest(p: Seq<char>, t: Seq<char>) -> Option<Seq<char>> {
    if p.len() < t.len() && t.subrange(0, p.len() as int) == p {
        Some(t.subrange(p.len() as int, t.len() as int))
    } else {
        None
    }
}

/// Token `t` read against map entry `name`: its prefix, then `key=value`.
pub open spec fn map_token_hit(name: Seq<char>, def: DefView, t: Seq<char>) -> Option<
    (Seq<char>, Seq<char>, Seq<char>),
> {
    if def.ty == ParameterType::Dict {
        match def.prefix {
            Some(p) => match prefix_rest(p, t) {
                Some(rest) => match assignment(rest) {
                    Some((k, v)) => Some((name, k, v)),
                    None => None,
                },
                None => None,
            },
            None => None,
        }
    } else {
        None
    }
}

/// The first map entry of the schema that token `t` matches.
pub open spec fn map_token_match(schema: Seq<(Seq<char>, DefView)>, t: Seq<char>) -> Option<
    (Seq<char>, Seq<char>, Seq<char>),
>
    decreases schema.len(),
{
    if schema.len() == 0 {
        None
    } else {
        match map_token_hit(schema[0].0, schema[0].1, t) {
            Some(x) => Some(x),
            None => map_token_match(schema.drop_first(), t),
        }
    }
}

/// Token `t` read against a flagless, prefixed string entry `name`.
pub open spec fn string_token_hit(name: Seq<char>, def: DefView, t: Seq<char>) -> Option<
    (Seq<char>, Seq<char>),
> {
    if def.ty == ParameterType::String && def.flag.len() == 0 {
        match def.prefix {
            Some(p) => match prefix_rest(p, t) {
                Some(rest) => Some((name, rest)),
                None => None,
            },
            None => None,
        }
    } else {
        None
    }
}

/// The first flagless, prefixed string entry of the schema that `t` matches.
pub open spec fn string_token_match(schema: Seq<(Seq<char>, DefView)>, t: Seq<char>) -> Option<
    (Seq<char>, Seq<char>),
>
    decreases schema.len(),
{
    if schema.len() == 0 {
        None
    } else {
        match string_token_hit(schema[0].0, schema[0].1, t) {
            Some(x) => Some(x),
            None => string_token_match(schema.drop_first(), t),
        }
    }
}

/// Folds `ek = ev` into the map parameter `pk` (a fresh map where `pk`
/// holds no map yet).
pub open spec fn add_entry(acc: Seq<(Seq<char>, Val)>, pk: Seq<char>, ek: Seq<char>, ev: Seq<char>) -> Seq<
    (Seq<char>, Val),
> {
    match lookup(acc, pk) {
        Some(Val::Dict(m)) => put(acc, pk, Val::Dict(put(m, ek, Leaf::Text(ev)))),
        _ => put(acc, pk, Val::Dict(seq![(ek, Leaf::Text(ev))])),
    }
}

pub open spec fn comma_run(cs: Seq<char>) -> (Seq<Seq<char>>, Seq<char>)
    decreases cs.len(),
{
    if cs.len() == 0 {
        (Seq::empty(), Seq::empty())
    } else {
        let (ps, cur) = comma_run(cs.drop_last());
        if cs.last() == ',' {
            (ps.push(cur), Seq::empty())
        } else {
            (ps, cur.push(cs.last()))
        }
    }
}

/// The pieces of `cs` between commas (one piece when there is none).
pub open spec fn comma_pieces(cs: Seq<char>) -> Seq<Seq<char>> {
    let (ps, cur) = comma_run(cs);
    ps.push(cur)
}

/// A flag's list value: its comma-separated pieces, trimmed.
pub open spec fn list_items(v: Seq<char>) -> Seq<Leaf> {
    comma_pieces(v).map_values(|p: Seq<char>| Leaf::Text(trim(p)))
}

/// The items a list parameter already holds (none when it holds no list):
/// a repeated list flag adds its items to them.
pub open spec fn held_list(acc: Seq<(Seq<char>, Val)>, pk: Seq<char>) -> Seq<Leaf> {
    match lookup(acc, pk) {
        Some(Val::List(xs)) => xs,
        _ => Seq::empty(),
    }
}

/// The parameters after flag parameter `pk`, of type `ty`, is read with
/// `value`.
pub open spec fn apply_flag(
    acc: Seq<(Seq<char>, Val)>,
    pk: Seq<char>,
    ty: ParameterType,
    value: Option<Seq<char>>,
) -> Seq<(Seq<char>, Val)> {
    match ty {
        ParameterType::Boolean => match value {
            None => put(acc, pk, Val::Bool(true)),
            Some(_) => acc,
        },
        ParameterType::String => match value {
            Some(v) => put(acc, pk, Val::Text(v)),
            None => put(acc, pk, Val::Text(Seq::empty())),
        },
        ParameterType::Array => match value {
            Some(v) => put(acc, pk, Val::List(held_list(acc, pk) + list_items(v))),
            None => acc,
        },
        ParameterType::Dict => match value {
            Some(v) => match assignment(v) {
                Some((ek, ev)) => add_entry(acc, pk, ek, ev),
                None => acc,
            },
            None => acc,
        },
    }
}

/// The flag at token `i`, its value, and how many tokens they take:
/// `flag=value`; or `flag value` when the next token is no flag; or a bare
/// flag.
pub open spec fn flag_value(toks: Seq<Seq<char>>, i: int) -> (Seq<char>, Option<Seq<char>>, int) {
    let t = toks[i];
    match split_first(t, '=') {
        Some((f, v)) => (f, Some(v), 1),
        None => if i + 1 < toks.len() && !starts_dash(toks[i + 1]) {
            (t, Some(toks[i + 1]), 2)
        } else {
            (t, None, 1)
        },
    }
}

/// The parameters read from tokens `i..`, starting from `acc`.
pub open spec fn parse_from(
    provider: Seq<char>,
    schema: Seq<(Seq<char>, DefView)>,
    toks: Seq<Seq<char>>,
    i: int,
    acc: Seq<(Seq<char>, Val)>,
) -> Seq<(Seq<char>, Val)>
    decreases toks.len() - i,
{
    if i < 0 || i >= toks.len() {
        acc
    } else {
        let t = toks[i];
        match map_token_match(schema, t) {
            Some((pk, ek, ev)) => parse_from(provider, schema, toks, i + 1, add_entry(acc, pk, ek, ev)),
            None => match string_token_match(schema, t) {
                Some((pk, v)) => parse_from(provider, schema, toks, i + 1, put(acc, pk, Val::Text(v))),
                None => if starts_dash(t) {
                    let (f, value, step) = flag_value(toks, i);
                    let next = match flag_key(provider, f) {
                        Some(pk) => match lookup(schema, pk) {
                            Some(def) => apply_flag(acc, pk, def.ty, value),
                            None => acc,
                        },
                        None => acc,
                    };
                    parse_from(provider, schema, toks, i + step, next)
                } else {
                    parse_from(provider, schema, toks, i + 1, acc)
                },
            },
        }
    }
}

/// The parameters of a tokenized command line.
pub open spec fn parse_params(
    provider: Seq<char>,
    schema: Seq<(Seq<char>, DefView)>,
    toks: Seq<Seq<char>>,
) -> Seq<(Seq<char>, Val)> {
    parse_from(provider, schema, toks, 0, Seq::empty())
}

// ----- executable parts -----

pub proof fn lemma_params_put(s: Seq<(Seq<char>, SpecValue)>, k: Seq<char>, v: SpecValue)
    ensures
        params_model(put(s, k, v)) == put(params_model(s), k, val_of(v)),
        lookup(params_model(s), k) == (match lookup(s, k) {
            Some(x) => Some(val_of(x)),
            None => None::<Val>,
        }),
{
    let f = |x: SpecValue| val_of(x);
    lemma_mapv(s, k, v, f);
    assert(params_model(s) =~= mapv(s, f));
    assert(params_model(put(s, k, v)) =~= mapv(put(s, k, v), f));
}

pub proof fn lemma_leaves_put(s: Seq<(Seq<char>, SpecValue)>, k: Seq<char>, v: SpecValue)
    ensures
        leaf_entries(put(s, k, v)) == put(leaf_entries(s), k, leaf_of(v)),
{
    let f = |x: SpecValue| leaf_of(x);
    lemma_mapv(s, k, v, f);
    assert(leaf_entries(s) =~= mapv(s, f));
    assert(leaf_entries(put(s, k, v)) =~= mapv(put(s, k, v), f));
}

/// Folds `ek = ev` into the map parameter `pk`.
fn insert_map_entry(params: &mut StrMap<SpecValue>, pk: String, ek: String, ev: String)
    ensures
        params_model(final(params)@) == add_entry(params_model(old(params)@), pk@, ek@, ev@),
{
    let ghost s0 = params@;
    proof {
        lemma_params_put(s0, pk@, SpecValue::Null);
    }
    match params.swap_value(pk.as_str(), SpecValue::Null) {
        Some(SpecValue::Dict(m)) => {
            let mut m = m;
            let ghost m0 = m@;
            let ghost evs = SpecValue::String(ev);
            m.insert(ek, SpecValue::String(ev));
            proof {
                lemma_leaves_put(m0, ek@, evs);
            }
            let ghost nv = SpecValue::Dict(m);
            params.insert(pk, SpecValue::Dict(m));
            proof {
                lemma_put_put(s0, pk@, SpecValue::Null, nv);
                lemma_params_put(s0, pk@, nv);
            }
        },
        Some(_) => {
            let mut m = StrMap::new();
            let ghost evs = SpecValue::String(ev);
            m.insert(ek, SpecValue::String(ev));
            proof {
                lemma_leaves_put(Seq::empty(), ek@, evs);
                assert(leaf_entries(Seq::<(Seq<char>, SpecValue)>::empty()) =~= Seq::<(Seq<char>, Leaf)>::empty());
                assert(put(Seq::<(Seq<char>, Leaf)>::empty(), ek@, Leaf::Text(ev@)) =~= seq![(ek@, Leaf::Text(ev@))]);
            }
            let ghost nv = SpecValue::Dict(m);
            params.insert(pk, SpecValue::Dict(m));
            proof {
                lemma_put_put(s0, pk@, SpecValue::Null, nv);
                lemma_params_put(s0, pk@, nv);
            }
        },
        None => {
            let mut m = StrMap::new();
            let ghost evs = SpecValue::String(ev);
            m.insert(ek, SpecValue::String(ev));
            proof {
                lemma_leaves_put(Seq::empty(), ek@, evs);
                assert(leaf_entries(Seq::<(Seq<char>, SpecValue)>::empty()) =~= Seq::<(Seq<char>, Leaf)>::empty());
                assert(put(Seq::<(Seq<char>, Leaf)>::empty(), ek@, Leaf::Text(ev@)) =~= seq![(ek@, Leaf::Text(ev@))]);
            }
            let ghost nv = SpecValue::Dict(m);
            params.insert(pk, SpecValue::Dict(m));
            proof {
                lemma_params_put(s0, pk@, nv);
            }
        },
    }
}

/// The views of an optional triple of strings.
pub open spec fn opt_text3(o: Option<(String, String, String)>) -> Option<(Seq<char>, Seq<char>, Seq<char>)> {
    match o {
        Some((a, b, c)) => Some((a@, b@, c@)),
        None => None,
    }
}

/// The views of an optional pair of strings.
pub open spec fn opt_text2(o: Option<(String, String)>) -> Option<(Seq<char>, Seq<char>)> {
    match o {
        Some((a, b)) => Some((a@, b@)),
        None => None,
    }
}

/// The characters of `t` after prefix `p`, if `t` is longer and starts
/// with it; `p` must not be empty.
fn rest_after(p: &String, t: &Vec<char>) -> (r: Option<usize>)
    ensures
        match r {
            Some(n) => n == p@.len() && p@.len() > 0 && prefix_rest(p@, t@) == Some(
                t@.subrange(n as int, t@.len() as int),
            ),
            None => p@.len() == 0 || prefix_rest(p@, t@) is None,
        },
{
    let pc = to_chars(p.as_str());
    if pc.len() > 0 && pc.len() < t.len() && has_prefix_at(t.as_slice(), 0, pc.as_slice()) {
        assert(t@.subrange(0, pc@.len() as int) == p@);
        Some(pc.len())
    } else {
        proof {
            if pc@.len() > 0 && pc@.len() < t@.len() {
                assert(t@.subrange(0, 0 + pc@.len() as int) =~= t@.subrange(0, pc@.len() as int));
            }
        }
        None
    }
}

/// The first map entry of `schema` that token `t` matches, with the
/// entry's key and value.
fn match_map_token(schema: &StrMap<ParameterDefinition>, t: &Vec<char>) -> (r: Option<
    (String, String, String),
>)
    ensures
        opt_text3(r) == map_token_match(schema_view(schema@), t@),
{
    let ghost sv = schema_view(schema@);
    let n = schema.len();
    assert(sv.subrange(0, n as int) =~= sv);
    let mut j: usize = 0;
    while j < n
        invariant
            n == schema@.len(),
            sv == schema_view(schema@),
            j <= n,
            map_token_match(sv, t@) == map_token_match(sv.subrange(j as int, n as int), t@),
        decreases n - j,
    {
        let ghost rest = sv.subrange(j as int, n as int);
        assert(rest[0] == (schema@[j as int].0, def_view(schema@[j as int].1)));
        assert(rest.drop_first() =~= sv.subrange(j + 1, n as int));
        let name = schema.key_at(j);
        let def = schema.value_at(j);
        if def.param_type == ParameterType::Dict {
            match &def.prefix {
                Some(p) => {
                    match rest_after(p, t) {
                        Some(start) => {
                            match find_char(t.as_slice(), start, t.len(), '=') {
                                Some(e) => {
                                    if e > start {
                                        return Some(
                                            (name.clone(), string_of(t.as_slice(), start, e), string_of(t.as_slice(), e + 1, t.len())),
                                        );
                                    }
                                },
                                None => {},
                            }
                        },
                        None => {},
                    }
                },
                None => {},
            }
        }
        j = j + 1;
    }
    assert(sv.subrange(n as int, n as int).len() == 0);
    None
}

/// The first flagless, prefixed string entry of `schema` that `t` matches,
/// with what follows the prefix.
fn match_string_token(schema: &StrMap<ParameterDefinition>, t: &Vec<char>) -> (r: Option<(String, String)>)
    ensures
        opt_text2(r) == string_token_match(schema_view(schema@), t@),
{
    let ghost sv = schema_view(schema@);
    let n = schema.len();
    assert(sv.subrange(0, n as int) =~= sv);
    let mut j: usize = 0;
    while j < n
        invariant
            n == schema@.len(),
            sv == schema_view(schema@),
            j <= n,
            string_token_match(sv, t@) == string_token_match(sv.subrange(j as int, n as int), t@),
        decreases n - j,
    {
        let ghost rest = sv.subrange(j as int, n as int);
        assert(rest[0] == (schema@[j as int].0, def_view(schema@[j as int].1)));
        assert(rest.drop_first() =~= sv.subrange(j + 1, n as int));
        let name = schema.key_at(j);
        let def = schema.value_at(j);
        if def.param_type == ParameterType::String && def.flag.as_str().unicode_len() == 0 {
            match &def.prefix {
                Some(p) => {
                    match rest_after(p, t) {
                        Some(start) => {
                            return Some((name.clone(), string_of(t.as_slice(), start, t.len())));
                        },
                        None => {},
                    }
                },
                None => {},
            }
        }
        j = j + 1;
    }
    assert(sv.subrange(n as int, n as int).len() == 0);
    None
}

/// A flag's list value: comma-separated, each piece trimmed.
fn split_list(v: &String) -> (r: Vec<SpecValue>)
    ensures
        crate::value::leaves_of(r@) == list_items(v@),
{
    let cs = to_chars(v.as_str());
    let n = cs.len();
    let mut items: Vec<SpecValue> = Vec::new();
    let ghost mut ps: Seq<Seq<char>> = Seq::empty();
    let mut start: usize = 0;
    let mut i: usize = 0;
    while i < n
        invariant
            n == cs@.len(),
            cs@ == v@,
            start <= i <= n,
            comma_run(cs@.subrange(0, i as int)) == (ps, cs@.subrange(start as int, i as int)),
            crate::value::leaves_of(items@) == ps.map_values(|p: Seq<char>| Leaf::Text(trim(p))),
        decreases n - i,
    {
        assert(cs@.subrange(0, i + 1).drop_last() =~= cs@.subrange(0, i as int));
        if cs[i] == ',' {
            let (a, b) = trim_bounds(cs.as_slice(), start, i);
            let piece = string_of(cs.as_slice(), a, b);
            let ghost old_items = items@;
            items.push(SpecValue::String(piece));
            proof {
                let old_ps = ps;
                ps = ps.push(cs@.subrange(start as int, i as int));
                assert(crate::value::leaves_of(items@) =~= crate::value::leaves_of(old_items).push(Leaf::Text(piece@)));
                assert(ps.map_values(|p: Seq<char>| Leaf::Text(trim(p))) =~= old_ps.map_values(|p: Seq<char>| Leaf::Text(trim(p))).push(Leaf::Text(trim(cs@.subrange(start as int, i as int)))));
            }
            start = i + 1;
            assert(cs@.subrange(start as int, i + 1).len() == 0);
            assert(cs@.subrange(start as int, i + 1) =~= Seq::<char>::empty());
        } else {
            assert(cs@.subrange(start as int, i + 1) =~= cs@.subrange(start as int, i as int).push(cs@[i as int]));
        }
        i = i + 1;
    }
    assert(cs@.subrange(0, n as int) =~= cs@);
    let (a, b) = trim_bounds(cs.as_slice(), start, n);
    let piece = string_of(cs.as_slice(), a, b);
    let ghost old_items = items@;
    items.push(SpecValue::String(piece));
    proof {
        let fin = ps.push(cs@.subrange(start as int, n as int));
        assert(crate::value::leaves_of(items@) =~= crate::value::leaves_of(old_items).push(Leaf::Text(piece@)));
        assert(fin.map_values(|p: Seq<char>| Leaf::Text(trim(p))) =~= ps.map_values(|p: Seq<char>| Leaf::Text(trim(p))).push(Leaf::Text(trim(cs@.subrange(start as int, n as int)))));
    }
    items
}

/// Splits `key=value` at the first `=`; the key may not be empty.
fn parse_map_assignment(raw: &String) -> (r: Option<(String, String)>)
    ensures
        opt_text2(r) == assignment(raw@),
{
    let cs = to_chars(raw.as_str());
    assert(cs@.subrange(0, cs@.len() as int) =~= cs@);
    match find_char(cs.as_slice(), 0, cs.len(), '=') {
        Some(e) => {
            if e > 0 {
                Some((string_of(cs.as_slice(), 0, e), string_of(cs.as_slice(), e + 1, cs.len())))
            } else {
                None
            }
        },
        None => None,
    }
}

/// Applies flag parameter `pk` of type `ty` with `value`.
fn apply_flag_value(
    params: &mut StrMap<SpecValue>,
    pk: String,
    ty: ParameterType,
    value: Option<String>,
)
    ensures
        params_model(final(params)@) == apply_flag(params_model(old(params)@), pk@, ty, opt_view(value)),
{
    let ghost s0 = params@;
    match ty {
        ParameterType::Boolean => {
            if value.is_none() {
                proof {
                    lemma_params_put(s0, pk@, SpecValue::Bool(true));
                }
                params.insert(pk, SpecValue::Bool(true));
            }
        },
        ParameterType::String => {
            let v = match value {
                Some(v) => v,
                None => String::new(),
            };
            proof {
                lemma_params_put(s0, pk@, SpecValue::String(v));
            }
            params.insert(pk, SpecValue::String(v));
        },
        ParameterType::Array => {
            match value {
                Some(v) => {
                    let mut fresh = split_list(&v);
                    proof {
                        lemma_params_put(s0, pk@, SpecValue::Null);
                    }
                    let mut items: Vec<SpecValue> = match params.swap_value(pk.as_str(), SpecValue::Null) {
                        Some(SpecValue::List(held)) => held,
                        _ => Vec::new(),
                    };
                    let ghost held = items@;
                    let ghost added = fresh@;
                    items.append(&mut fresh);
                    assert(crate::value::leaves_of(items@) =~= crate::value::leaves_of(held)
                        + crate::value::leaves_of(added));
                    assert(crate::value::leaves_of(held) == held_list(params_model(s0), pk@)) by {
                        if !(lookup(s0, pk@) matches Some(SpecValue::List(_))) {
                            assert(held.len() == 0);
                            assert(crate::value::leaves_of(held) =~= Seq::<Leaf>::empty());
                        }
                    }
                    let ghost nv = SpecValue::List(items);
                    params.insert(pk, SpecValue::List(items));
                    proof {
                        lemma_put_put(s0, pk@, SpecValue::Null, nv);
                        lemma_params_put(s0, pk@, nv);
                    }
                },
                None => {},
            }
        },
        ParameterType::Dict => {
            match value {
                Some(v) => {
                    match parse_map_assignment(&v) {
                        Some((ek, ev)) => insert_map_entry(params, pk, ek, ev),
                        None => {},
                    }
                },
                None => {},
            }
        },
    }
}

/// Whether a token starts with `-`.
fn dash_led(t: &String) -> (r: bool)
    ensures
        r == starts_dash(t@),
{
    let n = t.as_str().unicode_len();
    n > 0 && t.as_str().get_char(0) == '-'
}

/// Parses command lines for one provider.
#[derive(Debug)]
pub struct CommandParser {
    pub provider_id: String,
}

impl CommandParser {
    pub fn new(provider_id: String) -> (r: Self)
        ensures
            r.provider_id@ == provider_id@,
    {
        CommandParser { provider_id }
    }

    /// The parameter key that `flag` names in this provider's table.
    pub fn map_flag_to_param(&self, flag: &str) -> (r: Option<String>)
        ensures
            opt_view(r) == flag_key(self.provider_id@, flag@),
    {
        let p = self.provider_id.as_str();
        if same_text(p, "dotnet") {
            map_dotnet_flag(flag)
        } else if same_text(p, "cargo") {
            map_cargo_flag(flag)
        } else if same_text(p, "go") {
            map_go_flag(flag)
        } else if same_text(p, "java") {
            map_java_flag(flag)
        } else {
            None
        }
    }

    /// Reads the parameters from a token list.
    fn parse_tokens(&self, tokens: &Vec<String>, schema: &ParameterSchema) -> (r: StrMap<SpecValue>)
        ensures
            params_model(r@) == parse_params(self.provider_id@, schema_view(schema.parameters@), views(tokens@)),
    {
        let ghost prov = self.provider_id@;
        let ghost sch = schema_view(schema.parameters@);
        let ghost toks = views(tokens@);
        let n = tokens.len();
        let mut params: StrMap<SpecValue> = StrMap::new();
        assert(params_model(params@) =~= Seq::<(Seq<char>, Val)>::empty());
        let mut i: usize = 0;
        while i < n
            invariant
                n == tokens@.len(),
                toks == views(tokens@),
                prov == self.provider_id@,
                sch == schema_view(schema.parameters@),
                i <= n,
                parse_params(prov, sch, toks) == parse_from(prov, sch, toks, i as int, params_model(params@)),
            decreases n - i,
        {
            let t = to_chars(tokens[i].as_str());
            assert(toks[i as int] == t@);
            let ghost acc = params_model(params@);
            match match_map_token(&schema.parameters, &t) {
                Some((pk, ek, ev)) => {
                    insert_map_entry(&mut params, pk, ek, ev);
                    i = i + 1;
                    continue;
                },
                None => {},
            }
            match match_string_token(&schema.parameters, &t) {
                Some((pk, v)) => {
                    proof {
                        lemma_params_put(params@, pk@, SpecValue::String(v));
                    }
                    params.insert(pk, SpecValue::String(v));
                    i = i + 1;
                    continue;
                },
                None => {},
            }
            if t.len() > 0 && t[0] == '-' {
                assert(t@.subrange(0, t@.len() as int) =~= t@);
                let (flag, value, step) = match find_char(t.as_slice(), 0, t.len(), '=') {
                    Some(e) => (string_of(t.as_slice(), 0, e), Some(string_of(t.as_slice(), e + 1, t.len())), 1usize),
                    None => {
                        if i + 1 < n && !dash_led(&tokens[i + 1]) {
                            (tokens[i].clone(), Some(tokens[i + 1].clone()), 2usize)
                        } else {
                            (tokens[i].clone(), None, 1usize)
                        }
                    },
                };
                assert(flag_value(toks, i as int) == (flag@, opt_view(value), step as int));
                match self.map_flag_to_param(flag.as_str()) {
                    Some(pk) => {
                        proof {
                            lemma_schema_lookup(schema.parameters@, pk@);
                        }
                        match schema.parameters.get(pk.as_str()) {
                            Some(def) => {
                                apply_flag_value(&mut params, pk, def.param_type, value);
                            },
                            None => {},
                        }
                    },
                    None => {},
                }
                i = i + step;
            } else {
                i = i + 1;
            }
        }
        params
    }

    /// Parses `command` into a spec for this provider: the first word is
    /// the program; prefixed map tokens, prefixed string tokens and flags in
    /// this provider's table fill the parameters; unknown flags are skipped.
    pub fn parse_command(&self, command: &str, project_path: String, schema: &ParameterSchema) -> (r: Result<
        PublishSpec,
        ParseError,
    >)
        ensures
            match r {
                Ok(spec) => spec.version == SPEC_VERSION && spec.provider_id@ == self.provider_id@
                    && spec.project_path@ == project_path@ && params_model(spec.parameters@)
                    == parse_params(self.provider_id@, schema_view(schema.parameters@), tokens_of(command@)),
                Err(_) => false,
            },
    {
        let tokens = tokenize(command);
        let parameters = self.parse_tokens(&tokens, schema);
        Ok(
            PublishSpec {
                version: SPEC_VERSION,
                provider_id: self.provider_id.clone(),
                project_path,
                parameters,
            },
        )
    }
}

} // verus!

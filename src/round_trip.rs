//! Parsing what the renderer produced gives the parameters back.

use vstd::prelude::*;
use crate::command_parser::{
    tok_run, tokens_of,
    parse_from, parse_params, map_token_match, string_token_match, flag_key, flag_value,
    add_entry, list_items, comma_run, comma_pieces, starts_dash, lemma_params_put,
};
use crate::keyed::{has_key, lookup, put, keys_sorted, lemma_put_facts, lemma_put_put, lemma_below_all};
use crate::parameter::{DefView, ParameterType, render_params, render_value, render_items, render_pairs, pair_token};
use crate::text::{split_first, trim, lex_lt};
use crate::execution::join_spaced;
use crate::value::{SpecValue, Val, Leaf, params_model, val_of, leaf_entries, leaves_of};

verus! {

/// Neither prefix matcher claims token `t`.
pub open spec fn unclaimed(schema: Seq<(Seq<char>, DefView)>, t: Seq<char>) -> bool {
    map_token_match(schema, t) is None && string_token_match(schema, t) is None
}

/// A value token: no flag, and claimed by no prefix.
pub open spec fn plain_token(schema: Seq<(Seq<char>, DefView)>, t: Seq<char>) -> bool {
    !starts_dash(t) && unclaimed(schema, t)
}

/// Flag `f` of parameter `k` reads back as `k`: the provider's table maps
/// it to `k`, it starts with `-`, holds no `=`, and no prefix claims it.
pub open spec fn flag_reads_back(provider: Seq<char>, schema: Seq<(Seq<char>, DefView)>, k: Seq<char>, f: Seq<char>) -> bool {
    &&& flag_key(provider, f) == Some(k)
    &&& starts_dash(f)
    &&& split_first(f, '=') is None
    &&& unclaimed(schema, f)
}

/// Parameter `k` with value `v` is one the command line can carry back:
/// a true boolean; a string value; a non-empty list of strings without
/// commas or surrounding white space; or a non-empty map of string values,
/// each of whose tokens the schema assigns to `k`.
pub open spec fn carried(provider: Seq<char>, schema: Seq<(Seq<char>, DefView)>, k: Seq<char>, v: SpecValue) -> bool {
    match lookup(schema, k) {
        None => false,
        Some(d) => match d.ty {
            ParameterType::Boolean => v == SpecValue::Bool(true) && flag_reads_back(provider, schema, k, d.flag),
            ParameterType::String => flag_reads_back(provider, schema, k, d.flag) && match v {
                SpecValue::String(s) => plain_token(schema, s@),
                _ => false,
            },
            ParameterType::Array => flag_reads_back(provider, schema, k, d.flag) && match v {
                SpecValue::List(items) => items@.len() > 0 && forall|i: int| 0 <= i < items@.len() ==> match #[trigger] items@[i] {
                    SpecValue::String(a) => plain_token(schema, a@) && !a@.contains(',') && trim(a@) == a@,
                    _ => false,
                },
                _ => false,
            },
            ParameterType::Dict => match (d.prefix, v) {
                (Some(p), SpecValue::Dict(m)) => m@.len() > 0 && keys_sorted(m@)
                    && forall|i: int| 0 <= i < m@.len() ==> match #[trigger] m@[i].1 {
                        SpecValue::String(s) => map_token_match(schema, pair_token(p, m@[i].0, s@)) == Some(
                            (k, m@[i].0, s@),
                        ),
                        _ => false,
                    },
                _ => false,
            },
        },
    }
}

proof fn lemma_no_comma(a: Seq<char>)
    requires
        !a.contains(','),
    ensures
        comma_run(a) == (Seq::<Seq<char>>::empty(), a),
    decreases a.len(),
{
    if a.len() > 0 {
        assert(!a.drop_last().contains(',')) by {
            if a.drop_last().contains(',') {
                let i = choose|i: int| 0 <= i < a.drop_last().len() && a.drop_last()[i] == ',';
                assert(a[i] == ',');
            }
        }
        lemma_no_comma(a.drop_last());
        assert(a.last() != ',') by {
            if a.last() == ',' {
                assert(a[a.len() - 1] == ',');
            }
        }
        assert(a.drop_last().push(a.last()) =~= a);
    }
}

/// One flag-carried parameter at token `j` is read back, and parsing goes
/// on after its tokens.
proof fn lemma_flag_entry(
    provider: Seq<char>,
    schema: Seq<(Seq<char>, DefView)>,
    toks: Seq<Seq<char>>,
    j: int,
    acc: Seq<(Seq<char>, Val)>,
    k: Seq<char>,
    v: SpecValue,
)
    requires
        carried(provider, schema, k, v),
        lookup(schema, k)->0.ty != ParameterType::Dict,
        lookup(schema, k)->0.ty != ParameterType::Array,
        render_value(lookup(schema, k)->0, k, v) matches Ok(te) && 0 <= j && j + te.len() <= toks.len()
            && toks.subrange(j, j + te.len()) == te && (lookup(schema, k)->0.ty == ParameterType::Boolean
            && j + te.len() < toks.len() ==> starts_dash(toks[j + te.len()])),
    ensures
        render_value(lookup(schema, k)->0, k, v) matches Ok(te) && te.len() > 0 && starts_dash(te[0])
            && parse_from(provider, schema, toks, j, acc) == parse_from(
            provider,
            schema,
            toks,
            j + te.len(),
            put(acc, k, val_of(v)),
        ),
{
    let d = lookup(schema, k)->0;
    let te = render_value(d, k, v)->Ok_0;
    assert(toks[j] == te[0]) by {
        assert(toks.subrange(j, j + te.len())[0] == toks[j]);
    }
    match d.ty {
        ParameterType::Boolean => {
            assert(te =~= seq![d.flag]);
            assert(flag_value(toks, j) == (d.flag, None::<Seq<char>>, 1int));
        },
        ParameterType::String => {
            let s = v->String_0;
            assert(te =~= seq![d.flag, s@]);
            assert(toks[j + 1] == s@) by {
                assert(toks.subrange(j, j + te.len())[1] == toks[j + 1]);
            }
            assert(flag_value(toks, j) == (d.flag, Some(s@), 2int));
        },
        ParameterType::Array => {},
        ParameterType::Dict => {},
    }
}

/// Every item of a list is a string.
pub open spec fn all_string_items(items: Seq<SpecValue>) -> bool {
    forall|i: int| 0 <= i < items.len() ==> (#[trigger] items[i]) is String
}

/// The tokens of a list of strings: the flag before each item.
pub open spec fn string_item_tokens(f: Seq<char>, items: Seq<SpecValue>) -> Seq<Seq<char>>
    decreases items.len(),
{
    if items.len() == 0 {
        Seq::empty()
    } else {
        string_item_tokens(f, items.drop_last()) + seq![f, items.last()->String_0@]
    }
}

proof fn lemma_string_items(f: Seq<char>, k: Seq<char>, items: Seq<SpecValue>)
    requires
        all_string_items(items),
    ensures
        render_items(f, k, items) == Ok::<Seq<Seq<char>>, crate::parameter::RenderFault>(string_item_tokens(f, items)),
        string_item_tokens(f, items).len() == 2 * items.len(),
        forall|x: int| 0 <= x < items.len() ==> #[trigger] flag_slot(string_item_tokens(f, items), x) == f,
        forall|x: int| 0 <= x < items.len() ==> #[trigger] item_slot(string_item_tokens(f, items), x)
            == items[x]->String_0@,
    decreases items.len(),
{
    if items.len() > 0 {
        let d = items.drop_last();
        assert(all_string_items(d)) by {
            assert forall|i: int| 0 <= i < d.len() implies (#[trigger] d[i]) is String by {
                assert(d[i] == items[i]);
            }
        }
        lemma_string_items(f, k, d);
        assert(items.last() == items[items.len() - 1]);
        let t = string_item_tokens(f, items);
        let t0 = string_item_tokens(f, d);
        assert(t == t0 + seq![f, items.last()->String_0@]);
        assert forall|x: int| 0 <= x < items.len() implies #[trigger] flag_slot(t, x) == f by {
            if x < d.len() {
                assert(flag_slot(t0, x) == f);
                assert(t[2 * x] == t0[2 * x]);
            } else {
                assert(t[2 * x] == seq![f, items.last()->String_0@][0]);
            }
        }
        assert forall|x: int| 0 <= x < items.len() implies #[trigger] item_slot(t, x) == items[x]->String_0@ by {
            if x < d.len() {
                assert(item_slot(t0, x) == d[x]->String_0@);
                assert(t[2 * x + 1] == t0[2 * x + 1]);
                assert(d[x] == items[x]);
            } else {
                assert(t[2 * x + 1] == seq![f, items.last()->String_0@][1]);
            }
        }
    }
}

/// The flag before list item `x`.
pub open spec fn flag_slot(t: Seq<Seq<char>>, x: int) -> Seq<char> {
    t[2 * x]
}

/// List item `x`.
pub open spec fn item_slot(t: Seq<Seq<char>>, x: int) -> Seq<char> {
    t[2 * x + 1]
}

/// The parameters after the first `i` flag-item pairs of list parameter `k`.
pub open spec fn list_after(acc: Seq<(Seq<char>, Val)>, k: Seq<char>, items: Seq<SpecValue>, i: int) -> Seq<
    (Seq<char>, Val),
> {
    if i == 0 {
        acc
    } else {
        put(acc, k, Val::List(leaves_of(items.subrange(0, i))))
    }
}

/// List item `x` reads back as itself.
pub open spec fn plain_item(schema: Seq<(Seq<char>, DefView)>, x: SpecValue) -> bool {
    match x {
        SpecValue::String(a) => plain_token(schema, a@) && !a@.contains(',') && trim(a@) == a@,
        _ => false,
    }
}

proof fn lemma_list_tokens(
    provider: Seq<char>,
    schema: Seq<(Seq<char>, DefView)>,
    toks: Seq<Seq<char>>,
    j: int,
    acc: Seq<(Seq<char>, Val)>,
    k: Seq<char>,
    f: Seq<char>,
    items: Seq<SpecValue>,
    i: int,
)
    requires
        0 <= i <= items.len(),
        !has_key(acc, k),
        lookup(schema, k) matches Some(d) && d.ty == ParameterType::Array && d.flag == f,
        flag_reads_back(provider, schema, k, f),
        all_string_items(items),
        forall|x: int| 0 <= x < items.len() ==> plain_item(schema, #[trigger] items[x]),
        0 <= j && j + 2 * items.len() <= toks.len(),
        toks.subrange(j, j + 2 * items.len()) == string_item_tokens(f, items),
    ensures
        parse_from(provider, schema, toks, j, acc) == parse_from(provider, schema, toks, j + 2 * i, list_after(acc, k, items, i)),
    decreases i,
{
    lemma_string_items(f, k, items);
    if i > 0 {
        lemma_list_tokens(provider, schema, toks, j, acc, k, f, items, i - 1);
        let x = i - 1;
        let a = items[x]->String_0@;
        let t = string_item_tokens(f, items);
        assert(toks[j + 2 * x] == f) by {
            assert(flag_slot(t, x) == f);
            assert(toks.subrange(j, j + 2 * items.len())[2 * x] == toks[j + 2 * x]);
        }
        assert(toks[j + 2 * x + 1] == a) by {
            assert(item_slot(t, x) == a);
            assert(toks.subrange(j, j + 2 * items.len())[2 * x + 1] == toks[j + 2 * x + 1]);
        }
        assert(plain_item(schema, items[x]));
        assert(flag_value(toks, j + 2 * x) == (f, Some(a), 2int));
        lemma_no_comma(a);
        assert(comma_pieces(a) =~= seq![a]);
        assert(list_items(a) =~= seq![Leaf::Text(a)]);
        assert(leaves_of(items.subrange(0, i)) =~= leaves_of(items.subrange(0, x)).push(Leaf::Text(a)));
        let before = list_after(acc, k, items, x);
        if x == 0 {
            assert(lookup(before, k) is None);
            assert(leaves_of(items.subrange(0, x)) =~= Seq::<Leaf>::empty());
            assert(Seq::<Leaf>::empty() + seq![Leaf::Text(a)] =~= seq![Leaf::Text(a)]);
        } else {
            lemma_put_facts(acc, k, Val::List(leaves_of(items.subrange(0, x))));
            lemma_put_put(acc, k, Val::List(leaves_of(items.subrange(0, x))), Val::List(leaves_of(items.subrange(0, i))));
            assert(leaves_of(items.subrange(0, x)) + list_items(a) =~= leaves_of(items.subrange(0, i)));
        }
    }
}

/// Every value of `m` is a string.
pub open spec fn all_strings(m: Seq<(Seq<char>, SpecValue)>) -> bool {
    forall|i: int| 0 <= i < m.len() ==> (#[trigger] m[i].1) is String
}

/// The tokens of a map of strings.
pub open spec fn string_pair_tokens(p: Seq<char>, m: Seq<(Seq<char>, SpecValue)>) -> Seq<Seq<char>> {
    m.map_values(|e: (Seq<char>, SpecValue)| pair_token(p, e.0, e.1->String_0@))
}

proof fn lemma_string_pairs(p: Seq<char>, k: Seq<char>, m: Seq<(Seq<char>, SpecValue)>)
    requires
        all_strings(m),
    ensures
        render_pairs(p, k, m) == Ok::<Seq<Seq<char>>, crate::parameter::RenderFault>(string_pair_tokens(p, m)),
    decreases m.len(),
{
    if m.len() > 0 {
        assert(all_strings(m.drop_last())) by {
            assert forall|i: int| 0 <= i < m.drop_last().len() implies (#[trigger] m.drop_last()[i].1) is String by {
                assert(m.drop_last()[i] == m[i]);
            }
        }
        lemma_string_pairs(p, k, m.drop_last());
        assert(m.last().1 == m[m.len() - 1].1);
        assert(string_pair_tokens(p, m) =~= string_pair_tokens(p, m.drop_last()).push(
            pair_token(p, m.last().0, m.last().1->String_0@),
        ));
    } else {
        assert(string_pair_tokens(p, m) =~= Seq::<Seq<char>>::empty());
    }
}

/// The parameters after the first `i` tokens of map parameter `k`.
pub open spec fn dict_after(acc: Seq<(Seq<char>, Val)>, k: Seq<char>, m: Seq<(Seq<char>, SpecValue)>, i: int) -> Seq<
    (Seq<char>, Val),
> {
    if i == 0 {
        acc
    } else {
        put(acc, k, Val::Dict(leaf_entries(m.subrange(0, i))))
    }
}

proof fn lemma_dict_tokens(
    provider: Seq<char>,
    schema: Seq<(Seq<char>, DefView)>,
    toks: Seq<Seq<char>>,
    j: int,
    acc: Seq<(Seq<char>, Val)>,
    k: Seq<char>,
    p: Seq<char>,
    m: Seq<(Seq<char>, SpecValue)>,
    i: int,
)
    requires
        0 <= i <= m.len(),
        !has_key(acc, k),
        keys_sorted(m),
        all_strings(m),
        forall|x: int| 0 <= x < m.len() ==> map_token_match(schema, #[trigger] pair_token(p, m[x].0, m[x].1->String_0@))
            == Some((k, m[x].0, m[x].1->String_0@)),
        0 <= j && j + m.len() <= toks.len(),
        toks.subrange(j, j + m.len()) == string_pair_tokens(p, m),
    ensures
        parse_from(provider, schema, toks, j, acc) == parse_from(provider, schema, toks, j + i, dict_after(acc, k, m, i)),
    decreases i,
{
    if i > 0 {
        lemma_dict_tokens(provider, schema, toks, j, acc, k, p, m, i - 1);
        let x = i - 1;
        let s = m[x].1->String_0@;
        assert(toks[j + x] == pair_token(p, m[x].0, s)) by {
            assert(toks.subrange(j, j + m.len())[x] == toks[j + x]);
        }
        let before = dict_after(acc, k, m, x);
        let entry = (m[x].0, Leaf::Text(s));
        assert(leaf_entries(m.subrange(0, i)) =~= leaf_entries(m.subrange(0, x)).push(entry));
        let lx = leaf_entries(m.subrange(0, x));
        assert forall|y: int| 0 <= y < lx.len() implies lex_lt(#[trigger] lx[y].0, m[x].0) by {
            assert(lx[y].0 == m[y].0);
        }
        lemma_below_all(lx, m[x].0);
        assert(put(lx, m[x].0, Leaf::Text(s)) =~= lx.push(entry));
        if x == 0 {
            assert(lookup(before, k) is None);
            assert(m.subrange(0, x).len() == 0);
            assert(leaf_entries(m.subrange(0, i)) =~= seq![entry]);
            assert(add_entry(before, k, m[x].0, s) == dict_after(acc, k, m, i));
        } else {
            lemma_put_facts(acc, k, Val::Dict(leaf_entries(m.subrange(0, x))));
            lemma_put_put(acc, k, Val::Dict(leaf_entries(m.subrange(0, x))), Val::Dict(leaf_entries(m.subrange(0, i))));
            assert(add_entry(before, k, m[x].0, s) == dict_after(acc, k, m, i));
        }
    } else {
        assert(dict_after(acc, k, m, 0) == acc);
    }
}

proof fn lemma_carried_renders(provider: Seq<char>, schema: Seq<(Seq<char>, DefView)>, k: Seq<char>, v: SpecValue)
    requires
        carried(provider, schema, k, v),
    ensures
        render_value(lookup(schema, k)->0, k, v) is Ok,
        lookup(schema, k)->0.ty == ParameterType::Array ==> (v is List && all_string_items(v->List_0@)
            && render_value(lookup(schema, k)->0, k, v) == Ok::<Seq<Seq<char>>, crate::parameter::RenderFault>(
            string_item_tokens(lookup(schema, k)->0.flag, v->List_0@))),
        lookup(schema, k)->0.ty == ParameterType::Dict ==> (v is Dict && lookup(schema, k)->0.prefix is Some
            && all_strings(v->Dict_0@) && render_value(lookup(schema, k)->0, k, v) == Ok::<
            Seq<Seq<char>>,
            crate::parameter::RenderFault,
        >(string_pair_tokens(lookup(schema, k)->0.prefix->0, v->Dict_0@))),
{
    let d = lookup(schema, k)->0;
    match d.ty {
        ParameterType::Array => {
            let items = v->List_0;
            assert(all_string_items(items@)) by {
                assert forall|i: int| 0 <= i < items@.len() implies (#[trigger] items@[i]) is String by {
                    assert(match items@[i] {
                        SpecValue::String(a) => plain_token(schema, a@) && !a@.contains(',') && trim(a@) == a@,
                        _ => false,
                    });
                }
            }
            lemma_string_items(d.flag, k, items@);
        },
        ParameterType::Dict => {
            let m = v->Dict_0;
            let p = d.prefix->0;
            assert(all_strings(m@)) by {
                assert forall|i: int| 0 <= i < m@.len() implies (#[trigger] m@[i].1) is String by {
                    assert(match m@[i].1 {
                        SpecValue::String(s) => map_token_match(schema, pair_token(p, m@[i].0, s@)) == Some((k, m@[i].0, s@)),
                        _ => false,
                    });
                }
            }
            lemma_string_pairs(p, k, m@);
        },
        _ => {},
    }
}

/// Parameter `k`'s first token starts with `-`: every flag does, and a
/// map's tokens do when its prefix does.
pub open spec fn lead_dash(schema: Seq<(Seq<char>, DefView)>, k: Seq<char>) -> bool {
    match lookup(schema, k) {
        Some(d) => d.ty != ParameterType::Dict || (d.prefix matches Some(p) && starts_dash(p)),
        None => true,
    }
}

/// A boolean flag is followed by a parameter whose first token starts with
/// `-` (a map behind another prefix would be read as the flag's value).
pub open spec fn booleans_followed_by_flags(schema: Seq<(Seq<char>, DefView)>, params: Seq<(Seq<char>, SpecValue)>) -> bool {
    forall|i: int| 0 <= i < params.len() - 1 && lookup(schema, (#[trigger] params[i]).0)->0.ty == ParameterType::Boolean
        ==> lead_dash(schema, params[i + 1].0)
}

/// One carried parameter at token `j` is read back.
proof fn lemma_entry(
    provider: Seq<char>,
    schema: Seq<(Seq<char>, DefView)>,
    toks: Seq<Seq<char>>,
    j: int,
    acc: Seq<(Seq<char>, Val)>,
    k: Seq<char>,
    v: SpecValue,
)
    requires
        carried(provider, schema, k, v),
        !has_key(acc, k),
        render_value(lookup(schema, k)->0, k, v) matches Ok(te) && 0 <= j && j + te.len() <= toks.len()
            && toks.subrange(j, j + te.len()) == te && (lookup(schema, k)->0.ty == ParameterType::Boolean
            && j + te.len() < toks.len() ==> starts_dash(toks[j + te.len()])),
    ensures
        render_value(lookup(schema, k)->0, k, v) matches Ok(te) && te.len() > 0 && (lead_dash(schema, k)
            ==> starts_dash(te[0])) && parse_from(provider, schema, toks, j, acc) == parse_from(
            provider,
            schema,
            toks,
            j + te.len(),
            put(acc, k, val_of(v)),
        ),
{
    let d = lookup(schema, k)->0;
    if d.ty == ParameterType::Dict {
        lemma_carried_renders(provider, schema, k, v);
        let m = v->Dict_0;
        let p = d.prefix->0;
        let te = string_pair_tokens(p, m@);
        assert forall|x: int| 0 <= x < m@.len() implies map_token_match(schema, #[trigger] pair_token(p, m@[x].0, m@[x].1->String_0@))
            == Some((k, m@[x].0, m@[x].1->String_0@)) by {
            assert(match m@[x].1 {
                SpecValue::String(s) => map_token_match(schema, pair_token(p, m@[x].0, s@)) == Some((k, m@[x].0, s@)),
                _ => false,
            });
        }
        lemma_dict_tokens(provider, schema, toks, j, acc, k, p, m@, m@.len() as int);
        assert(m@.subrange(0, m@.len() as int) =~= m@);
        assert(te[0] == pair_token(p, m@[0].0, m@[0].1->String_0@));
        if lead_dash(schema, k) {
            assert(te[0][0] == p[0]);
        }
    } else if d.ty == ParameterType::Array {
        lemma_carried_renders(provider, schema, k, v);
        let items = v->List_0;
        let te = string_item_tokens(d.flag, items@);
        lemma_string_items(d.flag, k, items@);
        assert forall|x: int| 0 <= x < items@.len() implies plain_item(schema, #[trigger] items@[x]) by {
            assert(match items@[x] {
                SpecValue::String(a) => plain_token(schema, a@) && !a@.contains(',') && trim(a@) == a@,
                _ => false,
            });
        }
        lemma_list_tokens(provider, schema, toks, j, acc, k, d.flag, items@, items@.len() as int);
        assert(items@.subrange(0, items@.len() as int) =~= items@);
        assert(flag_slot(te, 0) == d.flag);
    } else {
        lemma_flag_entry(provider, schema, toks, j, acc, k, v);
    }
}

/// All parameters are carried.
pub open spec fn all_carried(provider: Seq<char>, schema: Seq<(Seq<char>, DefView)>, params: Seq<(Seq<char>, SpecValue)>) -> bool {
    forall|i: int| 0 <= i < params.len() ==> carried(provider, schema, (#[trigger] params[i]).0, params[i].1)
}

proof fn lemma_all_render(provider: Seq<char>, schema: Seq<(Seq<char>, DefView)>, params: Seq<(Seq<char>, SpecValue)>)
    requires
        all_carried(provider, schema, params),
    ensures
        render_params(schema, params) is Ok,
    decreases params.len(),
{
    if params.len() > 0 {
        let last = params[params.len() - 1];
        assert(all_carried(provider, schema, params.drop_last())) by {
            assert forall|i: int| 0 <= i < params.drop_last().len() implies carried(provider, schema, (#[trigger] params.drop_last()[i]).0, params.drop_last()[i].1) by {
                assert(params.drop_last()[i] == params[i]);
            }
        }
        lemma_all_render(provider, schema, params.drop_last());
        assert(carried(provider, schema, last.0, last.1));
        lemma_carried_renders(provider, schema, last.0, last.1);
    }
}

proof fn lemma_params_tokens(
    provider: Seq<char>,
    schema: Seq<(Seq<char>, DefView)>,
    params: Seq<(Seq<char>, SpecValue)>,
    toks: Seq<Seq<char>>,
    program: Seq<char>,
)
    requires
        keys_sorted(params),
        all_carried(provider, schema, params),
        plain_token(schema, program),
        booleans_followed_by_flags(schema, params),
        render_params(schema, params) matches Ok(a) && 1 + a.len() as int <= toks.len() && toks.subrange(0, 1 + a.len() as int)
            == seq![program] + a && (params.len() > 0 && lookup(schema, params.last().0)->0.ty == ParameterType::Boolean
            && (1 + a.len() as int) < toks.len() ==> starts_dash(toks[1 + a.len() as int])),
    ensures
        render_params(schema, params) matches Ok(a) && parse_from(provider, schema, toks, 0, Seq::empty()) == parse_from(
            provider,
            schema,
            toks,
            1 + a.len() as int,
            params_model(params),
        ),
    decreases params.len(),
{
    let a = render_params(schema, params)->Ok_0;
    if params.len() == 0 {
        assert(toks[0] == program) by {
            assert(toks.subrange(0, 1 + a.len() as int)[0] == toks[0]);
        }
        assert(params_model(params) =~= Seq::<(Seq<char>, Val)>::empty());
    } else {
        let rest = params.drop_last();
        let (k, v) = params.last();
        assert(params.last() == params[params.len() - 1]);
        assert(keys_sorted(rest)) by {
            assert forall|x: int, y: int| 0 <= x < y < rest.len() implies lex_lt(#[trigger] rest[x].0, #[trigger] rest[y].0) by {
                assert(rest[x] == params[x] && rest[y] == params[y]);
            }
        }
        assert forall|y: int| 0 <= y < rest.len() implies lex_lt(#[trigger] rest[y].0, k) by {
            assert(rest[y] == params[y]);
        }
        lemma_below_all(rest, k);
        assert(all_carried(provider, schema, rest)) by {
            assert forall|i: int| 0 <= i < rest.len() implies carried(provider, schema, (#[trigger] rest[i]).0, rest[i].1) by {
                assert(rest[i] == params[i]);
            }
        }
        assert(carried(provider, schema, k, v));
        lemma_all_render(provider, schema, rest);
        let a0 = render_params(schema, rest)->Ok_0;
        lemma_carried_renders(provider, schema, k, v);
        let te = render_value(lookup(schema, k)->0, k, v)->Ok_0;
        assert(a == a0 + te);
        assert(!has_key(params_model(rest), k)) by {
            if has_key(params_model(rest), k) {
                let y = choose|y: int| 0 <= y < params_model(rest).len() && #[trigger] params_model(rest)[y].0 == k;
                assert(rest[y].0 == k);
            }
        }
        let j = 1 + a0.len() as int;
        assert(toks.subrange(j, j + te.len() as int) =~= te) by {
            assert forall|x: int| 0 <= x < (te.len() as int) implies toks.subrange(j, j + te.len() as int)[x] == te[x] by {
                assert(toks.subrange(0, 1 + a.len() as int)[j + x] == toks[j + x]);
                assert((seq![program] + a)[j + x] == te[x]);
            }
        }
        lemma_entry(provider, schema, toks, j, params_model(rest), k, v);
        assert(toks.subrange(0, 1 + a0.len() as int) =~= seq![program] + a0) by {
            assert forall|x: int| 0 <= x < (1 + a0.len() as int) implies toks.subrange(0, 1 + a0.len() as int)[x] == (seq![program] + a0)[x] by {
                assert(toks.subrange(0, 1 + a.len() as int)[x] == toks[x]);
            }
        }
        assert(toks[j] == te[0]) by {
            assert(toks.subrange(j, j + te.len() as int)[0] == toks[j]);
        }
        assert(booleans_followed_by_flags(schema, rest)) by {
            assert forall|i: int| 0 <= i < rest.len() - 1 && lookup(schema, (#[trigger] rest[i]).0)->0.ty == ParameterType::Boolean
                implies lead_dash(schema, rest[i + 1].0) by {
                assert(rest[i] == params[i] && rest[i + 1] == params[i + 1]);
            }
        }
        if rest.len() > 0 && lookup(schema, rest.last().0)->0.ty == ParameterType::Boolean {
            assert(rest.last() == params[params.len() - 2]);
            assert(lead_dash(schema, params[params.len() - 1].0));
        }
        lemma_params_tokens(provider, schema, rest, toks, program);
        lemma_params_put(rest, k, v);
        assert(put(rest, k, v) =~= params);
    }
}

/// Round trip: every parameter map that the command line can carry back
/// (see `carried`; a true boolean must not be followed by a map whose
/// prefix is no flag), rendered against the schema behind a program name that
/// no prefix claims and that is no flag, is read back by the parser as the
/// same map, in the same order. Parameters that render to nothing (a false
/// or null boolean, a null string, an empty list or map) cannot come back,
/// and neither can a number or a non-string list item or map value (they
/// come back as text).
pub proof fn lemma_round_trip(
    provider: Seq<char>,
    schema: Seq<(Seq<char>, DefView)>,
    params: Seq<(Seq<char>, SpecValue)>,
    program: Seq<char>,
)
    requires
        keys_sorted(params),
        all_carried(provider, schema, params),
        booleans_followed_by_flags(schema, params),
        plain_token(schema, program),
    ensures
        render_params(schema, params) matches Ok(args) && parse_params(provider, schema, seq![program] + args)
            == params_model(params),
{
    lemma_all_render(provider, schema, params);
    let a = render_params(schema, params)->Ok_0;
    let toks = seq![program] + a;
    assert(toks.subrange(0, 1 + a.len() as int) =~= toks);
    lemma_params_tokens(provider, schema, params, toks, program);
}

/// A word the tokenizer keeps whole: not empty, and without spaces, tabs
/// or double quotes.
pub open spec fn simple_word(t: Seq<char>) -> bool {
    t.len() > 0 && forall|i: int| 0 <= i < t.len() ==> #[trigger] t[i] != ' ' && t[i] != '\t' && t[i] != '"'
}

proof fn lemma_tok_word(x: Seq<char>, t: Seq<char>)
    requires
        tok_run(x).2 == false,
        forall|i: int| 0 <= i < t.len() ==> #[trigger] t[i] != ' ' && t[i] != '\t' && t[i] != '"',
    ensures
        tok_run(x + t) == (tok_run(x).0, tok_run(x).1 + t, false),
    decreases t.len(),
{
    if t.len() == 0 {
        assert(x + t =~= x);
        assert(tok_run(x).1 + t =~= tok_run(x).1);
    } else {
        let t0 = t.drop_last();
        assert forall|i: int| 0 <= i < t0.len() implies #[trigger] t0[i] != ' ' && t0[i] != '\t' && t0[i] != '"' by {
            assert(t0[i] == t[i]);
        }
        lemma_tok_word(x, t0);
        assert((x + t).drop_last() =~= x + t0);
        assert((x + t).last() == t[t.len() - 1]);
        assert(tok_run(x).1 + t0 + seq![t.last()] =~= tok_run(x).1 + t);
        assert((tok_run(x).1 + t0).push(t.last()) =~= tok_run(x).1 + t);
    }
}

proof fn lemma_tok_join(first: Seq<char>, rest: Seq<Seq<char>>)
    requires
        simple_word(first),
        forall|i: int| 0 <= i < rest.len() ==> simple_word(#[trigger] rest[i]),
    ensures
        tokens_of(join_spaced(first, rest)) == seq![first] + rest,
        tok_run(join_spaced(first, rest)).2 == false,
        tok_run(join_spaced(first, rest)).1.len() > 0,
    decreases rest.len(),
{
    if rest.len() == 0 {
        assert(tok_run(Seq::<char>::empty()) == (Seq::<Seq<char>>::empty(), Seq::<char>::empty(), false));
        lemma_tok_word(Seq::empty(), first);
        assert(Seq::<char>::empty() + first =~= first);
        assert(Seq::<char>::empty() + first =~= first);
        assert(tokens_of(first) =~= seq![first]);
        assert(seq![first] + rest =~= seq![first]);
    } else {
        let r0 = rest.drop_last();
        assert forall|i: int| 0 <= i < r0.len() implies simple_word(#[trigger] r0[i]) by {
            assert(r0[i] == rest[i]);
        }
        lemma_tok_join(first, r0);
        let j0 = join_spaced(first, r0);
        let (toks0, cur0, q0) = tok_run(j0);
        let js = j0 + seq![' '];
        assert(js.drop_last() =~= j0);
        assert(tok_run(js) == (toks0.push(cur0), Seq::<char>::empty(), false));
        let last = rest[rest.len() - 1];
        assert(simple_word(last));
        lemma_tok_word(js, last);
        assert(join_spaced(first, rest) == js + last);
        assert(Seq::<char>::empty() + last =~= last);
        assert(tokens_of(j0) == toks0.push(cur0));
        assert(seq![first] + rest =~= (seq![first] + r0).push(last));
        assert(tokens_of(join_spaced(first, rest)) == toks0.push(cur0).push(last));
    }
}

/// Round trip through the command line itself: the rendered arguments,
/// written after the program name with single spaces, tokenize and parse
/// back to the same map, when no argument holds white space or quotes.
pub proof fn lemma_command_round_trip(
    provider: Seq<char>,
    schema: Seq<(Seq<char>, DefView)>,
    params: Seq<(Seq<char>, SpecValue)>,
    program: Seq<char>,
)
    requires
        keys_sorted(params),
        all_carried(provider, schema, params),
        booleans_followed_by_flags(schema, params),
        plain_token(schema, program),
        simple_word(program),
        render_params(schema, params) matches Ok(args) && forall|i: int| 0 <= i < args.len() ==> simple_word(#[trigger] args[i]),
    ensures
        render_params(schema, params) matches Ok(args) && parse_params(provider, schema, tokens_of(join_spaced(program, args)))
            == params_model(params),
{
    lemma_round_trip(provider, schema, params, program);
    let args = render_params(schema, params)->Ok_0;
    lemma_tok_join(program, args);
}

} // verus!

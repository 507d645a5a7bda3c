//! Parameter values and the provider-agnostic publish specification.

use vstd::prelude::*;
use crate::keyed::{StrMap, lemma_value_decreases};
use crate::text::lex_lt;

verus! {

/// The version of `PublishSpec` that this library reads and writes.
pub const SPEC_VERSION: u32 = 1;

/// A JSON-like parameter value.
#[derive(Debug, PartialEq)]
pub enum SpecValue {
    Null,
    Bool(bool),
    /// A number, held as its canonical decimal text.
    Number(String),
    String(String),
    List(Vec<SpecValue>),
    /// A nested text-keyed map.
    Dict(StrMap<SpecValue>),
}

/// The canonical, versioned build intent.
#[derive(Debug, PartialEq)]
pub struct PublishSpec {
    pub version: u32,
    pub provider_id: String,
    pub project_path: String,
    pub parameters: StrMap<SpecValue>,
}

impl PublishSpec {
    /// A spec of the current version with no provider, path or parameter.
    pub fn empty() -> (r: PublishSpec)
        ensures
            r.version == SPEC_VERSION,
            r.provider_id@.len() == 0,
            r.project_path@.len() == 0,
            r.parameters@.len() == 0,
            r.parameters.wf(),
    {
        PublishSpec {
            version: SPEC_VERSION,
            provider_id: String::new(),
            project_path: String::new(),
            parameters: StrMap::new(),
        }
    }
}

/// A copy of `v`, as deep as `v`.
pub fn copy_value(v: &SpecValue) -> (r: SpecValue)
    ensures
        val_of(r) == val_of(*v),
    decreases v,
{
    match v {
        SpecValue::Null => SpecValue::Null,
        SpecValue::Bool(b) => SpecValue::Bool(*b),
        SpecValue::Number(n) => SpecValue::Number(n.clone()),
        SpecValue::String(s) => SpecValue::String(s.clone()),
        SpecValue::List(items) => {
            let mut out: Vec<SpecValue> = Vec::new();
            let mut i: usize = 0;
            while i < items.len()
                invariant
                    *v == SpecValue::List(*items),
                    i <= items@.len(),
                    leaves_of(out@) == leaves_of(items@.subrange(0, i as int)),
                decreases items@.len() - i,
            {
                proof {
                    let w = v->List_0;
                    assert(decreases_to!(*v => w));
                    assert(decreases_to!(w => w@));
                    assert(decreases_to!(w@ => w@[i as int]));
                }
                let c = copy_value(&items[i]);
                let ghost prev = out@;
                out.push(c);
                assert(leaves_of(out@) =~= leaves_of(prev).push(leaf_of(c)));
                assert(leaves_of(items@.subrange(0, i + 1)) =~= leaves_of(items@.subrange(0, i as int)).push(
                    leaf_of(items@[i as int]),
                ));
                i = i + 1;
            }
            assert(items@.subrange(0, items@.len() as int) =~= items@);
            SpecValue::List(out)
        },
        SpecValue::Dict(m) => {
            proof {
                let w = v->Dict_0;
                assert(decreases_to!(*v => w));
            }
            SpecValue::Dict(copy_map(m))
        },
    }
}

/// A copy of `m`, each value copied as deep as it goes.
pub fn copy_map(m: &StrMap<SpecValue>) -> (r: StrMap<SpecValue>)
    ensures
        params_model(r@) == params_model(m@),
        leaf_entries(r@) == leaf_entries(m@),
        m.wf() ==> r.wf(),
    decreases m,
{
    let mut out: StrMap<SpecValue> = StrMap::new();
    let mut i: usize = 0;
    while i < m.len()
        invariant
            i <= m@.len(),
            out@.len() == i,
            forall|j: int| 0 <= j < i ==> (#[trigger] out@[j]).0 == m@[j].0 && val_of(out@[j].1) == val_of(m@[j].1),
            m.wf() ==> out.wf(),
        decreases m@.len() - i,
    {
        proof {
            lemma_value_decreases(*m, i as int);
        }
        let c = copy_value(m.value_at(i));
        proof {
            if m.wf() {
                assert forall|j: int| 0 <= j < out@.len() implies lex_lt(#[trigger] out@[j].0, m@[i as int].0) by {
                    assert(lex_lt(m@[j].0, m@[i as int].0));
                }
            }
        }
        out.push_new(m.key_at(i).clone(), c);
        i = i + 1;
    }
    assert(params_model(out@) =~= params_model(m@));
    assert forall|j: int| 0 <= j < out@.len() implies leaf_of(#[trigger] out@[j].1) == leaf_of(m@[j].1) by {
        assert(val_of(out@[j].1) == val_of(m@[j].1));
    }
    assert(leaf_entries(out@) =~= leaf_entries(m@));
    out
}

impl PublishSpec {
    /// A copy of this spec.
    pub fn duplicate(&self) -> (r: PublishSpec)
        ensures
            r.version == self.version,
            r.provider_id@ == self.provider_id@,
            r.project_path@ == self.project_path@,
            params_model(r.parameters@) == params_model(self.parameters@),
            self.parameters.wf() ==> r.parameters.wf(),
    {
        PublishSpec {
            version: self.version,
            provider_id: self.provider_id.clone(),
            project_path: self.project_path.clone(),
            parameters: copy_map(&self.parameters),
        }
    }
}

/// What a value nested in a list or a map looks like to contracts.
pub enum Leaf {
    Null,
    Bool(bool),
    Number(Seq<char>),
    Text(Seq<char>),
    /// A list or a map.
    Nested,
}

/// What a parameter value looks like to contracts: its scalars as text,
/// and one level of nesting.
pub enum Val {
    Null,
    Bool(bool),
    Number(Seq<char>),
    Text(Seq<char>),
    List(Seq<Leaf>),
    Dict(Seq<(Seq<char>, Leaf)>),
}

pub open spec fn leaf_of(v: SpecValue) -> Leaf {
    match v {
        SpecValue::Null => Leaf::Null,
        SpecValue::Bool(b) => Leaf::Bool(b),
        SpecValue::Number(n) => Leaf::Number(n@),
        SpecValue::String(s) => Leaf::Text(s@),
        SpecValue::List(_) => Leaf::Nested,
        SpecValue::Dict(_) => Leaf::Nested,
    }
}

pub open spec fn leaves_of(items: Seq<SpecValue>) -> Seq<Leaf> {
    items.map_values(|x: SpecValue| leaf_of(x))
}

pub open spec fn leaf_entries(m: Seq<(Seq<char>, SpecValue)>) -> Seq<(Seq<char>, Leaf)> {
    m.map_values(|e: (Seq<char>, SpecValue)| (e.0, leaf_of(e.1)))
}

pub open spec fn val_of(v: SpecValue) -> Val {
    match v {
        SpecValue::Null => Val::Null,
        SpecValue::Bool(b) => Val::Bool(b),
        SpecValue::Number(n) => Val::Number(n@),
        SpecValue::String(s) => Val::Text(s@),
        SpecValue::List(items) => Val::List(leaves_of(items@)),
        SpecValue::Dict(m) => Val::Dict(leaf_entries(m@)),
    }
}

/// A parameter map as contracts see it.
pub open spec fn params_model(m: Seq<(Seq<char>, SpecValue)>) -> Seq<(Seq<char>, Val)> {
    m.map_values(|e: (Seq<char>, SpecValue)| (e.0, val_of(e.1)))
}

} // verus!

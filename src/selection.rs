//! Which providers an environment check covers, and the key under which
//! its result is cached.

use vstd::prelude::*;
use crate::text::{push_char, push_str, to_chars, string_of, trim_bounds, trim, views, lex_lt, lemma_lex_total, lemma_lex_transitive, text_lt};

verus! {

/// Strictly increasing in text order: sorted, each once.
pub open spec fn strictly_sorted(v: Seq<Seq<char>>) -> bool {
    forall|i: int, j: int| 0 <= i < j < v.len() ==> lex_lt(#[trigger] v[i], #[trigger] v[j])
}

/// The trimmed, non-empty ids among `ids`.
pub open spec fn named_in(ids: Seq<Seq<char>>, x: Seq<char>) -> bool {
    x.len() > 0 && exists|i: int| 0 <= i < ids.len() && #[trigger] trim(ids[i]) == x
}

/// The providers checked by default, in text order.
pub open spec fn default_provider_ids() -> Seq<Seq<char>> {
    seq!["cargo"@, "dotnet"@, "go"@, "java"@]
}

/// Inserts `x` into a strictly sorted list unless it is there already.
fn insert_sorted(v: &mut Vec<String>, x: String)
    requires
        strictly_sorted(views(old(v)@)),
    ensures
        strictly_sorted(views(final(v)@)),
        forall|y: Seq<char>| views(final(v)@).contains(y) <==> (views(old(v)@).contains(y) || y == x@),
{
    let xc = to_chars(x.as_str());
    let n = v.len();
    let mut p: usize = 0;
    while p < n && text_lt(&to_chars(v[p].as_str()), &xc)
        invariant
            n == v@.len(),
            p <= n,
            xc@ == x@,
            forall|i: int| 0 <= i < p ==> lex_lt(#[trigger] views(v@)[i], x@),
        decreases n - p,
    {
        p = p + 1;
    }
    let ghost old_v = views(v@);
    if p < n && same(&v[p], &x) {
        assert(old_v[p as int] == x@);
        assert forall|y: Seq<char>| old_v.contains(y) || y == x@ implies old_v.contains(y) by {
            if y == x@ {
                assert(old_v[p as int] == y);
            }
        }
        return;
    }
    proof {
        if p < n {
            lemma_lex_total(old_v[p as int], x@);
            assert(lex_lt(x@, old_v[p as int]));
            assert forall|k: int| p <= k < n implies lex_lt(x@, #[trigger] old_v[k]) by {
                if k > p {
                    lemma_lex_transitive(x@, old_v[p as int], old_v[k]);
                }
            }
        }
    }
    v.insert(p, x);
    let ghost nv = views(v@);
    assert(nv =~= old_v.subrange(0, p as int).push(x@) + old_v.subrange(p as int, n as int));
    assert forall|i: int, j: int| 0 <= i < j < nv.len() implies lex_lt(#[trigger] nv[i], #[trigger] nv[j]) by {
        if j < p {
            assert(nv[i] == old_v[i] && nv[j] == old_v[j]);
        } else if j == p {
            assert(nv[i] == old_v[i] && nv[j] == x@);
        } else if i == p {
            assert(nv[j] == old_v[j - 1]);
            assert(lex_lt(x@, old_v[j - 1]));
        } else if i < p {
            assert(nv[i] == old_v[i] && nv[j] == old_v[j - 1]);
            assert(lex_lt(x@, old_v[j - 1]));
            lemma_lex_transitive(old_v[i], x@, old_v[j - 1]);
        } else {
            assert(nv[i] == old_v[i - 1] && nv[j] == old_v[j - 1]);
        }
    }
    assert forall|y: Seq<char>| nv.contains(y) <==> (old_v.contains(y) || y == x@) by {
        if nv.contains(y) {
            let k = choose|k: int| 0 <= k < nv.len() && nv[k] == y;
            if k < p {
                assert(old_v[k] == y);
            } else if k > p {
                assert(old_v[k - 1] == y);
            }
        }
        if old_v.contains(y) {
            let k = choose|k: int| 0 <= k < old_v.len() && old_v[k] == y;
            if k < p {
                assert(nv[k] == y);
            } else {
                assert(nv[k + 1] == y);
            }
        }
        if y == x@ {
            assert(nv[p as int] == y);
        }
    }
}

/// Whether two strings hold the same text.
fn same(a: &String, b: &String) -> (r: bool)
    ensures
        r == (a@ == b@),
{
    crate::text::same_text(a.as_str(), b.as_str())
}

/// The providers to check: the default four when none are named; else the
/// named ones, trimmed, without empty names or repeats, in text order.
pub fn normalize_provider_ids(provider_ids: Option<Vec<String>>) -> (r: Vec<String>)
    ensures
        strictly_sorted(views(r@)),
        match provider_ids {
            Some(ids) if ids@.len() > 0 => forall|y: Seq<char>| views(r@).contains(y) <==> named_in(views(ids@), y),
            _ => views(r@) == default_provider_ids(),
        },
{
    let ids = match provider_ids {
        Some(ids) if ids.len() > 0 => ids,
        _ => {
            let mut d: Vec<String> = Vec::new();
            d.push("cargo".to_owned());
            d.push("dotnet".to_owned());
            d.push("go".to_owned());
            d.push("java".to_owned());
            proof {
                reveal_strlit("cargo");
                reveal_strlit("dotnet");
                reveal_strlit("go");
                reveal_strlit("java");
            }
            assert(views(d@) =~= default_provider_ids());
            assert(lex_lt("cargo"@, "dotnet"@));
            assert(lex_lt("dotnet"@, "go"@));
            assert(lex_lt("go"@, "java"@));
            proof {
                lemma_lex_transitive("cargo"@, "dotnet"@, "go"@);
                lemma_lex_transitive("dotnet"@, "go"@, "java"@);
                lemma_lex_transitive("cargo"@, "go"@, "java"@);
            }
            return d;
        },
    };
    let ghost names = views(ids@);
    let mut out: Vec<String> = Vec::new();
    let mut i: usize = 0;
    while i < ids.len()
        invariant
            i <= ids@.len(),
            names == views(ids@),
            strictly_sorted(views(out@)),
            forall|y: Seq<char>| views(out@).contains(y) <==> named_in(names.subrange(0, i as int), y),
        decreases ids.len() - i,
    {
        let cs = to_chars(ids[i].as_str());
        assert(cs@.subrange(0, cs@.len() as int) =~= cs@);
        let (a, b) = trim_bounds(cs.as_slice(), 0, cs.len());
        let ghost before = views(out@);
        let ghost t = trim(names[i as int]);
        if a < b {
            let id = string_of(cs.as_slice(), a, b);
            insert_sorted(&mut out, id);
        }
        assert forall|y: Seq<char>| views(out@).contains(y) <==> named_in(names.subrange(0, i + 1), y) by {
            let pre = names.subrange(0, i as int);
            let pre1 = names.subrange(0, i + 1);
            if named_in(pre1, y) {
                let k = choose|k: int| 0 <= k < pre1.len() && #[trigger] trim(pre1[k]) == y;
                if k < i {
                    assert(pre[k] == pre1[k]);
                    assert(named_in(pre, y));
                }
            }
            if named_in(pre, y) {
                let k = choose|k: int| 0 <= k < pre.len() && #[trigger] trim(pre[k]) == y;
                assert(pre1[k] == pre[k]);
            }
            if y == t && y.len() > 0 {
                assert(pre1[i as int] == names[i as int]);
            }
        }
        i = i + 1;
    }
    assert(names.subrange(0, ids@.len() as int) =~= names);
    out
}

/// `ids` joined by commas.
pub open spec fn comma_joined(ids: Seq<Seq<char>>) -> Seq<char>
    decreases ids.len(),
{
    if ids.len() == 0 {
        Seq::empty()
    } else if ids.len() == 1 {
        ids[0]
    } else {
        comma_joined(ids.drop_last()) + seq![','] + ids.last()
    }
}

/// The cache key of a check over `provider_ids`: the ids joined by commas.
pub fn make_cache_key(provider_ids: &Vec<String>) -> (r: String)
    ensures
        r@ == comma_joined(views(provider_ids@)),
{
    let mut key = String::new();
    let mut i: usize = 0;
    while i < provider_ids.len()
        invariant
            i <= provider_ids@.len(),
            key@ == comma_joined(views(provider_ids@.subrange(0, i as int))),
        decreases provider_ids.len() - i,
    {
        let ghost pre = views(provider_ids@.subrange(0, i + 1));
        assert(pre.drop_last() =~= views(provider_ids@.subrange(0, i as int)));
        if i > 0 {
            push_char(&mut key, ',');
        } else {
            assert(key@ =~= Seq::<char>::empty());
        }
        push_str(&mut key, provider_ids[i].as_str());
        if i == 0 {
            assert(key@ =~= pre[0]);
        } else {
            assert(key@ =~= comma_joined(pre.drop_last()) + seq![','] + pre.last());
        }
        i = i + 1;
    }
    assert(provider_ids@.subrange(0, provider_ids@.len() as int) =~= provider_ids@);
    key
}

} // verus!

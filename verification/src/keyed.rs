//! Small string-keyed tables held as vectors of `(key, value)` pairs.
//!
//! Inserting a key that is already present replaces its value in place, so the
//! keys of a table stay distinct and the table behaves as a map.
use vstd::prelude::*;
use vstd::string::*;

verus! {

/// The map that a list of pairs stands for: later pairs win over earlier ones.
pub open spec fn keyed_map<V>(e: Seq<(String, V)>) -> Map<Seq<char>, V>
    decreases e.len(),
{
    if e.len() == 0 {
        Map::empty()
    } else {
        keyed_map(e.drop_last()).insert(e.last().0@, e.last().1)
    }
}

/// No key occurs twice.
pub open spec fn distinct_keys<V>(e: Seq<(String, V)>) -> bool {
    forall|i: int, j: int| 0 <= i < j < e.len() ==> #[trigger] e[i].0@ != #[trigger] e[j].0@
}

/// The keys, in order.
pub open spec fn key_seq<V>(e: Seq<(String, V)>) -> Seq<Seq<char>> {
    Seq::new(e.len(), |i: int| e[i].0@)
}

pub proof fn lemma_keyed_map_domain<V>(e: Seq<(String, V)>, k: Seq<char>)
    ensures
        keyed_map(e).contains_key(k) <==> exists|i: int| 0 <= i < e.len() && e[i].0@ == k,
    decreases e.len(),
{
    if e.len() > 0 {
        let t = e.drop_last();
        lemma_keyed_map_domain(t, k);
        if keyed_map(t).contains_key(k) {
            let i = choose|i: int| 0 <= i < t.len() && t[i].0@ == k;
            assert(e[i] == t[i]);
        }
        if exists|i: int| 0 <= i < e.len() && e[i].0@ == k {
            let i = choose|i: int| 0 <= i < e.len() && e[i].0@ == k;
            if i < e.len() - 1 {
                assert(t[i] == e[i]);
            }
        }
    }
}

pub proof fn lemma_keyed_map_value<V>(e: Seq<(String, V)>, i: int)
    requires
        distinct_keys(e),
        0 <= i < e.len(),
    ensures
        keyed_map(e).contains_key(e[i].0@),
        keyed_map(e)[e[i].0@] == e[i].1,
    decreases e.len(),
{
    if i < e.len() - 1 {
        let t = e.drop_last();
        assert(t[i] == e[i]);
        assert(distinct_keys(t)) by {
            assert forall|a: int, b: int| 0 <= a < b < t.len() implies #[trigger] t[a].0@ != #[trigger] t[b].0@ by {
                assert(t[a] == e[a] && t[b] == e[b]);
            }
        }
        lemma_keyed_map_value(t, i);
        assert(e[i].0@ != e[e.len() - 1].0@);
    }
}

pub proof fn lemma_keyed_map_update<V>(e: Seq<(String, V)>, i: int, k: String, v: V)
    requires
        distinct_keys(e),
        0 <= i < e.len(),
        e[i].0@ == k@,
    ensures
        keyed_map(e.update(i, (k, v))) =~= keyed_map(e).insert(k@, v),
        distinct_keys(e.update(i, (k, v))),
    decreases e.len(),
{
    let u = e.update(i, (k, v));
    assert(distinct_keys(u)) by {
        assert forall|a: int, b: int| 0 <= a < b < u.len() implies #[trigger] u[a].0@ != #[trigger] u[b].0@ by {
            assert(e[a].0@ != e[b].0@);
        }
    }
    let t = e.drop_last();
    if i == e.len() - 1 {
        assert(u.drop_last() =~= t);
    } else {
        assert(distinct_keys(t)) by {
            assert forall|a: int, b: int| 0 <= a < b < t.len() implies #[trigger] t[a].0@ != #[trigger] t[b].0@ by {
                assert(t[a] == e[a] && t[b] == e[b]);
            }
        }
        lemma_keyed_map_update(t, i, k, v);
        assert(u.drop_last() =~= t.update(i, (k, v)));
        assert(e.last().0@ != k@) by {
            assert(e[i].0@ != e[e.len() - 1].0@);
        }
    }
}

pub proof fn lemma_keyed_map_push<V>(e: Seq<(String, V)>, k: String, v: V)
    requires
        distinct_keys(e),
        forall|i: int| 0 <= i < e.len() ==> e[i].0@ != k@,
    ensures
        keyed_map(e.push((k, v))) =~= keyed_map(e).insert(k@, v),
        distinct_keys(e.push((k, v))),
{
    let p = e.push((k, v));
    assert(p.drop_last() =~= e);
    assert forall|a: int, b: int| 0 <= a < b < p.len() implies #[trigger] p[a].0@ != #[trigger] p[b].0@ by {
        if b == e.len() {
            assert(p[a] == e[a]);
        } else {
            assert(p[a] == e[a] && p[b] == e[b]);
        }
    }
}

/// The position of `key` in `e`, if it is there.
pub fn find_key<V>(e: &Vec<(String, V)>, key: &String) -> (res: Option<usize>)
    ensures
        match res {
            Some(i) => i < e@.len() && e@[i as int].0@ == key@,
            None => forall|i: int| 0 <= i < e@.len() ==> e@[i].0@ != key@,
        },
{
    let mut i: usize = 0;
    while i < e.len()
        invariant
            i <= e@.len(),
            forall|j: int| 0 <= j < i ==> e@[j].0@ != key@,
        decreases e@.len() - i,
    {
        if e[i].0 == *key {
            return Some(i);
        }
        i = i + 1;
    }
    None
}

/// Sets `key` to `value`: an existing entry for the key is replaced in place,
/// otherwise the pair is added at the end.
pub fn keyed_insert<V>(e: &mut Vec<(String, V)>, key: String, value: V)
    requires
        distinct_keys(old(e)@),
    ensures
        distinct_keys(final(e)@),
        keyed_map(final(e)@) =~= keyed_map(old(e)@).insert(key@, value),
{
    match find_key(e, &key) {
        Some(i) => {
            proof {
                lemma_keyed_map_update(e@, i as int, key, value);
            }
            e.set(i, (key, value));
        },
        None => {
            proof {
                lemma_keyed_map_push(e@, key, value);
            }
            e.push((key, value));
        },
    }
}

/// The value stored for `key`.
pub fn keyed_get<'a, V>(e: &'a Vec<(String, V)>, key: &str) -> (res: Option<&'a V>)
    requires
        distinct_keys(e@),
    ensures
        res is Some <==> keyed_map(e@).contains_key(key@),
        res is Some ==> *res->0 == keyed_map(e@)[key@],
{
    let k = String::from_str(key);
    proof {
        lemma_keyed_map_domain(e@, key@);
    }
    match find_key(e, &k) {
        Some(i) => {
            proof {
                lemma_keyed_map_value(e@, i as int);
            }
            Some(&e[i].1)
        },
        None => None,
    }
}

} // verus!

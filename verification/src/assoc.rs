//! Lists of named items, read as maps from the names.

use vstd::prelude::*;

verus! {

/// No two items of the list have the same name.
pub open spec fn distinct_keys<V>(pairs: Seq<(Seq<char>, V)>) -> bool {
    forall|i: int, j: int|
        0 <= i < j < pairs.len() ==> (#[trigger] pairs[i]).0 != (#[trigger] pairs[j]).0
}

/// An item of the list has the name `key`.
pub open spec fn has_key<V>(pairs: Seq<(Seq<char>, V)>, key: Seq<char>) -> bool {
    exists|i: int| 0 <= i < pairs.len() && (#[trigger] pairs[i]).0 == key
}

/// Where the item named `key` stands in the list.
pub open spec fn key_index<V>(pairs: Seq<(Seq<char>, V)>, key: Seq<char>) -> int {
    choose|i: int| 0 <= i < pairs.len() && (#[trigger] pairs[i]).0 == key
}

/// The map from each name in the list to the item of that name.
pub open spec fn as_map<V>(pairs: Seq<(Seq<char>, V)>) -> Map<Seq<char>, V> {
    Map::new(
        |key: Seq<char>| has_key(pairs, key),
        |key: Seq<char>| pairs[key_index(pairs, key)].1,
    )
}

/// The empty list is the empty map.
pub proof fn lemma_as_map_empty<V>()
    ensures
        as_map(Seq::<(Seq<char>, V)>::empty()) == Map::<Seq<char>, V>::empty(),
        distinct_keys(Seq::<(Seq<char>, V)>::empty()),
{
    assert(as_map(Seq::<(Seq<char>, V)>::empty()) =~= Map::<Seq<char>, V>::empty());
}

/// The map holds each item of the list under its name.
pub proof fn lemma_as_map_at<V>(pairs: Seq<(Seq<char>, V)>, at: int)
    requires
        distinct_keys(pairs),
        0 <= at < pairs.len(),
    ensures
        as_map(pairs).contains_key(pairs[at].0),
        as_map(pairs)[pairs[at].0] == pairs[at].1,
{
    let key = pairs[at].0;
    assert(has_key(pairs, key));
    let found = key_index(pairs, key);
    assert(0 <= found < pairs.len() && pairs[found].0 == key);
    if found < at {
        assert(pairs[found].0 != pairs[at].0);
    } else if at < found {
        assert(pairs[at].0 != pairs[found].0);
    }
}

/// A name of the map is the name of an item of the list.
pub proof fn lemma_as_map_key<V>(pairs: Seq<(Seq<char>, V)>, key: Seq<char>)
    requires
        as_map(pairs).contains_key(key),
    ensures
        0 <= key_index(pairs, key) < pairs.len(),
        pairs[key_index(pairs, key)].0 == key,
        as_map(pairs)[key] == pairs[key_index(pairs, key)].1,
{
    assert(has_key(pairs, key));
}

/// One more item, under a name that the list does not have yet, is one more
/// entry of the map.
pub proof fn lemma_as_map_push<V>(pairs: Seq<(Seq<char>, V)>, key: Seq<char>, value: V)
    requires
        distinct_keys(pairs),
        !has_key(pairs, key),
    ensures
        distinct_keys(pairs.push((key, value))),
        as_map(pairs.push((key, value))) == as_map(pairs).insert(key, value),
{
    let longer = pairs.push((key, value));
    assert forall|i: int, j: int| 0 <= i < j < longer.len() implies (#[trigger] longer[i]).0 != (
    #[trigger] longer[j]).0 by {
        assert(longer[i] == pairs[i]);
        if j < pairs.len() {
            assert(longer[j] == pairs[j]);
        }
    }
    assert forall|name: Seq<char>| #[trigger]
        as_map(longer).contains_key(name) <==> as_map(pairs).insert(key, value).contains_key(
            name,
        ) by {
        if has_key(longer, name) {
            let i = key_index(longer, name);
            if i < pairs.len() {
                assert(pairs[i].0 == name);
            }
        }
        if has_key(pairs, name) {
            let i = key_index(pairs, name);
            assert(longer[i].0 == name);
        }
        if name == key {
            assert(longer[pairs.len() as int].0 == name);
        }
    }
    assert forall|name: Seq<char>| #[trigger] as_map(longer).contains_key(name) implies as_map(
        longer,
    )[name] == as_map(pairs).insert(key, value)[name] by {
        let i = key_index(longer, name);
        assert(has_key(longer, name));
        lemma_as_map_at(longer, i);
        if i < pairs.len() {
            assert(longer[i] == pairs[i]);
            lemma_as_map_at(pairs, i);
        }
    }
    assert(as_map(longer) =~= as_map(pairs).insert(key, value));
}

/// Taking an item out of the list takes its name out of the map.
pub proof fn lemma_as_map_remove<V>(pairs: Seq<(Seq<char>, V)>, at: int)
    requires
        distinct_keys(pairs),
        0 <= at < pairs.len(),
    ensures
        distinct_keys(pairs.remove(at)),
        !has_key(pairs.remove(at), pairs[at].0),
        as_map(pairs.remove(at)) == as_map(pairs).remove(pairs[at].0),
{
    let shorter = pairs.remove(at);
    let key = pairs[at].0;
    assert forall|i: int| 0 <= i < shorter.len() implies (#[trigger] shorter[i]).0 != key by {
        if i < at {
            assert(shorter[i] == pairs[i]);
            assert(pairs[i].0 != pairs[at].0);
        } else {
            assert(shorter[i] == pairs[i + 1]);
            assert(pairs[at].0 != pairs[i + 1].0);
        }
    }
    assert forall|i: int, j: int| 0 <= i < j < shorter.len() implies (#[trigger] shorter[i]).0 != (
    #[trigger] shorter[j]).0 by {
        let before_i = if i < at {
            i
        } else {
            i + 1
        };
        let before_j = if j < at {
            j
        } else {
            j + 1
        };
        assert(shorter[i] == pairs[before_i]);
        assert(shorter[j] == pairs[before_j]);
    }
    assert forall|name: Seq<char>| #[trigger]
        as_map(shorter).contains_key(name) <==> as_map(pairs).remove(key).contains_key(name) by {
        if has_key(shorter, name) {
            let i = key_index(shorter, name);
            let before = if i < at {
                i
            } else {
                i + 1
            };
            assert(shorter[i] == pairs[before]);
            assert(pairs[before].0 == name);
        }
        if has_key(pairs, name) && name != key {
            let i = key_index(pairs, name);
            let after = if i < at {
                i
            } else {
                i - 1
            };
            assert(shorter[after] == pairs[i]);
            assert(shorter[after].0 == name);
        }
    }
    assert forall|name: Seq<char>| #[trigger] as_map(shorter).contains_key(name) implies as_map(
        shorter,
    )[name] == as_map(pairs).remove(key)[name] by {
        let i = key_index(shorter, name);
        assert(has_key(shorter, name));
        lemma_as_map_at(shorter, i);
        let before = if i < at {
            i
        } else {
            i + 1
        };
        assert(shorter[i] == pairs[before]);
        lemma_as_map_at(pairs, before);
    }
    assert(as_map(shorter) =~= as_map(pairs).remove(key));
}

} // verus!

//! Association lists: sequences of keys and values in which no key occurs twice.
use vstd::prelude::*;

verus! {

/// Whether no key occurs twice.
pub open spec fn distinct<K, V>(s: Seq<(K, V)>) -> bool {
    forall|i: int, j: int| 0 <= i < j < s.len() ==> (#[trigger] s[i]).0 != (#[trigger] s[j]).0
}

/// Whether a key occurs at a position.
pub open spec fn holds_at<K, V>(s: Seq<(K, V)>, k: K, i: int) -> bool {
    0 <= i < s.len() && s[i].0 == k
}

/// The map that an association list stands for.
pub open spec fn map_of<K, V>(s: Seq<(K, V)>) -> Map<K, V> {
    Map::new(
        |k: K| exists|i: int| holds_at(s, k, i),
        |k: K| s[choose|i: int| holds_at(s, k, i)].1,
    )
}

/// What is at a position is what the map holds.
pub proof fn lemma_at<K, V>(s: Seq<(K, V)>, i: int)
    requires
        distinct(s),
        0 <= i < s.len(),
    ensures
        map_of(s).contains_key(s[i].0),
        map_of(s)[s[i].0] == s[i].1,
{
    assert(holds_at(s, s[i].0, i));
    let j = choose|j: int| holds_at(s, s[i].0, j);
    assert(holds_at(s, s[i].0, j));
    if j < i {
        assert(s[j].0 != s[i].0);
    } else if i < j {
        assert(s[i].0 != s[j].0);
    }
}

/// A key that is at no position is not in the map.
pub proof fn lemma_absent<K, V>(s: Seq<(K, V)>, k: K)
    requires
        forall|i: int| 0 <= i < s.len() ==> (#[trigger] s[i]).0 != k,
    ensures
        !map_of(s).contains_key(k),
{
}

/// Appending a new key inserts it.
pub proof fn lemma_push<K, V>(s: Seq<(K, V)>, k: K, v: V)
    requires
        distinct(s),
        !map_of(s).contains_key(k),
    ensures
        distinct(s.push((k, v))),
        map_of(s.push((k, v))) == map_of(s).insert(k, v),
{
    let t = s.push((k, v));
    assert forall|i: int, j: int| 0 <= i < j < t.len() implies (#[trigger] t[i]).0 != (
    #[trigger] t[j]).0 by {
        if j == s.len() {
            assert(s[i] == t[i]);
            if s[i].0 == k {
                assert(holds_at(s, k, i));
            }
        } else {
            assert(s[i].0 != s[j].0);
        }
    }
    assert forall|x: K| map_of(t).contains_key(x) == map_of(s).insert(k, v).contains_key(x) by {
        if x == k {
            assert(holds_at(t, k, s.len() as int));
        } else {
            if map_of(t).contains_key(x) {
                let i = choose|i: int| holds_at(t, x, i);
                assert(holds_at(s, x, i));
            }
            if map_of(s).contains_key(x) {
                let i = choose|i: int| holds_at(s, x, i);
                assert(holds_at(t, x, i));
            }
        }
    }
    assert forall|x: K| map_of(t).contains_key(x) implies map_of(t)[x] == map_of(s).insert(
        k,
        v,
    )[x] by {
        let i = choose|i: int| holds_at(t, x, i);
        assert(holds_at(t, x, i));
        lemma_at(t, i);
        if i < s.len() {
            lemma_at(s, i);
            assert(s[i] == t[i]);
        }
    }
    assert(map_of(t) =~= map_of(s).insert(k, v));
}

/// Taking a position out removes its key.
pub proof fn lemma_remove<K, V>(s: Seq<(K, V)>, at: int)
    requires
        distinct(s),
        0 <= at < s.len(),
    ensures
        distinct(s.remove(at)),
        map_of(s.remove(at)) == map_of(s).remove(s[at].0),
{
    let t = s.remove(at);
    assert forall|i: int, j: int| 0 <= i < j < t.len() implies (#[trigger] t[i]).0 != (
    #[trigger] t[j]).0 by {
        let i2 = if i < at {
            i
        } else {
            i + 1
        };
        let j2 = if j < at {
            j
        } else {
            j + 1
        };
        assert(s[i2].0 != s[j2].0);
    }
    assert forall|x: K| map_of(t).contains_key(x) == map_of(s).remove(s[at].0).contains_key(x) by {
        if map_of(t).contains_key(x) {
            let i = choose|i: int| holds_at(t, x, i);
            assert(holds_at(t, x, i));
            let i2 = if i < at {
                i
            } else {
                i + 1
            };
            assert(holds_at(s, x, i2));
            if i2 < at {
                assert(s[i2].0 != s[at].0);
            } else {
                assert(s[at].0 != s[i2].0);
            }
        }
        if map_of(s).contains_key(x) && x != s[at].0 {
            let i = choose|i: int| holds_at(s, x, i);
            assert(holds_at(s, x, i));
            let i2 = if i < at {
                i
            } else {
                i - 1
            };
            assert(holds_at(t, x, i2));
        }
    }
    assert forall|x: K| map_of(t).contains_key(x) implies map_of(t)[x] == map_of(s).remove(
        s[at].0,
    )[x] by {
        let i = choose|i: int| holds_at(t, x, i);
        assert(holds_at(t, x, i));
        lemma_at(t, i);
        let i2 = if i < at {
            i
        } else {
            i + 1
        };
        assert(s[i2] == t[i]);
        lemma_at(s, i2);
    }
    assert(map_of(t) =~= map_of(s).remove(s[at].0));
}

/// Replacing the value at a position replaces the value of its key.
pub proof fn lemma_update<K, V>(s: Seq<(K, V)>, at: int, v: V)
    requires
        distinct(s),
        0 <= at < s.len(),
    ensures
        distinct(s.update(at, (s[at].0, v))),
        map_of(s.update(at, (s[at].0, v))) == map_of(s).insert(s[at].0, v),
{
    let k = s[at].0;
    let t = s.update(at, (k, v));
    assert forall|i: int| 0 <= i < t.len() implies (#[trigger] t[i]).0 == s[i].0 by {}
    assert forall|i: int, j: int| 0 <= i < j < t.len() implies (#[trigger] t[i]).0 != (
    #[trigger] t[j]).0 by {
        assert(s[i].0 != s[j].0);
    }
    assert forall|x: K| map_of(t).contains_key(x) == map_of(s).insert(k, v).contains_key(x) by {
        if map_of(t).contains_key(x) {
            let i = choose|i: int| holds_at(t, x, i);
            assert(holds_at(s, x, i));
        }
        if map_of(s).contains_key(x) {
            let i = choose|i: int| holds_at(s, x, i);
            assert(holds_at(t, x, i));
        }
        if x == k {
            assert(holds_at(t, x, at));
        }
    }
    assert forall|x: K| map_of(t).contains_key(x) implies map_of(t)[x] == map_of(s).insert(
        k,
        v,
    )[x] by {
        let i = choose|i: int| holds_at(t, x, i);
        assert(holds_at(t, x, i));
        lemma_at(t, i);
        lemma_at(s, i);
    }
    assert(map_of(t) =~= map_of(s).insert(k, v));
}

} // verus!

//! Association lists keyed by strings: the lookup helpers shared by the
//! response store and the suspended-session cache.

use vstd::prelude::*;
use vstd::string::*;
use crate::text;

verus! {

/// `i` is the first position carrying key `k`.
pub open spec fn first_key_at<V>(m: Seq<(String, V)>, k: Seq<char>, i: int) -> bool {
    &&& 0 <= i < m.len()
    &&& m[i].0@ == k
    &&& forall|j: int| 0 <= j < i ==> (#[trigger] m[j].0)@ != k
}

/// Some position carries key `k`.
pub open spec fn has_key<V>(m: Seq<(String, V)>, k: Seq<char>) -> bool {
    exists|i: int| 0 <= i < m.len() && (#[trigger] m[i].0)@ == k
}

/// Well-formedness of a keyed list: no two entries carry the same key, so
/// a key identifies at most one entry.
pub open spec fn keys_unique<V>(m: Seq<(String, V)>) -> bool {
    forall|i: int, j: int| 0 <= i < j < m.len()
        ==> (#[trigger] m[i].0)@ != (#[trigger] m[j].0)@
}

/// Overwriting an entry in place with the same key keeps the keys unique.
pub proof fn lemma_update_same_key_unique<V>(m: Seq<(String, V)>, at: int, k: String, v: V)
    requires
        keys_unique(m),
        0 <= at < m.len(),
        m[at].0@ == k@,
    ensures
        keys_unique(m.update(at, (k, v))),
{
    let m2 = m.update(at, (k, v));
    assert forall|i: int, j: int| 0 <= i < j < m2.len()
        implies (#[trigger] m2[i].0)@ != (#[trigger] m2[j].0)@ by {
        assert(m[i].0@ != m[j].0@);
    }
}

/// Appending an entry under a key absent from the list keeps the keys
/// unique.
pub proof fn lemma_push_new_key_unique<V>(m: Seq<(String, V)>, k: String, v: V)
    requires
        keys_unique(m),
        !has_key(m, k@),
    ensures
        keys_unique(m.push((k, v))),
{
    let m2 = m.push((k, v));
    assert forall|i: int, j: int| 0 <= i < j < m2.len()
        implies (#[trigger] m2[i].0)@ != (#[trigger] m2[j].0)@ by {
        if j < m.len() {
            assert(m[i].0@ != m[j].0@);
        } else {
            assert(m2[i] == m[i]);
        }
    }
}

/// Removing an entry keeps the keys unique.
pub proof fn lemma_remove_keeps_unique<V>(m: Seq<(String, V)>, at: int)
    requires
        keys_unique(m),
        0 <= at < m.len(),
    ensures
        keys_unique(m.remove(at)),
{
    let m2 = m.remove(at);
    assert forall|i: int, j: int| 0 <= i < j < m2.len()
        implies (#[trigger] m2[i].0)@ != (#[trigger] m2[j].0)@ by {
        let i0 = if i < at { i } else { i + 1 };
        let j0 = if j < at { j } else { j + 1 };
        assert(m2[i] == m[i0]);
        assert(m2[j] == m[j0]);
        assert(m[i0].0@ != m[j0].0@);
    }
}

/// The position of the first entry carrying key `k`; the length when none
/// does.
pub open spec fn key_pos<V>(m: Seq<(String, V)>, k: Seq<char>) -> int
    decreases m.len(),
{
    if m.len() == 0 {
        0
    } else if m[0].0@ == k {
        0
    } else {
        1 + key_pos(m.skip(1), k)
    }
}

pub proof fn lemma_key_pos<V>(m: Seq<(String, V)>, k: Seq<char>)
    ensures
        0 <= key_pos(m, k) <= m.len(),
        key_pos(m, k) < m.len() ==> m[key_pos(m, k)].0@ == k
            && (forall|j: int| 0 <= j < key_pos(m, k) ==> (#[trigger] m[j].0)@ != k),
        key_pos(m, k) == m.len() ==> !has_key(m, k),
    decreases m.len(),
{
    if m.len() > 0 && m[0].0@ != k {
        lemma_key_pos(m.skip(1), k);
        assert forall|j: int| 0 <= j < key_pos(m, k) implies (#[trigger] m[j].0)@ != k by {
            if j > 0 {
                assert(m.skip(1)[j - 1] == m[j]);
            }
        }
        if key_pos(m, k) == m.len() {
            assert forall|i: int| 0 <= i < m.len() implies (#[trigger] m[i].0)@ != k by {
                if i > 0 {
                    assert(m.skip(1)[i - 1] == m[i]);
                }
            }
        }
    }
}

/// The position of the first entry carrying key `k`, when one exists.
pub fn find_key<V>(m: &Vec<(String, V)>, k: &str) -> (r: Option<usize>)
    ensures
        match r {
            Some(i) => first_key_at(m@, k@, i as int) && i as int == key_pos(m@, k@),
            None => !has_key(m@, k@) && key_pos(m@, k@) == m@.len(),
        },
{
    proof {
        lemma_key_pos(m@, k@);
    }
    let n = m.len();
    for i in 0..n
        invariant
            n == m@.len(),
            forall|j: int| 0 <= j < i ==> (#[trigger] m@[j].0)@ != k@,
    {
        if text::str_eq(m[i].0.as_str(), k) {
            proof {
                lemma_key_pos(m@, k@);
                if key_pos(m@, k@) < i as int {
                    assert(m@[key_pos(m@, k@)].0@ == k@);
                }
                if key_pos(m@, k@) > i as int {
                }
            }
            return Some(i);
        }
    }
    proof {
        lemma_key_pos(m@, k@);
        if key_pos(m@, k@) < m@.len() {
            assert(m@[key_pos(m@, k@)].0@ == k@);
        }
    }
    None
}

} // verus!

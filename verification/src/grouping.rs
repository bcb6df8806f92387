//! Order-preserving grouping of `(key, value)` pairs.
//!
//! Both lookup tables are built with the same accumulation pattern: walk the
//! reported pairs in their given order and, for each, ensure an entry exists
//! for the key (insert-if-absent) and append the value to that entry. Keys
//! appear in first-occurrence order, and each key's values keep the order in
//! which they were reported.

use vstd::prelude::*;

verus! {

/// `m` with `v` appended to the entry of key `k`, the entry being created at
/// the end if `k` has none yet.
pub open spec fn insert_pair<V>(m: Seq<(u64, Seq<V>)>, k: u64, v: V) -> Seq<(u64, Seq<V>)>
    decreases m.len(),
{
    if m.len() == 0 {
        seq![(k, seq![v])]
    } else if m[0].0 == k {
        seq![(k, m[0].1.push(v))] + m.drop_first()
    } else {
        seq![m[0]] + insert_pair(m.drop_first(), k, v)
    }
}

/// The grouped form of `pairs`: each pair folded in with [`insert_pair`], in
/// the order the pairs were given.
pub open spec fn group_pairs<V>(pairs: Seq<(u64, V)>) -> Seq<(u64, Seq<V>)>
    decreases pairs.len(),
{
    if pairs.len() == 0 {
        Seq::empty()
    } else {
        insert_pair(group_pairs(pairs.drop_last()), pairs.last().0, pairs.last().1)
    }
}

/// The values paired with key `k`, in the order they occur in `pairs`.
pub open spec fn values_of_key<V>(pairs: Seq<(u64, V)>, k: u64) -> Seq<V>
    decreases pairs.len(),
{
    if pairs.len() == 0 {
        Seq::empty()
    } else {
        values_of_key(pairs.drop_last(), k) + if pairs.last().0 == k {
            seq![pairs.last().1]
        } else {
            Seq::empty()
        }
    }
}

/// Whether some pair of `m` carries key `k`.
pub open spec fn contains_key<V>(m: Seq<(u64, V)>, k: u64) -> bool {
    exists|i: int| 0 <= i < m.len() && m[i].0 == k
}

/// The value of the first pair of `m` that carries key `k`, if any.
pub open spec fn lookup<V>(m: Seq<(u64, V)>, k: u64) -> Option<V>
    decreases m.len(),
{
    if m.len() == 0 {
        None
    } else {
        match lookup(m.drop_last(), k) {
            Some(v) => Some(v),
            None => if m.last().0 == k {
                Some(m.last().1)
            } else {
                None
            },
        }
    }
}

/// Without a pair carrying `k`, [`lookup`] finds nothing.
pub proof fn lemma_lookup_none<V>(m: Seq<(u64, V)>, k: u64)
    requires
        forall|l: int| 0 <= l < m.len() ==> m[l].0 != k,
    ensures
        lookup(m, k) is None,
    decreases m.len(),
{
    if m.len() > 0 {
        assert(forall|l: int| 0 <= l < m.len() - 1 ==> m.drop_last()[l] == m[l]);
        lemma_lookup_none(m.drop_last(), k);
    }
}

/// [`lookup`] returns the value at the first position carrying `k`.
pub proof fn lemma_lookup_first<V>(m: Seq<(u64, V)>, k: u64, f: int)
    requires
        0 <= f < m.len(),
        m[f].0 == k,
        forall|l: int| 0 <= l < f ==> m[l].0 != k,
    ensures
        lookup(m, k) == Some(m[f].1),
    decreases m.len(),
{
    assert(forall|l: int| 0 <= l < m.len() - 1 ==> m.drop_last()[l] == m[l]);
    if f < m.len() - 1 {
        lemma_lookup_first(m.drop_last(), k, f);
    } else {
        lemma_lookup_none(m.drop_last(), k);
    }
}

/// Finds the first pair carrying key `k` and borrows its value.
pub fn lookup_ref<'a, V: DeepView>(m: &'a Vec<(u64, V)>, k: u64) -> (r: Option<&'a V>)
    ensures
        match r {
            Some(v) => lookup(m.deep_view(), k) == Some(v.deep_view()),
            None => lookup(m.deep_view(), k) is None,
        },
{
    let ghost mdv = m.deep_view();
    let mut j: usize = 0;
    let mut found: Option<usize> = None;
    while j < m.len()
        invariant
            0 <= j <= m@.len(),
            mdv == m.deep_view(),
            match found {
                Some(f) => f < j && m@[f as int].0 == k && forall|l: int|
                    0 <= l < f ==> m@[l].0 != k,
                None => forall|l: int| 0 <= l < j ==> m@[l].0 != k,
            },
        decreases m@.len() - j,
    {
        if found.is_none() && m[j].0 == k {
            found = Some(j);
        }
        j = j + 1;
    }
    proof {
        assert(mdv.len() == m@.len());
        assert(forall|l: int| 0 <= l < m@.len() ==> mdv[l] == #[trigger] m@[l].deep_view());
        assert(forall|l: int| 0 <= l < m@.len() ==> #[trigger] mdv[l].0 == m@[l].0);
    }
    match found {
        Some(f) => {
            proof {
                lemma_lookup_first(mdv, k, f as int);
                assert(mdv[f as int].1 == m@[f as int].1.deep_view());
            }
            Some(&m[f].1)
        },
        None => {
            proof {
                lemma_lookup_none(mdv, k);
            }
            None
        },
    }
}

/// When `k` already has an entry, [`insert_pair`] only appends `v` to the
/// values of that entry; every other entry is untouched.
proof fn lemma_insert_pair_found<V>(m: Seq<(u64, Seq<V>)>, k: u64, v: V, j: int)
    requires
        0 <= j < m.len(),
        m[j].0 == k,
        forall|l: int| 0 <= l < j ==> m[l].0 != k,
    ensures
        insert_pair(m, k, v) == m.update(j, (k, m[j].1.push(v))),
    decreases j,
{
    if j == 0 {
        assert(insert_pair(m, k, v) =~~= m.update(0, (k, m[0].1.push(v))));
    } else {
        lemma_insert_pair_found(m.drop_first(), k, v, j - 1);
        assert(seq![m[0]] + m.drop_first().update(j - 1, (k, m[j].1.push(v))) =~~= m.update(
            j,
            (k, m[j].1.push(v)),
        ));
    }
}

/// When `k` has no entry yet, [`insert_pair`] appends a fresh entry at the
/// end and leaves the rest of `m` as it was.
proof fn lemma_insert_pair_missing<V>(m: Seq<(u64, Seq<V>)>, k: u64, v: V)
    requires
        forall|l: int| 0 <= l < m.len() ==> m[l].0 != k,
    ensures
        insert_pair(m, k, v) == m.push((k, seq![v])),
    decreases m.len(),
{
    if m.len() == 0 {
        assert(insert_pair(m, k, v) =~~= m.push((k, seq![v])));
    } else {
        lemma_insert_pair_missing(m.drop_first(), k, v);
        assert(seq![m[0]] + m.drop_first().push((k, seq![v])) =~~= m.push((k, seq![v])));
    }
}

/// A key that occurs nowhere in `pairs` has no values.
proof fn lemma_values_of_missing_key<V>(pairs: Seq<(u64, V)>, k: u64)
    requires
        !contains_key(pairs, k),
    ensures
        values_of_key(pairs, k) == Seq::<V>::empty(),
    decreases pairs.len(),
{
    if pairs.len() > 0 {
        assert(!contains_key(pairs.drop_last(), k)) by {
            assert(forall|i: int|
                0 <= i < pairs.len() - 1 ==> pairs.drop_last()[i] == pairs[i]);
        }
        lemma_values_of_missing_key(pairs.drop_last(), k);
        assert(values_of_key(pairs, k) =~= Seq::<V>::empty());
    }
}

/// What grouping promises: the keys of `group_pairs(pairs)` are distinct and
/// are exactly the keys occurring in `pairs`, and the entry of each key holds
/// exactly the values reported for it, in their reported order.
pub proof fn lemma_group_pairs_complete<V>(pairs: Seq<(u64, V)>)
    ensures
        forall|j: int, l: int|
            0 <= j < l < group_pairs(pairs).len() ==> group_pairs(pairs)[j].0 != group_pairs(
                pairs,
            )[l].0,
        forall|j: int|
            0 <= j < group_pairs(pairs).len() ==> #[trigger] group_pairs(pairs)[j].1
                == values_of_key(pairs, group_pairs(pairs)[j].0),
        forall|k: u64| contains_key(group_pairs(pairs), k) <==> contains_key(pairs, k),
    decreases pairs.len(),
{
    if pairs.len() == 0 {
    } else {
        let prefix = pairs.drop_last();
        let k = pairs.last().0;
        let v = pairs.last().1;
        let g = group_pairs(prefix);
        let g2 = group_pairs(pairs);
        lemma_group_pairs_complete(prefix);
        assert(forall|i: int| 0 <= i < prefix.len() ==> prefix[i] == pairs[i]);
        assert(forall|k2: u64| contains_key(prefix, k2) ==> contains_key(pairs, k2)) by {
            assert forall|k2: u64| contains_key(prefix, k2) implies contains_key(
                pairs,
                k2,
            ) by {
                let i = choose|i: int| 0 <= i < prefix.len() && prefix[i].0 == k2;
                assert(pairs[i].0 == k2);
            }
        }
        assert(contains_key(pairs, k)) by {
            assert(pairs[pairs.len() - 1].0 == k);
        }
        assert(forall|k2: u64| k2 != k ==> values_of_key(pairs, k2) =~= values_of_key(prefix, k2));
        assert(values_of_key(pairs, k) =~= values_of_key(prefix, k).push(v));
        if contains_key(g, k) {
            let j = choose|j: int| 0 <= j < g.len() && g[j].0 == k;
            assert(forall|l: int| 0 <= l < j ==> g[l].0 != k);
            lemma_insert_pair_found(g, k, v, j);
            assert(g2 == g.update(j, (k, g[j].1.push(v))));
            assert(forall|i: int| 0 <= i < g2.len() ==> #[trigger] g2[i].0 == g[i].0);
            // every key of the result occurs in `pairs`
            assert forall|k2: u64| contains_key(g2, k2) implies contains_key(pairs, k2) by {
                let i = choose|i: int| 0 <= i < g2.len() && g2[i].0 == k2;
                assert(g[i].0 == k2);
                assert(contains_key(prefix, k2));
            }
            // every key of `pairs` occurs in the result
            assert forall|k2: u64| contains_key(pairs, k2) implies contains_key(g2, k2) by {
                if k2 == k {
                    assert(g2[j].0 == k);
                } else {
                    let i = choose|i: int| 0 <= i < pairs.len() && pairs[i].0 == k2;
                    assert(pairs[pairs.len() - 1].0 == k);
                    assert(i != pairs.len() - 1);
                    assert(prefix[i].0 == k2);
                    assert(contains_key(prefix, k2));
                    assert(contains_key(g, k2));
                    let i2 = choose|i2: int| 0 <= i2 < g.len() && g[i2].0 == k2;
                    assert(g2[i2].0 == k2);
                }
            }
            // the entry of each key holds exactly that key's values
            assert forall|i: int| 0 <= i < g2.len() implies #[trigger] g2[i].1 == values_of_key(
                pairs,
                g2[i].0,
            ) by {
                if i == j {
                    assert(g2[i].1 =~= values_of_key(prefix, k).push(v));
                } else {
                    assert(g[i].0 != k);
                }
            }
        } else {
            lemma_insert_pair_missing(g, k, v);
            assert(g2 == g.push((k, seq![v])));
            assert(!contains_key(prefix, k));
            assert(values_of_key(prefix, k) == Seq::<V>::empty()) by {
                lemma_values_of_missing_key(prefix, k);
            }
            assert(forall|i: int| 0 <= i < g.len() ==> #[trigger] g2[i] == g[i]);
            assert(g2[g.len() as int] == (k, seq![v]));
            assert forall|k2: u64| contains_key(g2, k2) implies contains_key(pairs, k2) by {
                let i = choose|i: int| 0 <= i < g2.len() && g2[i].0 == k2;
                if i < g.len() {
                    assert(g[i].0 == k2);
                    assert(contains_key(prefix, k2));
                }
            }
            assert forall|k2: u64| contains_key(pairs, k2) implies contains_key(g2, k2) by {
                if k2 == k {
                    assert(g2[g.len() as int].0 == k);
                } else {
                    let i = choose|i: int| 0 <= i < pairs.len() && pairs[i].0 == k2;
                    assert(pairs[pairs.len() - 1].0 == k);
                    assert(i != pairs.len() - 1);
                    assert(prefix[i].0 == k2);
                    assert(contains_key(prefix, k2));
                    assert(contains_key(g, k2));
                    let i2 = choose|i2: int| 0 <= i2 < g.len() && g[i2].0 == k2;
                    assert(g2[i2].0 == k2);
                }
            }
            assert forall|i: int| 0 <= i < g2.len() implies #[trigger] g2[i].1 == values_of_key(
                pairs,
                g2[i].0,
            ) by {
                if i < g.len() {
                    assert(g[i].0 != k);
                } else {
                    assert(g2[i].1 =~= values_of_key(prefix, k).push(v));
                }
            }
        }
    }
}

/// Groups the pairs by key, keeping both orders: keys in first-occurrence
/// order, and each key's values in the order they were reported.
pub fn group_by_key<V: DeepView>(pairs: Vec<(u64, V)>) -> (r: Vec<(u64, Vec<V>)>)
    ensures
        r.deep_view() == group_pairs(pairs.deep_view()),
{
    let ghost all = pairs.deep_view();
    let mut rest = pairs;
    let mut r: Vec<(u64, Vec<V>)> = Vec::new();
    let ghost mut done: int = 0;
    while rest.len() > 0
        invariant
            0 <= done <= all.len(),
            rest.deep_view() =~= all.skip(done),
            r.deep_view() == group_pairs(all.take(done)),
        decreases rest.len(),
    {
        let ghost rest0 = rest@;
        let ghost rest_dv0 = rest.deep_view();
        proof {
            assert(rest_dv0.len() == rest0.len());
            assert(all.skip(done).len() == all.len() - done);
        }
        let (k, v) = rest.remove(0);
        let ghost vdv = v.deep_view();
        proof {
            assert(rest0[0] == (k, v));
            assert(rest_dv0[0] == rest0[0].deep_view());
            assert(rest0[0].deep_view() == (k, vdv));
            assert(all[done] == (k, vdv));
            assert(forall|i: int| 0 <= i < rest@.len() ==> rest@[i] == rest0[i + 1]);
            assert forall|i: int| 0 <= i < rest.deep_view().len() implies rest.deep_view()[i]
                == all.skip(done + 1)[i] by {
                assert(rest.deep_view()[i] == rest@[i].deep_view());
                assert(rest@[i].deep_view() == rest_dv0[i + 1]);
                assert(rest_dv0[i + 1] == all.skip(done)[i + 1]);
            }
            assert(rest.deep_view() =~= all.skip(done + 1));
        }
        let ghost r_before = r.deep_view();
        let mut j: usize = 0;
        let mut found: Option<usize> = None;
        while j < r.len()
            invariant
                0 <= j <= r.len(),
                r.deep_view() == r_before,
                match found {
                    Some(f) => f < j && r@[f as int].0 == k && forall|l: int|
                        0 <= l < f ==> r@[l].0 != k,
                    None => forall|l: int| 0 <= l < j ==> r@[l].0 != k,
                },
            decreases r.len() - j,
        {
            if found.is_none() && r[j].0 == k {
                found = Some(j);
            }
            j = j + 1;
        }
        proof {
            assert(forall|l: int|
                0 <= l < r@.len() ==> r_before[l].0 == #[trigger] r@[l].0);
        }
        match found {
            Some(f) => {
                let mut entry = r.remove(f);
                entry.1.push(v);
                r.insert(f, entry);
                proof {
                    assert(forall|l: int| 0 <= l < f ==> r_before[l].0 != k);
                    assert(r_before[f as int].0 == k);
                    lemma_insert_pair_found(r_before, k, vdv, f as int);
                    assert(r.deep_view() =~~= r_before.update(
                        f as int,
                        (k, r_before[f as int].1.push(vdv)),
                    ));
                }
            },
            None => {
                let mut values: Vec<V> = Vec::new();
                values.push(v);
                r.push((k, values));
                proof {
                    assert(forall|l: int| 0 <= l < r_before.len() ==> r_before[l].0 != k);
                    lemma_insert_pair_missing(r_before, k, vdv);
                    assert(r.deep_view() =~~= r_before.push((k, seq![vdv])));
                }
            },
        }
        proof {
            assert(all.take(done + 1).drop_last() =~= all.take(done));
            assert(all.take(done + 1).last() == all[done]);
            assert(r.deep_view() == group_pairs(all.take(done + 1)));
            done = done + 1;
        }
    }
    proof {
        assert(all.take(done) =~= all);
    }
    r
}

} // verus!

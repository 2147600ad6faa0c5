//! The aggregator's ordering step: a stable sort, descending by value.

use vstd::prelude::*;
use crate::reading::{lemma_with_value_add, lemma_with_value_none, sorted_desc, with_value, Reading};

verus! {

/// Sorts readings descending by `value` with an insertion sort. The
/// contract pins the result completely: the values are non-increasing, the
/// multiset of readings is kept, and for every value the readings holding
/// it stay in input order — so ties keep the concatenation order the
/// aggregator feeds in (hardware before accelerator, each in discovery
/// order).
pub fn sort_desc(input: Vec<Reading>) -> (out: Vec<Reading>)
    ensures
        sorted_desc(out@),
        out@.to_multiset() == input@.to_multiset(),
        forall|v: i64| #[trigger] with_value(out@, v) == with_value(input@, v),
{
    broadcast use vstd::seq_lib::group_to_multiset_ensures;
    broadcast use vstd::multiset::group_multiset_axioms;
    broadcast use vstd::multiset::group_multiset_properties;

    let ghost orig = input@;
    let mut rest = input;
    let mut out: Vec<Reading> = Vec::new();
    let ghost mut done: int = 0;
    proof {
        assert(orig.skip(0) =~= orig);
        assert(out@ == orig.take(0)) by {
            assert(out@ =~= orig.take(0));
        }
    }
    while rest.len() > 0
        invariant
            sorted_desc(out@),
            0 <= done <= orig.len(),
            rest@ == orig.skip(done),
            out@.to_multiset().add(rest@.to_multiset()) == orig.to_multiset(),
            forall|v: i64| #[trigger] with_value(out@, v) == with_value(orig.take(done), v),
        decreases rest.len(),
    {
        let ghost rest0 = rest@;
        let ghost out0 = out@;
        let x = rest.remove(0);
        proof {
            assert(orig.skip(done)[0] == orig[done]);
            assert(x == orig[done]);
            assert(rest@ =~= orig.skip(done + 1));
        }
        let mut j: usize = 0;
        while j < out.len() && out[j].value >= x.value
            invariant
                0 <= j <= out.len(),
                out@ == out0,
                forall|k: int| 0 <= k < j ==> out@[k].value >= x.value,
            decreases out.len() - j,
        {
            j += 1;
        }
        proof {
            assert(forall|k: int| j <= k < out0.len() && sorted_desc(out0) ==> out0[j as int].value
                >= out0[k].value);
        }
        out.insert(j, x);
        proof {
            let new = out0.insert(j as int, x);
            assert(out@ == new);
            assert forall|p: int, q: int| 0 <= p <= q < new.len() implies new[p].value
                >= new[q].value by {
                assert(forall|k: int| 0 <= k < j ==> new[k] == out0[k]);
                assert(new[j as int] == x);
                assert(forall|k: int| j < k < new.len() ==> new[k] == out0[k - 1]);
            }
            vstd::seq_lib::to_multiset_insert(out0, j as int, x);
            assert(out@.to_multiset() == out0.to_multiset().insert(x));
            vstd::seq_lib::to_multiset_remove(rest0, 0);
            assert(rest0.remove(0).to_multiset() == rest0.to_multiset().remove(rest0[0]));
            assert(rest@ == rest0.remove(0));
            assert(rest0[0] == x);
            assert(rest@.to_multiset() == rest0.to_multiset().remove(x));
            assert(out@.to_multiset().add(rest@.to_multiset()) =~= out0.to_multiset().add(
                rest0.to_multiset(),
            )) by {
                vstd::seq_lib::to_multiset_contains(rest0, x);
                assert(rest0.contains(x));
            }
            // Stability: the inserted reading lands after every reading of
            // its own value, so per-value subsequences grow in input order.
            let a = out0.take(j as int);
            let b = out0.skip(j as int);
            assert(out0 == a + b) by {
                assert(out0 =~= a + b);
            }
            assert(out@ == (a + seq![x]) + b) by {
                assert(out@ =~= (a + seq![x]) + b);
            }
            assert(seq![x].drop_last() == Seq::<Reading>::empty()) by {
                assert(seq![x].drop_last() =~= Seq::<Reading>::empty());
            }
            assert(orig.take(done + 1).drop_last() == orig.take(done)) by {
                assert(orig.take(done + 1).drop_last() =~= orig.take(done));
            }
            assert(orig.take(done + 1).last() == orig[done]);
            assert forall|v: i64| #[trigger] with_value(out@, v) == with_value(
                orig.take(done + 1),
                v,
            ) by {
                lemma_with_value_add(a, b, v);
                lemma_with_value_add(a, seq![x], v);
                lemma_with_value_add(a + seq![x], b, v);
                assert(with_value(Seq::<Reading>::empty(), v) == Seq::<Reading>::empty());
                assert(with_value(out0, v) == with_value(a, v) + with_value(b, v));
                if x.value == v {
                    assert(with_value(seq![x], v) == Seq::<Reading>::empty().push(x));
                    assert forall|t: int| 0 <= t < b.len() implies (#[trigger] b[t]).value
                        != v by {
                        assert(b[t] == out0[j + t]);
                    }
                    lemma_with_value_none(b, v);
                    assert(with_value(out@, v) =~= with_value(orig.take(done), v).push(x));
                    assert(with_value(orig.take(done + 1), v) == with_value(
                        orig.take(done),
                        v,
                    ).push(x));
                } else {
                    assert(with_value(seq![x], v) == Seq::<Reading>::empty());
                    assert(with_value(out@, v) =~= with_value(orig.take(done), v));
                    assert(with_value(orig.take(done + 1), v) == with_value(orig.take(done), v));
                }
            }
            done = done + 1;
        }
    }
    proof {
        assert(done == orig.len());
        assert(orig.take(orig.len() as int) =~= orig);
    }
    out
}

} // verus!

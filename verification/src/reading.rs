//! The reading data model shared by the backends, the aggregator and the
//! renderer.

use vstd::prelude::*;

verus! {

/// Which backend produced a reading.
#[derive(Clone, Copy, PartialEq, Eq, Structural, Debug)]
pub enum Source {
    Hardware,
    Accelerator,
}

/// One sampled temperature: a label, a value and the backend it came from.
///
/// Before aggregation `value` is in milli-degrees Celsius; aggregation
/// replaces it with the display-scale value (see `units`), so stored panel
/// state is always already in display units.
pub struct Reading {
    pub label: String,
    pub value: i64,
    pub source: Source,
}

/// A raw hardware-sensor sample: the sensor's unit name, its optional
/// sub-label and the current value in milli-degrees Celsius.
pub struct HwSample {
    pub unit: String,
    pub label: Option<String>,
    pub value_milli: i64,
}

/// Non-increasing adjacent values: the order the panel publishes.
pub open spec fn sorted_desc(s: Seq<Reading>) -> bool {
    forall|i: int, j: int| 0 <= i <= j < s.len() ==> s[i].value >= s[j].value
}

/// The readings of a sequence holding one given value, in sequence order.
/// Two sequences that are sorted the same way and agree on `with_value`
/// for every value are equal, so this is how the contracts state that a
/// stable sort keeps ties in input order.
pub open spec fn with_value(s: Seq<Reading>, v: i64) -> Seq<Reading>
    decreases s.len(),
{
    if s.len() == 0 {
        Seq::empty()
    } else {
        let rest = with_value(s.drop_last(), v);
        if s.last().value == v {
            rest.push(s.last())
        } else {
            rest
        }
    }
}

/// `with_value` distributes over concatenation.
pub proof fn lemma_with_value_add(a: Seq<Reading>, b: Seq<Reading>, v: i64)
    ensures
        with_value(a + b, v) == with_value(a, v) + with_value(b, v),
    decreases b.len(),
{
    if b.len() == 0 {
        assert(a + b =~= a);
        assert(with_value(a, v) + with_value(b, v) =~= with_value(a, v));
    } else {
        lemma_with_value_add(a, b.drop_last(), v);
        assert((a + b).drop_last() =~= a + b.drop_last());
        assert((a + b).last() == b.last());
        if b.last().value == v {
            assert(with_value(a, v) + with_value(b, v) =~= (with_value(a, v) + with_value(
                b.drop_last(),
                v,
            )).push(b.last()));
        } else {
            assert(with_value(a, v) + with_value(b, v) =~= with_value(a, v) + with_value(
                b.drop_last(),
                v,
            ));
        }
    }
}

/// A sequence none of whose readings holds `v` contributes nothing to
/// `with_value`.
pub proof fn lemma_with_value_none(s: Seq<Reading>, v: i64)
    requires
        forall|i: int| 0 <= i < s.len() ==> (#[trigger] s[i]).value != v,
    ensures
        with_value(s, v) == Seq::<Reading>::empty(),
    decreases s.len(),
{
    if s.len() > 0 {
        assert(forall|i: int| 0 <= i < s.len() - 1 ==> s.drop_last()[i] == s[i]);
        lemma_with_value_none(s.drop_last(), v);
        assert(s.last() == s[s.len() - 1]);
    }
}

/// Every element of a sequence is an element of any sequence with the same
/// multiset of readings.
pub proof fn lemma_multiset_elem(a: Seq<Reading>, b: Seq<Reading>, i: int)
    requires
        a.to_multiset() == b.to_multiset(),
        0 <= i < a.len(),
    ensures
        b.contains(a[i]),
{
    broadcast use vstd::seq_lib::group_to_multiset_ensures;

    assert(a.contains(a[i]));
    assert(a.to_multiset().count(a[i]) > 0);
    assert(b.to_multiset().count(a[i]) > 0);
}

} // verus!

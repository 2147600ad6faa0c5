//! The aggregator: converts every raw Celsius value to the display unit,
//! concatenates hardware readings before accelerator readings, and sorts
//! the whole list descending by value. Each tick is one independent full
//! re-sample; the caller replaces its published list wholesale with the
//! result.

use vstd::prelude::*;
use crate::Unit;
use crate::reading::{with_value, Reading, sorted_desc};
use crate::sort::sort_desc;
use crate::units::{to_display, to_display_spec, CELSIUS_MILLI_LIMIT, DISPLAY_LIMIT};

verus! {

/// One reading with its value moved from milli-degrees Celsius to the
/// display scale; label and source are untouched.
pub open spec fn convert_spec(r: Reading, unit: Unit) -> Reading {
    (Reading {
        label: r.label,
        value: to_display_spec(r.value as int, unit) as i64,
        source: r.source,
    })
}

/// A whole sequence of readings converted to the display scale.
pub open spec fn convert_seq(s: Seq<Reading>, unit: Unit) -> Seq<Reading> {
    s.map_values(|r: Reading| convert_spec(r, unit))
}

/// Every value of the sequence is a raw reading the panel accepts.
pub open spec fn raw_values_bounded(s: Seq<Reading>) -> bool {
    forall|i: int|
        0 <= i < s.len() ==> -CELSIUS_MILLI_LIMIT <= (#[trigger] s[i]).value
            <= CELSIUS_MILLI_LIMIT
}

/// Every value of the sequence fits the display scale.
pub open spec fn display_values_bounded(s: Seq<Reading>) -> bool {
    forall|i: int|
        0 <= i < s.len() ==> -DISPLAY_LIMIT <= (#[trigger] s[i]).value <= DISPLAY_LIMIT
}

/// Merges one tick's backend outputs: converts each raw Celsius value to
/// the display unit once, concatenates hardware readings before
/// accelerator readings, and stable-sorts descending by value. The result
/// holds exactly the converted input readings, ordered non-increasing, and
/// readings of equal display value keep the concatenation order (hardware
/// before accelerator, each in discovery order).
pub fn aggregate(hw: Vec<Reading>, acc: Vec<Reading>, unit: Unit) -> (out: Vec<Reading>)
    requires
        raw_values_bounded(hw@),
        raw_values_bounded(acc@),
    ensures
        sorted_desc(out@),
        out@.to_multiset() == convert_seq(hw@ + acc@, unit).to_multiset(),
        forall|v: i64| #[trigger] with_value(out@, v) == with_value(
            convert_seq(hw@ + acc@, unit),
            v,
        ),
        display_values_bounded(out@),
        out@.len() == hw@.len() + acc@.len(),
{
    let ghost hw0 = hw@;
    let ghost acc0 = acc@;
    let mut combined = hw;
    let mut tail = acc;
    combined.append(&mut tail);
    let ghost input = hw0 + acc0;
    assert(combined@ == input);
    let mut conv: Vec<Reading> = Vec::new();
    let ghost mut k: int = 0;
    proof {
        assert(combined@.skip(0) =~= input);
        assert(conv@ =~= convert_seq(input.take(0), unit));
    }
    while combined.len() > 0
        invariant
            0 <= k <= input.len(),
            combined@ == input.skip(k),
            conv@ == convert_seq(input.take(k), unit),
            raw_values_bounded(input),
            display_values_bounded(conv@),
        decreases combined@.len(),
    {
        let r = combined.remove(0);
        proof {
            assert(input.skip(k)[0] == input[k]);
            assert(r == input[k]);
            assert(combined@ =~= input.skip(k + 1));
        }
        let value = to_display(r.value, unit);
        conv.push(Reading { label: r.label, value, source: r.source });
        proof {
            assert(conv@ =~= convert_seq(input.take(k + 1), unit));
            k = k + 1;
        }
    }
    proof {
        assert(k == input.len());
        assert(input.take(input.len() as int) =~= input);
        assert(conv@ == convert_seq(input, unit));
    }
    let out = sort_desc(conv);
    proof {
        broadcast use vstd::seq_lib::group_to_multiset_ensures;

        assert(out@.len() == out@.to_multiset().len());
        assert(conv@.len() == conv@.to_multiset().len());
        assert forall|i: int| 0 <= i < out@.len() implies -DISPLAY_LIMIT <= (#[trigger] out@[i]).value
            <= DISPLAY_LIMIT by {
            crate::reading::lemma_multiset_elem(out@, convert_seq(input, unit), i);
        }
    }
    out
}

} // verus!

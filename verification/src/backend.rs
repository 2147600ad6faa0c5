//! The two reading sources: hardware thermal sensors and accelerator
//! devices. Each keeps its own filtering rule: hardware samples at or below
//! zero mark an unpopulated sensor and are dropped; an accelerator zero is
//! valid telemetry and kept.

use vstd::prelude::*;
use vstd::string::StringExecFns;
use vstd::string::StrSliceExecFns;
use crate::reading::{HwSample, Reading, Source};
use crate::ext;
use nvml_wrapper::Nvml;
use nvml_wrapper::error::NvmlError;

verus! {

/// Largest value an accelerator reading can carry, in milli-degrees
/// Celsius: the device reports whole degrees in a `u32`.
pub const ACCEL_MILLI_MAX: i64 = 4_294_967_295_000;

/// Label and value of a reading, the part of it that contracts compare.
pub open spec fn reading_model(r: Reading) -> (Seq<char>, i64) {
    (r.label@, r.value)
}

/// Labels and values of a whole sequence of readings.
pub open spec fn reading_models(s: Seq<Reading>) -> Seq<(Seq<char>, i64)> {
    s.map_values(|r: Reading| reading_model(r))
}

/// The display label of a hardware sample: the unit name, plus the
/// sub-label joined with a dash when there is one.
pub open spec fn hw_label_spec(unit: Seq<char>, label: Option<String>) -> Seq<char> {
    match label {
        Some(l) => unit + seq!['-'] + l@,
        None => unit,
    }
}

/// Label and value of every hardware reading, in sample order, keeping
/// exactly the samples whose value is positive.
pub open spec fn hw_models(s: Seq<HwSample>) -> Seq<(Seq<char>, i64)>
    decreases s.len(),
{
    if s.len() == 0 {
        Seq::empty()
    } else {
        let rest = hw_models(s.drop_last());
        if s.last().value_milli > 0 {
            rest.push((hw_label_spec(s.last().unit@, s.last().label), s.last().value_milli))
        } else {
            rest
        }
    }
}

/// Joins a unit name and an optional sub-label into a display label.
fn build_label(unit: String, label: Option<String>) -> (r: String)
    ensures
        r@ == hw_label_spec(unit@, label),
{
    let ghost u0 = unit@;
    match label {
        Some(l) => {
            let mut s = unit;
            s.append("-");
            s.append(l.as_str());
            proof {
                reveal_strlit("-");
                assert(("-")@ =~= seq!['-']);
                assert(s@ =~= u0 + seq!['-'] + l@);
            }
            s
        },
        None => unit,
    }
}

/// The hardware variant of `list_readings`: one reading per populated
/// sensor, in discovery order, values in milli-degrees Celsius. Samples
/// with value at or below zero carry no physical meaning for this source
/// and never become readings.
pub fn hardware_readings(samples: Vec<HwSample>) -> (out: Vec<Reading>)
    ensures
        reading_models(out@) == hw_models(samples@),
        forall|i: int| 0 <= i < out@.len() ==> (#[trigger] out@[i]).source == Source::Hardware,
{
    let ghost orig = samples@;
    let mut rest = samples;
    let mut out: Vec<Reading> = Vec::new();
    let ghost mut k: int = 0;
    proof {
        assert(orig.skip(0) =~= orig);
        assert(reading_models(out@) =~= hw_models(orig.take(0)));
    }
    while rest.len() > 0
        invariant
            0 <= k <= orig.len(),
            rest@ == orig.skip(k),
            reading_models(out@) == hw_models(orig.take(k)),
            forall|i: int| 0 <= i < out@.len() ==> (#[trigger] out@[i]).source == Source::Hardware,
        decreases rest@.len(),
    {
        let s = rest.remove(0);
        proof {
            assert(orig.skip(k)[0] == orig[k]);
            assert(s == orig[k]);
            assert(rest@ =~= orig.skip(k + 1));
            assert(orig.take(k + 1).drop_last() =~= orig.take(k));
            assert(orig.take(k + 1).last() == orig[k]);
        }
        if s.value_milli > 0 {
            let value = s.value_milli;
            let label = build_label(s.unit, s.label);
            out.push(Reading { label, value, source: Source::Hardware });
            proof {
                assert(reading_models(out@) =~= hw_models(orig.take(k + 1)));
                k = k + 1;
            }
        } else {
            proof {
                assert(reading_models(out@) =~= hw_models(orig.take(k + 1)));
                k = k + 1;
            }
        }
    }
    proof {
        assert(k == orig.len());
        assert(orig.take(orig.len() as int) =~= orig);
    }
    out
}

/// The vendor token stripped from the front of accelerator device names.
pub open spec fn vendor_prefix() -> Seq<char> {
    seq!['N', 'V', 'I', 'D', 'I', 'A', ' ']
}

/// A device name with the vendor-prefix token removed when it starts with
/// one, and unchanged otherwise.
pub open spec fn strip_vendor_spec(s: Seq<char>) -> Seq<char> {
    if s.len() >= 7 && s.subrange(0, 7) == vendor_prefix() {
        s.skip(7)
    } else {
        s
    }
}

/// Normalizes an accelerator device name by stripping the vendor-prefix
/// token if present.
pub fn normalize_device_name(name: &str) -> (r: String)
    ensures
        r@ == strip_vendor_spec(name@),
{
    let n = name.unicode_len();
    if n >= 7 {
        let c0 = name.get_char(0);
        let c1 = name.get_char(1);
        let c2 = name.get_char(2);
        let c3 = name.get_char(3);
        let c4 = name.get_char(4);
        let c5 = name.get_char(5);
        let c6 = name.get_char(6);
        if c0 == 'N' && c1 == 'V' && c2 == 'I' && c3 == 'D' && c4 == 'I' && c5 == 'A' && c6 == ' '
        {
            proof {
                assert(name@.subrange(0, 7) =~= vendor_prefix());
            }
            let r = name.substring_char(7, n).to_owned();
            proof {
                assert(name@.skip(7) =~= name@.subrange(7, name@.len() as int));
            }
            r
        } else {
            proof {
                if name@.subrange(0, 7) == vendor_prefix() {
                    assert(name@[0] == name@.subrange(0, 7)[0]);
                    assert(name@[1] == name@.subrange(0, 7)[1]);
                    assert(name@[2] == name@.subrange(0, 7)[2]);
                    assert(name@[3] == name@.subrange(0, 7)[3]);
                    assert(name@[4] == name@.subrange(0, 7)[4]);
                    assert(name@[5] == name@.subrange(0, 7)[5]);
                    assert(name@[6] == name@.subrange(0, 7)[6]);
                }
            }
            name.to_owned()
        }
    } else {
        name.to_owned()
    }
}

/// The accelerator variant of `list_readings`. A session that failed to
/// initialize contributes no readings — a normal, silent condition, not an
/// error. With a live session the bounded device count is walked and every
/// device that fails to answer is skipped on its own, without aborting the
/// walk. Values are whole degrees Celsius from the device, carried here in
/// milli-degrees; a zero is valid telemetry for this source and is kept.
pub fn accelerator_readings(session: &Result<Nvml, NvmlError>) -> (out: Vec<Reading>)
    ensures
        session is Err ==> out@ == Seq::<Reading>::empty(),
        forall|i: int| 0 <= i < out@.len() ==> (#[trigger] out@[i]).source == Source::Accelerator,
        forall|i: int| 0 <= i < out@.len() ==> 0 <= (#[trigger] out@[i]).value <= ACCEL_MILLI_MAX,
        forall|i: int| 0 <= i < out@.len() ==> (#[trigger] out@[i]).value % 1000 == 0,
{
    let mut out: Vec<Reading> = Vec::new();
    match session {
        Ok(nvml) => {
            let count: u32 = match ext::nvml_device_count(nvml) {
                Ok(c) => c,
                Err(_) => 0,
            };
            let mut idx: u32 = 0;
            while idx < count
                invariant
                    forall|i: int|
                        0 <= i < out@.len() ==> (#[trigger] out@[i]).source
                            == Source::Accelerator,
                    forall|i: int|
                        0 <= i < out@.len() ==> 0 <= (#[trigger] out@[i]).value
                            <= ACCEL_MILLI_MAX,
                    forall|i: int|
                        0 <= i < out@.len() ==> (#[trigger] out@[i]).value % 1000 == 0,
                decreases count - idx,
            {
                match ext::nvml_device_by_index(nvml, idx) {
                    Ok(dev) => {
                        match ext::device_name(&dev) {
                            Ok(raw) => {
                                match ext::device_gpu_temperature(&dev) {
                                    Ok(t) => {
                                        let label = normalize_device_name(raw.as_str());
                                        let value: i64 = (t as i64) * 1000;
                                        proof {
                                            vstd::arithmetic::div_mod::lemma_mod_multiples_basic(
                                                t as int,
                                                1000,
                                            );
                                        }
                                        out.push(
                                            Reading { label, value, source: Source::Accelerator },
                                        );
                                    },
                                    Err(_) => {},
                                }
                            },
                            Err(_) => {},
                        }
                    },
                    Err(_) => {},
                }
                idx = idx + 1;
            }
        },
        Err(_) => {},
    }
    out
}

} // verus!

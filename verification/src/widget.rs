//! The temperature panel: construction, the per-tick update cycle, the
//! declared update cadence, and rendering into a bounded text area.

use vstd::prelude::*;
use crate::Unit;
use crate::aggregate::{aggregate, convert_seq, convert_spec, display_values_bounded};
use crate::backend::{
    hw_label_spec,
    accelerator_readings, hardware_readings, hw_models, reading_model, reading_models,
    ACCEL_MILLI_MAX,
};
use crate::ext;
use crate::geom::{buf_wf, in_band, in_rect, in_row_from, rect_fits, rect_within};
use crate::reading::{lemma_multiset_elem, sorted_desc, with_value, HwSample, Reading, Source};
use crate::render::{plan_rows, inner_height, row_count};
use crate::textfmt::value_text_spec;
use crate::units::{to_display, to_display_spec, CELSIUS_MILLI_LIMIT};
use nvml_wrapper::Nvml;
use nvml_wrapper::error::NvmlError;
use tui::buffer::{Buffer, Cell};
use tui::layout::Rect;
use tui::style::Style;

verus! {

/// The panel's update cadence as an exact rational number of seconds, so
/// repeated tick accumulation cannot drift against wall-clock time.
#[derive(Clone, Copy, PartialEq, Eq, Structural, Debug)]
pub struct Rational {
    pub numer: u64,
    pub denom: u64,
}

/// The style source the panel consumes: one style per semantic role.
#[derive(Clone, Copy)]
pub struct Theme {
    pub text: Style,
    pub temp_low: Style,
    pub temp_high: Style,
}

/// Every raw hardware sample's value is one the panel accepts.
pub open spec fn samples_bounded(s: Seq<HwSample>) -> bool {
    forall|i: int|
        0 <= i < s.len() ==> -CELSIUS_MILLI_LIMIT <= (#[trigger] s[i]).value_milli
            <= CELSIUS_MILLI_LIMIT
}

/// What any accelerator enumeration yields: accelerator-sourced readings
/// whose values are whole degrees from a `u32`, carried in milli-degrees.
pub open spec fn acc_shape(acc: Seq<Reading>) -> bool {
    forall|i: int|
        0 <= i < acc.len() ==> (#[trigger] acc[i]).source == Source::Accelerator && 0 <= acc[i].value
            <= ACCEL_MILLI_MAX && acc[i].value % 1000 == 0
}

/// Every hardware reading's value is positive and within the accepted raw
/// range, provided the samples were.
proof fn lemma_hw_models_props(s: Seq<HwSample>)
    requires
        samples_bounded(s),
    ensures
        forall|j: int|
            0 <= j < hw_models(s).len() ==> 0 < (#[trigger] hw_models(s)[j]).1
                <= CELSIUS_MILLI_LIMIT,
    decreases s.len(),
{
    if s.len() > 0 {
        assert(samples_bounded(s.drop_last())) by {
            assert(forall|i: int| 0 <= i < s.len() - 1 ==> s.drop_last()[i] == s[i]);
        }
        lemma_hw_models_props(s.drop_last());
        let rest = hw_models(s.drop_last());
        assert forall|j: int| 0 <= j < hw_models(s).len() implies 0 < (#[trigger] hw_models(
            s,
        )[j]).1 <= CELSIUS_MILLI_LIMIT by {
            if s.last().value_milli > 0 {
                assert(hw_models(s) == rest.push(
                    (hw_label_spec(s.last().unit@, s.last().label), s.last().value_milli),
                ));
                if j < rest.len() {
                    assert(hw_models(s)[j] == rest[j]);
                } else {
                    assert(hw_models(s)[j].1 == s.last().value_milli);
                    assert(s.last() == s[s.len() - 1]);
                }
            } else {
                assert(hw_models(s) == rest);
            }
        }
    }
}

/// Every element of a sequence whose multiset is that of a converted
/// sequence is the conversion of some input element.
proof fn lemma_convert_elem(out: Seq<Reading>, input: Seq<Reading>, unit: Unit, i: int)
    requires
        out.to_multiset() == convert_seq(input, unit).to_multiset(),
        0 <= i < out.len(),
    ensures
        exists|j: int| 0 <= j < input.len() && out[i] == convert_spec(#[trigger] input[j], unit),
{
    lemma_multiset_elem(out, convert_seq(input, unit), i);
    let j = choose|j: int|
        0 <= j < convert_seq(input, unit).len() && convert_seq(input, unit)[j] == out[i];
    assert(convert_seq(input, unit)[j] == convert_spec(input[j], unit));
    assert(0 <= j < input.len() && out[i] == convert_spec(input[j], unit));
}

/// With no accelerator readings, aggregation's input is the hardware-only
/// input: an unavailable session degrades the panel to the hardware-only
/// result, not to an error.
pub proof fn lemma_hardware_only(hwr: Seq<Reading>, unit: Unit)
    ensures
        convert_seq(hwr + Seq::<Reading>::empty(), unit) == convert_seq(hwr, unit),
{
    assert(hwr + Seq::<Reading>::empty() =~= hwr);
}

/// The cells after the first `n` content rows for `readings` are written:
/// for each row in order, its label at the inner-left edge in the text
/// style, then its value cell at the inner-right edge, with high emphasis
/// exactly when the value reaches the threshold.
pub open spec fn rows_write(
    content: Seq<Cell>,
    barea: Rect,
    area: Rect,
    readings: Seq<Reading>,
    threshold: i64,
    unit: Unit,
    theme: Theme,
    n: int,
) -> Seq<Cell>
    decreases n,
{
    if n <= 0 {
        content
    } else {
        let prev = rows_write(content, barea, area, readings, threshold, unit, theme, n - 1);
        let y = (area.y + 1 + (n - 1)) as u16;
        let after_label = ext::string_write(
            prev,
            barea,
            (area.x + 1) as u16,
            y,
            readings[n - 1].label@,
            theme.text,
        );
        ext::string_write(
            after_label,
            barea,
            (area.x + area.width - 6) as u16,
            y,
            value_text_spec(readings[n - 1].value as int, unit),
            if readings[n - 1].value >= threshold {
                theme.temp_high
            } else {
                theme.temp_low
            },
        )
    }
}

/// Everything one render leaves in the buffer: the border-and-title chrome
/// over the whole area first, then, when the area has the minimum usable
/// height, one row per visible reading in the already-sorted order;
/// readings beyond the inner height are silently dropped.
pub open spec fn render_write(
    content: Seq<Cell>,
    barea: Rect,
    area: Rect,
    readings: Seq<Reading>,
    threshold: i64,
    unit: Unit,
    theme: Theme,
    title: Seq<char>,
) -> Seq<Cell> {
    let chromed = ext::chrome_write(content, barea, area, title, theme.text);
    if area.height < 2 {
        chromed
    } else {
        rows_write(
            chromed,
            barea,
            area,
            readings,
            threshold,
            unit,
            theme,
            row_count(area, readings.len() as int),
        )
    }
}

/// The temperature panel. Its published reading list is replaced wholesale
/// each update cycle, never mutated in place, and is sorted descending by
/// value whenever it is externally visible.
pub struct TempWidget {
    title: String,
    update_interval: Rational,
    theme: Theme,
    unit: Unit,
    temp_threshold: i64,
    temp_data: Vec<Reading>,
    nvml: Result<Nvml, NvmlError>,
}

impl TempWidget {
    /// The published snapshot: ordered readings in display units.
    pub closed spec fn readings(&self) -> Seq<Reading> {
        self.temp_data@
    }

    /// The configured display unit.
    pub closed spec fn unit(&self) -> Unit {
        self.unit
    }

    /// The emphasis threshold, in display units.
    pub closed spec fn threshold(&self) -> i64 {
        self.temp_threshold
    }

    /// The declared update cadence.
    pub closed spec fn interval(&self) -> Rational {
        self.update_interval
    }

    /// Whether the accelerator session initialized; decided once at
    /// construction, never force-retried.
    pub closed spec fn accel_available(&self) -> bool {
        self.nvml is Ok
    }

    /// The cached accelerator session value itself, as construction left
    /// it: an update never swaps or force-retries it.
    pub closed spec fn session(&self) -> Result<Nvml, NvmlError> {
        self.nvml
    }

    /// The panel's title text.
    pub closed spec fn title(&self) -> Seq<char> {
        self.title@
    }

    /// The stored style source.
    pub closed spec fn theme(&self) -> Theme {
        self.theme
    }

    /// The panel's invariant: the visible snapshot is sorted descending,
    /// its values fit the display scale, the threshold is 80 degrees
    /// Celsius expressed in display units, the cadence is five seconds,
    /// and the title is the panel's fixed one.
    pub open spec fn wf(&self) -> bool {
        &&& sorted_desc(self.readings())
        &&& display_values_bounded(self.readings())
        &&& self.threshold() == to_display_spec(80000, self.unit())
        &&& self.interval() == (Rational { numer: 5, denom: 1 })
        &&& self.title() == " Temperatures "@
    }

    /// Builds the panel: empty reading list, five-second cadence, an
    /// 80-degree-Celsius threshold in the chosen display unit, and one
    /// attempt at the accelerator session whose outcome is cached.
    pub fn new(theme: Theme, fahrenheit: bool) -> (w: TempWidget)
        ensures
            w.wf(),
            w.readings() == Seq::<Reading>::empty(),
            w.theme() == theme,
            w.unit() == (if fahrenheit {
                Unit::Fahrenheit
            } else {
                Unit::Celsius
            }),
    {
        let unit = if fahrenheit {
            Unit::Fahrenheit
        } else {
            Unit::Celsius
        };
        let temp_threshold = to_display(80000, unit);
        TempWidget {
            title: " Temperatures ".to_owned(),
            update_interval: Rational { numer: 5, denom: 1 },
            theme,
            unit,
            temp_threshold,
            temp_data: Vec::new(),
            nvml: ext::nvml_init(),
        }
    }

    /// The cadence at which the hosting scheduler should drive `update`.
    pub fn get_update_interval(&self) -> (r: Rational)
        ensures
            r == self.interval(),
            self.wf() ==> r == (Rational { numer: 5, denom: 1 }),
    {
        self.update_interval
    }

    /// The published snapshot, for the renderer and the hosting dashboard.
    pub fn ordered_readings(&self) -> (r: &Vec<Reading>)
        ensures
            r@ == self.readings(),
    {
        &self.temp_data
    }

    /// One full aggregation cycle: hardware samples (already read by the
    /// caller) are filtered and labelled, the accelerator devices are
    /// enumerated through the cached session, values are converted to the
    /// display unit, and the snapshot is replaced wholesale by the sorted
    /// result; readings of equal display value keep the concatenation
    /// order. Hardware readings at or below zero never appear; an
    /// unavailable accelerator session contributes the empty sequence.
    /// Everything else — unit, threshold, cadence, title, styles and the
    /// cached session — is untouched.
    pub fn update(&mut self, hw_samples: Vec<HwSample>)
        requires
            old(self).wf(),
            samples_bounded(hw_samples@),
        ensures
            final(self).wf(),
            final(self).unit() == old(self).unit(),
            final(self).threshold() == old(self).threshold(),
            final(self).interval() == old(self).interval(),
            final(self).title() == old(self).title(),
            final(self).theme() == old(self).theme(),
            final(self).session() == old(self).session(),
            final(self).accel_available() == old(self).accel_available(),
            exists|hwr: Seq<Reading>, acc: Seq<Reading>|
                {
                    &&& reading_models(hwr) == hw_models(hw_samples@)
                    &&& (forall|i: int|
                        0 <= i < hwr.len() ==> (#[trigger] hwr[i]).source == Source::Hardware)
                    &&& acc_shape(acc)
                    &&& (!old(self).accel_available() ==> acc == Seq::<Reading>::empty())
                    &&& final(self).readings().to_multiset() == #[trigger] convert_seq(
                        hwr + acc,
                        old(self).unit(),
                    ).to_multiset()
                    &&& (forall|v: i64|
                        #[trigger] with_value(final(self).readings(), v) == with_value(
                            convert_seq(hwr + acc, old(self).unit()),
                            v,
                        ))
                    &&& (!old(self).accel_available() ==> final(self).readings().to_multiset()
                        == convert_seq(hwr, old(self).unit()).to_multiset())
                },
            forall|i: int|
                0 <= i < final(self).readings().len() ==> ((#[trigger] final(self).readings()[i]).source
                    == Source::Hardware ==> final(self).readings()[i].value > to_display_spec(
                    0,
                    old(self).unit(),
                )),
            forall|i: int|
                0 <= i < final(self).readings().len() ==> ((#[trigger] final(self).readings()[i]).source
                    == Source::Accelerator ==> final(self).readings()[i].value >= to_display_spec(
                    0,
                    old(self).unit(),
                )),
    {
        let ghost samples0 = hw_samples@;
        let hwr = hardware_readings(hw_samples);
        let acc = accelerator_readings(&self.nvml);
        let ghost hwr0 = hwr@;
        let ghost acc0 = acc@;
        proof {
            lemma_hw_models_props(samples0);
            assert forall|i: int| 0 <= i < hwr0.len() implies 0 < (#[trigger] hwr0[i]).value
                <= CELSIUS_MILLI_LIMIT by {
                assert(reading_models(hwr0)[i] == reading_model(hwr0[i]));
            }
        }
        let data = aggregate(hwr, acc, self.unit);
        self.temp_data = data;
        proof {
            let ghost input = hwr0 + acc0;
            let ghost unit = self.unit;
            if !old(self).accel_available() {
                assert(acc0 == Seq::<Reading>::empty());
                lemma_hardware_only(hwr0, unit);
            }
            assert forall|i: int|
                0 <= i < self.temp_data@.len() implies ((#[trigger] self.temp_data@[i]).source
                == Source::Hardware ==> self.temp_data@[i].value > to_display_spec(0, unit)) && (
            self.temp_data@[i].source == Source::Accelerator ==> self.temp_data@[i].value
                >= to_display_spec(0, unit)) by {
                lemma_convert_elem(self.temp_data@, input, unit, i);
                let j = choose|j: int|
                    0 <= j < input.len() && self.temp_data@[i] == convert_spec(
                        #[trigger] input[j],
                        unit,
                    );
                if j < hwr0.len() {
                    assert(input[j] == hwr0[j]);
                    assert(reading_models(hwr0)[j] == reading_model(hwr0[j]));
                } else {
                    assert(input[j] == acc0[j - hwr0.len()]);
                }
            }
        }
    }

    /// Renders the panel into `area` of `buf`: chrome always, drawn first;
    /// below the minimum usable height, nothing else; otherwise one row per
    /// reading inside the inner rectangle, labels left-aligned, value cells
    /// right-aligned with "high" emphasis exactly at or above the
    /// threshold. Readings beyond capacity are silently dropped. The area
    /// must lie inside a buffer of the documented shape. The buffer keeps
    /// its area and cell count, its cells become exactly `render_write` of
    /// the snapshot, and cells outside the area's band are untouched.
    pub fn render(&self, area: Rect, buf: &mut Buffer)
        requires
            self.wf(),
            rect_fits(area),
            rect_fits(old(buf).area),
            buf_wf(*old(buf)),
            rect_within(area, old(buf).area),
        ensures
            final(buf).area == old(buf).area,
            final(buf).content@.len() == old(buf).content@.len(),
            final(buf).content@ == render_write(
                old(buf).content@,
                old(buf).area,
                area,
                self.readings(),
                self.threshold(),
                self.unit(),
                self.theme(),
                self.title(),
            ),
            forall|i: int|
                0 <= i < old(buf).content@.len() && !in_band(old(buf).area, i, area)
                    ==> final(buf).content@[i] == old(buf).content@[i],
    {
        let ghost area0 = buf.area;
        let ghost content0 = buf.content@;
        ext::draw_chrome(buf, area, self.title.as_str(), self.theme.text);
        let ghost chromed = buf.content@;
        proof {
            assert forall|idx: int|
                0 <= idx < content0.len() && !in_band(area0, idx, area) implies chromed[idx]
                == content0[idx] by {
                assert(!in_rect(area0, idx, area));
            }
        }
        if area.height < 2 {
            return ;
        }
        let rows = plan_rows(&self.temp_data, area, self.temp_threshold, self.unit);
        let mut i: usize = 0;
        while i < rows.len()
            invariant
                self.wf(),
                rect_fits(area),
                rect_fits(area0),
                rect_within(area, area0),
                buf.area == area0,
                buf.content@.len() == content0.len(),
                content0.len() == area0.width * area0.height,
                area0.width * area0.height <= u16::MAX,
                area.height >= 2,
                rows@.len() == row_count(area, self.temp_data@.len() as int),
                rows@.len() <= inner_height(area),
                rows@.len() > 0 ==> area.width >= 7,
                0 <= i <= rows@.len(),
                buf.content@ == rows_write(
                    chromed,
                    area0,
                    area,
                    self.temp_data@,
                    self.temp_threshold,
                    self.unit,
                    self.theme,
                    i as int,
                ),
                forall|idx: int|
                    0 <= idx < content0.len() && !in_band(area0, idx, area) ==> buf.content@[idx]
                        == content0[idx],
                forall|t: int|
                    0 <= t < rows@.len() ==> {
                        let row = #[trigger] rows@[t];
                        &&& row.y == area.y + 1 + t
                        &&& row.label_x == area.x + 1
                        &&& row.value_x == area.x + area.width - 6
                        &&& row.label@ == self.temp_data@[t].label@
                        &&& row.value_text@ == value_text_spec(
                            self.temp_data@[t].value as int,
                            self.unit,
                        )
                        &&& (row.high <==> self.temp_data@[t].value >= self.temp_threshold)
                    },
            decreases rows@.len() - i,
        {
            let ghost prev = buf.content@;
            let row = &rows[i];
            let style = if row.high {
                self.theme.temp_high
            } else {
                self.theme.temp_low
            };
            ext::buf_set_text(buf, row.label_x, row.y, &row.label, self.theme.text);
            let ghost after_label = buf.content@;
            ext::buf_set_text(buf, row.value_x, row.y, &row.value_text, style);
            proof {
                let t = i as int;
                assert(row.label_x == (area.x + 1) as u16);
                assert(row.value_x == (area.x + area.width - 6) as u16);
                assert(row.y == (area.y + 1 + t) as u16);
                assert(buf.content@ == rows_write(
                    chromed,
                    area0,
                    area,
                    self.temp_data@,
                    self.temp_threshold,
                    self.unit,
                    self.theme,
                    t + 1,
                ));
                assert forall|idx: int|
                    0 <= idx < content0.len() && !in_band(area0, idx, area) implies buf.content@[idx]
                    == content0[idx] by {
                    assert(!in_row_from(area0, idx, row.label_x as int, row.y as int));
                    assert(!in_row_from(area0, idx, row.value_x as int, row.y as int));
                    assert(after_label[idx] == prev[idx]);
                }
            }
            i = i + 1;
        }
    }
}

} // verus!

//! Declarations of the outside types the panel works with, and the trusted
//! wrappers through which it calls them. Every contract here is believed,
//! not proved; each names the outside function it relies on.

use vstd::prelude::*;
use crate::geom::{buf_wf, in_rect, in_row_from, rect_fits, rect_within};
use tui::buffer::Buffer;
use tui::layout::Rect;
use tui::style::Style;
use nvml_wrapper::Nvml;
use nvml_wrapper::Device;
use nvml_wrapper::error::NvmlError;

verus! {

#[verifier::external_type_specification]
pub struct ExRect(Rect);

#[verifier::external_type_specification]
#[verifier::external_body]
pub struct ExCell(tui::buffer::Cell);

#[verifier::external_type_specification]
pub struct ExBuffer(Buffer);

#[verifier::external_type_specification]
#[verifier::external_body]
pub struct ExStyle(Style);

#[verifier::external_type_specification]
#[verifier::external_body]
pub struct ExNvml(Nvml);

#[verifier::external_type_specification]
#[verifier::external_body]
pub struct ExNvmlError(NvmlError);

#[verifier::external_type_specification]
#[verifier::external_body]
pub struct ExDevice<'a>(Device<'a>);

/// What tui's `Buffer::set_string` leaves in the buffer's cell list: a
/// function of the old cells, the buffer's area, the start position, the
/// text and the style alone.
pub uninterp spec fn string_write(
    content: Seq<tui::buffer::Cell>,
    barea: Rect,
    x: u16,
    y: u16,
    text: Seq<char>,
    style: Style,
) -> Seq<tui::buffer::Cell>;

/// What the border-and-title chrome leaves in the buffer's cell list: a
/// function of the old cells, the buffer's area, the target area, the
/// title and the style alone.
pub uninterp spec fn chrome_write(
    content: Seq<tui::buffer::Cell>,
    barea: Rect,
    area: Rect,
    title: Seq<char>,
    style: Style,
) -> Seq<tui::buffer::Cell>;

/// Relies on tui's `Buffer::set_string`: writes styled text into the cells
/// of row `y` from column `x`, clipped at the buffer's right edge, and
/// touches nothing else. It indexes the buffer at the start position, so
/// that position must lie inside the buffer's area and the buffer must
/// have its documented cell-per-coordinate shape. The buffer keeps its
/// area and its cell count.
#[verifier::external_body]
pub(crate) fn buf_set_text(buf: &mut Buffer, x: u16, y: u16, text: &Vec<char>, style: Style)
    requires
        rect_fits(old(buf).area),
        buf_wf(*old(buf)),
        old(buf).area.x <= x < old(buf).area.x + old(buf).area.width,
        old(buf).area.y <= y < old(buf).area.y + old(buf).area.height,
    ensures
        final(buf).area == old(buf).area,
        final(buf).content@.len() == old(buf).content@.len(),
        final(buf).content@ == string_write(
            old(buf).content@,
            old(buf).area,
            x,
            y,
            text@,
            style,
        ),
        forall|i: int|
            0 <= i < old(buf).content@.len() && !in_row_from(old(buf).area, i, x as int, y as int)
                ==> final(buf).content@[i] == old(buf).content@[i],
{
    let s: String = text.iter().collect();
    buf.set_string(x, y, s, style);
}

/// Relies on tui's `Block` widget (`Widget::render`): draws the panel's
/// border-and-title chrome into the given area and touches no cell outside
/// it. `Block` indexes the buffer at the area's cells, so the area must
/// lie inside the buffer's area and the buffer must have its documented
/// cell-per-coordinate shape. The buffer keeps its area and its cell
/// count.
#[verifier::external_body]
pub(crate) fn draw_chrome(buf: &mut Buffer, area: Rect, title: &str, style: Style)
    requires
        rect_fits(area),
        rect_fits(old(buf).area),
        buf_wf(*old(buf)),
        rect_within(area, old(buf).area),
    ensures
        final(buf).area == old(buf).area,
        final(buf).content@.len() == old(buf).content@.len(),
        final(buf).content@ == chrome_write(
            old(buf).content@,
            old(buf).area,
            area,
            title@,
            style,
        ),
        forall|i: int|
            0 <= i < old(buf).content@.len() && !in_rect(old(buf).area, i, area)
                ==> final(buf).content@[i] == old(buf).content@[i],
{
    let block = tui::widgets::Block::default()
        .borders(tui::widgets::Borders::ALL)
        .title(title)
        .style(style);
    tui::widgets::Widget::render(block, area, buf);
}

/// Relies on `Nvml::init`: opens the accelerator management session once;
/// whether it succeeds depends on the machine, so nothing is promised.
#[verifier::external_body]
pub(crate) fn nvml_init() -> Result<Nvml, NvmlError> {
    Nvml::init()
}

/// Relies on `Nvml::device_count`: how many accelerator devices the session
/// sees this instant; the machine decides, so nothing is promised.
#[verifier::external_body]
pub(crate) fn nvml_device_count(nvml: &Nvml) -> Result<u32, NvmlError> {
    nvml.device_count()
}

/// Relies on `Nvml::device_by_index`: a handle for one device, which can
/// fail independently per device.
#[verifier::external_body]
pub(crate) fn nvml_device_by_index<'a>(nvml: &'a Nvml, idx: u32) -> Result<Device<'a>, NvmlError> {
    nvml.device_by_index(idx)
}

/// Relies on `Device::name`: the device's product name as the driver
/// reports it.
#[verifier::external_body]
pub(crate) fn device_name(dev: &Device<'_>) -> Result<String, NvmlError> {
    dev.name()
}

/// Relies on `Device::temperature` with the on-die sensor: the current
/// temperature in whole degrees Celsius.
#[verifier::external_body]
pub(crate) fn device_gpu_temperature(dev: &Device<'_>) -> Result<u32, NvmlError> {
    dev.temperature(nvml_wrapper::enum_wrappers::device::TemperatureSensor::Gpu)
}

} // verus!

//! Caption frames, the unit of output: one CEA-608 code with, once it has been
//! scheduled, its timestamp and duration.

use vstd::prelude::*;
use crate::cea608::{
    eia608_control_command, eia608_from_basicna, eia608_row_column_preamble, basicna_pair,
    CodeTable, ControlCommand, COLUMNS, ROWS,
};

verus! {

/// One byte pair of the caption stream.
#[derive(Clone, Copy, Debug, PartialEq, Eq)]
pub struct CaptionFrame {
    /// The CEA-608 code.
    pub cc_data: u16,
    /// The timestamp in nanoseconds; `None` until the frame is scheduled.
    pub pts: Option<u64>,
    /// The duration in nanoseconds; `None` until the frame is scheduled.
    pub duration: Option<u64>,
}

impl CaptionFrame {
    /// The frame that carries `cc_data` and has no time yet.
    pub open spec fn unscheduled(cc_data: u16) -> CaptionFrame {
        CaptionFrame { cc_data, pts: None, duration: None }
    }

    /// The frame that carries `cc_data` at `pts` for `duration`.
    pub open spec fn timed(cc_data: u16, pts: int, duration: int) -> CaptionFrame {
        CaptionFrame { cc_data, pts: Some(pts as u64), duration: Some(duration as u64) }
    }

    /// The two bytes that go on the wire: the code, most significant byte
    /// first.
    pub fn payload(&self) -> (bytes: [u8; 2])
        ensures
            bytes@ == seq![(self.cc_data >> 8) as u8, (self.cc_data & 0xff) as u8],
    {
        let cc_data: u16 = self.cc_data;
        assert(cc_data >> 8 <= 0xff) by (bit_vector);
        assert(cc_data & 0xff <= 0xff) by (bit_vector);
        let bytes: [u8; 2] = [(cc_data >> 8) as u8, (cc_data & 0xff) as u8];
        assert(bytes@ =~= seq![(cc_data >> 8) as u8, (cc_data & 0xff) as u8]);
        bytes
    }
}

/// A stretch of output time in which no caption frame is sent.
#[derive(Clone, Copy, Debug, PartialEq, Eq)]
pub struct Gap {
    /// Where the stretch starts, in nanoseconds.
    pub start: u64,
    /// How long it lasts, in nanoseconds.
    pub duration: u64,
}

/// What is handed to the transport in one piece: the caption frames in the
/// order in which they are sent and, before them, the gap to announce.
#[derive(Debug, PartialEq, Eq)]
pub struct Delivery {
    pub gap: Option<Gap>,
    pub frames: Vec<CaptionFrame>,
}

/// The mathematical value of a [`Delivery`].
pub struct DeliveryView {
    pub gap: Option<Gap>,
    pub frames: Seq<CaptionFrame>,
}

impl View for Delivery {
    type V = DeliveryView;

    open spec fn view(&self) -> DeliveryView {
        DeliveryView { gap: self.gap, frames: self.frames@ }
    }
}

/// The frame that carries `cc_data`, not yet scheduled.
pub fn buffer_from_cc_data(cc_data: u16) -> (frame: CaptionFrame)
    ensures
        frame == CaptionFrame::unscheduled(cc_data),
{
    CaptionFrame { cc_data, pts: None, duration: None }
}

/// `cc_data` twice: control codes are sent doubled.
pub open spec fn doubled(cc_data: u16) -> Seq<CaptionFrame> {
    seq![CaptionFrame::unscheduled(cc_data), CaptionFrame::unscheduled(cc_data)]
}

/// Appends the control command `cmd`, doubled.
pub fn control_command_buffer(
    table: &CodeTable,
    buffers: &mut Vec<CaptionFrame>,
    cmd: ControlCommand,
)
    ensures
        final(buffers)@ == old(buffers)@ + doubled(table.command(cmd)),
{
    let cc_data: u16 = eia608_control_command(table, cmd);
    buffers.push(buffer_from_cc_data(cc_data));
    buffers.push(buffer_from_cc_data(cc_data));
    assert(buffers@ =~= old(buffers)@ + doubled(table.command(cmd)));
}

/// Appends the command that clears the memory that is not on display.
pub fn erase_non_displayed_memory(table: &CodeTable, buffers: &mut Vec<CaptionFrame>)
    ensures
        final(buffers)@ == old(buffers)@ + doubled(table.erase_non_displayed_memory),
{
    control_command_buffer(table, buffers, ControlCommand::EraseNonDisplayedMemory);
}

/// Puts the command that clears the display, stamped with `pts` and
/// `duration`, at the head of `bufferlist`.
pub fn erase_display_memory(
    table: &CodeTable,
    bufferlist: &mut Vec<CaptionFrame>,
    pts: u64,
    duration: u64,
)
    ensures
        final(bufferlist)@ == seq![
            CaptionFrame::timed(table.erase_display_memory, pts as int, duration as int),
        ] + old(bufferlist)@,
{
    let cc_data: u16 = eia608_control_command(table, ControlCommand::EraseDisplayMemory);
    let mut buffer = buffer_from_cc_data(cc_data);
    buffer.pts = Some(pts);
    buffer.duration = Some(duration);
    bufferlist.insert(0, buffer);
    assert(bufferlist@ =~= seq![
        CaptionFrame::timed(table.erase_display_memory, pts as int, duration as int),
    ] + old(bufferlist)@);
}

/// Appends the command that directs what follows to the memory that is not on
/// display.
pub fn resume_caption_loading(table: &CodeTable, buffers: &mut Vec<CaptionFrame>)
    ensures
        final(buffers)@ == old(buffers)@ + doubled(table.resume_caption_loading),
{
    control_command_buffer(table, buffers, ControlCommand::ResumeCaptionLoading);
}

/// Appends the command that puts the loaded caption on display.
pub fn end_of_caption(table: &CodeTable, buffers: &mut Vec<CaptionFrame>)
    ensures
        final(buffers)@ == old(buffers)@ + doubled(table.end_of_caption),
{
    control_command_buffer(table, buffers, ControlCommand::EndOfCaption);
}

/// Appends the preamble for `row` and `col`, doubled.
pub fn preamble_buffer(table: &CodeTable, buffers: &mut Vec<CaptionFrame>, row: i32, col: i32)
    requires
        table.wf(),
        0 <= row < ROWS,
        0 <= col < COLUMNS,
    ensures
        final(buffers)@ == old(buffers)@ + doubled(table.preamble(row as int, col as int)),
{
    let cc_data: u16 = eia608_row_column_preamble(table, row, col);
    buffers.push(buffer_from_cc_data(cc_data));
    buffers.push(buffer_from_cc_data(cc_data));
    assert(buffers@ =~= old(buffers)@ + doubled(table.preamble(row as int, col as int)));
}

/// Appends the two basic North American characters `bna1` and `bna2` as one
/// frame.
pub fn bna_buffer(buffers: &mut Vec<CaptionFrame>, bna1: u16, bna2: u16)
    ensures
        final(buffers)@ == old(buffers)@.push(CaptionFrame::unscheduled(basicna_pair(bna1, bna2))),
{
    let cc_data: u16 = eia608_from_basicna(bna1, bna2);
    buffers.push(buffer_from_cc_data(cc_data));
}

} // verus!

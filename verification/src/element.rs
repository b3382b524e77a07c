//! The entry points of a stream: a cue comes in and caption frames go out;
//! notifications from the transport resolve a pending erasure of the display;
//! a latency query is answered.

use vstd::prelude::*;
use vstd::string::StringSliceAdditionalSpecFns;
use vstd::utf8::{decode_utf8, encode_utf8_decode_utf8, valid_utf8};
use crate::cea608::CodeTable;
use crate::encoder::{cue_frames, cue_warnings, encode_text, Warning};
use crate::frame::{Delivery, DeliveryView};
use crate::scheduler::{
    cue_plan, delivery_view, do_erase_display, erase_delivery, schedule_cue, State,
};
use crate::time::{frames_to_time, time_to_frames, FrameRate};

verus! {

/// The number of frames by which the output lags behind the input. It is
/// reckoned for one cue: two frames for the command that resumes caption
/// loading, two for the command that erases the memory that is not on display,
/// four for the preambles of two rows, sixty-four for the text, and two for an
/// erasure of the display that is worked in.
pub const LATENCY_BUFFERS: u64 = 74;

/// The error with which `std::str::from_utf8` refuses bytes; nothing of it is
/// read here.
#[verifier::external_type_specification]
#[verifier::external_body]
pub struct ExUtf8Error(core::str::Utf8Error);

/// `std::str::from_utf8` accepts exactly the byte strings that are valid
/// UTF-8, and what it returns for one is a view of those same bytes as text.
pub assume_specification[ core::str::from_utf8 ](v: &[u8]) -> (text: Result<
    &str,
    core::str::Utf8Error,
>)
    ensures
        text is Ok <==> valid_utf8(v@),
        text matches Ok(s) ==> s.spec_bytes() == v@,
;

/// Why a cue was refused.
#[derive(Clone, Copy, Debug, PartialEq, Eq)]
pub enum CueError {
    /// The cue has no timestamp.
    MissingTimestamp,
    /// The cue has no duration.
    MissingDuration,
    /// The text of the cue is not UTF-8.
    InvalidUtf8,
}

impl CueError {
    /// The error in words.
    pub fn message(&self) -> (text: &'static str)
        ensures
            text@ == match *self {
                CueError::MissingTimestamp => "Stream with timestamped buffers required"@,
                CueError::MissingDuration => "Buffers of stream need to have a duration"@,
                CueError::InvalidUtf8 => "Can't decode utf8"@,
            },
    {
        match self {
            CueError::MissingTimestamp => "Stream with timestamped buffers required",
            CueError::MissingDuration => "Buffers of stream need to have a duration",
            CueError::InvalidUtf8 => "Can't decode utf8",
        }
    }
}

/// What a cue comes to: the deliveries for the transport, in their order, and
/// the warnings for whoever watches the stream.
#[derive(Debug, PartialEq, Eq)]
pub struct ChainOutput {
    /// A pending erasure of the display that this cue has resolved and that
    /// goes out before it.
    pub erase: Option<Delivery>,
    /// The caption frames of the cue.
    pub cue: Delivery,
    /// What the encoder met in the text and went on from.
    pub warnings: Vec<Warning>,
}

/// The mathematical value of a [`ChainOutput`].
pub struct ChainView {
    pub erase: Option<DeliveryView>,
    pub cue: DeliveryView,
    pub warnings: Seq<Warning>,
}

impl View for ChainOutput {
    type V = ChainView;

    open spec fn view(&self) -> ChainView {
        ChainView { erase: delivery_view(self.erase), cue: self.cue@, warnings: self.warnings@ }
    }
}

/// The error that refuses a cue of the bytes `data` with the timestamp `pts`
/// and the duration `duration`, where it is refused: a cue must have both
/// times, and its text must be UTF-8.
pub open spec fn chain_error(data: Seq<u8>, pts: Option<u64>, duration: Option<u64>) -> Option<
    CueError,
> {
    if pts is None {
        Some(CueError::MissingTimestamp)
    } else if duration is None {
        Some(CueError::MissingDuration)
    } else if !valid_utf8(data) {
        Some(CueError::InvalidUtf8)
    } else {
        None
    }
}

/// Reads the text of a cue of the bytes `data` with the timestamp `pts` and
/// the duration `duration`, or says why the cue is refused.
pub fn cue_text<'a>(data: &'a [u8], pts: Option<u64>, duration: Option<u64>) -> (result: Result<
    &'a str,
    CueError,
>)
    ensures
        match result {
            Ok(text) => chain_error(data@, pts, duration) is None && text@ == decode_utf8(data@),
            Err(error) => chain_error(data@, pts, duration) == Some(error),
        },
{
    if pts.is_none() {
        return Err(CueError::MissingTimestamp);
    }
    if duration.is_none() {
        return Err(CueError::MissingDuration);
    }
    match core::str::from_utf8(data) {
        Ok(text) => {
            proof {
                encode_utf8_decode_utf8(text@);
            }
            Ok(text)
        },
        Err(_) => Err(CueError::InvalidUtf8),
    }
}

/// Takes one cue: the text `data` to show from `pts` for `duration`, both in
/// nanoseconds.
///
/// The text is encoded into caption frames, and those are scheduled backward
/// from the frame at which the cue is to show. A cue that is refused leaves
/// the state as it was.
pub fn sink_chain(
    state: &mut State,
    table: &CodeTable,
    data: &[u8],
    pts: Option<u64>,
    duration: Option<u64>,
) -> (result: Result<ChainOutput, CueError>)
    requires
        old(state).wf(),
        table.wf(),
        pts is Some && duration is Some ==> pts->0 + duration->0 <= u64::MAX,
    ensures
        final(state).wf(),
        match result {
            Ok(output) => {
                let text = decode_utf8(data@);
                let plan = cue_plan(
                    *old(state),
                    table,
                    cue_frames(table, text),
                    pts->0 as int,
                    duration->0 as int,
                );
                &&& chain_error(data@, pts, duration) is None
                &&& *final(state) == plan.state
                &&& output@ == (ChainView {
                    erase: plan.erase,
                    cue: plan.cue,
                    warnings: cue_warnings(table, text),
                })
            },
            Err(error) => {
                &&& chain_error(data@, pts, duration) == Some(error)
                &&& *final(state) == *old(state)
            },
        },
{
    let text: &str = match cue_text(data, pts, duration) {
        Ok(text) => text,
        Err(error) => {
            return Err(error);
        },
    };
    let (buffers, warnings) = encode_text(table, text);
    let (erase, cue) = schedule_cue(state, table, buffers, pts.unwrap(), duration.unwrap());

    Ok(ChainOutput { erase, cue, warnings })
}

/// The latency that the element adds at the frame rate `rate`, in
/// nanoseconds: the time of the frames that one cue may take.
pub open spec fn latency_spec(rate: FrameRate) -> int {
    rate.frames_to_time(LATENCY_BUFFERS as int)
}

/// The latency that the element adds at its frame rate, in nanoseconds.
pub fn latency(state: &State) -> (nanos: u64)
    requires
        state.framerate.wf(),
    ensures
        nanos == latency_spec(state.framerate),
{
    frames_to_time(LATENCY_BUFFERS, state.framerate.fps_n(), state.framerate.fps_d())
}

/// A latency bound with `latency` added: an unknown bound stays unknown, and
/// a sum that no timestamp holds is unknown.
pub open spec fn add_latency(bound: Option<u64>, latency: int) -> Option<u64> {
    match bound {
        Some(nanos) => if nanos + latency <= u64::MAX {
            Some((nanos + latency) as u64)
        } else {
            None
        },
        None => None,
    }
}

/// Answers a latency query from the answer `(live, min, max)` of the peer
/// upstream: the latency of the element is added to both bounds.
pub fn src_query(state: &State, live: bool, min: Option<u64>, max: Option<u64>) -> (answer: (
    bool,
    Option<u64>,
    Option<u64>,
))
    requires
        state.framerate.wf(),
    ensures
        answer.0 == live,
        answer.1 == add_latency(min, latency_spec(state.framerate)),
        answer.2 == add_latency(max, latency_spec(state.framerate)),
{
    let our_latency: u64 = latency(state);
    let min = match min {
        Some(nanos) => nanos.checked_add(our_latency),
        None => None,
    };
    let max = match max {
        Some(nanos) => nanos.checked_add(our_latency),
        None => None,
    };
    (live, min, max)
}

/// A notification from the transport, as far as the scheduler reads it.
#[derive(Clone, Copy, Debug, PartialEq, Eq)]
pub enum SinkEvent {
    /// The output format has been settled, with this frame rate.
    Caps(FrameRate),
    /// Nothing will come before `end`, in nanoseconds.
    Gap { end: u64 },
    /// Nothing more will come.
    Eos,
    /// Any other notification.
    Other,
}

/// What the caller does about a notification once the scheduler has seen it.
#[derive(Clone, Copy, Debug, PartialEq, Eq)]
pub enum EventReply {
    /// Announce the settled format downstream, and answer as that went.
    PushCaps,
    /// Answer that the notification was handled.
    Handled,
    /// Hand the notification on, and answer as that went.
    Forward,
}

/// What a notification comes to.
#[derive(Debug, PartialEq, Eq)]
pub struct EventOutcome {
    /// The erasure of the display to deliver first, where the notification has
    /// resolved one. A failure to deliver it is not reported.
    pub erase: Option<Delivery>,
    /// What to do about the notification itself.
    pub reply: EventReply,
}

/// What a notification comes to, as mathematical values.
pub struct EventPlan {
    /// The scheduling state after the notification.
    pub state: State,
    /// The erasure of the display that it resolved.
    pub erase: Option<DeliveryView>,
    /// What to do about the notification itself.
    pub reply: EventReply,
}

/// The state after a pending erasure has been resolved, and the erasure to
/// deliver: it is scheduled over the floor, the floor moves to its frame, and
/// nothing is pending any more.
pub open spec fn resolve_erase(state: State, table: &CodeTable) -> (State, Option<DeliveryView>) {
    match state.erase_display_frame_no {
        Some(erase_frame) => (
            State { erase_display_frame_no: None, last_frame_no: erase_frame, ..state },
            Some(
                erase_delivery(
                    state.framerate,
                    table,
                    state.last_frame_no as int,
                    erase_frame as int,
                ),
            ),
        ),
        None => (state, None),
    }
}

/// Whether a gap that ends at `end` resolves the erasure pending in `state`.
///
/// The frame of `end` is taken back by the latency, to make up for what is
/// still buffered. A gap whose frame, taken back, is still within the latency
/// resolves nothing; any other resolves an erasure whose frame it has reached.
pub open spec fn gap_resolves(state: State, end: int) -> bool {
    let adjusted = state.framerate.time_to_frames(end) - LATENCY_BUFFERS;
    &&& adjusted >= LATENCY_BUFFERS
    &&& state.erase_display_frame_no matches Some(erase_frame)
    &&& erase_frame <= adjusted
}

/// What the notification `event` comes to in `state`.
///
/// Settled caps set the frame rate. A gap resolves a pending erasure whose
/// frame it has reached, the end of the stream resolves any. Everything else
/// passes.
pub open spec fn event_plan(state: State, table: &CodeTable, event: SinkEvent) -> EventPlan {
    match event {
        SinkEvent::Caps(framerate) => EventPlan {
            state: State { framerate, ..state },
            erase: None,
            reply: EventReply::PushCaps,
        },
        SinkEvent::Gap { end } => if gap_resolves(state, end as int) {
            EventPlan {
                state: resolve_erase(state, table).0,
                erase: resolve_erase(state, table).1,
                reply: EventReply::Handled,
            }
        } else {
            EventPlan { state, erase: None, reply: EventReply::Handled }
        },
        SinkEvent::Eos => EventPlan {
            state: resolve_erase(state, table).0,
            erase: resolve_erase(state, table).1,
            reply: EventReply::Forward,
        },
        SinkEvent::Other => EventPlan { state, erase: None, reply: EventReply::Forward },
    }
}

/// Takes a notification from the transport.
pub fn sink_event(state: &mut State, table: &CodeTable, event: SinkEvent) -> (outcome:
    EventOutcome)
    requires
        old(state).wf(),
        event matches SinkEvent::Caps(framerate) ==> framerate.wf(),
    ensures
        final(state).wf(),
        *final(state) == event_plan(*old(state), table, event).state,
        delivery_view(outcome.erase) == event_plan(*old(state), table, event).erase,
        outcome.reply == event_plan(*old(state), table, event).reply,
{
    match event {
        SinkEvent::Caps(framerate) => {
            state.framerate = framerate;
            EventOutcome { erase: None, reply: EventReply::PushCaps }
        },
        SinkEvent::Gap { end } => {
            let fps_n: u64 = state.framerate.fps_n();
            let fps_d: u64 = state.framerate.fps_d();
            let mut frame_no: u64 = time_to_frames(end, fps_n, fps_d);

            if frame_no < LATENCY_BUFFERS {
                return EventOutcome { erase: None, reply: EventReply::Handled };
            }
            frame_no -= LATENCY_BUFFERS;
            if frame_no < LATENCY_BUFFERS {
                return EventOutcome { erase: None, reply: EventReply::Handled };
            }

            let mut erase: Option<Delivery> = None;
            if let Some(erase_display_frame_no) = state.erase_display_frame_no {
                if erase_display_frame_no <= frame_no {
                    let min_frame_no: u64 = state.last_frame_no;
                    state.erase_display_frame_no = None;
                    erase = Some(
                        do_erase_display(state, table, min_frame_no, erase_display_frame_no),
                    );
                }
            }
            EventOutcome { erase, reply: EventReply::Handled }
        },
        SinkEvent::Eos => {
            let mut erase: Option<Delivery> = None;
            if let Some(erase_display_frame_no) = state.erase_display_frame_no {
                let min_frame_no: u64 = state.last_frame_no;
                state.erase_display_frame_no = None;
                erase = Some(do_erase_display(state, table, min_frame_no, erase_display_frame_no));
            }
            EventOutcome { erase, reply: EventReply::Forward }
        },
        SinkEvent::Other => EventOutcome { erase: None, reply: EventReply::Forward },
    }
}

/// The end of the stream resolves a pending erasure once: it delivers one
/// exactly where one is pending, leaves nothing pending, and a second end of
/// the stream right behind it delivers nothing and changes nothing.
pub proof fn lemma_eos_resolves_once(state: State, table: &CodeTable)
    ensures
        ({
            let first = event_plan(state, table, SinkEvent::Eos);
            let second = event_plan(first.state, table, SinkEvent::Eos);
            &&& first.erase is Some <==> state.erase_display_frame_no is Some
            &&& first.state.erase_display_frame_no is None
            &&& second.erase is None
            &&& second.state == first.state
        }),
{
}

/// The latency goes by the frame rate alone: a cue leaves it as it was, and so
/// does every notification but the one that sets a frame rate.
pub proof fn lemma_latency_is_stable(
    state: State,
    table: &CodeTable,
    frames: Seq<crate::frame::CaptionFrame>,
    pts: int,
    duration: int,
    event: SinkEvent,
)
    ensures
        latency_spec(cue_plan(state, table, frames, pts, duration).state.framerate)
            == latency_spec(state.framerate),
        !(event is Caps) ==> latency_spec(event_plan(state, table, event).state.framerate)
            == latency_spec(state.framerate),
{
}

/// A change of the element's running state, as far as the scheduler reads it.
#[derive(Clone, Copy, Debug, PartialEq, Eq)]
pub enum StateChange {
    /// The element gets ready to stream.
    ReadyToPaused,
    /// The element stops streaming.
    PausedToReady,
    /// Any other change.
    Other,
}

/// The two moments of a change at which the scheduler is told of it.
#[derive(Clone, Copy, Debug, PartialEq, Eq)]
pub enum ChangePhase {
    /// Before the change is made.
    Before,
    /// After the change has been made.
    After,
}

/// Whether the scheduling state starts afresh at this moment: before the
/// element gets ready to stream, and after it has stopped streaming.
pub open spec fn resets(transition: StateChange, phase: ChangePhase) -> bool {
    ||| transition is ReadyToPaused && phase is Before
    ||| transition is PausedToReady && phase is After
}

/// Takes a change of the element's running state: a session that starts or
/// has ended leaves a fresh state, with nothing pending.
pub fn change_state(state: &mut State, transition: StateChange, phase: ChangePhase)
    requires
        old(state).wf(),
    ensures
        final(state).wf(),
        *final(state) == if resets(transition, phase) {
            State {
                framerate: FrameRate { numer: 30, denom: 1 },
                erase_display_frame_no: None,
                last_frame_no: 0,
            }
        } else {
            *old(state)
        },
{
    let reset = match (transition, phase) {
        (StateChange::ReadyToPaused, ChangePhase::Before) => true,
        (StateChange::PausedToReady, ChangePhase::After) => true,
        _ => false,
    };
    if reset {
        *state = State::default();
    }
}

} // verus!

//! The frame-time scheduler: every caption frame of a cue gets the timestamp
//! of a video frame, assigned backward from the frame at which the cue is to
//! show, and a pending erasure of the display is worked in where its frame is
//! passed.

use vstd::prelude::*;
use crate::cea608::CodeTable;
use crate::frame::{doubled, erase_display_memory, CaptionFrame, Delivery, DeliveryView, Gap};
use crate::time::{
    decrement_frame, decrement_pts, frames_to_time, lemma_frames_to_time_monotonic,
    lemma_frames_to_time_range, lemma_time_to_frames_monotonic, lemma_time_to_frames_range,
    time_to_frames, FrameRate,
};

verus! {

/// The scheduling state of one stream.
#[derive(Clone, Copy, Debug, PartialEq, Eq)]
pub struct State {
    /// The frame rate of the output.
    pub framerate: FrameRate,
    /// The frame at which the display is to be erased, while that is pending.
    pub erase_display_frame_no: Option<u64>,
    /// The floor: the frame below which nothing more is scheduled.
    pub last_frame_no: u64,
}

impl State {
    /// A state is well formed when its frame rate is, and a pending erasure
    /// does not lie below the floor.
    pub open spec fn wf(&self) -> bool {
        &&& self.framerate.wf()
        &&& self.erase_display_frame_no matches Some(erase_frame) ==> self.last_frame_no
            <= erase_frame
    }
}

impl Default for State {
    fn default() -> (state: State)
        ensures
            state == (State {
                framerate: FrameRate { numer: 30, denom: 1 },
                erase_display_frame_no: None,
                last_frame_no: 0,
            }),
            state.wf(),
    {
        State { framerate: FrameRate::default(), erase_display_frame_no: None, last_frame_no: 0 }
    }
}

/// The frame that `steps` backward steps reach from `target`: one frame down
/// per step as far as `floor`, and no step at all from a target below it.
pub open spec fn frame_after(target: int, floor: int, steps: int) -> int {
    if target - steps >= floor {
        target - steps
    } else if target >= floor {
        floor
    } else {
        target
    }
}

/// `frame` with the time that the backward step number `step` gives it: it
/// starts with the frame that the step reaches and lasts until the frame that
/// the step left.
pub open spec fn stamped(
    rate: FrameRate,
    frame: CaptionFrame,
    target: int,
    floor: int,
    step: int,
) -> CaptionFrame {
    CaptionFrame {
        cc_data: frame.cc_data,
        pts: Some(rate.frames_to_time(frame_after(target, floor, step)) as u64),
        duration: Some(
            (rate.frames_to_time(frame_after(target, floor, step - 1)) - rate.frames_to_time(
                frame_after(target, floor, step),
            )) as u64,
        ),
    }
}

/// `frames` in their order, each with its time: the last frame takes the first
/// step backward from `target`, the frame before it the second, and so on.
pub open spec fn scheduled(
    rate: FrameRate,
    frames: Seq<CaptionFrame>,
    target: int,
    floor: int,
) -> Seq<CaptionFrame> {
    Seq::new(frames.len(), |i: int| stamped(rate, frames[i], target, floor, frames.len() - i))
}

/// The gap to announce where the output moves on from `last_frame_no` to
/// `new_frame_no`: none unless it moves forward.
pub open spec fn gap_between(rate: FrameRate, last_frame_no: int, new_frame_no: int) -> Option<
    Gap,
> {
    if new_frame_no > last_frame_no {
        Some(
            Gap {
                start: rate.frames_to_time(last_frame_no) as u64,
                duration: (rate.frames_to_time(new_frame_no) - rate.frames_to_time(last_frame_no))
                    as u64,
            },
        )
    } else {
        None
    }
}

/// What is delivered to erase the display at `erase_frame` over the floor
/// `min_frame_no`: the command, doubled, on the two frames before
/// `erase_frame`.
pub open spec fn erase_delivery(
    rate: FrameRate,
    table: &CodeTable,
    min_frame_no: int,
    erase_frame: int,
) -> DeliveryView {
    DeliveryView {
        gap: gap_between(rate, min_frame_no, frame_after(erase_frame, min_frame_no, 2)),
        frames: scheduled(rate, doubled(table.erase_display_memory), erase_frame, min_frame_no),
    }
}

/// Backward steps add up.
pub proof fn lemma_frame_after_step(target: int, floor: int, steps: int)
    requires
        0 <= steps,
    ensures
        frame_after(target, floor, 0) == target,
        frame_after(target, floor, steps + 1) == decrement_frame(
            floor,
            frame_after(target, floor, steps),
        ),
        frame_after(target, floor, steps + 1) <= frame_after(target, floor, steps),
        target >= floor ==> frame_after(target, floor, steps) >= floor,
        target >= 0 && floor >= 0 ==> frame_after(target, floor, steps) >= 0,
{
}

/// A frame put before scheduled frames takes the next step; the frames behind
/// it keep their times.
pub proof fn lemma_scheduled_prepend(
    rate: FrameRate,
    frame: CaptionFrame,
    frames: Seq<CaptionFrame>,
    target: int,
    floor: int,
)
    ensures
        scheduled(rate, seq![frame] + frames, target, floor) == seq![
            stamped(rate, frame, target, floor, frames.len() as int + 1),
        ] + scheduled(rate, frames, target, floor),
{
    assert(scheduled(rate, seq![frame] + frames, target, floor) =~= seq![
        stamped(rate, frame, target, floor, frames.len() as int + 1),
    ] + scheduled(rate, frames, target, floor));
}

/// Packs `bufferlist` for the transport, with the gap to announce where the
/// output moves on from `last_frame_no` to `new_frame_no`.
pub fn push_list(
    state: &State,
    bufferlist: Vec<CaptionFrame>,
    last_frame_no: u64,
    new_frame_no: u64,
) -> (delivery: Delivery)
    requires
        state.framerate.wf(),
    ensures
        delivery@ == (DeliveryView {
            gap: gap_between(state.framerate, last_frame_no as int, new_frame_no as int),
            frames: bufferlist@,
        }),
{
    let gap = if new_frame_no > last_frame_no {
        let fps_n: u64 = state.framerate.fps_n();
        let fps_d: u64 = state.framerate.fps_d();
        let start: u64 = frames_to_time(last_frame_no, fps_n, fps_d);
        let end: u64 = frames_to_time(new_frame_no, fps_n, fps_d);
        proof {
            lemma_frames_to_time_monotonic(
                last_frame_no as int,
                new_frame_no as int,
                fps_n as int,
                fps_d as int,
            );
        }
        Some(Gap { start, duration: end - start })
    } else {
        None
    };
    Delivery { gap, frames: bufferlist }
}

/// Schedules the erasure of the display at `erase_display_frame_no` over the
/// floor `min_frame_no`, and moves the floor of `state` up to that frame.
pub fn do_erase_display(
    state: &mut State,
    table: &CodeTable,
    min_frame_no: u64,
    erase_display_frame_no: u64,
) -> (delivery: Delivery)
    requires
        old(state).framerate.wf(),
    ensures
        *final(state) == (State { last_frame_no: erase_display_frame_no, ..*old(state) }),
        delivery@ == erase_delivery(
            old(state).framerate,
            table,
            min_frame_no as int,
            erase_display_frame_no as int,
        ),
{
    let fps_n: u64 = state.framerate.fps_n();
    let fps_d: u64 = state.framerate.fps_d();
    let mut frame_no: u64 = erase_display_frame_no;
    let mut bufferlist: Vec<CaptionFrame> = Vec::new();

    state.last_frame_no = erase_display_frame_no;

    proof {
        lemma_frame_after_step(erase_display_frame_no as int, min_frame_no as int, 0);
        lemma_frame_after_step(erase_display_frame_no as int, min_frame_no as int, 1);
    }
    let (pts, duration) = decrement_pts(min_frame_no, &mut frame_no, fps_n, fps_d);
    erase_display_memory(table, &mut bufferlist, pts, duration);
    let (pts, duration) = decrement_pts(min_frame_no, &mut frame_no, fps_n, fps_d);
    erase_display_memory(table, &mut bufferlist, pts, duration);

    assert(bufferlist@ =~= scheduled(
        state.framerate,
        doubled(table.erase_display_memory),
        erase_display_frame_no as int,
        min_frame_no as int,
    ));

    push_list(state, bufferlist, min_frame_no, frame_no)
}

/// The pending erasure that a cue starting in `start_frame` takes along: one
/// whose frame lies before `start_frame`.
pub open spec fn due_erase(pending: Option<u64>, start_frame: int) -> Option<u64> {
    match pending {
        Some(erase_frame) => if erase_frame < start_frame {
            Some(erase_frame)
        } else {
            None
        },
        None => None,
    }
}

/// The number of backward steps after which a cue of `count` frames passes the
/// frame of the erasure `due`, where it does: the floor must not hide that
/// frame, and a frame of the cue must still be left to schedule there.
pub open spec fn splice_steps(due: Option<u64>, target: int, floor: int, count: int) -> Option<
    int,
> {
    match due {
        Some(erase_frame) => if floor <= erase_frame && target - erase_frame < count {
            Some(target - erase_frame)
        } else {
            None
        },
        None => None,
    }
}

/// `frames` with the command that erases the display, doubled, before the last
/// `steps` of them.
pub open spec fn with_erase(table: &CodeTable, frames: Seq<CaptionFrame>, steps: int) -> Seq<
    CaptionFrame,
> {
    frames.subrange(0, frames.len() - steps) + doubled(table.erase_display_memory)
        + frames.subrange(frames.len() - steps, frames.len() as int)
}

/// What scheduling a cue comes to.
pub struct CuePlan {
    /// The scheduling state after the cue.
    pub state: State,
    /// The erasure that is delivered before the cue, where there is one.
    pub erase: Option<DeliveryView>,
    /// The frames of the cue, with the erasure where it was worked in.
    pub cue: DeliveryView,
}

/// The frame from which a cue that starts at `pts` is scheduled backward: two
/// frames after the frame of `pts`, one for the second of the commands that
/// end the caption and one from which its duration is reckoned.
pub open spec fn target_frame(rate: FrameRate, pts: int) -> int {
    rate.time_to_frames(pts) + 2
}

/// The plan for a cue of the unscheduled `frames` that starts at `pts` and
/// lasts for `duration`.
///
/// The frames are scheduled backward from the target frame of `pts` over the
/// floor of `state`. A pending erasure that is due is worked in where the
/// frames pass its frame; where they do not, it is delivered on its own before
/// them. The floor moves to the target frame, and the erasure of this cue
/// becomes pending at the target frame of its end.
pub open spec fn cue_plan(
    state: State,
    table: &CodeTable,
    frames: Seq<CaptionFrame>,
    pts: int,
    duration: int,
) -> CuePlan {
    let rate = state.framerate;
    let target = target_frame(rate, pts);
    let floor = state.last_frame_no as int;
    let due = due_erase(state.erase_display_frame_no, target - 2);
    let count = frames.len() as int;
    let next = State {
        framerate: rate,
        erase_display_frame_no: Some(target_frame(rate, pts + duration) as u64),
        last_frame_no: target as u64,
    };
    match splice_steps(due, target, floor, count) {
        Some(steps) => CuePlan {
            state: next,
            erase: None,
            cue: DeliveryView {
                gap: gap_between(rate, floor, frame_after(target, floor, count + 2)),
                frames: scheduled(rate, with_erase(table, frames, steps), target, floor),
            },
        },
        None => CuePlan {
            state: next,
            erase: match due {
                Some(erase_frame) => Some(erase_delivery(rate, table, floor, erase_frame as int)),
                None => None,
            },
            cue: DeliveryView {
                gap: gap_between(
                    rate,
                    match due {
                        Some(erase_frame) => erase_frame as int,
                        None => floor,
                    },
                    frame_after(target, floor, count),
                ),
                frames: scheduled(rate, frames, target, floor),
            },
        },
    }
}

/// The mathematical value of a delivery that may be absent.
pub open spec fn delivery_view(delivery: Option<Delivery>) -> Option<DeliveryView> {
    match delivery {
        Some(d) => Some(d@),
        None => None,
    }
}

/// Schedules the unscheduled frames `buffers` of a cue that starts at `pts`
/// and lasts for `duration`, and returns the erasure to deliver before the
/// cue, where there is one, and the cue.
pub fn schedule_cue(
    state: &mut State,
    table: &CodeTable,
    buffers: Vec<CaptionFrame>,
    pts: u64,
    duration: u64,
) -> (planned: (Option<Delivery>, Delivery))
    requires
        old(state).wf(),
        pts + duration <= u64::MAX,
    ensures
        *final(state) == cue_plan(*old(state), table, buffers@, pts as int, duration as int).state,
        final(state).wf(),
        delivery_view(planned.0) == cue_plan(
            *old(state),
            table,
            buffers@,
            pts as int,
            duration as int,
        ).erase,
        planned.1@ == cue_plan(*old(state), table, buffers@, pts as int, duration as int).cue,
{
    let rate = state.framerate;
    let fps_n: u64 = rate.fps_n();
    let fps_d: u64 = rate.fps_d();
    let count: usize = buffers.len();
    let mut bufferlist: Vec<CaptionFrame> = Vec::new();

    let start_frame: u64 = time_to_frames(pts, fps_n, fps_d);
    let end_frame: u64 = time_to_frames(pts + duration, fps_n, fps_d);
    proof {
        lemma_time_to_frames_range(pts as int, fps_n as int, fps_d as int);
        lemma_time_to_frames_range(pts + duration, fps_n as int, fps_d as int);
        lemma_time_to_frames_monotonic(pts as int, pts + duration, fps_n as int, fps_d as int);
    }

    let mut erase_display_frame_no: Option<u64> = match state.erase_display_frame_no {
        Some(erase_frame) => if erase_frame < start_frame {
            Some(erase_frame)
        } else {
            None
        },
        None => None,
    };
    let ghost due = erase_display_frame_no;

    let target: u64 = start_frame + 2;
    let mut frame_no: u64 = target;
    let min_frame_no: u64 = state.last_frame_no;

    let ghost mut tail: Seq<CaptionFrame> = Seq::empty();
    let mut i: usize = count;
    assert(bufferlist@ =~= scheduled(rate, tail, target as int, min_frame_no as int));
    assert(tail =~= buffers@.subrange(i as int, count as int));

    while i > 0
        invariant
            rate.wf(),
            fps_n == rate.numer,
            fps_d == rate.denom,
            count == buffers@.len(),
            i <= count,
            due == due_erase(old(state).erase_display_frame_no, target - 2),
            due matches Some(erase_frame) ==> erase_frame < target - 2,
            frame_no == frame_after(target as int, min_frame_no as int, tail.len() as int),
            bufferlist@ == scheduled(rate, tail, target as int, min_frame_no as int),
            erase_display_frame_no matches Some(erase_frame) ==> {
                &&& due == Some(erase_frame)
                &&& tail == buffers@.subrange(i as int, count as int)
                &&& !(min_frame_no <= erase_frame && target - erase_frame < count - i)
            },
            erase_display_frame_no is None ==> match due {
                Some(erase_frame) => {
                    &&& min_frame_no <= erase_frame
                    &&& target - erase_frame < count
                    &&& i <= count - (target - erase_frame)
                    &&& tail == buffers@.subrange(i as int, count - (target - erase_frame))
                        + doubled(table.erase_display_memory) + buffers@.subrange(
                        count - (target - erase_frame),
                        count as int,
                    )
                },
                None => tail == buffers@.subrange(i as int, count as int),
            },
        decreases i,
    {
        /* Work the erasure of the display in where its frame is passed */
        if erase_display_frame_no == Some(frame_no) {
            let ghost steps = tail.len() as int;
            let ghost erase = CaptionFrame::unscheduled(table.erase_display_memory);
            proof {
                lemma_frame_after_step(target as int, min_frame_no as int, steps);
                lemma_frame_after_step(target as int, min_frame_no as int, steps + 1);
                lemma_scheduled_prepend(rate, erase, tail, target as int, min_frame_no as int);
                lemma_scheduled_prepend(
                    rate,
                    erase,
                    seq![erase] + tail,
                    target as int,
                    min_frame_no as int,
                );
            }
            let (pts, duration) = decrement_pts(min_frame_no, &mut frame_no, fps_n, fps_d);
            erase_display_memory(table, &mut bufferlist, pts, duration);
            let (pts, duration) = decrement_pts(min_frame_no, &mut frame_no, fps_n, fps_d);
            erase_display_memory(table, &mut bufferlist, pts, duration);

            erase_display_frame_no = None;
            proof {
                assert(seq![erase] + (seq![erase] + tail) =~= doubled(table.erase_display_memory)
                    + tail);
                assert(buffers@.subrange(i as int, i as int) + doubled(
                    table.erase_display_memory,
                ) + tail =~= doubled(table.erase_display_memory) + tail);
                tail = doubled(table.erase_display_memory) + tail;
            }
        }
        i -= 1;
        let mut buffer: CaptionFrame = buffers[i];
        proof {
            lemma_frame_after_step(target as int, min_frame_no as int, tail.len() as int);
            lemma_scheduled_prepend(rate, buffer, tail, target as int, min_frame_no as int);
        }
        let ghost unstamped = buffer;
        let (pts, duration) = decrement_pts(min_frame_no, &mut frame_no, fps_n, fps_d);
        buffer.pts = Some(pts);
        buffer.duration = Some(duration);
        bufferlist.insert(0, buffer);
        proof {
            assert(bufferlist@ =~= seq![buffer] + scheduled(
                rate,
                tail,
                target as int,
                min_frame_no as int,
            ));
            match (erase_display_frame_no, due) {
                (None, Some(erase_frame)) => {
                    assert(seq![unstamped] + tail =~= buffers@.subrange(
                        i as int,
                        count - (target - erase_frame),
                    ) + doubled(table.erase_display_memory) + buffers@.subrange(
                        count - (target - erase_frame),
                        count as int,
                    ));
                },
                _ => {
                    assert(seq![unstamped] + tail =~= buffers@.subrange(i as int, count as int));
                },
            }
            tail = seq![unstamped] + tail;
        }
    }

    let erase: Option<Delivery> = match erase_display_frame_no {
        Some(erase_frame) => Some(do_erase_display(state, table, min_frame_no, erase_frame)),
        None => None,
    };
    let gap_floor: u64 = match erase_display_frame_no {
        Some(erase_frame) => erase_frame,
        None => min_frame_no,
    };

    state.last_frame_no = target;
    state.erase_display_frame_no = Some(end_frame + 2);

    proof {
        assert(buffers@.subrange(0, count as int) =~= buffers@);
    }
    let cue = push_list(state, bufferlist, gap_floor, frame_no);
    (erase, cue)
}

/// The time of a scheduled frame, spelled out: the frame at `i` of `frames`
/// starts with the frame that is reached by as many steps as there are frames
/// from `i` on, and ends where the frame behind it starts, the last one with
/// the target frame.
pub proof fn lemma_scheduled_frame(
    rate: FrameRate,
    frames: Seq<CaptionFrame>,
    target: int,
    floor: int,
    i: int,
)
    requires
        rate.wf(),
        0 <= target,
        0 <= floor,
        0 <= i < frames.len(),
    ensures
        scheduled(rate, frames, target, floor).len() == frames.len(),
        scheduled(rate, frames, target, floor)[i].cc_data == frames[i].cc_data,
        scheduled(rate, frames, target, floor)[i].pts == Some(
            rate.frames_to_time(frame_after(target, floor, frames.len() - i)) as u64,
        ),
        scheduled(rate, frames, target, floor)[i].pts->0 == rate.frames_to_time(
            frame_after(target, floor, frames.len() - i),
        ),
        scheduled(rate, frames, target, floor)[i].duration is Some,
        scheduled(rate, frames, target, floor)[i].pts->0 + scheduled(
            rate,
            frames,
            target,
            floor,
        )[i].duration->0 == rate.frames_to_time(frame_after(target, floor, frames.len() - i - 1)),
{
    let steps = frames.len() - i;
    lemma_frame_after_step(target, floor, steps - 1);
    lemma_frame_after_step(target, floor, steps);
    lemma_frames_to_time_range(
        frame_after(target, floor, steps),
        rate.numer as int,
        rate.denom as int,
    );
    lemma_frames_to_time_range(
        frame_after(target, floor, steps - 1),
        rate.numer as int,
        rate.denom as int,
    );
    lemma_frames_to_time_monotonic(
        frame_after(target, floor, steps),
        frame_after(target, floor, steps - 1),
        rate.numer as int,
        rate.denom as int,
    );
}

/// Scheduled frames neither overlap nor change places: each starts where the
/// one before it ends, and the last one ends with the target frame. Frames
/// that the floor has packed onto one timestamp have a duration of zero and
/// keep their order.
pub proof fn lemma_scheduled_is_contiguous(
    rate: FrameRate,
    frames: Seq<CaptionFrame>,
    target: int,
    floor: int,
    i: int,
)
    requires
        rate.wf(),
        0 <= target,
        0 <= floor,
        0 <= i < frames.len(),
    ensures
        ({
            let out = scheduled(rate, frames, target, floor);
            &&& out[i].pts is Some
            &&& out[i].duration is Some
            &&& i + 1 < frames.len() ==> out[i + 1].pts == Some(
                (out[i].pts->0 + out[i].duration->0) as u64,
            )
            &&& i + 1 == frames.len() ==> out[i].pts->0 + out[i].duration->0
                == rate.frames_to_time(target)
        }),
{
    lemma_scheduled_frame(rate, frames, target, floor, i);
    if i + 1 < frames.len() {
        lemma_scheduled_frame(rate, frames, target, floor, i + 1);
    }
}

/// No frame is scheduled before the floor in time, unless the target itself
/// lies before it: every timestamp is at least the earlier of the two.
pub proof fn lemma_scheduled_not_before(
    rate: FrameRate,
    frames: Seq<CaptionFrame>,
    target: int,
    floor: int,
    i: int,
)
    requires
        rate.wf(),
        0 <= target,
        0 <= floor,
        0 <= i < frames.len(),
    ensures
        target >= floor ==> scheduled(rate, frames, target, floor)[i].pts->0
            >= rate.frames_to_time(floor),
        target < floor ==> scheduled(rate, frames, target, floor)[i].pts->0 == rate.frames_to_time(
            target,
        ),
{
    lemma_scheduled_frame(rate, frames, target, floor, i);
    lemma_frame_after_step(target, floor, frames.len() - i);
    if target >= floor {
        lemma_frames_to_time_monotonic(
            floor,
            frame_after(target, floor, frames.len() - i),
            rate.numer as int,
            rate.denom as int,
        );
    }
}

/// The cue of a plan has a frame for each frame that went in, and two more
/// where an erasure was worked in; each has a time.
pub proof fn lemma_cue_plan_frames(
    state: State,
    table: &CodeTable,
    frames: Seq<CaptionFrame>,
    pts: int,
    duration: int,
)
    requires
        state.wf(),
        0 <= pts,
        0 <= duration,
    ensures
        ({
            let plan = cue_plan(state, table, frames, pts, duration);
            let target = target_frame(state.framerate, pts);
            let due = due_erase(state.erase_display_frame_no, target - 2);
            let steps = splice_steps(due, target, state.last_frame_no as int, frames.len() as int);
            &&& 2 <= target
            &&& plan.cue.frames.len() == frames.len() + if steps is Some {
                2int
            } else {
                0int
            }
            &&& plan.erase is Some <==> due is Some && steps is None
            &&& plan.erase matches Some(erase) ==> erase.frames.len() == 2
        }),
{
    lemma_time_to_frames_range(pts, state.framerate.numer as int, state.framerate.denom as int);
}

/// Scheduling a cue gives no caption frame a timestamp before the time of the
/// floor that the cue found, provided that the frame at which the cue is to
/// show does not itself lie before that time. This holds of the frames of the
/// cue, of an erasure that was worked into them, and of one that goes out
/// before them.
pub proof fn lemma_no_time_travel(
    state: State,
    table: &CodeTable,
    frames: Seq<CaptionFrame>,
    pts: int,
    duration: int,
)
    requires
        state.wf(),
        0 <= pts,
        0 <= duration,
        state.framerate.frames_to_time(target_frame(state.framerate, pts))
            >= state.framerate.frames_to_time(state.last_frame_no as int),
    ensures
        ({
            let plan = cue_plan(state, table, frames, pts, duration);
            let floor_time = state.framerate.frames_to_time(state.last_frame_no as int);
            &&& forall|i: int|
                0 <= i < plan.cue.frames.len() ==> {
                    &&& (#[trigger] plan.cue.frames[i]).pts is Some
                    &&& plan.cue.frames[i].pts->0 >= floor_time
                }
            &&& plan.erase matches Some(erase) ==> forall|i: int|
                0 <= i < erase.frames.len() ==> {
                    &&& (#[trigger] erase.frames[i]).pts is Some
                    &&& erase.frames[i].pts->0 >= floor_time
                }
        }),
{
    let rate = state.framerate;
    let plan = cue_plan(state, table, frames, pts, duration);
    let target = target_frame(rate, pts);
    let floor = state.last_frame_no as int;
    let floor_time = rate.frames_to_time(floor);
    let due = due_erase(state.erase_display_frame_no, target - 2);
    lemma_cue_plan_frames(state, table, frames, pts, duration);
    let unstamped = match splice_steps(due, target, floor, frames.len() as int) {
        Some(steps) => with_erase(table, frames, steps),
        None => frames,
    };
    assert(plan.cue.frames == scheduled(rate, unstamped, target, floor));
    assert forall|i: int| 0 <= i < plan.cue.frames.len() implies {
        &&& (#[trigger] plan.cue.frames[i]).pts is Some
        &&& plan.cue.frames[i].pts->0 >= floor_time
    } by {
        lemma_scheduled_frame(rate, unstamped, target, floor, i);
        lemma_scheduled_not_before(rate, unstamped, target, floor, i);
    }
    if let Some(erase) = plan.erase {
        let erase_frame = due->0 as int;
        let commands = doubled(table.erase_display_memory);
        assert(erase.frames == scheduled(rate, commands, erase_frame, floor));
        assert forall|i: int| 0 <= i < erase.frames.len() implies {
            &&& (#[trigger] erase.frames[i]).pts is Some
            &&& erase.frames[i].pts->0 >= floor_time
        } by {
            lemma_scheduled_frame(rate, commands, erase_frame, floor, i);
            lemma_scheduled_not_before(rate, commands, erase_frame, floor, i);
        }
    }
}

/// An erasure that is due when a cue comes goes out with that cue, once, and
/// on the two frames before its own frame as the floor allows: either before
/// the cue, in a delivery of its own, or within the cue, where the frames of
/// the cue pass its frame. Within the cue it stands with the times that it
/// would have had on its own.
pub proof fn lemma_due_erase_goes_out(
    state: State,
    table: &CodeTable,
    frames: Seq<CaptionFrame>,
    pts: int,
    duration: int,
)
    requires
        state.wf(),
        0 <= pts,
        0 <= duration,
        due_erase(
            state.erase_display_frame_no,
            target_frame(state.framerate, pts) - 2,
        ) is Some,
    ensures
        ({
            let plan = cue_plan(state, table, frames, pts, duration);
            let rate = state.framerate;
            let target = target_frame(rate, pts);
            let floor = state.last_frame_no as int;
            let erase_frame = state.erase_display_frame_no->0 as int;
            let alone = scheduled(rate, doubled(table.erase_display_memory), erase_frame, floor);
            match plan.erase {
                Some(erase) => {
                    &&& erase == erase_delivery(rate, table, floor, erase_frame)
                    &&& erase.frames == alone
                    &&& plan.cue.frames == scheduled(rate, frames, target, floor)
                },
                None => {
                    let at = frames.len() - (target - erase_frame);
                    &&& 0 < at <= frames.len() - 3
                    &&& plan.cue.frames.len() == frames.len() + 2
                    &&& plan.cue.frames.subrange(at, at + 2) == alone
                    &&& forall|i: int|
                        0 <= i < at ==> (#[trigger] plan.cue.frames[i]).cc_data
                            == frames[i].cc_data
                    &&& forall|i: int|
                        at <= i < frames.len() ==> (#[trigger] plan.cue.frames[i + 2]).cc_data
                            == frames[i].cc_data
                },
            }
        }),
{
    let plan = cue_plan(state, table, frames, pts, duration);
    let rate = state.framerate;
    let target = target_frame(rate, pts);
    let floor = state.last_frame_no as int;
    let erase_frame = state.erase_display_frame_no->0 as int;
    let commands = doubled(table.erase_display_memory);
    let alone = scheduled(rate, commands, erase_frame, floor);
    lemma_cue_plan_frames(state, table, frames, pts, duration);
    if plan.erase is None {
        let steps = target - erase_frame;
        let at = frames.len() - steps;
        let merged = with_erase(table, frames, steps);
        assert(plan.cue.frames == scheduled(rate, merged, target, floor));
        assert(merged.len() == frames.len() + 2);
        assert forall|k: int| 0 <= k < 2 implies plan.cue.frames.subrange(at, at + 2)[k]
            == alone[k] by {
            lemma_scheduled_frame(rate, merged, target, floor, at + k);
            lemma_scheduled_frame(rate, commands, erase_frame, floor, k);
            assert(merged[at + k] == commands[k]);
            assert(frame_after(target, floor, merged.len() - (at + k)) == frame_after(
                erase_frame,
                floor,
                2 - k,
            ));
            assert(frame_after(target, floor, merged.len() - (at + k) - 1) == frame_after(
                erase_frame,
                floor,
                2 - k - 1,
            ));
        }
        assert(plan.cue.frames.subrange(at, at + 2) =~= alone);
        assert forall|i: int| 0 <= i < at implies (#[trigger] plan.cue.frames[i]).cc_data
            == frames[i].cc_data by {
            lemma_scheduled_frame(rate, merged, target, floor, i);
        }
        assert forall|i: int| at <= i < frames.len() implies (#[trigger] plan.cue.frames[i
            + 2]).cc_data == frames[i].cc_data by {
            lemma_scheduled_frame(rate, merged, target, floor, i + 2);
        }
    }
}

} // verus!

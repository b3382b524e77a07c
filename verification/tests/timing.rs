use tttocea608::time::{
    decrement_pts, frames_to_time, scale_round, time_to_frames, FrameRate, DEFAULT_FPS_D,
    DEFAULT_FPS_N, MAX_FPS, NANOS_PER_SECOND,
};

#[test]
fn scale_round_rounds_to_nearest() {
    assert_eq!(scale_round(1, 1, 3), 0);
    assert_eq!(scale_round(2, 1, 3), 1);
    assert_eq!(scale_round(10, 3, 4), 8);
    assert_eq!(scale_round(0, 7, 5), 0);
    assert_eq!(scale_round(7, 0, 5), 0);
    assert_eq!(scale_round(12345, 9, 9), 12345);
}

#[test]
fn scale_round_rounds_halves_up() {
    assert_eq!(scale_round(1, 1, 2), 1);
    assert_eq!(scale_round(3, 1, 2), 2);
    assert_eq!(scale_round(5, 1, 2), 3);
    assert_eq!(scale_round(u64::MAX, 1, 2), 9_223_372_036_854_775_808);
}

#[test]
fn scale_round_holds_at_the_maximum() {
    assert_eq!(scale_round(u64::MAX, 2, 1), u64::MAX);
    assert_eq!(scale_round(u64::MAX, u64::MAX, 1), u64::MAX);
    assert_eq!(scale_round(u64::MAX, u64::MAX, u64::MAX), u64::MAX);
    assert_eq!(scale_round(u64::MAX, 1, 1), u64::MAX);
}

#[test]
fn frames_to_time_at_thirty_per_second() {
    assert_eq!(frames_to_time(0, 30, 1), 0);
    assert_eq!(frames_to_time(1, 30, 1), 33_333_333);
    assert_eq!(frames_to_time(2, 30, 1), 66_666_667);
    assert_eq!(frames_to_time(28, 30, 1), 933_333_333);
    assert_eq!(frames_to_time(29, 30, 1), 966_666_667);
    assert_eq!(frames_to_time(30, 30, 1), 1_000_000_000);
    assert_eq!(frames_to_time(31, 30, 1), 1_033_333_333);
    assert_eq!(frames_to_time(74, 30, 1), 2_466_666_667);
}

#[test]
fn frames_to_time_at_a_fractional_rate() {
    assert_eq!(frames_to_time(1, 30_000, 1_001), 33_366_667);
    assert_eq!(frames_to_time(2, 30_000, 1_001), 66_733_333);
    assert_eq!(frames_to_time(30_000, 30_000, 1_001), 1_001_000_000_000);
}

#[test]
fn frames_to_time_holds_at_the_maximum() {
    assert_eq!(frames_to_time(u64::MAX, 30, 1), u64::MAX);
    assert_eq!(frames_to_time(10, 1, 2_147_483_647), u64::MAX);
    assert_eq!(frames_to_time(18_446_744_078, 30, 1), 614_891_469_266_666_667);
}

#[test]
fn frames_to_time_never_goes_back() {
    let rates: [(u64, u64); 5] = [(30, 1), (30_000, 1_001), (1, 1), (MAX_FPS, 1), (1, MAX_FPS)];
    for (fps_n, fps_d) in rates {
        let mut earlier = frames_to_time(0, fps_n, fps_d);
        for frame_no in 1..2_000u64 {
            let later = frames_to_time(frame_no, fps_n, fps_d);
            assert!(earlier <= later);
            earlier = later;
        }
        assert!(earlier <= frames_to_time(u64::MAX, fps_n, fps_d));
    }
}

#[test]
fn time_to_frames_counts_whole_frames() {
    assert_eq!(time_to_frames(0, 30, 1), 0);
    assert_eq!(time_to_frames(33_333_332, 30, 1), 0);
    assert_eq!(time_to_frames(33_333_333, 30, 1), 0);
    assert_eq!(time_to_frames(33_333_334, 30, 1), 1);
    assert_eq!(time_to_frames(1_000_000_000, 30, 1), 30);
    assert_eq!(time_to_frames(2_000_000_000, 30, 1), 60);
    assert_eq!(time_to_frames(1_000_000_000, 30_000, 1_001), 29);
    assert_eq!(time_to_frames(u64::MAX, MAX_FPS, 1), u64::MAX / NANOS_PER_SECOND);
}

#[test]
fn a_frame_start_lies_in_its_frame_or_the_one_before() {
    for frame_no in 0..500u64 {
        let back = time_to_frames(frames_to_time(frame_no, 30, 1), 30, 1);
        assert!(back == frame_no || back + 1 == frame_no);
    }
    assert_eq!(time_to_frames(frames_to_time(30, 30, 1), 30, 1), 30);
    assert_eq!(time_to_frames(frames_to_time(29, 30, 1), 30, 1), 29);
    assert_eq!(time_to_frames(frames_to_time(1, 30, 1), 30, 1), 0);
}

#[test]
fn decrement_pts_steps_one_frame_back() {
    let mut frame_no: u64 = 32;
    let (pts, duration) = decrement_pts(0, &mut frame_no, 30, 1);
    assert_eq!(frame_no, 31);
    assert_eq!(pts, 1_033_333_333);
    assert_eq!(duration, 33_333_334);
    let (pts, duration) = decrement_pts(0, &mut frame_no, 30, 1);
    assert_eq!(frame_no, 30);
    assert_eq!(pts, 1_000_000_000);
    assert_eq!(duration, 33_333_333);
}

#[test]
fn decrement_pts_stops_at_the_floor() {
    let mut frame_no: u64 = 33;
    let (pts, duration) = decrement_pts(32, &mut frame_no, 30, 1);
    assert_eq!((frame_no, pts, duration), (32, 1_066_666_667, 33_333_333));
    let (pts, duration) = decrement_pts(32, &mut frame_no, 30, 1);
    assert_eq!((frame_no, pts, duration), (32, 1_066_666_667, 0));
}

#[test]
fn decrement_pts_stays_below_the_floor() {
    let mut frame_no: u64 = 17;
    let (pts, duration) = decrement_pts(32, &mut frame_no, 30, 1);
    assert_eq!((frame_no, pts, duration), (17, 566_666_667, 0));
    let mut frame_no: u64 = 0;
    let (pts, duration) = decrement_pts(0, &mut frame_no, 30, 1);
    assert_eq!((frame_no, pts, duration), (0, 0, 0));
}

#[test]
fn frame_rate_takes_positive_rationals() {
    assert_eq!(FrameRate::new(30, 1), Some(FrameRate { numer: 30, denom: 1 }));
    assert_eq!(
        FrameRate::new(1, 2_147_483_647),
        Some(FrameRate { numer: 1, denom: 2_147_483_647 })
    );
    assert_eq!(
        FrameRate::new(2_147_483_647, 1),
        Some(FrameRate { numer: 2_147_483_647, denom: 1 })
    );
    assert_eq!(FrameRate::new(0, 1), None);
    assert_eq!(FrameRate::new(30, 0), None);
    assert_eq!(FrameRate::new(-30, 1), None);
    assert_eq!(FrameRate::new(30, -1), None);
}

#[test]
fn frame_rate_defaults_to_thirty() {
    let rate = FrameRate::default();
    assert_eq!(rate, FrameRate { numer: DEFAULT_FPS_N, denom: DEFAULT_FPS_D });
    assert_eq!((rate.fps_n(), rate.fps_d()), (30, 1));
}

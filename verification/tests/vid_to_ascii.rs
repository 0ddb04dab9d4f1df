use vid_to_ascii::args::{parse_args, parse_fps, ConfigError};
use vid_to_ascii::player::{
    frame_interval_nanos, run_events, step, PlaybackError, PlayerAction, PlayerEvent, PlayerState,
};
use vid_to_ascii::video::{map_lightness_to_char, Lightness, RawFrame, Video};

#[test]
fn test_map_lightness_boundaries() {
    assert_eq!(map_lightness_to_char(Lightness::new(875, 1000)), '$');
    assert_eq!(map_lightness_to_char(Lightness::new(8749, 10000)), '#');
    assert_eq!(map_lightness_to_char(Lightness::new(750, 1000)), '#');
    assert_eq!(map_lightness_to_char(Lightness::new(749, 1000)), '@');
    assert_eq!(map_lightness_to_char(Lightness::new(0, 1)), '`');
    assert_eq!(map_lightness_to_char(Lightness::new(1, 1)), '$');
}

#[test]
fn map_boundary_exactness() {
    assert_eq!(map_lightness_to_char(Lightness::new(8749999, 10000000)), '#');
    assert_eq!(map_lightness_to_char(Lightness::new(7499, 10000)), '@');
    assert_eq!(map_lightness_to_char(Lightness::new(625, 1000)), '@');
    assert_eq!(map_lightness_to_char(Lightness::new(500, 1000)), '%');
    assert_eq!(map_lightness_to_char(Lightness::new(375, 1000)), '*');
    assert_eq!(map_lightness_to_char(Lightness::new(250, 1000)), '~');
    assert_eq!(map_lightness_to_char(Lightness::new(125, 1000)), ',');
    assert_eq!(map_lightness_to_char(Lightness::new(124, 1000)), '`');
}

#[test]
fn map_saturates_above_one() {
    assert_eq!(map_lightness_to_char(Lightness::new(3, 2)), '$');
}

#[test]
fn map_from_rgb_uses_hsl_lightness() {
    // Yellow: max 255, min 0, lightness 255/510 = 0.5.
    let yellow = Lightness::from_rgb(255, 255, 0);
    assert_eq!(yellow, Lightness::new(255, 510));
    assert_eq!(map_lightness_to_char(yellow), '%');
    // Black: lightness 0.
    assert_eq!(map_lightness_to_char(Lightness::from_rgb(0, 0, 0)), '`');
    // White: lightness 1.
    assert_eq!(map_lightness_to_char(Lightness::from_rgb(255, 255, 255)), '$');
}

#[test]
fn render_two_pixel_frame() {
    let frame = RawFrame::new(2, 1, vec![255, 255, 0, 0, 0, 0]).unwrap();
    let text = Video::convert_to_ascii(&frame);
    assert_eq!(text, "%`\n");
}

#[test]
fn render_shape_rows_and_columns() {
    let width: usize = 3;
    let height: usize = 2;
    let frame = RawFrame::new(width, height, vec![200; 3 * 3 * 2]).unwrap();
    let text = Video::convert_to_ascii(&frame);
    let rows: Vec<&str> = text.split('\n').collect();
    // split yields one empty trailing piece after the last terminator
    assert_eq!(rows.len(), height + 1);
    assert_eq!(rows[height], "");
    for y in 0..height {
        assert_eq!(rows[y].chars().count(), width);
    }
}

#[test]
fn render_is_deterministic() {
    let frame = RawFrame::new(2, 2, vec![9, 120, 33, 0, 255, 17, 88, 88, 88, 250, 1, 2]).unwrap();
    let first = Video::convert_to_ascii(&frame);
    let second = Video::convert_to_ascii(&frame);
    assert_eq!(first, second);
}

#[test]
fn render_empty_frame() {
    let frame = RawFrame::new(0, 0, vec![]).unwrap();
    assert_eq!(Video::convert_to_ascii(&frame), "");
}

#[test]
fn raw_frame_rejects_wrong_length() {
    assert!(RawFrame::new(2, 1, vec![1, 2, 3]).is_none());
    assert!(RawFrame::new(1, 1, vec![1, 2, 3]).is_some());
}

#[test]
fn test_video_new() {
    let target = Video {
        filename: String::from("test.mp4"),
        fps: 30,
    };
    let result = Video::new(String::from("test.mp4"), 30);
    assert_eq!(target, result);
}

#[test]
fn test_parse_args_valid() {
    let args = vec![
        String::from("./vid_to_ascii"),
        String::from("test.mp4"),
        String::from("30"),
    ];
    let video = parse_args(args).unwrap();
    assert_eq!(video.filename, String::from("test.mp4"));
    assert_eq!(video.fps, 30);
}

#[test]
fn parse_args_not_enough_is_error() {
    let args = vec![String::from("./vid_to_ascii"), String::from("test.mp4")];
    assert_eq!(parse_args(args), Err(ConfigError::NotEnoughArguments));
}

#[test]
fn parse_args_non_numeric_fps_is_error() {
    let args = vec![
        String::from("./vid_to_ascii"),
        String::from("test.mp4"),
        String::from("abc"),
    ];
    assert_eq!(parse_args(args), Err(ConfigError::InvalidFrameRate));
}

#[test]
fn parse_args_zero_fps_is_error() {
    let args = vec![
        String::from("./vid_to_ascii"),
        String::from("test.mp4"),
        String::from("0"),
    ];
    assert_eq!(parse_args(args), Err(ConfigError::InvalidFrameRate));
}

#[test]
fn parse_fps_values() {
    assert_eq!(parse_fps("30"), Some(30));
    assert_eq!(parse_fps("007"), Some(7));
    assert_eq!(parse_fps("4294967295"), Some(u32::MAX));
    assert_eq!(parse_fps("4294967296"), None);
    assert_eq!(parse_fps("99999999999999999999"), None);
    assert_eq!(parse_fps(""), None);
    assert_eq!(parse_fps("-1"), None);
    assert_eq!(parse_fps("+30"), None);
    assert_eq!(parse_fps("3.5"), None);
    assert_eq!(parse_fps(" 30"), None);
}

#[test]
fn step_follows_transition_table() {
    assert_eq!(
        step(PlayerState::Idle, PlayerEvent::Start),
        (PlayerState::Initializing, PlayerAction::Initialize)
    );
    assert_eq!(
        step(PlayerState::Initializing, PlayerEvent::InitSucceeded),
        (PlayerState::Playing, PlayerAction::PullFrame)
    );
    assert_eq!(
        step(PlayerState::Initializing, PlayerEvent::InitFailed),
        (PlayerState::Failed, PlayerAction::Report(PlaybackError::SourceOpen))
    );
    assert_eq!(
        step(PlayerState::Playing, PlayerEvent::FrameReady),
        (PlayerState::Playing, PlayerAction::DisplayThenPull)
    );
    assert_eq!(
        step(PlayerState::Playing, PlayerEvent::DecodeFailed),
        (PlayerState::Failed, PlayerAction::Report(PlaybackError::Decode))
    );
    assert_eq!(
        step(PlayerState::Playing, PlayerEvent::EndOfStream),
        (PlayerState::Finished, PlayerAction::Finish)
    );
    // An event that does not belong to the state changes nothing.
    assert_eq!(
        step(PlayerState::Finished, PlayerEvent::FrameReady),
        (PlayerState::Finished, PlayerAction::Ignore)
    );
}

#[test]
fn open_failure_displays_nothing() {
    let events = vec![PlayerEvent::Start, PlayerEvent::InitFailed];
    let (state, actions) = run_events(PlayerState::Idle, &events);
    assert_eq!(state, PlayerState::Failed);
    assert_eq!(
        actions,
        vec![
            PlayerAction::Initialize,
            PlayerAction::Report(PlaybackError::SourceOpen)
        ]
    );
    assert!(actions.iter().all(|a| *a != PlayerAction::DisplayThenPull));
}

#[test]
fn playback_to_end_of_stream() {
    let events = vec![
        PlayerEvent::Start,
        PlayerEvent::InitSucceeded,
        PlayerEvent::FrameReady,
        PlayerEvent::FrameReady,
        PlayerEvent::EndOfStream,
    ];
    let (state, actions) = run_events(PlayerState::Idle, &events);
    assert_eq!(state, PlayerState::Finished);
    assert_eq!(
        actions,
        vec![
            PlayerAction::Initialize,
            PlayerAction::PullFrame,
            PlayerAction::DisplayThenPull,
            PlayerAction::DisplayThenPull,
            PlayerAction::Finish,
        ]
    );
}

#[test]
fn decode_failure_aborts_playback() {
    let events = vec![
        PlayerEvent::Start,
        PlayerEvent::InitSucceeded,
        PlayerEvent::FrameReady,
        PlayerEvent::DecodeFailed,
    ];
    let (state, actions) = run_events(PlayerState::Idle, &events);
    assert_eq!(state, PlayerState::Failed);
    assert_eq!(actions[3], PlayerAction::Report(PlaybackError::Decode));
}

#[test]
fn frame_interval_values() {
    assert_eq!(frame_interval_nanos(30), 33_333_333);
    assert_eq!(frame_interval_nanos(1), 1_000_000_000);
    assert_eq!(frame_interval_nanos(60), 16_666_666);
}

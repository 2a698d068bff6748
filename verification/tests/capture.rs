use termway::capture::{grim_frame, next_frame, Capturer, FrameSource, DAMAGE_FRAME_INTERVAL};

#[test]
fn frames_come_from_grim_once_the_compositor_failed() {
    let mut capturer = Capturer::new(None);
    assert_eq!(capturer.source(), FrameSource::Screencopy);
    assert_eq!(capturer.backend_name(), "wlr-screencopy");
    assert_eq!(capturer.fallback_reason(), None);
    capturer.fall_back("first".to_owned());
    capturer.fall_back("second".to_owned());
    assert_eq!(capturer.source(), FrameSource::Grim);
    assert_eq!(capturer.backend_name(), "grim");
    assert_eq!(capturer.fallback_reason(), Some("first"));
    let absent = Capturer::new(Some("no protocol".to_owned()));
    assert_eq!(absent.fallback_reason(), Some("no protocol"));
}

#[test]
fn pixmaps_are_read() {
    let frame = grim_frame(b"P6\n2 1\n255\n\x01\x02\x03\x04\x05\x06").unwrap();
    assert_eq!((frame.width, frame.height), (2, 1));
    assert_eq!(frame.data, [1, 2, 3, 4, 5, 6]);
    let grey = grim_frame(b"P5\n1 1\n255\n\x07").unwrap();
    assert_eq!(grey.data, [7, 7, 7]);
    assert!(grim_frame(b"P6\n2 1\n255\n\x01").is_none());
    assert!(grim_frame(b"not an image").is_none());
}

#[test]
fn damage_frames_lie_apart() {
    assert_eq!(next_frame(7), 7 + DAMAGE_FRAME_INTERVAL);
}

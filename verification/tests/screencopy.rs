use termway::screencopy::{
    ensure_buffer, find_output, pixels_to_rgb, BufferError, BufferPlan, BufferShape, FrameEvent,
    FrameState, FrameStatus, PixelError, ShmFormat,
};

#[test]
fn converts_xrgb_with_stride_padding() {
    let pixels = [0x33, 0x22, 0x11, 0, 0x66, 0x55, 0x44, 0, 9, 9, 9, 9];
    let image = pixels_to_rgb(&pixels, 2, 1, 12, ShmFormat::Xrgb8888, false).ok().unwrap();
    assert_eq!(image.data, [0x11, 0x22, 0x33, 0x44, 0x55, 0x66]);
}

#[test]
fn converts_abgr_and_flips_rows() {
    let pixels = [0x11, 0x22, 0x33, 0xff, 0xaa, 0xbb, 0xcc, 0xff];
    let image = pixels_to_rgb(&pixels, 1, 2, 4, ShmFormat::Abgr8888, true).ok().unwrap();
    assert_eq!(image.data, [0xaa, 0xbb, 0xcc, 0x11, 0x22, 0x33]);
}

#[test]
fn buffers_that_cannot_be_read_are_refused() {
    let read = |bytes: &[u8], width, height, stride, format| {
        pixels_to_rgb(bytes, width, height, stride, format, false).err()
    };
    assert_eq!(read(&[0; 4], 1, 1, 4, ShmFormat::Other(7)), Some(PixelError::Format));
    assert_eq!(
        read(&[0; 4], 1, 65536, 65536, ShmFormat::Argb8888),
        Some(PixelError::Overflow)
    );
    assert_eq!(read(&[0; 3], 1, 1, 4, ShmFormat::Argb8888), Some(PixelError::Buffer));
    assert_eq!(read(&[0; 8], 2, 2, 4, ShmFormat::Argb8888), Some(PixelError::Buffer));
    assert_eq!(read(&[], 0, 0, 0, ShmFormat::Xbgr8888), None);
    assert_eq!(PixelError::Format.message("C8"), "unsupported screencopy SHM format C8");
    assert_eq!(PixelError::Overflow.message("C8"), "screencopy dimensions overflow");
    assert_eq!(PixelError::Buffer.message("C8"), "invalid screencopy pixel buffer");
}

#[test]
fn buffers_are_kept_made_or_refused() {
    let shape = |width, height, stride| BufferShape {
        width,
        height,
        stride,
        format: ShmFormat::Xrgb8888,
    };
    let wanted = shape(10, 20, 40);
    assert_eq!(ensure_buffer(Some(wanted), wanted), BufferPlan::Keep);
    assert_eq!(ensure_buffer(None, wanted), BufferPlan::Create(800, 10, 20, 40));
    let turned = BufferShape { format: ShmFormat::Xbgr8888, ..wanted };
    assert_eq!(ensure_buffer(Some(turned), wanted), BufferPlan::Create(800, 10, 20, 40));
    let refused = |width, height, stride| match ensure_buffer(None, shape(width, height, stride)) {
        BufferPlan::Refuse(error) => error,
        _ => panic!("the buffer was accepted"),
    };
    assert_eq!(refused(1, 65536, 65536), BufferError::SizeOverflow);
    assert_eq!(refused(1, 65536, 32768), BufferError::SizeTooLarge);
    assert_eq!(refused(1 << 31, 1, 1), BufferError::WidthTooLarge);
    assert_eq!(refused(1, 1 << 31, 0), BufferError::HeightTooLarge);
    assert_eq!(refused(1, 0, 1 << 31), BufferError::StrideTooLarge);
    assert_eq!(BufferError::StrideTooLarge.message(), "screencopy stride is too large");
}

#[test]
fn captures_go_from_buffer_to_ready() {
    let mut frame = FrameState::default();
    assert!(!frame.is_over());
    frame.apply(FrameEvent::Buffer(true));
    assert_eq!(frame.status, FrameStatus::WaitingForReady);
    frame.apply(FrameEvent::Flags(true));
    assert!(frame.y_invert && !frame.is_over());
    frame.apply(FrameEvent::Ready);
    assert!(frame.is_over() && frame.y_invert);
    let mut failed = FrameState::default();
    failed.apply(FrameEvent::Buffer(false));
    assert_eq!(failed.status, FrameStatus::Failed);
    let mut dropped = FrameState::default();
    dropped.apply(FrameEvent::Failed);
    assert!(dropped.is_over());
}

#[test]
fn outputs_are_found_by_name() {
    let names = vec![None, Some("DP-1".to_owned()), Some("DP-2".to_owned()), Some("DP-2".to_owned())];
    assert_eq!(find_output(&names, "DP-2"), Some(2));
    assert_eq!(find_output(&names, "DP-3"), None);
}

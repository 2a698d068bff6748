use termway::pump::{OutputKind, OutputPump, PumpError, WriteOutcome};

#[test]
fn output_pump_prioritizes_control_between_complete_graphics_segments() {
    let mut output = OutputPump::new();
    output.enqueue_graphics(vec![b"graphics-1".to_vec(), b"graphics-2".to_vec()]);
    output.activate_next();
    assert_eq!(output.active.as_ref().unwrap().bytes, b"graphics-1");
    output.active = None;
    output.enqueue_control(b"control".to_vec());
    output.activate_next();
    assert_eq!(output.active.as_ref().unwrap().kind, OutputKind::Control);
    assert_eq!(output.active.as_ref().unwrap().bytes, b"control");
    output.active = None;
    output.activate_next();
    assert_eq!(output.active.as_ref().unwrap().kind, OutputKind::Graphics);
    assert_eq!(output.active.as_ref().unwrap().bytes, b"graphics-2");
    assert!(output.graphics_busy());
}

#[test]
fn replacing_graphics_does_not_strand_an_in_progress_upload() {
    let mut output = OutputPump::new();
    output.enqueue_graphics(vec![b"old-m=1".to_vec(), b"old-m=0".to_vec()]);
    output.activate_next();
    output.active = None;
    output.replace_graphics(vec![b"new-image".to_vec()]);

    assert_eq!(output.graphics.pop_front().unwrap(), b"old-m=0");
    assert_eq!(output.graphics.pop_front().unwrap(), b"new-image");
}

fn drain(output: &mut OutputPump, most: usize) -> Vec<u8> {
    let mut written = Vec::new();
    while let Some((_, left)) = output.begin() {
        let count = left.min(most);
        written.extend_from_slice(output.chunk(count));
        assert_eq!(output.finish(WriteOutcome::Written(count)), Ok(true));
    }
    written
}

#[test]
fn short_writes_lose_nothing() {
    for most in 1..9 {
        let mut output = OutputPump::new();
        output.enqueue_graphics(vec![b"one".to_vec(), Vec::new(), b"two".to_vec()]);
        assert_eq!(drain(&mut output, most), b"onetwo");
        assert!(!output.has_pending());
    }
}

#[test]
fn control_waits_for_the_segment_on_its_way() {
    let mut output = OutputPump::new();
    output.enqueue_graphics(vec![b"graphics".to_vec(), b"more".to_vec()]);
    assert_eq!(output.begin(), Some((OutputKind::Graphics, 8)));
    assert_eq!(output.finish(WriteOutcome::Written(3)), Ok(true));
    output.enqueue_control(b"!".to_vec());
    assert_eq!(output.begin(), Some((OutputKind::Graphics, 5)));
    assert_eq!(output.chunk(2), b"ph");
    assert_eq!(drain(&mut output, 100), b"phics!more");
}

#[test]
fn failed_writes_keep_what_is_left() {
    let mut output = OutputPump::new();
    output.enqueue_control(b"abc".to_vec());
    assert_eq!(output.begin(), Some((OutputKind::Control, 3)));
    assert_eq!(output.finish(WriteOutcome::WouldBlock), Ok(false));
    assert_eq!(output.finish(WriteOutcome::Interrupted), Ok(false));
    assert_eq!(output.finish(WriteOutcome::Written(0)), Err(PumpError::WriteZero));
    assert_eq!(output.finish(WriteOutcome::Failed), Err(PumpError::Failed));
    assert_eq!(output.finish(WriteOutcome::Written(1)), Ok(true));
    output.enqueue_graphics(vec![b"dropped".to_vec()]);
    assert_eq!(output.take_active_remainder(), Some(b"bc".to_vec()));
    assert_eq!(output.take_active_remainder(), None);
    assert!(!output.has_pending());
}

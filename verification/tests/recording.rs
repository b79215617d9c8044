use sniptool::{recv_frame, FrameData, Registry};

fn solid(r: u8, g: u8, b: u8, w: u32, h: u32) -> Vec<u8> {
    [r, g, b, 255].repeat((w * h) as usize)
}

#[test]
fn frame_construction_copies_buffer() {
    let buffer = solid(11, 22, 33, 2, 2);
    let frame = FrameData::new(&buffer, 2, 2, 5);
    assert_eq!(frame.pixels, buffer);
    assert_eq!(frame.width, 2);
    assert_eq!(frame.height, 2);
    assert_eq!(frame.index, 5);
    // The caller's buffer is untouched and still usable.
    assert_eq!(buffer, solid(11, 22, 33, 2, 2));
}

#[test]
fn stop_without_session_fails_repeatedly() {
    let mut reg = Registry::new();
    assert!(!reg.is_recording());
    assert!(reg.stop().is_none());
    assert!(!reg.is_recording());
    assert!(reg.stop().is_none());
    assert!(!reg.is_recording());
}

#[test]
fn submit_without_session_fails() {
    let mut reg = Registry::new();
    let pixels = solid(1, 2, 3, 2, 2);
    assert!(!reg.submit_frame(&pixels, 2, 2));
}

#[test]
fn double_start_rejected_session_intact() {
    let mut reg = Registry::new();
    let receiver = reg.start(16).expect("first start must succeed");
    assert!(reg.is_recording());

    assert!(reg.start(16).is_none());
    assert!(reg.is_recording());

    let pixels = solid(9, 9, 9, 2, 2);
    assert!(reg.submit_frame(&pixels, 2, 2));

    let session = reg.stop().expect("stop must succeed");
    drop(session);
    let frame = recv_frame(&receiver).expect("the accepted frame must arrive");
    assert_eq!(frame.index, 0);
}

#[test]
fn submit_rejects_mismatched_buffer() {
    let mut reg = Registry::new();
    let receiver = reg.start(16).expect("start must succeed");

    let pixels = solid(1, 2, 3, 2, 2);
    assert!(!reg.submit_frame(&pixels, 3, 2));
    assert!(!reg.submit_frame(&pixels, 0, 0));
    assert!(!reg.submit_frame(&pixels[..15], 2, 2));

    assert!(reg.submit_frame(&pixels, 2, 2));

    let session = reg.stop().expect("stop must succeed");
    drop(session);
    let frame = recv_frame(&receiver).expect("the valid frame must arrive");
    assert_eq!(frame.index, 0);
    assert!(recv_frame(&receiver).is_none());
}

#[test]
fn frames_arrive_in_submission_order() {
    let mut reg = Registry::new();
    let receiver = reg.start(16).expect("start must succeed");

    let colors: [[u8; 3]; 3] = [[255, 0, 0], [0, 255, 0], [0, 0, 255]];
    for c in colors.iter() {
        let pixels = solid(c[0], c[1], c[2], 2, 2);
        assert!(reg.submit_frame(&pixels, 2, 2));
    }

    let session = reg.stop().expect("stop must succeed");
    drop(session);

    for (i, c) in colors.iter().enumerate() {
        let frame = recv_frame(&receiver).expect("every buffered frame must arrive");
        assert_eq!(frame.index, i as u32);
        assert_eq!(frame.width, 2);
        assert_eq!(frame.height, 2);
        assert_eq!(frame.pixels, solid(c[0], c[1], c[2], 2, 2));
    }
    assert!(recv_frame(&receiver).is_none());
}

#[test]
fn no_frames_after_stop() {
    let mut reg = Registry::new();
    let receiver = reg.start(16).expect("start must succeed");
    let session = reg.stop().expect("stop must succeed");
    drop(session);

    let pixels = solid(4, 5, 6, 2, 2);
    assert!(!reg.submit_frame(&pixels, 2, 2));
    assert!(recv_frame(&receiver).is_none());
}

#[test]
fn backpressure_drops_beyond_capacity() {
    let mut reg = Registry::new();
    let receiver = reg.start(2).expect("start must succeed");

    let pixels = solid(7, 7, 7, 2, 2);
    assert!(reg.submit_frame(&pixels, 2, 2));
    assert!(reg.submit_frame(&pixels, 2, 2));
    // The queue is full and nothing drains it: the third submission
    // fails fast under the drop policy and the counter does not move.
    assert!(!reg.submit_frame(&pixels, 2, 2));

    let first = recv_frame(&receiver).expect("first buffered frame");
    let second = recv_frame(&receiver).expect("second buffered frame");
    assert_eq!(first.index, 0);
    assert_eq!(second.index, 1);

    // The dropped frame left no gap: the next accepted frame takes
    // the index after the last accepted one.
    assert!(reg.submit_frame(&pixels, 2, 2));
    let session = reg.stop().expect("stop must succeed");
    drop(session);
    let third = recv_frame(&receiver).expect("frame accepted after the drain");
    assert_eq!(third.index, 2);
    assert!(recv_frame(&receiver).is_none());
}

#[test]
fn restart_after_stop_counts_from_zero() {
    let mut reg = Registry::new();
    let receiver_a = reg.start(8).expect("first start must succeed");
    let pixels = solid(1, 1, 1, 2, 2);
    assert!(reg.submit_frame(&pixels, 2, 2));
    let session_a = reg.stop().expect("stop must succeed");
    drop(session_a);
    assert_eq!(recv_frame(&receiver_a).expect("frame of the first run").index, 0);
    assert!(recv_frame(&receiver_a).is_none());

    let receiver_b = reg.start(8).expect("second start must succeed");
    assert!(reg.submit_frame(&pixels, 2, 2));
    let session_b = reg.stop().expect("stop must succeed");
    drop(session_b);
    assert_eq!(recv_frame(&receiver_b).expect("frame of the second run").index, 0);
    assert!(recv_frame(&receiver_b).is_none());
}

use sniptool::{process_frame, recv_frame, video_command_args, FrameData, Registry};

fn solid(r: u8, g: u8, b: u8, w: u32, h: u32) -> Vec<u8> {
    [r, g, b, 255].repeat((w * h) as usize)
}

fn assert_decodes_to_solid(bytes: &[u8], r: u8, g: u8, b: u8, w: u32, h: u32) {
    let decoded = image::load_from_memory(bytes).expect("the PNG bytes must decode");
    let rgba = decoded.to_rgba8();
    assert_eq!(rgba.width(), w);
    assert_eq!(rgba.height(), h);
    for pixel in rgba.pixels() {
        assert_eq!(pixel.0, [r, g, b, 255]);
    }
}

#[test]
fn round_trip_solid_color() {
    let frame = FrameData {
        pixels: solid(255, 0, 0, 256, 256),
        width: 256,
        height: 256,
        index: 0,
    };
    let (name, bytes) = process_frame(frame).expect("a well-formed frame must encode");
    assert_eq!(name, "frame_00000.png");
    assert_decodes_to_solid(&bytes, 255, 0, 0, 256, 256);
}

#[test]
fn process_frame_rejects_ill_formed_frames() {
    let short = FrameData { pixels: vec![0u8; 15], width: 2, height: 2, index: 0 };
    assert!(process_frame(short).is_none());

    let zero_width = FrameData { pixels: Vec::new(), width: 0, height: 4, index: 1 };
    assert!(process_frame(zero_width).is_none());

    let zero_height = FrameData { pixels: Vec::new(), width: 4, height: 0, index: 2 };
    assert!(process_frame(zero_height).is_none());
}

#[test]
fn pipeline_three_solid_frames() {
    let mut reg = Registry::new();
    let receiver = reg.start(16).expect("start must succeed");

    let colors: [[u8; 3]; 3] = [[255, 0, 0], [0, 255, 0], [0, 0, 255]];
    for c in colors.iter() {
        let pixels = solid(c[0], c[1], c[2], 256, 256);
        assert!(reg.submit_frame(&pixels, 256, 256));
    }

    let session = reg.stop().expect("stop must succeed");
    drop(session);

    let expected_names = ["frame_00000.png", "frame_00001.png", "frame_00002.png"];
    for (i, c) in colors.iter().enumerate() {
        let frame = recv_frame(&receiver).expect("every buffered frame must arrive");
        let (name, bytes) = process_frame(frame).expect("submitted frames are well formed");
        assert_eq!(name, expected_names[i]);
        assert_decodes_to_solid(&bytes, c[0], c[1], c[2], 256, 256);
    }
    assert!(recv_frame(&receiver).is_none());
}

#[test]
fn video_arguments_exact() {
    let args = video_command_args("/tmp/frames", "/tmp/out.mp4");
    let expected = vec![
        "-y",
        "-framerate",
        "10",
        "-i",
        "/tmp/frames/frame_%05d.png",
        "-c:v",
        "libx264",
        "-pix_fmt",
        "yuv420p",
        "/tmp/out.mp4",
    ];
    assert_eq!(args, expected);
}

use sniptool::frame_filename;

#[test]
fn filename_index_zero() {
    assert_eq!(frame_filename(0), "frame_00000.png");
}

#[test]
fn filename_single_digit() {
    assert_eq!(frame_filename(7), "frame_00007.png");
}

#[test]
fn filename_padding_boundaries() {
    assert_eq!(frame_filename(9), "frame_00009.png");
    assert_eq!(frame_filename(10), "frame_00010.png");
    assert_eq!(frame_filename(99), "frame_00099.png");
    assert_eq!(frame_filename(100), "frame_00100.png");
    assert_eq!(frame_filename(9999), "frame_09999.png");
    assert_eq!(frame_filename(10000), "frame_10000.png");
    assert_eq!(frame_filename(99999), "frame_99999.png");
}

#[test]
fn filename_beyond_fixed_width() {
    assert_eq!(frame_filename(100000), "frame_100000.png");
    assert_eq!(frame_filename(4294967295), "frame_4294967295.png");
}

#[test]
fn filenames_distinct_and_increasing() {
    let names: Vec<String> = (0..50).map(frame_filename).collect();
    for i in 0..names.len() {
        for j in (i + 1)..names.len() {
            assert_ne!(names[i], names[j]);
            assert!(names[i] < names[j]);
        }
    }
}

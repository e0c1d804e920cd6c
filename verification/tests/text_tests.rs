use screen_share::text::{contains_bytes, last_token, split_on_blank_lines, trim_ascii_ws};

#[test]
fn splits_on_blank_lines() {
    let blocks = split_on_blank_lines(b"Cam0:\n\t/dev/video0\n\nCam1:\n\t/dev/video1\n");
    assert_eq!(
        blocks,
        vec![b"Cam0:\n\t/dev/video0".to_vec(), b"Cam1:\n\t/dev/video1\n".to_vec()]
    );
}

#[test]
fn split_of_empty_input_is_one_empty_block() {
    assert_eq!(split_on_blank_lines(b""), vec![Vec::<u8>::new()]);
}

#[test]
fn split_keeps_single_newlines_inside_blocks() {
    assert_eq!(split_on_blank_lines(b"a\nb"), vec![b"a\nb".to_vec()]);
    assert_eq!(
        split_on_blank_lines(b"a\n\n\nb"),
        vec![b"a".to_vec(), b"\nb".to_vec()]
    );
    assert_eq!(
        split_on_blank_lines(b"\n\n"),
        vec![Vec::<u8>::new(), Vec::<u8>::new()]
    );
}

#[test]
fn contains_finds_needle_anywhere() {
    assert!(contains_bytes(b"VirtualVideoDevice:", b"VirtualVideoDevice"));
    assert!(contains_bytes(b"a VirtualVideoDevice b", b"VirtualVideoDevice"));
    assert!(!contains_bytes(b"virtualvideodevice", b"VirtualVideoDevice"));
    assert!(!contains_bytes(b"short", b"VirtualVideoDevice"));
    assert!(contains_bytes(b"anything", b""));
}

#[test]
fn last_token_takes_trailing_word() {
    assert_eq!(last_token(b"VirtualVideoDevice:\n\t/dev/video3\n"), b"/dev/video3".to_vec());
    assert_eq!(last_token(b"one two three"), b"three".to_vec());
    assert_eq!(last_token(b"word"), b"word".to_vec());
    assert_eq!(last_token(b"  \t\n"), Vec::<u8>::new());
    assert_eq!(last_token(b""), Vec::<u8>::new());
}

#[test]
fn trim_removes_whitespace_both_ends() {
    assert_eq!(trim_ascii_ws(b"  10,20 300x400\n"), b"10,20 300x400".to_vec());
    assert_eq!(trim_ascii_ws(b"\t\r\n "), Vec::<u8>::new());
    assert_eq!(trim_ascii_ws(b"geom"), b"geom".to_vec());
}

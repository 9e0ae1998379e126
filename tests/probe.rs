use rust_video::probe::parse_video_dimensions;

fn dims(text: &str) -> Option<(usize, usize)> {
    let chars: Vec<char> = text.chars().collect();
    parse_video_dimensions(&chars)
}

#[test]
fn reads_size_from_stream_line() {
    let text = "Input #0, mov,mp4,m4a,3gp,3g2,mj2, from 'clip.mp4':\n  Duration: 00:00:10.00, start: 0.000000, bitrate: 4200 kb/s\n  Stream #0:0(und): Video: h264 (High) (avc1 / 0x31637661), yuv420p(progressive), 1920x1080 [SAR 1:1 DAR 16:9], 4032 kb/s, 30 fps\n  Stream #0:1(und): Audio: aac (LC), 48000 Hz, stereo\n";
    assert_eq!(dims(text), Some((1920, 1080)));
}

#[test]
fn size_followed_by_comma() {
    let text = "Stream #0:0: Video: rawvideo, gray, 320x240, 30 fps\r\n";
    assert_eq!(dims(text), Some((320, 240)));
}

#[test]
fn lines_without_video_marker_are_skipped() {
    let text = "Stream #0:1: Audio: pcm 48000x2\nStream #0:0: Video: vp9, 640x360\n";
    assert_eq!(dims(text), Some((640, 360)));
}

#[test]
fn first_parsing_word_wins() {
    assert_eq!(dims("Video: tag 0x12, 640x480"), Some((0, 12)));
    assert_eq!(dims("Video: x5 +3x+4"), Some((3, 4)));
    assert_eq!(dims("Video: 99999999999999999999999x2 7x8"), Some((7, 8)));
}

#[test]
fn no_size_gives_none() {
    assert_eq!(dims(""), None);
    assert_eq!(dims("Video: none here"), None);
    assert_eq!(dims("Audio: 640x480"), None);
    assert_eq!(dims("Video: 640x\nVideo: -1x2 +x3"), None);
}

#[test]
fn unicode_whitespace_separates_words() {
    assert_eq!(dims("Video: h264,\u{a0}1280x720\u{3000}[SAR]"), Some((1280, 720)));
    assert_eq!(dims("Video:\u{2009}640x480\u{85}"), Some((640, 480)));
    assert_eq!(dims("Video: 800x600\u{a0}[SAR 1:1]"), Some((800, 600)));
    assert_eq!(dims("Video: é 320x2é"), None);
}

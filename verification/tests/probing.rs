use stream_hub::model::StreamMetadata;
use stream_hub::probe::{self, ElementaryStream};

fn fields(metadata: &StreamMetadata) -> (&str, &str, &str, &str) {
    (
        metadata.resolution.as_str(),
        metadata.video_codec.as_str(),
        metadata.audio_codec.as_str(),
        metadata.channels.as_str(),
    )
}

const UNKNOWN: (&str, &str, &str, &str) = ("检测失败", "未知", "未知", "未知");

fn stream(kind: &str, codec: &str, width: i64, height: i64, channels: i64) -> ElementaryStream {
    ElementaryStream {
        kind: kind.to_string(),
        codec: codec.to_string(),
        width,
        height,
        channels,
    }
}

#[test]
fn answer_with_picture_and_sound() {
    let output = br#"{"streams":[
        {"codec_type":"video","codec_name":"h264","width":1920,"height":1080},
        {"codec_type":"audio","codec_name":"aac","channels":2},
        {"codec_type":"data","codec_name":"bin"}]}"#;
    let metadata = probe::get_stream_metadata(Some(output));
    assert_eq!(fields(&metadata), ("1080p (1920x1080)", "H264", "AAC", "2 声道"));
}

#[test]
fn failed_probe_is_unknown() {
    assert_eq!(fields(&probe::get_stream_metadata(None)), UNKNOWN);
    assert_eq!(fields(&probe::get_stream_metadata(Some(b""))), UNKNOWN);
    assert_eq!(fields(&probe::get_stream_metadata(Some(b"not json"))), UNKNOWN);
    assert_eq!(fields(&probe::get_stream_metadata(Some(b"{}"))), UNKNOWN);
    assert_eq!(fields(&probe::get_stream_metadata(Some(b"[1]"))), UNKNOWN);
    assert_eq!(fields(&probe::get_stream_metadata(Some(b"{\"streams\":5}"))), UNKNOWN);
    assert_eq!(fields(&probe::unknown()), UNKNOWN);
}

#[test]
fn bytes_that_are_no_text_are_replaced() {
    let mut output = b"{\"streams\":[{\"codec_type\":\"audio\",\"codec_name\":\"a".to_vec();
    output.push(0xff);
    output.extend_from_slice(b"\",\"channels\":6}]}");
    let metadata = probe::get_stream_metadata(Some(&output));
    assert_eq!(fields(&metadata), ("检测失败", "未知", "A\u{fffd}", "6 声道"));
}

#[test]
fn missing_fields_count_as_nothing() {
    let output = br#"{"streams":[
        {"codec_type":"video","width":"1920","height":1080,"codec_name":"h264"},
        {"codec_type":"audio"},
        {"codec_type":7},
        null]}"#;
    let metadata = probe::get_stream_metadata(Some(output));
    assert_eq!(fields(&metadata), ("检测失败", "未知", "", "0 声道"));
    let output = br#"{"streams":[{"codec_type":"video","width":640.0},{"codec_type":"video","width":320}]}"#;
    let metadata = probe::get_stream_metadata(Some(output));
    assert_eq!(fields(&metadata), ("0p (320x0)", "", "未知", "未知"));
}

#[test]
fn upper_case_follows_unicode() {
    let output = "{\"streams\":[{\"codec_type\":\"audio\",\"codec_name\":\"straße\",\"channels\":-1}]}";
    let metadata = probe::get_stream_metadata(Some(output.as_bytes()));
    assert_eq!(fields(&metadata), ("检测失败", "未知", "STRASSE", "-1 声道"));
}

#[test]
fn last_picture_and_last_sound_count() {
    let streams = vec![
        stream("video", "H264", 1280, 720, 0),
        stream("audio", "AAC", 0, 0, 2),
        stream("video", "HEVC", 3840, 2160, 0),
        stream("audio", "AC3", 0, 0, 6),
        stream("video", "MJPEG", 0, 90, 0),
        stream("subtitle", "SRT", 5, 5, 5),
    ];
    assert_eq!(
        fields(&probe::summarize(&streams)),
        ("2160p (3840x2160)", "HEVC", "AC3", "6 声道")
    );
    assert_eq!(fields(&probe::summarize(&Vec::new())), UNKNOWN);
}

#[test]
fn one_item_is_read() {
    let item = serde_json::from_str(
        r#"{"codec_type":"video","codec_name":"vp9","width":-3,"height":9223372036854775808,"channels":1}"#,
    )
    .unwrap();
    let read = probe::read_elementary(&item);
    assert_eq!(
        (read.kind.as_str(), read.codec.as_str(), read.width, read.height, read.channels),
        ("video", "VP9", -3, 0, 1)
    );
}

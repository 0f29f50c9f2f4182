//! How `ffprobe` is asked about a source, and what its answer says.
use vstd::prelude::*;

use crate::json;
use crate::model;
use crate::text;

use crate::model::StreamMetadata;

verus! {

/// One run of `ffprobe`: its arguments and the variables added to its
/// environment.
#[derive(Debug)]
pub struct ProbeJob {
    pub args: Vec<String>,
    pub env: Vec<(String, String)>,
}

/// The longest time, in seconds, that a run may take.
pub const PROBE_SECONDS: u64 = 20;

/// The arguments with which a source is probed.
pub open spec fn probe_args(url: Seq<char>) -> Seq<Seq<char>> {
    seq![
        "-v"@,
        "quiet"@,
        "-print_format"@,
        "json"@,
        "-show_streams"@,
        "-user_agent"@,
        "Mozilla/5.0 (Windows NT 10.0; Win64; x64) PotPlayer/23.0.0"@,
        "-protocol_whitelist"@,
        "file,rtp,udp,tcp,http,https,tls,crypto,socks"@,
        "-probesize"@,
        "10M"@,
        "-analyzeduration"@,
        "5000000"@,
        url,
    ]
}

/// The variable that names the proxy, where one is given.
pub open spec fn probe_env(proxy: Seq<char>) -> Seq<(Seq<char>, Seq<char>)> {
    if proxy.len() > 0 {
        seq![("all_proxy"@, proxy)]
    } else {
        seq![]
    }
}

/// What the answer says of one elementary stream: what it carries, its codec
/// in upper case, and its sizes, each with nothing or zero where the answer
/// is silent.
#[derive(Debug)]
pub struct ElementaryStream {
    pub kind: String,
    pub codec: String,
    pub width: i64,
    pub height: i64,
    pub channels: i64,
}

/// The content of an [`ElementaryStream`].
pub struct ElementaryView {
    pub kind: Seq<char>,
    pub codec: Seq<char>,
    pub width: i64,
    pub height: i64,
    pub channels: i64,
}

impl View for ElementaryStream {
    type V = ElementaryView;

    open spec fn view(&self) -> ElementaryView {
        ElementaryView {
            kind: self.kind@,
            codec: self.codec@,
            width: self.width,
            height: self.height,
            channels: self.channels,
        }
    }
}

/// The text of a field, or nothing.
pub open spec fn text_field(document: json::JsonView, key: Seq<char>) -> Seq<char> {
    match json::text_of(json::field_of(document, key)) {
        Some(chars) => chars,
        None => ""@,
    }
}

/// The integer of a field, or zero.
pub open spec fn integer_field(document: json::JsonView, key: Seq<char>) -> i64 {
    match json::integer_of(json::field_of(document, key)) {
        Some(number) => number,
        None => 0,
    }
}

/// What one item of the answer says.
pub open spec fn elementary_of(item: json::JsonView) -> ElementaryView {
    ElementaryView {
        kind: text_field(item, "codec_type"@),
        codec: text::uppercase(text_field(item, "codec_name"@)),
        width: integer_field(item, "width"@),
        height: integer_field(item, "height"@),
        channels: integer_field(item, "channels"@),
    }
}

/// What is shown of a source that could not be probed.
pub open spec fn unknown_metadata() -> model::MetadataView {
    model::MetadataView {
        resolution: "检测失败"@,
        video_codec: "未知"@,
        audio_codec: "未知"@,
        channels: "未知"@,
    }
}

/// The size of a picture, as it is shown.
pub open spec fn resolution_text(width: i64, height: i64) -> Seq<char> {
    text::decimal_text(height as int) + "p ("@ + text::decimal_text(width as int) + "x"@
        + text::decimal_text(height as int) + ")"@
}

/// The number of channels, as it is shown.
pub open spec fn channels_text(channels: i64) -> Seq<char> {
    text::decimal_text(channels as int) + " 声道"@
}

/// The stream carries a picture of a known width.
pub open spec fn shows_picture(stream: ElementaryView) -> bool {
    stream.kind == "video"@ && stream.width > 0
}

/// The stream carries sound.
pub open spec fn carries_sound(stream: ElementaryView) -> bool {
    stream.kind == "audio"@
}

/// What is known once one more stream was looked at.
pub open spec fn with_stream(
    metadata: model::MetadataView,
    stream: ElementaryView,
) -> model::MetadataView {
    if shows_picture(stream) {
        model::MetadataView {
            resolution: resolution_text(stream.width, stream.height),
            video_codec: stream.codec,
            ..metadata
        }
    } else if carries_sound(stream) {
        model::MetadataView {
            audio_codec: stream.codec,
            channels: channels_text(stream.channels),
            ..metadata
        }
    } else {
        metadata
    }
}

/// What a list of streams says of their source: each is looked at in turn.
pub open spec fn summary_of(streams: Seq<ElementaryView>) -> model::MetadataView
    decreases streams.len(),
{
    if streams.len() == 0 {
        unknown_metadata()
    } else {
        with_stream(summary_of(streams.drop_last()), streams.last())
    }
}

/// What an answer says of a source.
pub open spec fn answer_metadata(answer: json::JsonView) -> model::MetadataView {
    match json::field_of(answer, "streams"@) {
        json::JsonView::List(items) => summary_of(
            items.map_values(|item: json::JsonView| elementary_of(item)),
        ),
        _ => unknown_metadata(),
    }
}

/// What the output of a run says of a source; `None` stands for a run that
/// failed or did not end in time.
pub open spec fn output_metadata(output: Option<Seq<u8>>) -> model::MetadataView {
    match output {
        None => unknown_metadata(),
        Some(bytes) => match json::parsed_json(text::lossy_text(bytes)) {
            None => unknown_metadata(),
            Some(answer) => answer_metadata(answer),
        },
    }
}

/// The views of a list of streams.
pub open spec fn elementary_views(streams: Seq<ElementaryStream>) -> Seq<ElementaryView> {
    streams.map_values(|stream: ElementaryStream| stream@)
}

/// The run that asks about a source.
pub fn probe_job(url: &str, proxy: &str) -> (job: ProbeJob)
    ensures
        text::texts(job.args@) == probe_args(url@),
        text::settings(job.env@) == probe_env(proxy@),
{
    let mut args: Vec<String> = Vec::new();
    text::push_word(&mut args, "-v");
    text::push_word(&mut args, "quiet");
    text::push_word(&mut args, "-print_format");
    text::push_word(&mut args, "json");
    text::push_word(&mut args, "-show_streams");
    text::push_word(&mut args, "-user_agent");
    text::push_word(&mut args, "Mozilla/5.0 (Windows NT 10.0; Win64; x64) PotPlayer/23.0.0");
    text::push_word(&mut args, "-protocol_whitelist");
    text::push_word(&mut args, "file,rtp,udp,tcp,http,https,tls,crypto,socks");
    text::push_word(&mut args, "-probesize");
    text::push_word(&mut args, "10M");
    text::push_word(&mut args, "-analyzeduration");
    text::push_word(&mut args, "5000000");
    text::push_word(&mut args, url);
    assert(text::texts(args@) =~= probe_args(url@));
    let mut env: Vec<(String, String)> = Vec::new();
    if !proxy.is_empty() {
        text::push_setting(&mut env, "all_proxy", proxy);
    }
    assert(text::settings(env@) =~= probe_env(proxy@));
    ProbeJob { args, env }
}

fn read_text(document: &serde_json::Value, key: &str) -> (chars: String)
    ensures
        chars@ == text_field(json::json_view(*document), key@),
{
    match json::field(document, key).as_str() {
        Some(chars) => chars.to_owned(),
        None => "".to_owned(),
    }
}

fn read_integer(document: &serde_json::Value, key: &str) -> (number: i64)
    ensures
        number == integer_field(json::json_view(*document), key@),
{
    match json::field(document, key).as_i64() {
        Some(number) => number,
        None => 0,
    }
}

/// What one item of the answer says.
pub fn read_elementary(item: &serde_json::Value) -> (stream: ElementaryStream)
    ensures
        stream@ == elementary_of(json::json_view(*item)),
{
    let codec_name = read_text(item, "codec_name");
    ElementaryStream {
        kind: read_text(item, "codec_type"),
        codec: text::to_uppercase(codec_name.as_str()),
        width: read_integer(item, "width"),
        height: read_integer(item, "height"),
        channels: read_integer(item, "channels"),
    }
}

/// What is shown of a source that could not be probed.
pub fn unknown() -> (metadata: StreamMetadata)
    ensures
        metadata@ == unknown_metadata(),
{
    StreamMetadata {
        resolution: "检测失败".to_owned(),
        video_codec: "未知".to_owned(),
        audio_codec: "未知".to_owned(),
        channels: "未知".to_owned(),
    }
}

/// What a list of streams says of their source.
pub fn summarize(streams: &Vec<ElementaryStream>) -> (metadata: StreamMetadata)
    ensures
        metadata@ == summary_of(elementary_views(streams@)),
{
    let ghost views = elementary_views(streams@);
    let mut metadata = unknown();
    let mut i: usize = 0;
    while i < streams.len()
        invariant
            i <= streams.len(),
            views == elementary_views(streams@),
            metadata@ == summary_of(views.take(i as int)),
        decreases streams.len() - i,
    {
        let stream = &streams[i];
        assert(views.take(i + 1).drop_last() == views.take(i as int));
        assert(views.take(i + 1).last() == stream@);
        proof {
            reveal_strlit("video");
            reveal_strlit("audio");
            assert("video"@[0] != "audio"@[0]);
        }
        if text::same(stream.kind.as_str(), "video") {
            if stream.width > 0 {
                let height = text::decimal(stream.height);
                let width = text::decimal(stream.width);
                metadata.resolution =
                height.clone().concat("p (").concat(width.as_str()).concat("x").concat(
                    height.as_str(),
                ).concat(")");
                metadata.video_codec = stream.codec.clone();
            }
        } else if text::same(stream.kind.as_str(), "audio") {
            metadata.audio_codec = stream.codec.clone();
            metadata.channels = text::decimal(stream.channels).concat(" 声道");
        }
        i += 1;
    }
    assert(views.take(streams.len() as int) == views);
    metadata
}

/// What an answer says of a source.
pub fn read_answer(answer: &serde_json::Value) -> (metadata: StreamMetadata)
    ensures
        metadata@ == answer_metadata(json::json_view(*answer)),
{
    match json::field(answer, "streams").as_array() {
        Some(items) => {
            let ghost views = items@.map_values(|item: serde_json::Value| json::json_view(item));
            let mut streams: Vec<ElementaryStream> = Vec::new();
            let mut i: usize = 0;
            while i < items.len()
                invariant
                    i <= items.len(),
                    streams.len() == i,
                    forall|j: int|
                        0 <= j < i ==> (#[trigger] streams[j])@ == elementary_of(
                            json::json_view(items[j]),
                        ),
                decreases items.len() - i,
            {
                let stream = read_elementary(&items[i]);
                streams.push(stream);
                i += 1;
            }
            assert(elementary_views(streams@) =~= views.map_values(
                |item: json::JsonView| elementary_of(item),
            ));
            summarize(&streams)
        },
        None => unknown(),
    }
}

/// What the output of a run says of a source; `None` stands for a run that
/// failed or did not end in time.
pub fn get_stream_metadata(output: Option<&[u8]>) -> (metadata: StreamMetadata)
    ensures
        metadata@ == output_metadata(
            match output {
                Some(bytes) => Some(bytes@),
                None => None,
            },
        ),
{
    match output {
        Some(bytes) => {
            let answer = text::from_utf8_lossy(bytes);
            match json::parse_json(answer.as_str()) {
                Ok(document) => read_answer(&document),
                Err(_) => unknown(),
            }
        },
        None => unknown(),
    }
}

} // verus!
